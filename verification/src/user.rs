use vstd::prelude::*;

use crate::datetime::{rfc3339_decoded, UtcInstant};
use crate::errors::{CfgErr, ConfigError};
use crate::text::str_eq;
use crate::value::ConfigValue;

verus! {

/// One credential record: a username, its secret material, an optional
/// expiry, and opaque per-user metadata.
pub struct UserConfig {
    pub name: String,
    pub token: String,
    pub expire: Option<UtcInstant>,
    pub metadata: Option<String>,
}

/// The ghost image of a credential record.
pub struct UserView {
    pub name: Seq<char>,
    pub token: Seq<char>,
    pub expire: Option<UtcInstant>,
    pub metadata: Option<Seq<char>>,
}

impl View for UserConfig {
    type V = UserView;

    open spec fn view(&self) -> UserView {
        UserView {
            name: self.name@,
            token: self.token@,
            expire: self.expire,
            metadata: match self.metadata {
                Some(ref m) => Some(m@),
                None => None,
            },
        }
    }
}

impl Clone for UserConfig {
    fn clone(&self) -> (r: Self)
        ensures
            r == *self,
    {
        UserConfig {
            name: self.name.clone(),
            token: self.token.clone(),
            expire: self.expire,
            metadata: match &self.metadata {
                Some(m) => Some(m.clone()),
                None => None,
            },
        }
    }
}

/// A record before any key was read: empty name and token, no expiry, no
/// metadata.
pub open spec fn empty_user() -> UserView {
    UserView { name: Seq::empty(), token: Seq::empty(), expire: None, metadata: None }
}

/// What one key of a user record does to the record built so far, or the
/// error that rejects it: `name` and `token` take any string, `expire`
/// takes an RFC 3339 date-time string, `metadata` takes any string, and
/// every other key is unknown.
pub open spec fn user_field(u: UserView, k: Seq<char>, v: ConfigValue) -> Result<UserView, CfgErr> {
    if k == "name"@ {
        match v {
            ConfigValue::Text(s) => Ok(UserView { name: s@, ..u }),
            _ => Err(CfgErr::InvalidValue(k)),
        }
    } else if k == "token"@ {
        match v {
            ConfigValue::Text(s) => Ok(UserView { token: s@, ..u }),
            _ => Err(CfgErr::InvalidValue(k)),
        }
    } else if k == "expire"@ {
        match rfc3339_decoded(v) {
            Ok(t) => Ok(UserView { expire: Some(t), ..u }),
            Err(_) => Err(CfgErr::InvalidDatetime(k)),
        }
    } else if k == "metadata"@ {
        match v {
            ConfigValue::Text(s) => Ok(UserView { metadata: Some(s@), ..u }),
            _ => Err(CfgErr::InvalidValue(k)),
        }
    } else {
        Err(CfgErr::UnknownKey(k))
    }
}

/// The record that reading the given keys in order builds on top of `u`,
/// or the first error met.
pub open spec fn user_fold(u: UserView, entries: Seq<(String, ConfigValue)>) -> Result<
    UserView,
    CfgErr,
>
    decreases entries.len(),
{
    if entries.len() == 0 {
        Ok(u)
    } else {
        match user_field(u, entries[0].0@, entries[0].1) {
            Ok(u2) => user_fold(u2, entries.drop_first()),
            Err(e) => Err(e),
        }
    }
}

/// What parsing a whole user record yields: the fold over its keys,
/// rejected afterwards when no non-empty name was given.
pub open spec fn user_parsed(entries: Seq<(String, ConfigValue)>) -> Result<UserView, CfgErr> {
    match user_fold(empty_user(), entries) {
        Ok(u) => if u.name.len() == 0 {
            Err(CfgErr::MissingName)
        } else {
            Ok(u)
        },
        Err(e) => Err(e),
    }
}

impl UserConfig {
    /// Parses one user record from its already-typed key/value entries, as
    /// `user_parsed` says: an unknown key, a non-string value, a malformed
    /// `expire` date-time, or a missing or empty name rejects the record.
    pub fn parse(map: &Vec<(String, ConfigValue)>) -> (r: Result<UserConfig, ConfigError>)
        ensures
            (match r {
                Ok(u) => user_parsed(map@) == Ok::<UserView, CfgErr>(u@),
                Err(e) => user_parsed(map@) == Err::<UserView, CfgErr>(e@),
            }),
    {
        let mut u = UserConfig { name: String::new(), token: String::new(), expire: None, metadata: None };
        let mut i: usize = 0;
        proof {
            assert(map@.skip(0) =~= map@);
        }
        while i < map.len()
            invariant
                i <= map@.len(),
                user_fold(empty_user(), map@) == user_fold(u@, map@.skip(i as int)),
            decreases map@.len() - i,
        {
            proof {
                assert(map@.skip(i as int)[0] == map@[i as int]);
                assert(map@.skip(i as int).drop_first() =~= map@.skip(i as int + 1));
            }
            let (k, v) = &map[i];
            if str_eq(k.as_str(), "name") {
                match v {
                    ConfigValue::Text(s) => {
                        u.name = s.clone();
                    },
                    _ => {
                        return Err(ConfigError::InvalidValue(k.clone()));
                    },
                }
            } else if str_eq(k.as_str(), "token") {
                match v {
                    ConfigValue::Text(s) => {
                        u.token = s.clone();
                    },
                    _ => {
                        return Err(ConfigError::InvalidValue(k.clone()));
                    },
                }
            } else if str_eq(k.as_str(), "expire") {
                match crate::datetime::as_rfc3339_datetime(v) {
                    Ok(t) => {
                        u.expire = Some(t);
                    },
                    Err(_) => {
                        return Err(ConfigError::InvalidDatetime(k.clone()));
                    },
                }
            } else if str_eq(k.as_str(), "metadata") {
                match v {
                    ConfigValue::Text(s) => {
                        u.metadata = Some(s.clone());
                    },
                    _ => {
                        return Err(ConfigError::InvalidValue(k.clone()));
                    },
                }
            } else {
                return Err(ConfigError::UnknownKey(k.clone()));
            }
            i += 1;
        }
        proof {
            assert(map@.skip(map@.len() as int) =~= Seq::<(String, ConfigValue)>::empty());
        }
        if u.name.as_str().unicode_len() == 0 {
            return Err(ConfigError::MissingName);
        }
        Ok(u)
    }
}

} // verus!
