use vstd::prelude::*;

use crate::credset::CredentialSet;
use crate::errors::{CfgErr, ConfigError};
use crate::text::{dir_of_path, parent_dir, resolve_path, resolved_path, str_eq};
use crate::user::{user_parsed, UserConfig, UserView};
use crate::value::ConfigValue;

verus! {

/// The length of time a duration text denotes, as whole nanoseconds, or
/// nothing when the text is not a well-formed duration.
pub uninterp spec fn parsed_duration_nanos(s: Seq<char>) -> Option<u64>;

/// Relies on `humanize_rs::duration::parse`: the parse outcome depends on
/// the text alone, and that parser builds its result from a whole number of
/// nanoseconds.
#[verifier::external_body]
fn parse_duration_str(s: &str) -> (r: Option<u64>)
    ensures
        r == parsed_duration_nanos(s@),
{
    humanize_rs::duration::parse(s).ok().map(|d| d.as_nanos() as u64)
}

/// Where in a configuration document tree a group was defined: the path of
/// the defining document and the index of the group within it.
pub struct DocPosition {
    pub path: String,
    pub index: usize,
}

/// The ghost image of a document position.
pub struct DocPosView {
    pub path: Seq<char>,
    pub index: int,
}

impl View for DocPosition {
    type V = DocPosView;

    open spec fn view(&self) -> DocPosView {
        DocPosView { path: self.path@, index: self.index as int }
    }
}

impl Clone for DocPosition {
    fn clone(&self) -> (r: Self)
        ensures
            r == *self,
    {
        DocPosition { path: self.path.clone(), index: self.index }
    }
}

/// The descriptor of one dynamic credential feed: a closed set of variants
/// chosen at load time. The registry is agnostic to which variant a group
/// uses.
pub enum UserDynamicSource {
    /// A feed read from a file; the path is resolved at load time.
    File { path: String },
    /// A feed fetched over HTTP(S).
    Http { url: String },
}

/// The ghost image of a dynamic-source descriptor.
pub enum SourceView {
    File(Seq<char>),
    Http(Seq<char>),
}

impl View for UserDynamicSource {
    type V = SourceView;

    open spec fn view(&self) -> SourceView {
        match self {
            UserDynamicSource::File { path } => SourceView::File(path@),
            UserDynamicSource::Http { url } => SourceView::Http(url@),
        }
    }
}

/// A dynamic-source descriptor while its keys are being read.
pub struct SourcePartial {
    pub ty: Option<String>,
    pub path: Option<String>,
    pub url: Option<String>,
}

/// The ghost image of a partially read descriptor.
pub struct SourcePartialView {
    pub ty: Option<Seq<char>>,
    pub path: Option<Seq<char>>,
    pub url: Option<Seq<char>>,
}

impl View for SourcePartial {
    type V = SourcePartialView;

    open spec fn view(&self) -> SourcePartialView {
        SourcePartialView {
            ty: match self.ty {
                Some(ref s) => Some(s@),
                None => None,
            },
            path: match self.path {
                Some(ref s) => Some(s@),
                None => None,
            },
            url: match self.url {
                Some(ref s) => Some(s@),
                None => None,
            },
        }
    }
}

/// What one key of a dynamic-source descriptor does to the descriptor read
/// so far: `type`, `path` and `url` take any string; every other key is
/// unknown.
pub open spec fn source_field(p: SourcePartialView, k: Seq<char>, v: ConfigValue) -> Result<
    SourcePartialView,
    CfgErr,
> {
    if k == "type"@ {
        match v {
            ConfigValue::Text(s) => Ok(SourcePartialView { ty: Some(s@), ..p }),
            _ => Err(CfgErr::InvalidValue(k)),
        }
    } else if k == "path"@ {
        match v {
            ConfigValue::Text(s) => Ok(SourcePartialView { path: Some(s@), ..p }),
            _ => Err(CfgErr::InvalidValue(k)),
        }
    } else if k == "url"@ {
        match v {
            ConfigValue::Text(s) => Ok(SourcePartialView { url: Some(s@), ..p }),
            _ => Err(CfgErr::InvalidValue(k)),
        }
    } else {
        Err(CfgErr::UnknownKey(k))
    }
}

/// The descriptor that reading the given keys in order builds on top of
/// `p`, or the first error met.
pub open spec fn source_fold(p: SourcePartialView, entries: Seq<(String, ConfigValue)>) -> Result<
    SourcePartialView,
    CfgErr,
>
    decreases entries.len(),
{
    if entries.len() == 0 {
        Ok(p)
    } else {
        match source_field(p, entries[0].0@, entries[0].1) {
            Ok(p2) => source_fold(p2, entries.drop_first()),
            Err(e) => Err(e),
        }
    }
}

/// What a fully read descriptor must amount to: a `type` of `file` with a
/// `path` (resolved against the defining document's directory), or a
/// `type` of `http` or `https` with a `url`.
pub open spec fn source_checked(p: SourcePartialView, dir: Seq<char>) -> Result<
    SourceView,
    CfgErr,
> {
    match p.ty {
        None => Err(CfgErr::MissingKey("type"@)),
        Some(t) => if t == "file"@ {
            match p.path {
                Some(pa) => Ok(SourceView::File(resolved_path(dir, pa))),
                None => Err(CfgErr::MissingKey("path"@)),
            }
        } else if t == "http"@ || t == "https"@ {
            match p.url {
                Some(u) => Ok(SourceView::Http(u)),
                None => Err(CfgErr::MissingKey("url"@)),
            }
        } else {
            Err(CfgErr::InvalidValue("type"@))
        },
    }
}

/// What parsing a whole dynamic-source value yields: the value must be a
/// mapping, its keys are folded, and the result is checked.
pub open spec fn source_spec(v: ConfigValue, dir: Seq<char>) -> Result<SourceView, CfgErr> {
    match v {
        ConfigValue::Mapping(m) => match source_fold(
            SourcePartialView { ty: None, path: None, url: None },
            m@,
        ) {
            Ok(p) => source_checked(p, dir),
            Err(e) => Err(e),
        },
        _ => Err(CfgErr::InvalidValue("source"@)),
    }
}

impl UserDynamicSource {
    /// Parses a dynamic-source descriptor from its already-typed value, as
    /// `source_spec` says. A relative file path is resolved against
    /// `lookup_dir`, the directory of the defining document.
    #[verifier::loop_isolation(false)]
    pub fn parse_config(v: &ConfigValue, lookup_dir: &str) -> (r: Result<
        UserDynamicSource,
        ConfigError,
    >)
        ensures
            (match r {
                Ok(s) => source_spec(*v, lookup_dir@) == Ok::<SourceView, CfgErr>(s@),
                Err(e) => source_spec(*v, lookup_dir@) == Err::<SourceView, CfgErr>(e@),
            }),
    {
        let m = match v {
            ConfigValue::Mapping(m) => m,
            _ => {
                return Err(ConfigError::InvalidValue(String::from_str("source")));
            },
        };
        let mut p = SourcePartial { ty: None, path: None, url: None };
        let mut i: usize = 0;
        proof {
            assert(m@.skip(0) =~= m@);
        }
        while i < m.len()
            invariant
                i <= m@.len(),
                source_fold(SourcePartialView { ty: None, path: None, url: None }, m@)
                    == source_fold(p@, m@.skip(i as int)),
            decreases m@.len() - i,
        {
            proof {
                assert(m@.skip(i as int)[0] == m@[i as int]);
                assert(m@.skip(i as int).drop_first() =~= m@.skip(i as int + 1));
            }
            let (k, val) = &m[i];
            if str_eq(k.as_str(), "type") {
                match val {
                    ConfigValue::Text(s) => {
                        p.ty = Some(s.clone());
                    },
                    _ => {
                        return Err(ConfigError::InvalidValue(k.clone()));
                    },
                }
            } else if str_eq(k.as_str(), "path") {
                match val {
                    ConfigValue::Text(s) => {
                        p.path = Some(s.clone());
                    },
                    _ => {
                        return Err(ConfigError::InvalidValue(k.clone()));
                    },
                }
            } else if str_eq(k.as_str(), "url") {
                match val {
                    ConfigValue::Text(s) => {
                        p.url = Some(s.clone());
                    },
                    _ => {
                        return Err(ConfigError::InvalidValue(k.clone()));
                    },
                }
            } else {
                return Err(ConfigError::UnknownKey(k.clone()));
            }
            i += 1;
        }
        proof {
            assert(m@.skip(m@.len() as int) =~= Seq::<(String, ConfigValue)>::empty());
        }
        let ty = match p.ty {
            Some(t) => t,
            None => {
                return Err(ConfigError::MissingKey(String::from_str("type")));
            },
        };
        if str_eq(ty.as_str(), "file") {
            match p.path {
                Some(pa) => Ok(UserDynamicSource::File { path: resolve_path(lookup_dir, pa.as_str()) }),
                None => Err(ConfigError::MissingKey(String::from_str("path"))),
            }
        } else if str_eq(ty.as_str(), "http") || str_eq(ty.as_str(), "https") {
            match p.url {
                Some(u) => Ok(UserDynamicSource::Http { url: u }),
                None => Err(ConfigError::MissingKey(String::from_str("url"))),
            }
        } else {
            Err(ConfigError::InvalidValue(String::from_str("type")))
        }
    }
}

/// The default refresh interval: sixty seconds, in nanoseconds.
pub const DEFAULT_REFRESH_INTERVAL_NANOS: u128 = 60_000_000_000;

/// The immutable, parsed description of one authentication group: its
/// unique name, its permanent static credentials, an optional dynamic
/// source, the refresh interval of that source, and where the group was
/// defined. Replaced wholesale on reload, never patched.
pub struct UserGroupConfig {
    pub name: String,
    pub position: Option<DocPosition>,
    pub static_users: CredentialSet,
    pub dynamic_source: Option<UserDynamicSource>,
    /// Strictly positive; in nanoseconds.
    pub refresh_interval: u128,
}

/// The ghost image of a group definition.
pub struct GroupView {
    pub name: Seq<char>,
    pub position: Option<DocPosView>,
    pub static_users: Map<Seq<char>, UserView>,
    pub source: Option<SourceView>,
    pub interval_nanos: int,
}

impl View for UserGroupConfig {
    type V = GroupView;

    open spec fn view(&self) -> GroupView {
        GroupView {
            name: self.name@,
            position: match self.position {
                Some(ref p) => Some(p@),
                None => None,
            },
            static_users: self.static_users@,
            source: match self.dynamic_source {
                Some(ref s) => Some(s@),
                None => None,
            },
            interval_nanos: self.refresh_interval as int,
        }
    }
}

/// The directory against which a group's relative source paths resolve:
/// that of its defining document, or nothing when the group has no
/// recorded position.
pub open spec fn lookup_dir_spec(pos: Option<DocPosView>) -> Seq<char> {
    match pos {
        Some(p) => parent_dir(p.path),
        None => Seq::empty(),
    }
}

/// The static credential map that reading user records in order builds on
/// top of `m`: each record must be a mapping that parses as a user, and a
/// username already present is a duplicate, named in the error.
pub open spec fn static_fold(m: Map<Seq<char>, UserView>, elems: Seq<ConfigValue>) -> Result<
    Map<Seq<char>, UserView>,
    CfgErr,
>
    decreases elems.len(),
{
    if elems.len() == 0 {
        Ok(m)
    } else {
        match elems[0] {
            ConfigValue::Mapping(um) => match user_parsed(um@) {
                Ok(u) => if m.contains_key(u.name) {
                    Err(CfgErr::DuplicateUser(u.name))
                } else {
                    static_fold(m.insert(u.name, u), elems.drop_first())
                },
                Err(e) => Err(e),
            },
            _ => Err(CfgErr::InvalidValue("static_users"@)),
        }
    }
}

/// What a refresh-interval value denotes, in nanoseconds: a duration text,
/// or an integer number of seconds. Zero or negative is rejected as such;
/// anything else unreadable is an invalid value.
pub open spec fn interval_spec(k: Seq<char>, v: ConfigValue) -> Result<int, CfgErr> {
    match v {
        ConfigValue::Text(s) => match parsed_duration_nanos(s@) {
            Some(n) => if n == 0 {
                Err(CfgErr::NonPositiveInterval)
            } else {
                Ok(n as int)
            },
            None => Err(CfgErr::InvalidValue(k)),
        },
        ConfigValue::Integer(i) => if i <= 0 {
            Err(CfgErr::NonPositiveInterval)
        } else {
            Ok(i as int * 1_000_000_000)
        },
        _ => Err(CfgErr::InvalidValue(k)),
    }
}

/// What one key of a group definition does to the definition built so far:
/// `name` takes a string, `static_users` a sequence of user records,
/// `source` a dynamic-source descriptor, `refresh_interval` a strictly
/// positive duration; every other key is unknown.
pub open spec fn group_field(g: GroupView, k: Seq<char>, v: ConfigValue) -> Result<
    GroupView,
    CfgErr,
> {
    if k == "name"@ {
        match v {
            ConfigValue::Text(s) => Ok(GroupView { name: s@, ..g }),
            _ => Err(CfgErr::InvalidValue(k)),
        }
    } else if k == "static_users"@ {
        match v {
            ConfigValue::Sequence(elems) => match static_fold(g.static_users, elems@) {
                Ok(m) => Ok(GroupView { static_users: m, ..g }),
                Err(e) => Err(e),
            },
            _ => Err(CfgErr::InvalidValue(k)),
        }
    } else if k == "source"@ {
        match source_spec(v, lookup_dir_spec(g.position)) {
            Ok(s) => Ok(GroupView { source: Some(s), ..g }),
            Err(e) => Err(e),
        }
    } else if k == "refresh_interval"@ {
        match interval_spec(k, v) {
            Ok(n) => Ok(GroupView { interval_nanos: n, ..g }),
            Err(e) => Err(e),
        }
    } else {
        Err(CfgErr::UnknownKey(k))
    }
}

/// The definition that reading the given keys in order builds on top of
/// `g`, or the first error met.
pub open spec fn group_fold(g: GroupView, entries: Seq<(String, ConfigValue)>) -> Result<
    GroupView,
    CfgErr,
>
    decreases entries.len(),
{
    if entries.len() == 0 {
        Ok(g)
    } else {
        match group_field(g, entries[0].0@, entries[0].1) {
            Ok(g2) => group_fold(g2, entries.drop_first()),
            Err(e) => Err(e),
        }
    }
}

/// What parsing a whole group definition on top of `g` yields: the fold
/// over its keys, rejected afterwards when no non-empty name was given.
pub open spec fn group_parsed(g: GroupView, entries: Seq<(String, ConfigValue)>) -> Result<
    GroupView,
    CfgErr,
> {
    match group_fold(g, entries) {
        Ok(g2) => if g2.name.len() == 0 {
            Err(CfgErr::MissingName)
        } else {
            Ok(g2)
        },
        Err(e) => Err(e),
    }
}

impl UserGroupConfig {
    /// Structurally sound: static usernames are unique and the refresh
    /// interval is strictly positive.
    pub open spec fn sound(&self) -> bool {
        self.static_users.wf() && self.refresh_interval > 0
    }

    /// Well-formed: sound, with a non-empty name.
    pub open spec fn wf(&self) -> bool {
        self.sound() && self.name@.len() > 0
    }

    /// The group's name.
    pub fn name(&self) -> (r: &str)
        ensures
            r@ == self@.name,
    {
        self.name.as_str()
    }

    /// Where the group was defined, when that was recorded.
    pub fn position(&self) -> (r: Option<DocPosition>)
        ensures
            r == self.position,
    {
        match &self.position {
            Some(p) => Some(p.clone()),
            None => None,
        }
    }

    /// A group of the given name with no position, no static users, no
    /// dynamic source, and the default refresh interval.
    pub fn empty(name: &str) -> (r: UserGroupConfig)
        ensures
            r@.name == name@,
            r@.position == None::<DocPosView>,
            r@.static_users == Map::<Seq<char>, UserView>::empty(),
            r@.source == None::<SourceView>,
            r@.interval_nanos == DEFAULT_REFRESH_INTERVAL_NANOS as int,
            r.sound(),
    {
        UserGroupConfig {
            name: String::from_str(name),
            position: None,
            static_users: CredentialSet::new(),
            dynamic_source: None,
            refresh_interval: DEFAULT_REFRESH_INTERVAL_NANOS,
        }
    }

    /// A group awaiting its keys: empty name, the given position, no
    /// static users, no dynamic source, and the default refresh interval.
    pub fn new(position: Option<DocPosition>) -> (r: UserGroupConfig)
        ensures
            r@.name == Seq::<char>::empty(),
            r.position == position,
            r@.static_users == Map::<Seq<char>, UserView>::empty(),
            r@.source == None::<SourceView>,
            r@.interval_nanos == DEFAULT_REFRESH_INTERVAL_NANOS as int,
            r.sound(),
    {
        UserGroupConfig {
            name: String::new(),
            position,
            static_users: CredentialSet::new(),
            dynamic_source: None,
            refresh_interval: DEFAULT_REFRESH_INTERVAL_NANOS,
        }
    }

    /// Applies one key of the definition document, as `group_field` says.
    #[verifier::loop_isolation(false)]
    fn set(&mut self, k: &str, v: &ConfigValue) -> (r: Result<(), ConfigError>)
        requires
            old(self).sound(),
        ensures
            final(self).sound(),
            (match r {
                Ok(()) => group_field(old(self)@, k@, *v) == Ok::<GroupView, CfgErr>(final(self)@),
                Err(e) => group_field(old(self)@, k@, *v) == Err::<GroupView, CfgErr>(e@),
            }),
    {
        if str_eq(k, "name") {
            match v {
                ConfigValue::Text(s) => {
                    self.name = s.clone();
                    Ok(())
                },
                _ => Err(ConfigError::InvalidValue(String::from_str(k))),
            }
        } else if str_eq(k, "static_users") {
            let elems = match v {
                ConfigValue::Sequence(elems) => elems,
                _ => {
                    return Err(ConfigError::InvalidValue(String::from_str(k)));
                },
            };
            let ghost m0 = self.static_users@;
            let mut i: usize = 0;
            proof {
                assert(elems@.skip(0) =~= elems@);
            }
            while i < elems.len()
                invariant
                    i <= elems@.len(),
                    self.static_users.wf(),
                    self.name == old(self).name,
                    self.position == old(self).position,
                    self.dynamic_source == old(self).dynamic_source,
                    self.refresh_interval == old(self).refresh_interval,
                    static_fold(m0, elems@) == static_fold(self.static_users@, elems@.skip(i as int)),
                decreases elems@.len() - i,
            {
                proof {
                    assert(elems@.skip(i as int)[0] == elems@[i as int]);
                    assert(elems@.skip(i as int).drop_first() =~= elems@.skip(i as int + 1));
                }
                let um = match &elems[i] {
                    ConfigValue::Mapping(um) => um,
                    _ => {
                        return Err(ConfigError::InvalidValue(String::from_str(k)));
                    },
                };
                let u = match UserConfig::parse(um) {
                    Ok(u) => u,
                    Err(e) => {
                        return Err(e);
                    },
                };
                match self.static_users.insert(u) {
                    Ok(()) => {},
                    Err(e) => {
                        return Err(e);
                    },
                }
                i += 1;
            }
            proof {
                assert(elems@.skip(elems@.len() as int) =~= Seq::<ConfigValue>::empty());
            }
            Ok(())
        } else if str_eq(k, "source") {
            let dir = match &self.position {
                Some(p) => dir_of_path(p.path.as_str()),
                None => String::new(),
            };
            match UserDynamicSource::parse_config(v, dir.as_str()) {
                Ok(s) => {
                    self.dynamic_source = Some(s);
                    Ok(())
                },
                Err(e) => Err(e),
            }
        } else if str_eq(k, "refresh_interval") {
            match v {
                ConfigValue::Text(s) => match parse_duration_str(s.as_str()) {
                    Some(n) => if n == 0 {
                        Err(ConfigError::NonPositiveInterval)
                    } else {
                        self.refresh_interval = n as u128;
                        Ok(())
                    },
                    None => Err(ConfigError::InvalidValue(String::from_str(k))),
                },
                ConfigValue::Integer(iv) => if *iv <= 0 {
                    Err(ConfigError::NonPositiveInterval)
                } else {
                    proof {
                        assert((*iv as u128) * 1_000_000_000 <= 9223372036854775807u128
                            * 1_000_000_000) by (nonlinear_arith)
                            requires
                                0 < *iv as u128 <= 9223372036854775807u128,
                        ;
                    }
                    self.refresh_interval = (*iv as u128) * 1_000_000_000;
                    Ok(())
                },
                _ => Err(ConfigError::InvalidValue(String::from_str(k))),
            }
        } else {
            Err(ConfigError::UnknownKey(String::from_str(k)))
        }
    }

    /// Rejects a definition whose name was never set, or set empty.
    fn check(&self) -> (r: Result<(), ConfigError>)
        ensures
            (match r {
                Ok(()) => self@.name.len() > 0,
                Err(e) => self@.name.len() == 0 && e@ == CfgErr::MissingName,
            }),
    {
        if self.name.as_str().unicode_len() == 0 {
            return Err(ConfigError::MissingName);
        }
        Ok(())
    }

    /// Parses a group definition from its already-typed key/value entries,
    /// as `group_parsed` says: every key is applied in order, and a
    /// definition without a non-empty name is rejected. No I/O is
    /// performed beyond descriptor validation.
    #[verifier::loop_isolation(false)]
    pub fn parse(&mut self, map: &Vec<(String, ConfigValue)>) -> (r: Result<(), ConfigError>)
        requires
            old(self).sound(),
        ensures
            final(self).sound(),
            (match r {
                Ok(()) => group_parsed(old(self)@, map@) == Ok::<GroupView, CfgErr>(final(self)@)
                    && final(self).wf(),
                Err(e) => group_parsed(old(self)@, map@) == Err::<GroupView, CfgErr>(e@),
            }),
    {
        let mut i: usize = 0;
        proof {
            assert(map@.skip(0) =~= map@);
        }
        while i < map.len()
            invariant
                i <= map@.len(),
                self.sound(),
                group_fold(old(self)@, map@) == group_fold(self@, map@.skip(i as int)),
            decreases map@.len() - i,
        {
            proof {
                assert(map@.skip(i as int)[0] == map@[i as int]);
                assert(map@.skip(i as int).drop_first() =~= map@.skip(i as int + 1));
            }
            let (k, v) = &map[i];
            match self.set(k.as_str(), v) {
                Ok(()) => {},
                Err(e) => {
                    return Err(e);
                },
            }
            i += 1;
        }
        proof {
            assert(map@.skip(map@.len() as int) =~= Seq::<(String, ConfigValue)>::empty());
        }
        match self.check() {
            Ok(()) => Ok(()),
            Err(e) => Err(e),
        }
    }
}

/// Law: no definition survives loading without a name — a parse that
/// succeeds yields a non-empty name, and one whose keys left the name
/// empty fails, missing-name being the error.
pub proof fn lemma_parsed_name_nonempty(g: GroupView, entries: Seq<(String, ConfigValue)>)
    ensures
        group_parsed(g, entries) matches Ok(g2) ==> g2.name.len() > 0,
        (group_fold(g, entries) matches Ok(g2) && g2.name.len() == 0) ==> group_parsed(g, entries)
            == Err::<GroupView, CfgErr>(CfgErr::MissingName),
{
}

/// Law: a refresh interval of zero or negative never survives loading —
/// every key either keeps the strictly positive interval the definition
/// started from or replaces it with a strictly positive one.
pub proof fn lemma_parsed_interval_positive(g: GroupView, entries: Seq<(String, ConfigValue)>)
    requires
        g.interval_nanos > 0,
    ensures
        group_fold(g, entries) matches Ok(g2) ==> g2.interval_nanos > 0,
        group_parsed(g, entries) matches Ok(g2) ==> g2.interval_nanos > 0,
    decreases entries.len(),
{
    if entries.len() > 0 {
        match group_field(g, entries[0].0@, entries[0].1) {
            Ok(g2) => {
                assert(g2.interval_nanos > 0);
                lemma_parsed_interval_positive(g2, entries.drop_first());
            },
            Err(_) => {},
        }
    }
}

} // verus!
