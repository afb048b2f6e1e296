use vstd::prelude::*;

use crate::credset::CredentialSet;
use crate::errors::{CfgErr, DecErr, DecodeError};
use crate::group::static_fold;
use crate::user::{user_parsed, UserConfig, UserView};
use crate::value::ConfigValue;

verus! {

/// What decoding a fetched credential payload yields: the payload must be
/// a sequence of user records, folded into a credential set exactly as
/// static user records are; an ambiguous record is rejected, never
/// silently dropped.
pub open spec fn decode_spec(v: ConfigValue) -> Result<Map<Seq<char>, UserView>, DecErr> {
    match v {
        ConfigValue::Sequence(elems) => match static_fold(
            Map::<Seq<char>, UserView>::empty(),
            elems@,
        ) {
            Ok(m) => Ok(m),
            Err(e) => Err(DecErr::BadRecord(e)),
        },
        _ => Err(DecErr::NotSequence),
    }
}

/// Decodes a fetched payload into a credential set, as `decode_spec` says:
/// the payload must be a sequence of user records; a malformed record, an
/// unknown key, a bad date-time or a duplicate username rejects the whole
/// payload, naming the offender.
#[verifier::loop_isolation(false)]
pub fn decode(v: &ConfigValue) -> (r: Result<CredentialSet, DecodeError>)
    ensures
        (match r {
            Ok(set) => decode_spec(*v) == Ok::<Map<Seq<char>, UserView>, DecErr>(set@) && set.wf(),
            Err(e) => decode_spec(*v) == Err::<Map<Seq<char>, UserView>, DecErr>(e@),
        }),
{
    let elems = match v {
        ConfigValue::Sequence(elems) => elems,
        _ => {
            return Err(DecodeError::NotSequence);
        },
    };
    let mut set = CredentialSet::new();
    let mut i: usize = 0;
    proof {
        assert(elems@.skip(0) =~= elems@);
    }
    while i < elems.len()
        invariant
            i <= elems@.len(),
            set.wf(),
            static_fold(Map::<Seq<char>, UserView>::empty(), elems@) == static_fold(
                set@,
                elems@.skip(i as int),
            ),
        decreases elems@.len() - i,
    {
        proof {
            assert(elems@.skip(i as int)[0] == elems@[i as int]);
            assert(elems@.skip(i as int).drop_first() =~= elems@.skip(i as int + 1));
        }
        let um = match &elems[i] {
            ConfigValue::Mapping(um) => um,
            _ => {
                return Err(DecodeError::BadRecord(crate::errors::ConfigError::InvalidValue(
                    String::from_str("static_users"),
                )));
            },
        };
        let u = match UserConfig::parse(um) {
            Ok(u) => u,
            Err(e) => {
                return Err(DecodeError::BadRecord(e));
            },
        };
        match set.insert(u) {
            Ok(()) => {},
            Err(e) => {
                return Err(DecodeError::BadRecord(e));
            },
        }
        i += 1;
    }
    proof {
        assert(elems@.skip(elems@.len() as int) =~= Seq::<ConfigValue>::empty());
    }
    Ok(set)
}

/// The username that a payload record would contribute: that of its parsed
/// user, or nothing when the record does not parse.
pub open spec fn record_username(c: ConfigValue) -> Option<Seq<char>> {
    match c {
        ConfigValue::Mapping(um) => match user_parsed(um@) {
            Ok(u) => Some(u.name),
            Err(_) => None,
        },
        _ => None,
    }
}

/// A successful fold keeps every username it started with and adds the
/// username of every record of the payload.
pub proof fn lemma_static_fold_contains(m: Map<Seq<char>, UserView>, elems: Seq<ConfigValue>)
    requires
        static_fold(m, elems) is Ok,
    ensures
        forall|n: Seq<char>|
            m.contains_key(n) ==> #[trigger] static_fold(m, elems)->Ok_0.contains_key(n),
        forall|i: int|
            0 <= i < elems.len() ==> (#[trigger] record_username(elems[i]) matches Some(n)
                && static_fold(m, elems)->Ok_0.contains_key(n)),
    decreases elems.len(),
{
    if elems.len() > 0 {
        let u = user_parsed(elems[0]->Mapping_0@)->Ok_0;
        lemma_static_fold_contains(m.insert(u.name, u), elems.drop_first());
        assert forall|i: int|
            0 <= i < elems.len() implies (#[trigger] record_username(elems[i]) matches Some(n)
            && static_fold(m, elems)->Ok_0.contains_key(n)) by {
            if i == 0 {
                assert(m.insert(u.name, u).contains_key(u.name));
            } else {
                assert(elems.drop_first()[i - 1] == elems[i]);
                assert(record_username(elems.drop_first()[i - 1]) matches Some(n)
                    && static_fold(m.insert(u.name, u), elems.drop_first())->Ok_0.contains_key(n));
            }
        }
    }
}

/// A successful fold starts from a map free of every record's username and
/// yields pairwise-distinct usernames across the records.
pub proof fn lemma_static_fold_unique(m: Map<Seq<char>, UserView>, elems: Seq<ConfigValue>)
    requires
        static_fold(m, elems) is Ok,
    ensures
        forall|i: int|
            0 <= i < elems.len() ==> !m.contains_key(
                (#[trigger] record_username(elems[i]))->Some_0,
            ),
        forall|i: int, j: int|
            0 <= i < j < elems.len() ==> #[trigger] record_username(elems[i])
                != #[trigger] record_username(elems[j]),
    decreases elems.len(),
{
    if elems.len() > 0 {
        let u = user_parsed(elems[0]->Mapping_0@)->Ok_0;
        lemma_static_fold_contains(m, elems);
        lemma_static_fold_unique(m.insert(u.name, u), elems.drop_first());
        assert forall|i: int| 0 <= i < elems.len() implies !m.contains_key(
            (#[trigger] record_username(elems[i]))->Some_0,
        ) by {
            if i > 0 {
                assert(elems.drop_first()[i - 1] == elems[i]);
                assert(!m.insert(u.name, u).contains_key(
                    record_username(elems.drop_first()[i - 1])->Some_0,
                ));
            }
        }
        assert forall|i: int, j: int|
            0 <= i < j < elems.len() implies #[trigger] record_username(elems[i])
            != #[trigger] record_username(elems[j]) by {
            assert(elems.drop_first()[j - 1] == elems[j]);
            if i > 0 {
                assert(elems.drop_first()[i - 1] == elems[i]);
            } else {
                assert(!m.insert(u.name, u).contains_key(
                    record_username(elems.drop_first()[j - 1])->Some_0,
                ));
            }
        }
    }
}

/// Law: a list of user records in which two entries share a username never
/// loads — folding it into a credential map fails, whether the list stands
/// under `static_users` or arrives as a dynamic payload.
pub proof fn lemma_duplicate_user_rejected(
    m: Map<Seq<char>, UserView>,
    elems: Seq<ConfigValue>,
    i: int,
    j: int,
)
    requires
        0 <= i < j < elems.len(),
        record_username(elems[i]) is Some,
        record_username(elems[i]) == record_username(elems[j]),
    ensures
        static_fold(m, elems) is Err,
{
    if static_fold(m, elems) is Ok {
        lemma_static_fold_unique(m, elems);
        assert(record_username(elems[i]) != record_username(elems[j]));
        assert(false);
    }
}

} // verus!
