use vstd::prelude::*;

use crate::credset::CredentialSet;
use crate::errors::{CfgErr, ConfigError, FetchError, LookupError};
use crate::group::UserGroupConfig;
use crate::text::str_eq;
use crate::user::{UserConfig, UserView};

verus! {

/// Where a registry entry stands in its refresh life cycle.
#[derive(Clone, Copy, PartialEq, Eq, Structural, Debug)]
pub enum GroupState {
    /// Static credentials only, no dynamic source; terminal.
    Seeded,
    /// A dynamic source is configured but no fetch has succeeded yet.
    Pending,
    /// The latest fetch succeeded; the entry serves its result.
    Live,
    /// The last fetch failed; the entry serves the prior set.
    Stale,
}

/// One live registry entry: its immutable definition, the latest
/// successfully fetched credential set, and where it stands in the refresh
/// life cycle. Lookups are served from the merged view of the two sets.
pub struct UserGroup {
    pub config: UserGroupConfig,
    pub dynamic_users: CredentialSet,
    pub state: GroupState,
}

/// The entry after a successful fetch: the decoded set replaces the
/// dynamic portion in full, never incrementally, and the entry is live.
pub open spec fn after_success(g: UserGroup, s: CredentialSet) -> UserGroup {
    UserGroup { config: g.config, dynamic_users: s, state: GroupState::Live }
}

/// The entry after a failed fetch: the served data is untouched; an entry
/// still awaiting its first success keeps waiting, any other goes stale.
pub open spec fn after_failure(g: UserGroup) -> UserGroup {
    UserGroup {
        config: g.config,
        dynamic_users: g.dynamic_users,
        state: if g.state == GroupState::Pending {
            GroupState::Pending
        } else {
            GroupState::Stale
        },
    }
}

/// The entry that a fetch outcome leads to.
pub open spec fn fetch_transition(g: UserGroup, res: Result<CredentialSet, FetchError>) -> UserGroup {
    match res {
        Ok(s) => after_success(g, s),
        Err(_) => after_failure(g),
    }
}

impl UserGroup {
    /// Well-formed: the definition and both credential sets are; an entry
    /// without a dynamic source is exactly a seeded one, and then holds no
    /// dynamic credentials.
    pub open spec fn wf(&self) -> bool {
        &&& self.config.wf()
        &&& self.dynamic_users.wf()
        &&& (self.config.dynamic_source is None <==> self.state == GroupState::Seeded)
        &&& (self.state == GroupState::Seeded ==> self.dynamic_users.users@
            == Seq::<UserConfig>::empty())
    }

    /// The one consistent mapping lookups see: the static credentials
    /// overlaid by the dynamic ones; on a collision the dynamic record
    /// wins.
    pub open spec fn merged(&self) -> Map<Seq<char>, UserView> {
        self.config.static_users@.union_prefer_right(self.dynamic_users@)
    }

    /// A fresh entry for a definition: seeded with its static credentials,
    /// and pending a first fetch exactly when it has a dynamic source.
    pub fn new(config: UserGroupConfig) -> (r: UserGroup)
        requires
            config.wf(),
        ensures
            r.wf(),
            r.config == config,
            r.dynamic_users.users@ == Seq::<UserConfig>::empty(),
            r.state == (if config.dynamic_source is Some {
                GroupState::Pending
            } else {
                GroupState::Seeded
            }),
            r.merged() == config.static_users@,
    {
        let state = match &config.dynamic_source {
            Some(_) => GroupState::Pending,
            None => GroupState::Seeded,
        };
        let r = UserGroup { config, dynamic_users: CredentialSet::new(), state };
        proof {
            assert(r.dynamic_users.users@ =~= Seq::<UserConfig>::empty());
            assert(r.merged() =~= r.config.static_users@);
        }
        r
    }

    /// The record the merged view holds for a username, when it holds one.
    pub fn lookup_user(&self, name: &str) -> (r: Option<&UserConfig>)
        requires
            self.wf(),
        ensures
            (match r {
                Some(u) => self.merged().contains_key(name@) && u@ == self.merged()[name@],
                None => !self.merged().contains_key(name@),
            }),
    {
        match self.dynamic_users.get(name) {
            Some(u) => Some(u),
            None => self.config.static_users.get(name),
        }
    }

    /// A snapshot of the merged view, complete at one instant: what a
    /// swappable handle publishes to readers.
    pub fn merged_set(&self) -> (r: CredentialSet)
        requires
            self.wf(),
        ensures
            r.wf(),
            r@ == self.merged(),
    {
        self.config.static_users.merged_with(&self.dynamic_users)
    }

    /// Applies the outcome of one fetch-and-decode round. A success
    /// replaces the dynamic credentials wholesale and makes the entry
    /// live; a failure is fail-safe: it changes nothing that lookups see,
    /// and only marks a previously live or stale entry stale.
    pub fn apply_fetch_result(&mut self, res: Result<CredentialSet, FetchError>)
        requires
            old(self).wf(),
            old(self).config.dynamic_source is Some,
            (res matches Ok(s) ==> s.wf()),
        ensures
            final(self).wf(),
            *final(self) == fetch_transition(*old(self), res),
            (res is Err ==> final(self).merged() == old(self).merged()),
    {
        match res {
            Ok(s) => {
                self.dynamic_users = s;
                self.state = GroupState::Live;
            },
            Err(_) => {
                self.state = if self.state == GroupState::Pending {
                    GroupState::Pending
                } else {
                    GroupState::Stale
                };
            },
        }
    }
}

/// The position of the first entry bearing a group name.
pub open spec fn group_index(s: Seq<UserGroup>, n: Seq<char>) -> Option<int>
    decreases s.len(),
{
    if s.len() == 0 {
        None
    } else if s[0].config.name@ == n {
        Some(0int)
    } else {
        match group_index(s.drop_first(), n) {
            Some(i) => Some(i + 1),
            None => None,
        }
    }
}

/// `group_index` finds exactly the first entry bearing the name.
pub proof fn lemma_group_index(s: Seq<UserGroup>, n: Seq<char>)
    ensures
        (match group_index(s, n) {
            Some(i) => 0 <= i < s.len() && s[i].config.name@ == n && (forall|j: int|
                0 <= j < i ==> s[j].config.name@ != n),
            None => forall|j: int| 0 <= j < s.len() ==> s[j].config.name@ != n,
        }),
    decreases s.len(),
{
    if s.len() > 0 && s[0].config.name@ != n {
        lemma_group_index(s.drop_first(), n);
        assert forall|j: int|
            0 <= j < s.len() && group_index(s.drop_first(), n) is None implies s[j].config.name@
            != n by {
            if j > 0 {
                assert(s.drop_first()[j - 1] == s[j]);
            }
        }
        if group_index(s.drop_first(), n) is Some {
            let i = group_index(s.drop_first(), n)->Some_0;
            assert(s.drop_first()[i] == s[i + 1]);
            assert forall|j: int| 0 <= j < i + 1 implies s[j].config.name@ != n by {
                if j > 0 {
                    assert(s.drop_first()[j - 1] == s[j]);
                }
            }
        }
    }
}

/// The authentication group registry: one live, swappable entry per group,
/// with unique group names.
pub struct AuthRegistry {
    pub groups: Vec<UserGroup>,
}

impl AuthRegistry {
    /// Well-formed: every entry is, and no two entries share a name.
    pub open spec fn wf(&self) -> bool {
        &&& (forall|i: int| 0 <= i < self.groups@.len() ==> (#[trigger] self.groups@[i]).wf())
        &&& (forall|i: int, j: int|
            0 <= i < j < self.groups@.len() ==> self.groups@[i].config.name@
                != self.groups@[j].config.name@)
    }

    /// Builds a registry from one configuration generation, all or
    /// nothing: a duplicate group name rejects the whole generation,
    /// naming the duplicate, and then no group activates.
    #[verifier::loop_isolation(false)]
    pub fn load(configs: Vec<UserGroupConfig>) -> (r: Result<AuthRegistry, ConfigError>)
        requires
            forall|i: int| 0 <= i < configs@.len() ==> (#[trigger] configs@[i]).wf(),
        ensures
            (match r {
                Ok(reg) => {
                    &&& reg.wf()
                    &&& reg.groups@.len() == configs@.len()
                    &&& (forall|i: int|
                        0 <= i < configs@.len() ==> (#[trigger] reg.groups@[i]).config
                            == configs@[i] && reg.groups@[i].dynamic_users.users@
                            == Seq::<UserConfig>::empty() && reg.groups@[i].state == (
                        if configs@[i].dynamic_source is Some {
                            GroupState::Pending
                        } else {
                            GroupState::Seeded
                        }))
                    &&& (forall|i: int, j: int|
                        0 <= i < j < configs@.len() ==> configs@[i].name@ != configs@[j].name@)
                },
                Err(e) => {
                    &&& (exists|i: int, j: int|
                        0 <= i < j < configs@.len() && configs@[i].name@ == configs@[j].name@)
                    &&& (e matches ConfigError::DuplicateGroup(n) && (exists|i: int, j: int|
                        0 <= i < j < configs@.len() && configs@[i].name@ == configs@[j].name@
                            && configs@[j].name@ == n@))
                },
            }),
    {
        let n = configs.len();
        let mut i: usize = 0;
        while i < n
            invariant
                i <= n,
                forall|a: int, b: int| 0 <= a < b < i ==> configs@[a].name@ != configs@[b].name@,
            decreases n - i,
        {
            let mut j: usize = 0;
            while j < i
                invariant
                    j <= i < n,
                    forall|b: int| 0 <= b < j ==> configs@[b].name@ != configs@[i as int].name@,
                decreases i - j,
            {
                if str_eq(configs[j].name.as_str(), configs[i].name.as_str()) {
                    let dup = configs[i].name.clone();
                    return Err(ConfigError::DuplicateGroup(dup));
                }
                j += 1;
            }
            i += 1;
        }
        let ghost orig = configs@;
        let mut rest = configs;
        let mut entries: Vec<UserGroup> = Vec::new();
        while rest.len() > 0
            invariant
                entries@.len() + rest@.len() == orig.len(),
                rest@ == orig.skip(entries@.len() as int),
                forall|k: int|
                    0 <= k < entries@.len() ==> (#[trigger] entries@[k]).config == orig[k]
                        && entries@[k].wf() && entries@[k].dynamic_users.users@
                        == Seq::<UserConfig>::empty() && entries@[k].state == (
                    if orig[k].dynamic_source is Some {
                        GroupState::Pending
                    } else {
                        GroupState::Seeded
                    }),
            decreases rest@.len(),
        {
            proof {
                assert(rest@[0] == orig[entries@.len() as int]);
                assert(rest@.remove(0) =~= orig.skip(entries@.len() as int + 1));
            }
            let c = rest.remove(0);
            entries.push(UserGroup::new(c));
        }
        Ok(AuthRegistry { groups: entries })
    }

    /// The position of the entry bearing a group name, when one exists.
    fn find_group(&self, group: &str) -> (r: Option<usize>)
        ensures
            (match r {
                Some(i) => group_index(self.groups@, group@) == Some(i as int),
                None => group_index(self.groups@, group@) is None,
            }),
    {
        proof {
            lemma_group_index(self.groups@, group@);
        }
        let n = self.groups.len();
        let mut i: usize = 0;
        while i < n
            invariant
                n == self.groups@.len(),
                i <= n,
                forall|j: int| 0 <= j < i ==> self.groups@[j].config.name@ != group@,
            decreases n - i,
        {
            if str_eq(self.groups[i].config.name.as_str(), group) {
                proof {
                    lemma_group_index(self.groups@, group@);
                    if group_index(self.groups@, group@) is None {
                        assert(false);
                    }
                    let fi = group_index(self.groups@, group@)->Some_0;
                    assert(fi == i as int);
                }
                return Some(i);
            }
            i += 1;
        }
        proof {
            lemma_group_index(self.groups@, group@);
        }
        None
    }

    /// Authenticates a claimed user of a group against one consistent
    /// snapshot of the group's merged credential set. An unknown group and
    /// an unknown user are expected authentication-failure traffic, told
    /// apart in the error.
    pub fn lookup(&self, group: &str, username: &str) -> (r: Result<UserConfig, LookupError>)
        requires
            self.wf(),
        ensures
            (match group_index(self.groups@, group@) {
                None => r == Err::<UserConfig, LookupError>(LookupError::UnknownGroup),
                Some(i) => {
                    let m = self.groups@[i].merged();
                    if m.contains_key(username@) {
                        r matches Ok(u) && u@ == m[username@]
                    } else {
                        r == Err::<UserConfig, LookupError>(LookupError::UnknownUser)
                    }
                },
            }),
    {
        let i = match self.find_group(group) {
            Some(i) => i,
            None => {
                return Err(LookupError::UnknownGroup);
            },
        };
        proof {
            lemma_group_index(self.groups@, group@);
        }
        match self.groups[i].lookup_user(username) {
            Some(u) => Ok(u.clone()),
            None => Err(LookupError::UnknownUser),
        }
    }

    /// Routes one fetch-and-decode outcome to the named group's entry; all
    /// other entries are untouched, so a failure is isolated to its group.
    /// A group without a dynamic source never fetches, so the outcome of
    /// one cannot touch it.
    pub fn apply_fetch(&mut self, group: &str, res: Result<CredentialSet, FetchError>) -> (r:
        Result<(), LookupError>)
        requires
            old(self).wf(),
            (res matches Ok(s) ==> s.wf()),
        ensures
            final(self).wf(),
            (match group_index(old(self).groups@, group@) {
                None => r == Err::<(), LookupError>(LookupError::UnknownGroup) && *final(self)
                    == *old(self),
                Some(i) => r == Ok::<(), LookupError>(()) && (
                if old(self).groups@[i].config.dynamic_source is None {
                    *final(self) == *old(self)
                } else {
                    final(self).groups@ == old(self).groups@.update(
                        i,
                        fetch_transition(old(self).groups@[i], res),
                    )
                }),
            }),
    {
        let i = match self.find_group(group) {
            Some(i) => i,
            None => {
                return Err(LookupError::UnknownGroup);
            },
        };
        proof {
            lemma_group_index(self.groups@, group@);
        }
        if self.groups[i].config.dynamic_source.is_none() {
            return Ok(());
        }
        let entry = &mut self.groups[i];
        entry.apply_fetch_result(res);
        proof {
            assert forall|a: int, b: int|
                0 <= a < b < self.groups@.len() implies self.groups@[a].config.name@
                != self.groups@[b].config.name@ by {
                assert(old(self).groups@[a].config.name@ != old(self).groups@[b].config.name@);
            }
        }
        Ok(())
    }

    /// The start offset that staggers the first refresh of the group at a
    /// given index: an eighth of the interval per slot, always strictly
    /// inside the interval, so that process start does not fetch every
    /// group at once.
    pub fn stagger_offset(index: usize, interval_nanos: u128) -> (r: u128)
        requires
            interval_nanos > 0,
        ensures
            r == (index as int % 8) * (interval_nanos as int / 8),
            r < interval_nanos,
    {
        let slot = (index % 8) as u128;
        let step = interval_nanos / 8;
        proof {
            assert(slot * step < interval_nanos) by (nonlinear_arith)
                requires
                    slot < 8,
                    step == interval_nanos / 8,
                    interval_nanos > 0,
            ;
        }
        slot * step
    }
}

/// Law: a writer publishes a refresh by swapping in a complete new
/// snapshot, so a reader holds either the prior or the next merged set,
/// never a mix — and then a username present in both sets is found in
/// whichever snapshot the reader holds.
pub proof fn lemma_no_torn_read(
    prior: Map<Seq<char>, UserView>,
    next: Map<Seq<char>, UserView>,
    observed: Map<Seq<char>, UserView>,
    name: Seq<char>,
)
    requires
        observed == prior || observed == next,
        prior.contains_key(name),
        next.contains_key(name),
    ensures
        observed.contains_key(name),
{
}

/// Law: refreshing an entry with an unchanged decoded credential set is
/// idempotent — the second application leaves the entry, and with it the
/// merged view that lookups see, exactly as the first left them.
pub proof fn lemma_refresh_idempotent(g: UserGroup, s: CredentialSet)
    ensures
        fetch_transition(fetch_transition(g, Ok(s)), Ok(s)) == fetch_transition(g, Ok(s)),
        fetch_transition(fetch_transition(g, Ok(s)), Ok(s)).merged() == fetch_transition(
            g,
            Ok(s),
        ).merged(),
{
}

/// Law: decoding a well-formed payload and merging it over static
/// credentials yields a set that contains every username of the payload,
/// and an identically named static record is overridden by the dynamic
/// one.
pub proof fn lemma_decode_merge_round_trip(
    stat: Map<Seq<char>, UserView>,
    v: crate::value::ConfigValue,
    m: Map<Seq<char>, UserView>,
)
    requires
        crate::feed::decode_spec(v) == Ok::<Map<Seq<char>, UserView>, crate::errors::DecErr>(m),
    ensures
        (v matches crate::value::ConfigValue::Sequence(elems) ==> forall|i: int|
            0 <= i < elems@.len() ==> (#[trigger] crate::feed::record_username(elems@[i]) matches
            Some(n) && stat.union_prefer_right(m).contains_key(n))),
        forall|n: Seq<char>|
            m.contains_key(n) ==> #[trigger] stat.union_prefer_right(m)[n] == m[n]
                && stat.union_prefer_right(m).contains_key(n),
{
    let elems = v->Sequence_0;
    crate::feed::lemma_static_fold_contains(Map::<Seq<char>, UserView>::empty(), elems@);
}

} // verus!
