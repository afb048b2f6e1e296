use vstd::prelude::*;

use crate::errors::{CfgErr, ConfigError};
use crate::text::str_eq;
use crate::user::{UserConfig, UserView};

verus! {

/// The username-to-record mapping valid at one instant. Always a complete
/// set: a refresh replaces it wholesale, never entry by entry.
pub struct CredentialSet {
    pub users: Vec<UserConfig>,
}

/// The mapping that a sequence of records denotes; a later record with the
/// same name would win, though a well-formed set has no such pair.
pub open spec fn user_map(s: Seq<UserConfig>) -> Map<Seq<char>, UserView>
    decreases s.len(),
{
    if s.len() == 0 {
        Map::empty()
    } else {
        user_map(s.drop_last()).insert(s.last().name@, s.last()@)
    }
}

/// No two records share a username.
pub open spec fn unique_names(s: Seq<UserConfig>) -> bool {
    forall|i: int, j: int| 0 <= i < j < s.len() ==> s[i].name@ != s[j].name@
}

/// A name occurs in the denoted mapping exactly when some record bears it.
pub proof fn lemma_user_map_contains(s: Seq<UserConfig>)
    ensures
        forall|n: Seq<char>|
            #[trigger] user_map(s).contains_key(n) <==> (exists|i: int|
                0 <= i < s.len() && s[i].name@ == n),
    decreases s.len(),
{
    if s.len() > 0 {
        lemma_user_map_contains(s.drop_last());
        assert forall|n: Seq<char>| #[trigger] user_map(s).contains_key(n) implies (exists|i: int|
            0 <= i < s.len() && s[i].name@ == n) by {
            if n == s.last().name@ {
                assert(s[s.len() - 1].name@ == n);
            } else {
                assert(user_map(s.drop_last()).contains_key(n));
                let i = choose|i: int| 0 <= i < s.drop_last().len() && s.drop_last()[i].name@ == n;
                assert(s.drop_last()[i] == s[i]);
                assert(s[i].name@ == n);
            }
        }
        assert forall|n: Seq<char>|
            (exists|i: int| 0 <= i < s.len() && s[i].name@ == n) implies #[trigger] user_map(
            s,
        ).contains_key(n) by {
            let i = choose|i: int| 0 <= i < s.len() && s[i].name@ == n;
            if i < s.len() - 1 {
                assert(s.drop_last()[i].name@ == n);
                assert(user_map(s.drop_last()).contains_key(n));
            } else {
                assert(n == s.last().name@);
            }
        }
    }
}

/// In a well-formed sequence, the mapping sends each record's name to that
/// record.
pub proof fn lemma_user_map_get(s: Seq<UserConfig>)
    requires
        unique_names(s),
    ensures
        forall|i: int|
            0 <= i < s.len() ==> user_map(s).contains_key(#[trigger] s[i].name@) && user_map(s)[s[i].name@]
                == s[i]@,
    decreases s.len(),
{
    if s.len() > 0 {
        assert(unique_names(s.drop_last()));
        lemma_user_map_get(s.drop_last());
        assert forall|i: int| 0 <= i < s.len() implies user_map(s).contains_key(
            #[trigger] s[i].name@,
        ) && user_map(s)[s[i].name@] == s[i]@ by {
            if i < s.len() - 1 {
                assert(s.drop_last()[i] == s[i]);
                assert(s[i].name@ != s.last().name@);
            }
        }
    }
}

impl View for CredentialSet {
    type V = Map<Seq<char>, UserView>;

    open spec fn view(&self) -> Map<Seq<char>, UserView> {
        user_map(self.users@)
    }
}

impl CredentialSet {
    /// Well-formed: no two records share a username.
    pub open spec fn wf(&self) -> bool {
        unique_names(self.users@)
    }

    /// The empty credential set.
    pub fn new() -> (r: CredentialSet)
        ensures
            r@ == Map::<Seq<char>, UserView>::empty(),
            r.wf(),
            r.users@.len() == 0,
    {
        CredentialSet { users: Vec::new() }
    }

    /// How many records the set holds.
    pub fn len(&self) -> (r: usize)
        ensures
            r == self.users@.len(),
    {
        self.users.len()
    }

    /// The record bearing the given username, when the set holds one.
    pub fn get(&self, name: &str) -> (r: Option<&UserConfig>)
        requires
            self.wf(),
        ensures
            (match r {
                Some(u) => self@.contains_key(name@) && u@ == self@[name@] && u.name@ == name@,
                None => !self@.contains_key(name@),
            }),
    {
        let n = self.users.len();
        let mut i: usize = 0;
        while i < n
            invariant
                self.wf(),
                n == self.users@.len(),
                i <= n,
                forall|j: int| 0 <= j < i ==> self.users@[j].name@ != name@,
            decreases n - i,
        {
            if str_eq(self.users[i].name.as_str(), name) {
                proof {
                    lemma_user_map_get(self.users@);
                }
                return Some(&self.users[i]);
            }
            i += 1;
        }
        proof {
            lemma_user_map_contains(self.users@);
        }
        None
    }

    /// Adds a record, refusing a username the set already holds; the
    /// refusal names the duplicate.
    pub fn insert(&mut self, u: UserConfig) -> (r: Result<(), ConfigError>)
        requires
            old(self).wf(),
        ensures
            final(self).wf(),
            (match r {
                Ok(()) => !old(self)@.contains_key(u@.name) && final(self)@ == old(self)@.insert(
                    u@.name,
                    u@,
                ) && final(self).users@ == old(self).users@.push(u),
                Err(e) => old(self)@.contains_key(u@.name) && e@ == CfgErr::DuplicateUser(u@.name)
                    && *final(self) == *old(self),
            }),
    {
        proof {
            lemma_user_map_contains(self.users@);
        }
        if self.get(u.name.as_str()).is_some() {
            let dup = u.name.clone();
            return Err(ConfigError::DuplicateUser(dup));
        }
        proof {
            assert(self.users@.push(u).drop_last() =~= self.users@);
            assert forall|i: int, j: int|
                0 <= i < j < self.users@.push(u).len() implies self.users@.push(u)[i].name@
                != self.users@.push(u)[j].name@ by {
                if j == self.users@.len() {
                    assert(!(exists|k: int|
                        0 <= k < self.users@.len() && self.users@[k].name@ == u.name@));
                }
            }
        }
        self.users.push(u);
        Ok(())
    }

    /// The merged view of static credentials overlaid by dynamic ones: the
    /// result maps every username of either set, and on a collision the
    /// dynamic record wins.
    pub fn merged_with(&self, dynamic: &CredentialSet) -> (r: CredentialSet)
        requires
            self.wf(),
            dynamic.wf(),
        ensures
            r.wf(),
            r@ == self@.union_prefer_right(dynamic@),
    {
        let mut out = CredentialSet { users: Vec::new() };
        let dn = dynamic.users.len();
        let mut i: usize = 0;
        while i < dn
            invariant
                dn == dynamic.users@.len(),
                i <= dn,
                dynamic.wf(),
                out.users@ == dynamic.users@.take(i as int),
            decreases dn - i,
        {
            proof {
                assert(dynamic.users@.take(i as int + 1) =~= dynamic.users@.take(i as int).push(
                    dynamic.users@[i as int],
                ));
            }
            out.users.push(dynamic.users[i].clone());
            i += 1;
        }
        proof {
            assert(out.users@ =~= dynamic.users@);
            assert(out@ =~= Map::<Seq<char>, UserView>::empty().union_prefer_right(dynamic@));
            assert(user_map(self.users@.take(0)) =~= Map::<Seq<char>, UserView>::empty());
            assert(out@ =~= user_map(self.users@.take(0)).union_prefer_right(dynamic@));
        }
        let sn = self.users.len();
        let mut j: usize = 0;
        while j < sn
            invariant
                sn == self.users@.len(),
                j <= sn,
                self.wf(),
                dynamic.wf(),
                out.wf(),
                out@ == user_map(self.users@.take(j as int)).union_prefer_right(dynamic@),
            decreases sn - j,
        {
            let u = &self.users[j];
            proof {
                assert(self.users@.take(j as int + 1) =~= self.users@.take(j as int).push(
                    self.users@[j as int],
                ));
                assert(self.users@.take(j as int).push(self.users@[j as int]).drop_last()
                    =~= self.users@.take(j as int));
                assert(user_map(self.users@.take(j as int + 1)) == user_map(
                    self.users@.take(j as int),
                ).insert(u.name@, u@));
                lemma_user_map_contains(self.users@.take(j as int));
                lemma_user_map_contains(out.users@);
            }
            match dynamic.get(u.name.as_str()) {
                Some(_) => {
                    proof {
                        assert(user_map(self.users@.take(j as int + 1)).union_prefer_right(
                            dynamic@,
                        ) =~= user_map(self.users@.take(j as int)).union_prefer_right(dynamic@));
                    }
                },
                None => {
                    proof {
                        // the name is new to `out`: it is in neither operand of the union
                        assert forall|k: int, l: int|
                            0 <= k < l < out.users@.push(*u).len() implies out.users@.push(
                            *u,
                        )[k].name@ != out.users@.push(*u)[l].name@ by {
                            if l == out.users@.len() {
                                if out@.contains_key(u.name@) {
                                    assert(user_map(self.users@.take(j as int)).contains_key(
                                        u.name@,
                                    ) || dynamic@.contains_key(u.name@));
                                    if user_map(self.users@.take(j as int)).contains_key(u.name@) {
                                        let m = choose|m: int|
                                            0 <= m < j && self.users@.take(j as int)[m].name@
                                                == u.name@;
                                        assert(self.users@[m].name@ == self.users@[j as int].name@);
                                    }
                                }
                                assert(!out@.contains_key(u.name@));
                            }
                        }
                        assert(out.users@.push(*u).drop_last() =~= out.users@);
                        assert(user_map(out.users@.push(*u)) == out@.insert(u.name@, u@));
                        assert(user_map(self.users@.take(j as int + 1)).union_prefer_right(dynamic@)
                            =~= out@.insert(u.name@, u@));
                    }
                    out.users.push(u.clone());
                },
            }
            j += 1;
        }
        proof {
            assert(self.users@.take(sn as int) =~= self.users@);
        }
        out
    }
}

} // verus!
