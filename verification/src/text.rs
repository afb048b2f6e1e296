use vstd::prelude::*;

verus! {

/// Character-for-character equality of two string slices.
pub fn str_eq(a: &str, b: &str) -> (r: bool)
    ensures
        r == (a@ == b@),
{
    let alen = a.unicode_len();
    let blen = b.unicode_len();
    if alen != blen {
        return false;
    }
    let mut i: usize = 0;
    while i < alen
        invariant
            alen == a@.len(),
            alen == b@.len(),
            i <= alen,
            forall|j: int| 0 <= j < i ==> a@[j] == b@[j],
        decreases alen - i,
    {
        if a.get_char(i) != b.get_char(i) {
            assert(a@[i as int] != b@[i as int]);
            return false;
        }
        i += 1;
    }
    proof {
        assert(a@ =~= b@);
    }
    true
}

/// The directory part of a path: everything before the last `/`, or the
/// empty sequence when the path holds no `/` at all.
pub open spec fn parent_dir(p: Seq<char>) -> Seq<char>
    decreases p.len(),
{
    if p.len() == 0 {
        Seq::empty()
    } else if p.last() == '/' {
        p.drop_last()
    } else {
        parent_dir(p.drop_last())
    }
}

/// Cuts a path down to its directory: the text before the last `/`, empty
/// when there is none.
pub fn dir_of_path(p: &str) -> (r: String)
    ensures
        r@ == parent_dir(p@),
{
    let len = p.unicode_len();
    proof {
        assert(p@.subrange(0, len as int) =~= p@);
    }
    let mut i: usize = len;
    while i > 0
        invariant
            len == p@.len(),
            i <= len,
            parent_dir(p@.subrange(0, i as int)) == parent_dir(p@),
        decreases i,
    {
        let c = p.get_char(i - 1);
        proof {
            assert(p@.subrange(0, i as int).last() == p@[i - 1]);
            assert(p@.subrange(0, i as int).drop_last() =~= p@.subrange(0, i - 1));
        }
        if c == '/' {
            let d = p.substring_char(0, i - 1);
            proof {
                assert(d@ =~= parent_dir(p@.subrange(0, i as int)));
            }
            return String::from_str(d);
        }
        i -= 1;
    }
    proof {
        assert(p@.subrange(0, 0) =~= Seq::<char>::empty());
    }
    String::new()
}

/// What a relative path resolves to against a base directory: an absolute
/// path (or one with an empty base) stays as it is; otherwise the base, a
/// `/`, and the path.
pub open spec fn resolved_path(dir: Seq<char>, p: Seq<char>) -> Seq<char> {
    if p.len() > 0 && p[0] == '/' {
        p
    } else if dir.len() == 0 {
        p
    } else {
        dir + seq!['/'] + p
    }
}

/// Resolves a path against a base directory, as `resolved_path` says.
pub fn resolve_path(dir: &str, p: &str) -> (r: String)
    ensures
        r@ == resolved_path(dir@, p@),
{
    if p.unicode_len() > 0 && p.get_char(0) == '/' {
        return String::from_str(p);
    }
    if dir.unicode_len() == 0 {
        return String::from_str(p);
    }
    let mut out = String::from_str(dir);
    out.append("/");
    out.append(p);
    proof {
        reveal_strlit("/");
        assert("/"@ =~= seq!['/']);
        assert(out@ =~= dir@ + seq!['/'] + p@);
    }
    out
}

} // verus!
