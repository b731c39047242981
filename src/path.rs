//! Hierarchical identifiers built from the traversal path.
use vstd::prelude::*;

verus! {

/// The number of `/` characters in `s`.
pub open spec fn count_slashes(s: Seq<char>) -> nat
    decreases s.len(),
{
    if s.len() == 0 {
        0
    } else {
        count_slashes(s.drop_last()) + if s.last() == '/' {
            1nat
        } else {
            0nat
        }
    }
}

/// The position of the last `/` in `s`, or -1 where there is none.
pub open spec fn last_slash(s: Seq<char>) -> int
    decreases s.len(),
{
    if s.len() == 0 {
        -1
    } else if s.last() == '/' {
        s.len() - 1
    } else {
        last_slash(s.drop_last())
    }
}

pub open spec fn root_id() -> Seq<char> {
    seq!['/']
}

/// The identifier of the node reached by `path`: the path itself, or `/` at
/// the root, where the path is empty.
pub open spec fn supplied_id_of(path: Seq<char>) -> Seq<char> {
    if path.len() == 0 {
        root_id()
    } else {
        path
    }
}

/// The identifier with its last `/`-separated segment dropped, `/` where
/// nothing is left, and none for the root itself.
pub open spec fn parent_id_of(id: Seq<char>) -> Option<Seq<char>> {
    if id == root_id() {
        None
    } else {
        let p = if last_slash(id) < 0 {
            Seq::<char>::empty()
        } else {
            id.subrange(0, last_slash(id))
        };
        Some(
            if p.len() == 0 {
                root_id()
            } else {
                p
            },
        )
    }
}

proof fn lemma_count_le_len(s: Seq<char>)
    ensures
        count_slashes(s) <= s.len(),
    decreases s.len(),
{
    if s.len() > 0 {
        lemma_count_le_len(s.drop_last());
    }
}

proof fn lemma_last_slash_range(s: Seq<char>)
    ensures
        -1 <= last_slash(s) < s.len(),
    decreases s.len(),
{
    if s.len() > 0 {
        lemma_last_slash_range(s.drop_last());
    }
}

/// The depth of the node reached by `path`: its number of segments less
/// one, which is the number of separators in it.
pub fn depth_of(path: &str) -> (r: usize)
    ensures
        r == count_slashes(path@),
{
    let n = path.unicode_len();
    let mut i: usize = 0;
    let mut count: usize = 0;
    while i < n
        invariant
            n == path@.len(),
            i <= n,
            count == count_slashes(path@.subrange(0, i as int)),
        decreases n - i,
    {
        let ghost next = path@.subrange(0, i + 1);
        proof {
            assert(next.drop_last() =~= path@.subrange(0, i as int));
            lemma_count_le_len(next);
        }
        if path.get_char(i) == '/' {
            count = count + 1;
        }
        i = i + 1;
    }
    assert(path@.subrange(0, n as int) =~= path@);
    count
}

/// The identifier of the node reached by `path`.
pub fn supplied_id(path: &str) -> (r: String)
    ensures
        r@ == supplied_id_of(path@),
{
    proof {
        reveal_strlit("/");
        assert("/"@ =~= root_id());
    }
    if path.unicode_len() == 0 {
        String::from_str("/")
    } else {
        String::from_str(path)
    }
}

/// The identifier of the parent of the node named `id`.
pub fn parent_id(id: &str) -> (r: Option<String>)
    ensures
        r matches Some(p) ==> parent_id_of(id@) == Some(p@),
        r is None ==> parent_id_of(id@) is None,
{
    proof {
        reveal_strlit("/");
        reveal_strlit("");
        assert("/"@ =~= root_id());
    }
    let n = id.unicode_len();
    if n == 1 && id.get_char(0) == '/' {
        assert(id@ =~= root_id());
        return None;
    }
    assert(id@ != root_id());
    let mut i: usize = 0;
    let mut last: Option<usize> = None;
    while i < n
        invariant
            n == id@.len(),
            i <= n,
            match last {
                Some(k) => last_slash(id@.subrange(0, i as int)) == k as int,
                None => last_slash(id@.subrange(0, i as int)) == -1,
            },
        decreases n - i,
    {
        let ghost next = id@.subrange(0, i + 1);
        proof {
            assert(next.drop_last() =~= id@.subrange(0, i as int));
        }
        if id.get_char(i) == '/' {
            last = Some(i);
        }
        i = i + 1;
    }
    assert(id@.subrange(0, n as int) =~= id@);
    proof {
        lemma_last_slash_range(id@);
    }
    let prefix: &str = match last {
        Some(k) => id.substring_char(0, k),
        None => "",
    };
    if prefix.unicode_len() == 0 {
        Some(String::from_str("/"))
    } else {
        Some(String::from_str(prefix))
    }
}

} // verus!
