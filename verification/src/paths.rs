//! Paths as `/`-separated text.

use vstd::prelude::*;
use crate::text::{chars_of, concat, string_of};

verus! {

/// `b` inside directory `a`: `b` itself when it starts at the root or `a` is empty,
/// and otherwise `a` and `b` with one `/` between them.
pub open spec fn path_join(a: Seq<char>, b: Seq<char>) -> Seq<char> {
    if b.len() > 0 && b[0] == '/' {
        b
    } else if a.len() == 0 {
        b
    } else if a.last() == '/' {
        a + b
    } else {
        a + seq!['/'] + b
    }
}

/// The position of the last `/`, or -1 when there is none.
pub open spec fn last_slash(p: Seq<char>) -> int
    decreases p.len(),
{
    if p.len() == 0 {
        -1
    } else if p.last() == '/' {
        p.len() - 1
    } else {
        last_slash(p.drop_last())
    }
}

/// The directory above `p`: the text before its last `/` (the root for a path directly
/// under it, and the empty path for a path with no `/`); none for the empty path and the
/// root.
pub open spec fn parent(p: Seq<char>) -> Option<Seq<char>> {
    let i = last_slash(p);
    if p.len() == 0 || p =~= seq!['/'] {
        None
    } else if i < 0 {
        Some(seq![])
    } else if i == 0 {
        Some(seq!['/'])
    } else {
        Some(p.subrange(0, i))
    }
}

proof fn lemma_last_slash(p: Seq<char>)
    ensures
        -1 <= last_slash(p) < p.len(),
        last_slash(p) >= 0 ==> p[last_slash(p)] == '/',
        forall|j: int| last_slash(p) < j < p.len() ==> p[j] != '/',
    decreases p.len(),
{
    if p.len() > 0 && p.last() != '/' {
        lemma_last_slash(p.drop_last());
        assert forall|j: int| last_slash(p) < j < p.len() implies p[j] != '/' by {
            if j < p.len() - 1 {
                assert(p[j] == p.drop_last()[j]);
            }
        }
    }
}

/// The directory above a path is shorter than it.
pub proof fn lemma_parent_shorter(p: Seq<char>)
    ensures
        parent(p) matches Some(q) ==> q.len() < p.len(),
{
    lemma_last_slash(p);
}

/// `b` inside directory `a`.
pub fn join(a: &str, b: &str) -> (s: String)
    ensures
        s@ == path_join(a@, b@),
{
    let ac = chars_of(a);
    let bc = chars_of(b);
    if bc.len() > 0 && bc[0] == '/' {
        b.to_owned()
    } else if ac.len() == 0 {
        b.to_owned()
    } else if ac[ac.len() - 1] == '/' {
        concat(a, b)
    } else {
        let x = concat(a, "/");
        proof {
            reveal_strlit("/");
        }
        concat(x.as_str(), b)
    }
}

/// The directory above a path, if there is one.
pub fn parent_of(p: &str) -> (r: Option<String>)
    ensures
        match r {
            Some(s) => parent(p@) == Some(s@),
            None => parent(p@) is None,
        },
{
    let pc = chars_of(p);
    proof {
        lemma_last_slash(p@);
    }
    if pc.len() == 0 || (pc.len() == 1 && pc[0] == '/') {
        return None;
    }
    let mut i = pc.len();
    while i > 0 && pc[i - 1] != '/'
        invariant
            i <= pc@.len(),
            pc@ == p@,
            forall|j: int| i <= j < pc@.len() ==> pc@[j] != '/',
        decreases i,
    {
        i = i - 1;
    }
    proof {
        assert(last_slash(p@) == i - 1) by {
            if i > 0 {
                assert(pc@[i - 1] == '/');
            }
        }
    }
    if i == 0 {
        Some(String::new())
    } else if i == 1 {
        let mut s = String::new();
        crate::text::push_char(&mut s, '/');
        Some(s)
    } else {
        let s = string_of(vstd::slice::slice_subrange(pc.as_slice(), 0, i - 1));
        Some(s)
    }
}

} // verus!
