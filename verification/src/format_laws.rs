//! What holds of the comparison that `fmt --check` makes: normalizing a text twice is
//! normalizing it once, so a file compares equal to its own normal form.

use vstd::prelude::*;
use crate::chars::space_prop;
use crate::formatter::{kept_lines, normalized, split_lines, trim, trim_end, trim_start};
use crate::gen_spec::join;

verus! {

/// Whether a text holds no line feed.
pub open spec fn one_line(l: Seq<char>) -> bool {
    forall|i: int| 0 <= i < l.len() ==> l[i] != '\n'
}

/// The pieces between line feeds hold none.
proof fn lemma_split_one_line(s: Seq<char>)
    ensures
        split_lines(s).len() > 0,
        forall|k: int| 0 <= k < split_lines(s).len() ==> #[trigger] one_line(split_lines(s)[k]),
    decreases s.len(),
{
    if s.len() > 0 {
        lemma_split_one_line(s.drop_last());
        let prev = split_lines(s.drop_last());
        if s.last() != '\n' {
            let l = prev.last().push(s.last());
            assert(one_line(prev[prev.len() - 1]));
            assert(one_line(l));
            assert forall|k: int| 0 <= k < split_lines(s).len() implies #[trigger] one_line(split_lines(s)[k]) by {
                if k < prev.len() - 1 {
                    assert(split_lines(s)[k] == prev[k]);
                }
            }
        } else {
            assert forall|k: int| 0 <= k < split_lines(s).len() implies #[trigger] one_line(split_lines(s)[k]) by {
                if k < prev.len() {
                    assert(split_lines(s)[k] == prev[k]);
                } else {
                    assert(split_lines(s)[k] =~= Seq::<char>::empty());
                }
            }
        }
    }
}

/// Trimming the start keeps a suffix.
proof fn lemma_trim_start_suffix(l: Seq<char>)
    ensures
        exists|a: int| 0 <= a <= l.len() && trim_start(l) == #[trigger] l.subrange(a, l.len() as int),
        trim_start(l).len() > 0 ==> !space_prop(trim_start(l)[0]),
    decreases l.len(),
{
    if l.len() > 0 && space_prop(l[0]) {
        lemma_trim_start_suffix(l.drop_first());
        let a = choose|a: int| 0 <= a <= l.drop_first().len() && trim_start(l.drop_first()) == #[trigger] l.drop_first().subrange(a, l.drop_first().len() as int);
        assert(l.drop_first().subrange(a, l.drop_first().len() as int) =~= l.subrange(a + 1, l.len() as int));
    } else {
        assert(l.subrange(0, l.len() as int) =~= l);
    }
}

/// Trimming the end keeps a prefix.
proof fn lemma_trim_end_prefix(l: Seq<char>)
    ensures
        exists|b: int| 0 <= b <= l.len() && trim_end(l) == #[trigger] l.subrange(0, b),
        trim_end(l).len() > 0 ==> !space_prop(trim_end(l).last()),
    decreases l.len(),
{
    if l.len() > 0 && space_prop(l.last()) {
        lemma_trim_end_prefix(l.drop_last());
        let b = choose|b: int| 0 <= b <= l.drop_last().len() && trim_end(l.drop_last()) == #[trigger] l.drop_last().subrange(0, b);
        assert(l.drop_last().subrange(0, b) =~= l.subrange(0, b));
    } else {
        assert(l.subrange(0, l.len() as int) =~= l);
    }
}

/// A trimmed line of one line is one line, and trimming it again changes nothing.
proof fn lemma_trim_fixed(l: Seq<char>)
    requires
        one_line(l),
    ensures
        one_line(trim(l)),
        trim(trim(l)) == trim(l),
{
    lemma_trim_start_suffix(l);
    let s = trim_start(l);
    let a = choose|a: int| 0 <= a <= l.len() && s == #[trigger] l.subrange(a, l.len() as int);
    lemma_trim_end_prefix(s);
    let t = trim_end(s);
    let b = choose|b: int| 0 <= b <= s.len() && t == #[trigger] s.subrange(0, b);
    assert forall|i: int| 0 <= i < t.len() implies t[i] != '\n' by {
        assert(t[i] == s[i]);
        assert(s[i] == l[a + i]);
    }
    if t.len() > 0 {
        assert(t[0] == s[0]);
        assert(!space_prop(t[0]));
        assert(!space_prop(t.last()));
        assert(trim_start(t) == t);
        assert(trim_end(t) == t);
    } else {
        assert(trim_start(t) == t);
        assert(trim_end(t) == t);
    }
}

/// The lines that survive normalization are one line each, trimmed and not empty.
proof fn lemma_kept_lines(ls: Seq<Seq<char>>)
    requires
        forall|k: int| 0 <= k < ls.len() ==> #[trigger] one_line(ls[k]),
    ensures
        forall|k: int| 0 <= k < kept_lines(ls).len() ==> #[trigger] one_line(kept_lines(ls)[k]) && kept_lines(ls)[k].len() > 0
            && trim(kept_lines(ls)[k]) == kept_lines(ls)[k],
    decreases ls.len(),
{
    if ls.len() > 0 {
        assert forall|k: int| 0 <= k < ls.drop_last().len() implies #[trigger] one_line(ls.drop_last()[k]) by {
            assert(ls.drop_last()[k] == ls[k]);
        }
        lemma_kept_lines(ls.drop_last());
        assert(one_line(ls[ls.len() - 1]));
        lemma_trim_fixed(ls.last());
        let prev = kept_lines(ls.drop_last());
        let t = trim(ls.last());
        assert forall|k: int| 0 <= k < kept_lines(ls).len() implies #[trigger] one_line(kept_lines(ls)[k]) && kept_lines(ls)[k].len()
            > 0 && trim(kept_lines(ls)[k]) == kept_lines(ls)[k] by {
            if t.len() > 0 {
                assert(kept_lines(ls) == prev.push(t));
                if k < prev.len() {
                    assert(kept_lines(ls)[k] == prev[k]);
                    assert(one_line(prev[k]));
                } else {
                    assert(kept_lines(ls)[k] == t);
                }
            } else {
                assert(kept_lines(ls) == prev);
                assert(one_line(prev[k]));
            }
        }
    }
}

/// Lines that are trimmed and not empty survive normalization as they are.
proof fn lemma_kept_fixed(ls: Seq<Seq<char>>)
    requires
        forall|k: int| 0 <= k < ls.len() ==> #[trigger] ls[k].len() > 0 && trim(ls[k]) == ls[k],
    ensures
        kept_lines(ls) == ls,
    decreases ls.len(),
{
    if ls.len() > 0 {
        assert forall|k: int| 0 <= k < ls.drop_last().len() implies #[trigger] ls.drop_last()[k].len() > 0 && trim(
            ls.drop_last()[k],
        ) == ls.drop_last()[k] by {
            assert(ls.drop_last()[k] == ls[k]);
        }
        lemma_kept_fixed(ls.drop_last());
        assert(ls[ls.len() - 1].len() > 0 && trim(ls[ls.len() - 1]) == ls[ls.len() - 1]);
        assert(ls.drop_last().push(ls.last()) =~= ls);
    }
}

/// Appending one line of text extends the last piece.
proof fn lemma_split_append(a: Seq<char>, y: Seq<char>)
    requires
        one_line(y),
    ensures
        split_lines(a + y) == split_lines(a).update(split_lines(a).len() - 1, split_lines(a).last() + y),
    decreases y.len(),
{
    lemma_split_one_line(a);
    if y.len() == 0 {
        assert(a + y =~= a);
        assert(split_lines(a).last() + y =~= split_lines(a).last());
        assert(split_lines(a).update(split_lines(a).len() - 1, split_lines(a).last()) =~= split_lines(a));
    } else {
        let y0 = y.drop_last();
        assert(one_line(y0)) by {
            assert forall|i: int| 0 <= i < y0.len() implies y0[i] != '\n' by {
                assert(y0[i] == y[i]);
            }
        }
        lemma_split_append(a, y0);
        assert(a + y =~= (a + y0).push(y.last()));
        assert((a + y).drop_last() =~= a + y0);
        assert(y.last() != '\n');
        let p = split_lines(a);
        let q = split_lines(a + y0);
        assert(q == p.update(p.len() - 1, p.last() + y0));
        assert(q.len() == p.len());
        assert(q.last() == p.last() + y0);
        assert(split_lines(a + y) == q.update(q.len() - 1, q.last().push(y.last())));
        assert(q.last().push(y.last()) =~= p.last() + y);
        assert(split_lines(a + y) =~= p.update(p.len() - 1, p.last() + y));
    }
}

/// Splitting lines joined by line feeds gives the lines back.
proof fn lemma_split_join(ls: Seq<Seq<char>>)
    requires
        ls.len() > 0,
        forall|k: int| 0 <= k < ls.len() ==> #[trigger] one_line(ls[k]),
    ensures
        split_lines(join(ls, "\n"@)) == ls,
    decreases ls.len(),
{
    if ls.len() == 1 {
        assert(one_line(ls[0]));
        lemma_split_append(seq![], ls[0]);
        assert(seq![] + ls[0] =~= ls[0]);
        assert(join(ls, "\n"@) == ls[0]);
        assert(split_lines(Seq::<char>::empty()) == seq![Seq::<char>::empty()]);
        assert(Seq::<char>::empty() + ls[0] =~= ls[0]);
        assert(seq![Seq::<char>::empty()].update(0, ls[0]) =~= ls);
    } else {
        let init = ls.drop_last();
        assert forall|k: int| 0 <= k < init.len() implies #[trigger] one_line(init[k]) by {
            assert(init[k] == ls[k]);
        }
        lemma_split_join(init);
        let x = join(init, "\n"@);
        let nl: Seq<char> = "\n"@;
        assert(join(ls, "\n"@) == x + nl + ls.last());
        assert(one_line(ls[ls.len() - 1]));
        lemma_split_append(x + nl, ls.last());
        reveal_strlit("\n");
        assert(x + nl =~= x.push('\n'));
        assert((x.push('\n')).drop_last() =~= x);
        assert(split_lines(x + nl) == init.push(seq![]));
        assert(Seq::<char>::empty() + ls.last() =~= ls.last());
        assert(init.push(seq![]).update(init.len() as int, ls.last()) =~= ls);
    }
}

/// Normalizing a text twice is normalizing it once: the normal form of a file compares
/// equal to the file's own.
pub proof fn law_normalize_idempotent(s: Seq<char>)
    ensures
        normalized(normalized(s)) == normalized(s),
{
    lemma_split_one_line(s);
    let ls = kept_lines(split_lines(s));
    lemma_kept_lines(split_lines(s));
    if ls.len() == 0 {
        assert(normalized(s) == Seq::<char>::empty());
        assert(split_lines(Seq::<char>::empty()) == seq![Seq::<char>::empty()]);
        let one = seq![Seq::<char>::empty()];
        assert(one.drop_last() =~= Seq::<Seq<char>>::empty());
        assert(one.last() == Seq::<char>::empty());
        assert(trim_start(Seq::<char>::empty()) == Seq::<char>::empty());
        assert(trim_end(Seq::<char>::empty()) == Seq::<char>::empty());
        assert(trim(one.last()) == Seq::<char>::empty());
        assert(kept_lines(one) == kept_lines(one.drop_last()));
        assert(kept_lines(one) =~= Seq::<Seq<char>>::empty());
    } else {
        assert forall|k: int| 0 <= k < ls.len() implies #[trigger] one_line(ls[k]) by {
            assert(one_line(ls[k]) && ls[k].len() > 0);
        }
        lemma_split_join(ls);
        assert forall|k: int| 0 <= k < ls.len() implies #[trigger] ls[k].len() > 0 && trim(ls[k]) == ls[k] by {
            assert(one_line(ls[k]));
        }
        lemma_kept_fixed(ls);
    }
}

} // verus!
