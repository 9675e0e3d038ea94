//! Names and locations of type expressions and expressions.

use vstd::prelude::*;
use crate::ast::Ident;
use crate::gen_spec::join;
use crate::span::Span;
use crate::text::{dec_seq, dec_string, push_str};
use crate::types::{TypeExpr, TypePath};

verus! {

/// The name of a path: its last segment; `None` for a path without segments.
pub open spec fn path_name_s(p: TypePath) -> Option<Seq<char>> {
    if p.segments@.len() > 0 {
        Some(p.segments@.last().name@)
    } else {
        None
    }
}

/// The suffix that array sizes give a name: `[n]` for a size, `[]` for none.
pub open spec fn sizes_suffix(sizes: Seq<Option<u64>>) -> Seq<char>
    decreases sizes.len(),
{
    if sizes.len() == 0 {
        seq![]
    } else {
        sizes_suffix(sizes.drop_last()) + match sizes.last() {
            Some(n) => "["@ + dec_seq(n as nat) + "]"@,
            None => "[]"@,
        }
    }
}

/// The name of a type as written; `None` where a path in it has no segments.
pub open spec fn type_name_s(t: TypeExpr) -> Option<Seq<char>>
    decreases t, 1nat,
{
    match t {
        TypeExpr::Path(p) => path_name_s(p),
        TypeExpr::Mapping(m) => match type_name_s(m.key) {
            Some(k) => match type_name_s(m.value) {
                Some(v) => Some("mapping("@ + k + " => "@ + v + ")"@),
                None => None,
            },
            None => None,
        },
        TypeExpr::Array(a) => match path_name_s(a.element) {
            Some(b) => Some(b + sizes_suffix(a.sizes@)),
            None => None,
        },
        TypeExpr::Tuple(tt) => match type_names_s(tt.elements@) {
            Some(ns) => Some("("@ + join(ns, ", "@) + ")"@),
            None => None,
        },
    }
}

/// The names of types, in order; `None` where one has none.
pub open spec fn type_names_s(ts: Seq<TypeExpr>) -> Option<Seq<Seq<char>>>
    decreases ts, 0nat,
{
    if ts.len() == 0 {
        Some(seq![])
    } else {
        match type_names_s(ts.drop_last()) {
            Some(ns) => match type_name_s(ts.last()) {
                Some(n) => Some(ns.push(n)),
                None => None,
            },
            None => None,
        }
    }
}

impl TypePath {
    /// A path of one segment.
    pub fn simple(name: Ident) -> (p: TypePath)
        ensures
            p.segments@ == seq![name],
            p.generic_args is None,
            p.span == name.span,
    {
        let span = name.span;
        TypePath { segments: vec![name], generic_args: None, span }
    }

    /// The segments joined with `::`.
    pub fn full_path(&self) -> (r: String)
        ensures
            r@ == join(self.segments@.map_values(|s: Ident| s.name@), "::"@),
    {
        let mut r = String::new();
        let mut i: usize = 0;
        while i < self.segments.len()
            invariant
                i <= self.segments@.len(),
                r@ == join(self.segments@.take(i as int).map_values(|s: Ident| s.name@), "::"@),
            decreases self.segments@.len() - i,
        {
            proof {
                let ns = self.segments@.take(i + 1).map_values(|s: Ident| s.name@);
                assert(ns.drop_last() =~= self.segments@.take(i as int).map_values(|s: Ident| s.name@));
                assert(ns.last() == self.segments@[i as int].name@);
                if i == 0 {
                    assert(ns =~= seq![self.segments@[0].name@]);
                }
            }
            if i > 0 {
                push_str(&mut r, "::");
            }
            push_str(&mut r, self.segments[i].name.as_str());
            proof {
                if i == 0 {
                    assert(r@ =~= self.segments@[0].name@);
                }
            }
            i = i + 1;
        }
        proof {
            assert(self.segments@.take(self.segments@.len() as int) =~= self.segments@);
        }
        r
    }

    /// Whether the path has one segment and no generic arguments.
    pub fn is_simple(&self) -> (b: bool)
        ensures
            b == (self.segments@.len() == 1 && self.generic_args is None),
    {
        self.segments.len() == 1 && self.generic_args.is_none()
    }

    /// The last segment's name.
    pub fn name(&self) -> (r: &str)
        requires
            self.segments@.len() > 0,
        ensures
            path_name_s(*self) == Some(r@),
    {
        self.segments[self.segments.len() - 1].name.as_str()
    }
}

impl TypeExpr {
    /// Where the type stands in the source.
    pub fn span(&self) -> (s: Span)
        ensures
            s == match *self {
                TypeExpr::Path(p) => p.span,
                TypeExpr::Mapping(m) => m.span,
                TypeExpr::Array(a) => a.span,
                TypeExpr::Tuple(t) => t.span,
            },
    {
        match self {
            TypeExpr::Path(p) => p.span,
            TypeExpr::Mapping(m) => m.span,
            TypeExpr::Array(a) => a.span,
            TypeExpr::Tuple(t) => t.span,
        }
    }

    /// The name of the type as written: a path's last segment, `mapping(K => V)`, the
    /// element's name with a suffix for each size, or the names of a tuple's types.
    pub fn name(&self) -> (r: String)
        requires
            type_name_s(*self) is Some,
        ensures
            type_name_s(*self) == Some(r@),
        decreases self, 1nat,
    {
        match self {
            TypeExpr::Path(p) => p.name().to_owned(),
            TypeExpr::Mapping(m) => {
                let k = m.key.name();
                let v = m.value.name();
                let mut r = "mapping(".to_owned();
                push_str(&mut r, k.as_str());
                push_str(&mut r, " => ");
                push_str(&mut r, v.as_str());
                push_str(&mut r, ")");
                r
            },
            TypeExpr::Array(a) => {
                let mut r = a.element.name().to_owned();
                let mut i: usize = 0;
                while i < a.sizes.len()
                    invariant
                        i <= a.sizes@.len(),
                        path_name_s(a.element) is Some,
                        r@ == path_name_s(a.element).unwrap() + sizes_suffix(a.sizes@.take(i as int)),
                    decreases a.sizes@.len() - i,
                {
                    proof {
                        assert(a.sizes@.take(i + 1).drop_last() =~= a.sizes@.take(i as int));
                        assert(a.sizes@.take(i + 1).last() == a.sizes@[i as int]);
                    }
                    let ghost before = r@;
                    match a.sizes[i] {
                        Some(n) => {
                            push_str(&mut r, "[");
                            let d = dec_string(n);
                            push_str(&mut r, d.as_str());
                            push_str(&mut r, "]");
                        },
                        None => {
                            push_str(&mut r, "[]");
                        },
                    }
                    proof {
                        assert(r@ =~= path_name_s(a.element).unwrap() + sizes_suffix(a.sizes@.take(i + 1)));
                    }
                    i = i + 1;
                }
                proof {
                    assert(a.sizes@.take(a.sizes@.len() as int) =~= a.sizes@);
                }
                r
            },
            TypeExpr::Tuple(t) => {
                proof {
                    assert(t.elements@.take(t.elements@.len() as int) =~= t.elements@);
                }
                let ns = type_names_of(&t.elements, t.elements.len());
                let mut r = "(".to_owned();
                let j = crate::rust_gen::join_strings(&ns, ", ");
                push_str(&mut r, j.as_str());
                push_str(&mut r, ")");
                r
            },
        }
    }
}

/// The names of the first `n` types, in order.
fn type_names_of(ts: &Vec<TypeExpr>, n: usize) -> (r: Vec<String>)
    requires
        n <= ts@.len(),
        type_names_s(ts@.take(n as int)) is Some,
    ensures
        type_names_s(ts@.take(n as int)) == Some(crate::rust_gen::strs_v(r@)),
    decreases ts@, n,
{
    if n == 0 {
        let v: Vec<String> = Vec::new();
        proof {
            assert(crate::rust_gen::strs_v(v@) =~= Seq::<Seq<char>>::empty());
        }
        return v;
    }
    proof {
        assert(ts@.take(n as int).drop_last() =~= ts@.take(n - 1));
        assert(ts@.take(n as int).last() == ts@[n - 1]);
    }
    let mut v = type_names_of(ts, n - 1);
    let x = ts[n - 1].name();
    let ghost before = v@;
    v.push(x);
    proof {
        assert(crate::rust_gen::strs_v(v@) =~= crate::rust_gen::strs_v(before).push(x@));
    }
    v
}

} // verus!
