//! The primitive registry: a fixed, immutable table of built-in operators.
//!
//! Every primitive has a name and a canonical display form.  Symbolic
//! primitives display as a one-character glyph; word-like primitives
//! display as their name.  The registry is queried by name when an
//! unbound identifier might denote a built-in.

use vstd::prelude::*;

use crate::chars::str_eq;

verus! {

/// A built-in operator of the language.
#[derive(Clone, Copy, Debug, PartialEq, Eq, Structural)]
pub enum Primitive {
    Add,
    Sub,
    Mul,
    Div,
    Len,
    Rev,
}

/// The canonical display form of a primitive.
pub open spec fn glyph(p: Primitive) -> Seq<char> {
    match p {
        Primitive::Add => seq!['+'],
        Primitive::Sub => seq!['-'],
        Primitive::Mul => seq!['*'],
        Primitive::Div => seq!['/'],
        Primitive::Len => seq!['l', 'e', 'n'],
        Primitive::Rev => seq!['r', 'e', 'v'],
    }
}

/// The name under which a primitive is registered.
pub open spec fn prim_name(p: Primitive) -> Seq<char> {
    match p {
        Primitive::Add => seq!['a', 'd', 'd'],
        Primitive::Sub => seq!['s', 'u', 'b'],
        Primitive::Mul => seq!['m', 'u', 'l'],
        Primitive::Div => seq!['d', 'i', 'v'],
        Primitive::Len => seq!['l', 'e', 'n'],
        Primitive::Rev => seq!['r', 'e', 'v'],
    }
}

/// Registry lookup by name.
pub open spec fn spec_from_name(n: Seq<char>) -> Option<Primitive> {
    if n == prim_name(Primitive::Add) {
        Some(Primitive::Add)
    } else if n == prim_name(Primitive::Sub) {
        Some(Primitive::Sub)
    } else if n == prim_name(Primitive::Mul) {
        Some(Primitive::Mul)
    } else if n == prim_name(Primitive::Div) {
        Some(Primitive::Div)
    } else if n == prim_name(Primitive::Len) {
        Some(Primitive::Len)
    } else if n == prim_name(Primitive::Rev) {
        Some(Primitive::Rev)
    } else {
        None
    }
}

/// Registry lookup by the one-character glyph of a symbolic primitive.
pub open spec fn spec_from_glyph(c: char) -> Option<Primitive> {
    if c == '+' {
        Some(Primitive::Add)
    } else if c == '-' {
        Some(Primitive::Sub)
    } else if c == '*' {
        Some(Primitive::Mul)
    } else if c == '/' {
        Some(Primitive::Div)
    } else {
        None
    }
}

/// The canonical display form, as a character vector.
pub fn glyph_chars(p: Primitive) -> (v: Vec<char>)
    ensures
        v@ == glyph(p),
{
    match p {
        Primitive::Add => {
            let v = vec!['+'];
            proof {
                assert(v@ =~= glyph(p));
            }
            v
        },
        Primitive::Sub => {
            let v = vec!['-'];
            proof {
                assert(v@ =~= glyph(p));
            }
            v
        },
        Primitive::Mul => {
            let v = vec!['*'];
            proof {
                assert(v@ =~= glyph(p));
            }
            v
        },
        Primitive::Div => {
            let v = vec!['/'];
            proof {
                assert(v@ =~= glyph(p));
            }
            v
        },
        Primitive::Len => {
            let v = vec!['l', 'e', 'n'];
            proof {
                assert(v@ =~= glyph(p));
            }
            v
        },
        Primitive::Rev => {
            let v = vec!['r', 'e', 'v'];
            proof {
                assert(v@ =~= glyph(p));
            }
            v
        },
    }
}

/// Looks a name up in the registry.
pub fn from_name(n: &str) -> (r: Option<Primitive>)
    ensures
        r == spec_from_name(n@),
{
    proof {
        reveal_strlit("add");
        reveal_strlit("sub");
        reveal_strlit("mul");
        reveal_strlit("div");
        reveal_strlit("len");
        reveal_strlit("rev");
        assert("add"@ =~= prim_name(Primitive::Add));
        assert("sub"@ =~= prim_name(Primitive::Sub));
        assert("mul"@ =~= prim_name(Primitive::Mul));
        assert("div"@ =~= prim_name(Primitive::Div));
        assert("len"@ =~= prim_name(Primitive::Len));
        assert("rev"@ =~= prim_name(Primitive::Rev));
    }
    if str_eq(n, "add") {
        Some(Primitive::Add)
    } else if str_eq(n, "sub") {
        Some(Primitive::Sub)
    } else if str_eq(n, "mul") {
        Some(Primitive::Mul)
    } else if str_eq(n, "div") {
        Some(Primitive::Div)
    } else if str_eq(n, "len") {
        Some(Primitive::Len)
    } else if str_eq(n, "rev") {
        Some(Primitive::Rev)
    } else {
        None
    }
}

/// Looks a symbolic glyph up in the registry.
pub fn from_glyph(c: char) -> (r: Option<Primitive>)
    ensures
        r == spec_from_glyph(c),
{
    if c == '+' {
        Some(Primitive::Add)
    } else if c == '-' {
        Some(Primitive::Sub)
    } else if c == '*' {
        Some(Primitive::Mul)
    } else if c == '/' {
        Some(Primitive::Div)
    } else {
        None
    }
}

} // verus!
