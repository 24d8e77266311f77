//! A line-oriented parser for the language the serializer renders.
//!
//! The grammar is deliberately small: each line is a blank line, a
//! comment, a binding, or a sequence of words; words are numbers,
//! character and string literals, identifiers, symbolic primitives,
//! strands joined with `_`, arrays in `[` `]`, and function bodies in
//! `(` `)` separated by `|`.  Parse failures become diagnostics with the
//! position they refer to; the driver suppresses all output whenever any
//! diagnostic was raised.
//!
//! Every executable function here is proved to return exactly what its
//! `spec_` counterpart says; [`spec_parse`] is the whole parser as a
//! mathematical function of the input characters.

use vstd::prelude::*;

use crate::ast::{
    funcs_view, item_view, opt_word_view, word_view, words_view, Binding, BindingV, Diagnostic,
    DiagnosticKind, Func, Item, ItemV, Span, Word, WordV,
};
use crate::chars::{alphabetic, char_is_alphabetic, chars_to_string, str_to_chars};
use crate::prim::{from_glyph, spec_from_glyph};

verus! {

broadcast use vstd::seq::group_seq_axioms, vstd::std_specs::vec::group_vec_axioms;

/// The column of a position, relative to the start of its line.
pub open spec fn spec_col(pos: int, lstart: int) -> usize {
    if pos >= lstart {
        (pos - lstart) as usize
    } else {
        0
    }
}

/// A diagnostic at one position of one line.
pub open spec fn spec_diag(kind: DiagnosticKind, line: usize, pos: int, lstart: int) -> Diagnostic {
    Diagnostic { kind, span: Span { line, col: spec_col(pos, lstart) } }
}

/// Whether a character is an ASCII decimal digit.
pub open spec fn spec_digit(c: char) -> bool {
    48 <= c as u32 <= 57
}

/// Whether a character is blank space inside a line.
pub open spec fn spec_blank(c: char) -> bool {
    c == ' ' || c == '\t' || c == '\r'
}

/// One escape character inside a literal quoted with `quote`.
pub open spec fn spec_unescape(c: char, quote: char) -> Option<char> {
    if c == '\\' {
        Some('\\')
    } else if c == quote {
        Some(quote)
    } else if c == 'n' {
        Some('\n')
    } else if c == 't' {
        Some('\t')
    } else if c == 'r' {
        Some('\r')
    } else {
        None
    }
}

/// The digit-scanning loop of a numeric literal: the position after the
/// digits, the accumulated value, and whether it overflowed.
pub open spec fn spec_num_loop(cs: Seq<char>, j: int, end: int, n: u64, overflow: bool) -> (
    int,
    u64,
    bool,
)
    decreases end - j,
{
    if j < end && spec_digit(cs[j]) {
        let d = (cs[j] as u32 - 48) as u64;
        if n <= (u64::MAX - d) / 10 {
            spec_num_loop(cs, j + 1, end, (n * 10 + d) as u64, overflow)
        } else {
            spec_num_loop(cs, j + 1, end, n, true)
        }
    } else {
        (j, n, overflow)
    }
}

/// Scanning a numeric literal at `i`.
pub open spec fn spec_scan_number(
    cs: Seq<char>,
    i: int,
    end: int,
    line: usize,
    lstart: int,
    ds: Seq<Diagnostic>,
) -> (Option<WordV>, int, Seq<Diagnostic>) {
    let (j, n, overflow) = spec_num_loop(cs, i, end, 0u64, false);
    if overflow {
        (None, j, ds.push(spec_diag(DiagnosticKind::NumberTooLarge, line, i, lstart)))
    } else {
        (Some(WordV::Number(n)), j, ds)
    }
}

/// The closing-quote check of a character literal: `i` is the opening
/// quote, `j` the expected closing quote, `v` the literal's value if its
/// body was well formed.
pub open spec fn spec_char_close(
    cs: Seq<char>,
    i: int,
    j: int,
    end: int,
    v: Option<char>,
    line: usize,
    lstart: int,
    ds: Seq<Diagnostic>,
) -> (Option<WordV>, int, Seq<Diagnostic>) {
    if j < end && cs[j] == '\'' {
        match v {
            Some(c) => (Some(WordV::Char(c)), j + 1, ds),
            None => (None, j + 1, ds),
        }
    } else {
        let ds1 = ds.push(spec_diag(DiagnosticKind::UnclosedChar, line, i, lstart));
        if j < end {
            (None, j + 1, ds1)
        } else {
            (None, end, ds1)
        }
    }
}

/// Scanning a character literal at its opening quote.
pub open spec fn spec_scan_char_lit(
    cs: Seq<char>,
    i: int,
    end: int,
    line: usize,
    lstart: int,
    ds: Seq<Diagnostic>,
) -> (Option<WordV>, int, Seq<Diagnostic>) {
    if i + 1 >= end {
        (None, end, ds.push(spec_diag(DiagnosticKind::UnclosedChar, line, i, lstart)))
    } else {
        let c0 = cs[i + 1];
        if c0 == '\\' {
            if i + 2 < end {
                let v = spec_unescape(cs[i + 2], '\'');
                let ds1 = if v is None {
                    ds.push(spec_diag(DiagnosticKind::BadEscape, line, i, lstart))
                } else {
                    ds
                };
                spec_char_close(cs, i, i + 3, end, v, line, lstart, ds1)
            } else {
                (None, end, ds.push(spec_diag(DiagnosticKind::UnclosedChar, line, i, lstart)))
            }
        } else if c0 == '\'' {
            (None, i + 2, ds.push(spec_diag(DiagnosticKind::UnclosedChar, line, i, lstart)))
        } else {
            spec_char_close(cs, i, i + 2, end, Some(c0), line, lstart, ds)
        }
    }
}

/// The body loop of a string literal: `i` is the opening quote.
pub open spec fn spec_str_loop(
    cs: Seq<char>,
    j: int,
    end: int,
    i: int,
    content: Seq<char>,
    bad: bool,
    line: usize,
    lstart: int,
    ds: Seq<Diagnostic>,
) -> (Option<WordV>, int, Seq<Diagnostic>)
    decreases end - j,
{
    if j < end {
        let c = cs[j];
        if c == '"' {
            if bad {
                (None, j + 1, ds)
            } else {
                (Some(WordV::Str(content)), j + 1, ds)
            }
        } else if c == '\\' {
            if j + 1 < end {
                match spec_unescape(cs[j + 1], '"') {
                    Some(v) => spec_str_loop(cs, j + 2, end, i, content.push(v), bad, line, lstart, ds),
                    None => spec_str_loop(
                        cs,
                        j + 2,
                        end,
                        i,
                        content,
                        true,
                        line,
                        lstart,
                        ds.push(spec_diag(DiagnosticKind::BadEscape, line, j, lstart)),
                    ),
                }
            } else {
                spec_str_loop(cs, j + 1, end, i, content, bad, line, lstart, ds)
            }
        } else {
            spec_str_loop(cs, j + 1, end, i, content.push(c), bad, line, lstart, ds)
        }
    } else {
        (None, end, ds.push(spec_diag(DiagnosticKind::UnclosedString, line, i, lstart)))
    }
}

/// Scanning a string literal at its opening quote.
pub open spec fn spec_scan_str_lit(
    cs: Seq<char>,
    i: int,
    end: int,
    line: usize,
    lstart: int,
    ds: Seq<Diagnostic>,
) -> (Option<WordV>, int, Seq<Diagnostic>) {
    spec_str_loop(cs, i + 1, end, i, Seq::empty(), false, line, lstart, ds)
}

/// The identifier scan: the scanned name and the position after it.
pub open spec fn spec_ident_loop(cs: Seq<char>, j: int, end: int, acc: Seq<char>) -> (
    Seq<char>,
    int,
)
    decreases end - j,
{
    if j < end && alphabetic(cs[j]) {
        spec_ident_loop(cs, j + 1, end, acc.push(cs[j]))
    } else {
        (acc, j)
    }
}

/// Parsing one atomic word at `i`; consumes at least one character.
pub open spec fn spec_parse_atom(
    cs: Seq<char>,
    i: int,
    end: int,
    line: usize,
    lstart: int,
    ds: Seq<Diagnostic>,
) -> (Option<WordV>, int, Seq<Diagnostic>)
    decreases end - i, 0int,
{
    if i >= end {
        (None, end, ds)
    } else {
        let c = cs[i];
        if spec_digit(c) {
            spec_scan_number(cs, i, end, line, lstart, ds)
        } else if c == '\'' {
            spec_scan_char_lit(cs, i, end, line, lstart, ds)
        } else if c == '"' {
            spec_scan_str_lit(cs, i, end, line, lstart, ds)
        } else if alphabetic(c) {
            let (name, j) = spec_ident_loop(cs, i, end, Seq::empty());
            (Some(WordV::Ident(name)), j, ds)
        } else if c == '[' {
            let (ws, j0, ds1) = spec_seq_loop(cs, i + 1, end, 1, line, lstart, Seq::empty(), ds);
            let j = if i < j0 && j0 <= end {
                j0
            } else {
                end
            };
            if j < end && cs[j] == ']' {
                (Some(WordV::Array(ws)), j + 1, ds1)
            } else {
                let ds2 = ds1.push(spec_diag(DiagnosticKind::UnclosedGroup, line, i, lstart));
                if j < end {
                    (Some(WordV::Array(ws)), j + 1, ds2)
                } else {
                    (Some(WordV::Array(ws)), end, ds2)
                }
            }
        } else if c == '(' {
            let (fs, j, ds1) = spec_funcs_loop(cs, i + 1, end, i + 1, line, lstart, Seq::empty(), ds);
            if fs.len() == 1 {
                (Some(WordV::Func(fs[0])), j, ds1)
            } else {
                (Some(WordV::FuncArray(fs)), j, ds1)
            }
        } else {
            match spec_from_glyph(c) {
                Some(p) => (Some(WordV::Primitive(p)), i + 1, ds),
                None => (
                    None,
                    i + 1,
                    ds.push(spec_diag(DiagnosticKind::UnexpectedChar(c), line, i, lstart)),
                ),
            }
        }
    }
}

/// The strand loop: gathers `_`-joined members after the first atom.
pub open spec fn spec_strand_loop(
    cs: Seq<char>,
    j: int,
    end: int,
    members: Seq<WordV>,
    line: usize,
    lstart: int,
    ds: Seq<Diagnostic>,
) -> (int, Seq<WordV>, Seq<Diagnostic>)
    decreases end - j, 2int,
{
    if j < end && cs[j] == '_' {
        let j1 = j + 1;
        if j1 < end && !spec_blank(cs[j1]) && cs[j1] != '_' {
            let (w, j2, ds1) = spec_parse_atom(cs, j1, end, line, lstart, ds);
            let jn = if j1 < j2 && j2 <= end {
                j2
            } else {
                end
            };
            let members1 = match w {
                Some(v) => members.push(v),
                None => members,
            };
            spec_strand_loop(cs, jn, end, members1, line, lstart, ds1)
        } else {
            spec_strand_loop(
                cs,
                j1,
                end,
                members,
                line,
                lstart,
                ds.push(spec_diag(DiagnosticKind::UnexpectedChar('_'), line, j, lstart)),
            )
        }
    } else {
        (j, members, ds)
    }
}

/// Parsing one word at `i`: an atom, or a strand of `_`-joined atoms.
pub open spec fn spec_parse_word(
    cs: Seq<char>,
    i: int,
    end: int,
    line: usize,
    lstart: int,
    ds: Seq<Diagnostic>,
) -> (Option<WordV>, int, Seq<Diagnostic>)
    decreases end - i, 1int,
{
    if i >= end {
        (None, end, ds)
    } else {
        let (first, j0, ds0) = spec_parse_atom(cs, i, end, line, lstart, ds);
        let j = if i < j0 && j0 <= end {
            j0
        } else {
            end
        };
        if j < end && cs[j] == '_' {
            let m0 = match first {
                Some(v) => Seq::empty().push(v),
                None => Seq::<WordV>::empty(),
            };
            let (j2, members, ds1) = spec_strand_loop(cs, j, end, m0, line, lstart, ds0);
            (Some(WordV::Strand(members)), j2, ds1)
        } else {
            (first, j, ds0)
        }
    }
}

/// The word-sequence loop: words up to the end of the region or, by
/// `mode`, a group terminator (mode 1 stops at `]`, mode 2 at `)` or
/// `|`, mode 0 treats any closer as unexpected).
pub open spec fn spec_seq_loop(
    cs: Seq<char>,
    j: int,
    end: int,
    mode: u8,
    line: usize,
    lstart: int,
    acc: Seq<WordV>,
    ds: Seq<Diagnostic>,
) -> (Seq<WordV>, int, Seq<Diagnostic>)
    decreases end - j, 3int,
{
    if j >= end {
        (acc, end, ds)
    } else {
        let c = cs[j];
        if spec_blank(c) {
            spec_seq_loop(cs, j + 1, end, mode, line, lstart, acc, ds)
        } else if mode == 1 && c == ']' {
            (acc, j, ds)
        } else if mode == 2 && (c == ')' || c == '|') {
            (acc, j, ds)
        } else if c == ']' || c == ')' || c == '|' {
            spec_seq_loop(
                cs,
                j + 1,
                end,
                mode,
                line,
                lstart,
                acc,
                ds.push(spec_diag(DiagnosticKind::UnexpectedClose, line, j, lstart)),
            )
        } else {
            let (w, j0, ds1) = spec_parse_word(cs, j, end, line, lstart, ds);
            let jn = if j < j0 && j0 <= end {
                j0
            } else {
                end
            };
            let acc1 = match w {
                Some(v) => acc.push(v),
                None => acc,
            };
            spec_seq_loop(cs, jn, end, mode, line, lstart, acc1, ds1)
        }
    }
}

/// The function-body loop: `|`-separated bodies up to the closing `)`;
/// `start0` is where the group began, for the unclosed-group diagnostic.
pub open spec fn spec_funcs_loop(
    cs: Seq<char>,
    cur: int,
    end: int,
    start0: int,
    line: usize,
    lstart: int,
    acc: Seq<Seq<WordV>>,
    ds: Seq<Diagnostic>,
) -> (Seq<Seq<WordV>>, int, Seq<Diagnostic>)
    decreases end - cur, 4int,
{
    let (ws, j0, ds1) = spec_seq_loop(cs, cur, end, 2, line, lstart, Seq::empty(), ds);
    let j = if cur <= j0 && j0 <= end {
        j0
    } else {
        end
    };
    let acc1 = acc.push(ws);
    if j < end && cs[j] == '|' {
        spec_funcs_loop(cs, j + 1, end, start0, line, lstart, acc1, ds1)
    } else if j < end && cs[j] == ')' {
        (acc1, j + 1, ds1)
    } else {
        (acc1, j, ds1.push(spec_diag(DiagnosticKind::UnclosedGroup, line, start0, lstart)))
    }
}

/// The blank-skipping scan.
pub open spec fn spec_skip_blanks(cs: Seq<char>, j: int, end: int) -> int
    decreases end - j,
{
    if j < end && spec_blank(cs[j]) {
        spec_skip_blanks(cs, j + 1, end)
    } else {
        j
    }
}

/// The alphabetic-skipping scan.
pub open spec fn spec_skip_alpha(cs: Seq<char>, j: int, end: int) -> int
    decreases end - j,
{
    if j < end && alphabetic(cs[j]) {
        spec_skip_alpha(cs, j + 1, end)
    } else {
        j
    }
}

/// Parsing one line (the region `start..end`) into an item.
pub open spec fn spec_parse_line(
    cs: Seq<char>,
    start: int,
    end: int,
    line: usize,
    ds: Seq<Diagnostic>,
) -> (ItemV, Seq<Diagnostic>) {
    let i = spec_skip_blanks(cs, start, end);
    if i >= end {
        (ItemV::Newlines, ds)
    } else if cs[i] == '#' {
        let j = if i + 1 < end && cs[i + 1] == ' ' {
            i + 2
        } else {
            i + 1
        };
        (ItemV::Comment(cs.subrange(j, end)), ds)
    } else if alphabetic(cs[i]) && ({
        let j = spec_skip_alpha(cs, i, end);
        let k = spec_skip_blanks(cs, j, end);
        k < end && cs[k] == '='
    }) {
        let j = spec_skip_alpha(cs, i, end);
        let k = spec_skip_blanks(cs, j, end);
        let (words, _rest, ds1) = spec_seq_loop(cs, k + 1, end, 0, line, start, Seq::empty(), ds);
        (
            ItemV::Binding(
                BindingV {
                    name: cs.subrange(i, j),
                    words,
                    span: Span { line, col: spec_col(i, start) },
                },
            ),
            ds1,
        )
    } else {
        let (words, _rest, ds1) = spec_seq_loop(cs, i, end, 0, line, start, Seq::empty(), ds);
        (ItemV::Words(words), ds1)
    }
}

/// The newline search from `j`.
pub open spec fn spec_find_nl(cs: Seq<char>, j: int, total: int) -> int
    decreases total - j,
{
    if j < total && cs[j] != '\n' {
        spec_find_nl(cs, j + 1, total)
    } else {
        j
    }
}

/// The line loop over a whole document.
pub open spec fn spec_parse_loop(
    cs: Seq<char>,
    i: int,
    total: int,
    line: usize,
    items: Seq<ItemV>,
    ds: Seq<Diagnostic>,
) -> (Seq<ItemV>, Seq<Diagnostic>)
    decreases total - i,
{
    if i >= total {
        (items, ds)
    } else {
        let j0 = spec_find_nl(cs, i, total);
        let j = if i <= j0 && j0 <= total {
            j0
        } else {
            total
        };
        let (item, ds1) = spec_parse_line(cs, i, j, line, ds);
        let i2 = if j < total {
            j + 1
        } else {
            total
        };
        spec_parse_loop(cs, i2, total, (line + 1) as usize, items.push(item), ds1)
    }
}

/// The whole parser, as a function of the input characters: the item
/// models in document order, and the parse diagnostics.
pub open spec fn spec_parse(s: Seq<char>) -> (Seq<ItemV>, Seq<Diagnostic>) {
    spec_parse_loop(s, 0, s.len() as int, 0, Seq::empty(), Seq::empty())
}

/// The column of a position, relative to the start of its line.
fn col_of(pos: usize, lstart: usize) -> (c: usize)
    ensures
        c == spec_col(pos as int, lstart as int),
{
    if pos >= lstart {
        pos - lstart
    } else {
        0
    }
}

/// Whether a character is an ASCII decimal digit.
fn is_digit(c: char) -> (r: bool)
    ensures
        r == spec_digit(c),
{
    let v = c as u32;
    48 <= v && v <= 57
}

/// Whether a character is blank space inside a line.
fn is_blank(c: char) -> (r: bool)
    ensures
        r == spec_blank(c),
{
    c == ' ' || c == '\t' || c == '\r'
}

/// Resolves one escape character inside a literal quoted with `quote`.
fn unescape(c: char, quote: char) -> (r: Option<char>)
    ensures
        r == spec_unescape(c, quote),
{
    if c == '\\' {
        Some('\\')
    } else if c == quote {
        Some(quote)
    } else if c == 'n' {
        Some('\n')
    } else if c == 't' {
        Some('\t')
    } else if c == 'r' {
        Some('\r')
    } else {
        None
    }
}

/// Scans a numeric literal.  Reports a diagnostic when the number does
/// not fit the numeric type.
fn scan_number(
    cs: &Vec<char>,
    i: usize,
    end: usize,
    line: usize,
    lstart: usize,
    diags: &mut Vec<Diagnostic>,
) -> (r: (Option<Word>, usize))
    requires
        i < end <= cs@.len(),
        spec_digit(cs@[i as int]),
    ensures
        i < r.1 <= end,
        ({
            let s = spec_scan_number(cs@, i as int, end as int, line, lstart as int, old(diags)@);
            opt_word_view(r.0) == s.0 && r.1 as int == s.1 && final(diags)@ == s.2
        }),
{
    let ghost target = spec_num_loop(cs@, i as int, end as int, 0u64, false);
    let mut j: usize = i;
    let mut n: u64 = 0;
    let mut overflow: bool = false;
    while j < end && is_digit(cs[j])
        invariant
            i <= j <= end,
            end <= cs@.len(),
            spec_num_loop(cs@, j as int, end as int, n, overflow) == target,
        decreases end - j,
    {
        let d: u64 = (cs[j] as u32 - 48) as u64;
        if n <= (u64::MAX - d) / 10 {
            proof {
                assert(n * 10 + d <= u64::MAX) by (nonlinear_arith)
                    requires
                        n <= (u64::MAX - d) / 10,
                        d <= 9,
                ;
            }
            n = n * 10 + d;
        } else {
            overflow = true;
        }
        j = j + 1;
    }
    proof {
        assert(j != i);
        assert((j as int, n, overflow) == target);
    }
    if overflow {
        diags.push(
            Diagnostic {
                kind: DiagnosticKind::NumberTooLarge,
                span: Span { line, col: col_of(i, lstart) },
            },
        );
        (None, j)
    } else {
        (Some(Word::Number(n)), j)
    }
}

/// Scans a character literal, starting at its opening quote.
fn scan_char_lit(
    cs: &Vec<char>,
    i: usize,
    end: usize,
    line: usize,
    lstart: usize,
    diags: &mut Vec<Diagnostic>,
) -> (r: (Option<Word>, usize))
    requires
        i < end <= cs@.len(),
    ensures
        i < r.1 <= end,
        ({
            let s = spec_scan_char_lit(cs@, i as int, end as int, line, lstart as int, old(diags)@);
            opt_word_view(r.0) == s.0 && r.1 as int == s.1 && final(diags)@ == s.2
        }),
{
    let ghost target = spec_scan_char_lit(
        cs@,
        i as int,
        end as int,
        line,
        lstart as int,
        old(diags)@,
    );
    proof {
        assert(opt_word_view(None::<Word>) == None::<WordV>);
    }
    let mut j: usize = i + 1;
    if j >= end {
        diags.push(
            Diagnostic {
                kind: DiagnosticKind::UnclosedChar,
                span: Span { line, col: col_of(i, lstart) },
            },
        );
        proof {
            assert(target == (None::<WordV>, end as int, diags@));
        }
        return (None, end);
    }
    let c0 = cs[j];
    let value: Option<char> = if c0 == '\\' {
        if j + 1 < end {
            let v = unescape(cs[j + 1], '\'');
            j = j + 2;
            if v.is_none() {
                diags.push(
                    Diagnostic {
                        kind: DiagnosticKind::BadEscape,
                        span: Span { line, col: col_of(i, lstart) },
                    },
                );
            }
            v
        } else {
            diags.push(
                Diagnostic {
                    kind: DiagnosticKind::UnclosedChar,
                    span: Span { line, col: col_of(i, lstart) },
                },
            );
            proof {
                assert(target == (None::<WordV>, end as int, diags@));
            }
            return (None, end);
        }
    } else if c0 == '\'' {
        diags.push(
            Diagnostic {
                kind: DiagnosticKind::UnclosedChar,
                span: Span { line, col: col_of(i, lstart) },
            },
        );
        proof {
            assert(target == (None::<WordV>, j as int + 1, diags@));
        }
        return (None, j + 1);
    } else {
        j = j + 1;
        Some(c0)
    };
    proof {
        assert(target == spec_char_close(
            cs@,
            i as int,
            j as int,
            end as int,
            value,
            line,
            lstart as int,
            diags@,
        ));
    }
    if j < end && cs[j] == '\'' {
        match value {
            Some(v) => {
                proof {
                    assert(target == (Some(WordV::Char(v)), j as int + 1, diags@));
                    crate::ast::lemma_view_char(v);
                    assert(opt_word_view(Some(Word::Char(v))) == Some(WordV::Char(v)));
                }
                (Some(Word::Char(v)), j + 1)
            },
            None => {
                proof {
                    assert(target == (None::<WordV>, j as int + 1, diags@));
                }
                (None, j + 1)
            },
        }
    } else {
        diags.push(
            Diagnostic {
                kind: DiagnosticKind::UnclosedChar,
                span: Span { line, col: col_of(i, lstart) },
            },
        );
        if j < end {
            proof {
                assert(target == (None::<WordV>, j as int + 1, diags@));
            }
            (None, j + 1)
        } else {
            proof {
                assert(target == (None::<WordV>, end as int, diags@));
            }
            (None, end)
        }
    }
}

/// Scans a string literal, starting at its opening quote.
fn scan_str_lit(
    cs: &Vec<char>,
    i: usize,
    end: usize,
    line: usize,
    lstart: usize,
    diags: &mut Vec<Diagnostic>,
) -> (r: (Option<Word>, usize))
    requires
        i < end <= cs@.len(),
    ensures
        i < r.1 <= end,
        ({
            let s = spec_scan_str_lit(cs@, i as int, end as int, line, lstart as int, old(diags)@);
            opt_word_view(r.0) == s.0 && r.1 as int == s.1 && final(diags)@ == s.2
        }),
{
    let ghost target = spec_scan_str_lit(
        cs@,
        i as int,
        end as int,
        line,
        lstart as int,
        old(diags)@,
    );
    let mut j: usize = i + 1;
    let mut content: Vec<char> = Vec::new();
    let mut bad: bool = false;
    proof {
        assert(content@ =~= Seq::<char>::empty());
    }
    while j < end
        invariant
            i < j <= end,
            end <= cs@.len(),
            spec_str_loop(
                cs@,
                j as int,
                end as int,
                i as int,
                content@,
                bad,
                line,
                lstart as int,
                diags@,
            ) == target,
            target == spec_scan_str_lit(
                cs@,
                i as int,
                end as int,
                line,
                lstart as int,
                old(diags)@,
            ),
        decreases end - j,
    {
        let c = cs[j];
        if c == '"' {
            let ghost cv = content@;
            proof {
                if bad {
                    assert(target == (None::<WordV>, j as int + 1, diags@));
                } else {
                    assert(target == (Some(WordV::Str(cv)), j as int + 1, diags@));
                }
            }
            let s = chars_to_string(content);
            proof {
                crate::ast::lemma_view_str(s);
                assert(opt_word_view(Some(Word::Str(s))) == Some(WordV::Str(cv)));
                assert(opt_word_view(None::<Word>) == None::<WordV>);
            }
            if bad {
                return (None, j + 1);
            }
            return (Some(Word::Str(s)), j + 1);
        }
        if c == '\\' {
            if j + 1 < end {
                match unescape(cs[j + 1], '"') {
                    Some(v) => content.push(v),
                    None => {
                        bad = true;
                        diags.push(
                            Diagnostic {
                                kind: DiagnosticKind::BadEscape,
                                span: Span { line, col: col_of(j, lstart) },
                            },
                        );
                    },
                }
                j = j + 2;
            } else {
                j = j + 1;
            }
        } else {
            content.push(c);
            j = j + 1;
        }
    }
    diags.push(
        Diagnostic {
            kind: DiagnosticKind::UnclosedString,
            span: Span { line, col: col_of(i, lstart) },
        },
    );
    proof {
        assert(target == (None::<WordV>, end as int, diags@));
        assert(opt_word_view(None::<Word>) == None::<WordV>);
    }
    (None, end)
}

/// Scans an identifier: a run of alphabetic characters.
fn scan_ident(cs: &Vec<char>, i: usize, end: usize) -> (r: (String, usize))
    requires
        i < end <= cs@.len(),
    ensures
        i <= r.1 <= end,
        r.1 == i ==> !alphabetic(cs@[i as int]),
        ({
            let s = spec_ident_loop(cs@, i as int, end as int, Seq::empty());
            r.0@ == s.0 && r.1 as int == s.1
        }),
{
    let ghost target = spec_ident_loop(cs@, i as int, end as int, Seq::empty());
    let mut j: usize = i;
    let mut name: Vec<char> = Vec::new();
    proof {
        assert(name@ =~= Seq::<char>::empty());
    }
    while j < end && char_is_alphabetic(cs[j])
        invariant
            i <= j <= end,
            end <= cs@.len(),
            spec_ident_loop(cs@, j as int, end as int, name@) == target,
        decreases end - j,
    {
        name.push(cs[j]);
        j = j + 1;
    }
    proof {
        assert((name@, j as int) == target);
    }
    (chars_to_string(name), j)
}

/// Parses one atomic word.  Always consumes at least one character.
fn parse_atom(
    cs: &Vec<char>,
    i: usize,
    end: usize,
    line: usize,
    lstart: usize,
    diags: &mut Vec<Diagnostic>,
) -> (r: (Option<Word>, usize))
    requires
        i < end <= cs@.len(),
    ensures
        i < r.1 <= end,
        ({
            let s = spec_parse_atom(cs@, i as int, end as int, line, lstart as int, old(diags)@);
            opt_word_view(r.0) == s.0 && r.1 as int == s.1 && final(diags)@ == s.2
        }),
    decreases end - i, 0int,
{
    let c = cs[i];
    if is_digit(c) {
        scan_number(cs, i, end, line, lstart, diags)
    } else if c == '\'' {
        scan_char_lit(cs, i, end, line, lstart, diags)
    } else if c == '"' {
        scan_str_lit(cs, i, end, line, lstart, diags)
    } else if char_is_alphabetic(c) {
        let (name, j) = scan_ident(cs, i, end);
        proof {
            assert(j > i);
            crate::ast::lemma_view_ident(name);
            assert(opt_word_view(Some(Word::Ident(name))) == Some(WordV::Ident(name@)));
        }
        (Some(Word::Ident(name)), j)
    } else if c == '[' {
        let (ws, j) = parse_seq(cs, i + 1, end, 1, line, lstart, diags);
        proof {
            crate::ast::lemma_view_array(ws);
            assert(opt_word_view(Some(Word::Array(ws))) == Some(WordV::Array(words_view(ws@))));
        }
        if j < end && cs[j] == ']' {
            (Some(Word::Array(ws)), j + 1)
        } else {
            diags.push(
                Diagnostic {
                    kind: DiagnosticKind::UnclosedGroup,
                    span: Span { line, col: col_of(i, lstart) },
                },
            );
            if j < end {
                (Some(Word::Array(ws)), j + 1)
            } else {
                (Some(Word::Array(ws)), end)
            }
        }
    } else if c == '(' {
        let (fs, j) = parse_funcs(cs, i + 1, end, line, lstart, diags);
        let ghost fsv = funcs_view(fs@);
        proof {
            crate::ast::lemma_funcs_view_index(fs@);
        }
        if fs.len() == 1 {
            let mut fs = fs;
            match fs.pop() {
                Some(f) => {
                    proof {
                        crate::ast::lemma_view_func(f);
                        assert(word_view(Word::Func(f)) == WordV::Func(fsv[0]));
                        assert(opt_word_view(Some(Word::Func(f))) == Some(WordV::Func(fsv[0])));
                    }
                    (Some(Word::Func(f)), j)
                },
                None => {
                    proof {
                        assert(false);
                    }
                    (None, j)
                },
            }
        } else {
            proof {
                crate::ast::lemma_view_func_array(fs);
                assert(opt_word_view(Some(Word::FuncArray(fs))) == Some(
                    WordV::FuncArray(funcs_view(fs@)),
                ));
            }
            (Some(Word::FuncArray(fs)), j)
        }
    } else {
        match from_glyph(c) {
            Some(p) => {
                proof {
                    crate::ast::lemma_view_primitive(p);
                    assert(opt_word_view(Some(Word::Primitive(p))) == Some(WordV::Primitive(p)));
                }
                (Some(Word::Primitive(p)), i + 1)
            },
            None => {
                diags.push(
                    Diagnostic {
                        kind: DiagnosticKind::UnexpectedChar(c),
                        span: Span { line, col: col_of(i, lstart) },
                    },
                );
                proof {
                    assert(opt_word_view(None::<Word>) == None::<WordV>);
                }
                (None, i + 1)
            },
        }
    }
}

/// Parses one word, gathering `_`-joined atoms into a strand.
fn parse_word(
    cs: &Vec<char>,
    i: usize,
    end: usize,
    line: usize,
    lstart: usize,
    diags: &mut Vec<Diagnostic>,
) -> (r: (Option<Word>, usize))
    requires
        i < end <= cs@.len(),
    ensures
        i < r.1 <= end,
        ({
            let s = spec_parse_word(cs@, i as int, end as int, line, lstart as int, old(diags)@);
            opt_word_view(r.0) == s.0 && r.1 as int == s.1 && final(diags)@ == s.2
        }),
    decreases end - i, 1int,
{
    let (first, mut j) = parse_atom(cs, i, end, line, lstart, diags);
    if j < end && cs[j] == '_' {
        let ghost m0 = match opt_word_view(first) {
            Some(v) => Seq::empty().push(v),
            None => Seq::<WordV>::empty(),
        };
        let ghost target = spec_strand_loop(
            cs@,
            j as int,
            end as int,
            m0,
            line,
            lstart as int,
            diags@,
        );
        let mut members: Vec<Word> = Vec::new();
        match first {
            Some(w) => members.push(w),
            None => {},
        }
        proof {
            assert(words_view(members@) =~= m0);
        }
        while j < end && cs[j] == '_'
            invariant
                i < j <= end,
                end <= cs@.len(),
                spec_strand_loop(
                    cs@,
                    j as int,
                    end as int,
                    words_view(members@),
                    line,
                    lstart as int,
                    diags@,
                ) == target,
            decreases end - j,
        {
            let sep: usize = j;
            j = j + 1;
            if j < end && !is_blank(cs[j]) && cs[j] != '_' {
                let ghost members_before = words_view(members@);
                let (next, j2) = parse_atom(cs, j, end, line, lstart, diags);
                j = j2;
                match next {
                    Some(w) => {
                        members.push(w);
                        proof {
                            assert(words_view(members@) =~= members_before.push(word_view(w)));
                        }
                    },
                    None => {},
                }
            } else {
                diags.push(
                    Diagnostic {
                        kind: DiagnosticKind::UnexpectedChar('_'),
                        span: Span { line, col: col_of(sep, lstart) },
                    },
                );
            }
        }
        proof {
            assert((j as int, words_view(members@), diags@) == target);
            crate::ast::lemma_view_strand(members);
            assert(opt_word_view(Some(Word::Strand(members))) == Some(
                WordV::Strand(words_view(members@)),
            ));
        }
        (Some(Word::Strand(members)), j)
    } else {
        (first, j)
    }
}

/// Parses a sequence of words up to the end of the region or, depending
/// on `mode`, a group terminator: mode 1 stops at `]`, mode 2 stops at
/// `)` or `|`, mode 0 treats any closer as unexpected.
fn parse_seq(
    cs: &Vec<char>,
    i: usize,
    end: usize,
    mode: u8,
    line: usize,
    lstart: usize,
    diags: &mut Vec<Diagnostic>,
) -> (r: (Vec<Word>, usize))
    requires
        i <= end <= cs@.len(),
    ensures
        i <= r.1 <= end,
        ({
            let s = spec_seq_loop(
                cs@,
                i as int,
                end as int,
                mode,
                line,
                lstart as int,
                Seq::empty(),
                old(diags)@,
            );
            words_view(r.0@) == s.0 && r.1 as int == s.1 && final(diags)@ == s.2
        }),
    decreases end - i, 2int,
{
    let ghost target = spec_seq_loop(
        cs@,
        i as int,
        end as int,
        mode,
        line,
        lstart as int,
        Seq::empty(),
        old(diags)@,
    );
    let mut words: Vec<Word> = Vec::new();
    let mut j: usize = i;
    proof {
        assert(words_view(words@) =~= Seq::<WordV>::empty());
    }
    while j < end
        invariant
            i <= j <= end,
            end <= cs@.len(),
            spec_seq_loop(
                cs@,
                j as int,
                end as int,
                mode,
                line,
                lstart as int,
                words_view(words@),
                diags@,
            ) == target,
            target == spec_seq_loop(
                cs@,
                i as int,
                end as int,
                mode,
                line,
                lstart as int,
                Seq::empty(),
                old(diags)@,
            ),
        decreases end - j,
    {
        let c = cs[j];
        if is_blank(c) {
            j = j + 1;
        } else if mode == 1 && c == ']' {
            proof {
                assert(target == (words_view(words@), j as int, diags@));
            }
            return (words, j);
        } else if mode == 2 && (c == ')' || c == '|') {
            proof {
                assert(target == (words_view(words@), j as int, diags@));
            }
            return (words, j);
        } else if c == ']' || c == ')' || c == '|' {
            diags.push(
                Diagnostic {
                    kind: DiagnosticKind::UnexpectedClose,
                    span: Span { line, col: col_of(j, lstart) },
                },
            );
            j = j + 1;
        } else {
            let ghost words_before = words_view(words@);
            let (w, j2) = parse_word(cs, j, end, line, lstart, diags);
            j = j2;
            match w {
                Some(w) => {
                    words.push(w);
                    proof {
                        assert(words_view(words@) =~= words_before.push(word_view(w)));
                    }
                },
                None => {},
            }
        }
    }
    proof {
        assert(target == (words_view(words@), end as int, diags@));
    }
    (words, j)
}

/// Parses `|`-separated function bodies up to the closing `)`.
fn parse_funcs(
    cs: &Vec<char>,
    i: usize,
    end: usize,
    line: usize,
    lstart: usize,
    diags: &mut Vec<Diagnostic>,
) -> (r: (Vec<Func>, usize))
    requires
        i <= end <= cs@.len(),
    ensures
        i <= r.1 <= end,
        r.0@.len() > 0,
        ({
            let s = spec_funcs_loop(
                cs@,
                i as int,
                end as int,
                i as int,
                line,
                lstart as int,
                Seq::empty(),
                old(diags)@,
            );
            funcs_view(r.0@) == s.0 && r.1 as int == s.1 && final(diags)@ == s.2
        }),
    decreases end - i, 3int,
{
    let ghost target = spec_funcs_loop(
        cs@,
        i as int,
        end as int,
        i as int,
        line,
        lstart as int,
        Seq::empty(),
        old(diags)@,
    );
    let mut bodies: Vec<Func> = Vec::new();
    let mut cur: usize = i;
    proof {
        assert(funcs_view(bodies@) =~= Seq::<Seq<WordV>>::empty());
    }
    loop
        invariant
            i <= cur <= end,
            end <= cs@.len(),
            spec_funcs_loop(
                cs@,
                cur as int,
                end as int,
                i as int,
                line,
                lstart as int,
                funcs_view(bodies@),
                diags@,
            ) == target,
            target == spec_funcs_loop(
                cs@,
                i as int,
                end as int,
                i as int,
                line,
                lstart as int,
                Seq::empty(),
                old(diags)@,
            ),
        decreases end - cur,
    {
        let ghost bodies_before = funcs_view(bodies@);
        let (ws, j) = parse_seq(cs, cur, end, 2, line, lstart, diags);
        let ghost wsv = words_view(ws@);
        bodies.push(Func { body: ws });
        proof {
            assert(funcs_view(bodies@) =~= bodies_before.push(wsv));
        }
        if j < end && cs[j] == '|' {
            cur = j + 1;
        } else if j < end && cs[j] == ')' {
            proof {
                assert(target == (funcs_view(bodies@), j as int + 1, diags@));
            }
            return (bodies, j + 1);
        } else {
            diags.push(
                Diagnostic {
                    kind: DiagnosticKind::UnclosedGroup,
                    span: Span { line, col: col_of(i, lstart) },
                },
            );
            proof {
                assert(target == (funcs_view(bodies@), j as int, diags@));
            }
            return (bodies, j);
        }
    }
}

/// Parses one line into an item.
fn parse_line(
    cs: &Vec<char>,
    start: usize,
    end: usize,
    line: usize,
    diags: &mut Vec<Diagnostic>,
) -> (item: Item)
    requires
        start <= end <= cs@.len(),
    ensures
        ({
            let s = spec_parse_line(cs@, start as int, end as int, line, old(diags)@);
            item_view(item) == s.0 && final(diags)@ == s.1
        }),
{
    let mut i: usize = start;
    while i < end && is_blank(cs[i])
        invariant
            start <= i <= end,
            end <= cs@.len(),
            spec_skip_blanks(cs@, i as int, end as int) == spec_skip_blanks(
                cs@,
                start as int,
                end as int,
            ),
        decreases end - i,
    {
        i = i + 1;
    }
    if i == end {
        return Item::Newlines;
    }
    if cs[i] == '#' {
        let mut j: usize = i + 1;
        if j < end && cs[j] == ' ' {
            j = j + 1;
        }
        let ghost j0 = j as int;
        let mut content: Vec<char> = Vec::new();
        proof {
            assert(content@ =~= cs@.subrange(j0, j0));
        }
        while j < end
            invariant
                0 <= j0 <= j as int <= end,
                end <= cs@.len(),
                content@ == cs@.subrange(j0, j as int),
            decreases end - j,
        {
            content.push(cs[j]);
            j = j + 1;
            proof {
                assert(content@ =~= cs@.subrange(j0, j as int));
            }
        }
        return Item::Comment(chars_to_string(content));
    }
    // A line is a binding when it starts with an identifier followed,
    // after optional blanks, by `=`.
    if char_is_alphabetic(cs[i]) {
        let mut j: usize = i;
        while j < end && char_is_alphabetic(cs[j])
            invariant
                i <= j <= end,
                end <= cs@.len(),
                spec_skip_alpha(cs@, j as int, end as int) == spec_skip_alpha(
                    cs@,
                    i as int,
                    end as int,
                ),
            decreases end - j,
        {
            j = j + 1;
        }
        let mut k: usize = j;
        while k < end && is_blank(cs[k])
            invariant
                j <= k <= end,
                end <= cs@.len(),
                spec_skip_blanks(cs@, k as int, end as int) == spec_skip_blanks(
                    cs@,
                    j as int,
                    end as int,
                ),
            decreases end - k,
        {
            k = k + 1;
        }
        if k < end && cs[k] == '=' {
            let mut name: Vec<char> = Vec::new();
            let mut t: usize = i;
            while t < j
                invariant
                    i <= t <= j,
                    j <= end <= cs@.len(),
                    name@ == cs@.subrange(i as int, t as int),
                decreases j - t,
            {
                name.push(cs[t]);
                t = t + 1;
                proof {
                    assert(name@ =~= cs@.subrange(i as int, t as int));
                }
            }
            let (words, _rest) = parse_seq(cs, k + 1, end, 0, line, start, diags);
            return Item::Binding(
                Binding {
                    name: chars_to_string(name),
                    words,
                    span: Span { line, col: col_of(i, start) },
                },
            );
        }
    }
    let (words, _rest) = parse_seq(cs, i, end, 0, line, start, diags);
    Item::Words(words)
}

/// Parses source text into items and parse diagnostics, exactly as
/// [`spec_parse`] says of the input's characters.
pub(crate) fn parse(input: &str) -> (r: (Vec<Item>, Vec<Diagnostic>))
    ensures
        crate::ast::items_view(r.0@) == spec_parse(input@).0,
        r.1@ == spec_parse(input@).1,
{
    let cs = str_to_chars(input);
    let total = cs.len();
    let ghost target = spec_parse(input@);
    let mut items: Vec<Item> = Vec::new();
    let mut diags: Vec<Diagnostic> = Vec::new();
    let mut i: usize = 0;
    let mut line: usize = 0;
    proof {
        assert(crate::ast::items_view(items@) =~= Seq::<ItemV>::empty());
        assert(spec_parse_loop(
            cs@,
            0,
            total as int,
            0,
            Seq::empty(),
            Seq::empty(),
        ) == target);
    }
    while i < total
        invariant
            i <= total,
            line <= i,
            total == cs@.len(),
            cs@ == input@,
            spec_parse_loop(
                cs@,
                i as int,
                total as int,
                line,
                crate::ast::items_view(items@),
                diags@,
            ) == target,
        decreases total - i,
    {
        let mut j: usize = i;
        while j < total && cs[j] != '\n'
            invariant
                i <= j <= total,
                total == cs@.len(),
                spec_find_nl(cs@, j as int, total as int) == spec_find_nl(
                    cs@,
                    i as int,
                    total as int,
                ),
            decreases total - j,
        {
            j = j + 1;
        }
        let ghost items_before = crate::ast::items_view(items@);
        let item = parse_line(&cs, i, j, line, &mut diags);
        let ghost iv = item_view(item);
        items.push(item);
        proof {
            assert(crate::ast::items_view(items@) =~= items_before.push(iv));
        }
        if j < total {
            i = j + 1;
        } else {
            i = total;
        }
        line = line + 1;
    }
    (items, diags)
}

} // verus!
