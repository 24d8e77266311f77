//! The tree serializer: canonical text for every item and word, and the
//! spec-level rendering functions the executable code is proved against.
//!
//! Rendering never removes or reorders text already in the buffer: every
//! step appends, after one of the spacing rules has run.

use vstd::prelude::*;
use vstd::string::StrSliceExecFns;

use crate::ast::{
    funcs_view, item_view, word_view, words_view, Binding, Func, Item,
    ItemV, Word, WordV,
};
use crate::chars::alphabetic;
use crate::oracle::{bound_contains, spec_register, OracleView};
use crate::prim::{glyph, glyph_chars, from_name, spec_from_name, Primitive};
use crate::state::{
    spec_after_strand, spec_pad_alphabetic, spec_pad_alphanumeric, spec_push, FormatState, RState,
};

verus! {

broadcast use vstd::seq::group_seq_axioms, vstd::std_specs::vec::group_vec_axioms;

/// The decimal digit character for one digit value.
pub open spec fn digit_char(d: int) -> char {
    if d == 0 {
        '0'
    } else if d == 1 {
        '1'
    } else if d == 2 {
        '2'
    } else if d == 3 {
        '3'
    } else if d == 4 {
        '4'
    } else if d == 5 {
        '5'
    } else if d == 6 {
        '6'
    } else if d == 7 {
        '7'
    } else if d == 8 {
        '8'
    } else {
        '9'
    }
}

/// The decimal rendering of a number, most significant digit first.
pub open spec fn spec_digits(n: int) -> Seq<char>
    decreases n,
{
    if n < 10 {
        seq![digit_char(n)]
    } else {
        spec_digits(n / 10) + seq![digit_char(n % 10)]
    }
}

/// How one character is escaped inside a literal quoted with `quote`.
pub open spec fn esc_char(c: char, quote: char) -> Seq<char> {
    if c == '\\' {
        seq!['\\', '\\']
    } else if c == quote {
        seq!['\\'] + seq![quote]
    } else if c == '\n' {
        seq!['\\', 'n']
    } else if c == '\t' {
        seq!['\\', 't']
    } else if c == '\r' {
        seq!['\\', 'r']
    } else {
        seq![c]
    }
}

/// The escaped text of a whole literal body.
pub open spec fn esc_text(s: Seq<char>, quote: char) -> Seq<char>
    decreases s.len(),
{
    if s.len() == 0 {
        Seq::empty()
    } else {
        esc_text(s.drop_last(), quote) + esc_char(s.last(), quote)
    }
}

/// The canonical display form of a character literal.
pub open spec fn char_lit_text(c: char) -> Seq<char> {
    seq!['\''] + esc_char(c, '\'') + seq!['\'']
}

/// The canonical display form of a string literal.
pub open spec fn str_lit_text(s: Seq<char>) -> Seq<char> {
    seq!['"'] + esc_text(s, '"') + seq!['"']
}

/// Rendering a primitive: its canonical form, guarded by the
/// alphanumeric rule when that form starts with an alphabetic character.
pub open spec fn spec_render_prim(p: Primitive, st: RState) -> RState {
    let g = glyph(p);
    if alphabetic(g[0]) {
        spec_push(spec_pad_alphanumeric(st), g)
    } else {
        spec_push(st, g)
    }
}

/// Rendering one word into the state, given the set of names the oracle
/// holds bound.
pub open spec fn spec_render_word(w: Word, st: RState, bound: Seq<Seq<char>>) -> RState
    decreases w,
{
    match w {
        Word::Number(n) => spec_push(spec_pad_alphanumeric(st), spec_digits(n as int)),
        Word::Char(c) => spec_push(spec_pad_alphanumeric(st), char_lit_text(c)),
        Word::Str(s) => spec_push(spec_pad_alphanumeric(st), str_lit_text(s@)),
        Word::Ident(id) => {
            if !bound_contains(bound, id@) && spec_from_name(id@) is Some {
                spec_render_prim(spec_from_name(id@)->Some_0, st)
            } else {
                spec_push(spec_pad_alphabetic(st), id@)
            }
        },
        Word::Strand(items) => {
            let st1 = spec_render_strand(items@, st, bound);
            RState { text: st1.text, strand: true }
        },
        Word::Array(items) => spec_push(
            spec_render_words(items@, spec_push(st, seq!['[']), bound),
            seq![']'],
        ),
        Word::Func(f) => spec_push(
            spec_render_words(f.body@, spec_push(st, seq!['(']), bound),
            seq![')'],
        ),
        Word::FuncArray(fs) => spec_push(
            spec_render_funcs(fs@, spec_push(st, seq!['(']), bound),
            seq![')'],
        ),
        Word::Selector(s) => spec_push(spec_pad_alphabetic(st), s@),
        Word::Primitive(p) => spec_render_prim(p, st),
        Word::Modified(m, op) => spec_render_word(*op, spec_render_word(*m, st, bound), bound),
    }
}

/// Rendering a sequence of words in order, with no added separators.
pub open spec fn spec_render_words(ws: Seq<Word>, st: RState, bound: Seq<Seq<char>>) -> RState
    decreases ws,
{
    if ws.len() == 0 {
        st
    } else {
        spec_render_word(ws.last(), spec_render_words(ws.drop_last(), st, bound), bound)
    }
}

/// Rendering the members of a strand, with `_` before every member after
/// the first.
pub open spec fn spec_render_strand(ws: Seq<Word>, st: RState, bound: Seq<Seq<char>>) -> RState
    decreases ws,
{
    if ws.len() == 0 {
        st
    } else {
        let prev = spec_render_strand(ws.drop_last(), st, bound);
        let sep = if ws.len() > 1 {
            spec_push(prev, seq!['_'])
        } else {
            prev
        };
        spec_render_word(ws.last(), sep, bound)
    }
}

/// Rendering function bodies, with `|` before every body after the first.
pub open spec fn spec_render_funcs(fs: Seq<Func>, st: RState, bound: Seq<Seq<char>>) -> RState
    decreases fs,
{
    if fs.len() == 0 {
        st
    } else {
        let prev = spec_render_funcs(fs.drop_last(), st, bound);
        let sep = if fs.len() > 1 {
            spec_push(prev, seq!['|'])
        } else {
            prev
        };
        spec_render_words(fs.last().body@, sep, bound)
    }
}

/// Rendering one item's own text (without the line terminator the driver
/// appends after every item).
pub open spec fn spec_render_item(item: Item, st: RState, m: OracleView) -> RState {
    match item {
        Item::Words(ws) => spec_render_words(ws@, st, m.bound),
        Item::Binding(b) => spec_render_binding(b, st, m.bound),
        Item::Comment(c) => spec_push(spec_push(st, seq!['#', ' ']), c@),
        Item::Newlines => st,
    }
}

/// Rendering a binding: name, a literal ` = `, the defining words.
pub open spec fn spec_render_binding(b: Binding, st: RState, bound: Seq<Seq<char>>) -> RState {
    spec_render_words(b.words@, spec_push(spec_push(st, b.name@), seq![' ', '=', ' ']), bound)
}


/// Rendering one word model.  Mirrors [`spec_render_word`] over the
/// mathematical tree; [`lemma_render_word_view`] ties the two.
pub open spec fn spec_render_word_v(v: WordV, st: RState, bound: Seq<Seq<char>>) -> RState
    decreases v,
{
    match v {
        WordV::Number(n) => spec_push(spec_pad_alphanumeric(st), spec_digits(n as int)),
        WordV::Char(c) => spec_push(spec_pad_alphanumeric(st), char_lit_text(c)),
        WordV::Str(s) => spec_push(spec_pad_alphanumeric(st), str_lit_text(s)),
        WordV::Ident(id) => {
            if !bound_contains(bound, id) && spec_from_name(id) is Some {
                spec_render_prim(spec_from_name(id)->Some_0, st)
            } else {
                spec_push(spec_pad_alphabetic(st), id)
            }
        },
        WordV::Strand(items) => {
            let st1 = spec_render_strand_v(items, st, bound);
            RState { text: st1.text, strand: true }
        },
        WordV::Array(items) => spec_push(
            spec_render_words_v(items, spec_push(st, seq!['[']), bound),
            seq![']'],
        ),
        WordV::Func(body) => spec_push(
            spec_render_words_v(body, spec_push(st, seq!['(']), bound),
            seq![')'],
        ),
        WordV::FuncArray(fs) => spec_push(
            spec_render_funcs_v(fs, spec_push(st, seq!['(']), bound),
            seq![')'],
        ),
        WordV::Selector(s) => spec_push(spec_pad_alphabetic(st), s),
        WordV::Primitive(p) => spec_render_prim(p, st),
        WordV::Modified(m, op) => spec_render_word_v(*op, spec_render_word_v(*m, st, bound), bound),
    }
}

/// Rendering a sequence of word models in order.
pub open spec fn spec_render_words_v(vs: Seq<WordV>, st: RState, bound: Seq<Seq<char>>) -> RState
    decreases vs,
{
    if vs.len() == 0 {
        st
    } else {
        spec_render_word_v(vs.last(), spec_render_words_v(vs.drop_last(), st, bound), bound)
    }
}

/// Rendering strand member models, with `_` before every member after
/// the first.
pub open spec fn spec_render_strand_v(vs: Seq<WordV>, st: RState, bound: Seq<Seq<char>>) -> RState
    decreases vs,
{
    if vs.len() == 0 {
        st
    } else {
        let prev = spec_render_strand_v(vs.drop_last(), st, bound);
        let sep = if vs.len() > 1 {
            spec_push(prev, seq!['_'])
        } else {
            prev
        };
        spec_render_word_v(vs.last(), sep, bound)
    }
}

/// Rendering function body models, with `|` before every body after the
/// first.
pub open spec fn spec_render_funcs_v(fs: Seq<Seq<WordV>>, st: RState, bound: Seq<Seq<char>>) -> RState
    decreases fs,
{
    if fs.len() == 0 {
        st
    } else {
        let prev = spec_render_funcs_v(fs.drop_last(), st, bound);
        let sep = if fs.len() > 1 {
            spec_push(prev, seq!['|'])
        } else {
            prev
        };
        spec_render_words_v(fs.last(), sep, bound)
    }
}

/// Rendering one item model (without the driver's line terminator).
pub open spec fn spec_render_item_v(iv: ItemV, st: RState, m: OracleView) -> RState {
    match iv {
        ItemV::Words(vs) => spec_render_words_v(vs, st, m.bound),
        ItemV::Binding(bv) => spec_render_words_v(
            bv.words,
            spec_push(spec_push(st, bv.name), seq![' ', '=', ' ']),
            m.bound,
        ),
        ItemV::Comment(c) => spec_push(spec_push(st, seq!['#', ' ']), c),
        ItemV::Newlines => st,
    }
}

/// Rendering a word equals rendering its model.
pub proof fn lemma_render_word_view(w: Word, st: RState, bound: Seq<Seq<char>>)
    ensures
        spec_render_word(w, st, bound) == spec_render_word_v(word_view(w), st, bound),
    decreases w,
{
    match w {
        Word::Strand(items) => {
            lemma_render_strand_view(items@, st, bound);
        },
        Word::Array(items) => {
            lemma_render_words_view(items@, spec_push(st, seq!['[']), bound);
        },
        Word::Func(f) => {
            lemma_render_words_view(f.body@, spec_push(st, seq!['(']), bound);
        },
        Word::FuncArray(fs) => {
            lemma_render_funcs_view(fs@, spec_push(st, seq!['(']), bound);
        },
        Word::Modified(m, op) => {
            lemma_render_word_view(*m, st, bound);
            lemma_render_word_view(*op, spec_render_word(*m, st, bound), bound);
        },
        _ => {},
    }
}

/// Rendering a word sequence equals rendering its model sequence.
pub proof fn lemma_render_words_view(ws: Seq<Word>, st: RState, bound: Seq<Seq<char>>)
    ensures
        spec_render_words(ws, st, bound) == spec_render_words_v(words_view(ws), st, bound),
    decreases ws,
{
    let vs = words_view(ws);
    assert(vs.len() == ws.len());
    if ws.len() == 0 {
    } else {
        assert(vs.drop_last() =~= words_view(ws.drop_last()));
        assert(vs.last() == word_view(ws.last()));
        lemma_render_words_view(ws.drop_last(), st, bound);
        lemma_render_word_view(ws.last(), spec_render_words(ws.drop_last(), st, bound), bound);
    }
}

/// Rendering a strand equals rendering its model.
pub proof fn lemma_render_strand_view(ws: Seq<Word>, st: RState, bound: Seq<Seq<char>>)
    ensures
        spec_render_strand(ws, st, bound) == spec_render_strand_v(words_view(ws), st, bound),
    decreases ws,
{
    let vs = words_view(ws);
    assert(vs.len() == ws.len());
    if ws.len() == 0 {
    } else {
        assert(vs.drop_last() =~= words_view(ws.drop_last()));
        assert(vs.last() == word_view(ws.last()));
        lemma_render_strand_view(ws.drop_last(), st, bound);
        let prev = spec_render_strand(ws.drop_last(), st, bound);
        let sep = if ws.len() > 1 {
            spec_push(prev, seq!['_'])
        } else {
            prev
        };
        lemma_render_word_view(ws.last(), sep, bound);
    }
}

/// Rendering function bodies equals rendering their models.
pub proof fn lemma_render_funcs_view(fs: Seq<Func>, st: RState, bound: Seq<Seq<char>>)
    ensures
        spec_render_funcs(fs, st, bound) == spec_render_funcs_v(funcs_view(fs), st, bound),
    decreases fs,
{
    let vs = funcs_view(fs);
    assert(vs.len() == fs.len());
    if fs.len() == 0 {
    } else {
        assert(vs.drop_last() =~= funcs_view(fs.drop_last()));
        assert(vs.last() == words_view(fs.last().body@));
        lemma_render_funcs_view(fs.drop_last(), st, bound);
        let prev = spec_render_funcs(fs.drop_last(), st, bound);
        let sep = if fs.len() > 1 {
            spec_push(prev, seq!['|'])
        } else {
            prev
        };
        lemma_render_words_view(fs.last().body@, sep, bound);
    }
}

/// Rendering an item equals rendering its model.
pub proof fn lemma_render_item_view(item: Item, st: RState, m: OracleView)
    ensures
        spec_render_item(item, st, m) == spec_render_item_v(item_view(item), st, m),
{
    match item {
        Item::Words(ws) => {
            lemma_render_words_view(ws@, st, m.bound);
        },
        Item::Binding(b) => {
            lemma_render_words_view(
                b.words@,
                spec_push(spec_push(st, b.name@), seq![' ', '=', ' ']),
                m.bound,
            );
        },
        _ => {},
    }
}

/// The canonical form of every primitive is non-empty.
pub proof fn lemma_glyph_nonempty(p: Primitive)
    ensures
        glyph(p).len() > 0,
{
    match p {
        Primitive::Add => assert(glyph(p).len() > 0),
        Primitive::Sub => assert(glyph(p).len() > 0),
        Primitive::Mul => assert(glyph(p).len() > 0),
        Primitive::Div => assert(glyph(p).len() > 0),
        Primitive::Len => assert(glyph(p).len() > 0),
        Primitive::Rev => assert(glyph(p).len() > 0),
    }
}

/// The digit character for one digit value.
fn digit_of(d: u64) -> (c: char)
    requires
        d < 10,
    ensures
        c == digit_char(d as int),
{
    if d == 0 {
        '0'
    } else if d == 1 {
        '1'
    } else if d == 2 {
        '2'
    } else if d == 3 {
        '3'
    } else if d == 4 {
        '4'
    } else if d == 5 {
        '5'
    } else if d == 6 {
        '6'
    } else if d == 7 {
        '7'
    } else if d == 8 {
        '8'
    } else {
        '9'
    }
}

/// The decimal rendering of a number.
pub fn u64_chars(n: u64) -> (v: Vec<char>)
    ensures
        v@ == spec_digits(n as int),
    decreases n,
{
    if n < 10 {
        let v = vec![digit_of(n)];
        proof {
            assert(v@ =~= spec_digits(n as int));
        }
        v
    } else {
        let mut v = u64_chars(n / 10);
        v.push(digit_of(n % 10));
        proof {
            assert(v@ =~= spec_digits(n as int));
        }
        v
    }
}

/// The escape of one character inside a literal quoted with `quote`.
fn esc_char_vec(c: char, quote: char) -> (v: Vec<char>)
    ensures
        v@ == esc_char(c, quote),
{
    let v: Vec<char> = if c == '\\' {
        vec!['\\', '\\']
    } else if c == quote {
        vec!['\\', quote]
    } else if c == '\n' {
        vec!['\\', 'n']
    } else if c == '\t' {
        vec!['\\', 't']
    } else if c == '\r' {
        vec!['\\', 'r']
    } else {
        vec![c]
    };
    proof {
        assert(v@ =~= esc_char(c, quote));
    }
    v
}

impl Primitive {
    /// Renders the canonical display form of this primitive.
    pub fn format(&self, state: &mut FormatState)
        ensures
            final(state).rst() == spec_render_prim(*self, old(state).rst()),
            final(state).oracle == old(state).oracle,
    {
        proof {
            lemma_glyph_nonempty(*self);
        }
        let g = glyph_chars(*self);
        let c = g[0];
        if crate::chars::char_is_alphabetic(c) {
            state.space_if_alphanumeric();
        }
        state.push_chars(&g);
        proof {
            assert(final(state).rst() =~= spec_render_prim(*self, old(state).rst()));
        }
    }
}

/// Renders a sequence of words in order.
pub fn format_words(words: &Vec<Word>, state: &mut FormatState)
    ensures
        final(state).rst() == spec_render_words(
            words@,
            old(state).rst(),
            old(state).oracle.model().bound,
        ),
        final(state).oracle == old(state).oracle,
    decreases words@,
{
    let ghost st0 = state.rst();
    let ghost or0 = state.oracle;
    let ghost bound = state.oracle.model().bound;
    let n = words.len();
    let mut i: usize = 0;
    while i < n
        invariant
            i <= n,
            n == words@.len(),
            state.oracle == or0,
            bound == or0.model().bound,
            state.rst() == spec_render_words(words@.take(i as int), st0, bound),
        decreases n - i,
    {
        proof {
            assert(decreases_to!(words@ => words@[i as int]));
        }
        let w = &words[i];
        w.format(state);
        i = i + 1;
        proof {
            assert(words@.take(i as int).drop_last() =~= words@.take(i as int - 1));
            assert(words@.take(i as int).last() == words@[i as int - 1]);
            assert(state.rst() == spec_render_words(words@.take(i as int), st0, bound));
        }
    }
    proof {
        assert(words@.take(n as int) =~= words@);
    }
}

/// Renders the members of a strand, separated by `_`.
fn format_strand(words: &Vec<Word>, state: &mut FormatState)
    ensures
        final(state).rst() == spec_render_strand(
            words@,
            old(state).rst(),
            old(state).oracle.model().bound,
        ),
        final(state).oracle == old(state).oracle,
    decreases words@,
{
    let ghost st0 = state.rst();
    let ghost or0 = state.oracle;
    let ghost bound = state.oracle.model().bound;
    let n = words.len();
    let mut i: usize = 0;
    while i < n
        invariant
            i <= n,
            n == words@.len(),
            state.oracle == or0,
            bound == or0.model().bound,
            state.rst() == spec_render_strand(words@.take(i as int), st0, bound),
        decreases n - i,
    {
        if i > 0 {
            state.push_char('_');
        }
        proof {
            assert(decreases_to!(words@ => words@[i as int]));
        }
        let w = &words[i];
        w.format(state);
        i = i + 1;
        proof {
            assert(words@.take(i as int).drop_last() =~= words@.take(i as int - 1));
            assert(words@.take(i as int).last() == words@[i as int - 1]);
            assert(state.rst() == spec_render_strand(words@.take(i as int), st0, bound));
        }
    }
    proof {
        assert(words@.take(n as int) =~= words@);
    }
}

/// Renders function bodies, separated by `|`.
fn format_funcs(fs: &Vec<Func>, state: &mut FormatState)
    ensures
        final(state).rst() == spec_render_funcs(
            fs@,
            old(state).rst(),
            old(state).oracle.model().bound,
        ),
        final(state).oracle == old(state).oracle,
    decreases fs@,
{
    let ghost st0 = state.rst();
    let ghost or0 = state.oracle;
    let ghost bound = state.oracle.model().bound;
    let n = fs.len();
    let mut i: usize = 0;
    while i < n
        invariant
            i <= n,
            n == fs@.len(),
            state.oracle == or0,
            bound == or0.model().bound,
            state.rst() == spec_render_funcs(fs@.take(i as int), st0, bound),
        decreases n - i,
    {
        if i > 0 {
            state.push_char('|');
        }
        proof {
            assert(decreases_to!(fs@ => fs@[i as int]));
            assert(decreases_to!(fs@[i as int] => fs@[i as int].body));
            assert(decreases_to!(fs@[i as int].body => fs@[i as int].body@));
        }
        let f = &fs[i];
        format_words(&f.body, state);
        i = i + 1;
        proof {
            assert(fs@.take(i as int).drop_last() =~= fs@.take(i as int - 1));
            assert(fs@.take(i as int).last() == fs@[i as int - 1]);
            assert(state.rst() == spec_render_funcs(fs@.take(i as int), st0, bound));
        }
    }
    proof {
        assert(fs@.take(n as int) =~= fs@);
    }
}

impl Word {
    /// Renders this word into the state, as [`spec_render_word`] says.
    pub fn format(&self, state: &mut FormatState)
        ensures
            final(state).rst() == spec_render_word(
                *self,
                old(state).rst(),
                old(state).oracle.model().bound,
            ),
            final(state).oracle == old(state).oracle,
        decreases *self,
    {
        let ghost st0 = state.rst();
        let ghost bound = state.oracle.model().bound;
        match self {
            Word::Number(n) => {
                state.space_if_alphanumeric();
                let d = u64_chars(*n);
                state.push_chars(&d);
            },
            Word::Char(c) => {
                state.space_if_alphanumeric();
                state.push_char('\'');
                let e = esc_char_vec(*c, '\'');
                state.push_chars(&e);
                state.push_char('\'');
                proof {
                    assert(state.rst() =~= spec_push(spec_pad_alphanumeric(st0), char_lit_text(*c)));
                }
            },
            Word::Str(s) => {
                state.space_if_alphanumeric();
                state.push_char('"');
                let ss = s.as_str();
                let n = ss.unicode_len();
                let mut i: usize = 0;
                while i < n
                    invariant
                        i <= n,
                        n == s@.len(),
                        ss@ == s@,
                        state.oracle == old(state).oracle,
                        state.rst() == spec_push(
                            spec_pad_alphanumeric(st0),
                            seq!['"'] + esc_text(s@.take(i as int), '"'),
                        ),
                    decreases n - i,
                {
                    let e = esc_char_vec(ss.get_char(i), '"');
                    state.push_chars(&e);
                    i = i + 1;
                    proof {
                        assert(s@.take(i as int).drop_last() =~= s@.take(i as int - 1));
                        assert(s@.take(i as int).last() == s@[i as int - 1]);
                        assert(state.rst() =~= spec_push(
                            spec_pad_alphanumeric(st0),
                            seq!['"'] + esc_text(s@.take(i as int), '"'),
                        ));
                    }
                }
                state.push_char('"');
                proof {
                    assert(s@.take(n as int) =~= s@);
                    assert(state.rst() =~= spec_push(spec_pad_alphanumeric(st0), str_lit_text(s@)));
                }
            },
            Word::Ident(id) => {
                let is_b = state.oracle.is_bound(id);
                if !is_b {
                    if let Some(pr) = from_name(id.as_str()) {
                        pr.format(state);
                        proof {
                            assert(state.rst() == spec_render_word(*self, st0, bound));
                        }
                        return;
                    }
                }
                state.space_if_alphabetic();
                state.push(id.as_str());
            },
            Word::Strand(items) => {
                proof {
                    assert(decreases_to!(*self => *items));
                    assert(decreases_to!(*items => items@));
                }
                format_strand(items, state);
                state.was_strand = true;
                proof {
                    assert(state.rst() =~= spec_render_word(*self, st0, bound));
                }
            },
            Word::Array(items) => {
                state.push_char('[');
                proof {
                    assert(decreases_to!(*self => *items));
                    assert(decreases_to!(*items => items@));
                }
                format_words(items, state);
                state.push_char(']');
            },
            Word::Func(f) => {
                state.push_char('(');
                proof {
                    assert(decreases_to!(*self => *f));
                    assert(decreases_to!(*f => f.body));
                    assert(decreases_to!(f.body => f.body@));
                }
                format_words(&f.body, state);
                state.push_char(')');
            },
            Word::FuncArray(fs) => {
                state.push_char('(');
                proof {
                    assert(decreases_to!(*self => *fs));
                    assert(decreases_to!(*fs => fs@));
                }
                format_funcs(fs, state);
                state.push_char(')');
            },
            Word::Selector(s) => {
                state.space_if_alphabetic();
                state.push(s.as_str());
            },
            Word::Primitive(p) => {
                p.format(state);
            },
            Word::Modified(m, op) => {
                proof {
                    assert(decreases_to!(*self => *m));
                    assert(decreases_to!(*self => *op));
                }
                let mw: &Word = &**m;
                mw.format(state);
                let ow: &Word = &**op;
                ow.format(state);
            },
        }
        proof {
            assert(state.rst() == spec_render_word(*self, st0, bound));
        }
    }
}

impl Binding {
    /// Renders this binding: name, ` = `, defining words.
    pub fn format(&self, state: &mut FormatState)
        ensures
            final(state).rst() == spec_render_binding(
                *self,
                old(state).rst(),
                old(state).oracle.model().bound,
            ),
            final(state).oracle == old(state).oracle,
    {
        state.push(self.name.as_str());
        state.push(" = ");
        proof {
            reveal_strlit(" = ");
            assert(" = "@ =~= seq![' ', '=', ' ']);
        }
        format_words(&self.words, state);
        proof {
            assert(state.rst() =~= spec_render_binding(
                *self,
                old(state).rst(),
                old(state).oracle.model().bound,
            ));
        }
    }
}

impl Item {
    /// Renders this item, registers it with the oracle, and appends the
    /// line terminator.
    pub fn format(&self, state: &mut FormatState)
        ensures
            final(state).rst() == spec_push(
                spec_render_item(*self, old(state).rst(), old(state).oracle.model()),
                seq!['\n'],
            ),
            final(state).oracle.model() == spec_register(old(state).oracle.model(), *self),
    {
        match self {
            Item::Words(words) => {
                format_words(words, state);
            },
            Item::Binding(b) => {
                b.format(state);
            },
            Item::Comment(c) => {
                state.push("# ");
                proof {
                    reveal_strlit("# ");
                    assert("# "@ =~= seq!['#', ' ']);
                }
                state.push(c.as_str());
            },
            Item::Newlines => {},
        }
        proof {
            assert(state.rst() == spec_render_item(*self, old(state).rst(), old(state).oracle.model()));
        }
        state.oracle.register(self);
        state.push_char('\n');
    }
}

} // verus!
