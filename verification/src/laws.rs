//! General properties of the formatter, stated and proved over the same
//! spec functions its contracts use.

use vstd::prelude::*;

use crate::ast::{Binding, Item, Word};
use crate::chars::{alphabetic, alphanumeric, line_space, numeric};
use crate::driver::{
    init_oracle, init_rstate, lemma_trim_end_no_trailing, spec_format_items, spec_run_items,
    spec_trim_end,
};
use crate::render::spec_digits;
use crate::oracle::{bound_contains, spec_register, OracleView};
use crate::prim::{spec_from_name, Primitive};
use crate::render::{spec_render_prim, spec_render_word};
use crate::state::{spec_after_strand, spec_pad_alphabetic, spec_pad_alphanumeric, spec_push, RState};

verus! {

/// Spacing safety, alphanumeric rule: when the buffer ends in an
/// alphanumeric character, a token appended under the alphanumeric rule
/// is separated from the existing text by exactly one space.
pub proof fn lemma_spacing_safety_alphanumeric(st: RState, t: Seq<char>)
    requires
        !st.strand,
        st.text.len() > 0,
        alphanumeric(st.text.last()),
    ensures
        spec_push(spec_pad_alphanumeric(st), t).text == st.text + seq![' '] + t,
{
    assert(spec_push(spec_pad_alphanumeric(st), t).text =~= st.text + seq![' '] + t);
}

/// Spacing safety, alphabetic rule: when the buffer ends in an
/// alphabetic character, a token appended under the alphabetic rule is
/// separated from the existing text by exactly one space.  An
/// alphabetic last character also triggers the alphanumeric rule.
pub proof fn lemma_spacing_safety_alphabetic(st: RState, t: Seq<char>)
    requires
        !st.strand,
        st.text.len() > 0,
        alphabetic(st.text.last()),
    ensures
        spec_push(spec_pad_alphabetic(st), t).text == st.text + seq![' '] + t,
        spec_push(spec_pad_alphanumeric(st), t).text == st.text + seq![' '] + t,
{
    assert(spec_push(spec_pad_alphabetic(st), t).text =~= st.text + seq![' '] + t);
    assert(spec_push(spec_pad_alphanumeric(st), t).text =~= st.text + seq![' '] + t);
}

/// Strand separation: right after a strand closes, the spacing rules
/// insert exactly one space before the next token, whatever the last
/// character of the buffer is.
pub proof fn lemma_strand_then_single_space(st: RState)
    requires
        st.strand,
    ensures
        spec_after_strand(st).text == st.text + seq![' '],
        !spec_after_strand(st).strand,
{
    assert(spec_after_strand(st).text =~= st.text + seq![' ']);
}

/// Spacing safety across a closed strand: granted the facts, plainly
/// true of the standard classifier, that the space character is neither
/// alphabetic nor numeric, a token appended under either rule right
/// after a strand closes is separated by exactly one space — never two.
pub proof fn lemma_strand_spacing_single(st: RState, t: Seq<char>)
    requires
        st.strand,
        !alphabetic(' '),
        !numeric(' '),
    ensures
        spec_push(spec_pad_alphanumeric(st), t).text == st.text + seq![' '] + t,
        spec_push(spec_pad_alphabetic(st), t).text == st.text + seq![' '] + t,
{
    assert(spec_push(spec_pad_alphanumeric(st), t).text =~= st.text + seq![' '] + t);
    assert(spec_push(spec_pad_alphabetic(st), t).text =~= st.text + seq![' '] + t);
}

/// An identifier that renders as its own spelling, after text that ends
/// in an alphabetic character, is separated from it by exactly one
/// space.
pub proof fn lemma_ident_token_separated(id: String, st: RState, bound: Seq<Seq<char>>)
    requires
        !st.strand,
        st.text.len() > 0,
        alphabetic(st.text.last()),
        bound_contains(bound, id@) || spec_from_name(id@) is None,
    ensures
        spec_render_word(Word::Ident(id), st, bound).text == st.text + seq![' '] + id@,
{
    lemma_spacing_safety_alphabetic(st, id@);
}

/// Primitive resolution: an identifier that is not bound and whose
/// spelling the registry knows renders as the primitive's canonical
/// form.
pub proof fn lemma_unbound_ident_renders_primitive(
    id: String,
    st: RState,
    bound: Seq<Seq<char>>,
    p: Primitive,
)
    requires
        !bound_contains(bound, id@),
        spec_from_name(id@) == Some(p),
    ensures
        spec_render_word(Word::Ident(id), st, bound) == spec_render_prim(p, st),
{
}

/// Binding shadowing: an identifier whose name is bound renders as the
/// identifier's own spelling, under the alphabetic rule, even when the
/// registry knows the same spelling.
pub proof fn lemma_bound_ident_renders_itself(id: String, st: RState, bound: Seq<Seq<char>>)
    requires
        bound_contains(bound, id@),
    ensures
        spec_render_word(Word::Ident(id), st, bound) == spec_push(spec_pad_alphabetic(st), id@),
{
}

/// Registering a binding whose name is free binds that name, so every
/// later identifier with the same spelling sees it bound.
pub proof fn lemma_register_binds(m: OracleView, b: Binding)
    ensures
        bound_contains(spec_register(m, Item::Binding(b)).bound, b.name@),
{
    if bound_contains(m.bound, b.name@) {
    } else {
        let after = spec_register(m, Item::Binding(b)).bound;
        assert(after[m.bound.len() as int] == b.name@);
    }
}

/// Once an item has bound a name, an identifier with that spelling in
/// any later item renders as the identifier itself, whatever the
/// registry knows: the binding shadows the primitive.
pub proof fn lemma_ident_after_own_binding(id: String, b: Binding, m: OracleView, st: RState)
    requires
        id@ == b.name@,
    ensures
        spec_render_word(Word::Ident(id), st, spec_register(m, Item::Binding(b)).bound)
            == spec_push(spec_pad_alphabetic(st), id@),
{
    lemma_register_binds(m, b);
    lemma_bound_ident_renders_itself(id, st, spec_register(m, Item::Binding(b)).bound);
}

/// Registering an item never unbinds a name.
pub proof fn lemma_register_keeps_bound(m: OracleView, item: Item, n: Seq<char>)
    requires
        bound_contains(m.bound, n),
    ensures
        bound_contains(spec_register(m, item).bound, n),
{
    let i = choose|i: int| 0 <= i < m.bound.len() && m.bound[i] == n;
    assert(spec_register(m, item).bound[i] == n);
}

/// All-or-nothing diagnostics: a run fails exactly when the oracle
/// gathered some diagnostic, and then reports that full list; no
/// partially formatted text is ever returned.
pub proof fn lemma_all_or_nothing(items: Seq<Item>)
    ensures
        spec_format_items(items) is Err <==> spec_run_items(
            items,
            init_rstate(),
            init_oracle(),
        ).1.diags.len() > 0,
        spec_format_items(items) is Err ==> spec_format_items(items)->Err_0 == spec_run_items(
            items,
            init_rstate(),
            init_oracle(),
        ).1.diags,
{
}

/// A number rendered after text that ends in an alphanumeric character
/// is separated from it by exactly one space, so the two tokens cannot
/// merge on a re-parse.
pub proof fn lemma_number_token_separated(n: u64, st: RState, bound: Seq<Seq<char>>)
    requires
        !st.strand,
        st.text.len() > 0,
        alphanumeric(st.text.last()),
    ensures
        spec_render_word(Word::Number(n), st, bound).text == st.text + seq![' '] + spec_digits(
            n as int,
        ),
{
    lemma_spacing_safety_alphanumeric(st, spec_digits(n as int));
}

/// The driver's trailing normalization is idempotent: trimming and
/// terminating a text that is already trimmed and terminated reproduces
/// it exactly.
pub proof fn lemma_normalization_idempotent(s: Seq<char>)
    ensures
        spec_trim_end(spec_trim_end(s).push('\n')).push('\n') == spec_trim_end(s).push('\n'),
{
    let t0 = spec_trim_end(s);
    lemma_trim_end_no_trailing(s);
    let t = t0.push('\n');
    assert(t.drop_last() =~= t0);
    assert(t.last() == '\n');
    assert(line_space('\n'));
    assert(spec_trim_end(t) == spec_trim_end(t.drop_last()));
    assert(t.drop_last() == t0);
    if t0.len() > 0 {
        assert(!line_space(t0.last()));
        assert(spec_trim_end(t0) == t0);
    } else {
        assert(spec_trim_end(t0) == t0);
    }
}

/// Trailing normalization: a successful format ends in exactly one line
/// terminator, with no other trailing line-space character before it.
pub proof fn lemma_trailing_newline(items: Seq<Item>)
    ensures
        spec_format_items(items) is Ok ==> spec_format_items(items)->Ok_0.len() >= 1,
        spec_format_items(items) is Ok ==> spec_format_items(items)->Ok_0.last() == '\n',
        spec_format_items(items) is Ok ==> (spec_format_items(items)->Ok_0.len() >= 2
            ==> !line_space(
            spec_format_items(items)->Ok_0[spec_format_items(items)->Ok_0.len() - 2],
        )),
{
    let p = spec_run_items(items, init_rstate(), init_oracle());
    lemma_trim_end_no_trailing(p.0.text);
}

} // verus!
