//! The format driver: runs the serializer over a whole document,
//! enforces the all-or-nothing diagnostic policy, and normalizes the
//! trailing whitespace of the result.

use vstd::prelude::*;

use crate::ast::{item_view, items_view, Diagnostic, Item, ItemV};
use crate::chars::{chars_to_string, is_line_space, line_space};
use crate::oracle::{lemma_register_view, spec_register, spec_register_v, Oracle, OracleView};
use crate::render::{lemma_render_item_view, spec_render_item, spec_render_item_v};
use crate::state::{spec_push, FormatState, RState};

verus! {

/// The state a run starts from: an empty buffer, no strand just closed.
pub open spec fn init_rstate() -> RState {
    RState { text: Seq::empty(), strand: false }
}

/// The oracle a run starts from: nothing bound, no diagnostics.
pub open spec fn init_oracle() -> OracleView {
    OracleView { bound: Seq::empty(), diags: Seq::empty() }
}

/// Running the serializer over a document: each item is rendered, then
/// registered with the oracle, then followed by one line terminator.
pub open spec fn spec_run_items(items: Seq<Item>, st: RState, m: OracleView) -> (RState, OracleView)
    decreases items.len(),
{
    if items.len() == 0 {
        (st, m)
    } else {
        let p = spec_run_items(items.drop_last(), st, m);
        (
            spec_push(spec_render_item(items.last(), p.0, p.1), seq!['\n']),
            spec_register(p.1, items.last()),
        )
    }
}

/// The buffer with every trailing line-space character removed.
pub open spec fn spec_trim_end(s: Seq<char>) -> Seq<char>
    decreases s.len(),
{
    if s.len() > 0 && line_space(s.last()) {
        spec_trim_end(s.drop_last())
    } else {
        s
    }
}

/// A trimmed buffer never ends in a line-space character.
pub proof fn lemma_trim_end_no_trailing(s: Seq<char>)
    ensures
        spec_trim_end(s).len() > 0 ==> !line_space(spec_trim_end(s).last()),
    decreases s.len(),
{
    if s.len() > 0 && line_space(s.last()) {
        lemma_trim_end_no_trailing(s.drop_last());
    }
}

/// What formatting a document yields: the diagnostics the oracle
/// gathered, if there were any; otherwise the rendered text, trimmed at
/// the end and closed with exactly one line terminator.
pub open spec fn spec_format_items(items: Seq<Item>) -> Result<Seq<char>, Seq<Diagnostic>> {
    let p = spec_run_items(items, init_rstate(), init_oracle());
    if p.1.diags.len() > 0 {
        Err(p.1.diags)
    } else {
        Ok(spec_trim_end(p.0.text).push('\n'))
    }
}

/// Running the serializer over a document of item models.
pub open spec fn spec_run_items_v(ivs: Seq<ItemV>, st: RState, m: OracleView) -> (
    RState,
    OracleView,
)
    decreases ivs.len(),
{
    if ivs.len() == 0 {
        (st, m)
    } else {
        let p = spec_run_items_v(ivs.drop_last(), st, m);
        (
            spec_push(spec_render_item_v(ivs.last(), p.0, p.1), seq!['\n']),
            spec_register_v(p.1, ivs.last()),
        )
    }
}

/// What formatting a document of item models yields.
pub open spec fn spec_format_items_v(ivs: Seq<ItemV>) -> Result<Seq<char>, Seq<Diagnostic>> {
    let p = spec_run_items_v(ivs, init_rstate(), init_oracle());
    if p.1.diags.len() > 0 {
        Err(p.1.diags)
    } else {
        Ok(spec_trim_end(p.0.text).push('\n'))
    }
}

/// Running a document equals running its models.
pub proof fn lemma_run_items_view(items: Seq<Item>, st: RState, m: OracleView)
    ensures
        spec_run_items(items, st, m) == spec_run_items_v(items_view(items), st, m),
    decreases items.len(),
{
    let ivs = items_view(items);
    assert(ivs.len() == items.len());
    if items.len() == 0 {
    } else {
        assert(ivs.drop_last() =~= items_view(items.drop_last()));
        assert(ivs.last() == item_view(items.last()));
        lemma_run_items_view(items.drop_last(), st, m);
        let p = spec_run_items(items.drop_last(), st, m);
        lemma_render_item_view(items.last(), p.0, p.1);
        lemma_register_view(p.1, items.last());
    }
}

/// Formatting a document equals formatting its models.
pub proof fn lemma_format_items_view(items: Seq<Item>)
    ensures
        spec_format_items(items) == spec_format_items_v(items_view(items)),
{
    lemma_run_items_view(items, init_rstate(), init_oracle());
}

/// Formats an already-parsed document, as [`spec_format_items`] says:
/// any oracle diagnostic suppresses the whole output; otherwise the
/// result is the canonical rendering with one trailing line terminator.
pub fn format_items(items: Vec<Item>) -> (r: Result<String, Vec<Diagnostic>>)
    ensures
        ({
            let m = spec_format_items(items@);
            match r {
                Ok(s) => m is Ok && s@ == m->Ok_0,
                Err(ds) => m is Err && ds@ == m->Err_0,
            }
        }),
{
    let oracle = Oracle::new();
    let mut state = FormatState { buf: Vec::new(), was_strand: false, oracle };
    proof {
        assert(state.rst() =~= init_rstate());
        assert(state.oracle.model() =~= init_oracle());
    }
    let n = items.len();
    let mut i: usize = 0;
    while i < n
        invariant
            i <= n,
            n == items@.len(),
            state.rst() == spec_run_items(items@.take(i as int), init_rstate(), init_oracle()).0,
            state.oracle.model() == spec_run_items(
                items@.take(i as int),
                init_rstate(),
                init_oracle(),
            ).1,
        decreases n - i,
    {
        let it = &items[i];
        it.format(&mut state);
        i = i + 1;
        proof {
            assert(items@.take(i as int).drop_last() =~= items@.take(i as int - 1));
            assert(items@.take(i as int).last() == items@[i as int - 1]);
            assert(state.rst() == spec_run_items(
                items@.take(i as int),
                init_rstate(),
                init_oracle(),
            ).0);
            assert(state.oracle.model() == spec_run_items(
                items@.take(i as int),
                init_rstate(),
                init_oracle(),
            ).1);
        }
    }
    proof {
        assert(items@.take(n as int) =~= items@);
    }
    let FormatState { buf, was_strand: _, oracle } = state;
    if oracle.diags.len() > 0 {
        return Err(oracle.diags);
    }
    let ghost full = buf@;
    let mut buf = buf;
    while buf.len() > 0 && is_line_space(buf[buf.len() - 1])
        invariant
            spec_trim_end(buf@) == spec_trim_end(full),
        decreases buf@.len(),
    {
        proof {
            assert(buf@.drop_last() =~= buf@.take(buf@.len() - 1));
        }
        buf.pop();
    }
    proof {
        assert(buf@ == spec_trim_end(full));
    }
    buf.push('\n');
    let s = chars_to_string(buf);
    Ok(s)
}

/// The all-or-nothing policy around a parse result: parse diagnostics
/// suppress everything and are returned as they are; otherwise the
/// document is formatted as [`spec_format_items`] says.
pub fn format_parsed(items: Vec<Item>, parse_diags: Vec<Diagnostic>) -> (r: Result<
    String,
    Vec<Diagnostic>,
>)
    ensures
        parse_diags@.len() > 0 ==> r is Err && r->Err_0@ == parse_diags@,
        parse_diags@.len() == 0 ==> ({
            let m = spec_format_items(items@);
            match r {
                Ok(s) => m is Ok && s@ == m->Ok_0,
                Err(ds) => m is Err && ds@ == m->Err_0,
            }
        }),
{
    if parse_diags.len() > 0 {
        return Err(parse_diags);
    }
    format_items(items)
}

/// Formats source text.  The parse diagnostics of [`spec_parse`], if
/// there are any, come back exactly and no text is produced; otherwise
/// the result is exactly what [`spec_format_items_v`] says of the parsed
/// items: the oracle's diagnostics, or the canonical rendering.  Either
/// some diagnostic is returned, or the result is non-empty, ends with a
/// line terminator, and holds no other trailing line-space character
/// before it.
pub fn format(input: &str) -> (r: Result<String, Vec<Diagnostic>>)
    ensures
        ({
            let (ivs, pd) = crate::parse::spec_parse(input@);
            if pd.len() > 0 {
                r is Err && r->Err_0@ == pd
            } else {
                match r {
                    Ok(s) => spec_format_items_v(ivs) is Ok && s@ == spec_format_items_v(
                        ivs,
                    )->Ok_0,
                    Err(ds) => spec_format_items_v(ivs) is Err && ds@ == spec_format_items_v(
                        ivs,
                    )->Err_0,
                }
            }
        }),
        r is Err ==> r->Err_0@.len() > 0,
        r is Ok ==> r->Ok_0@.len() >= 1 && r->Ok_0@.last() == '\n' && (r->Ok_0@.len() >= 2
            ==> !line_space(r->Ok_0@[r->Ok_0@.len() - 2])),
{
    let (items, errors) = crate::parse::parse(input);
    if errors.len() > 0 {
        return Err(errors);
    }
    proof {
        lemma_format_items_view(items@);
    }
    let res = format_parsed(items, errors);
    match res {
        Ok(s) => {
            proof {
                let m = spec_format_items(items@);
                let p = spec_run_items(items@, init_rstate(), init_oracle());
                lemma_trim_end_no_trailing(p.0.text);
                assert(s@ == spec_trim_end(p.0.text).push('\n'));
            }
            Ok(s)
        },
        Err(ds) => {
            proof {
                let m = spec_format_items(items@);
                assert(m is Err && ds@ == m->Err_0);
            }
            Err(ds)
        },
    }
}

/// Whether a freshly formatted text differs from the original, so that
/// a caller writing the result back can skip the write when nothing
/// changed.
pub fn needs_write(original: &String, formatted: &String) -> (r: bool)
    ensures
        r == (original@ != formatted@),
{
    !original.eq(formatted)
}

} // verus!
