//! The syntax tree the formatter renders, and the diagnostics it reports.

use vstd::prelude::*;

use crate::prim::Primitive;

verus! {

broadcast use vstd::seq::group_seq_axioms, vstd::std_specs::vec::group_vec_axioms;

/// A position in the original source, counted in lines and characters,
/// both starting at zero.
#[derive(Clone, Copy, Debug, PartialEq, Eq, Structural)]
pub struct Span {
    pub line: usize,
    pub col: usize,
}

/// What went wrong at one place in the input.
#[derive(Clone, Copy, Debug, PartialEq, Eq, Structural)]
pub enum DiagnosticKind {
    /// A character no rule of the grammar accepts.
    UnexpectedChar(char),
    /// A string literal with no closing quote on its line.
    UnclosedString,
    /// A character literal with no closing quote.
    UnclosedChar,
    /// A backslash followed by a character that names no escape.
    BadEscape,
    /// An opening bracket with no matching closer on its line.
    UnclosedGroup,
    /// A closing bracket or body divider outside any group.
    UnexpectedClose,
    /// A numeric literal too large for the numeric type.
    NumberTooLarge,
    /// A binding whose name an earlier binding already bound.
    DuplicateBinding,
}

/// A diagnostic: an error kind together with the source position it
/// refers to.  Any diagnostic suppresses the formatted output.
#[derive(Clone, Copy, Debug, PartialEq, Eq, Structural)]
pub struct Diagnostic {
    pub kind: DiagnosticKind,
    pub span: Span,
}

/// One syntactic unit inside an expression.
#[derive(Debug)]
pub enum Word {
    /// A numeric literal.
    Number(u64),
    /// A character literal.
    Char(char),
    /// A string literal (its unescaped contents).
    Str(String),
    /// An identifier.
    Ident(String),
    /// Words joined implicitly; rendered with `_` between members.
    Strand(Vec<Word>),
    /// An array literal.
    Array(Vec<Word>),
    /// A function literal.
    Func(Func),
    /// Several function bodies, rendered with `|` between them.
    FuncArray(Vec<Func>),
    /// An opaque self-describing token.
    Selector(String),
    /// A resolved built-in.
    Primitive(Primitive),
    /// A modifier word applied to an operand word.
    Modified(Box<Word>, Box<Word>),
}

/// A function body.
#[derive(Debug)]
pub struct Func {
    pub body: Vec<Word>,
}

/// A user binding: a name and the words defining its value.
#[derive(Debug)]
pub struct Binding {
    pub name: String,
    pub words: Vec<Word>,
    pub span: Span,
}

/// A top-level document element.
#[derive(Debug)]
pub enum Item {
    /// A line of words.
    Words(Vec<Word>),
    /// A binding line.
    Binding(Binding),
    /// A comment line (verbatim text, without the leading `#`).
    Comment(String),
    /// A blank-line marker; renders to nothing.
    Newlines,
}

/// The mathematical model of a word: the same tree, over sequences.
#[verifier::ext_equal]
pub enum WordV {
    Number(u64),
    Char(char),
    Str(Seq<char>),
    Ident(Seq<char>),
    Strand(Seq<WordV>),
    Array(Seq<WordV>),
    Func(Seq<WordV>),
    FuncArray(Seq<Seq<WordV>>),
    Selector(Seq<char>),
    Primitive(Primitive),
    Modified(Box<WordV>, Box<WordV>),
}

/// The mathematical model of a binding.
#[verifier::ext_equal]
pub struct BindingV {
    pub name: Seq<char>,
    pub words: Seq<WordV>,
    pub span: Span,
}

/// The mathematical model of an item.
#[verifier::ext_equal]
pub enum ItemV {
    Words(Seq<WordV>),
    Binding(BindingV),
    Comment(Seq<char>),
    Newlines,
}

/// The model of one word.
pub open spec fn word_view(w: Word) -> WordV
    decreases w,
{
    match w {
        Word::Number(n) => WordV::Number(n),
        Word::Char(c) => WordV::Char(c),
        Word::Str(s) => WordV::Str(s@),
        Word::Ident(id) => WordV::Ident(id@),
        Word::Strand(items) => WordV::Strand(words_view(items@)),
        Word::Array(items) => WordV::Array(words_view(items@)),
        Word::Func(f) => WordV::Func(words_view(f.body@)),
        Word::FuncArray(fs) => WordV::FuncArray(funcs_view(fs@)),
        Word::Selector(s) => WordV::Selector(s@),
        Word::Primitive(p) => WordV::Primitive(p),
        Word::Modified(m, op) => WordV::Modified(Box::new(word_view(*m)), Box::new(word_view(*op))),
    }
}

/// The model of a sequence of words.
pub open spec fn words_view(ws: Seq<Word>) -> Seq<WordV>
    decreases ws,
{
    Seq::new(ws.len(), |i: int| if 0 <= i < ws.len() { word_view(ws[i]) } else { arbitrary() })
}

/// The models of a sequence of function bodies.
pub open spec fn funcs_view(fs: Seq<Func>) -> Seq<Seq<WordV>>
    decreases fs,
{
    Seq::new(fs.len(), |i: int| if 0 <= i < fs.len() { words_view(fs[i].body@) } else { arbitrary() })
}

/// The model of a binding.
pub open spec fn binding_view(b: Binding) -> BindingV {
    BindingV { name: b.name@, words: words_view(b.words@), span: b.span }
}

/// The model of one item.
pub open spec fn item_view(item: Item) -> ItemV {
    match item {
        Item::Words(ws) => ItemV::Words(words_view(ws@)),
        Item::Binding(b) => ItemV::Binding(binding_view(b)),
        Item::Comment(c) => ItemV::Comment(c@),
        Item::Newlines => ItemV::Newlines,
    }
}

/// The models of a document's items.
pub open spec fn items_view(items: Seq<Item>) -> Seq<ItemV> {
    Seq::new(items.len(), |i: int| item_view(items[i]))
}

/// How the model unfolds on each constructor the parser builds.
pub proof fn lemma_view_number(n: u64)
    ensures
        word_view(Word::Number(n)) == WordV::Number(n),
{
}

pub proof fn lemma_view_char(c: char)
    ensures
        word_view(Word::Char(c)) == WordV::Char(c),
{
}

pub proof fn lemma_view_str(s: String)
    ensures
        word_view(Word::Str(s)) == WordV::Str(s@),
{
}

pub proof fn lemma_view_ident(s: String)
    ensures
        word_view(Word::Ident(s)) == WordV::Ident(s@),
{
}

pub proof fn lemma_view_strand(ws: Vec<Word>)
    ensures
        word_view(Word::Strand(ws)) == WordV::Strand(words_view(ws@)),
{
}

pub proof fn lemma_view_array(ws: Vec<Word>)
    ensures
        word_view(Word::Array(ws)) == WordV::Array(words_view(ws@)),
{
}

pub proof fn lemma_view_func(f: Func)
    ensures
        word_view(Word::Func(f)) == WordV::Func(words_view(f.body@)),
{
}

pub proof fn lemma_view_func_array(fs: Vec<Func>)
    ensures
        word_view(Word::FuncArray(fs)) == WordV::FuncArray(funcs_view(fs@)),
{
}

pub proof fn lemma_view_primitive(p: Primitive)
    ensures
        word_view(Word::Primitive(p)) == WordV::Primitive(p),
{
}

/// Length and members of a word-sequence model.
pub proof fn lemma_words_view_index(ws: Seq<Word>)
    ensures
        words_view(ws).len() == ws.len(),
        forall|i: int| 0 <= i < ws.len() ==> words_view(ws)[i] == word_view(ws[i]),
{
}

/// Length and members of a body-sequence model.
pub proof fn lemma_funcs_view_index(fs: Seq<Func>)
    ensures
        funcs_view(fs).len() == fs.len(),
        forall|i: int| 0 <= i < fs.len() ==> funcs_view(fs)[i] == words_view(fs[i].body@),
{
}

/// Length and members of a document model.
pub proof fn lemma_items_view_index(items: Seq<Item>)
    ensures
        items_view(items).len() == items.len(),
        forall|i: int| 0 <= i < items.len() ==> items_view(items)[i] == item_view(items[i]),
{
}

/// The model of an optional word.
pub open spec fn opt_word_view(o: Option<Word>) -> Option<WordV> {
    match o {
        Some(w) => Some(word_view(w)),
        None => None,
    }
}

} // verus!
