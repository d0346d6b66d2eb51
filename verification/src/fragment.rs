//! The fragments of a response: one tagged piece of a dictionary entry each.

use vstd::prelude::*;

verus! {

/// An example sentence with its translation.
#[derive(Debug, PartialEq, Eq)]
pub struct Statement {
    /// The sentence in the source language.
    pub orig: String,
    /// The sentence in the target language.
    pub trans: String,
}

impl View for Statement {
    type V = (Seq<char>, Seq<char>);

    open spec fn view(&self) -> (Seq<char>, Seq<char>) {
        (self.orig@, self.trans@)
    }
}

impl Clone for Statement {
    fn clone(&self) -> (copy: Statement)
        ensures
            copy@ == self@,
    {
        Statement { orig: self.orig.clone(), trans: self.trans.clone() }
    }
}

/// One fragment of a response, tagged by its kind.
#[derive(Debug, PartialEq, Eq)]
pub enum RespItem {
    /// The headword as the service recognised it.
    Key(String),
    /// A phonetic spelling.
    PS(String),
    /// A reference to a pronunciation recording.
    Pron(String),
    /// The part of speech.
    Pos(String),
    /// A short gloss.
    Acceptation(String),
    /// An example sentence.
    Statement(Statement),
}

/// The mathematical value of a fragment.
pub enum Fragment {
    Key(Seq<char>),
    PS(Seq<char>),
    Pron(Seq<char>),
    Pos(Seq<char>),
    Acceptation(Seq<char>),
    Statement(Seq<char>, Seq<char>),
}

impl View for RespItem {
    type V = Fragment;

    open spec fn view(&self) -> Fragment {
        match self {
            RespItem::Key(text) => Fragment::Key(text@),
            RespItem::PS(text) => Fragment::PS(text@),
            RespItem::Pron(text) => Fragment::Pron(text@),
            RespItem::Pos(text) => Fragment::Pos(text@),
            RespItem::Acceptation(text) => Fragment::Acceptation(text@),
            RespItem::Statement(statement) => Fragment::Statement(statement.orig@, statement.trans@),
        }
    }
}

/// The kinds of fragment that carry one text.
#[derive(Debug, Clone, Copy, PartialEq, Eq, Structural)]
pub enum Kind {
    Key,
    PS,
    Pron,
    Pos,
    Acceptation,
}

/// The text of `fragment` if it is of kind `kind`.
pub open spec fn text_of(fragment: Fragment, kind: Kind) -> Option<Seq<char>> {
    match (fragment, kind) {
        (Fragment::Key(text), Kind::Key) => Some(text),
        (Fragment::PS(text), Kind::PS) => Some(text),
        (Fragment::Pron(text), Kind::Pron) => Some(text),
        (Fragment::Pos(text), Kind::Pos) => Some(text),
        (Fragment::Acceptation(text), Kind::Acceptation) => Some(text),
        _ => None,
    }
}

/// The text fragment of kind `kind` with the text `text`.
pub open spec fn text_fragment(kind: Kind, text: Seq<char>) -> Fragment {
    match kind {
        Kind::Key => Fragment::Key(text),
        Kind::PS => Fragment::PS(text),
        Kind::Pron => Fragment::Pron(text),
        Kind::Pos => Fragment::Pos(text),
        Kind::Acceptation => Fragment::Acceptation(text),
    }
}

/// The values of a sequence of fragments, in order.
pub open spec fn fragments(items: Seq<RespItem>) -> Seq<Fragment> {
    items.map_values(|item: RespItem| item@)
}

/// A decoded response: its fragments in document order.
#[derive(Debug, PartialEq, Eq)]
pub struct RespDict {
    /// The fragments, first to last.
    pub items: Vec<RespItem>,
}

impl View for RespDict {
    type V = Seq<Fragment>;

    open spec fn view(&self) -> Seq<Fragment> {
        fragments(self.items@)
    }
}

} // verus!
