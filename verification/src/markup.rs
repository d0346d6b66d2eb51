//! Markup tokens: the flat stream of events that a response body parses into.

use vstd::prelude::*;
use xml::reader::{EventReader, ParserConfig, XmlEvent};

verus! {

/// One event of a markup document, reduced to what decoding reads.
#[derive(Debug, PartialEq, Eq)]
pub enum XmlToken {
    /// A start tag, with the local name of the element.
    Open(String),
    /// Character data, entities resolved.
    Text(String),
    /// An end tag.
    Close,
    /// The end of the document.
    End,
    /// Anything that carries no content: the document declaration, a
    /// processing instruction.
    Other,
    /// The markup is not well formed from here on.
    Malformed,
}

/// The mathematical value of a token.
pub enum TokenView {
    Open(Seq<char>),
    Text(Seq<char>),
    Close,
    End,
    Other,
    Malformed,
}

impl View for XmlToken {
    type V = TokenView;

    open spec fn view(&self) -> TokenView {
        match self {
            XmlToken::Open(name) => TokenView::Open(name@),
            XmlToken::Text(text) => TokenView::Text(text@),
            XmlToken::Close => TokenView::Close,
            XmlToken::End => TokenView::End,
            XmlToken::Other => TokenView::Other,
            XmlToken::Malformed => TokenView::Malformed,
        }
    }
}

/// The values of a sequence of tokens, in order.
pub open spec fn token_views(tokens: Seq<XmlToken>) -> Seq<TokenView> {
    tokens.map_values(|t: XmlToken| t@)
}

/// The token stream of a document: what the pull parser of the `xml` crate
/// yields for `text`, event by event, up to and including the end of the
/// document or the first syntax error.
pub uninterp spec fn xml_tokens(text: Seq<char>) -> Seq<TokenView>;

/// Reads `text` with the pull parser of the `xml` crate: a reader made by
/// `EventReader::new_with_config` is walked to its end by the iterator that
/// its `into_iter` gives, and each event is handed out as a token.
///
/// The reader is set to trim character data and to report whitespace and
/// CDATA as character data; as it does unless told otherwise, it drops
/// comments and merges adjacent character data. A start tag is handed out
/// with its local name, character data with its text, a syntax error as
/// `Malformed`, and every event that is neither of these nor an end tag nor
/// the end of the document as `Other`.
///
/// Trusted: the result is the token stream that [`xml_tokens`] names, which
/// depends on `text` alone.
#[verifier::external_body]
fn read_tokens(text: &str) -> (tokens: Vec<XmlToken>)
    ensures
        token_views(tokens@) == xml_tokens(text@),
{
    let config = ParserConfig::new().trim_whitespace(true)
        .whitespace_to_characters(true).cdata_to_characters(true);
    EventReader::new_with_config(text.as_bytes(), config).into_iter().map(|event| match event {
        Ok(XmlEvent::StartElement { name, .. }) => XmlToken::Open(name.local_name),
        Ok(XmlEvent::Characters(text)) => XmlToken::Text(text),
        Ok(XmlEvent::EndElement { .. }) => XmlToken::Close,
        Ok(XmlEvent::EndDocument) => XmlToken::End,
        Ok(_) => XmlToken::Other,
        Err(_) => XmlToken::Malformed,
    }).collect()
}

/// The tokens of `text`, in document order.
pub fn tokenize(text: &str) -> (tokens: Vec<XmlToken>)
    ensures
        token_views(tokens@) == xml_tokens(text@),
{
    read_tokens(text)
}

} // verus!
