//! The whole pipeline: from the text of a response to the text of an entry.

use vstd::prelude::*;
use vstd::string::*;
use crate::decode::{
    decode_tokens, fragments_from_tokens, DecodeError, DecodeFailure,
};
use crate::markup::{token_views, tokenize, xml_tokens, TokenView, XmlToken};
use crate::record::{aggregate, HandyDict, Record};
use crate::render::rendered;

verus! {

/// Why a lookup failed.
#[derive(Debug, PartialEq, Eq)]
pub enum Error {
    /// The request failed; the message is that of the transport.
    Transport(String),
    /// The response could not be decoded.
    Decode(DecodeError),
}

/// The mathematical value of an [`Error`].
pub enum Failure {
    Transport(Seq<char>),
    Decode(DecodeFailure),
}

impl View for Error {
    type V = Failure;

    open spec fn view(&self) -> Failure {
        match self {
            Error::Transport(message) => Failure::Transport(message@),
            Error::Decode(error) => Failure::Decode(error@),
        }
    }
}

/// The one-line description of a decoding failure.
pub open spec fn decode_failure_text(failure: DecodeFailure) -> Seq<char> {
    match failure {
        DecodeFailure::Malformed => "malformed response"@,
        DecodeFailure::UnknownField(tag) => "unknown field `"@ + tag + "`"@,
        DecodeFailure::IncompleteField => "incomplete example sentence"@,
    }
}

/// The one-line description of a failure: for a failed request the message
/// of the transport as it is.
pub open spec fn failure_text(failure: Failure) -> Seq<char> {
    match failure {
        Failure::Transport(message) => message,
        Failure::Decode(failure) => decode_failure_text(failure),
    }
}

impl DecodeError {
    /// Describes the error in one line.
    pub fn message(&self) -> (text: String)
        ensures
            text@ == decode_failure_text(self@),
    {
        match self {
            DecodeError::Malformed => String::from_str("malformed response"),
            DecodeError::UnknownField(tag) => {
                let mut text = String::from_str("unknown field `");
                text.append(tag.as_str());
                text.append("`");
                text
            },
            DecodeError::IncompleteField => String::from_str("incomplete example sentence"),
        }
    }
}

impl Error {
    /// Describes the error in one line.
    pub fn message(&self) -> (text: String)
        ensures
            text@ == failure_text(self@),
    {
        match self {
            Error::Transport(message) => message.clone(),
            Error::Decode(error) => error.message(),
        }
    }
}

/// The record that a token stream stands for, or why it stands for none.
pub open spec fn record_of(tokens: Seq<TokenView>) -> Result<Record, Failure> {
    match decode_tokens(tokens) {
        Ok(items) => Ok(aggregate(items)),
        Err(failure) => Err(Failure::Decode(failure)),
    }
}

/// The entry that a token stream renders to, or why it renders to none.
pub open spec fn entry_of(tokens: Seq<TokenView>) -> Result<Seq<char>, Failure> {
    match record_of(tokens) {
        Ok(record) => Ok(rendered(record)),
        Err(failure) => Err(failure),
    }
}

/// The value of the result of building a record.
pub open spec fn record_result(result: Result<HandyDict, Error>) -> Result<Record, Failure> {
    match result {
        Ok(record) => Ok(record@),
        Err(error) => Err(error@),
    }
}

/// The value of the result of a lookup.
pub open spec fn entry_result(result: Result<String, Error>) -> Result<Seq<char>, Failure> {
    match result {
        Ok(text) => Ok(text@),
        Err(error) => Err(error@),
    }
}

/// Decodes and aggregates a token stream.
pub fn record_from_tokens(tokens: &Vec<XmlToken>) -> (result: Result<HandyDict, Error>)
    ensures
        record_result(result) == record_of(token_views(tokens@)),
{
    match fragments_from_tokens(tokens) {
        Ok(dict) => Ok(HandyDict::new_from_dict(&dict)),
        Err(error) => Err(Error::Decode(error)),
    }
}

/// Decodes and aggregates the text of a response.
pub fn record_from_response(body: &str) -> (result: Result<HandyDict, Error>)
    ensures
        record_result(result) == record_of(xml_tokens(body@)),
{
    let tokens = tokenize(body);
    record_from_tokens(&tokens)
}

/// Decodes, aggregates and renders a token stream.
pub fn lookup_tokens(tokens: &Vec<XmlToken>) -> (result: Result<String, Error>)
    ensures
        entry_result(result) == entry_of(token_views(tokens@)),
{
    match record_from_tokens(tokens) {
        Ok(record) => Ok(record.render()),
        Err(error) => Err(error),
    }
}

/// Turns the text of a response into the text of the entry.
///
/// The text is first split into markup tokens, which the `xml` crate does;
/// [`lookup_tokens`] does the rest.
pub fn lookup(body: &str) -> (result: Result<String, Error>)
    ensures
        entry_result(result) == entry_of(xml_tokens(body@)),
{
    let tokens = tokenize(body);
    lookup_tokens(&tokens)
}

/// A lookup is a function of the text: two results for one text are the same
/// text, or the same failure.
pub proof fn lemma_lookup_is_deterministic(
    body: Seq<char>,
    first: Result<String, Error>,
    second: Result<String, Error>,
)
    requires
        entry_result(first) == entry_of(xml_tokens(body)),
        entry_result(second) == entry_of(xml_tokens(body)),
    ensures
        entry_result(first) == entry_result(second),
        first is Ok <==> second is Ok,
        first is Ok ==> first->Ok_0@ == second->Ok_0@,
{
}

/// A lookup never yields a record of part of the response: where decoding
/// fails, the lookup fails with that failure.
pub proof fn lemma_lookup_fails_with_decoding(tokens: Seq<TokenView>)
    ensures
        decode_tokens(tokens) is Err ==> entry_of(tokens) == Err::<Seq<char>, Failure>(
            Failure::Decode(decode_tokens(tokens)->Err_0),
        ),
        decode_tokens(tokens) is Ok ==> entry_of(tokens) == Ok::<Seq<char>, Failure>(
            rendered(aggregate(decode_tokens(tokens)->Ok_0)),
        ),
{
}

} // verus!
