//! Decoding: from the token stream of a response to its fragments.
//!
//! A response is one root element whose children are the fragments. A text
//! fragment is an element named `key`, `ps`, `pron`, `pos` or `acceptation`
//! that holds character data; an example sentence is an element named `sent`
//! with the members `orig` and `trans`. Decoding is a state machine over the
//! tokens: [`step`] says what one token does to the state, [`run`] applies it
//! to a whole stream, and [`outcome`] reads the result off the last state.

use vstd::prelude::*;
use vstd::string::*;
use crate::fragment::{
    fragments, text_fragment, Fragment, Kind, RespDict, RespItem, Statement,
};
use crate::markup::{token_views, tokenize, xml_tokens, TokenView, XmlToken};

verus! {

/// Why a response could not be decoded.
#[derive(Debug, PartialEq, Eq)]
pub enum DecodeError {
    /// The markup is not well formed, or not laid out as a response.
    Malformed,
    /// An element has a name that no fragment has.
    UnknownField(String),
    /// An example sentence lacks the original or the translation.
    IncompleteField,
}

/// The mathematical value of a [`DecodeError`].
pub enum DecodeFailure {
    Malformed,
    UnknownField(Seq<char>),
    IncompleteField,
}

impl View for DecodeError {
    type V = DecodeFailure;

    open spec fn view(&self) -> DecodeFailure {
        match self {
            DecodeError::Malformed => DecodeFailure::Malformed,
            DecodeError::UnknownField(tag) => DecodeFailure::UnknownField(tag@),
            DecodeError::IncompleteField => DecodeFailure::IncompleteField,
        }
    }
}

/// Where decoding stands between two tokens.
#[derive(Debug, PartialEq, Eq)]
pub enum Stage {
    /// Before the root element.
    Prolog,
    /// In the root element, between fragments.
    Body,
    /// In a text fragment of the given kind, with the character data read so
    /// far.
    Text { kind: Kind, text: Option<String> },
    /// In an example sentence, between members, with the members read so far.
    Sentence { orig: Option<String>, trans: Option<String> },
    /// In a member of an example sentence: in `orig` if `in_orig`, else in
    /// `trans`.
    Member { orig: Option<String>, trans: Option<String>, in_orig: bool, text: Option<String> },
    /// After the root element.
    Epilog,
    /// At the end of the document.
    Complete,
    /// Decoding has failed.
    Failed(DecodeError),
}

/// The mathematical value of a [`Stage`].
pub enum StageView {
    Prolog,
    Body,
    Text { kind: Kind, text: Option<Seq<char>> },
    Sentence { orig: Option<Seq<char>>, trans: Option<Seq<char>> },
    Member {
        orig: Option<Seq<char>>,
        trans: Option<Seq<char>>,
        in_orig: bool,
        text: Option<Seq<char>>,
    },
    Epilog,
    Complete,
    Failed(DecodeFailure),
}

/// The value of an optional string.
pub open spec fn optional_text(text: Option<String>) -> Option<Seq<char>> {
    match text {
        Some(text) => Some(text@),
        None => None,
    }
}

impl View for Stage {
    type V = StageView;

    open spec fn view(&self) -> StageView {
        match self {
            Stage::Prolog => StageView::Prolog,
            Stage::Body => StageView::Body,
            Stage::Text { kind, text } => StageView::Text { kind: *kind, text: optional_text(*text) },
            Stage::Sentence { orig, trans } => StageView::Sentence {
                orig: optional_text(*orig),
                trans: optional_text(*trans),
            },
            Stage::Member { orig, trans, in_orig, text } => StageView::Member {
                orig: optional_text(*orig),
                trans: optional_text(*trans),
                in_orig: *in_orig,
                text: optional_text(*text),
            },
            Stage::Epilog => StageView::Epilog,
            Stage::Complete => StageView::Complete,
            Stage::Failed(error) => StageView::Failed(error@),
        }
    }
}

/// The state of decoding: the fragments completed so far and the stage.
pub struct Progress {
    pub items: Seq<Fragment>,
    pub stage: StageView,
}

/// The kind of text fragment that an element named `tag` holds.
pub open spec fn kind_of_tag(tag: Seq<char>) -> Option<Kind> {
    if tag == "key"@ {
        Some(Kind::Key)
    } else if tag == "ps"@ {
        Some(Kind::PS)
    } else if tag == "pron"@ {
        Some(Kind::Pron)
    } else if tag == "pos"@ {
        Some(Kind::Pos)
    } else if tag == "acceptation"@ {
        Some(Kind::Acceptation)
    } else {
        None
    }
}

/// The character data of an element: empty where it held none.
pub open spec fn content(text: Option<Seq<char>>) -> Seq<char> {
    match text {
        Some(text) => text,
        None => Seq::empty(),
    }
}

/// The state after a failure.
pub open spec fn failed(progress: Progress, failure: DecodeFailure) -> Progress {
    Progress { items: progress.items, stage: StageView::Failed(failure) }
}

/// The state in a new stage, with the same fragments.
pub open spec fn moved(progress: Progress, stage: StageView) -> Progress {
    Progress { items: progress.items, stage }
}

/// The state after a start tag named `tag`.
pub open spec fn after_open(progress: Progress, tag: Seq<char>) -> Progress {
    match progress.stage {
        StageView::Prolog => moved(progress, StageView::Body),
        StageView::Body => match kind_of_tag(tag) {
            Some(kind) => moved(progress, StageView::Text { kind, text: None }),
            None => if tag == "sent"@ {
                moved(progress, StageView::Sentence { orig: None, trans: None })
            } else {
                failed(progress, DecodeFailure::UnknownField(tag))
            },
        },
        StageView::Sentence { orig, trans } => if tag == "orig"@ {
            if orig is Some {
                failed(progress, DecodeFailure::Malformed)
            } else {
                moved(progress, StageView::Member { orig, trans, in_orig: true, text: None })
            }
        } else if tag == "trans"@ {
            if trans is Some {
                failed(progress, DecodeFailure::Malformed)
            } else {
                moved(progress, StageView::Member { orig, trans, in_orig: false, text: None })
            }
        } else {
            failed(progress, DecodeFailure::UnknownField(tag))
        },
        _ => failed(progress, DecodeFailure::Malformed),
    }
}

/// The state after the character data `data`.
pub open spec fn after_text(progress: Progress, data: Seq<char>) -> Progress {
    match progress.stage {
        StageView::Text { kind, text: None } => moved(
            progress,
            StageView::Text { kind, text: Some(data) },
        ),
        StageView::Member { orig, trans, in_orig, text: None } => moved(
            progress,
            StageView::Member { orig, trans, in_orig, text: Some(data) },
        ),
        StageView::Sentence { .. } => progress,
        _ => failed(progress, DecodeFailure::Malformed),
    }
}

/// The state after an end tag.
pub open spec fn after_close(progress: Progress) -> Progress {
    match progress.stage {
        StageView::Body => moved(progress, StageView::Epilog),
        StageView::Text { kind, text } => Progress {
            items: progress.items.push(text_fragment(kind, content(text))),
            stage: StageView::Body,
        },
        StageView::Member { orig, trans, in_orig, text } => if in_orig {
            moved(progress, StageView::Sentence { orig: Some(content(text)), trans })
        } else {
            moved(progress, StageView::Sentence { orig, trans: Some(content(text)) })
        },
        StageView::Sentence { orig: Some(orig), trans: Some(trans) } => Progress {
            items: progress.items.push(Fragment::Statement(orig, trans)),
            stage: StageView::Body,
        },
        StageView::Sentence { .. } => failed(progress, DecodeFailure::IncompleteField),
        _ => failed(progress, DecodeFailure::Malformed),
    }
}

/// The state after the end of the document.
pub open spec fn after_end(progress: Progress) -> Progress {
    match progress.stage {
        StageView::Epilog => moved(progress, StageView::Complete),
        _ => failed(progress, DecodeFailure::Malformed),
    }
}

/// The state after one more token. Nothing follows the end of the document
/// or a failure; a token without content changes nothing.
pub open spec fn step(progress: Progress, token: TokenView) -> Progress {
    match progress.stage {
        StageView::Complete | StageView::Failed(_) => progress,
        _ => match token {
            TokenView::Other => progress,
            TokenView::Malformed => failed(progress, DecodeFailure::Malformed),
            TokenView::Open(tag) => after_open(progress, tag),
            TokenView::Text(data) => after_text(progress, data),
            TokenView::Close => after_close(progress),
            TokenView::End => after_end(progress),
        },
    }
}

/// The state before the first token.
pub open spec fn start() -> Progress {
    Progress { items: Seq::empty(), stage: StageView::Prolog }
}

/// The state that `tokens` lead to from the state `progress`.
pub open spec fn run_from(progress: Progress, tokens: Seq<TokenView>) -> Progress
    decreases tokens.len(),
{
    if tokens.len() == 0 {
        progress
    } else {
        step(run_from(progress, tokens.drop_last()), tokens.last())
    }
}

/// The state after all of `tokens`.
pub open spec fn run(tokens: Seq<TokenView>) -> Progress {
    run_from(start(), tokens)
}

/// What decoding comes to in the state `progress`: the fragments once the
/// document is complete, the failure once one occurred, and a malformed
/// document where the tokens end before the document does.
pub open spec fn outcome(progress: Progress) -> Result<Seq<Fragment>, DecodeFailure> {
    match progress.stage {
        StageView::Complete => Ok(progress.items),
        StageView::Failed(failure) => Err(failure),
        _ => Err(DecodeFailure::Malformed),
    }
}

/// The fragments that a token stream decodes to, or why it does not.
pub open spec fn decode_tokens(tokens: Seq<TokenView>) -> Result<Seq<Fragment>, DecodeFailure> {
    outcome(run(tokens))
}

/// The value of the result of decoding.
pub open spec fn decoded(result: Result<RespDict, DecodeError>) -> Result<
    Seq<Fragment>,
    DecodeFailure,
> {
    match result {
        Ok(dict) => Ok(dict@),
        Err(error) => Err(error@),
    }
}

fn tag_is(tag: &String, name: &str) -> (same: bool)
    ensures
        same == (tag@ == name@),
{
    let other = String::from_str(name);
    *tag == other
}

fn kind_of(tag: &String) -> (kind: Option<Kind>)
    ensures
        kind == kind_of_tag(tag@),
{
    if tag_is(tag, "key") {
        Some(Kind::Key)
    } else if tag_is(tag, "ps") {
        Some(Kind::PS)
    } else if tag_is(tag, "pron") {
        Some(Kind::Pron)
    } else if tag_is(tag, "pos") {
        Some(Kind::Pos)
    } else if tag_is(tag, "acceptation") {
        Some(Kind::Acceptation)
    } else {
        None
    }
}

fn text_item(kind: Kind, text: String) -> (item: RespItem)
    ensures
        item@ == text_fragment(kind, text@),
{
    match kind {
        Kind::Key => RespItem::Key(text),
        Kind::PS => RespItem::PS(text),
        Kind::Pron => RespItem::Pron(text),
        Kind::Pos => RespItem::Pos(text),
        Kind::Acceptation => RespItem::Acceptation(text),
    }
}

fn content_of(text: Option<String>) -> (data: String)
    ensures
        data@ == content(optional_text(text)),
{
    match text {
        Some(text) => text,
        None => String::new(),
    }
}

/// A decoder that is fed one token at a time.
#[derive(Debug, PartialEq, Eq)]
pub struct Decoder {
    /// The fragments completed so far.
    pub items: Vec<RespItem>,
    /// Where decoding stands.
    pub stage: Stage,
}

impl View for Decoder {
    type V = Progress;

    open spec fn view(&self) -> Progress {
        Progress { items: fragments(self.items@), stage: self.stage@ }
    }
}

impl Decoder {
    /// A decoder that has seen no token yet.
    pub fn new() -> (decoder: Decoder)
        ensures
            decoder@ == start(),
    {
        let decoder = Decoder { items: Vec::new(), stage: Stage::Prolog };
        assert(decoder@.items =~= Seq::empty());
        decoder
    }

    fn fail(self, error: DecodeError) -> (next: Decoder)
        ensures
            next@ == failed(self@, error@),
    {
        Decoder { items: self.items, stage: Stage::Failed(error) }
    }

    fn open(self, tag: &String) -> (next: Decoder)
        ensures
            next@ == after_open(self@, tag@),
    {
        let Decoder { items, stage } = self;
        match stage {
            Stage::Prolog => Decoder { items, stage: Stage::Body },
            Stage::Body => match kind_of(tag) {
                Some(kind) => Decoder { items, stage: Stage::Text { kind, text: None } },
                None => if tag_is(tag, "sent") {
                    Decoder { items, stage: Stage::Sentence { orig: None, trans: None } }
                } else {
                    Decoder { items, stage: Stage::Failed(DecodeError::UnknownField(tag.clone())) }
                },
            },
            Stage::Sentence { orig, trans } => if tag_is(tag, "orig") {
                if orig.is_some() {
                    Decoder { items, stage: Stage::Failed(DecodeError::Malformed) }
                } else {
                    Decoder { items, stage: Stage::Member { orig, trans, in_orig: true, text: None } }
                }
            } else if tag_is(tag, "trans") {
                if trans.is_some() {
                    Decoder { items, stage: Stage::Failed(DecodeError::Malformed) }
                } else {
                    Decoder {
                        items,
                        stage: Stage::Member { orig, trans, in_orig: false, text: None },
                    }
                }
            } else {
                Decoder { items, stage: Stage::Failed(DecodeError::UnknownField(tag.clone())) }
            },
            _ => Decoder { items, stage: Stage::Failed(DecodeError::Malformed) },
        }
    }

    fn text(self, data: &String) -> (next: Decoder)
        ensures
            next@ == after_text(self@, data@),
    {
        let Decoder { items, stage } = self;
        match stage {
            Stage::Text { kind, text: None } => Decoder {
                items,
                stage: Stage::Text { kind, text: Some(data.clone()) },
            },
            Stage::Member { orig, trans, in_orig, text: None } => Decoder {
                items,
                stage: Stage::Member { orig, trans, in_orig, text: Some(data.clone()) },
            },
            Stage::Sentence { orig, trans } => Decoder { items, stage: Stage::Sentence { orig, trans } },
            _ => Decoder { items, stage: Stage::Failed(DecodeError::Malformed) },
        }
    }

    fn close(self) -> (next: Decoder)
        ensures
            next@ == after_close(self@),
    {
        let Decoder { items, stage } = self;
        let mut items = items;
        let ghost before = items@;
        match stage {
            Stage::Body => Decoder { items, stage: Stage::Epilog },
            Stage::Text { kind, text } => {
                items.push(text_item(kind, content_of(text)));
                assert(fragments(items@) =~= fragments(before).push(items@.last()@));
                Decoder { items, stage: Stage::Body }
            },
            Stage::Member { orig, trans, in_orig, text } => if in_orig {
                Decoder { items, stage: Stage::Sentence { orig: Some(content_of(text)), trans } }
            } else {
                Decoder { items, stage: Stage::Sentence { orig, trans: Some(content_of(text)) } }
            },
            Stage::Sentence { orig: Some(orig), trans: Some(trans) } => {
                items.push(RespItem::Statement(Statement { orig, trans }));
                assert(fragments(items@) =~= fragments(before).push(items@.last()@));
                Decoder { items, stage: Stage::Body }
            },
            Stage::Sentence { .. } => Decoder {
                items,
                stage: Stage::Failed(DecodeError::IncompleteField),
            },
            _ => Decoder { items, stage: Stage::Failed(DecodeError::Malformed) },
        }
    }

    fn end(self) -> (next: Decoder)
        ensures
            next@ == after_end(self@),
    {
        let Decoder { items, stage } = self;
        match stage {
            Stage::Epilog => Decoder { items, stage: Stage::Complete },
            _ => Decoder { items, stage: Stage::Failed(DecodeError::Malformed) },
        }
    }

    /// Takes one more token.
    pub fn advance(self, token: &XmlToken) -> (next: Decoder)
        ensures
            next@ == step(self@, token@),
    {
        match &self.stage {
            Stage::Complete => self,
            Stage::Failed(_) => self,
            _ => match token {
                XmlToken::Other => self,
                XmlToken::Malformed => self.fail(DecodeError::Malformed),
                XmlToken::Open(tag) => self.open(tag),
                XmlToken::Text(data) => self.text(data),
                XmlToken::Close => self.close(),
                XmlToken::End => self.end(),
            },
        }
    }

    /// Ends decoding: the fragments if the document is complete.
    pub fn finish(self) -> (result: Result<RespDict, DecodeError>)
        ensures
            decoded(result) == outcome(self@),
    {
        match self.stage {
            Stage::Complete => Ok(RespDict { items: self.items }),
            Stage::Failed(error) => Err(error),
            _ => Err(DecodeError::Malformed),
        }
    }
}

/// Decodes a token stream into the fragments of the response.
pub fn fragments_from_tokens(tokens: &Vec<XmlToken>) -> (result: Result<RespDict, DecodeError>)
    ensures
        decoded(result) == decode_tokens(token_views(tokens@)),
{
    let ghost all = token_views(tokens@);
    let mut decoder = Decoder::new();
    let mut i: usize = 0;
    while i < tokens.len()
        invariant
            i <= tokens.len(),
            all == token_views(tokens@),
            decoder@ == run(all.take(i as int)),
        decreases tokens.len() - i,
    {
        proof {
            assert(all.take(i + 1).drop_last() == all.take(i as int));
            assert(all.take(i + 1).last() == tokens@[i as int]@);
        }
        decoder = decoder.advance(&tokens[i]);
        i += 1;
    }
    assert(all.take(i as int) == all);
    decoder.finish()
}

/// Decodes the text of a response into its fragments.
///
/// The text is first split into markup tokens, which the `xml` crate does;
/// [`fragments_from_tokens`] does the rest.
pub fn decode(text: &str) -> (result: Result<RespDict, DecodeError>)
    ensures
        decoded(result) == decode_tokens(xml_tokens(text@)),
{
    let tokens = tokenize(text);
    fragments_from_tokens(&tokens)
}

/// Whether `tag` is in the vocabulary: the name of a fragment or of a member
/// of an example sentence.
pub open spec fn known_tag(tag: Seq<char>) -> bool {
    kind_of_tag(tag) is Some || tag == "sent"@ || tag == "orig"@ || tag == "trans"@
}

/// The state after the first `count + 1` tokens is one step from the state
/// after the first `count`.
pub proof fn lemma_run_step(tokens: Seq<TokenView>, count: int)
    requires
        0 <= count < tokens.len(),
    ensures
        run(tokens.take(count + 1)) == step(run(tokens.take(count)), tokens[count]),
{
    assert(tokens.take(count + 1).drop_last() =~= tokens.take(count));
}

/// A failure is final: once decoding has failed after `count` tokens, no
/// later token changes the state, and the failure is the outcome.
pub proof fn lemma_failure_is_final(tokens: Seq<TokenView>, count: int)
    requires
        0 <= count <= tokens.len(),
        run(tokens.take(count)).stage is Failed,
    ensures
        run(tokens) == run(tokens.take(count)),
        decode_tokens(tokens) == Err::<Seq<Fragment>, DecodeFailure>(
            run(tokens.take(count)).stage->Failed_0,
        ),
    decreases tokens.len() - count,
{
    if count == tokens.len() {
        assert(tokens.take(count) =~= tokens);
    } else {
        lemma_run_step(tokens, count);
        lemma_failure_is_final(tokens, count + 1);
    }
}

/// Before the root element no start tag has been read.
pub proof fn lemma_prolog_has_no_start_tag(tokens: Seq<TokenView>)
    requires
        run(tokens).stage is Prolog,
    ensures
        forall|j: int| 0 <= j < tokens.len() ==> !(#[trigger] tokens[j] is Open),
    decreases tokens.len(),
{
    if tokens.len() > 0 {
        let before = tokens.drop_last();
        assert(run(before).stage is Prolog);
        lemma_prolog_has_no_start_tag(before);
        assert forall|j: int| 0 <= j < tokens.len() implies !(#[trigger] tokens[j] is Open) by {
            if j < tokens.len() - 1 {
                assert(tokens[j] == before[j]);
            }
        }
    }
}

/// Decoding completes only at the end of the document.
pub proof fn lemma_complete_has_end(tokens: Seq<TokenView>)
    requires
        run(tokens).stage is Complete,
    ensures
        exists|j: int| 0 <= j < tokens.len() && #[trigger] tokens[j] is End,
    decreases tokens.len(),
{
    if tokens.len() > 0 {
        let before = tokens.drop_last();
        if run(before).stage is Complete {
            lemma_complete_has_end(before);
            let j = choose|j: int| 0 <= j < before.len() && #[trigger] before[j] is End;
            assert(tokens[j] is End);
        } else {
            assert(tokens[tokens.len() - 1] is End);
        }
    }
}

/// An unknown tag is rejected: a document that holds, below its root and
/// before its end, an element whose name is not in the vocabulary does not
/// decode, whatever else it holds.
pub proof fn lemma_unknown_tag_fails(tokens: Seq<TokenView>, root: int, at: int)
    requires
        0 <= root < at < tokens.len(),
        tokens[root] is Open,
        tokens[at] is Open,
        !known_tag(tokens[at]->Open_0),
        forall|j: int| 0 <= j < at ==> !(#[trigger] tokens[j] is End),
    ensures
        decode_tokens(tokens) is Err,
{
    let before = tokens.take(at);
    let progress = run(before);
    lemma_run_step(tokens, at);
    if progress.stage is Prolog {
        lemma_prolog_has_no_start_tag(before);
        assert(before[root] is Open);
    } else if progress.stage is Complete {
        lemma_complete_has_end(before);
        let j = choose|j: int| 0 <= j < before.len() && #[trigger] before[j] is End;
        assert(tokens[j] is End);
    } else if progress.stage is Failed {
        lemma_failure_is_final(tokens, at);
    } else {
        assert(run(tokens.take(at + 1)).stage is Failed);
        lemma_failure_is_final(tokens, at + 1);
    }
}

/// Below the root, an element that is neither a fragment nor, in an example
/// sentence, one of its members fails the decoding with its name.
pub proof fn lemma_unknown_field_is_named(tokens: Seq<TokenView>, at: int)
    requires
        0 <= at < tokens.len(),
        tokens[at] is Open,
        !known_tag(tokens[at]->Open_0),
        run(tokens.take(at)).stage is Body || run(tokens.take(at)).stage is Sentence,
    ensures
        decode_tokens(tokens) == Err::<Seq<Fragment>, DecodeFailure>(
            DecodeFailure::UnknownField(tokens[at]->Open_0),
        ),
{
    lemma_run_step(tokens, at);
    lemma_failure_is_final(tokens, at + 1);
}

/// The name of the element that holds a text fragment of kind `kind`.
pub open spec fn tag_of(kind: Kind) -> Seq<char> {
    match kind {
        Kind::Key => "key"@,
        Kind::PS => "ps"@,
        Kind::Pron => "pron"@,
        Kind::Pos => "pos"@,
        Kind::Acceptation => "acceptation"@,
    }
}

/// The tokens of the element that holds `fragment`.
pub open spec fn fragment_tokens(fragment: Fragment) -> Seq<TokenView> {
    match fragment {
        Fragment::Key(text) => seq![TokenView::Open("key"@), TokenView::Text(text), TokenView::Close],
        Fragment::PS(text) => seq![TokenView::Open("ps"@), TokenView::Text(text), TokenView::Close],
        Fragment::Pron(text) => seq![
            TokenView::Open("pron"@),
            TokenView::Text(text),
            TokenView::Close,
        ],
        Fragment::Pos(text) => seq![TokenView::Open("pos"@), TokenView::Text(text), TokenView::Close],
        Fragment::Acceptation(text) => seq![
            TokenView::Open("acceptation"@),
            TokenView::Text(text),
            TokenView::Close,
        ],
        Fragment::Statement(orig, trans) => seq![
            TokenView::Open("sent"@),
            TokenView::Open("orig"@),
            TokenView::Text(orig),
            TokenView::Close,
            TokenView::Open("trans"@),
            TokenView::Text(trans),
            TokenView::Close,
            TokenView::Close,
        ],
    }
}

/// The tokens of the elements that hold `items`, in order.
pub open spec fn body_tokens(items: Seq<Fragment>) -> Seq<TokenView>
    decreases items.len(),
{
    if items.len() == 0 {
        Seq::empty()
    } else {
        body_tokens(items.drop_last()) + fragment_tokens(items.last())
    }
}

/// The tokens of the document whose root, named `root`, holds `items`.
pub open spec fn document_tokens(root: Seq<char>, items: Seq<Fragment>) -> Seq<TokenView> {
    seq![TokenView::Other, TokenView::Open(root)] + body_tokens(items) + seq![
        TokenView::Close,
        TokenView::End,
    ]
}

/// One more token is one more step.
pub proof fn lemma_run_from_push(progress: Progress, tokens: Seq<TokenView>, token: TokenView)
    ensures
        run_from(progress, tokens.push(token)) == step(run_from(progress, tokens), token),
{
    assert(tokens.push(token).drop_last() =~= tokens);
}

/// Running over two streams in a row is running over the first, then over
/// the second from where the first led.
pub proof fn lemma_run_from_concat(
    progress: Progress,
    front: Seq<TokenView>,
    back: Seq<TokenView>,
)
    ensures
        run_from(progress, front + back) == run_from(run_from(progress, front), back),
    decreases back.len(),
{
    if back.len() == 0 {
        assert(front + back =~= front);
    } else {
        assert((front + back).drop_last() =~= front + back.drop_last());
        lemma_run_from_concat(progress, front, back.drop_last());
    }
}

/// Each kind of text fragment has a tag of its own, and `sent` is none of
/// them.
pub proof fn lemma_tags_are_distinct()
    ensures
        forall|kind: Kind| kind_of_tag(#[trigger] tag_of(kind)) == Some(kind),
        kind_of_tag("sent"@) is None,
        "orig"@ != "trans"@,
{
    reveal_strlit("key");
    reveal_strlit("ps");
    reveal_strlit("pron");
    reveal_strlit("pos");
    reveal_strlit("acceptation");
    reveal_strlit("sent");
    reveal_strlit("orig");
    reveal_strlit("trans");
    assert("key"@.len() == 3 && "key"@[0] == 'k');
    assert("ps"@.len() == 2);
    assert("pron"@.len() == 4 && "pron"@[0] == 'p');
    assert("pos"@.len() == 3 && "pos"@[0] == 'p');
    assert("acceptation"@.len() == 11);
    assert("sent"@.len() == 4 && "sent"@[0] == 's');
    assert("orig"@.len() == 4);
    assert("trans"@.len() == 5);
    assert forall|kind: Kind| kind_of_tag(#[trigger] tag_of(kind)) == Some(kind) by {
        match kind {
            Kind::Key => {},
            Kind::PS => {},
            Kind::Pron => {},
            Kind::Pos => {},
            Kind::Acceptation => {},
        }
    }
}

/// Between fragments, the tokens of one fragment add exactly that fragment.
pub proof fn lemma_fragment_decodes(progress: Progress, fragment: Fragment)
    requires
        progress.stage is Body,
    ensures
        run_from(progress, fragment_tokens(fragment)) == (Progress {
            items: progress.items.push(fragment),
            stage: StageView::Body,
        }),
{
    lemma_tags_are_distinct();
    let tokens = fragment_tokens(fragment);
    let none = Seq::<TokenView>::empty();
    match fragment {
        Fragment::Statement(orig, trans) => {
            let t = tokens;
            let s1 = none.push(t[0]);
            let s2 = s1.push(t[1]);
            let s3 = s2.push(t[2]);
            let s4 = s3.push(t[3]);
            let s5 = s4.push(t[4]);
            let s6 = s5.push(t[5]);
            let s7 = s6.push(t[6]);
            let s8 = s7.push(t[7]);
            assert(s8 =~= t);
            lemma_run_from_push(progress, none, t[0]);
            lemma_run_from_push(progress, s1, t[1]);
            lemma_run_from_push(progress, s2, t[2]);
            lemma_run_from_push(progress, s3, t[3]);
            lemma_run_from_push(progress, s4, t[4]);
            lemma_run_from_push(progress, s5, t[5]);
            lemma_run_from_push(progress, s6, t[6]);
            lemma_run_from_push(progress, s7, t[7]);
            assert(run_from(progress, s4).stage == (StageView::Sentence {
                orig: Some(orig),
                trans: None,
            }));
            assert(run_from(progress, s7).stage == (StageView::Sentence {
                orig: Some(orig),
                trans: Some(trans),
            }));
        },
        _ => {
            let t = tokens;
            let s1 = none.push(t[0]);
            let s2 = s1.push(t[1]);
            let s3 = s2.push(t[2]);
            assert(s3 =~= t);
            lemma_run_from_push(progress, none, t[0]);
            lemma_run_from_push(progress, s1, t[1]);
            lemma_run_from_push(progress, s2, t[2]);
            assert(kind_of_tag(tag_of(Kind::Key)) == Some(Kind::Key));
            assert(kind_of_tag(tag_of(Kind::PS)) == Some(Kind::PS));
            assert(kind_of_tag(tag_of(Kind::Pron)) == Some(Kind::Pron));
            assert(kind_of_tag(tag_of(Kind::Pos)) == Some(Kind::Pos));
            assert(kind_of_tag(tag_of(Kind::Acceptation)) == Some(Kind::Acceptation));
            assert(run_from(progress, s1).stage is Text);
        },
    }
}

/// Between fragments, the tokens of a run of fragments add exactly these
/// fragments, in their order.
pub proof fn lemma_body_decodes(progress: Progress, items: Seq<Fragment>)
    requires
        progress.stage is Body,
    ensures
        run_from(progress, body_tokens(items)) == (Progress {
            items: progress.items + items,
            stage: StageView::Body,
        }),
    decreases items.len(),
{
    if items.len() == 0 {
        assert(progress.items + items =~= progress.items);
    } else {
        let before = items.drop_last();
        lemma_body_decodes(progress, before);
        lemma_run_from_concat(progress, body_tokens(before), fragment_tokens(items.last()));
        lemma_fragment_decodes(run_from(progress, body_tokens(before)), items.last());
        assert((progress.items + before).push(items.last()) =~= progress.items + items);
    }
}

/// Decoding keeps what the document holds: a document whose root holds the
/// elements of `items` decodes to `items`, each fragment once and in its
/// place, whatever the root is called.
pub proof fn lemma_decode_keeps_fragments(root: Seq<char>, items: Seq<Fragment>)
    ensures
        decode_tokens(document_tokens(root, items)) == Ok::<Seq<Fragment>, DecodeFailure>(items),
{
    let head = seq![TokenView::Other, TokenView::Open(root)];
    let tail = seq![TokenView::Close, TokenView::End];
    let none = Seq::<TokenView>::empty();
    assert(head =~= none.push(TokenView::Other).push(TokenView::Open(root)));
    lemma_run_from_push(start(), none, TokenView::Other);
    lemma_run_from_push(start(), none.push(TokenView::Other), TokenView::Open(root));
    let opened = run_from(start(), head);
    assert(opened == Progress { items: Seq::empty(), stage: StageView::Body });
    lemma_body_decodes(opened, items);
    let filled = run_from(opened, body_tokens(items));
    assert(opened.items + items =~= items);
    assert(tail =~= none.push(TokenView::Close).push(TokenView::End));
    lemma_run_from_push(filled, none, TokenView::Close);
    lemma_run_from_push(filled, none.push(TokenView::Close), TokenView::End);
    lemma_run_from_concat(start(), head, body_tokens(items));
    lemma_run_from_concat(start(), head + body_tokens(items), tail);
}

} // verus!
