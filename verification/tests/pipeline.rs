use fanyi_rs::decode::{decode, fragments_from_tokens, DecodeError, Decoder, Stage};
use fanyi_rs::fragment::{RespDict, RespItem, Statement};
use fanyi_rs::lookup::{lookup, lookup_tokens, record_from_response, Error};
use fanyi_rs::markup::{tokenize, XmlToken};
use fanyi_rs::record::HandyDict;

fn text(s: &str) -> String {
    String::from(s)
}

fn sentence(orig: &str, trans: &str) -> RespItem {
    RespItem::Statement(Statement { orig: text(orig), trans: text(trans) })
}

const HELLO: &str = "<?xml version=\"1.0\" encoding=\"UTF-8\"?>\n\
<dict num=\"219\" id=\"219\" name=\"219\">\n\
  <key>hello</key>\n\
  <ps>frontInput</ps>\n\
  <pron>http://example.com/front.mp3</pron>\n\
  <ps>backInput</ps>\n\
  <pron>http://example.com/back.mp3</pron>\n\
  <pos>int.</pos>\n\
  <acceptation>greeting</acceptation>\n\
  <sent><orig>Hello!</orig><trans>你好！</trans></sent>\n\
</dict>\n";

#[test]
fn tokenize_yields_the_events_in_document_order() {
    let tokens = tokenize("<dict><key>a</key></dict>");
    assert_eq!(
        tokens,
        vec![
            XmlToken::Other,
            XmlToken::Open(text("dict")),
            XmlToken::Open(text("key")),
            XmlToken::Text(text("a")),
            XmlToken::Close,
            XmlToken::Close,
            XmlToken::End,
        ]
    );
}

#[test]
fn tokenize_trims_text_and_drops_blank_runs() {
    let tokens = tokenize("<dict>\n  <key>  a b  </key>\n</dict>");
    assert_eq!(
        tokens,
        vec![
            XmlToken::Other,
            XmlToken::Open(text("dict")),
            XmlToken::Open(text("key")),
            XmlToken::Text(text("a b")),
            XmlToken::Close,
            XmlToken::Close,
            XmlToken::End,
        ]
    );
}

#[test]
fn tokenize_resolves_entities_and_cdata() {
    let tokens = tokenize("<d><key>a &amp; <![CDATA[<b>]]></key></d>");
    assert_eq!(tokens[3], XmlToken::Text(text("a & <b>")));
}

#[test]
fn tokenize_ends_at_the_first_syntax_error() {
    let tokens = tokenize("<dict><key>a</ps></dict>");
    assert_eq!(tokens.last(), Some(&XmlToken::Malformed));
    assert_eq!(tokens.iter().filter(|t| **t == XmlToken::Malformed).count(), 1);
    assert!(!tokens.contains(&XmlToken::End));
}

#[test]
fn decode_keeps_every_fragment_in_document_order() {
    let dict = decode(HELLO).unwrap();
    assert_eq!(
        dict.items,
        vec![
            RespItem::Key(text("hello")),
            RespItem::PS(text("frontInput")),
            RespItem::Pron(text("http://example.com/front.mp3")),
            RespItem::PS(text("backInput")),
            RespItem::Pron(text("http://example.com/back.mp3")),
            RespItem::Pos(text("int.")),
            RespItem::Acceptation(text("greeting")),
            sentence("Hello!", "你好！"),
        ]
    );
}

#[test]
fn decode_does_not_deduplicate() {
    let dict = decode("<dict><key>a</key><key>a</key><ps>x</ps><ps>x</ps></dict>").unwrap();
    assert_eq!(
        dict.items,
        vec![
            RespItem::Key(text("a")),
            RespItem::Key(text("a")),
            RespItem::PS(text("x")),
            RespItem::PS(text("x")),
        ]
    );
}

#[test]
fn decode_reads_an_empty_element_as_empty_text() {
    let dict = decode("<dict><key/><pos></pos><acceptation> </acceptation></dict>").unwrap();
    assert_eq!(
        dict.items,
        vec![
            RespItem::Key(text("")),
            RespItem::Pos(text("")),
            RespItem::Acceptation(text("")),
        ]
    );
}

#[test]
fn decode_accepts_a_root_without_fragments() {
    assert_eq!(decode("<dict/>"), Ok(RespDict { items: vec![] }));
    assert_eq!(decode("<dict num=\"0\"></dict>"), Ok(RespDict { items: vec![] }));
}

#[test]
fn decode_takes_the_members_of_a_sentence_in_either_order() {
    let dict = decode("<dict><sent><trans>t</trans><orig>o</orig></sent></dict>").unwrap();
    assert_eq!(dict.items, vec![sentence("o", "t")]);
}

#[test]
fn decode_ignores_text_between_the_members_of_a_sentence() {
    let dict = decode("<dict><sent>x<orig>o</orig>y<trans/>z</sent></dict>").unwrap();
    assert_eq!(dict.items, vec![sentence("o", "")]);
}

#[test]
fn decode_rejects_an_unknown_tag() {
    assert_eq!(
        decode("<dict><key>a</key><foo>b</foo><ps>c</ps></dict>"),
        Err(DecodeError::UnknownField(text("foo")))
    );
}

#[test]
fn decode_matches_tags_by_case() {
    assert_eq!(decode("<dict><Key>a</Key></dict>"), Err(DecodeError::UnknownField(text("Key"))));
    assert_eq!(decode("<dict><SENT/></dict>"), Err(DecodeError::UnknownField(text("SENT"))));
}

#[test]
fn decode_rejects_an_unknown_member_of_a_sentence() {
    assert_eq!(
        decode("<dict><sent><orig>o</orig><note/><trans>t</trans></sent></dict>"),
        Err(DecodeError::UnknownField(text("note")))
    );
    assert_eq!(
        decode("<dict><sent><key>k</key></sent></dict>"),
        Err(DecodeError::UnknownField(text("key")))
    );
    assert_eq!(
        decode("<dict><orig>o</orig></dict>"),
        Err(DecodeError::UnknownField(text("orig")))
    );
}

#[test]
fn decode_rejects_a_sentence_that_lacks_a_member() {
    assert_eq!(
        decode("<dict><sent><orig>o</orig></sent></dict>"),
        Err(DecodeError::IncompleteField)
    );
    assert_eq!(
        decode("<dict><sent><trans>t</trans></sent></dict>"),
        Err(DecodeError::IncompleteField)
    );
    assert_eq!(decode("<dict><sent/></dict>"), Err(DecodeError::IncompleteField));
}

#[test]
fn decode_rejects_malformed_markup() {
    assert_eq!(decode(""), Err(DecodeError::Malformed));
    assert_eq!(decode("not markup"), Err(DecodeError::Malformed));
    assert_eq!(decode("<dict><key>a</key>"), Err(DecodeError::Malformed));
    assert_eq!(decode("<dict><key>a</ps></dict>"), Err(DecodeError::Malformed));
    assert_eq!(decode("<dict></dict><dict></dict>"), Err(DecodeError::Malformed));
}

#[test]
fn decode_rejects_a_response_that_is_laid_out_wrongly() {
    assert_eq!(decode("<dict>stray<key>a</key></dict>"), Err(DecodeError::Malformed));
    assert_eq!(decode("<dict><key><b>a</b></key></dict>"), Err(DecodeError::Malformed));
    assert_eq!(decode("<dict><key>a<?p?>b</key></dict>"), Err(DecodeError::Malformed));
    assert_eq!(
        decode("<dict><sent><orig>a</orig><orig>b</orig><trans>t</trans></sent></dict>"),
        Err(DecodeError::Malformed)
    );
    assert_eq!(
        decode("<dict><sent><orig><i>a</i></orig><trans>t</trans></sent></dict>"),
        Err(DecodeError::Malformed)
    );
}

#[test]
fn decode_reports_the_first_failure_in_document_order() {
    assert_eq!(
        decode("<dict><foo>a</foo><key>b</ps></dict>"),
        Err(DecodeError::UnknownField(text("foo")))
    );
    assert_eq!(
        decode("<dict><sent><orig>o</orig></sent><foo/></dict>"),
        Err(DecodeError::IncompleteField)
    );
}

#[test]
fn fragments_from_tokens_reads_a_stream_written_by_hand() {
    let tokens = vec![
        XmlToken::Other,
        XmlToken::Open(text("any")),
        XmlToken::Other,
        XmlToken::Open(text("pos")),
        XmlToken::Text(text("n.")),
        XmlToken::Close,
        XmlToken::Open(text("sent")),
        XmlToken::Open(text("orig")),
        XmlToken::Close,
        XmlToken::Open(text("trans")),
        XmlToken::Text(text("t")),
        XmlToken::Other,
        XmlToken::Close,
        XmlToken::Close,
        XmlToken::Close,
        XmlToken::End,
    ];
    assert_eq!(
        fragments_from_tokens(&tokens),
        Ok(RespDict { items: vec![RespItem::Pos(text("n.")), sentence("", "t")] })
    );
}

#[test]
fn fragments_from_tokens_needs_the_end_of_the_document() {
    let mut tokens = vec![XmlToken::Open(text("dict")), XmlToken::Close];
    assert_eq!(fragments_from_tokens(&tokens), Err(DecodeError::Malformed));
    tokens.push(XmlToken::End);
    assert_eq!(fragments_from_tokens(&tokens), Ok(RespDict { items: vec![] }));
    assert_eq!(fragments_from_tokens(&vec![]), Err(DecodeError::Malformed));
    assert_eq!(fragments_from_tokens(&vec![XmlToken::End]), Err(DecodeError::Malformed));
}

#[test]
fn fragments_from_tokens_stops_at_a_failure() {
    let tokens = vec![
        XmlToken::Open(text("dict")),
        XmlToken::Malformed,
        XmlToken::Open(text("foo")),
        XmlToken::Close,
        XmlToken::End,
    ];
    assert_eq!(fragments_from_tokens(&tokens), Err(DecodeError::Malformed));
    let tokens = vec![
        XmlToken::Open(text("dict")),
        XmlToken::Close,
        XmlToken::End,
        XmlToken::Open(text("foo")),
    ];
    assert_eq!(fragments_from_tokens(&tokens), Ok(RespDict { items: vec![] }));
}

#[test]
fn decoder_moves_from_stage_to_stage() {
    let decoder = Decoder::new();
    assert_eq!(decoder.stage, Stage::Prolog);
    let decoder = decoder.advance(&XmlToken::Open(text("dict")));
    assert_eq!(decoder.stage, Stage::Body);
    let decoder = decoder.advance(&XmlToken::Open(text("ps")));
    assert_eq!(decoder.stage, Stage::Text { kind: fanyi_rs::fragment::Kind::PS, text: None });
    let decoder = decoder.advance(&XmlToken::Text(text("x")));
    let decoder = decoder.advance(&XmlToken::Close);
    assert_eq!(decoder.stage, Stage::Body);
    assert_eq!(decoder.items, vec![RespItem::PS(text("x"))]);
    let decoder = decoder.advance(&XmlToken::Close);
    assert_eq!(decoder.stage, Stage::Epilog);
    let decoder = decoder.advance(&XmlToken::End);
    assert_eq!(decoder.stage, Stage::Complete);
    assert_eq!(decoder.finish(), Ok(RespDict { items: vec![RespItem::PS(text("x"))] }));
}

#[test]
fn decoder_that_is_not_done_finishes_malformed() {
    assert_eq!(Decoder::new().finish(), Err(DecodeError::Malformed));
    let decoder = Decoder::new().advance(&XmlToken::Open(text("dict")));
    assert_eq!(decoder.finish(), Err(DecodeError::Malformed));
}

#[test]
fn lookup_renders_the_entry_for_hello() {
    let entry = lookup(HELLO).unwrap();
    assert_eq!(
        entry,
        "\n hello 英[ frontInput ] 美[ backInput ] ~ iciba.com\n\n - int. greeting\n\n 1. Hello!\n   你好！\n"
    );
    let lines: Vec<&str> = entry.lines().collect();
    assert_eq!(lines[0], "");
    assert_eq!(lines[1], " hello 英[ frontInput ] 美[ backInput ] ~ iciba.com");
    assert_eq!(lines[3], " - int. greeting");
    assert_eq!(lines[5], " 1. Hello!");
    assert_eq!(lines[6], "   你好！");
}

#[test]
fn lookup_twice_gives_the_same_text() {
    assert_eq!(lookup(HELLO), lookup(HELLO));
    let broken = "<dict><foo/></dict>";
    assert_eq!(lookup(broken), lookup(broken));
}

#[test]
fn lookup_fails_on_an_unknown_tag() {
    assert_eq!(
        lookup("<dict><key>a</key><foo>b</foo></dict>"),
        Err(Error::Decode(DecodeError::UnknownField(text("foo"))))
    );
}

#[test]
fn lookup_fails_on_malformed_markup_and_on_an_incomplete_sentence() {
    assert_eq!(lookup("<dict>"), Err(Error::Decode(DecodeError::Malformed)));
    assert_eq!(
        lookup("<dict><sent><orig>o</orig></sent></dict>"),
        Err(Error::Decode(DecodeError::IncompleteField))
    );
}

#[test]
fn lookup_tokens_renders_a_stream_written_by_hand() {
    let tokens = vec![
        XmlToken::Open(text("dict")),
        XmlToken::Open(text("key")),
        XmlToken::Text(text("a")),
        XmlToken::Close,
        XmlToken::Close,
        XmlToken::End,
    ];
    assert_eq!(lookup_tokens(&tokens), Ok(text("\n a ~ iciba.com\n\n")));
}

#[test]
fn lookup_of_a_root_without_fragments_renders_the_bare_entry() {
    assert_eq!(lookup("<dict/>"), Ok(text("\n  ~ iciba.com\n\n")));
}

#[test]
fn record_from_response_aggregates_what_was_decoded() {
    let record = record_from_response(HELLO).unwrap();
    assert_eq!(
        record,
        HandyDict {
            key: text("hello"),
            phonetic_symbols: vec![text("frontInput"), text("backInput")],
            phonetic_symbols_pronunciations: vec![
                text("http://example.com/front.mp3"),
                text("http://example.com/back.mp3"),
            ],
            part_of_speech: text("int."),
            meaning: text("greeting"),
            statements: vec![Statement { orig: text("Hello!"), trans: text("你好！") }],
        }
    );
    assert_eq!(
        record_from_response("<dict><Key/></dict>"),
        Err(Error::Decode(DecodeError::UnknownField(text("Key"))))
    );
}

#[test]
fn errors_describe_themselves_in_one_line() {
    assert_eq!(DecodeError::Malformed.message(), "malformed response");
    assert_eq!(DecodeError::UnknownField(text("foo")).message(), "unknown field `foo`");
    assert_eq!(DecodeError::IncompleteField.message(), "incomplete example sentence");
    assert_eq!(Error::Decode(DecodeError::Malformed).message(), "malformed response");
    assert_eq!(Error::Transport(text("connection refused")).message(), "connection refused");
}
