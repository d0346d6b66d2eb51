use fanyi_rs::fragment::{RespDict, RespItem, Statement};
use fanyi_rs::record::HandyDict;
use fanyi_rs::render::decimal_string;
use fanyi_rs::request::{request_url, url_with_query};

fn text(s: &str) -> String {
    String::from(s)
}

fn sentence(orig: &str, trans: &str) -> RespItem {
    RespItem::Statement(Statement { orig: text(orig), trans: text(trans) })
}

fn record_of(items: Vec<RespItem>) -> HandyDict {
    HandyDict::new_from_dict(&RespDict { items })
}

fn empty_record() -> HandyDict {
    HandyDict {
        key: text(""),
        phonetic_symbols: vec![],
        phonetic_symbols_pronunciations: vec![],
        part_of_speech: text(""),
        meaning: text(""),
        statements: vec![],
    }
}

#[test]
fn no_fragments_aggregate_to_the_empty_record() {
    assert_eq!(record_of(vec![]), empty_record());
}

#[test]
fn the_empty_record_renders_headword_line_and_attribution_only() {
    assert_eq!(record_of(vec![]).render(), "\n  ~ iciba.com\n\n");
}

#[test]
fn the_last_key_wins() {
    let record = record_of(vec![RespItem::Key(text("A")), RespItem::Key(text("B"))]);
    assert_eq!(record.key, "B");
}

#[test]
fn the_last_part_of_speech_and_meaning_win() {
    let record = record_of(vec![
        RespItem::Pos(text("n.")),
        RespItem::Acceptation(text("first")),
        RespItem::Key(text("k")),
        RespItem::Acceptation(text("second")),
        RespItem::Pos(text("v.")),
        sentence("o", "t"),
    ]);
    assert_eq!(record.part_of_speech, "v.");
    assert_eq!(record.meaning, "second");
    assert_eq!(record.key, "k");
}

#[test]
fn sequences_accumulate_in_order_without_deduplication() {
    let record = record_of(vec![
        RespItem::PS(text("b")),
        RespItem::Pron(text("p1")),
        sentence("o1", "t1"),
        RespItem::PS(text("a")),
        RespItem::PS(text("b")),
        RespItem::Pron(text("p1")),
        sentence("o2", "t2"),
        sentence("o1", "t1"),
    ]);
    assert_eq!(record.phonetic_symbols, vec![text("b"), text("a"), text("b")]);
    assert_eq!(record.phonetic_symbols_pronunciations, vec![text("p1"), text("p1")]);
    assert_eq!(
        record.statements,
        vec![
            Statement { orig: text("o1"), trans: text("t1") },
            Statement { orig: text("o2"), trans: text("t2") },
            Statement { orig: text("o1"), trans: text("t1") },
        ]
    );
    assert_eq!(record.key, "");
}

#[test]
fn one_phonetic_symbol_renders_no_brackets() {
    let record = record_of(vec![RespItem::Key(text("k")), RespItem::PS(text("only"))]);
    assert_eq!(record.render(), "\n k ~ iciba.com\n\n");
}

#[test]
fn two_phonetic_symbols_render_both() {
    let record =
        record_of(vec![RespItem::Key(text("k")), RespItem::PS(text("x")), RespItem::PS(text("y"))]);
    assert_eq!(record.render(), "\n k 英[ x ] 美[ y ] ~ iciba.com\n\n");
}

#[test]
fn more_phonetic_symbols_render_the_first_two() {
    let record = record_of(vec![
        RespItem::Key(text("k")),
        RespItem::PS(text("x")),
        RespItem::PS(text("y")),
        RespItem::PS(text("z")),
        RespItem::PS(text("w")),
    ]);
    assert_eq!(record.render(), "\n k 英[ x ] 美[ y ] ~ iciba.com\n\n");
}

#[test]
fn a_meaning_without_part_of_speech_is_not_shown() {
    let record = record_of(vec![RespItem::Key(text("k")), RespItem::Acceptation(text("gloss"))]);
    assert_eq!(record.meaning, "gloss");
    assert_eq!(record.render(), "\n k ~ iciba.com\n\n");
}

#[test]
fn part_of_speech_and_meaning_share_one_line() {
    let record = record_of(vec![
        RespItem::Key(text("k")),
        RespItem::Pos(text("n.")),
        RespItem::Acceptation(text("gloss")),
    ]);
    assert_eq!(record.render(), "\n k ~ iciba.com\n\n - n. gloss\n\n");
}

#[test]
fn a_part_of_speech_without_meaning_is_shown() {
    let record = record_of(vec![RespItem::Pos(text("n."))]);
    assert_eq!(record.render(), "\n  ~ iciba.com\n\n - n. \n\n");
}

#[test]
fn examples_are_numbered_from_one_in_their_order() {
    let mut items = Vec::new();
    let mut expected = String::from("\n  ~ iciba.com\n\n");
    for n in 1..=12 {
        items.push(sentence(&format!("original {}", n), &format!("translated {}", n)));
        expected.push_str(&format!(" {}. original {}\n   translated {}\n", n, n, n));
    }
    assert_eq!(record_of(items).render(), expected);
}

#[test]
fn examples_keep_their_order_among_other_fragments() {
    let record = record_of(vec![
        sentence("b", "B"),
        RespItem::Key(text("k")),
        sentence("a", "A"),
    ]);
    assert_eq!(record.render(), "\n k ~ iciba.com\n\n 1. b\n   B\n 2. a\n   A\n");
}

#[test]
fn render_shows_every_section() {
    let record = HandyDict {
        key: text("hello"),
        phonetic_symbols: vec![text("frontInput"), text("backInput")],
        phonetic_symbols_pronunciations: vec![],
        part_of_speech: text("int."),
        meaning: text("greeting"),
        statements: vec![Statement { orig: text("Hello!"), trans: text("你好！") }],
    };
    assert_eq!(
        record.render(),
        "\n hello 英[ frontInput ] 美[ backInput ] ~ iciba.com\n\n - int. greeting\n\n 1. Hello!\n   你好！\n"
    );
}

#[test]
fn render_twice_gives_the_same_text() {
    let record = record_of(vec![RespItem::Key(text("k")), sentence("o", "t")]);
    assert_eq!(record.render(), record.render());
}

#[test]
fn statement_clone_keeps_both_texts() {
    let statement = Statement { orig: text("o"), trans: text("t") };
    assert_eq!(statement.clone(), statement);
}

#[test]
fn decimal_string_writes_numerals() {
    assert_eq!(decimal_string(0), "0");
    assert_eq!(decimal_string(7), "7");
    assert_eq!(decimal_string(9), "9");
    assert_eq!(decimal_string(10), "10");
    assert_eq!(decimal_string(109), "109");
    assert_eq!(decimal_string(1234567890), "1234567890");
    assert_eq!(decimal_string(usize::MAX), usize::MAX.to_string());
}

#[test]
fn url_with_query_appends_the_query() {
    assert_eq!(
        url_with_query("w=hello"),
        "http://dict-co.iciba.com/api/dictionary.php?key=D191EBD014295E913574E1EAF8E06666&w=hello"
    );
}

#[test]
fn request_url_encodes_the_content() {
    assert_eq!(
        request_url("hello"),
        "http://dict-co.iciba.com/api/dictionary.php?key=D191EBD014295E913574E1EAF8E06666&w=hello"
    );
    assert_eq!(
        request_url("a b&c=d/é"),
        "http://dict-co.iciba.com/api/dictionary.php?key=D191EBD014295E913574E1EAF8E06666&w=a+b%26c%3Dd%2F%C3%A9"
    );
    assert_eq!(
        request_url(""),
        "http://dict-co.iciba.com/api/dictionary.php?key=D191EBD014295E913574E1EAF8E06666&w="
    );
}
