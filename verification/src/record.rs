//! Aggregation: folding the fragments of a response into one record.

use vstd::prelude::*;
use crate::fragment::{fragments, text_of, Fragment, Kind, RespDict, RespItem, Statement};

verus! {

/// The text of the last fragment of kind `kind`; empty if there is none.
pub open spec fn last_text(items: Seq<Fragment>, kind: Kind) -> Seq<char>
    decreases items.len(),
{
    if items.len() == 0 {
        Seq::empty()
    } else {
        match text_of(items.last(), kind) {
            Some(text) => text,
            None => last_text(items.drop_last(), kind),
        }
    }
}

/// The texts of all fragments of kind `kind`, in the order of `items`.
pub open spec fn all_texts(items: Seq<Fragment>, kind: Kind) -> Seq<Seq<char>>
    decreases items.len(),
{
    if items.len() == 0 {
        Seq::empty()
    } else {
        let before = all_texts(items.drop_last(), kind);
        match text_of(items.last(), kind) {
            Some(text) => before.push(text),
            None => before,
        }
    }
}

/// The example sentences among `items`, in the order of `items`.
pub open spec fn all_statements(items: Seq<Fragment>) -> Seq<(Seq<char>, Seq<char>)>
    decreases items.len(),
{
    if items.len() == 0 {
        Seq::empty()
    } else {
        let before = all_statements(items.drop_last());
        match items.last() {
            Fragment::Statement(orig, trans) => before.push((orig, trans)),
            _ => before,
        }
    }
}

/// The mathematical value of an aggregated record.
#[verifier::ext_equal]
pub struct Record {
    pub key: Seq<char>,
    pub phonetic_symbols: Seq<Seq<char>>,
    pub pronunciations: Seq<Seq<char>>,
    pub part_of_speech: Seq<char>,
    pub meaning: Seq<char>,
    pub statements: Seq<(Seq<char>, Seq<char>)>,
}

/// The record that a sequence of fragments stands for: of the headword, the
/// part of speech and the meaning the last one given, of the phonetic
/// symbols, pronunciations and example sentences all of them, in order.
pub open spec fn aggregate(items: Seq<Fragment>) -> Record {
    Record {
        key: last_text(items, Kind::Key),
        phonetic_symbols: all_texts(items, Kind::PS),
        pronunciations: all_texts(items, Kind::Pron),
        part_of_speech: last_text(items, Kind::Pos),
        meaning: last_text(items, Kind::Acceptation),
        statements: all_statements(items),
    }
}

/// The values of a sequence of strings, in order.
pub open spec fn texts(strings: Seq<String>) -> Seq<Seq<char>> {
    strings.map_values(|s: String| s@)
}

/// The values of a sequence of example sentences, in order.
pub open spec fn pairs(statements: Seq<Statement>) -> Seq<(Seq<char>, Seq<char>)> {
    statements.map_values(|s: Statement| s@)
}

/// One dictionary entry, ready to be rendered.
#[derive(Debug, PartialEq, Eq)]
pub struct HandyDict {
    /// The headword.
    pub key: String,
    /// Phonetic spellings; by convention the first is British, the second
    /// American.
    pub phonetic_symbols: Vec<String>,
    /// Pronunciation recordings, paired with the spellings by position.
    pub phonetic_symbols_pronunciations: Vec<String>,
    /// The part of speech.
    pub part_of_speech: String,
    /// The meaning.
    pub meaning: String,
    /// Example sentences.
    pub statements: Vec<Statement>,
}

impl View for HandyDict {
    type V = Record;

    open spec fn view(&self) -> Record {
        Record {
            key: self.key@,
            phonetic_symbols: texts(self.phonetic_symbols@),
            pronunciations: texts(self.phonetic_symbols_pronunciations@),
            part_of_speech: self.part_of_speech@,
            meaning: self.meaning@,
            statements: pairs(self.statements@),
        }
    }
}

impl HandyDict {
    /// Aggregates the fragments of `dict` into one record.
    pub fn new_from_dict(dict: &RespDict) -> (record: HandyDict)
        ensures
            record@ == aggregate(dict@),
    {
        let mut handy_dict = HandyDict {
            key: String::new(),
            phonetic_symbols: Vec::new(),
            phonetic_symbols_pronunciations: Vec::new(),
            meaning: String::new(),
            part_of_speech: String::new(),
            statements: Vec::new(),
        };
        let ghost all = dict@;
        let mut i: usize = 0;
        while i < dict.items.len()
            invariant
                i <= dict.items.len(),
                all == fragments(dict.items@),
                handy_dict@ =~~= aggregate(all.take(i as int)),
            decreases dict.items.len() - i,
        {
            proof {
                assert(all.take(i + 1).drop_last() == all.take(i as int));
                assert(all.take(i + 1).last() == dict.items@[i as int]@);
            }
            match &dict.items[i] {
                RespItem::Key(key) => handy_dict.key = key.clone(),
                RespItem::Acceptation(meaning) => handy_dict.meaning = meaning.clone(),
                RespItem::Pos(pos) => handy_dict.part_of_speech = pos.clone(),
                RespItem::PS(phonetic_symbol) => {
                    let ghost before = handy_dict.phonetic_symbols@;
                    handy_dict.phonetic_symbols.push(phonetic_symbol.clone());
                    assert(texts(before.push(handy_dict.phonetic_symbols@.last()))
                        == texts(before).push(phonetic_symbol@));
                },
                RespItem::Pron(pronunciation) => {
                    let ghost before = handy_dict.phonetic_symbols_pronunciations@;
                    handy_dict.phonetic_symbols_pronunciations.push(pronunciation.clone());
                    assert(texts(before.push(handy_dict.phonetic_symbols_pronunciations@.last()))
                        == texts(before).push(pronunciation@));
                },
                RespItem::Statement(statement) => {
                    let ghost before = handy_dict.statements@;
                    handy_dict.statements.push(statement.clone());
                    assert(pairs(before.push(handy_dict.statements@.last())) == pairs(before).push(
                        statement@,
                    ));
                },
            }
            i += 1;
        }
        assert(all.take(i as int) == all);
        handy_dict
    }
}

/// The example-sentence fragments of `statements`, one each, in order.
pub open spec fn example_fragments(statements: Seq<(Seq<char>, Seq<char>)>) -> Seq<Fragment> {
    statements.map_values(|s: (Seq<char>, Seq<char>)| Fragment::Statement(s.0, s.1))
}

/// Last wins: where a fragment of kind `kind` stands at `at` and none of that
/// kind follows it, its text is the one that aggregation keeps.
pub proof fn lemma_last_text_wins(items: Seq<Fragment>, kind: Kind, at: int)
    requires
        0 <= at < items.len(),
        text_of(items[at], kind) is Some,
        forall|j: int| at < j < items.len() ==> text_of(#[trigger] items[j], kind) is None,
    ensures
        last_text(items, kind) == text_of(items[at], kind)->0,
    decreases items.len(),
{
    if at < items.len() - 1 {
        assert(text_of(items[items.len() - 1], kind) is None);
        lemma_last_text_wins(items.drop_last(), kind, at);
    }
}

/// Without a fragment of kind `kind` the text is empty.
pub proof fn lemma_last_text_of_none(items: Seq<Fragment>, kind: Kind)
    requires
        forall|j: int| 0 <= j < items.len() ==> text_of(#[trigger] items[j], kind) is None,
    ensures
        last_text(items, kind) == Seq::<char>::empty(),
    decreases items.len(),
{
    if items.len() > 0 {
        assert(text_of(items[items.len() - 1], kind) is None);
        lemma_last_text_of_none(items.drop_last(), kind);
    }
}

/// Of two headwords given one after the other, whatever came before them,
/// the record has the second: not the first, and not both.
pub proof fn lemma_later_key_overwrites(items: Seq<Fragment>, first: Seq<char>, second: Seq<char>)
    ensures
        aggregate(items.push(Fragment::Key(first)).push(Fragment::Key(second))).key == second,
{
}

/// Texts accumulate: the texts of a kind in `front + back` are those in
/// `front` followed by those in `back`, so that none is dropped, merged or
/// moved.
pub proof fn lemma_all_texts_concat(front: Seq<Fragment>, back: Seq<Fragment>, kind: Kind)
    ensures
        all_texts(front + back, kind) == all_texts(front, kind) + all_texts(back, kind),
    decreases back.len(),
{
    if back.len() == 0 {
        assert(front + back =~= front);
        assert(all_texts(front, kind) + all_texts(back, kind) =~= all_texts(front, kind));
    } else {
        assert((front + back).drop_last() =~= front + back.drop_last());
        assert((front + back).last() == back.last());
        lemma_all_texts_concat(front, back.drop_last(), kind);
        assert(all_texts(front + back, kind) =~= all_texts(front, kind) + all_texts(back, kind));
    }
}

/// Example sentences accumulate in the same way.
pub proof fn lemma_all_statements_concat(front: Seq<Fragment>, back: Seq<Fragment>)
    ensures
        all_statements(front + back) == all_statements(front) + all_statements(back),
    decreases back.len(),
{
    if back.len() == 0 {
        assert(front + back =~= front);
        assert(all_statements(front) + all_statements(back) =~= all_statements(front));
    } else {
        assert((front + back).drop_last() =~= front + back.drop_last());
        assert((front + back).last() == back.last());
        lemma_all_statements_concat(front, back.drop_last());
        assert(all_statements(front + back) =~= all_statements(front) + all_statements(back));
    }
}

/// A response of example sentences alone aggregates to exactly these
/// sentences, in their order, and to nothing else.
pub proof fn lemma_examples_aggregate_in_order(statements: Seq<(Seq<char>, Seq<char>)>)
    ensures
        aggregate(example_fragments(statements)) == (Record {
            key: Seq::empty(),
            phonetic_symbols: Seq::empty(),
            pronunciations: Seq::empty(),
            part_of_speech: Seq::empty(),
            meaning: Seq::empty(),
            statements,
        }),
    decreases statements.len(),
{
    let items = example_fragments(statements);
    if statements.len() > 0 {
        lemma_examples_aggregate_in_order(statements.drop_last());
        assert(items.drop_last() =~= example_fragments(statements.drop_last()));
        assert(all_statements(items) =~= statements);
    } else {
        assert(all_statements(items) =~= statements);
    }
    assert(aggregate(items) =~~= (Record {
        key: Seq::empty(),
        phonetic_symbols: Seq::empty(),
        pronunciations: Seq::empty(),
        part_of_speech: Seq::empty(),
        meaning: Seq::empty(),
        statements,
    }));
}

} // verus!
