//! Rendering: the text shown for a record.

use vstd::prelude::*;
use vstd::string::*;
use crate::record::{
    aggregate, example_fragments, lemma_examples_aggregate_in_order, pairs, HandyDict, Record,
};

verus! {

/// The decimal digit for `d`, which is below ten.
pub open spec fn digit(d: nat) -> char {
    if d == 0 {
        '0'
    } else if d == 1 {
        '1'
    } else if d == 2 {
        '2'
    } else if d == 3 {
        '3'
    } else if d == 4 {
        '4'
    } else if d == 5 {
        '5'
    } else if d == 6 {
        '6'
    } else if d == 7 {
        '7'
    } else if d == 8 {
        '8'
    } else {
        '9'
    }
}

/// The decimal numeral of `n`, without leading zeros.
pub open spec fn decimal(n: nat) -> Seq<char>
    decreases n,
{
    if n < 10 {
        seq![digit(n)]
    } else {
        decimal(n / 10).push(digit(n % 10))
    }
}

/// The bracketed pair of the first two phonetic symbols; nothing where there
/// are fewer than two.
pub open spec fn phonetic_section(symbols: Seq<Seq<char>>) -> Seq<char> {
    if symbols.len() >= 2 {
        " 英[ "@ + symbols[0] + " ] 美[ "@ + symbols[1] + " ]"@
    } else {
        Seq::empty()
    }
}

/// The line of part of speech and meaning, with the blank line after it;
/// nothing where there is no part of speech.
pub open spec fn meaning_section(part_of_speech: Seq<char>, meaning: Seq<char>) -> Seq<char> {
    if part_of_speech.len() > 0 {
        " - "@ + part_of_speech + " "@ + meaning + "\n\n"@
    } else {
        Seq::empty()
    }
}

/// The two lines of the example sentence numbered `number`.
pub open spec fn example_entry(number: nat, statement: (Seq<char>, Seq<char>)) -> Seq<char> {
    " "@ + decimal(number) + ". "@ + statement.0 + "\n   "@ + statement.1 + "\n"@
}

/// The example sentences, numbered from one, in their order.
pub open spec fn example_block(statements: Seq<(Seq<char>, Seq<char>)>) -> Seq<char>
    decreases statements.len(),
{
    if statements.len() == 0 {
        Seq::empty()
    } else {
        example_block(statements.drop_last()) + example_entry(
            statements.len(),
            statements.last(),
        )
    }
}

/// The head of an entry: a blank line, the headword with its phonetic
/// symbols and the attribution, then a blank line.
pub open spec fn headline(record: Record) -> Seq<char> {
    "\n "@ + record.key + phonetic_section(record.phonetic_symbols) + " ~ iciba.com\n\n"@
}

/// The text that a record renders to.
pub open spec fn rendered(record: Record) -> Seq<char> {
    headline(record) + meaning_section(record.part_of_speech, record.meaning) + example_block(
        record.statements,
    )
}

fn digit_text(d: usize) -> (text: &'static str)
    requires
        d < 10,
    ensures
        text@ == seq![digit(d as nat)],
{
    proof {
        reveal_strlit("0");
        reveal_strlit("1");
        reveal_strlit("2");
        reveal_strlit("3");
        reveal_strlit("4");
        reveal_strlit("5");
        reveal_strlit("6");
        reveal_strlit("7");
        reveal_strlit("8");
        reveal_strlit("9");
    }
    let text = if d == 0 {
        "0"
    } else if d == 1 {
        "1"
    } else if d == 2 {
        "2"
    } else if d == 3 {
        "3"
    } else if d == 4 {
        "4"
    } else if d == 5 {
        "5"
    } else if d == 6 {
        "6"
    } else if d == 7 {
        "7"
    } else if d == 8 {
        "8"
    } else {
        "9"
    };
    assert(text@ =~= seq![digit(d as nat)]);
    text
}

/// Writes `n` in decimal.
pub fn decimal_string(n: usize) -> (numeral: String)
    ensures
        numeral@ == decimal(n as nat),
    decreases n,
{
    if n < 10 {
        String::from_str(digit_text(n))
    } else {
        let mut numeral = decimal_string(n / 10);
        numeral.append(digit_text(n % 10));
        assert(numeral@ =~= decimal(n as nat));
        numeral
    }
}

impl HandyDict {
    /// Renders the record as the text of a dictionary entry.
    pub fn render(&self) -> (text: String)
        ensures
            text@ == rendered(self@),
    {
        let mut out = String::from_str("\n ");
        out.append(self.key.as_str());
        if self.phonetic_symbols.len() >= 2 {
            out.append(" 英[ ");
            out.append(self.phonetic_symbols[0].as_str());
            out.append(" ] 美[ ");
            out.append(self.phonetic_symbols[1].as_str());
            out.append(" ]");
        }
        out.append(" ~ iciba.com\n\n");
        assert(out@ =~= headline(self@));
        if !self.part_of_speech.as_str().is_empty() {
            out.append(" - ");
            out.append(self.part_of_speech.as_str());
            out.append(" ");
            out.append(self.meaning.as_str());
            out.append("\n\n");
        }
        let ghost head = headline(self@) + meaning_section(self@.part_of_speech, self@.meaning);
        assert(out@ =~= head);
        let ghost all = pairs(self.statements@);
        let mut index: usize = 0;
        while index < self.statements.len()
            invariant
                index <= self.statements.len(),
                all == pairs(self.statements@),
                out@ == head + example_block(all.take(index as int)),
            decreases self.statements.len() - index,
        {
            let statement = &self.statements[index];
            let number = decimal_string(index + 1);
            proof {
                assert(all.take(index + 1).drop_last() == all.take(index as int));
                assert(all.take(index + 1).last() == statement@);
            }
            out.append(" ");
            out.append(number.as_str());
            out.append(". ");
            out.append(statement.orig.as_str());
            out.append("\n   ");
            out.append(statement.trans.as_str());
            out.append("\n");
            assert(out@ =~= head + example_block(all.take(index + 1)));
            index += 1;
        }
        assert(all.take(index as int) == all);
        out
    }
}

/// Example sentences are listed in their order, numbered from one: the entry
/// of the sentence at `at` carries the number `at + 1` and stands in the block
/// right behind the entries of the sentences before it.
pub proof fn lemma_example_position(statements: Seq<(Seq<char>, Seq<char>)>, at: int)
    requires
        0 <= at < statements.len(),
    ensures
        ({
            let start = example_block(statements.take(at)).len() as int;
            let entry = example_entry((at + 1) as nat, statements[at]);
            &&& start + entry.len() <= example_block(statements).len()
            &&& example_block(statements).subrange(start, start + entry.len()) == entry
            &&& example_block(statements.take(at + 1)) == example_block(statements.take(at))
                + entry
        }),
    decreases statements.len(),
{
    let start = example_block(statements.take(at)).len() as int;
    let entry = example_entry((at + 1) as nat, statements[at]);
    assert(statements.take(at + 1).drop_last() =~= statements.take(at));
    if at == statements.len() - 1 {
        assert(statements.take(at) =~= statements.drop_last());
        assert(statements.take(at + 1) =~= statements);
        assert(example_block(statements).subrange(start, start + entry.len()) =~= entry);
    } else {
        let before = statements.drop_last();
        lemma_example_position(before, at);
        assert(before.take(at) =~= statements.take(at));
        assert(before.take(at + 1) =~= statements.take(at + 1));
        assert(example_block(statements).subrange(start, start + entry.len())
            =~= example_block(before).subrange(start, start + entry.len()));
    }
}

/// In the text of a record the example sentences come last, in their order
/// and numbered from one: the entry of the sentence at `at` stands behind the
/// head, the line of the meaning and the entries of the sentences before it.
pub proof fn lemma_examples_render_in_order(record: Record, at: int)
    requires
        0 <= at < record.statements.len(),
    ensures
        ({
            let start = (headline(record).len() + meaning_section(
                record.part_of_speech,
                record.meaning,
            ).len() + example_block(record.statements.take(at)).len()) as int;
            let entry = example_entry((at + 1) as nat, record.statements[at]);
            &&& start + entry.len() <= rendered(record).len()
            &&& rendered(record).subrange(start, start + entry.len()) == entry
        }),
{
    lemma_example_position(record.statements, at);
    let lead = headline(record) + meaning_section(record.part_of_speech, record.meaning);
    let block = example_block(record.statements);
    let from = example_block(record.statements.take(at)).len() as int;
    let entry = example_entry((at + 1) as nat, record.statements[at]);
    assert((lead + block).subrange(lead.len() + from, lead.len() + from + entry.len())
        =~= block.subrange(from, from + entry.len()));
}

/// A response of example sentences alone renders to the bare head followed
/// by the sentences in their order, numbered from one.
pub proof fn lemma_example_fragments_render_in_order(statements: Seq<(Seq<char>, Seq<char>)>)
    ensures
        rendered(aggregate(example_fragments(statements))) == "\n "@ + " ~ iciba.com\n\n"@
            + example_block(statements),
{
    lemma_examples_aggregate_in_order(statements);
    let record = aggregate(example_fragments(statements));
    assert(headline(record) =~= "\n "@ + " ~ iciba.com\n\n"@);
    assert(rendered(record) =~= "\n "@ + " ~ iciba.com\n\n"@ + example_block(statements));
}

/// The phonetic threshold: with fewer than two phonetic symbols the text is
/// that of the record without any, and the head holds no brackets; with two
/// or more the text is that of the record with the first two alone.
pub proof fn lemma_phonetic_threshold(record: Record)
    ensures
        record.phonetic_symbols.len() < 2 ==> {
            &&& rendered(record) == rendered(
                Record { phonetic_symbols: Seq::empty(), ..record },
            )
            &&& headline(record) == "\n "@ + record.key + " ~ iciba.com\n\n"@
        },
        record.phonetic_symbols.len() >= 2 ==> {
            &&& rendered(record) == rendered(
                Record { phonetic_symbols: record.phonetic_symbols.take(2), ..record },
            )
            &&& headline(record) == "\n "@ + record.key + (" 英[ "@ + record.phonetic_symbols[0]
                + " ] 美[ "@ + record.phonetic_symbols[1] + " ]"@) + " ~ iciba.com\n\n"@
        },
{
    if record.phonetic_symbols.len() < 2 {
        assert(headline(record) =~= "\n "@ + record.key + " ~ iciba.com\n\n"@);
    }
}

/// Part of speech gates the meaning: without a part of speech the text is the
/// same whatever the meaning is, and holds no line for it; with one, the text
/// holds exactly one line of both, between the head and the examples.
pub proof fn lemma_part_of_speech_gates_meaning(record: Record, meaning: Seq<char>)
    ensures
        record.part_of_speech.len() == 0 ==> {
            &&& rendered(record) == rendered(Record { meaning, ..record })
            &&& rendered(record) == headline(record) + example_block(record.statements)
        },
        record.part_of_speech.len() > 0 ==> rendered(record) == headline(record) + (" - "@
            + record.part_of_speech + " "@ + record.meaning + "\n\n"@) + example_block(
            record.statements,
        ),
{
    if record.part_of_speech.len() == 0 {
        assert(rendered(record) =~= headline(record) + example_block(record.statements));
    }
}

} // verus!
