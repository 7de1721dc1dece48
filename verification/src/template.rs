//! Placeholders in notification texts.
//!
//! A value that can fill placeholders describes itself as a text with one
//! line per entry, `<name>: <value>`. Filling a template replaces every
//! `$<name>` in it by the value of that entry.

use vstd::prelude::*;
use crate::text::{
    decimal, extend, extend_str, from_chars, lemma_decimal_digits, occurs_at, push_decimal, slice,
    starts_at, to_chars,
};

verus! {

/// `hay` with every occurrence of `from` replaced by `to`. Occurrences are
/// looked for from the left and do not overlap; what was put in is not
/// searched again. An empty `from` occurs nowhere.
pub open spec fn replace_all(hay: Seq<char>, from: Seq<char>, to: Seq<char>) -> Seq<char>
    decreases hay.len(),
{
    if from.len() == 0 || hay.len() == 0 {
        hay
    } else if occurs_at(hay, 0, from) {
        to + replace_all(hay.skip(from.len() as int), from, to)
    } else {
        seq![hay[0]] + replace_all(hay.skip(1), from, to)
    }
}

/// Where the first line of `text` ends: the position of its first line feed,
/// or its length if it holds none.
pub open spec fn line_end(text: Seq<char>) -> nat
    decreases text.len(),
{
    if text.len() == 0 || text[0] == '\n' {
        0
    } else {
        1 + line_end(text.skip(1))
    }
}

/// A line as it was cut off before a line feed, without the carriage return
/// that may end it.
pub open spec fn without_carriage_return(line: Seq<char>) -> Seq<char> {
    if line.len() > 0 && line.last() == '\r' {
        line.drop_last()
    } else {
        line
    }
}

/// The lines of a text. A line ends with a line feed, or with a carriage
/// return and a line feed; neither belongs to the line. What follows the last
/// line feed is a line of its own unless it is empty.
pub open spec fn lines(text: Seq<char>) -> Seq<Seq<char>>
    decreases text.len(),
{
    if text.len() == 0 {
        Seq::empty()
    } else if line_end(text) >= text.len() {
        seq![text]
    } else {
        seq![without_carriage_return(text.take(line_end(text) as int))] + lines(
            text.skip(line_end(text) as int + 1),
        )
    }
}

/// Whether a colon and a blank stand in `line` at position `at`.
pub open spec fn separator_at(line: Seq<char>, at: int) -> bool {
    0 <= at && at + 1 < line.len() && line[at] == ':' && line[at + 1] == ' '
}

/// Whether `at` is the one place in `line` where a colon and a blank stand.
pub open spec fn only_separator(line: Seq<char>, at: int) -> bool {
    separator_at(line, at) && forall|other: int| separator_at(line, other) ==> other == at
}

/// The entry that a line holds: the name before and the value after the one
/// colon and blank of the line. A line without them, or with more than one
/// such pair, holds no entry.
pub open spec fn entry(line: Seq<char>) -> Option<(Seq<char>, Seq<char>)> {
    if exists|at: int| only_separator(line, at) {
        let at = choose|at: int| only_separator(line, at);
        Some((line.take(at), line.skip(at + 2)))
    } else {
        None
    }
}

/// The placeholder of an entry: a dollar sign and the entry's name.
pub open spec fn placeholder(name: Seq<char>) -> Seq<char> {
    seq!['$'] + name
}

/// `input` after the entry of one line, if it holds one, was filled in.
pub open spec fn fill_line(input: Seq<char>, line: Seq<char>) -> Seq<char> {
    match entry(line) {
        Some((name, value)) => replace_all(input, placeholder(name), value),
        None => input,
    }
}

/// `input` after the entries of the given lines were filled in, one after
/// the other.
pub open spec fn fill_lines(input: Seq<char>, lines: Seq<Seq<char>>) -> Seq<char>
    decreases lines.len(),
{
    if lines.len() == 0 {
        input
    } else {
        fill_lines(fill_line(input, lines[0]), lines.skip(1))
    }
}

/// `input` with the placeholders of every entry of `entries` replaced by
/// that entry's value. A placeholder that no entry names stays as it is.
pub open spec fn render(input: Seq<char>, entries: Seq<char>) -> Seq<char> {
    fill_lines(input, lines(entries))
}

/// A value that can fill the placeholders of a template.
pub trait Template {
    /// The entries of the value: one line `<name>: <value>` for each.
    spec fn entries(&self) -> Seq<char>;

    /// Writes the entries out.
    fn to_template(&self) -> (text: String)
        ensures
            text@ == self.entries(),
    ;
}

/// What a notification may mention of the battery: its charge in percent.
pub struct FormatObject {
    pub percentage: u8,
}

impl Template for FormatObject {
    open spec fn entries(&self) -> Seq<char> {
        "percentage: "@ + decimal(self.percentage as nat) + seq!['\n']
    }

    fn to_template(&self) -> (text: String) {
        let mut chars: Vec<char> = Vec::new();
        extend_str(&mut chars, "percentage: ");
        push_decimal(&mut chars, self.percentage as u64);
        chars.push('\n');
        from_chars(&chars)
    }
}

proof fn lemma_replace_step(hay: Seq<char>, at: int, from: Seq<char>, to: Seq<char>)
    requires
        0 <= at < hay.len(),
        from.len() > 0,
    ensures
        occurs_at(hay, at, from) ==> replace_all(hay.skip(at), from, to) == to + replace_all(
            hay.skip(at + from.len()),
            from,
            to,
        ),
        !occurs_at(hay, at, from) ==> replace_all(hay.skip(at), from, to) == seq![hay[at]]
            + replace_all(hay.skip(at + 1), from, to),
{
    let rest = hay.skip(at);
    assert(rest.len() > 0);
    if at + from.len() <= hay.len() {
        assert(rest.subrange(0, from.len() as int) == hay.subrange(at, at + from.len()));
    }
    assert(occurs_at(rest, 0, from) == occurs_at(hay, at, from));
    assert(rest.skip(1) == hay.skip(at + 1));
    if occurs_at(hay, at, from) {
        assert(rest.skip(from.len() as int) == hay.skip(at + from.len()));
    }
}

/// `hay` with every occurrence of `from` replaced by `to`.
pub fn replace(hay: &Vec<char>, from: &Vec<char>, to: &Vec<char>) -> (out: Vec<char>)
    ensures
        out@ == replace_all(hay@, from@, to@),
{
    if from.len() == 0 {
        assert(hay@.subrange(0, hay@.len() as int) == hay@);
        return slice(hay, 0, hay.len());
    }
    let mut out: Vec<char> = Vec::new();
    let mut at: usize = 0;
    assert(hay@.skip(0) == hay@);
    while at < hay.len()
        invariant
            at <= hay.len(),
            from.len() > 0,
            out@ + replace_all(hay@.skip(at as int), from@, to@) == replace_all(hay@, from@, to@),
        decreases hay.len() - at,
    {
        proof {
            lemma_replace_step(hay@, at as int, from@, to@);
        }
        let ghost before = out@;
        if starts_at(hay, at, from) {
            extend(&mut out, to);
            at += from.len();
            assert(out@ + replace_all(hay@.skip(at as int), from@, to@) == before + (to@
                + replace_all(hay@.skip(at as int), from@, to@)));
        } else {
            out.push(hay[at]);
            at += 1;
            assert(out@ + replace_all(hay@.skip(at as int), from@, to@) == before + (seq![
                hay@[at - 1],
            ] + replace_all(hay@.skip(at as int), from@, to@)));
        }
    }
    assert(hay@.skip(hay@.len() as int).len() == 0);
    assert(out@ + Seq::<char>::empty() == out@);
    out
}

proof fn lemma_line_end(text: Seq<char>, end: int)
    requires
        0 <= end <= text.len(),
        forall|j: int| 0 <= j < end ==> text[j] != '\n',
        end == text.len() || text[end] == '\n',
    ensures
        line_end(text) == end,
    decreases end,
{
    if end > 0 {
        let rest = text.skip(1);
        assert forall|j: int| 0 <= j < end - 1 implies rest[j] != '\n' by {
            assert(rest[j] == text[j + 1]);
        }
        lemma_line_end(rest, end - 1);
    }
}

/// Where the line that starts at `from` ends.
fn find_line_end(text: &Vec<char>, from: usize) -> (end: usize)
    requires
        from <= text.len(),
    ensures
        from <= end <= text.len(),
        end == from + line_end(text@.skip(from as int)),
{
    let mut end: usize = from;
    while end < text.len() && text[end] != '\n'
        invariant
            from <= end <= text.len(),
            forall|j: int| from <= j < end ==> text@[j] != '\n',
        decreases text.len() - end,
    {
        end += 1;
    }
    proof {
        let rest = text@.skip(from as int);
        assert forall|j: int| 0 <= j < end - from implies rest[j] != '\n' by {
            assert(rest[j] == text@[from + j]);
        }
        lemma_line_end(rest, end - from);
    }
    end
}

/// The entry of a line, if it holds one.
fn parse_entry(line: &Vec<char>) -> (found: Option<(Vec<char>, Vec<char>)>)
    ensures
        match found {
            Some((name, value)) => entry(line@) == Some((name@, value@)),
            None => entry(line@) is None,
        },
{
    let mut first: Option<usize> = None;
    let mut at: usize = 0;
    while line.len() - at > 1
        invariant
            at <= line.len(),
            first is None ==> forall|j: int| 0 <= j < at ==> !separator_at(line@, j),
            first matches Some(f) ==> f < at && separator_at(line@, f as int) && forall|j: int|
                0 <= j < at && separator_at(line@, j) ==> j == f,
        decreases line.len() - at,
    {
        if line[at] == ':' && line[at + 1] == ' ' {
            if first.is_some() {
                proof {
                    let f = first->0 as int;
                    assert(separator_at(line@, f) && separator_at(line@, at as int) && f != at);
                    assert forall|k: int| !only_separator(line@, k) by {
                        if separator_at(line@, k) {
                            if k == f {
                                assert(separator_at(line@, at as int));
                            } else {
                                assert(separator_at(line@, f));
                            }
                        }
                    }
                }
                return None;
            }
            first = Some(at);
        }
        at += 1;
    }
    match first {
        Some(f) => {
            proof {
                assert(only_separator(line@, f as int));
                let chosen = choose|k: int| only_separator(line@, k);
                assert(chosen == f);
            }
            let name = slice(line, 0, f);
            let value = slice(line, f + 2, line.len());
            Some((name, value))
        },
        None => {
            proof {
                assert forall|k: int| !only_separator(line@, k) by {
                    if separator_at(line@, k) {
                        assert(0 <= k < at);
                    }
                }
            }
            None
        },
    }
}

/// `input` after the entry of `line`, if it holds one, was filled in.
fn fill_entry(input: Vec<char>, line: &Vec<char>) -> (out: Vec<char>)
    ensures
        out@ == fill_line(input@, line@),
{
    match parse_entry(line) {
        Some((name, value)) => {
            let mut from: Vec<char> = Vec::new();
            from.push('$');
            extend(&mut from, &name);
            assert(from@ == placeholder(name@));
            replace(&input, &from, &value)
        },
        None => input,
    }
}

/// `input` with the placeholders of every entry of `entries` replaced by
/// that entry's value.
pub fn fill(input: Vec<char>, entries: &Vec<char>) -> (out: Vec<char>)
    ensures
        out@ == render(input@, entries@),
{
    let ghost start = input@;
    let mut out = input;
    let mut from: usize = 0;
    assert(entries@.skip(0) == entries@);
    while from < entries.len()
        invariant
            from <= entries.len(),
            fill_lines(out@, lines(entries@.skip(from as int))) == render(start, entries@),
        decreases entries.len() - from,
    {
        let ghost rest = entries@.skip(from as int);
        let end = find_line_end(entries, from);
        proof {
            assert(rest.len() > 0);
            assert(rest.take(end - from) == entries@.subrange(from as int, end as int));
        }
        if end == entries.len() {
            let line = slice(entries, from, end);
            proof {
                assert(line@ == rest);
                assert(lines(rest) == seq![rest]);
                assert(lines(rest).skip(1) == Seq::<Seq<char>>::empty());
                assert(entries@.skip(end as int).len() == 0);
            }
            out = fill_entry(out, &line);
            from = end;
        } else {
            let stop = if end > from && entries[end - 1] == '\r' {
                end - 1
            } else {
                end
            };
            let line = slice(entries, from, stop);
            proof {
                let cut = rest.take(end - from);
                assert(cut.len() == end - from);
                if end > from {
                    assert(cut.last() == entries@[end - 1]);
                }
                assert(line@ == without_carriage_return(cut)) by {
                    if end > from && entries@[end - 1] == '\r' {
                        assert(cut.drop_last() == entries@.subrange(from as int, stop as int));
                    }
                }
                assert(rest.skip(end - from + 1) == entries@.skip(end + 1));
                let all = lines(rest);
                assert(all == seq![line@] + lines(entries@.skip(end + 1)));
                assert(all[0] == line@);
                assert(all.skip(1) == lines(entries@.skip(end + 1)));
            }
            out = fill_entry(out, &line);
            from = end + 1;
        }
    }
    proof {
        assert(entries@.skip(from as int).len() == 0);
    }
    out
}

/// Fills the placeholders of `input_string` with the entries of
/// `format_obj`.
pub fn fill_template<T: Template>(input_string: String, format_obj: &T) -> (out: String)
    ensures
        out@ == render(input_string@, format_obj.entries()),
{
    let entries = format_obj.to_template();
    let filled = fill(to_chars(input_string.as_str()), &to_chars(entries.as_str()));
    from_chars(&filled)
}


/// A text in which `from` occurs nowhere is left as it is.
pub proof fn lemma_replace_absent(hay: Seq<char>, from: Seq<char>, to: Seq<char>)
    requires
        forall|at: int| !occurs_at(hay, at, from),
    ensures
        replace_all(hay, from, to) == hay,
    decreases hay.len(),
{
    if from.len() > 0 && hay.len() > 0 {
        let rest = hay.skip(1);
        assert(!occurs_at(hay, 0, from));
        assert forall|at: int| !occurs_at(rest, at, from) by {
            if occurs_at(rest, at, from) {
                assert(rest.subrange(at, at + from.len()) == hay.subrange(
                    at + 1,
                    at + 1 + from.len(),
                ));
                assert(occurs_at(hay, at + 1, from));
            }
        }
        lemma_replace_absent(rest, from, to);
        assert(seq![hay[0]] + rest == hay);
    }
}

/// A placeholder that the entry of a line does not name, or that does not
/// stand in the text, is left as it is: filling in a line changes nothing
/// where the placeholder of its entry occurs nowhere.
pub proof fn lemma_unmatched_stays(input: Seq<char>, line: Seq<char>)
    requires
        entry(line) matches Some((name, _)) ==> forall|at: int|
            !occurs_at(input, at, placeholder(name)),
    ensures
        fill_line(input, line) == input,
{
    match entry(line) {
        Some((name, value)) => {
            lemma_replace_absent(input, placeholder(name), value);
        },
        None => {},
    }
}

/// The entries of a [`FormatObject`] fill in the charge: every
/// `$percentage` becomes the number, written in base ten, and nothing else
/// changes.
pub proof fn lemma_format_object_fills_percentage(input: Seq<char>, format_obj: FormatObject)
    ensures
        render(input, format_obj.entries()) == replace_all(
            input,
            "$percentage"@,
            decimal(format_obj.percentage as nat),
        ),
{
    reveal_strlit("percentage: ");
    reveal_strlit("$percentage");
    let number = decimal(format_obj.percentage as nat);
    lemma_decimal_digits(format_obj.percentage as nat);
    let head = "percentage: "@;
    let line = head + number;
    let text = format_obj.entries();
    assert(text == line + seq!['\n']);
    assert(head.len() == 12);
    let end = line.len() as int;
    assert forall|j: int| 0 <= j < end implies text[j] != '\n' by {
        if j >= 12 {
            assert(text[j] == number[j - 12]);
        } else {
            assert(text[j] == head[j]);
        }
    }
    lemma_line_end(text, end);
    assert(text.take(end) == line);
    assert(line.last() == number.last());
    assert(without_carriage_return(line) == line);
    assert(text.skip(end + 1).len() == 0);
    assert(lines(text.skip(end + 1)) == Seq::<Seq<char>>::empty());
    assert(lines(text) == seq![line]);
    assert(separator_at(line, 10));
    assert forall|other: int| separator_at(line, other) implies other == 10 by {
        if other >= 12 {
            assert(line[other] == number[other - 12]);
        } else if other == 11 {
            assert(line[12] == number[0]);
        } else {
            assert(line[other] == head[other]);
        }
    }
    assert(only_separator(line, 10));
    let chosen = choose|at: int| only_separator(line, at);
    assert(chosen == 10);
    assert(line.take(10) == "percentage"@) by {
        reveal_strlit("percentage");
        assert(line.take(10) =~= "percentage"@);
    }
    assert(line.skip(12) == number);
    assert(placeholder(line.take(10)) == "$percentage"@) by {
        reveal_strlit("percentage");
        assert(placeholder("percentage"@) =~= "$percentage"@);
    }
    assert(fill_line(input, line) == replace_all(input, "$percentage"@, number));
    assert(seq![line].skip(1) == Seq::<Seq<char>>::empty());
    assert(fill_lines(input, seq![line]) == fill_lines(fill_line(input, line), seq![line].skip(1)));
}


} // verus!
