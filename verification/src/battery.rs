//! Which of the batteries of the machine is watched.
//!
//! The caller lists the batteries and says of each what could be read of it.
//! The choice is made here, over that list.

use vstd::prelude::*;
use crate::config::text_of;
use crate::text::{extend_str, from_chars, same, slice, to_chars};

verus! {

/// Whether a character is white space: the characters with the Unicode
/// property `White_Space`.
pub open spec fn is_white_space(c: char) -> bool {
    ||| ('\u{9}' <= c && c <= '\u{d}')
    ||| c == ' '
    ||| c == '\u{85}'
    ||| c == '\u{a0}'
    ||| c == '\u{1680}'
    ||| ('\u{2000}' <= c && c <= '\u{200a}')
    ||| c == '\u{2028}'
    ||| c == '\u{2029}'
    ||| c == '\u{202f}'
    ||| c == '\u{205f}'
    ||| c == '\u{3000}'
}

/// `s` without the white space that it starts with.
pub open spec fn trim_start(s: Seq<char>) -> Seq<char>
    decreases s.len(),
{
    if s.len() > 0 && is_white_space(s[0]) {
        trim_start(s.skip(1))
    } else {
        s
    }
}

/// `s` without the white space that it ends with.
pub open spec fn trim_end(s: Seq<char>) -> Seq<char>
    decreases s.len(),
{
    if s.len() > 0 && is_white_space(s.last()) {
        trim_end(s.drop_last())
    } else {
        s
    }
}

/// `s` without the white space around it.
pub open spec fn trimmed(s: Seq<char>) -> Seq<char> {
    trim_end(trim_start(s))
}

/// What could be read of one battery.
#[derive(Debug, PartialEq, Eq)]
pub enum Probe {
    /// The battery could not be read, for this reason.
    Unreadable { reason: String },
    /// The battery was read; it may report a serial number.
    Readable { serial_number: Option<String> },
}

/// What a [`Probe`] holds.
pub enum ProbeView {
    Unreadable { reason: Seq<char> },
    Readable { serial_number: Option<Seq<char>> },
}

impl View for Probe {
    type V = ProbeView;

    open spec fn view(&self) -> ProbeView {
        match self {
            Probe::Unreadable { reason } => ProbeView::Unreadable { reason: reason@ },
            Probe::Readable { serial_number } => ProbeView::Readable {
                serial_number: text_of(*serial_number),
            },
        }
    }
}

/// What each of the given probes holds.
pub open spec fn probe_views(probes: Seq<Probe>) -> Seq<ProbeView> {
    probes.map_values(|p: Probe| p@)
}

/// Why no battery was chosen.
#[derive(Debug, PartialEq, Eq)]
pub enum PickError {
    /// A serial number was asked for, and a battery that came before any
    /// match could not be read.
    Access,
    /// A serial number was asked for, and a battery that came before any
    /// match reports none.
    NoSerialNumber,
    /// No battery has the serial number that was asked for.
    NotFound(String),
    /// The machine has no battery.
    NoBattery,
    /// The first battery could not be read, for this reason.
    Unreadable(String),
}

/// What a [`PickError`] holds.
pub enum PickErrorView {
    Access,
    NoSerialNumber,
    NotFound(Seq<char>),
    NoBattery,
    Unreadable(Seq<char>),
}

impl View for PickError {
    type V = PickErrorView;

    open spec fn view(&self) -> PickErrorView {
        match self {
            PickError::Access => PickErrorView::Access,
            PickError::NoSerialNumber => PickErrorView::NoSerialNumber,
            PickError::NotFound(serial) => PickErrorView::NotFound(serial@),
            PickError::NoBattery => PickErrorView::NoBattery,
            PickError::Unreadable(reason) => PickErrorView::Unreadable(reason@),
        }
    }
}

/// The words of a [`PickError`].
pub open spec fn pick_error_message(error: PickErrorView) -> Seq<char> {
    match error {
        PickErrorView::Access => "Failed to access battery"@,
        PickErrorView::NoSerialNumber => "Failed to get serial number from battery"@,
        PickErrorView::NotFound(serial) => "Failed to find battery with serial number '"@ + serial
            + "'"@,
        PickErrorView::NoBattery => "Failed to access battery information"@,
        PickErrorView::Unreadable(reason) => reason,
    }
}

impl PickError {
    /// The error in words.
    pub fn message(&self) -> (text: String)
        ensures
            text@ == pick_error_message(self@),
    {
        match self {
            PickError::Access => String::from_str("Failed to access battery"),
            PickError::NoSerialNumber => String::from_str(
                "Failed to get serial number from battery",
            ),
            PickError::NotFound(serial) => {
                let mut text: Vec<char> = Vec::new();
                extend_str(&mut text, "Failed to find battery with serial number '");
                extend_str(&mut text, serial.as_str());
                extend_str(&mut text, "'");
                from_chars(&text)
            },
            PickError::NoBattery => String::from_str("Failed to access battery information"),
            PickError::Unreadable(reason) => reason.clone(),
        }
    }
}

/// The search for a serial number from position `from` on. The batteries are
/// looked at in their order; the first that cannot be read, reports no serial
/// number or reports the one asked for ends the search.
pub open spec fn search(probes: Seq<ProbeView>, serial: Seq<char>, from: int) -> Result<
    int,
    PickErrorView,
>
    decreases probes.len() - from,
{
    if from < 0 || from >= probes.len() {
        Err(PickErrorView::NotFound(serial))
    } else {
        match probes[from] {
            ProbeView::Unreadable { .. } => Err(PickErrorView::Access),
            ProbeView::Readable { serial_number: None } => Err(PickErrorView::NoSerialNumber),
            ProbeView::Readable { serial_number: Some(found) } => if trimmed(found) == serial {
                Ok(from)
            } else {
                search(probes, serial, from + 1)
            },
        }
    }
}

/// The battery that is watched: with a serial number, the first battery that
/// reports it, white space around the report aside; without one, the first
/// battery.
pub open spec fn picked(probes: Seq<ProbeView>, serial: Option<Seq<char>>) -> Result<
    int,
    PickErrorView,
> {
    match serial {
        Some(serial) => search(probes, serial, 0),
        None => if probes.len() == 0 {
            Err(PickErrorView::NoBattery)
        } else {
            match probes[0] {
                ProbeView::Unreadable { reason } => Err(PickErrorView::Unreadable(reason)),
                ProbeView::Readable { .. } => Ok(0),
            }
        },
    }
}

fn white_space(c: char) -> (r: bool)
    ensures
        r == is_white_space(c),
{
    ('\u{9}' <= c && c <= '\u{d}') || c == ' ' || c == '\u{85}' || c == '\u{a0}' || c
        == '\u{1680}' || ('\u{2000}' <= c && c <= '\u{200a}') || c == '\u{2028}' || c
        == '\u{2029}' || c == '\u{202f}' || c == '\u{205f}' || c == '\u{3000}'
}

proof fn lemma_trim_start(s: Seq<char>, start: int)
    requires
        0 <= start <= s.len(),
        forall|j: int| 0 <= j < start ==> is_white_space(s[j]),
        start == s.len() || !is_white_space(s[start]),
    ensures
        trim_start(s) == s.skip(start),
    decreases start,
{
    if start > 0 {
        let rest = s.skip(1);
        assert forall|j: int| 0 <= j < start - 1 implies is_white_space(rest[j]) by {
            assert(rest[j] == s[j + 1]);
        }
        lemma_trim_start(rest, start - 1);
        assert(rest.skip(start - 1) == s.skip(start));
    } else {
        assert(s.skip(0) == s);
    }
}

proof fn lemma_trim_end(s: Seq<char>, end: int)
    requires
        0 <= end <= s.len(),
        forall|j: int| end <= j < s.len() ==> is_white_space(s[j]),
        end == 0 || !is_white_space(s[end - 1]),
    ensures
        trim_end(s) == s.take(end),
    decreases s.len() - end,
{
    if end < s.len() {
        let front = s.drop_last();
        lemma_trim_end(front, end);
        assert(front.take(end) == s.take(end));
    } else {
        assert(s.take(end) == s);
    }
}

/// `s` without the white space around it.
pub fn trim(s: &Vec<char>) -> (out: Vec<char>)
    ensures
        out@ == trimmed(s@),
{
    let mut start: usize = 0;
    while start < s.len() && white_space(s[start])
        invariant
            start <= s.len(),
            forall|j: int| 0 <= j < start ==> is_white_space(s@[j]),
        decreases s.len() - start,
    {
        start += 1;
    }
    let mut end: usize = s.len();
    while end > start && white_space(s[end - 1])
        invariant
            start <= end <= s.len(),
            forall|j: int| end <= j < s.len() ==> is_white_space(s@[j]),
        decreases end,
    {
        end -= 1;
    }
    proof {
        lemma_trim_start(s@, start as int);
        let rest = s@.skip(start as int);
        assert forall|j: int| end - start <= j < rest.len() implies is_white_space(rest[j]) by {
            assert(rest[j] == s@[start + j]);
        }
        if end > start {
            assert(rest[end - start - 1] == s@[end - 1]);
        }
        lemma_trim_end(rest, end - start);
        assert(rest.take(end - start) == s@.subrange(start as int, end as int));
    }
    slice(s, start, end)
}

/// Chooses the battery to watch among those of the machine, given in the
/// order in which the machine lists them. Returns its position.
pub fn pick_battery(batteries: &Vec<Probe>, serial_number: Option<&str>) -> (choice: Result<
    usize,
    PickError,
>)
    ensures
        match choice {
            Ok(index) => picked(
                probe_views(batteries@),
                match serial_number {
                    Some(serial) => Some(serial@),
                    None => None,
                },
            ) == Ok::<int, PickErrorView>(index as int) && index < batteries@.len(),
            Err(error) => picked(
                probe_views(batteries@),
                match serial_number {
                    Some(serial) => Some(serial@),
                    None => None,
                },
            ) == Err::<int, PickErrorView>(error@),
        },
{
    match serial_number {
        Some(serial) => {
            let wanted = to_chars(serial);
            let mut index: usize = 0;
            while index < batteries.len()
                invariant
                    index <= batteries.len(),
                    serial_number == Some(serial),
                    wanted@ == serial@,
                    search(probe_views(batteries@), serial@, index as int) == search(
                        probe_views(batteries@),
                        serial@,
                        0,
                    ),
                decreases batteries.len() - index,
            {
                assert(probe_views(batteries@)[index as int] == batteries@[index as int]@);
                match &batteries[index] {
                    Probe::Unreadable { .. } => {
                        return Err(PickError::Access);
                    },
                    Probe::Readable { serial_number: None } => {
                        return Err(PickError::NoSerialNumber);
                    },
                    Probe::Readable { serial_number: Some(found) } => {
                        let found = trim(&to_chars(found.as_str()));
                        if same(&found, &wanted) {
                            return Ok(index);
                        }
                    },
                }
                index += 1;
            }
            Err(PickError::NotFound(String::from_str(serial)))
        },
        None => {
            if batteries.len() == 0 {
                Err(PickError::NoBattery)
            } else {
                assert(probe_views(batteries@)[0] == batteries@[0]@);
                match &batteries[0] {
                    Probe::Unreadable { reason } => Err(PickError::Unreadable(reason.clone())),
                    Probe::Readable { .. } => Ok(0),
                }
            }
        },
    }
}

/// A search that succeeds stops at the first battery that reports the serial
/// number: every battery before it was read and reports another one.
pub proof fn lemma_search_finds_first(probes: Seq<ProbeView>, serial: Seq<char>, from: int, index: int)
    requires
        0 <= from,
        search(probes, serial, from) == Ok::<int, PickErrorView>(index),
    ensures
        from <= index < probes.len(),
        probes[index] matches ProbeView::Readable { serial_number: Some(found) } && trimmed(found)
            == serial,
        forall|j: int|
            from <= j < index ==> (#[trigger] probes[j] matches ProbeView::Readable {
                serial_number: Some(found),
            } && trimmed(found) != serial),
    decreases probes.len() - from,
{
    if from < probes.len() {
        match probes[from] {
            ProbeView::Readable { serial_number: Some(found) } => {
                if trimmed(found) != serial {
                    lemma_search_finds_first(probes, serial, from + 1, index);
                }
            },
            _ => {},
        }
    }
}

/// A search that ended on the batteries seen so far, with a match or with a
/// battery that stops it, ends the same way whatever batteries follow. Only
/// a search that found nothing depends on the batteries that are still to
/// come.
pub proof fn lemma_search_stands(
    probes: Seq<ProbeView>,
    more: Seq<ProbeView>,
    serial: Seq<char>,
    from: int,
)
    requires
        0 <= from,
        search(probes, serial, from) != Err::<int, PickErrorView>(PickErrorView::NotFound(serial)),
    ensures
        search(probes + more, serial, from) == search(probes, serial, from),
    decreases probes.len() - from,
{
    if from < probes.len() {
        assert((probes + more)[from] == probes[from]);
        match probes[from] {
            ProbeView::Readable { serial_number: Some(found) } => {
                if trimmed(found) != serial {
                    lemma_search_stands(probes, more, serial, from + 1);
                }
            },
            _ => {},
        }
    }
}

/// Without a serial number the first battery decides: the choice made on a
/// list that is not empty stands whatever batteries follow.
pub proof fn lemma_first_battery_stands(probes: Seq<ProbeView>, more: Seq<ProbeView>)
    requires
        probes.len() > 0,
    ensures
        picked(probes + more, None) == picked(probes, None),
{
    assert((probes + more)[0] == probes[0]);
}


} // verus!
