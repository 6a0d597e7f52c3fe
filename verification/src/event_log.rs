//! Measurement records, the event log they form, and the textual grammars
//! from which a log is read.

use vstd::prelude::*;
use vstd::string::*;
use vstd::utf8::*;
use crate::text::{first_at, ascii_len, find_byte};

verus! {

/// One named measurement at its position in the log.
#[derive(Clone, Debug, PartialEq, Eq)]
pub struct MeasurementRecord {
    pub name: String,
    pub value: String,
    pub ordinal: usize,
}

/// What a measurement record says.
pub struct RecordModel {
    pub name: Seq<char>,
    pub value: Seq<char>,
    pub ordinal: nat,
}

impl View for MeasurementRecord {
    type V = RecordModel;

    open spec fn view(&self) -> RecordModel {
        RecordModel { name: self.name@, value: self.value@, ordinal: self.ordinal as nat }
    }
}

/// The ordered measurements taken from one piece of evidence, with the time
/// the evidence states, if it states one.
#[derive(Clone, Debug, PartialEq, Eq)]
pub struct EventLog {
    pub records: Vec<MeasurementRecord>,
    pub timestamp: Option<u64>,
}

/// What an event log says.
pub struct LogModel {
    pub records: Seq<RecordModel>,
    pub timestamp: Option<u64>,
}

/// The views of `records`, in order.
pub open spec fn record_models(records: Seq<MeasurementRecord>) -> Seq<RecordModel> {
    Seq::new(records.len(), |i: int| records[i]@)
}

impl View for EventLog {
    type V = LogModel;

    open spec fn view(&self) -> LogModel {
        LogModel { records: record_models(self.records@), timestamp: self.timestamp }
    }
}

/// Whether each record of `records` carries its own index as ordinal.
pub open spec fn numbered_in_order(records: Seq<RecordModel>) -> bool {
    forall|i: int| 0 <= i < records.len() ==> (#[trigger] records[i]).ordinal == i
}

/// The records that `entries`, pairs of name and value, form in that order.
pub open spec fn numbered(entries: Seq<(Seq<char>, Seq<char>)>) -> Seq<RecordModel> {
    Seq::new(
        entries.len(),
        |i: int| RecordModel { name: entries[i].0, value: entries[i].1, ordinal: i as nat },
    )
}

impl EventLog {
    /// Whether the ordinals count the records from zero.
    pub open spec fn wf(&self) -> bool {
        numbered_in_order(self@.records)
    }

    /// A log without records.
    pub fn new(timestamp: Option<u64>) -> (log: EventLog)
        ensures
            log.wf(),
            log@.records.len() == 0,
            log@.timestamp == timestamp,
    {
        EventLog { records: Vec::new(), timestamp }
    }

    /// Appends a measurement; its ordinal is the number of records before it.
    pub fn push(&mut self, name: String, value: String)
        requires
            old(self).wf(),
        ensures
            final(self).wf(),
            final(self)@.timestamp == old(self)@.timestamp,
            final(self)@.records == old(self)@.records.push(
                RecordModel {
                    name: name@,
                    value: value@,
                    ordinal: old(self)@.records.len(),
                },
            ),
    {
        let ordinal: usize = self.records.len();
        let ghost added = RecordModel { name: name@, value: value@, ordinal: ordinal as nat };
        self.records.push(MeasurementRecord { name, value, ordinal });
        assert(self@.records =~= old(self)@.records.push(added));
    }
}

/// The name and value that one piece of a log states: the piece is cut at
/// its first `delim`, both sides must hold something, and `value_first`
/// tells which side is the value.
pub open spec fn entry_of(piece: Seq<char>, delim: char, value_first: bool) -> Option<
    (Seq<char>, Seq<char>),
> {
    let k = first_at(piece, delim) as int;
    if 0 < k && k + 1 < piece.len() {
        let left = piece.take(k);
        let right = piece.skip(k + 1);
        if value_first {
            Some((right, left))
        } else {
            Some((left, right))
        }
    } else {
        None
    }
}

/// `tail` with `head` in front of it, where there is a tail.
pub open spec fn prepend<A>(head: Seq<A>, tail: Option<Seq<A>>) -> Option<Seq<A>> {
    match tail {
        Some(t) => Some(head + t),
        None => None,
    }
}

/// The entries that a non-empty text states: its pieces between `sep`, each
/// read by `entry_of`. One piece that states no entry spoils the whole text.
pub open spec fn entries_of(text: Seq<char>, sep: char, delim: char, value_first: bool) -> Option<
    Seq<(Seq<char>, Seq<char>)>,
>
    decreases text.len(),
{
    let k = first_at(text, sep) as int;
    match entry_of(text.take(k), delim, value_first) {
        None => None,
        Some(entry) => if k < text.len() {
            prepend(seq![entry], entries_of(text.skip(k + 1), sep, delim, value_first))
        } else {
            Some(seq![entry])
        },
    }
}

/// The records that a log text states. The empty text states the empty log;
/// a text that is not ASCII states none.
pub open spec fn records_of(text: Seq<char>, sep: char, delim: char, value_first: bool) -> Option<
    Seq<RecordModel>,
> {
    if !is_ascii_chars(text) {
        None
    } else if text.len() == 0 {
        Some(Seq::empty())
    } else {
        match entries_of(text, sep, delim, value_first) {
            Some(entries) => Some(numbered(entries)),
            None => None,
        }
    }
}

/// Reads the records of a log text in which `sep` stands between the
/// records and `delim` between the two sides of each.
pub fn read_records(text: &str, sep: u8, delim: u8, value_first: bool) -> (r: Option<
    Vec<MeasurementRecord>,
>)
    requires
        sep < 128,
        delim < 128,
    ensures
        match r {
            Some(records) => records_of(text@, sep as char, delim as char, value_first) == Some(
                record_models(records@),
            ),
            None => records_of(text@, sep as char, delim as char, value_first) is None,
        },
{
    let mut records: Vec<MeasurementRecord> = Vec::new();
    if !text.is_ascii() {
        return None;
    }
    let n: usize = ascii_len(text);
    if n == 0 {
        assert(record_models(records@) =~= Seq::empty());
        return Some(records);
    }
    let mut start: usize = 0;
    let ghost mut entries: Seq<(Seq<char>, Seq<char>)> = Seq::empty();
    assert(text@.skip(0) =~= text@);
    assert(record_models(records@) =~= numbered(entries));
    loop
        invariant
            text.is_ascii(),
            n == text@.len(),
            0 < n,
            start <= n,
            sep < 128,
            delim < 128,
            entries_of(text@, sep as char, delim as char, value_first) == prepend(
                entries,
                entries_of(text@.skip(start as int), sep as char, delim as char, value_first),
            ),
            record_models(records@) == numbered(entries),
            records@.len() == entries.len(),
        decreases n - start,
    {
        let end: usize = find_byte(text, start, n, sep);
        let mid: usize = find_byte(text, start, end, delim);
        let ghost rest = text@.skip(start as int);
        let ghost piece = text@.subrange(start as int, end as int);
        proof {
            assert(rest =~= text@.subrange(start as int, n as int));
            assert(rest.take(end - start) =~= piece);
            if end < n {
                assert(rest.skip(end - start + 1) =~= text@.skip(end + 1));
            }
        }
        if mid <= start || mid >= end || mid + 1 >= end {
            proof {
                assert(entry_of(piece, delim as char, value_first) is None);
                assert(entries_of(rest, sep as char, delim as char, value_first) is None);
            }
            return None;
        }
        let left: &str = text.substring_ascii(start, mid);
        let right: &str = text.substring_ascii(mid + 1, end);
        proof {
            assert(piece.take(mid - start) =~= left@);
            assert(piece.skip(mid - start + 1) =~= right@);
        }
        let ordinal: usize = records.len();
        let ghost before = records@;
        let ghost entry = if value_first {
            (right@, left@)
        } else {
            (left@, right@)
        };
        if value_first {
            records.push(
                MeasurementRecord { name: right.to_owned(), value: left.to_owned(), ordinal },
            );
        } else {
            records.push(
                MeasurementRecord { name: left.to_owned(), value: right.to_owned(), ordinal },
            );
        }
        proof {
            assert(entry_of(piece, delim as char, value_first) == Some(entry));
            assert(records@ =~= before.push(records@[ordinal as int]));
            assert forall|i: int| 0 <= i < records@.len() implies record_models(records@)[i]
                == numbered(entries.push(entry))[i] by {
                if i < ordinal {
                    assert(record_models(before)[i] == numbered(entries)[i]);
                }
            }
            assert(record_models(records@) =~= numbered(entries.push(entry)));
            let tail = entries_of(text@.skip(end + 1), sep as char, delim as char, value_first);
            if end < n {
                assert(entries_of(rest, sep as char, delim as char, value_first) == prepend(
                    seq![entry],
                    tail,
                ));
                if let Some(t) = tail {
                    assert(entries + (seq![entry] + t) =~= entries.push(entry) + t);
                }
            } else {
                assert(entries + seq![entry] =~= entries.push(entry));
            }
            entries = entries.push(entry);
        }
        if end == n {
            return Some(records);
        }
        start = end + 1;
    }
}

} // verus!
