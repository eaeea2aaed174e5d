//! The data that the renderer reads and writes: records, their attributes,
//! and finished lines.

use crate::text::{
    digit_count, lemma_zero_padded_len, push_char, push_zero_padded, str_eq, zero_padded,
};
use slog::{Key, Level};
use vstd::prelude::*;

verus! {

/// The moment at which a record was made, in local time, down to the
/// microsecond. The year is not printed and so not kept.
#[derive(Clone, Copy, Debug, PartialEq, Eq)]
pub struct Timestamp {
    pub month: u8,
    pub day: u8,
    pub hour: u8,
    pub minute: u8,
    pub second: u8,
    pub micros: u32,
}

impl Timestamp {
    /// Every field lies in its calendar or clock range.
    pub open spec fn in_range(self) -> bool {
        &&& 1 <= self.month <= 12
        &&& 1 <= self.day <= 31
        &&& self.hour < 24
        &&& self.minute < 60
        &&& self.second < 60
        &&& self.micros < 1_000_000
    }

    /// The printed form: `MMDD HH:MM:SS.ffffff`, every field zero-padded.
    pub open spec fn text(self) -> Seq<char> {
        zero_padded(self.month as nat, 2) + zero_padded(self.day as nat, 2) + seq![' ']
            + zero_padded(self.hour as nat, 2) + seq![':'] + zero_padded(self.minute as nat, 2)
            + seq![':'] + zero_padded(self.second as nat, 2) + seq!['.'] + zero_padded(
            self.micros as nat,
            6,
        )
    }

    /// Decides whether every field lies in its range.
    pub fn is_in_range(&self) -> (ok: bool)
        ensures
            ok == self.in_range(),
    {
        1 <= self.month && self.month <= 12 && 1 <= self.day && self.day <= 31 && self.hour < 24
            && self.minute < 60 && self.second < 60 && self.micros < 1_000_000
    }

    /// Appends the printed form to `out`.
    pub fn write_to(&self, out: &mut String)
        ensures
            final(out)@ == old(out)@ + self.text(),
    {
        push_zero_padded(out, self.month as u64, 2);
        push_zero_padded(out, self.day as u64, 2);
        push_char(out, ' ');
        push_zero_padded(out, self.hour as u64, 2);
        push_char(out, ':');
        push_zero_padded(out, self.minute as u64, 2);
        push_char(out, ':');
        push_zero_padded(out, self.second as u64, 2);
        push_char(out, '.');
        push_zero_padded(out, self.micros as u64, 6);
        assert(out@ =~= old(out)@ + self.text());
    }
}

/// The printed form of a timestamp whose fields lie in their ranges is twenty
/// characters long, whatever the moment.
pub proof fn lemma_timestamp_width(timestamp: Timestamp)
    requires
        timestamp.in_range(),
    ensures
        timestamp.text().len() == 20,
{
    reveal_with_fuel(digit_count, 7);
    lemma_zero_padded_len(timestamp.month as nat, 2);
    lemma_zero_padded_len(timestamp.day as nat, 2);
    lemma_zero_padded_len(timestamp.hour as nat, 2);
    lemma_zero_padded_len(timestamp.minute as nat, 2);
    lemma_zero_padded_len(timestamp.second as nat, 2);
    lemma_zero_padded_len(timestamp.micros as nat, 6);
}

/// Where a record comes from: the thread that made it and the place in the
/// source.
#[derive(Clone, Debug, PartialEq, Eq)]
pub struct Location {
    pub thread_id: u64,
    pub file: String,
    pub line: u32,
}

/// A `Location` as plain values.
pub struct LocationView {
    pub thread_id: u64,
    pub file: Seq<char>,
    pub line: u32,
}

impl View for Location {
    type V = LocationView;

    open spec fn view(&self) -> LocationView {
        LocationView { thread_id: self.thread_id, file: self.file@, line: self.line }
    }
}

impl Location {
    /// A copy with the same thread, file and line.
    pub fn duplicate(&self) -> (copy: Location)
        ensures
            copy@ == self@,
    {
        Location { thread_id: self.thread_id, file: self.file.clone(), line: self.line }
    }
}

/// One key-value pair of a record. `value` is the display text of the value;
/// `None` stands for a value that could not be turned into text.
#[derive(Clone, Debug, PartialEq, Eq)]
pub struct Attribute {
    pub key: Key,
    pub value: Option<String>,
}

/// The text of a value as plain characters, where it has one.
pub open spec fn value_view(value: Option<String>) -> Option<Seq<char>> {
    match value {
        Some(text) => Some(text@),
        None => None,
    }
}

/// An `Attribute` as plain values.
pub struct AttributeView {
    pub key: Seq<char>,
    pub value: Option<Seq<char>>,
}

impl View for Attribute {
    type V = AttributeView;

    open spec fn view(&self) -> AttributeView {
        AttributeView { key: self.key@, value: value_view(self.value) }
    }
}

/// One log record: when, how severe, what was said, where, and the
/// attributes in the order in which the caller gave them.
#[derive(Clone, Debug, PartialEq, Eq)]
pub struct Record {
    pub timestamp: Timestamp,
    pub level: Level,
    pub message: String,
    pub location: Location,
    pub attributes: Vec<Attribute>,
}

/// A `Record` as plain values.
pub struct RecordView {
    pub timestamp: Timestamp,
    pub level: Level,
    pub message: Seq<char>,
    pub location: LocationView,
    pub attributes: Seq<AttributeView>,
}

impl View for Record {
    type V = RecordView;

    open spec fn view(&self) -> RecordView {
        RecordView {
            timestamp: self.timestamp,
            level: self.level,
            message: self.message@,
            location: self.location@,
            attributes: self.attributes@.map_values(|a: Attribute| a@),
        }
    }
}

impl RecordView {
    /// No key occurs twice among the attributes.
    pub open spec fn has_unique_keys(self) -> bool {
        forall|i: int, j: int|
            0 <= i < j < self.attributes.len() ==> self.attributes[i].key
                != self.attributes[j].key
    }
}

impl Record {
    /// Decides whether no key occurs twice among the attributes.
    pub fn keys_are_unique(&self) -> (unique: bool)
        ensures
            unique == self@.has_unique_keys(),
    {
        let count: usize = self.attributes.len();
        let mut j: usize = 0;
        while j < count
            invariant
                j <= count,
                count == self.attributes.len(),
                forall|a: int, b: int|
                    0 <= a < b < j ==> self@.attributes[a].key != self@.attributes[b].key,
            decreases count - j,
        {
            let mut i: usize = 0;
            while i < j
                invariant
                    i <= j,
                    j < count,
                    count == self.attributes.len(),
                    forall|a: int|
                        0 <= a < i ==> self@.attributes[a].key != self@.attributes[j as int].key,
                decreases j - i,
            {
                if str_eq(self.attributes[i].key, self.attributes[j].key) {
                    assert(self@.attributes[i as int].key == self@.attributes[j as int].key);
                    return false;
                }
                i = i + 1;
            }
            j = j + 1;
        }
        true
    }
}

/// One finished line: the unit that is written to the sink. `text` is what
/// follows the prefix of level, time and place.
#[derive(Clone, Debug, PartialEq, Eq)]
pub struct RenderedLine {
    pub level: Level,
    pub timestamp: Timestamp,
    pub location: Location,
    pub text: String,
}

/// A `RenderedLine` as plain values.
pub struct LineView {
    pub level: Level,
    pub timestamp: Timestamp,
    pub location: LocationView,
    pub text: Seq<char>,
}

impl View for RenderedLine {
    type V = LineView;

    open spec fn view(&self) -> LineView {
        LineView {
            level: self.level,
            timestamp: self.timestamp,
            location: self.location@,
            text: self.text@,
        }
    }
}

/// The lines of a vector as plain values, in the same order.
pub open spec fn line_views(lines: Seq<RenderedLine>) -> Seq<LineView> {
    lines.map_values(|line: RenderedLine| line@)
}

} // verus!
