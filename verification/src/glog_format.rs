//! The renderer: from one record to its lines, in the layout of glog.
//!
//! Rendering has two steps. The categorizer is asked once about each
//! attribute, which gives the attribute its placement. Then the lines are
//! laid out: one primary line, which carries the message and every inlined
//! attribute, and one secondary line for each attribute that has a level of
//! its own which the filter lets pass.

use crate::kv_categorizer::{KVCategorizer, KVCategory};
use crate::level::{level_letter, passes, severity_letter};
use crate::record::{
    line_views, value_view, Attribute, LineView, Record, RecordView, RenderedLine,
};
use crate::text::{decimal, push_char, push_decimal};
use slog::{FilterLevel, Key, Level};
use vstd::prelude::*;

verus! {

/// Where an attribute goes, and under which name: the two answers of a
/// categorizer, taken together.
#[derive(Clone, Copy, Debug, PartialEq, Eq)]
pub enum Placement {
    /// The attribute is not printed.
    Dropped,
    /// The attribute goes on the primary line, as `name=value`.
    Inline { name: &'static str },
    /// The attribute goes on a line of its own, as `name: value`.
    OwnLine { level: Level, name: &'static str },
}

/// A `Placement` as plain values.
pub enum PlacementView {
    Dropped,
    Inline { name: Seq<char> },
    OwnLine { level: Level, name: Seq<char> },
}

impl View for Placement {
    type V = PlacementView;

    open spec fn view(&self) -> PlacementView {
        match *self {
            Placement::Dropped => PlacementView::Dropped,
            Placement::Inline { name } => PlacementView::Inline { name: name@ },
            Placement::OwnLine { level, name } => PlacementView::OwnLine { level, name: name@ },
        }
    }
}

/// The placement that a category and a name amount to.
pub open spec fn placement_for(category: KVCategory, name: Seq<char>) -> PlacementView {
    match category {
        KVCategory::Ignore => PlacementView::Dropped,
        KVCategory::Inline => PlacementView::Inline { name },
        KVCategory::LevelLog(level) => PlacementView::OwnLine { level, name },
    }
}

/// The value of an attribute together with its placement: all that the
/// layout of the lines reads of an attribute.
#[derive(Clone, Copy, Debug, PartialEq, Eq)]
pub struct Placed<'a> {
    pub placement: Placement,
    pub value: &'a Option<String>,
}

/// A `Placed` as plain values.
pub struct PlacedView {
    pub placement: PlacementView,
    pub value: Option<Seq<char>>,
}

impl<'a> View for Placed<'a> {
    type V = PlacedView;

    open spec fn view(&self) -> PlacedView {
        PlacedView { placement: self.placement@, value: value_view(*self.value) }
    }
}

/// The placed attributes of a vector as plain values, in the same order.
pub open spec fn placed_views(placed: Seq<Placed>) -> Seq<PlacedView> {
    placed.map_values(|one: Placed| one@)
}

/// What is printed in place of a value that has no display text.
pub open spec fn placeholder_text() -> Seq<char> {
    "<unprintable>"@
}

/// The text of a value: its own, or the placeholder.
pub open spec fn value_text(value: Option<Seq<char>>) -> Seq<char> {
    match value {
        Some(text) => text,
        None => placeholder_text(),
    }
}

/// What one attribute adds to the primary line: ` name=value` if it is
/// inlined, nothing otherwise.
pub open spec fn inline_piece(attribute: PlacedView) -> Seq<char> {
    match attribute.placement {
        PlacementView::Inline { name } => seq![' '] + name + seq!['='] + value_text(
            attribute.value,
        ),
        _ => Seq::empty(),
    }
}

/// What the attributes add to the primary line, in their own order.
pub open spec fn inline_text(attributes: Seq<PlacedView>) -> Seq<char>
    decreases attributes.len(),
{
    if attributes.len() == 0 {
        Seq::empty()
    } else {
        inline_text(attributes.drop_last()) + inline_piece(attributes.last())
    }
}

/// The primary line of a record: its message, then the inlined attributes.
/// It has the level, the time and the place of the record.
pub open spec fn primary_line(record: RecordView, attributes: Seq<PlacedView>) -> LineView {
    LineView {
        level: record.level,
        timestamp: record.timestamp,
        location: record.location,
        text: record.message + inline_text(attributes),
    }
}

/// The secondary line of one attribute: `name: value` at the attribute's own
/// level, with the time and place of the record, if the attribute has such a
/// level and the filter lets it pass; no line otherwise.
pub open spec fn own_line(record: RecordView, filter: FilterLevel, attribute: PlacedView) -> Option<
    LineView,
> {
    match attribute.placement {
        PlacementView::OwnLine { level, name } => if passes(filter, level) {
            Some(
                LineView {
                    level,
                    timestamp: record.timestamp,
                    location: record.location,
                    text: name + seq![':', ' '] + value_text(attribute.value),
                },
            )
        } else {
            None
        },
        _ => None,
    }
}

/// The secondary lines that a run of attributes gives, in the attributes'
/// own order.
pub open spec fn secondary_lines(
    record: RecordView,
    filter: FilterLevel,
    attributes: Seq<PlacedView>,
) -> Seq<LineView>
    decreases attributes.len(),
{
    if attributes.len() == 0 {
        Seq::empty()
    } else {
        let earlier = secondary_lines(record, filter, attributes.drop_last());
        match own_line(record, filter, attributes.last()) {
            Some(line) => earlier.push(line),
            None => earlier,
        }
    }
}

/// All the lines of a record whose attributes have been placed: the primary
/// line, then the secondary lines. Of `record`, the attributes are not read:
/// `attributes` stands for them.
pub open spec fn rendered(
    record: RecordView,
    filter: FilterLevel,
    attributes: Seq<PlacedView>,
) -> Seq<LineView> {
    seq![primary_line(record, attributes)] + secondary_lines(record, filter, attributes)
}

/// The prefix of a line: the letter of its level, the time, the thread, and
/// `file:line] `.
pub open spec fn line_prefix(line: LineView) -> Seq<char> {
    seq![level_letter(line.level)] + line.timestamp.text() + seq![' '] + decimal(
        line.location.thread_id as nat,
    ) + seq![' '] + line.location.file + seq![':'] + decimal(line.location.line as nat) + seq![
        ']',
        ' ',
    ]
}

/// A line as it is written: the prefix, then the text.
pub open spec fn line_text(line: LineView) -> Seq<char> {
    line_prefix(line) + line.text
}

/// A group of lines as it is written to the sink in one piece: each line as
/// it is written, closed by a line feed, in order.
pub open spec fn group_text(lines: Seq<LineView>) -> Seq<char>
    decreases lines.len(),
{
    if lines.len() == 0 {
        Seq::empty()
    } else {
        group_text(lines.drop_last()) + line_text(lines.last()) + seq!['\n']
    }
}

/// `placement` is an answer of the categorizer on `key`: the category that
/// `categorize` gave and, unless that is `Ignore`, the name that `name` gave.
pub open spec fn answered_by<C: KVCategorizer>(
    categorizer: &C,
    key: Key,
    placement: Placement,
) -> bool {
    match placement {
        Placement::Dropped => call_ensures(C::categorize, (categorizer, key), KVCategory::Ignore),
        Placement::Inline { name } => call_ensures(
            C::categorize,
            (categorizer, key),
            KVCategory::Inline,
        ) && call_ensures(C::name, (categorizer, key), name),
        Placement::OwnLine { level, name } => call_ensures(
            C::categorize,
            (categorizer, key),
            KVCategory::LevelLog(level),
        ) && call_ensures(C::name, (categorizer, key), name),
    }
}

/// `placed` is a classification of `attributes` by the categorizer: each
/// attribute, in order, with its value and with an answer of the categorizer
/// on its key.
pub open spec fn classified_by<C: KVCategorizer>(
    categorizer: &C,
    attributes: Seq<Attribute>,
    placed: Seq<Placed>,
) -> bool {
    &&& placed.len() == attributes.len()
    &&& forall|i: int|
        0 <= i < attributes.len() ==> answered_by(
            categorizer,
            attributes[i].key,
            (#[trigger] placed[i]).placement,
        ) && placed[i]@.value == attributes[i]@.value
}

/// The text that is printed for a value without display text.
pub fn placeholder() -> (text: &'static str)
    ensures
        text@ == placeholder_text(),
{
    "<unprintable>"
}

fn push_value(out: &mut String, value: &Option<String>)
    ensures
        final(out)@ == old(out)@ + value_text(value_view(*value)),
{
    match value {
        Some(text) => out.append(text.as_str()),
        None => out.append(placeholder()),
    }
}

impl RenderedLine {
    /// The line as it is written to the sink, without a line end.
    pub fn format(&self) -> (text: String)
        ensures
            text@ == line_text(self@),
    {
        let mut out = String::new();
        push_char(&mut out, severity_letter(self.level));
        self.timestamp.write_to(&mut out);
        push_char(&mut out, ' ');
        push_decimal(&mut out, self.location.thread_id);
        push_char(&mut out, ' ');
        out.append(self.location.file.as_str());
        push_char(&mut out, ':');
        push_decimal(&mut out, self.location.line as u64);
        push_char(&mut out, ']');
        push_char(&mut out, ' ');
        out.append(self.text.as_str());
        assert(out@ =~= line_text(self@));
        out
    }
}

/// Joins the lines of one record into the text that goes to the sink in one
/// piece, so that no other record's lines can come between them.
pub fn format_group(lines: &Vec<RenderedLine>) -> (text: String)
    ensures
        text@ == group_text(line_views(lines@)),
{
    let ghost all = line_views(lines@);
    let count: usize = lines.len();
    let mut out: String = String::new();
    let mut i: usize = 0;
    while i < count
        invariant
            i <= count,
            count == lines.len(),
            all == line_views(lines@),
            out@ == group_text(all.take(i as int)),
        decreases count - i,
    {
        proof {
            assert(all.take(i + 1).drop_last() =~= all.take(i as int));
            assert(all.take(i + 1).last() == lines[i as int]@);
        }
        let line: String = lines[i].format();
        out.append(line.as_str());
        push_char(&mut out, '\n');
        assert(out@ =~= group_text(all.take(i + 1)));
        i = i + 1;
    }
    assert(all.take(count as int) =~= all);
    out
}

/// Asks the categorizer about one key: for the category, and then, unless the
/// attribute is ignored, for the name.
pub fn place<C: KVCategorizer>(categorizer: &C, key: Key) -> (placement: Placement)
    ensures
        answered_by(categorizer, key, placement),
{
    match categorizer.categorize(key) {
        KVCategory::Ignore => Placement::Dropped,
        KVCategory::Inline => Placement::Inline { name: categorizer.name(key) },
        KVCategory::LevelLog(level) => Placement::OwnLine { level, name: categorizer.name(key) },
    }
}

/// Asks the categorizer about every attribute of the record, once and in
/// order.
pub fn classify<'a, C: KVCategorizer>(record: &'a Record, categorizer: &C) -> (placed: Vec<
    Placed<'a>,
>)
    ensures
        classified_by(categorizer, record.attributes@, placed@),
{
    let count: usize = record.attributes.len();
    let mut placed: Vec<Placed<'a>> = Vec::new();
    let mut i: usize = 0;
    while i < count
        invariant
            i <= count,
            count == record.attributes.len(),
            classified_by(categorizer, record.attributes@.take(i as int), placed@),
        decreases count - i,
    {
        let attribute: &'a Attribute = &record.attributes[i];
        let one = Placed { placement: place(categorizer, attribute.key), value: &attribute.value };
        placed.push(one);
        i = i + 1;
    }
    assert(record.attributes@.take(count as int) =~= record.attributes@);
    placed
}

/// Lays out the lines of a record whose attributes have been placed: the
/// primary line with the message and the inlined attributes, then one line
/// for each attribute that has a level of its own which passes `filter`. The
/// record's own level is not tested here, and of `record` the attributes are
/// not read: `placed` stands for them.
pub fn render_placed(record: &Record, placed: &Vec<Placed>, filter: FilterLevel) -> (lines: Vec<
    RenderedLine,
>)
    ensures
        line_views(lines@) == rendered(record@, filter, placed_views(placed@)),
        lines@.len() >= 1,
{
    let ghost all = placed_views(placed@);
    let count: usize = placed.len();
    let mut body: String = record.message.clone();
    let mut i: usize = 0;
    while i < count
        invariant
            i <= count,
            count == placed.len(),
            all == placed_views(placed@),
            body@ == record.message@ + inline_text(all.take(i as int)),
        decreases count - i,
    {
        let one: &Placed = &placed[i];
        proof {
            assert(all.take(i + 1).drop_last() =~= all.take(i as int));
            assert(all.take(i + 1).last() == one@);
        }
        match one.placement {
            Placement::Inline { name } => {
                push_char(&mut body, ' ');
                body.append(name);
                push_char(&mut body, '=');
                push_value(&mut body, one.value);
            },
            _ => {},
        }
        assert(body@ =~= record.message@ + inline_text(all.take(i + 1)));
        i = i + 1;
    }
    assert(all.take(count as int) =~= all);

    let mut lines: Vec<RenderedLine> = Vec::new();
    lines.push(
        RenderedLine {
            level: record.level,
            timestamp: record.timestamp,
            location: record.location.duplicate(),
            text: body,
        },
    );
    assert(line_views(lines@) =~= seq![primary_line(record@, all)]);

    let mut j: usize = 0;
    while j < count
        invariant
            j <= count,
            count == placed.len(),
            all == placed_views(placed@),
            lines@.len() >= 1,
            line_views(lines@) == seq![primary_line(record@, all)] + secondary_lines(
                record@,
                filter,
                all.take(j as int),
            ),
        decreases count - j,
    {
        let one: &Placed = &placed[j];
        proof {
            assert(all.take(j + 1).drop_last() =~= all.take(j as int));
            assert(all.take(j + 1).last() == one@);
        }
        let ghost before = line_views(lines@);
        match one.placement {
            Placement::OwnLine { level, name } => {
                if filter.accepts(level) {
                    let mut text: String = String::new();
                    text.append(name);
                    push_char(&mut text, ':');
                    push_char(&mut text, ' ');
                    push_value(&mut text, one.value);
                    let line = RenderedLine {
                        level,
                        timestamp: record.timestamp,
                        location: record.location.duplicate(),
                        text,
                    };
                    assert(line@.text =~= own_line(record@, filter, one@).unwrap().text);
                    lines.push(line);
                    assert(line_views(lines@) =~= before.push(line@));
                }
            },
            _ => {},
        }
        assert(line_views(lines@) =~= seq![primary_line(record@, all)] + secondary_lines(
            record@,
            filter,
            all.take(j + 1),
        ));
        j = j + 1;
    }
    assert(all.take(count as int) =~= all);
    lines
}

/// `lines` is a rendering of the record under the categorizer and the
/// filter: the layout of some classification of its attributes by the
/// categorizer.
pub open spec fn rendered_by<C: KVCategorizer>(
    categorizer: &C,
    filter: FilterLevel,
    record: Record,
    lines: Seq<RenderedLine>,
) -> bool {
    exists|placed: Seq<Placed>| #[trigger]
        classified_by(categorizer, record.attributes@, placed) && line_views(lines) == rendered(
            record@,
            filter,
            placed_views(placed),
        )
}

/// Renders one record: asks the categorizer about every attribute, then lays
/// out the lines. The record's own level is not tested here.
pub fn render<C: KVCategorizer>(record: &Record, categorizer: &C, filter: FilterLevel) -> (lines:
    Vec<RenderedLine>)
    ensures
        rendered_by(categorizer, filter, *record, lines@),
        lines@.len() >= 1,
{
    let placed = classify(record, categorizer);
    render_placed(record, &placed, filter)
}

/// Order is kept on the primary line: what two runs of attributes add, one
/// after the other, is what the first adds followed by what the second adds.
pub proof fn lemma_inline_text_concat(first: Seq<PlacedView>, second: Seq<PlacedView>)
    ensures
        inline_text(first + second) == inline_text(first) + inline_text(second),
    decreases second.len(),
{
    if second.len() == 0 {
        assert(first + second =~= first);
    } else {
        assert((first + second).drop_last() =~= first + second.drop_last());
        assert((first + second).last() == second.last());
        lemma_inline_text_concat(first, second.drop_last());
    }
    assert(inline_text(first + second) =~= inline_text(first) + inline_text(second));
}

/// Order is kept among the secondary lines: the lines of two runs of
/// attributes, one after the other, are the lines of the first followed by
/// the lines of the second.
pub proof fn lemma_secondary_lines_concat(
    record: RecordView,
    filter: FilterLevel,
    first: Seq<PlacedView>,
    second: Seq<PlacedView>,
)
    ensures
        secondary_lines(record, filter, first + second) == secondary_lines(record, filter, first)
            + secondary_lines(record, filter, second),
    decreases second.len(),
{
    if second.len() == 0 {
        assert(first + second =~= first);
    } else {
        assert((first + second).drop_last() =~= first + second.drop_last());
        assert((first + second).last() == second.last());
        lemma_secondary_lines_concat(record, filter, first, second.drop_last());
    }
    assert(secondary_lines(record, filter, first + second) =~= secondary_lines(
        record,
        filter,
        first,
    ) + secondary_lines(record, filter, second));
}

/// The secondary lines of a single attribute: its own line if it has one,
/// nothing otherwise.
pub open spec fn lines_of_one(record: RecordView, filter: FilterLevel, attribute: PlacedView) -> Seq<
    LineView,
> {
    match own_line(record, filter, attribute) {
        Some(line) => seq![line],
        None => Seq::empty(),
    }
}

/// The ordering law, on a record of four attributes that are in turn
/// inlined, given a level, inlined, and given a level: the primary line
/// carries the first and then the third, and the secondary lines are that of
/// the second and then that of the fourth, each only if its level passes.
pub proof fn lemma_render_order(
    record: RecordView,
    filter: FilterLevel,
    attributes: Seq<PlacedView>,
)
    requires
        attributes.len() == 4,
        attributes[0].placement is Inline,
        attributes[1].placement is OwnLine,
        attributes[2].placement is Inline,
        attributes[3].placement is OwnLine,
    ensures
        rendered(record, filter, attributes)[0].text == record.message + (seq![' ']
            + attributes[0].placement->Inline_name + seq!['='] + value_text(attributes[0].value))
            + (seq![' '] + attributes[2].placement->Inline_name + seq!['='] + value_text(
            attributes[2].value,
        )),
        rendered(record, filter, attributes) == seq![primary_line(record, attributes)]
            + lines_of_one(record, filter, attributes[1]) + lines_of_one(
            record,
            filter,
            attributes[3],
        ),
        lines_of_one(record, filter, attributes[1]).len() == (if passes(
            filter,
            attributes[1].placement->OwnLine_level,
        ) {
            1nat
        } else {
            0nat
        }),
        lines_of_one(record, filter, attributes[3]).len() == (if passes(
            filter,
            attributes[3].placement->OwnLine_level,
        ) {
            1nat
        } else {
            0nat
        }),
{
    let all = attributes;
    let three = all.drop_last();
    let two = three.drop_last();
    let one = two.drop_last();
    let none = one.drop_last();
    assert(none.len() == 0);
    assert(three.last() == all[2] && two.last() == all[1] && one.last() == all[0]);
    assert(inline_text(none) =~= Seq::<char>::empty());
    assert(inline_text(one) =~= inline_piece(all[0]));
    assert(inline_text(two) =~= inline_piece(all[0]));
    assert(inline_text(three) =~= inline_piece(all[0]) + inline_piece(all[2]));
    assert(inline_text(all) =~= inline_piece(all[0]) + inline_piece(all[2]));
    assert(secondary_lines(record, filter, none) =~= Seq::<LineView>::empty());
    assert(secondary_lines(record, filter, one) =~= Seq::<LineView>::empty());
    assert(secondary_lines(record, filter, two) =~= lines_of_one(record, filter, all[1]));
    assert(secondary_lines(record, filter, three) =~= lines_of_one(record, filter, all[1]));
    assert(secondary_lines(record, filter, all) =~= lines_of_one(record, filter, all[1])
        + lines_of_one(record, filter, all[3]));
    assert(rendered(record, filter, all) =~= seq![primary_line(record, all)] + lines_of_one(
        record,
        filter,
        all[1],
    ) + lines_of_one(record, filter, all[3]));
    assert(rendered(record, filter, all)[0].text =~= record.message + inline_piece(all[0])
        + inline_piece(all[2]));
}

/// Every secondary line has a level that the filter lets pass: an attribute
/// whose level the filter refuses leaves no line.
pub proof fn lemma_secondary_levels_pass(
    record: RecordView,
    filter: FilterLevel,
    attributes: Seq<PlacedView>,
)
    ensures
        forall|i: int|
            0 <= i < secondary_lines(record, filter, attributes).len() ==> passes(
                filter,
                (#[trigger] secondary_lines(record, filter, attributes)[i]).level,
            ),
    decreases attributes.len(),
{
    if attributes.len() > 0 {
        lemma_secondary_levels_pass(record, filter, attributes.drop_last());
    }
}

/// Whether an attribute has a level of its own that the filter lets pass.
pub open spec fn has_passing_level(filter: FilterLevel, attribute: PlacedView) -> bool {
    match attribute.placement {
        PlacementView::OwnLine { level, .. } => passes(filter, level),
        _ => false,
    }
}

/// Where the filter refuses the level of every attribute that has one, the
/// record is rendered as its primary line alone.
pub proof fn lemma_refused_attributes_leave_no_line(
    record: RecordView,
    filter: FilterLevel,
    attributes: Seq<PlacedView>,
)
    requires
        forall|i: int|
            0 <= i < attributes.len() ==> !has_passing_level(filter, #[trigger] attributes[i]),
    ensures
        secondary_lines(record, filter, attributes).len() == 0,
        rendered(record, filter, attributes) == seq![primary_line(record, attributes)],
    decreases attributes.len(),
{
    if attributes.len() > 0 {
        let earlier = attributes.drop_last();
        assert forall|i: int| 0 <= i < earlier.len() implies !has_passing_level(
            filter,
            #[trigger] earlier[i],
        ) by {
            assert(earlier[i] == attributes[i]);
        }
        lemma_refused_attributes_leave_no_line(record, filter, earlier);
        assert(attributes.last() == attributes[attributes.len() - 1]);
    }
    assert(rendered(record, filter, attributes) =~= seq![primary_line(record, attributes)]);
}

/// A rendering always starts with the primary line, and has at most one
/// further line for each attribute.
pub proof fn lemma_line_count(record: RecordView, filter: FilterLevel, attributes: Seq<PlacedView>)
    ensures
        secondary_lines(record, filter, attributes).len() <= attributes.len(),
        1 <= rendered(record, filter, attributes).len() <= 1 + attributes.len(),
        rendered(record, filter, attributes)[0] == primary_line(record, attributes),
    decreases attributes.len(),
{
    if attributes.len() > 0 {
        lemma_line_count(record, filter, attributes.drop_last());
    }
}

/// The categorizer is a pure policy: on each key it has one category and one
/// name to give.
pub open spec fn is_pure<C: KVCategorizer>(categorizer: &C) -> bool {
    &&& forall|key: Key, a: KVCategory, b: KVCategory|
        #![trigger call_ensures(C::categorize, (categorizer, key), a), call_ensures(C::categorize, (categorizer, key), b)]
        call_ensures(C::categorize, (categorizer, key), a) && call_ensures(
            C::categorize,
            (categorizer, key),
            b,
        ) ==> a == b
    &&& forall|key: Key, a: &'static str, b: &'static str|
        #![trigger call_ensures(C::name, (categorizer, key), a), call_ensures(C::name, (categorizer, key), b)]
        call_ensures(C::name, (categorizer, key), a) && call_ensures(
            C::name,
            (categorizer, key),
            b,
        ) ==> a@ == b@
}

/// Rendering is repeatable: two renderings of one record, with one pure
/// categorizer and one filter, give the same lines, and these are written as
/// the same characters.
pub proof fn lemma_render_repeatable<C: KVCategorizer>(
    categorizer: &C,
    filter: FilterLevel,
    record: Record,
    first: Seq<RenderedLine>,
    second: Seq<RenderedLine>,
)
    requires
        is_pure(categorizer),
        rendered_by(categorizer, filter, record, first),
        rendered_by(categorizer, filter, record, second),
    ensures
        line_views(first) == line_views(second),
        first.len() == second.len(),
        forall|i: int|
            0 <= i < first.len() ==> line_text(#[trigger] first[i]@) == line_text(second[i]@),
{
    let placed_first = choose|placed: Seq<Placed>| #[trigger]
        classified_by(categorizer, record.attributes@, placed) && line_views(first) == rendered(
            record@,
            filter,
            placed_views(placed),
        );
    let placed_second = choose|placed: Seq<Placed>| #[trigger]
        classified_by(categorizer, record.attributes@, placed) && line_views(second) == rendered(
            record@,
            filter,
            placed_views(placed),
        );
    assert forall|i: int| 0 <= i < record.attributes@.len() implies placed_first[i]@
        == placed_second[i]@ by {
        let key = record.attributes@[i].key;
        assert(answered_by(categorizer, key, placed_first[i].placement));
        assert(answered_by(categorizer, key, placed_second[i].placement));
    }
    assert(placed_views(placed_first) =~= placed_views(placed_second));
    assert(line_views(first).len() == first.len());
    assert(line_views(second).len() == second.len());
    assert forall|i: int| 0 <= i < first.len() implies line_text(#[trigger] first[i]@)
        == line_text(second[i]@) by {
        assert(line_views(first)[i] == first[i]@);
        assert(line_views(second)[i] == second[i]@);
    }
}

} // verus!
