//! The assembled logger: a categorizer, a severity filter and the choice of
//! how finished lines travel to the sink.

use crate::glog_format::{
    answered_by, classified_by, is_pure, placed_views, placement_for, render, rendered,
    rendered_by, Placed, PlacedView,
};
use crate::kv_categorizer::{ErrorCategorizer, InlineCategorizer, KVCategorizer};
use crate::level::passes;
use crate::record::{line_views, AttributeView, Record, RenderedLine};
use slog::FilterLevel;
use vstd::prelude::*;

verus! {

/// How the lines of a record reach the sink.
#[derive(Clone, Copy, Debug, PartialEq, Eq)]
pub enum DeliveryMode {
    /// The caller renders and writes under a lock, and returns when the
    /// record is written.
    Synchronous,
    /// The record is put on a bounded queue that one worker empties. With
    /// `chan_size` the queue holds that many records; without, the queue has
    /// its default size.
    Asynchronous { chan_size: Option<usize> },
}

/// The delivery that the two construction parameters ask for. A queue size
/// given for synchronous delivery has no meaning and is dropped.
pub open spec fn chosen_delivery(is_async: bool, chan_size: Option<usize>) -> DeliveryMode {
    if is_async {
        DeliveryMode::Asynchronous { chan_size }
    } else {
        DeliveryMode::Synchronous
    }
}

/// Chooses the delivery from the two construction parameters.
pub fn delivery_mode(is_async: bool, chan_size: Option<usize>) -> (mode: DeliveryMode)
    ensures
        mode == chosen_delivery(is_async, chan_size),
{
    if is_async {
        match chan_size {
            Some(chan_size_inner) => DeliveryMode::Asynchronous { chan_size: Some(chan_size_inner) },
            None => DeliveryMode::Asynchronous { chan_size: None },
        }
    } else {
        DeliveryMode::Synchronous
    }
}

/// `lines` is what a logger hands to its sink for one record: nothing if the
/// record's own level does not pass the filter, a rendering of the record
/// otherwise.
pub open spec fn submitted_by<C: KVCategorizer>(
    categorizer: &C,
    filter: FilterLevel,
    record: Record,
    lines: Seq<RenderedLine>,
) -> bool {
    if passes(filter, record.level) {
        rendered_by(categorizer, filter, record, lines)
    } else {
        lines.len() == 0
    }
}

/// A logger, assembled: what it needs to turn a record into the group of
/// lines that goes to the sink as one unit.
pub struct RootLogger<C: KVCategorizer> {
    pub categorizer: C,
    pub filter: FilterLevel,
    pub delivery: DeliveryMode,
}

impl<C: KVCategorizer> RootLogger<C> {
    /// Assembles a logger from its parts.
    pub fn new(categorizer: C, filter: FilterLevel, delivery: DeliveryMode) -> (logger: Self)
        ensures
            logger.categorizer == categorizer,
            logger.filter == filter,
            logger.delivery == delivery,
    {
        RootLogger { categorizer, filter, delivery }
    }

    /// Takes one record and returns its group of lines, in the order in which
    /// they are written. A record whose level the filter refuses gives no
    /// line, whatever its attributes are.
    pub fn submit(&self, record: &Record) -> (lines: Vec<RenderedLine>)
        ensures
            submitted_by(&self.categorizer, self.filter, *record, lines@),
            !passes(self.filter, record.level) ==> lines@.len() == 0,
            passes(self.filter, record.level) ==> lines@.len() >= 1,
    {
        if self.filter.accepts(record.level) {
            render(record, &self.categorizer, self.filter)
        } else {
            Vec::new()
        }
    }
}

/// The threshold of a logger with default settings: `Info`, unless another
/// one is given.
pub open spec fn default_threshold(requested: Option<FilterLevel>) -> FilterLevel {
    match requested {
        Some(threshold) => threshold,
        None => FilterLevel::Info,
    }
}

/// Creates a root logger with default settings: the categorizer for errors
/// and their causes, the threshold `Info` unless `requested` names another,
/// and the delivery that `async_drain` and `chan_size` ask for.
pub fn create_default_root_logger(
    async_drain: bool,
    chan_size: Option<usize>,
    requested: Option<FilterLevel>,
) -> (logger: RootLogger<ErrorCategorizer>)
    ensures
        logger.filter == default_threshold(requested),
        logger.delivery == chosen_delivery(async_drain, chan_size),
{
    let filter: FilterLevel = match requested {
        Some(threshold) => threshold,
        None => FilterLevel::Info,
    };
    RootLogger::new(ErrorCategorizer, filter, delivery_mode(async_drain, chan_size))
}

/// `InlineCategorizer` is a pure policy.
pub proof fn lemma_inline_categorizer_is_pure()
    ensures
        is_pure(&InlineCategorizer),
{
}

/// `ErrorCategorizer` is a pure policy.
pub proof fn lemma_error_categorizer_is_pure()
    ensures
        is_pure(&ErrorCategorizer),
{
}

/// The attributes of a record as `ErrorCategorizer` places them.
pub open spec fn placed_for_errors(attributes: Seq<AttributeView>) -> Seq<PlacedView> {
    attributes.map_values(
        |attribute: AttributeView|
            PlacedView {
                placement: placement_for(
                    ErrorCategorizer::category_of(attribute.key),
                    ErrorCategorizer::name_of(attribute.key),
                ),
                value: attribute.value,
            },
    )
}

/// Under `ErrorCategorizer` the lines of a record are known exactly: they
/// are the layout of its attributes as that policy places them.
pub proof fn lemma_error_rendering(filter: FilterLevel, record: Record, lines: Seq<RenderedLine>)
    requires
        rendered_by(&ErrorCategorizer, filter, record, lines),
    ensures
        line_views(lines) == rendered(record@, filter, placed_for_errors(record@.attributes)),
{
    let placed = choose|placed: Seq<Placed>| #[trigger]
        classified_by(&ErrorCategorizer, record.attributes@, placed) && line_views(lines)
            == rendered(record@, filter, placed_views(placed));
    assert forall|i: int| 0 <= i < placed.len() implies placed_views(placed)[i]
        == placed_for_errors(record@.attributes)[i] by {
        assert(answered_by(&ErrorCategorizer, record.attributes@[i].key, placed[i].placement));
        assert(record@.attributes[i] == record.attributes@[i]@);
    }
    assert(placed_views(placed) =~= placed_for_errors(record@.attributes));
}

} // verus!
