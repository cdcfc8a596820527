//! How the spans of a translation relate to the starts and ends of the
//! events they come from.

use crate::translate::{accepts, spans_of, state_after, translatable, HighlightEvent};
use vstd::prelude::*;

verus! {

/// The number of category ends among `events`.
pub open spec fn count_ends(events: Seq<HighlightEvent>) -> nat
    decreases events.len(),
{
    if events.len() == 0 {
        0
    } else if events.last() is CategoryEnd {
        count_ends(events.drop_last()) + 1
    } else {
        count_ends(events.drop_last())
    }
}

/// The number of categories open after `events`: starts less ends.
pub open spec fn depth(events: Seq<HighlightEvent>) -> int
    decreases events.len(),
{
    if events.len() == 0 {
        0
    } else {
        depth(events.drop_last()) + match events.last() {
            HighlightEvent::CategoryStart(_) => 1int,
            HighlightEvent::SourceRange { .. } => 0int,
            HighlightEvent::CategoryEnd => -1int,
        }
    }
}

/// Every end among the first `n` events closes a start before it.
pub open spec fn ends_are_matched(events: Seq<HighlightEvent>, n: int) -> bool {
    forall|k: int| 0 <= k <= n ==> depth(#[trigger] events.take(k)) >= 0
}

/// Every end closes a start before it, and every start is closed.
pub open spec fn well_nested(events: Seq<HighlightEvent>) -> bool {
    &&& depth(events) == 0
    &&& ends_are_matched(events, events.len() as int)
}

/// The start at `i` is the one that the end at `j` closes: the depth after
/// the end is the depth before the start, and is higher in between.
pub open spec fn closes(events: Seq<HighlightEvent>, i: int, j: int) -> bool {
    &&& 0 <= i < j < events.len()
    &&& events[i] is CategoryStart
    &&& events[j] is CategoryEnd
    &&& depth(events.take(i)) == depth(events.take(j + 1))
    &&& forall|k: int| i < k <= j ==> depth(#[trigger] events.take(k)) > depth(events.take(i))
}

/// The depth after one more event differs by at most one, by the kind of
/// the event.
pub proof fn lemma_depth_step(events: Seq<HighlightEvent>, k: int)
    requires
        0 <= k < events.len(),
    ensures
        events[k] is CategoryStart ==> depth(events.take(k + 1)) == depth(events.take(k)) + 1,
        events[k] is SourceRange ==> depth(events.take(k + 1)) == depth(events.take(k)),
        events[k] is CategoryEnd ==> depth(events.take(k + 1)) == depth(events.take(k)) - 1,
{
    let longer = events.take(k + 1);
    assert(longer.drop_last() == events.take(k));
    assert(longer.last() == events[k]);
}

/// Where every end closes a start, as many categories are open after the
/// first `n` events as starts are not yet closed.
pub proof fn lemma_open_is_depth(events: Seq<HighlightEvent>, lookup: Seq<usize>, n: int)
    requires
        0 <= n <= events.len(),
        ends_are_matched(events, n),
    ensures
        state_after(events.take(n), lookup).len() == depth(events.take(n)),
    decreases n,
{
    if n > 0 {
        lemma_open_is_depth(events, lookup, n - 1);
        lemma_depth_step(events, n - 1);
        let upto = events.take(n);
        assert(upto.drop_last() == events.take(n - 1));
        assert(upto.last() == events[n - 1]);
        assert(depth(events.take(n)) >= 0);
        assert(depth(events.take(n - 1)) >= 0);
    }
}

/// Where every end among the first `n` events closes a start, those events
/// give one span for each end among them.
pub proof fn lemma_one_span_per_end(events: Seq<HighlightEvent>, lookup: Seq<usize>, n: int)
    requires
        0 <= n <= events.len(),
        ends_are_matched(events, n),
    ensures
        spans_of(events.take(n), lookup).len() == count_ends(events.take(n)),
    decreases n,
{
    if n > 0 {
        lemma_one_span_per_end(events, lookup, n - 1);
        lemma_open_is_depth(events, lookup, n - 1);
        lemma_depth_step(events, n - 1);
        let upto = events.take(n);
        assert(upto.drop_last() == events.take(n - 1));
        assert(upto.last() == events[n - 1]);
        assert(depth(events.take(n)) >= 0);
    }
}

/// The spans of a prefix of the events are the first spans of the whole.
pub proof fn lemma_spans_of_prefix(events: Seq<HighlightEvent>, lookup: Seq<usize>, k: int)
    requires
        0 <= k <= events.len(),
    ensures
        spans_of(events.take(k), lookup).len() <= spans_of(events, lookup).len(),
        spans_of(events.take(k), lookup) == spans_of(events, lookup).take(
            spans_of(events.take(k), lookup).len() as int,
        ),
    decreases events.len() - k,
{
    if k == events.len() {
        assert(events.take(k) == events);
    } else {
        lemma_spans_of_prefix(events, lookup, k + 1);
        let longer = events.take(k + 1);
        assert(longer.drop_last() == events.take(k));
    }
}

/// From a start until the end that closes it, the category of the start
/// stays open at the place where it was opened, whatever opens and closes
/// inside it.
pub proof fn lemma_category_stays_open(
    events: Seq<HighlightEvent>,
    lookup: Seq<usize>,
    i: int,
    j: int,
    k: int,
)
    requires
        closes(events, i, j),
        ends_are_matched(events, j),
        i < k <= j,
    ensures
        state_after(events.take(k), lookup).len() == depth(events.take(k)),
        depth(events.take(i)) < depth(events.take(k)),
        state_after(events.take(k), lookup)[depth(events.take(i))].category
            == events[i]->CategoryStart_0,
    decreases k,
{
    let before = depth(events.take(i));
    let upto = events.take(k);
    assert(upto.drop_last() == events.take(k - 1));
    assert(upto.last() == events[k - 1]);
    lemma_depth_step(events, k - 1);
    lemma_open_is_depth(events, lookup, k - 1);
    assert(before >= 0);
    if k - 1 > i {
        lemma_category_stays_open(events, lookup, i, j, k - 1);
    }
}

/// The span that an end hands out carries the category of the start that
/// the end closes. The span of the end at `j` is the one at the index that
/// counts the ends before `j`.
pub proof fn lemma_span_carries_category(
    events: Seq<HighlightEvent>,
    lookup: Seq<usize>,
    i: int,
    j: int,
)
    requires
        closes(events, i, j),
        ends_are_matched(events, j),
    ensures
        count_ends(events.take(j)) < spans_of(events, lookup).len(),
        spans_of(events, lookup)[count_ends(events.take(j)) as int].category
            == events[i]->CategoryStart_0,
{
    let including = events.take(j + 1);
    assert(including.drop_last() == events.take(j));
    assert(including.last() == events[j]);
    lemma_category_stays_open(events, lookup, i, j, j);
    lemma_depth_step(events, j);
    lemma_one_span_per_end(events, lookup, j);
    lemma_spans_of_prefix(events, lookup, j + 1);
    let upto = spans_of(including, lookup);
    assert(upto[count_ends(events.take(j)) as int] == spans_of(events, lookup).take(
        upto.len() as int,
    )[count_ends(events.take(j)) as int]);
}

/// For well nested events, to any depth, the translation hands out as many
/// spans as there are ends, and the span of each end carries the category
/// of the start that the end closes.
pub proof fn lemma_spans_match_starts(events: Seq<HighlightEvent>, lookup: Seq<usize>)
    requires
        well_nested(events),
    ensures
        spans_of(events, lookup).len() == count_ends(events),
        forall|i: int, j: int|
            #![trigger closes(events, i, j)]
            closes(events, i, j) ==> {
                &&& count_ends(events.take(j)) < spans_of(events, lookup).len()
                &&& spans_of(events, lookup)[count_ends(events.take(j)) as int].category
                    == events[i]->CategoryStart_0
            },
{
    lemma_one_span_per_end(events, lookup, events.len() as int);
    assert(events.take(events.len() as int) == events);
    assert forall|i: int, j: int|
        #![trigger closes(events, i, j)]
        closes(events, i, j) implies {
        &&& count_ends(events.take(j)) < spans_of(events, lookup).len()
        &&& spans_of(events, lookup)[count_ends(events.take(j)) as int].category
            == events[i]->CategoryStart_0
    } by {
        lemma_span_carries_category(events, lookup, i, j);
    }
}

/// Every source range among `events` is non-empty and lies inside a text
/// of `lookup_len` bytes.
pub open spec fn ranges_fit(events: Seq<HighlightEvent>, lookup_len: int) -> bool {
    forall|k: int|
        0 <= k < events.len() ==> match #[trigger] events[k] {
            HighlightEvent::SourceRange { start, end } => start < end <= lookup_len,
            _ => true,
        }
}

/// Events in which every end closes a start and every source range lies
/// inside the text can all be taken: a translation of them gives spans.
pub proof fn lemma_matched_events_are_translatable(
    events: Seq<HighlightEvent>,
    lookup: Seq<usize>,
)
    requires
        ends_are_matched(events, events.len() as int),
        ranges_fit(events, lookup.len() as int),
    ensures
        translatable(events, lookup),
{
    assert forall|k: int| 0 <= k < events.len() implies accepts(
        state_after(#[trigger] events.take(k), lookup),
        events[k],
        lookup.len() as int,
    ) by {
        lemma_open_is_depth(events, lookup, k);
        lemma_depth_step(events, k);
        assert(depth(events.take(k + 1)) >= 0);
    }
}

} // verus!
