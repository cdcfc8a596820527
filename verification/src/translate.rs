//! Translation of a stream of highlight events, addressed by byte offset,
//! into spans addressed by grapheme cluster.

use crate::offset_index::rises_by_steps;
use vstd::prelude::*;

verus! {

/// One step of the classification engine's output.
#[derive(Clone, Copy, Debug, PartialEq, Eq)]
pub enum HighlightEvent {
    /// A category opens; the number is its index in the category table.
    CategoryStart(usize),
    /// The bytes `start..end` of the source belong to the innermost open
    /// category.
    SourceRange { start: usize, end: usize },
    /// The innermost open category closes.
    CategoryEnd,
}

/// A run of clusters `start..end` in one category.
#[derive(Clone, Copy, Debug, PartialEq, Eq)]
pub struct Span {
    pub category: usize,
    pub start: usize,
    pub end: usize,
}

/// The categories that are open, the innermost last, each with the cluster
/// range gathered for it so far.
#[derive(Clone, Debug, PartialEq, Eq)]
pub struct CurrentHighlight {
    pub open: Vec<Span>,
}

impl View for CurrentHighlight {
    type V = Seq<Span>;

    open spec fn view(&self) -> Seq<Span> {
        self.open@
    }
}

/// Each entry of a lookup that rises by steps is at most its own position.
pub proof fn lemma_entry_at_most_position(lookup: Seq<usize>, b: int)
    requires
        rises_by_steps(lookup),
        0 <= b < lookup.len(),
    ensures
        lookup[b] <= b,
    decreases b,
{
    if b > 0 {
        lemma_entry_at_most_position(lookup, b - 1);
        assert(lookup[b - 1] <= lookup[b - 1 + 1] <= lookup[b - 1] + 1);
    }
}

/// A lookup that rises by steps never falls.
pub proof fn lemma_entries_never_fall(lookup: Seq<usize>, a: int, b: int)
    requires
        rises_by_steps(lookup),
        0 <= a <= b < lookup.len(),
    ensures
        lookup[a] <= lookup[b],
    decreases b - a,
{
    if a < b {
        lemma_entries_never_fall(lookup, a, b - 1);
        assert(lookup[b - 1] <= lookup[b - 1 + 1] <= lookup[b - 1] + 1);
    }
}

/// A category that has just opened: nothing is gathered for it yet.
pub open spec fn opened(category: usize) -> Span {
    Span { category, start: 0, end: 0 }
}

/// The clusters that the bytes `start..end` touch, for `category`: from the
/// cluster of the first byte to one past the cluster of the last.
pub open spec fn touched(category: usize, start: usize, end: usize, lookup: Seq<usize>) -> Span {
    Span { category, start: lookup[start as int], end: (lookup[end - 1] + 1) as usize }
}

/// Whether `event` can be taken while `open` are open, over a lookup of
/// `lookup_len` entries: while a category is open, a source range must be
/// non-empty and lie inside the text; an end needs an open category.
pub open spec fn accepts(open: Seq<Span>, event: HighlightEvent, lookup_len: int) -> bool {
    match event {
        HighlightEvent::CategoryStart(_) => true,
        HighlightEvent::SourceRange { start, end } => open.len() > 0 ==> start < end <= lookup_len,
        HighlightEvent::CategoryEnd => open.len() > 0,
    }
}

/// The open categories after `event`: a start opens its category inside
/// the others, a source range replaces the range of the innermost, an end
/// closes the innermost.
pub open spec fn after(open: Seq<Span>, event: HighlightEvent, lookup: Seq<usize>) -> Seq<Span> {
    match event {
        HighlightEvent::CategoryStart(id) => open.push(opened(id)),
        HighlightEvent::SourceRange { start, end } => if open.len() > 0 {
            open.update(open.len() - 1, touched(open.last().category, start, end, lookup))
        } else {
            open
        },
        HighlightEvent::CategoryEnd => if open.len() > 0 {
            open.drop_last()
        } else {
            open
        },
    }
}

/// The span that `event` completes, if it completes one: an end hands out
/// the innermost open category with its range.
pub open spec fn emitted(open: Seq<Span>, event: HighlightEvent) -> Option<Span> {
    match event {
        HighlightEvent::CategoryEnd => if open.len() > 0 {
            Some(open.last())
        } else {
            None
        },
        _ => None,
    }
}

/// A source range taken while a category is open leaves, for the innermost
/// category, a cluster range that begins with the cluster of the first
/// byte, ends after the cluster of the last byte, and is not empty.
pub proof fn lemma_taken_range_is_not_empty(
    open: Seq<Span>,
    start: usize,
    end: usize,
    lookup: Seq<usize>,
)
    requires
        rises_by_steps(lookup),
        open.len() > 0,
        accepts(open, HighlightEvent::SourceRange { start, end }, lookup.len() as int),
    ensures
        after(open, HighlightEvent::SourceRange { start, end }, lookup).last().category
            == open.last().category,
        after(open, HighlightEvent::SourceRange { start, end }, lookup).last().start == lookup[
            start as int
        ],
        after(open, HighlightEvent::SourceRange { start, end }, lookup).last().end == lookup[end
            - 1] + 1,
        after(open, HighlightEvent::SourceRange { start, end }, lookup).last().start < after(
            open,
            HighlightEvent::SourceRange { start, end },
            lookup,
        ).last().end,
{
    lemma_entry_at_most_position(lookup, end - 1);
    lemma_entries_never_fall(lookup, start as int, end - 1);
}

impl CurrentHighlight {
    /// Nothing open.
    pub fn new() -> (current: CurrentHighlight)
        ensures
            current@ == Seq::<Span>::empty(),
    {
        CurrentHighlight { open: Vec::new() }
    }

    /// Tests whether `event` can be taken in this state.
    pub fn check(&self, event: &HighlightEvent, lookup_len: usize) -> (ok: bool)
        ensures
            ok == accepts(self@, *event, lookup_len as int),
    {
        match event {
            HighlightEvent::CategoryStart(_) => true,
            HighlightEvent::SourceRange { start, end } => self.open.len() == 0 || (*start < *end
                && *end <= lookup_len),
            HighlightEvent::CategoryEnd => self.open.len() > 0,
        }
    }

    /// Takes one event: a start opens its category inside those that are
    /// open, a source range replaces the range of the innermost by the
    /// clusters it touches, an end hands out the innermost as a span and
    /// closes it.
    pub fn step(&mut self, event: HighlightEvent, lookup: &Vec<usize>) -> (out: Option<Span>)
        requires
            rises_by_steps(lookup@),
            accepts(old(self)@, event, lookup@.len() as int),
        ensures
            final(self)@ == after(old(self)@, event, lookup@),
            out == emitted(old(self)@, event),
    {
        match event {
            HighlightEvent::CategoryStart(id) => {
                self.open.push(Span { category: id, start: 0, end: 0 });
                None
            },
            HighlightEvent::SourceRange { start, end } => {
                let depth = self.open.len();
                if depth > 0 {
                    proof {
                        lemma_entry_at_most_position(lookup@, end - 1);
                    }
                    let category = self.open[depth - 1].category;
                    self.open.set(
                        depth - 1,
                        Span { category, start: lookup[start], end: lookup[end - 1] + 1 },
                    );
                }
                None
            },
            HighlightEvent::CategoryEnd => self.open.pop(),
        }
    }
}

/// The open categories after all of `events`, with nothing open before.
pub open spec fn state_after(events: Seq<HighlightEvent>, lookup: Seq<usize>) -> Seq<Span>
    decreases events.len(),
{
    if events.len() == 0 {
        Seq::empty()
    } else {
        after(state_after(events.drop_last(), lookup), events.last(), lookup)
    }
}

/// The spans that `events` complete, in the order of their ends.
pub open spec fn spans_of(events: Seq<HighlightEvent>, lookup: Seq<usize>) -> Seq<Span>
    decreases events.len(),
{
    if events.len() == 0 {
        Seq::empty()
    } else {
        let before = spans_of(events.drop_last(), lookup);
        match emitted(state_after(events.drop_last(), lookup), events.last()) {
            Some(span) => before.push(span),
            None => before,
        }
    }
}

/// Each event can be taken in the state that the events before it lead to.
pub open spec fn translatable(events: Seq<HighlightEvent>, lookup: Seq<usize>) -> bool {
    forall|k: int|
        0 <= k < events.len() ==> accepts(
            state_after(#[trigger] events.take(k), lookup),
            events[k],
            lookup.len() as int,
        )
}

/// Translates the events of one pass into spans, one for each end, in the
/// order of the ends. Gives `None` where an event cannot be taken: a source
/// range inside an open category that is empty or reaches beyond the text,
/// or an end with nothing open.
pub fn translate(events: &Vec<HighlightEvent>, lookup: &Vec<usize>) -> (out: Option<Vec<Span>>)
    requires
        rises_by_steps(lookup@),
    ensures
        out is Some <==> translatable(events@, lookup@),
        out is Some ==> out->Some_0@ == spans_of(events@, lookup@),
{
    let mut current = CurrentHighlight::new();
    let mut spans: Vec<Span> = Vec::new();
    let mut k: usize = 0;
    while k < events.len()
        invariant
            rises_by_steps(lookup@),
            0 <= k <= events.len(),
            current@ == state_after(events@.take(k as int), lookup@),
            spans@ == spans_of(events@.take(k as int), lookup@),
            forall|j: int|
                0 <= j < k ==> accepts(
                    state_after(#[trigger] events@.take(j), lookup@),
                    events@[j],
                    lookup@.len() as int,
                ),
        decreases events.len() - k,
    {
        let event = events[k];
        if !current.check(&event, lookup.len()) {
            return None;
        }
        proof {
            let longer = events@.take(k + 1);
            assert(longer.drop_last() == events@.take(k as int));
            assert(longer.last() == event);
        }
        match current.step(event, lookup) {
            Some(span) => spans.push(span),
            None => {},
        }
        k += 1;
    }
    assert(events@.take(k as int) == events@);
    Some(spans)
}

} // verus!
