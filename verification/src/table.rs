//! The category table of a highlighter, and the colouring of spans by it.

use crate::translate::Span;
use vstd::prelude::*;

verus! {

/// How a coloured span is attached to the host's text: it replaces a span
/// over exactly the same range and does not grow with text inserted at its
/// ends.
pub const SPAN_EXCLUSIVE_EXCLUSIVE: i32 = 33;

/// The categories of one highlighter in the caller's order, each with its
/// colour. A category's position is its number.
pub struct CategoryTable {
    names: Vec<String>,
    colors: Vec<i32>,
}

/// A run of clusters `start..end` to be drawn in `color`, the colour of
/// category `category`.
#[derive(Clone, Copy, Debug, PartialEq, Eq)]
pub struct ColoredSpan {
    pub category: usize,
    pub color: i32,
    pub start: usize,
    pub end: usize,
}

impl View for CategoryTable {
    type V = Seq<(Seq<char>, i32)>;

    closed spec fn view(&self) -> Seq<(Seq<char>, i32)> {
        Seq::new(self.colors@.len(), |i: int| (self.names@[i]@, self.colors@[i]))
    }
}

/// The table that holds `names` and `colors` side by side.
pub open spec fn table_of(names: Seq<String>, colors: Seq<i32>) -> Seq<(Seq<char>, i32)> {
    Seq::new(colors.len(), |i: int| (names[i]@, colors[i]))
}

/// The texts of `names`, in order.
pub open spec fn name_texts(names: Seq<String>) -> Seq<Seq<char>> {
    Seq::new(names.len(), |i: int| names[i]@)
}

/// The names of `table`, in order.
pub open spec fn names_of(table: Seq<(Seq<char>, i32)>) -> Seq<Seq<char>> {
    Seq::new(table.len(), |i: int| table[i].0)
}

/// The colour of `category` in `table`, where the table has that category.
pub open spec fn color_in(table: Seq<(Seq<char>, i32)>, category: usize) -> Option<i32> {
    if category < table.len() {
        Some(table[category as int].1)
    } else {
        None
    }
}

/// `span` with the colour of its category, where `table` has that category.
pub open spec fn colored(table: Seq<(Seq<char>, i32)>, span: Span) -> Option<ColoredSpan> {
    match color_in(table, span.category) {
        Some(color) => Some(
            ColoredSpan {
                category: span.category,
                color,
                start: span.start,
                end: span.end,
            },
        ),
        None => None,
    }
}

/// Every span has a category of `table`.
pub open spec fn all_known(table: Seq<(Seq<char>, i32)>, spans: Seq<Span>) -> bool {
    forall|k: int| 0 <= k < spans.len() ==> colored(table, #[trigger] spans[k]) is Some
}

/// The spans, each with the colour of its category.
pub open spec fn colored_spans(table: Seq<(Seq<char>, i32)>, spans: Seq<Span>) -> Seq<
    ColoredSpan,
> {
    Seq::new(spans.len(), |k: int| colored(table, spans[k])->Some_0)
}

impl CategoryTable {
    #[verifier::type_invariant]
    spec fn same_length(&self) -> bool {
        self.names@.len() == self.colors@.len()
    }

    /// Makes the table of `names` and `colors`, which must be of one length.
    pub fn new(names: Vec<String>, colors: Vec<i32>) -> (out: Option<CategoryTable>)
        ensures
            out is Some <==> names@.len() == colors@.len(),
            out is Some ==> out->Some_0@ == table_of(names@, colors@),
    {
        if names.len() != colors.len() {
            return None;
        }
        Some(CategoryTable { names, colors })
    }

    /// The number of categories.
    pub fn len(&self) -> (n: usize)
        ensures
            n == self@.len(),
    {
        self.colors.len()
    }

    /// The names as they were given.
    pub fn category_names(&self) -> (names: &Vec<String>)
        ensures
            names@.len() == self@.len(),
            forall|i: int| 0 <= i < names@.len() ==> (#[trigger] names@[i])@ == self@[i].0,
            name_texts(names@) == names_of(self@),
    {
        proof {
            use_type_invariant(self);
            assert(name_texts(self.names@) =~= names_of(self@));
        }
        &self.names
    }

    /// The colour of `category`; `None` where the table has no such
    /// category.
    pub fn color_of(&self, category: usize) -> (color: Option<i32>)
        ensures
            color == color_in(self@, category),
    {
        if category < self.colors.len() {
            Some(self.colors[category])
        } else {
            None
        }
    }

    /// Gives `span` the colour of its category.
    pub fn paint(&self, span: &Span) -> (out: Option<ColoredSpan>)
        ensures
            out == colored(self@, *span),
    {
        match self.color_of(span.category) {
            Some(color) => Some(
                ColoredSpan { category: span.category, color, start: span.start, end: span.end },
            ),
            None => None,
        }
    }

    /// Gives each span the colour of its category; `None` where one of them
    /// has no category of this table.
    pub fn paint_all(&self, spans: &Vec<Span>) -> (out: Option<Vec<ColoredSpan>>)
        ensures
            out is Some <==> all_known(self@, spans@),
            out is Some ==> out->Some_0@ == colored_spans(self@, spans@),
    {
        let mut painted: Vec<ColoredSpan> = Vec::new();
        let mut k: usize = 0;
        while k < spans.len()
            invariant
                0 <= k <= spans.len(),
                painted@.len() == k,
                forall|j: int| 0 <= j < k ==> colored(self@, #[trigger] spans@[j]) == Some(painted@[j]),
            decreases spans.len() - k,
        {
            match self.paint(&spans[k]) {
                Some(one) => painted.push(one),
                None => {
                    return None;
                },
            }
            k += 1;
        }
        assert(painted@ =~= colored_spans(self@, spans@));
        Some(painted)
    }
}

} // verus!
