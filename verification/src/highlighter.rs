//! The highlighter handle: made once from the categories and their
//! colours, then used for any number of highlighting passes.

use crate::engine::{
    classify, compile, compiled, engine_events, glsl_language, new_highlighter, recognize,
    recognizing,
};
use crate::grammar::{GLSL_HIGHLIGHTS_QUERY, GLSL_INJECTIONS_QUERY, GLSL_LOCALS_QUERY};
use crate::offset_index::{build_offset_index_lookup, offset_index_of, rises_by_steps};
use crate::table::{all_known, colored_spans, names_of, table_of, CategoryTable, ColoredSpan};
use crate::translate::{spans_of, translatable, translate, HighlightEvent};
use vstd::prelude::*;
use vstd::string::StringSliceAdditionalSpecFns;

verus! {

/// Why no highlighter could be made.
#[derive(Clone, Copy, Debug, PartialEq, Eq)]
pub enum ConfigurationError {
    /// There are not as many colours as names.
    LengthMismatch,
    /// The grammar's queries did not compile.
    Grammar,
}

/// Why a pass gave no spans.
#[derive(Clone, Copy, Debug, PartialEq, Eq)]
pub enum HighlightError {
    /// The engine reported a failure.
    Engine,
    /// The engine gave a source range, inside an open category, that is
    /// empty or reaches beyond the text, or an end with nothing open.
    MalformedEvents,
    /// The engine gave a category that the table does not have.
    UnknownCategory,
}

/// The state of one highlighter: the engine, the compiled grammar and the
/// category table.
pub struct Handle {
    highlighter: tree_sitter_highlight::Highlighter,
    config: tree_sitter_highlight::HighlightConfiguration,
    table: CategoryTable,
}

/// What the events of one pass give: all the coloured spans, or the error
/// and nothing else.
pub open spec fn projection(
    table: Seq<(Seq<char>, i32)>,
    events: Seq<HighlightEvent>,
    lookup: Seq<usize>,
) -> Result<Seq<ColoredSpan>, HighlightError> {
    if !translatable(events, lookup) {
        Err(HighlightError::MalformedEvents)
    } else if !all_known(table, spans_of(events, lookup)) {
        Err(HighlightError::UnknownCategory)
    } else {
        Ok(colored_spans(table, spans_of(events, lookup)))
    }
}

/// What a pass gives for the outcome of the engine: the engine's failure
/// is the error of the pass, with no span; its events give their
/// projection.
pub open spec fn pass(
    table: Seq<(Seq<char>, i32)>,
    classified: Option<Seq<HighlightEvent>>,
    lookup: Seq<usize>,
) -> Result<Seq<ColoredSpan>, HighlightError> {
    match classified {
        None => Err(HighlightError::Engine),
        Some(events) => projection(table, events, lookup),
    }
}

/// `out` is `expected`, the spans taken as a sequence.
pub open spec fn agrees(
    out: Result<Vec<ColoredSpan>, HighlightError>,
    expected: Result<Seq<ColoredSpan>, HighlightError>,
) -> bool {
    match out {
        Ok(spans) => expected == Ok::<Seq<ColoredSpan>, HighlightError>(spans@),
        Err(error) => expected == Err::<Seq<ColoredSpan>, HighlightError>(error),
    }
}

/// What making a highlighter gives for names, colours and the outcome of
/// compiling the grammar: the table and the configuration of the handle, or
/// the error. The lengths are looked at first.
pub open spec fn creation(
    names: Seq<String>,
    colors: Seq<i32>,
    compiled: Option<tree_sitter_highlight::HighlightConfiguration>,
) -> Result<
    (Seq<(Seq<char>, i32)>, tree_sitter_highlight::HighlightConfiguration),
    ConfigurationError,
> {
    if names.len() != colors.len() {
        Err(ConfigurationError::LengthMismatch)
    } else {
        match compiled {
            None => Err(ConfigurationError::Grammar),
            Some(base) => Ok(
                (
                    table_of(names, colors),
                    recognizing(base, names_of(table_of(names, colors))),
                ),
            ),
        }
    }
}

/// `out` is `expected`, the handle taken by its table and configuration.
pub open spec fn is_creation(
    out: Result<Handle, ConfigurationError>,
    expected: Result<
        (Seq<(Seq<char>, i32)>, tree_sitter_highlight::HighlightConfiguration),
        ConfigurationError,
    >,
) -> bool {
    match out {
        Ok(handle) => expected == Ok::<
            (Seq<(Seq<char>, i32)>, tree_sitter_highlight::HighlightConfiguration),
            ConfigurationError,
        >((handle.table(), handle.config())),
        Err(error) => expected == Err::<
            (Seq<(Seq<char>, i32)>, tree_sitter_highlight::HighlightConfiguration),
            ConfigurationError,
        >(error),
    }
}

/// `text` with a line feed after it, unless it is empty.
pub open spec fn line_ended(text: Seq<char>) -> Seq<char> {
    if text.len() == 0 {
        text
    } else {
        text.push('\n')
    }
}

/// The text of a query as it is handed to the engine: with a line feed
/// after it, unless it is empty, so that no name runs to the end of the
/// text.
pub fn end_line(text: &str) -> (out: String)
    ensures
        out@ == line_ended(text@),
{
    let owned = String::from_str(text);
    if text.is_empty() {
        owned
    } else {
        proof {
            reveal_strlit("\n");
            assert("\n"@ =~= seq!['\n']);
        }
        owned.concat("\n")
    }
}

/// Turns the events of one pass into coloured spans over clusters: all of
/// them, or an error where an event cannot be taken or a span has no
/// category of the table.
pub fn project(table: &CategoryTable, events: &Vec<HighlightEvent>, lookup: &Vec<usize>) -> (out:
    Result<Vec<ColoredSpan>, HighlightError>)
    requires
        rises_by_steps(lookup@),
    ensures
        agrees(out, projection(table@, events@, lookup@)),
{
    match translate(events, lookup) {
        None => Err(HighlightError::MalformedEvents),
        Some(spans) => match table.paint_all(&spans) {
            None => Err(HighlightError::UnknownCategory),
            Some(painted) => Ok(painted),
        },
    }
}

/// Finishes a pass from the outcome of the engine: where the engine
/// failed, the error and no span; else the projection of its events.
pub fn finish(
    table: &CategoryTable,
    classified: Result<Vec<HighlightEvent>, tree_sitter_highlight::Error>,
    lookup: &Vec<usize>,
) -> (out: Result<Vec<ColoredSpan>, HighlightError>)
    requires
        rises_by_steps(lookup@),
    ensures
        classified is Err ==> out == Err::<Vec<ColoredSpan>, HighlightError>(
            HighlightError::Engine,
        ),
        classified matches Ok(events) ==> agrees(out, projection(table@, events@, lookup@)),
{
    match classified {
        Err(_) => Err(HighlightError::Engine),
        Ok(events) => project(table, &events, lookup),
    }
}

impl Handle {
    /// The category table, as a sequence of names and colours.
    pub closed spec fn table(&self) -> Seq<(Seq<char>, i32)> {
        self.table@
    }

    /// The compiled grammar, set to report the categories of the table.
    pub closed spec fn config(&self) -> tree_sitter_highlight::HighlightConfiguration {
        self.config
    }

    /// Makes a highlighter for the GLSL grammar that reports the categories
    /// `names`, in this order, and draws category `i` in `colors[i]`. The
    /// queries are those of this library. Fails where names and colours are
    /// not of one length, before anything is compiled, and where the
    /// queries do not compile.
    pub fn create(names: Vec<String>, colors: Vec<i32>) -> (out: Result<Handle, ConfigurationError>)
        ensures
            names@.len() != colors@.len() <==> out matches Err(ConfigurationError::LengthMismatch),
            out matches Ok(handle) ==> handle.table() == table_of(names@, colors@),
            exists|language: tree_sitter::Language|
                is_creation(
                    out,
                    creation(
                        names@,
                        colors@,
                        #[trigger] compiled(
                            language,
                            line_ended(GLSL_HIGHLIGHTS_QUERY@),
                            line_ended(GLSL_INJECTIONS_QUERY@),
                            line_ended(GLSL_LOCALS_QUERY@),
                        ),
                    ),
                ),
    {
        let language = glsl_language();
        let out = Handle::create_with(
            names,
            colors,
            language,
            GLSL_HIGHLIGHTS_QUERY,
            GLSL_INJECTIONS_QUERY,
            GLSL_LOCALS_QUERY,
        );
        assert(is_creation(
            out,
            creation(
                names@,
                colors@,
                compiled(
                    language,
                    line_ended(GLSL_HIGHLIGHTS_QUERY@),
                    line_ended(GLSL_INJECTIONS_QUERY@),
                    line_ended(GLSL_LOCALS_QUERY@),
                ),
            ),
        ));
        out
    }

    /// Makes a highlighter for `language` with the three query texts, that
    /// reports the categories `names`, in this order, and draws category
    /// `i` in `colors[i]`. Each text that is not empty is compiled with a
    /// line feed after it. Fails where names and colours are not of one
    /// length, before anything is compiled, and where a query does not
    /// compile.
    pub fn create_with(
        names: Vec<String>,
        colors: Vec<i32>,
        language: tree_sitter::Language,
        highlights: &str,
        injections: &str,
        locals: &str,
    ) -> (out: Result<Handle, ConfigurationError>)
        ensures
            is_creation(
                out,
                creation(
                    names@,
                    colors@,
                    compiled(
                        language,
                        line_ended(highlights@),
                        line_ended(injections@),
                        line_ended(locals@),
                    ),
                ),
            ),
    {
        match CategoryTable::new(names, colors) {
            None => Err(ConfigurationError::LengthMismatch),
            Some(table) => {
                let highlights = end_line(highlights);
                let injections = end_line(injections);
                let locals = end_line(locals);
                Handle::assemble(
                    table,
                    compile(language, highlights.as_str(), injections.as_str(), locals.as_str()),
                )
            },
        }
    }

    /// Finishes a highlighter from its table and the outcome of compiling
    /// the grammar: the error where that failed, else the handle, whose
    /// configuration is the compiled one told to recognize the table's
    /// names.
    pub fn assemble(
        table: CategoryTable,
        compiled: Result<tree_sitter_highlight::HighlightConfiguration, tree_sitter::QueryError>,
    ) -> (out: Result<Handle, ConfigurationError>)
        ensures
            compiled is Err <==> out matches Err(ConfigurationError::Grammar),
            compiled is Ok <==> out is Ok,
            out matches Ok(handle) ==> handle.table() == table@ && handle.config() == recognizing(
                compiled->Ok_0,
                names_of(table@),
            ),
    {
        match compiled {
            Err(_) => Err(ConfigurationError::Grammar),
            Ok(config) => {
                let mut config = config;
                recognize(&mut config, table.category_names());
                Ok(Handle { highlighter: new_highlighter(), config, table })
            },
        }
    }

    /// Ends the highlighter's life and releases the engine, the compiled
    /// grammar and the table. The handle is given up by the call, so it
    /// can be neither used nor destroyed again.
    pub fn destroy(self) {
    }

    /// The category table.
    pub fn categories(&self) -> (table: &CategoryTable)
        ensures
            table@ == self.table(),
    {
        &self.table
    }

    /// One highlighting pass over `source`: runs the engine on the bytes of
    /// the source and gives the coloured spans of its events. An empty
    /// source gives no spans and leaves the handle as it is. Where the
    /// engine fails or its events cannot be projected, the pass gives the
    /// error and no span. The table and the compiled grammar stay as they
    /// are.
    pub fn highlight(&mut self, source: &str) -> (out: Result<Vec<ColoredSpan>, HighlightError>)
        ensures
            final(self).table() == old(self).table(),
            final(self).config() == old(self).config(),
            source@.len() == 0 ==> *final(self) == *old(self) && out is Ok && out->Ok_0@.len() == 0,
            source@.len() > 0 ==> agrees(
                out,
                pass(
                    old(self).table(),
                    engine_events(old(self).config(), source.spec_bytes()),
                    offset_index_of(source@),
                ),
            ),
    {
        if source.is_empty() {
            return Ok(Vec::new());
        }
        let lookup = build_offset_index_lookup(source);
        let classified = classify(&mut self.highlighter, &self.config, source.as_bytes());
        finish(&self.table, classified, &lookup)
    }
}

/// Making a highlighter again from the same names, colours, grammar and
/// queries gives the same outcome: the same error, or a handle with the
/// same table and the same configuration.
pub proof fn lemma_creation_repeats(
    first: Result<Handle, ConfigurationError>,
    second: Result<Handle, ConfigurationError>,
    names: Seq<String>,
    colors: Seq<i32>,
    compiled: Option<tree_sitter_highlight::HighlightConfiguration>,
)
    requires
        is_creation(first, creation(names, colors, compiled)),
        is_creation(second, creation(names, colors, compiled)),
    ensures
        first is Ok <==> second is Ok,
        first matches Err(error) ==> second == Err::<Handle, ConfigurationError>(error),
        first matches Ok(one) ==> second matches Ok(other) && one.table() == other.table()
            && one.config() == other.config(),
{
}

/// Two highlighters with the same table and the same configuration, such
/// as one made anew after the other from the same input, give the same
/// outcome of a pass over the same source.
pub proof fn lemma_alike_handles_highlight_alike(
    first: Handle,
    second: Handle,
    source: Seq<u8>,
    lookup: Seq<usize>,
)
    requires
        first.table() == second.table(),
        first.config() == second.config(),
    ensures
        pass(first.table(), engine_events(first.config(), source), lookup) == pass(
            second.table(),
            engine_events(second.config(), source),
            lookup,
        ),
{
}

} // verus!
