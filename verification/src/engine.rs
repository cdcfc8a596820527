//! The classification engine: the tree-sitter highlighter with the GLSL
//! grammar. Everything here is trusted rather than proved: the engine's
//! results are named, and the calls are said to give what the names stand
//! for.

use crate::table::name_texts;
use crate::translate::HighlightEvent;
use vstd::prelude::*;

verus! {

#[verifier::external_type_specification]
#[verifier::external_body]
pub struct ExLanguage(tree_sitter::Language);

#[verifier::external_type_specification]
#[verifier::external_body]
pub struct ExQueryError(tree_sitter::QueryError);

#[verifier::external_type_specification]
#[verifier::external_body]
pub struct ExHighlighter(tree_sitter_highlight::Highlighter);

#[verifier::external_type_specification]
#[verifier::external_body]
pub struct ExHighlightConfiguration(tree_sitter_highlight::HighlightConfiguration);

#[verifier::external_type_specification]
#[verifier::external_body]
pub struct ExEngineError(tree_sitter_highlight::Error);

/// What `HighlightConfiguration::new` makes of a grammar and the texts of
/// its highlight, injection and locals queries: the configuration, or
/// `None` where a query does not compile.
pub uninterp spec fn compiled(
    language: tree_sitter::Language,
    highlights: Seq<char>,
    injections: Seq<char>,
    locals: Seq<char>,
) -> Option<tree_sitter_highlight::HighlightConfiguration>;

/// The configuration that `HighlightConfiguration::configure` leaves when
/// it is told to recognize `names`: the engine then reports a category by
/// its position among them.
pub uninterp spec fn recognizing(
    config: tree_sitter_highlight::HighlightConfiguration,
    names: Seq<Seq<char>>,
) -> tree_sitter_highlight::HighlightConfiguration;

/// The events that `Highlighter::highlight` gives for the bytes `source`
/// under `config`, with no cancellation flag and no injected languages, when
/// run to its end; `None` where the engine fails at the start or at any
/// event.
pub uninterp spec fn engine_events(
    config: tree_sitter_highlight::HighlightConfiguration,
    source: Seq<u8>,
) -> Option<Seq<HighlightEvent>>;

/// `tree_sitter_glsl::language`: the GLSL grammar. Nothing is claimed of it.
#[verifier::external_body]
pub(crate) fn glsl_language() -> tree_sitter::Language {
    tree_sitter_glsl::language()
}

/// `text` is empty or its last character is a line feed.
pub open spec fn ends_in_line_feed(text: Seq<char>) -> bool {
    text.len() == 0 || text.last() == '\n'
}

/// `HighlightConfiguration::new`: compiles the three queries against the
/// grammar. Trusted: the outcome depends on the grammar and the three texts
/// alone, and a query that does not compile comes back as the error. Each
/// text must be empty or end in a line feed: where a text ends inside a
/// name that the grammar does not know, `Query::new` panics while it cuts
/// the name out for its error.
#[verifier::external_body]
pub(crate) fn compile(
    language: tree_sitter::Language,
    highlights: &str,
    injections: &str,
    locals: &str,
) -> (out: Result<tree_sitter_highlight::HighlightConfiguration, tree_sitter::QueryError>)
    requires
        ends_in_line_feed(highlights@),
        ends_in_line_feed(injections@),
        ends_in_line_feed(locals@),
    ensures
        out matches Ok(config) ==> compiled(language, highlights@, injections@, locals@) == Some(
            config,
        ),
        out is Err ==> compiled(language, highlights@, injections@, locals@) is None,
{
    tree_sitter_highlight::HighlightConfiguration::new(language, highlights, injections, locals)
}

/// `HighlightConfiguration::configure`: sets the names whose positions the
/// engine reports as category numbers. Trusted: the configuration
/// afterwards depends on the one before and on the names alone.
#[verifier::external_body]
pub(crate) fn recognize(
    config: &mut tree_sitter_highlight::HighlightConfiguration,
    names: &Vec<String>,
)
    ensures
        *final(config) == recognizing(*old(config), name_texts(names@)),
{
    config.configure(names.as_slice())
}

/// `Highlighter::new`: a fresh engine. Nothing is claimed of it.
#[verifier::external_body]
pub(crate) fn new_highlighter() -> tree_sitter_highlight::Highlighter {
    tree_sitter_highlight::Highlighter::new()
}

/// `Highlighter::highlight`, with no cancellation flag and no injected
/// languages, run to its end: the events in the order the engine gives
/// them, or the first error. Trusted: the outcome depends on the
/// configuration and the bytes alone, whatever the engine was used for
/// before. Nothing is claimed of what the events are.
#[verifier::external_body]
pub(crate) fn classify(
    highlighter: &mut tree_sitter_highlight::Highlighter,
    config: &tree_sitter_highlight::HighlightConfiguration,
    source: &[u8],
) -> (out: Result<Vec<HighlightEvent>, tree_sitter_highlight::Error>)
    ensures
        out matches Ok(events) ==> engine_events(*config, source@) == Some(events@),
        out is Err ==> engine_events(*config, source@) is None,
{
    highlighter.highlight(config, source, None, |_| None)?.map(
        |item| item.map(
            |event| match event {
                tree_sitter_highlight::HighlightEvent::HighlightStart(highlight) =>
                    HighlightEvent::CategoryStart(highlight.0),
                tree_sitter_highlight::HighlightEvent::Source { start, end } =>
                    HighlightEvent::SourceRange { start, end },
                tree_sitter_highlight::HighlightEvent::HighlightEnd => HighlightEvent::CategoryEnd,
            },
        ),
    ).collect()
}

} // verus!
