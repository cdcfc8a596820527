use glsl_highlight::grammar::{GLSL_HIGHLIGHTS_QUERY, GLSL_INJECTIONS_QUERY, GLSL_LOCALS_QUERY};
use glsl_highlight::highlighter::{
    end_line, finish, project, ConfigurationError, Handle, HighlightError,
};
use glsl_highlight::offset_index::build_offset_index_lookup;
use glsl_highlight::table::{CategoryTable, ColoredSpan};
use glsl_highlight::translate::HighlightEvent;

fn names(list: &[&str]) -> Vec<String> {
    list.iter().map(|name| name.to_string()).collect()
}

fn colored(category: usize, color: i32, start: usize, end: usize) -> ColoredSpan {
    ColoredSpan { category, color, start, end }
}

fn keyword_and_comment() -> Handle {
    match Handle::create(names(&["keyword", "comment"]), vec![0xFF0000, 0x00FF00]) {
        Ok(handle) => handle,
        Err(error) => panic!("no highlighter: {:?}", error),
    }
}

#[test]
fn create_fails_on_mismatched_lengths() {
    assert!(matches!(
        Handle::create(names(&["keyword", "comment"]), vec![0xFF0000]),
        Err(ConfigurationError::LengthMismatch)
    ));
    assert!(matches!(
        Handle::create(names(&["keyword"]), vec![1, 2]),
        Err(ConfigurationError::LengthMismatch)
    ));
    assert!(matches!(
        Handle::create(Vec::new(), vec![1]),
        Err(ConfigurationError::LengthMismatch)
    ));
}

#[test]
fn create_keeps_the_table() {
    let handle = keyword_and_comment();
    assert_eq!(handle.categories().len(), 2);
    assert_eq!(handle.categories().category_names(), &names(&["keyword", "comment"]));
    assert_eq!(handle.categories().color_of(0), Some(0xFF0000));
    assert_eq!(handle.categories().color_of(1), Some(0x00FF00));
}

#[test]
fn assemble_gives_the_grammar_error_where_compiling_failed() {
    let table = CategoryTable::new(names(&["keyword"]), vec![1]).unwrap();
    let failed = tree_sitter::QueryError {
        row: 0,
        column: 0,
        offset: 0,
        message: String::new(),
        kind: tree_sitter::QueryErrorKind::Syntax,
    };
    assert!(matches!(
        Handle::assemble(table, Err(failed)),
        Err(ConfigurationError::Grammar)
    ));
}

#[test]
fn assemble_recognizes_the_names_of_the_table() {
    let table = CategoryTable::new(names(&["number", "comment"]), vec![7, 8]).unwrap();
    let compiled = tree_sitter_highlight::HighlightConfiguration::new(
        tree_sitter_glsl::language(),
        "(comment) @comment (number_literal) @number",
        "",
        "",
    );
    let mut handle = match Handle::assemble(table, compiled) {
        Ok(handle) => handle,
        Err(error) => panic!("no highlighter: {:?}", error),
    };
    assert_eq!(
        handle.highlight("1 // x"),
        Ok(vec![colored(0, 7, 0, 1), colored(1, 8, 2, 6)])
    );
}

#[test]
fn empty_source_gives_no_spans() {
    let mut handle = keyword_and_comment();
    assert_eq!(handle.highlight(""), Ok(Vec::new()));
}

#[test]
fn empty_table_gives_no_spans() {
    let mut handle = match Handle::create(Vec::new(), Vec::new()) {
        Ok(handle) => handle,
        Err(error) => panic!("no highlighter: {:?}", error),
    };
    assert_eq!(handle.highlight("const float x = 1.0; // c"), Ok(Vec::new()));
}

#[test]
fn comment_scenario_gives_one_green_span() {
    let mut handle = keyword_and_comment();
    assert_eq!(
        handle.highlight("// hi"),
        Ok(vec![colored(1, 0x00FF00, 0, 5)])
    );
}

#[test]
fn comment_scenario_from_its_events() {
    let table = CategoryTable::new(names(&["keyword", "comment"]), vec![0xFF0000, 0x00FF00])
        .unwrap();
    let lookup = build_offset_index_lookup("// hi");
    let events = vec![
        HighlightEvent::CategoryStart(1),
        HighlightEvent::SourceRange { start: 0, end: 5 },
        HighlightEvent::CategoryEnd,
    ];
    assert_eq!(
        project(&table, &events, &lookup),
        Ok(vec![colored(1, 0x00FF00, 0, 5)])
    );
}

#[test]
fn emoji_in_a_comment_is_one_cluster() {
    let mut handle = keyword_and_comment();
    let source = "// \u{1F600}";
    assert_eq!(source.len(), 7);
    assert_eq!(
        handle.highlight(source),
        Ok(vec![colored(1, 0x00FF00, 0, 4)])
    );
}

#[test]
fn spans_after_wide_characters_are_counted_in_clusters() {
    let mut handle = match Handle::create(
        names(&["keyword", "type", "number", "comment", "variable"]),
        vec![1, 2, 3, 4, 5],
    ) {
        Ok(handle) => handle,
        Err(error) => panic!("no highlighter: {:?}", error),
    };
    assert_eq!(
        handle.highlight("const float x = 1.0; // \u{e9}\u{1F600} ok"),
        Ok(vec![
            colored(0, 1, 0, 5),
            colored(1, 2, 6, 11),
            colored(4, 5, 12, 13),
            colored(2, 3, 16, 19),
            colored(3, 4, 21, 29),
        ])
    );
}

#[test]
fn keywords_and_comments_of_a_small_shader() {
    let mut handle = keyword_and_comment();
    assert_eq!(
        handle.highlight("void main() { return; } // end"),
        Ok(vec![colored(0, 0xFF0000, 14, 20), colored(1, 0x00FF00, 24, 30)])
    );
}

#[test]
fn category_inside_another_gives_both_spans() {
    // the engine opens the type `int` inside the type `unsigned int`
    let mut handle = match Handle::create(names(&["type"]), vec![9]) {
        Ok(handle) => handle,
        Err(error) => panic!("no highlighter: {:?}", error),
    };
    assert_eq!(
        handle.highlight("unsigned int x;"),
        Ok(vec![colored(0, 9, 9, 12), colored(0, 9, 0, 9)])
    );
    assert_eq!(handle.highlight("int x;"), Ok(vec![colored(0, 9, 0, 3)]));
}

#[test]
fn destroyed_handle_is_gone() {
    let handle = keyword_and_comment();
    handle.destroy();
    let mut again = keyword_and_comment();
    assert_eq!(again.highlight("// hi"), Ok(vec![colored(1, 0x00FF00, 0, 5)]));
}

#[test]
fn handle_can_be_used_again() {
    let mut handle = keyword_and_comment();
    let first = handle.highlight("// a\nreturn;");
    let second = handle.highlight("// hi");
    let third = handle.highlight("// a\nreturn;");
    assert_eq!(second, Ok(vec![colored(1, 0x00FF00, 0, 5)]));
    assert_eq!(first, third);
}

#[test]
fn new_handle_from_the_same_input_highlights_alike() {
    let source = "uniform vec2 size; // \u{1F600}\nvoid main() { if (size.x > 1.0) return; }";
    let mut first = keyword_and_comment();
    let before = first.highlight(source);
    drop(first);
    let mut second = keyword_and_comment();
    let after = second.highlight(source);
    assert!(before.is_ok());
    assert_eq!(before, after);
}

#[test]
fn project_refuses_events_that_cannot_be_taken() {
    let table = CategoryTable::new(names(&["keyword"]), vec![1]).unwrap();
    let lookup = build_offset_index_lookup("abc");
    let events = vec![
        HighlightEvent::CategoryStart(0),
        HighlightEvent::SourceRange { start: 0, end: 9 },
        HighlightEvent::CategoryEnd,
    ];
    assert_eq!(
        project(&table, &events, &lookup),
        Err(HighlightError::MalformedEvents)
    );
}

#[test]
fn project_refuses_a_category_outside_the_table() {
    let table = CategoryTable::new(names(&["keyword"]), vec![1]).unwrap();
    let lookup = build_offset_index_lookup("abc");
    let events = vec![
        HighlightEvent::CategoryStart(1),
        HighlightEvent::SourceRange { start: 0, end: 3 },
        HighlightEvent::CategoryEnd,
    ];
    assert_eq!(
        project(&table, &events, &lookup),
        Err(HighlightError::UnknownCategory)
    );
}

#[test]
fn project_colors_a_category_inside_another() {
    let table = CategoryTable::new(names(&["keyword", "comment"]), vec![1, 2]).unwrap();
    let lookup = build_offset_index_lookup("abcdef");
    let events = vec![
        HighlightEvent::CategoryStart(0),
        HighlightEvent::CategoryStart(1),
        HighlightEvent::SourceRange { start: 0, end: 3 },
        HighlightEvent::CategoryEnd,
        HighlightEvent::SourceRange { start: 3, end: 6 },
        HighlightEvent::CategoryEnd,
    ];
    assert_eq!(
        project(&table, &events, &lookup),
        Ok(vec![colored(1, 2, 0, 3), colored(0, 1, 3, 6)])
    );
}

#[test]
fn project_refuses_an_end_with_nothing_open() {
    let table = CategoryTable::new(names(&["keyword", "comment"]), vec![1, 2]).unwrap();
    let lookup = build_offset_index_lookup("abcdef");
    let events = vec![
        HighlightEvent::CategoryStart(0),
        HighlightEvent::SourceRange { start: 0, end: 3 },
        HighlightEvent::CategoryEnd,
        HighlightEvent::CategoryEnd,
    ];
    assert_eq!(
        project(&table, &events, &lookup),
        Err(HighlightError::MalformedEvents)
    );
}

#[test]
fn finish_gives_the_engine_error_and_no_span() {
    let table = CategoryTable::new(names(&["keyword"]), vec![1]).unwrap();
    let lookup = build_offset_index_lookup("abc");
    assert_eq!(
        finish(&table, Err(tree_sitter_highlight::Error::Unknown), &lookup),
        Err(HighlightError::Engine)
    );
    assert_eq!(
        finish(&table, Err(tree_sitter_highlight::Error::Cancelled), &lookup),
        Err(HighlightError::Engine)
    );
    assert_eq!(
        finish(&table, Err(tree_sitter_highlight::Error::InvalidLanguage), &lookup),
        Err(HighlightError::Engine)
    );
}

#[test]
fn finish_projects_the_events_of_the_engine() {
    let table = CategoryTable::new(names(&["keyword", "comment"]), vec![0xFF0000, 0x00FF00])
        .unwrap();
    let lookup = build_offset_index_lookup("// \u{1F600}");
    let events = vec![
        HighlightEvent::CategoryStart(1),
        HighlightEvent::SourceRange { start: 0, end: 7 },
        HighlightEvent::CategoryEnd,
    ];
    assert_eq!(
        finish(&table, Ok(events), &lookup),
        Ok(vec![colored(1, 0x00FF00, 0, 4)])
    );
    let malformed = vec![
        HighlightEvent::CategoryStart(1),
        HighlightEvent::SourceRange { start: 0, end: 8 },
        HighlightEvent::CategoryEnd,
    ];
    assert_eq!(
        finish(&table, Ok(malformed), &lookup),
        Err(HighlightError::MalformedEvents)
    );
}

#[test]
fn create_with_takes_the_queries_it_is_given() {
    let mut handle = match Handle::create_with(
        names(&["number", "comment"]),
        vec![7, 8],
        tree_sitter_glsl::language(),
        "(comment) @comment (number_literal) @number",
        "",
        "",
    ) {
        Ok(handle) => handle,
        Err(error) => panic!("no highlighter: {:?}", error),
    };
    assert_eq!(
        handle.highlight("return 1; // x"),
        Ok(vec![colored(0, 7, 7, 8), colored(1, 8, 10, 14)])
    );
}

#[test]
fn create_with_reports_categories_in_the_order_of_the_names() {
    let source = "1 // x";
    let query = "(comment) @comment (number_literal) @number";
    let mut one = match Handle::create_with(
        names(&["number", "comment"]),
        vec![7, 8],
        tree_sitter_glsl::language(),
        query,
        "",
        "",
    ) {
        Ok(handle) => handle,
        Err(error) => panic!("no highlighter: {:?}", error),
    };
    let mut other = match Handle::create_with(
        names(&["comment", "number"]),
        vec![7, 8],
        tree_sitter_glsl::language(),
        query,
        "",
        "",
    ) {
        Ok(handle) => handle,
        Err(error) => panic!("no highlighter: {:?}", error),
    };
    assert_eq!(
        one.highlight(source),
        Ok(vec![colored(0, 7, 0, 1), colored(1, 8, 2, 6)])
    );
    assert_eq!(
        other.highlight(source),
        Ok(vec![colored(1, 8, 0, 1), colored(0, 7, 2, 6)])
    );
}

#[test]
fn create_with_fails_where_a_query_does_not_compile() {
    assert!(matches!(
        Handle::create_with(
            names(&["comment"]),
            vec![1],
            tree_sitter_glsl::language(),
            "(comment @comment",
            "",
            "",
        ),
        Err(ConfigurationError::Grammar)
    ));
    assert!(matches!(
        Handle::create_with(
            names(&["comment"]),
            vec![1],
            tree_sitter_glsl::language(),
            "(comment) @comment",
            "(no_such_node) @injection.content",
            "",
        ),
        Err(ConfigurationError::Grammar)
    ));
}

#[test]
fn create_with_looks_at_the_lengths_first() {
    assert!(matches!(
        Handle::create_with(
            names(&["comment"]),
            vec![1, 2],
            tree_sitter_glsl::language(),
            "(comment @comment",
            "",
            "",
        ),
        Err(ConfigurationError::LengthMismatch)
    ));
}

#[test]
fn creating_again_with_the_same_queries_highlights_alike() {
    let source = "float x = 2.5; // \u{e9}";
    let query = "(comment) @comment (number_literal) @number";
    let mut first = Handle::create_with(
        names(&["number", "comment"]),
        vec![7, 8],
        tree_sitter_glsl::language(),
        query,
        "",
        "",
    )
    .ok()
    .unwrap();
    let before = first.highlight(source);
    first.destroy();
    let mut second = Handle::create_with(
        names(&["number", "comment"]),
        vec![7, 8],
        tree_sitter_glsl::language(),
        query,
        "",
        "",
    )
    .ok()
    .unwrap();
    let after = second.highlight(source);
    assert_eq!(before, Ok(vec![colored(0, 7, 10, 13), colored(1, 8, 15, 19)]));
    assert_eq!(before, after);
}

#[test]
fn create_with_fails_where_a_text_ends_inside_an_unknown_name() {
    assert!(matches!(
        Handle::create_with(
            names(&["comment"]),
            vec![1],
            tree_sitter_glsl::language(),
            "(no_such_node",
            "",
            "",
        ),
        Err(ConfigurationError::Grammar)
    ));
    assert!(matches!(
        Handle::create_with(
            names(&["comment"]),
            vec![1],
            tree_sitter_glsl::language(),
            "(comment) @comment",
            "(no_such_node",
            "",
        ),
        Err(ConfigurationError::Grammar)
    ));
    assert!(matches!(
        Handle::create_with(
            names(&["comment"]),
            vec![1],
            tree_sitter_glsl::language(),
            "",
            "",
            "(comment no_such_field",
        ),
        Err(ConfigurationError::Grammar)
    ));
    assert!(matches!(
        Handle::create_with(
            names(&["comment"]),
            vec![1],
            tree_sitter_glsl::language(),
            "((comment) @comment (#eq? @no_such_capture",
            "",
            "",
        ),
        Err(ConfigurationError::Grammar)
    ));
}

#[test]
fn create_with_takes_a_text_without_a_last_line_feed() {
    let mut handle = match Handle::create_with(
        names(&["comment"]),
        vec![4],
        tree_sitter_glsl::language(),
        "(comment) @comment",
        "",
        "",
    ) {
        Ok(handle) => handle,
        Err(error) => panic!("no highlighter: {:?}", error),
    };
    assert_eq!(handle.highlight("// hi"), Ok(vec![colored(0, 4, 0, 5)]));
}

#[test]
fn end_line_adds_one_line_feed_to_a_text_that_is_not_empty() {
    assert_eq!(end_line(""), "");
    assert_eq!(end_line("(comment) @comment"), "(comment) @comment\n");
    assert_eq!(end_line("a\n"), "a\n\n");
}

#[test]
fn queries_are_those_of_the_grammar() {
    assert_eq!(GLSL_HIGHLIGHTS_QUERY, tree_sitter_glsl::HIGHLIGHTS_QUERY);
    assert_eq!(GLSL_INJECTIONS_QUERY, "");
    assert_eq!(GLSL_LOCALS_QUERY, "");
}
