use glsl_highlight::offset_index::{build_offset_index_lookup, lookup_from_starts};

#[test]
fn empty_string_has_empty_lookup() {
    assert_eq!(build_offset_index_lookup(""), Vec::<usize>::new());
}

#[test]
fn ascii_maps_each_byte_to_itself() {
    assert_eq!(build_offset_index_lookup("// hi"), vec![0, 1, 2, 3, 4]);
}

#[test]
fn emoji_of_four_bytes_is_one_cluster() {
    let source = "a\u{1F600}b";
    assert_eq!(source.len(), 6);
    assert_eq!(build_offset_index_lookup(source), vec![0, 1, 1, 1, 1, 2]);
}

#[test]
fn combining_marks_stay_with_their_base() {
    // three clusters of 3, 3 and 5 bytes
    let source = "a\u{310}e\u{301}o\u{308}\u{332}";
    assert_eq!(
        build_offset_index_lookup(source),
        vec![0, 0, 0, 1, 1, 1, 2, 2, 2, 2, 2]
    );
}

#[test]
fn carriage_return_and_line_feed_are_one_cluster() {
    assert_eq!(build_offset_index_lookup("a\r\nb"), vec![0, 1, 1, 2]);
}

#[test]
fn regional_indicators_pair_up() {
    // two flags of two code points of four bytes each
    let source = "\u{1F1F7}\u{1F1FA}\u{1F1F8}\u{1F1F9}";
    let mut expected = vec![0usize; 8];
    expected.extend(vec![1usize; 8]);
    assert_eq!(build_offset_index_lookup(source), expected);
}

#[test]
fn two_byte_character_repeats_its_index() {
    assert_eq!(build_offset_index_lookup("\u{e9}x"), vec![0, 0, 1]);
}

#[test]
fn lookup_has_one_entry_per_byte_and_rises_by_steps() {
    let sources = [
        "",
        "x",
        "void main() { gl_FragColor = vec4(1.0); }",
        "// \u{1F600} \u{e9}\u{301} \r\n\t\u{1F1F7}\u{1F1FA}",
        "\u{0}\u{7f}\u{80}\u{7ff}\u{800}\u{ffff}\u{10000}\u{10ffff}",
    ];
    for source in sources {
        let lookup = build_offset_index_lookup(source);
        assert_eq!(lookup.len(), source.len());
        if !lookup.is_empty() {
            assert_eq!(lookup[0], 0);
        }
        for b in 1..lookup.len() {
            assert!(lookup[b] == lookup[b - 1] || lookup[b] == lookup[b - 1] + 1);
            // a new cluster begins on a character boundary only
            if lookup[b] != lookup[b - 1] {
                assert!(source.is_char_boundary(b));
            }
        }
    }
}

#[test]
fn building_twice_gives_the_same_lookup() {
    let source = "float a\u{310} = 1.0; // \u{1F600}";
    assert_eq!(
        build_offset_index_lookup(source),
        build_offset_index_lookup(source)
    );
}

#[test]
fn lookup_from_starts_repeats_each_index_over_its_bytes() {
    assert_eq!(lookup_from_starts(&vec![0, 1, 5], 6), vec![0, 1, 1, 1, 1, 2]);
    assert_eq!(lookup_from_starts(&vec![0, 3, 6], 11), vec![0, 0, 0, 1, 1, 1, 2, 2, 2, 2, 2]);
}

#[test]
fn lookup_from_starts_of_one_cluster() {
    assert_eq!(lookup_from_starts(&vec![0], 1), vec![0]);
    assert_eq!(lookup_from_starts(&vec![0], 4), vec![0, 0, 0, 0]);
}

#[test]
fn lookup_from_starts_of_nothing_is_empty() {
    assert_eq!(lookup_from_starts(&Vec::new(), 0), Vec::<usize>::new());
}

#[test]
fn lookup_from_starts_of_single_bytes_counts_up() {
    assert_eq!(lookup_from_starts(&vec![0, 1, 2, 3], 4), vec![0, 1, 2, 3]);
}
