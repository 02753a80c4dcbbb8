use visual_levenshtein::{levenshtein, levenshtein_words, Edit};

#[test]
fn distance_of_text_to_itself_is_zero() {
    assert_eq!(0, levenshtein("", "").distance());
    assert_eq!(0, levenshtein("alpha beta", "alpha beta").distance());
    assert_eq!(
        0,
        levenshtein("o\u{308}\u{332}x", "o\u{308}\u{332}x").distance()
    );
    assert_eq!(0, levenshtein_words("one too many", "one too many").distance());
}

#[test]
fn distance_is_symmetric() {
    assert_eq!(
        levenshtein("kitten", "sitting").distance(),
        levenshtein("sitting", "kitten").distance()
    );
    assert_eq!(
        levenshtein("Saturday", "Sunday").distance(),
        levenshtein("Sunday", "Saturday").distance()
    );
    assert_eq!(
        levenshtein("abc", "").distance(),
        levenshtein("", "abc").distance()
    );
}

#[test]
fn distance_obeys_triangle_inequality() {
    let pairs = [
        ("kitten", "sitting", "mitten"),
        ("Saturday", "Sunday", "Monday"),
        ("", "abc", "abcdef"),
        ("cat", "cup", "cap"),
    ];
    for (a, b, c) in pairs {
        let ac = levenshtein(a, c).distance();
        let ab = levenshtein(a, b).distance();
        let bc = levenshtein(b, c).distance();
        assert!(ac <= ab + bc);
    }
}

#[test]
fn distance_to_empty_is_token_count() {
    assert_eq!(3, levenshtein("", "abc").distance());
    assert_eq!(3, levenshtein("abc", "").distance());
    // one grapheme cluster of three code points counts as one token
    assert_eq!(1, levenshtein("", "o\u{308}\u{332}").distance());
    assert_eq!(1, levenshtein("o\u{308}\u{332}", "").distance());
    // word mode: words and the spaces between them each count once
    assert_eq!(5, levenshtein_words("one too many", "").distance());
}

#[test]
fn grouped_edits_reconstruct_both_texts() {
    let cases = [
        ("Saturday", "Sunday"),
        ("kitten", "sitting"),
        ("", "abc"),
        ("abc", ""),
        ("1234567", "7654321"),
    ];
    for (origin, dest) in cases {
        let grouped = levenshtein(origin, dest).grouped_edits();
        let mut rebuilt_origin = String::new();
        let mut rebuilt_dest = String::new();
        for e in &grouped {
            match e {
                Edit::Equality(s) => {
                    rebuilt_origin.push_str(s);
                    rebuilt_dest.push_str(s);
                }
                Edit::Deletion(s) => rebuilt_origin.push_str(s),
                Edit::Insertion(s) => rebuilt_dest.push_str(s),
                Edit::Substitution(o, d) => {
                    rebuilt_origin.push_str(o);
                    rebuilt_dest.push_str(d);
                }
            }
        }
        assert_eq!(origin, rebuilt_origin);
        assert_eq!(dest, rebuilt_dest);
    }
}

#[test]
fn adjacent_grouped_edits_differ_in_kind() {
    let kind_of = |e: &Edit| match e {
        Edit::Equality(_) => 1,
        Edit::Deletion(_) => 2,
        Edit::Insertion(_) => 3,
        Edit::Substitution(_, _) => 4,
    };
    let cases = [("Saturday", "Sunday"), ("kitten", "sitting"), ("abc", "def")];
    for (origin, dest) in cases {
        let grouped = levenshtein(origin, dest).grouped_edits();
        for w in grouped.windows(2) {
            assert_ne!(kind_of(&w[0]), kind_of(&w[1]));
        }
    }
}

#[test]
fn grouping_an_empty_script_gives_no_edits() {
    let grouped = levenshtein("", "").grouped_edits();
    let expected: Vec<Edit> = vec![];
    assert_eq!(expected, grouped);
}

#[test]
fn word_mode_groups_whole_segments() {
    let mut test = levenshtein_words("a b", "a c").grouped_edits();
    let mut expected = vec![
        Edit::Equality("a ".to_string()),
        Edit::Substitution("b".to_string(), "c".to_string()),
    ];
    assert_eq!(expected, test);

    test = levenshtein_words("one too many", "one too many").grouped_edits();
    expected = vec![Edit::Equality("one too many".to_string())];
    assert_eq!(expected, test);
}

#[test]
fn encoded_edits_renders_saturday_to_sunday() {
    let encoder = |e: Edit| match e {
        Edit::Equality(s) => format!("{}", s),
        Edit::Deletion(s) => format!("[-{}-]", s),
        Edit::Insertion(s) => format!("{{+{}+}}", s),
        Edit::Substitution(o, d) => format!("[-{}-]{{+{}+}}", o, d),
    };
    let test = levenshtein("Saturday", "Sunday").encoded_edits(encoder);
    assert_eq!("S[-at-]u[-r-]{+n+}day".to_string(), test);
}

#[test]
fn grapheme_mode_compares_whole_clusters() {
    // the two texts differ only in one combining mark, so the single
    // clusters differ as wholes
    assert_eq!(1, levenshtein("a\u{310}", "a\u{311}").distance());
    // flag emoji are one cluster of two code points
    assert_eq!(
        1,
        levenshtein("\u{1f1f7}\u{1f1fa}", "\u{1f1f8}\u{1f1f9}").distance()
    );
}
