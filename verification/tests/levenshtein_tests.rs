use visual_levenshtein::{levenshtein, levenshtein_words, t_delta, t_min_3, Edit, Transformation};

#[test]
fn debug() {
    let mut c = levenshtein("one", "only");
    println!("New: {:?}", c);
    c.initialize();
    println!("Initialized: {:?}", c);
    c.calculate_matrix();
    println!("Calculated: {:?}", c);
    let transforms = c.raw_edits();
    println!("Edits: {:?}", transforms);
}

#[test]
fn debug_words() {
    let mut c = levenshtein_words("one too many", "one too much, hey");
    println!("New: {:?}", c);
    c.initialize();
    println!("Initialized: {:?}", c);
    c.calculate_matrix();
    println!("Calculated: {:?}", c);
    let transforms = c.raw_edits();
    println!("Edits: {:?}", transforms);
}

#[test]
fn matrix_initializes_correctly() {
    let mut c = levenshtein("ab", "ab");
    c.initialize();
    let expected: Vec<Vec<Transformation>> = vec![
        vec![
            Transformation::Init(0),
            Transformation::Insertion(1, "a".to_string()),
            Transformation::Insertion(2, "b".to_string()),
        ],
        vec![
            Transformation::Deletion(1, "a".to_string()),
            Transformation::Init(0),
            Transformation::Init(0),
        ],
        vec![
            Transformation::Deletion(2, "b".to_string()),
            Transformation::Init(0),
            Transformation::Init(0),
        ],
    ];
    assert_eq!(expected, c.matrix);
}

#[test]
fn distance_checks() {
    assert_eq!(0, levenshtein("same", "same").distance());
    assert_eq!(1, levenshtein("same", "some").distance());
    assert_eq!(0, levenshtein("", "").distance());
    assert_eq!(3, levenshtein("kitten", "sitting").distance());
    assert_eq!(3, levenshtein("", "abc").distance());
    assert_eq!(3, levenshtein("abc", "").distance());
    assert_eq!(6, levenshtein("1234567", "7654321").distance());
    assert_eq!(4, levenshtein("11110000", "10101010").distance());
    assert_eq!(
        2,
        levenshtein("1010101010101010", "0101010101010101").distance()
    );
    assert_eq!(2, levenshtein("abcdefg", "gabcdef").distance());
}

#[test]
fn raw_edit_checks() {
    let mut test = levenshtein("kitten", "sitting").raw_edits();
    let mut expected = vec![
        Transformation::Substitution(1, "k".to_string(), "s".to_string()),
        Transformation::Equality(1, "i".to_string()),
        Transformation::Equality(1, "t".to_string()),
        Transformation::Equality(1, "t".to_string()),
        Transformation::Substitution(2, "e".to_string(), "i".to_string()),
        Transformation::Equality(2, "n".to_string()),
        Transformation::Insertion(3, "g".to_string()),
    ];
    assert_eq!(expected, test);

    test = levenshtein("Saturday", "Sunday").raw_edits();
    expected = vec![
        Transformation::Equality(0, "S".to_string()),
        Transformation::Deletion(1, "a".to_string()),
        Transformation::Deletion(2, "t".to_string()),
        Transformation::Equality(2, "u".to_string()),
        Transformation::Substitution(3, "r".to_string(), "n".to_string()),
        Transformation::Equality(3, "d".to_string()),
        Transformation::Equality(3, "a".to_string()),
        Transformation::Equality(3, "y".to_string()),
    ];
    assert_eq!(expected, test);

    test = levenshtein("", "").raw_edits();
    expected = vec![];
    assert_eq!(expected, test);
}

#[test]
fn grouped_edit_checks() {
    let mut test = levenshtein("kitten", "sitting").grouped_edits();
    let mut expected = vec![
        Edit::Substitution("k".to_string(), "s".to_string()),
        Edit::Equality("itt".to_string()),
        Edit::Substitution("e".to_string(), "i".to_string()),
        Edit::Equality("n".to_string()),
        Edit::Insertion("g".to_string()),
    ];
    assert_eq!(expected, test);

    test = levenshtein("Saturday", "Sunday").grouped_edits();
    expected = vec![
        Edit::Equality("S".to_string()),
        Edit::Deletion("at".to_string()),
        Edit::Equality("u".to_string()),
        Edit::Substitution("r".to_string(), "n".to_string()),
        Edit::Equality("day".to_string()),
    ];
    assert_eq!(expected, test);

    test = levenshtein("abc", "def").grouped_edits();
    expected = vec![Edit::Substitution("abc".to_string(), "def".to_string())];
    assert_eq!(expected, test);
}

#[test]
fn encoded_edits_checks() {
    let encoder = |e: Edit| match e {
        Edit::Equality(s) => format!("{}", s),
        Edit::Deletion(s) => format!("[-{}-]", s),
        Edit::Insertion(s) => format!("{{+{}+}}", s),
        Edit::Substitution(o, d) => format!("[-{}-]{{+{}+}}", o, d),
    };
    let test = levenshtein("cat", "cup").encoded_edits(encoder);
    let expected = "c[-at-]{+up+}".to_string();
    assert_eq!(expected, test);
}

#[test]
fn t_min_3_always_prefers_lowest_cost() {
    let insertion = Transformation::Insertion(1, "".to_string());
    let deletion = Transformation::Deletion(2, "".to_string());
    let equality = Transformation::Equality(3, "".to_string());
    assert_eq!(&insertion, t_min_3(&insertion, &deletion, &equality));

    let insertion = Transformation::Insertion(1, "".to_string());
    let deletion = Transformation::Deletion(2, "".to_string());
    let substitution = Transformation::Substitution(3, "".to_string(), "".to_string());
    assert_eq!(&insertion, t_min_3(&insertion, &deletion, &substitution));

    let insertion = Transformation::Insertion(3, "".to_string());
    let deletion = Transformation::Deletion(2, "".to_string());
    let equality = Transformation::Equality(1, "".to_string());
    assert_eq!(&equality, t_min_3(&insertion, &deletion, &equality));

    let insertion = Transformation::Insertion(3, "".to_string());
    let deletion = Transformation::Deletion(2, "".to_string());
    let substitution = Transformation::Substitution(1, "".to_string(), "".to_string());
    assert_eq!(&substitution, t_min_3(&insertion, &deletion, &substitution));

    let insertion = Transformation::Insertion(2, "".to_string());
    let deletion = Transformation::Deletion(1, "".to_string());
    let equality = Transformation::Equality(3, "".to_string());
    assert_eq!(&deletion, t_min_3(&insertion, &deletion, &equality));

    let insertion = Transformation::Insertion(2, "".to_string());
    let deletion = Transformation::Deletion(1, "".to_string());
    let substitution = Transformation::Substitution(3, "".to_string(), "".to_string());
    assert_eq!(&deletion, t_min_3(&insertion, &deletion, &substitution));
}

#[test]
fn t_min_3_prefers_deletion_to_insertion() {
    let insertion = Transformation::Insertion(1, "".to_string());
    let deletion = Transformation::Deletion(1, "".to_string());
    let equality = Transformation::Equality(100, "".to_string());
    assert_eq!(&deletion, t_min_3(&insertion, &deletion, &equality));

    let insertion = Transformation::Insertion(1, "".to_string());
    let deletion = Transformation::Deletion(1, "".to_string());
    let substitution = Transformation::Substitution(100, "".to_string(), "".to_string());
    assert_eq!(&deletion, t_min_3(&insertion, &deletion, &substitution));
}

#[test]
fn t_min_3_prefers_substitution_or_equality_to_insertion_or_deletion() {
    let insertion = Transformation::Insertion(1, "".to_string());
    let deletion = Transformation::Deletion(100, "".to_string());
    let equality = Transformation::Equality(1, "".to_string());
    assert_eq!(&equality, t_min_3(&insertion, &deletion, &equality));

    let insertion = Transformation::Insertion(1, "".to_string());
    let deletion = Transformation::Deletion(100, "".to_string());
    let substitution = Transformation::Substitution(1, "".to_string(), "".to_string());
    assert_eq!(&substitution, t_min_3(&insertion, &deletion, &substitution));

    let insertion = Transformation::Insertion(100, "".to_string());
    let deletion = Transformation::Deletion(1, "".to_string());
    let equality = Transformation::Equality(1, "".to_string());
    assert_eq!(&equality, t_min_3(&insertion, &deletion, &equality));

    let insertion = Transformation::Insertion(100, "".to_string());
    let deletion = Transformation::Deletion(1, "".to_string());
    let substitution = Transformation::Substitution(1, "".to_string(), "".to_string());
    assert_eq!(&substitution, t_min_3(&insertion, &deletion, &substitution));
}

#[test]
fn t_delta_checks() {
    assert_eq!(
        Transformation::Equality(0, "a".to_string()),
        t_delta(0, "a", "a")
    );
    assert_eq!(
        Transformation::Substitution(1, "a".to_string(), "b".to_string()),
        t_delta(0, "a", "b")
    );
    assert_eq!(
        Transformation::Equality(0, "a\u{310}".to_string()),
        t_delta(0, "a\u{310}", "a\u{310}")
    );
    assert_eq!(
        Transformation::Substitution(1, "a\u{310}".to_string(), "o\u{308}\u{332}".to_string()),
        t_delta(0, "a\u{310}", "o\u{308}\u{332}")
    );
    assert_eq!(
        Transformation::Equality(0, "\u{1f1f8}\u{1f1f9}".to_string()),
        t_delta(0, "\u{1f1f8}\u{1f1f9}", "\u{1f1f8}\u{1f1f9}")
    );
    assert_eq!(
        Transformation::Substitution(
            1,
            "\u{1f1f7}\u{1f1fa}".to_string(),
            "\u{1f1f8}\u{1f1f9}".to_string()
        ),
        t_delta(0, "\u{1f1f7}\u{1f1fa}", "\u{1f1f8}\u{1f1f9}")
    );
}
