use repopt::text::{chars_of, rank_chars, rank_text, Rank};

#[test]
fn texts_are_ranked_as_strings_are_ordered() {
    let samples = ["", "T", "T0001", "T0002", "T001", "T1", "P0001", "a", "é", "日本", "T0001x"];
    for a in samples {
        for b in samples {
            let expected = match a.cmp(b) {
                std::cmp::Ordering::Less => Rank::Before,
                std::cmp::Ordering::Equal => Rank::Same,
                std::cmp::Ordering::Greater => Rank::After,
            };
            assert_eq!(rank_text(a, b), expected, "{a:?} against {b:?}");
        }
    }
}

#[test]
fn characters_of_a_text() {
    assert_eq!(chars_of("Té1"), vec!['T', 'é', '1']);
    assert!(chars_of("").is_empty());
    assert_eq!(rank_chars(&vec!['a', 'b'], &vec!['a']), Rank::After);
    assert_eq!(rank_chars(&vec!['a'], &vec!['a', 'b']), Rank::Before);
}
