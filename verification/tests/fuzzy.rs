use gpam::fuzzy::{MAX_NEEDLE, can_score, rank, rank_scores};

#[test]
fn empty_query_returns_input_order() {
    let items = vec!["a", "b", "c"];
    assert_eq!(rank(&items, ""), vec![0, 1, 2]);
}

#[test]
fn ranks_matches_over_non_matches() {
    let items = vec!["alpha", "beta", "alpine"];
    let ranked = rank(&items, "alp");
    assert_eq!(ranked, vec![0, 2]);
}

#[test]
fn better_matches_come_first() {
    let items = vec!["x a l p", "alp", "none"];
    assert_eq!(rank(&items, "alp"), vec![1, 0]);
    assert_eq!(rank(&items, "ALP"), Vec::<usize>::new());
    assert_eq!(rank(&[], "alp"), Vec::<usize>::new());
}

#[test]
fn scores_sort_descending_and_stay_in_order() {
    let scores = vec![Some(3), None, Some(9), Some(3), Some(0)];
    assert_eq!(rank_scores(&scores), vec![2, 0, 3, 4]);
    assert_eq!(rank_scores(&vec![None]), Vec::<usize>::new());
}

#[test]
fn texts_that_can_be_scored() {
    assert!(can_score("s", "\u{17f}s"));
    assert!(can_score("s\u{e4}", "as\u{e4}"));
    assert!(!can_score("s\u{e4}", "\u{17f}s\u{e4}"));
    // Another first character, another atom or no marked letter.
    assert!(can_score("\u{e4}s", "\u{17f}s\u{e4}"));
    assert!(can_score("s \u{e4}", "\u{17f}s\u{e4}"));
    assert!(!can_score("s\\ \u{e4}", "\u{17f}s\u{e4}"));
    assert!(!can_score("x s\u{e4}", "\u{17f}s\u{e4}"));
    assert!(can_score("s\u{3b1}", "\u{17f}s\u{e4}"));
    for c in ['\u{b5}', '\u{3c2}', '\u{3f5}', '\u{13f8}', '\u{1c88}', '\u{abbf}'] {
        assert!(can_score("\u{e4}", &c.to_string()));
        assert!(can_score("\u{3b1}", &c.to_string()));
    }
    assert!(!can_score("\u{3c3}\u{e4}", "\u{3c2}"));
}

#[test]
fn long_queries_that_can_be_scored() {
    let longest = "a".repeat(MAX_NEEDLE);
    let longer = format!("{longest}a");
    let text = "b".repeat(MAX_NEEDLE + 1);
    assert!(can_score(&longest, &text));
    assert!(!can_score(&longer, &text));
    // A text that is too short for a match.
    assert!(can_score(&longer, &"b".repeat(MAX_NEEDLE)));
    assert!(can_score(&"a".repeat(2600), &"b".repeat(2596)));
    assert!(!can_score(&"a".repeat(2600), &"b".repeat(2597)));
    // Each atom by itself.
    assert!(can_score(&format!("{longest} {longest}"), &text));
    assert!(can_score(&format!("{longest}\\ {longest}"), &text));
    assert!(!can_score(&format!("{longest}\\ {longest}"), &"b".repeat(6000)));
    assert!(!can_score(&format!("{longer} {longest}"), &text));
    // Backslashes count twice beside a character that is not ASCII.
    let marked = format!("{text}\u{e4}");
    assert!(can_score(&"\\".repeat(MAX_NEEDLE), &marked));
    assert!(can_score(&format!("\u{e4}{}", "\\".repeat(1259)), &marked));
    assert!(!can_score(&format!("\u{e4}{}", "\\".repeat(1260)), &marked));
    // No ASCII text matches a needle that is not.
    assert!(can_score(&format!("\u{e4}{longest}"), &text));
}

#[test]
fn the_longest_needles_are_scored() {
    let longest = "a".repeat(MAX_NEEDLE);
    let gaps = "a ".repeat(MAX_NEEDLE);
    let doubled = format!("\u{e4}{}", "\\".repeat(1259));
    let marks = format!("\u{e4}{}", "\\".repeat(2600));
    assert_eq!(rank(&[&longest, &gaps], &longest).len(), 2);
    assert_eq!(rank(&[&marks, "x"], &doubled), vec![0]);
    assert_eq!(rank(&["\u{c4}mne", "as\u{e4}", "b"], "\u{e4}"), vec![0, 1]);
    assert_eq!(rank(&["a", "", "aaa"], &"a".repeat(9000)), Vec::<usize>::new());
    assert_eq!(rank(&["b", "a"], &format!("{}a", "a ".repeat(9000))), vec![1]);
}

#[test]
fn foreign_queries_are_scored() {
    assert_eq!(rank(&["\u{3c2}", "\u{3b1}", "\u{b5}\u{3b1}"], "\u{3b1}"), vec![1, 2]);
    assert_eq!(rank(&["\u{3c2}x", "y"], "\u{3c3}"), vec![0]);
    assert_eq!(rank(&["\u{3c2}", "\u{e9}t\u{e9}", "ete"], "\u{e9}t"), vec![1]);
}

/// The lower-case characters that case folding changes are those that
/// `can_score` takes into account, and they become what it says.
#[test]
fn odd_foldings_are_known() {
    for n in 128..0x11_0000u32 {
        if let Some(c) = char::from_u32(n) {
            let folded = nucleo_matcher::chars::to_lower_case(c);
            let odd = c.is_lowercase() && folded != c;
            let query = format!("{folded}\u{e4}");
            assert_eq!(can_score(&query, &c.to_string()), !odd, "{n:x}");
        }
    }
}

/// The characters that the matcher takes marks off are among those that
/// `can_score` takes into account.
#[test]
fn marked_letters_are_known() {
    for n in 0..0x11_0000u32 {
        if let Some(c) = char::from_u32(n) {
            let query = format!("s{c}");
            let ranges = (0xc0..=0x36f).contains(&n)
                || (0x1d00..=0x1ef1).contains(&n)
                || (0x2071..=0x2184).contains(&n);
            assert_eq!(can_score(&query, "\u{17f}"), !ranges, "{n:x}");
            assert!(ranges || nucleo_matcher::chars::normalize(c) == c, "{n:x}");
        }
    }
}
