use radical_drill::convert::{
    can_extract_codes, classify, classify_all, code_point_of, extract_codes, extract_radicals,
    scan_with_cases, to_ascii_lower, try_extract_codes, width_of, LetterCase,
};

fn strings(items: &[&str]) -> Vec<String> {
    items.iter().map(|s| s.to_string()).collect()
}

#[test]
fn plain_characters_are_radicals_of_their_own() {
    assert_eq!(extract_radicals("日月"), strings(&["日", "月"]));
    assert_eq!(extract_radicals(""), Vec::<String>::new());
}

#[test]
fn braces_name_one_radical() {
    assert_eq!(extract_radicals("木{横日}口"), strings(&["木", "{横日}", "口"]));
    assert_eq!(extract_radicals("{a}{b}"), strings(&["{a}", "{b}"]));
}

#[test]
fn unbalanced_braces_are_dropped() {
    assert_eq!(extract_radicals("a}b"), strings(&["a", "b"]));
    assert_eq!(extract_radicals("a{bc"), strings(&["a"]));
    assert_eq!(extract_radicals("{ab{cd}e"), strings(&["{cd}", "e"]));
    assert_eq!(extract_radicals("{}x"), strings(&["{}", "x"]));
}

#[test]
fn capitals_start_codes() {
    assert_eq!(extract_codes("AbCd", true), strings(&["ab", "cd"]));
    assert_eq!(extract_codes("AbCd", false), strings(&["ab", "cd"]));
    assert_eq!(extract_codes("ABC", false), strings(&["a", "b", "c"]));
    assert_eq!(extract_codes("", false), Vec::<String>::new());
}

#[test]
fn long_codes_are_cut_unless_kept() {
    assert_eq!(extract_codes("AbcDef", false), strings(&["ab", "de"]));
    assert_eq!(extract_codes("AbcDef", true), strings(&["abc", "def"]));
}

#[test]
fn other_characters_end_a_code() {
    assert_eq!(extract_codes("Ab cD-e", true), strings(&["ab", "d"]));
    assert_eq!(extract_codes("xyAb", true), strings(&["ab"]));
    assert_eq!(extract_codes("A1b", true), strings(&["a"]));
}

#[test]
fn circled_letters_become_plain() {
    assert_eq!(extract_codes("Aⓑⓒ", true), strings(&["abc"]));
    assert_eq!(extract_codes("Aⓑⓒ", false), strings(&["ab"]));
    assert_eq!(extract_codes("Zⓩ", false), strings(&["zz"]));
}

#[test]
fn unreadable_columns_are_reported() {
    assert!(can_extract_codes("AbCd", false));
    assert!(!can_extract_codes("Aé", true));
    assert_eq!(try_extract_codes("Aé", true), None);
    assert!(!can_extract_codes("Aａ", true));
    assert_eq!(try_extract_codes("Aａ", false), None);
    assert!(can_extract_codes("éa", true));
    assert_eq!(try_extract_codes("éa", true), Some(Vec::new()));
    assert_eq!(try_extract_codes("AbcD", false), Some(strings(&["ab", "d"])));
}

#[test]
fn codes_that_cannot_be_cut_are_reported() {
    assert_eq!(try_extract_codes("Ａb", true), Some(strings(&["Ａb"])));
    assert_eq!(try_extract_codes("Ａb", false), None);
    assert_eq!(try_extract_codes("Éb", false), Some(strings(&["É"])));
    assert_eq!(try_extract_codes("Ａ", false), None);
    assert_eq!(try_extract_codes("É", false), Some(strings(&["É"])));
}

#[test]
fn character_helpers() {
    assert_eq!(to_ascii_lower('A'), 'a');
    assert_eq!(to_ascii_lower('Z'), 'z');
    assert_eq!(to_ascii_lower('a'), 'a');
    assert_eq!(to_ascii_lower('É'), 'É');
    assert_eq!(to_ascii_lower('@'), '@');
    assert_eq!(to_ascii_lower('['), '[');
    for c in ['a', '\u{7f}', '\u{80}', 'é', '\u{7ff}', '\u{800}', '甲', '\u{ffff}', '\u{10000}'] {
        assert_eq!(width_of(c), c.len_utf8());
        assert_eq!(code_point_of(c), c as u32);
    }
}

#[test]
fn characters_are_classified() {
    assert_eq!(classify('A'), LetterCase::Upper);
    assert_eq!(classify('a'), LetterCase::Lower);
    assert_eq!(classify('1'), LetterCase::Other);
    assert_eq!(classify('甲'), LetterCase::Other);
    assert_eq!(classify('ⓑ'), LetterCase::Lower);
    assert_eq!(classify('É'), LetterCase::Upper);
    let text: Vec<char> = "Ab 1".chars().collect();
    assert_eq!(
        classify_all(&text),
        vec![LetterCase::Upper, LetterCase::Lower, LetterCase::Other, LetterCase::Other]
    );
}

#[test]
fn scan_follows_the_given_classification() {
    let text: Vec<char> = "xyzw".chars().collect();
    let cases =
        vec![LetterCase::Upper, LetterCase::Lower, LetterCase::Other, LetterCase::Lower];
    assert_eq!(scan_with_cases(&text, &cases), Some(vec![vec!['x', 'y']]));
    let cases =
        vec![LetterCase::Lower, LetterCase::Upper, LetterCase::Upper, LetterCase::Lower];
    assert_eq!(scan_with_cases(&text, &cases), Some(vec![vec!['y'], vec!['z', 'w']]));
    let text: Vec<char> = "Aé".chars().collect();
    assert_eq!(scan_with_cases(&text, &vec![LetterCase::Upper, LetterCase::Lower]), None);
    assert_eq!(
        scan_with_cases(&text, &vec![LetterCase::Upper, LetterCase::Other]),
        Some(vec![vec!['a']])
    );
    assert_eq!(scan_with_cases(&Vec::new(), &Vec::new()), Some(Vec::new()));
}
