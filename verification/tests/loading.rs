use radical_drill::number::{digit_of, parse_count, push_decimal, push_decimal_padded};
use radical_drill::radical::Radical;
use radical_drill::table::read_rows;
use radical_drill::text::{chars_of, split_two, str_lt, string_of, trim_chars};

fn chars(s: &str) -> Vec<char> {
    s.chars().collect()
}

fn shown(v: &Vec<char>) -> String {
    v.iter().collect()
}

#[test]
fn chars_and_strings_convert_both_ways() {
    assert_eq!(chars_of("a甲b"), vec!['a', '甲', 'b']);
    assert_eq!(string_of(&vec!['a', '甲', 'b']), "a甲b");
    assert_eq!(chars_of(""), Vec::<char>::new());
}

#[test]
fn strings_compare_like_std() {
    let samples = ["", "a", "ab", "abc", "b", "B", "甲", "乙", "a甲", "ab\u{10000}", "ab\u{ffff}"];
    for a in samples {
        for b in samples {
            assert_eq!(str_lt(a, b), a < b, "{:?} < {:?}", a, b);
        }
    }
}

#[test]
fn trim_matches_std() {
    for s in ["", "  ", "a", " a", "a ", " a b \t", "\u{3000}甲\u{3000}", "\n\ra\n", "a\u{a0}"] {
        assert_eq!(shown(&trim_chars(&chars(s))), s.trim(), "{:?}", s);
    }
}

#[test]
fn two_fields_match_split_whitespace() {
    for line in ["", "a", "a b", "  a   b  c ", "ab\t甲", " x", "x ", "甲 12 extra", "a\u{3000}b"] {
        let expected: Vec<&str> = line.split_whitespace().collect();
        match split_two(&chars(line)) {
            Some((x, y)) => {
                assert!(expected.len() >= 2);
                assert_eq!(shown(&x), expected[0]);
                assert_eq!(shown(&y), expected[1]);
            }
            None => assert!(expected.len() < 2, "{:?}", line),
        }
    }
}

#[test]
fn counts_parse_like_std() {
    let samples = [
        "0", "7", "42", "007", "+5", "+", "", "-3", "1a", "a1", "1 ", "18446744073709551615",
        "18446744073709551616", "99999999999999999999999", "١٢",
    ];
    for s in samples {
        let expected: usize = s.parse().unwrap_or(0);
        assert_eq!(parse_count(&chars(s)), expected, "{:?}", s);
    }
}

#[test]
fn numbers_are_written_in_decimal() {
    for n in [0u128, 7, 10, 99, 100, 12345, u64::MAX as u128, u128::MAX] {
        let mut out = vec!['#'];
        push_decimal(&mut out, n);
        assert_eq!(shown(&out), format!("#{}", n));
    }
    let mut out = Vec::new();
    push_decimal_padded(&mut out, 42, 4);
    assert_eq!(shown(&out), "0042");
    let mut out = Vec::new();
    push_decimal_padded(&mut out, 123456, 4);
    assert_eq!(shown(&out), "3456");
    let mut out = Vec::new();
    push_decimal_padded(&mut out, 9, 0);
    assert_eq!(shown(&out), "");
    assert_eq!(digit_of(0), '0');
    assert_eq!(digit_of(9), '9');
}

#[test]
fn rows_skip_short_lines() {
    let rows = read_rows("ab 甲\n\nonly\n  cd\t乙 more\r\nlast one");
    let shown_rows: Vec<(String, String)> =
        rows.iter().map(|(a, b)| (shown(a), shown(b))).collect();
    assert_eq!(
        shown_rows,
        vec![
            (String::from("ab"), String::from("甲")),
            (String::from("cd"), String::from("乙")),
            (String::from("last"), String::from("one")),
        ]
    );
    assert!(read_rows("").is_empty());
    assert!(read_rows("\n\n").is_empty());
}

#[test]
fn code_table_gives_radicals_in_line_order() {
    let radicals = Radical::load_code_data("ab 甲\nc 乙\nbad\nxyz 丙 ignored\n");
    assert_eq!(radicals.len(), 3);
    assert_eq!(radicals[0].code, "ab");
    assert_eq!(radicals[0].text, "甲");
    assert_eq!(radicals[0].big_code, "a");
    assert_eq!(radicals[0].small_code, "b");
    assert_eq!(radicals[0].frequency, 0);
    assert_eq!(radicals[1].big_code, "c");
    assert_eq!(radicals[1].small_code, "");
    assert_eq!(radicals[2].code, "xyz");
    assert_eq!(radicals[2].small_code, "yz");
}

#[test]
fn frequency_table_defaults_to_zero() {
    let entries = Radical::load_frequency_data("甲 10\n乙 many\n丙\n丁 +3 x\n");
    assert_eq!(
        entries,
        vec![
            (String::from("甲"), 10),
            (String::from("乙"), 0),
            (String::from("丁"), 3),
        ]
    );
}

#[test]
fn last_frequency_entry_wins() {
    let entries = Radical::load_frequency_data("甲 1\n乙 2\n甲 3\n");
    assert_eq!(Radical::find_frequency(&entries, &String::from("甲")), Some(3));
    assert_eq!(Radical::find_frequency(&entries, &String::from("乙")), Some(2));
    assert_eq!(Radical::find_frequency(&entries, &String::from("丙")), None);
}

#[test]
fn frequencies_are_merged_by_glyph() {
    let radicals = Radical::load_from_files("甲 10\n乙 5\n甲 12\n", "ab 甲\ncd 乙\nef 丙\n");
    let summary: Vec<(String, String, usize)> =
        radicals.iter().map(|r| (r.code.clone(), r.text.clone(), r.frequency)).collect();
    assert_eq!(
        summary,
        vec![
            (String::from("ab"), String::from("甲"), 12),
            (String::from("cd"), String::from("乙"), 5),
            (String::from("ef"), String::from("丙"), 0),
        ]
    );
}

#[test]
fn copy_keeps_every_field() {
    let r = Radical::from_code(&chars("ab"), &chars("甲"), 4);
    let c = r.copy();
    assert_eq!((c.code, c.text, c.frequency, c.big_code, c.small_code), (
        r.code,
        r.text,
        r.frequency,
        r.big_code,
        r.small_code
    ));
}
