use radical_drill::dictionary::{
    byte_length, convert_radicals, count_radicals, find_bracketed, find_search_start, has_cjk,
    note_code, parse_content, Extraction, Reading,
};
use radical_drill::counts::PracticeCounts;
use radical_drill::radical::Radical;

fn chars(s: &str) -> Vec<char> {
    s.chars().collect()
}

fn content_of(line: &str) -> Option<String> {
    match find_bracketed(&chars(line)) {
        Reading::Found(c) => Some(c.iter().collect()),
        _ => None,
    }
}

#[test]
fn dictionary_gives_both_tables() {
    let text = "# 宇浩\n---\nname: x\n...\n\
                明\t[日月,JaeYue,ming,CJK,660E]\n\
                日\t[日,Jae,ri,CJK,65E5]\n\
                月\t[月,Yue,yue,CJK,6708]\n\
                朋\t[月月,YueYue,peng,CJK,670B]\n";
    let tables = convert_radicals(text).unwrap();
    assert_eq!(tables.code_table, "ja 日\nyu 月\n");
    assert_eq!(tables.count_table, "月 4\n日 2\n");
}

#[test]
fn tables_can_be_loaded_again() {
    let text = "...\n明\t[日月,JaeYue,ming,CJK,660E]\n日\t[日,Jae,ri,CJK,65E5]\n";
    let tables = convert_radicals(text).unwrap();
    let radicals = Radical::load_from_files(&tables.count_table, &tables.code_table);
    let summary: Vec<(String, String, usize)> =
        radicals.iter().map(|r| (r.code.clone(), r.text.clone(), r.frequency)).collect();
    assert_eq!(
        summary,
        vec![
            (String::from("ja"), String::from("日"), 2),
            (String::from("yu"), String::from("月"), 1),
        ]
    );
}

#[test]
fn long_scheme_keeps_codes_in_full() {
    let text = "# 日月 3.9\n...\n日\t[日,Jae,ri,CJK,65E5]\n";
    assert_eq!(convert_radicals(text).unwrap().code_table, "jae 日\n");
    let text = "# 宇浩日月\n...\n日\t[日,Jae,ri,CJK,65E5]\n";
    assert_eq!(convert_radicals(text).unwrap().code_table, "jae 日\n");
    let text = "#日月\n...\n日\t[日,Jae,ri,CJK,65E5]\n";
    assert_eq!(convert_radicals(text).unwrap().code_table, "ja 日\n");
    let text = "...\n# 日月\n日\t[日,Jae,ri,CJK,65E5]\n";
    assert_eq!(convert_radicals(text).unwrap().code_table, "jae 日\n");
}

#[test]
fn entries_before_the_dots_are_ignored() {
    let text = "日\t[日,Jae,ri,CJK,65E5]\n";
    let tables = convert_radicals(text).unwrap();
    assert_eq!(tables.code_table, "");
    assert_eq!(tables.count_table, "");
    assert_eq!(convert_radicals("").unwrap().code_table, "");
}

#[test]
fn only_cjk_glyphs_are_counted() {
    let text = "...\n日\t[日,Jae,ri,ext,65E5]\n月\t[月,Yue,yue,CJK,6708]\n";
    let tables = convert_radicals(text).unwrap();
    assert_eq!(tables.code_table, "ja 日\nyu 月\n");
    assert_eq!(tables.count_table, "月 1\n");
}

#[test]
fn longer_code_replaces_shorter() {
    let text = "# 日月\n...\n甲\t[日,J,x,CJK,1]\n乙\t[日,Jae,x,CJK,2]\n丙\t[日,Ja,x,CJK,3]\n";
    assert_eq!(convert_radicals(text).unwrap().code_table, "jae 日\n");
}

#[test]
fn glyphs_of_four_radicals_give_no_code() {
    let text = "...\n甲\t[日月水火,JaYuShHu,x,CJK,1]\n乙\t[日月水,JaYuSh,x,CJK,2]\n";
    let tables = convert_radicals(text).unwrap();
    assert_eq!(tables.code_table, "sh 水\n");
    assert_eq!(tables.count_table, "日 2\n月 2\n水 2\n火 1\n");
}

#[test]
fn mismatched_entries_add_nothing() {
    let text = "...\n甲\t[日月,Ja,x,CJK,1]\n";
    let tables = convert_radicals(text).unwrap();
    assert_eq!(tables.code_table, "");
    assert_eq!(tables.count_table, "");
}

#[test]
fn shared_code_is_entered_twice() {
    let text = "...\n甲\t[{横日},He,x,CJK,1]\n";
    let tables = convert_radicals(text).unwrap();
    assert_eq!(tables.code_table, "he {横日}\nhe {曾中}\n");
    assert_eq!(tables.count_table, "{横日} 1\n");
}

#[test]
fn unreadable_lines_give_nothing() {
    assert!(convert_radicals("...\n汉[日,Ja]\n").is_none());
    assert!(convert_radicals("...\nx\n").is_none());
    assert!(convert_radicals("...\n甲\t]日,Ja[\n").is_none());
    assert!(convert_radicals("...\n甲\t[日,Jé,x,CJK,1]\n").is_none());
    assert!(convert_radicals("...\nab[日,Ja,x,CJK]\n").is_some());
    assert!(convert_radicals("...\n甲\tno brackets\n").is_some());
    assert!(convert_radicals("...\n甲\t[nothing]\n").is_some());
    assert!(convert_radicals("...\n甲\t[ ,Ja]\n").is_some());
}

#[test]
fn bracketed_part_is_found_after_the_tab() {
    assert_eq!(content_of("甲\t[日,Ja]"), Some(String::from("日,Ja")));
    assert_eq!(content_of("[x]\t[日,Ja]"), Some(String::from("日,Ja")));
    assert_eq!(content_of("ab[c]"), Some(String::from("c")));
    assert_eq!(content_of("é[c]"), Some(String::from("c")));
    assert_eq!(content_of("甲\t[]"), Some(String::new()));
    assert_eq!(find_search_start(&chars("甲\t[")), Some(1));
    assert_eq!(find_search_start(&chars("ab")), Some(2));
    assert_eq!(find_search_start(&chars("é")), Some(1));
    assert_eq!(find_search_start(&chars("a")), None);
    assert_eq!(find_search_start(&chars("a甲")), None);
    assert_eq!(find_search_start(&chars("甲a")), None);
    assert_eq!(find_search_start(&chars("")), None);
}

#[test]
fn cjk_is_searched_as_a_run() {
    assert!(has_cjk(&chars("CJK")));
    assert!(has_cjk(&chars("a,CJK-A")));
    assert!(has_cjk(&chars("CCJK")));
    assert!(!has_cjk(&chars("CJ")));
    assert!(!has_cjk(&chars("C,JK")));
    assert!(!has_cjk(&chars("cjk")));
    assert!(!has_cjk(&chars("")));
}

#[test]
fn content_is_split_at_commas() {
    match parse_content(&chars(" 日月 , JaeYue ,rest,CJK"), false) {
        Reading::Found(entry) => {
            assert_eq!(entry.radicals, vec!["日", "月"]);
            assert_eq!(entry.codes, vec!["ja", "yu"]);
            assert!(entry.counting);
        }
        _ => panic!("an entry was expected"),
    }
    assert!(matches!(parse_content(&chars("日月"), false), Reading::Absent));
    assert!(matches!(parse_content(&chars(",Ja"), false), Reading::Absent));
    assert!(matches!(parse_content(&chars("日,Ａb"), false), Reading::Unreadable));
    match parse_content(&chars("日,"), false) {
        Reading::Found(entry) => {
            assert_eq!(entry.radicals, vec!["日"]);
            assert!(entry.codes.is_empty());
            assert!(!entry.counting);
        }
        _ => panic!("an entry was expected"),
    }
}

#[test]
fn byte_length_matches_std() {
    for s in ["", "a", "é", "甲", "a甲\u{10000}"] {
        assert_eq!(byte_length(&chars(s)), s.len() as u128);
    }
}

#[test]
fn codes_are_compared_by_byte_length() {
    let mut codes: Vec<(String, String)> = Vec::new();
    note_code(&mut codes, &String::from("日"), &String::from("ja"));
    note_code(&mut codes, &String::from("月"), &String::from("yu"));
    note_code(&mut codes, &String::from("日"), &String::from("xy"));
    note_code(&mut codes, &String::from("月"), &String::from("yue"));
    assert_eq!(
        codes,
        vec![
            (String::from("日"), String::from("ja")),
            (String::from("月"), String::from("yue")),
        ]
    );
}

#[test]
fn occurrences_are_counted_up_to_the_range() {
    let mut counts = PracticeCounts::new();
    let radicals = vec![String::from("日"), String::from("月"), String::from("日")];
    assert!(count_radicals(&mut counts, &radicals));
    assert_eq!(counts.entries, vec![(String::from("日"), 2), (String::from("月"), 1)]);
    let mut full = PracticeCounts::new();
    full.insert(String::from("日"), u32::MAX as usize);
    assert!(!count_radicals(&mut full, &radicals));
}

#[test]
fn lines_are_gathered_one_by_one() {
    let mut state = Extraction::new();
    assert!(state.add_line(&chars("  # 日月  ")));
    assert!(state.keep_long);
    assert!(!state.processing);
    assert!(state.add_line(&chars("x")));
    assert!(state.add_line(&chars("... ")));
    assert!(state.processing);
    assert!(!state.add_line(&chars("x")));
    assert!(state.add_line(&chars("甲\t[日,Jae,x,CJK,1]\r")));
    assert_eq!(state.codes, vec![(String::from("日"), String::from("jae"))]);
    let rows = state.count_rows();
    assert_eq!(rows.len(), 1);
    assert_eq!(rows[0].frequency, 1);
    assert_eq!(rows[0].code, "");
    let rows = state.code_rows();
    assert_eq!(rows[0].text, "日");
}
