use radical_drill::config::{GameConfig, GameMode, PracticeMode, PracticeOrder};
use radical_drill::counts::PracticeCounts;
use radical_drill::radical::Radical;
use radical_drill::session::{Key, Step};
use radical_drill::state::GameState;

fn radical(code: &str, text: &str, frequency: usize) -> Radical {
    let code_chars: Vec<char> = code.chars().collect();
    let text_chars: Vec<char> = text.chars().collect();
    Radical::from_code(&code_chars, &text_chars, frequency)
}

fn config(minimum: usize) -> GameConfig {
    GameConfig {
        radical_file: String::new(),
        frequency_file: String::new(),
        penalty: 4,
        min_practice_count: minimum,
        practice_mode: PracticeMode::DualCode,
        order: PracticeOrder::Alphabetical,
        mode: GameMode::Normal,
        cancelled: false,
    }
}

fn type_text(state: &mut GameState, answer: &mut String, text: &str, cfg: &GameConfig) {
    for c in text.chars() {
        assert_eq!(state.handle_key(answer, Key::Char(c), cfg), Step::Continue);
    }
}

#[test]
fn typing_edits_the_answer_only() {
    let cfg = config(1);
    let mut state = GameState::new(vec![radical("ab", "甲", 1)], &cfg);
    let mut answer = String::new();
    type_text(&mut state, &mut answer, "axb", &cfg);
    assert_eq!(answer, "axb");
    assert_eq!(state.handle_key(&mut answer, Key::Backspace, &cfg), Step::Continue);
    assert_eq!(answer, "ax");
    assert_eq!(state.handle_key(&mut answer, Key::Other, &cfg), Step::Continue);
    assert_eq!(answer, "ax");
    assert_eq!(state.total_practice, 0);
    assert!(state.last_error.is_none());
    let mut empty = String::new();
    assert_eq!(state.handle_key(&mut empty, Key::Backspace, &cfg), Step::Continue);
    assert_eq!(empty, "");
}

#[test]
fn enter_on_empty_answer_does_nothing() {
    let cfg = config(1);
    let mut state = GameState::new(vec![radical("ab", "甲", 1)], &cfg);
    let mut answer = String::new();
    assert_eq!(state.handle_key(&mut answer, Key::Enter, &cfg), Step::Continue);
    assert!(state.last_error.is_none());
    assert_eq!(state.total_practice, 0);
}

#[test]
fn escape_and_quit_leave() {
    let cfg = config(1);
    let mut state = GameState::new(vec![radical("ab", "甲", 1)], &cfg);
    let mut answer = String::from("a");
    assert_eq!(state.handle_key(&mut answer, Key::Escape, &cfg), Step::Quit);
    assert_eq!(state.handle_key(&mut answer, Key::Quit, &cfg), Step::Quit);
    assert_eq!(answer, "a");
    assert_eq!(state.total_practice, 0);
}

#[test]
fn correct_answer_moves_on_and_last_one_finishes() {
    let cfg = config(1);
    let mut state = GameState::new(vec![radical("ab", "甲", 1), radical("cd", "乙", 1)], &cfg);
    let mut answer = String::new();
    type_text(&mut state, &mut answer, "ab", &cfg);
    assert_eq!(state.handle_key(&mut answer, Key::Enter, &cfg), Step::Continue);
    assert_eq!(answer, "");
    assert_eq!(state.correct_count, 1);
    assert_eq!(state.current_radical, 1);
    type_text(&mut state, &mut answer, "cd", &cfg);
    assert_eq!(state.handle_key(&mut answer, Key::Enter, &cfg), Step::Finished);
    assert_eq!(state.correct_count, 2);
    assert!(state.is_game_over());
}

#[test]
fn wrong_answer_stays_on_the_radical() {
    let cfg = config(1);
    let mut state = GameState::new(vec![radical("ab", "甲", 1), radical("cd", "乙", 1)], &cfg);
    let mut answer = String::new();
    type_text(&mut state, &mut answer, "zz", &cfg);
    assert_eq!(state.handle_key(&mut answer, Key::Enter, &cfg), Step::Continue);
    assert_eq!(answer, "");
    assert_eq!(state.wrong_count, 1);
    assert_eq!(state.current_radical, 0);
    assert!(state.last_error.as_deref().unwrap().starts_with("【错误】"));
    assert_eq!(state.remaining_practice.get(&String::from("甲")), Some(5));
}

#[test]
fn rejected_answer_without_current_radical_clears_the_message() {
    let cfg = config(1);
    let mut state = GameState::new(Vec::new(), &cfg);
    let mut answer = String::from("ab");
    assert_eq!(state.handle_key(&mut answer, Key::Enter, &cfg), Step::Continue);
    assert!(state.last_error.is_none());
    assert_eq!(answer, "");
}

#[test]
fn blank_answer_is_rejected_with_a_message() {
    let cfg = config(1);
    let mut state = GameState::new(vec![radical("ab", "甲", 1)], &cfg);
    let mut answer = String::from("  ");
    assert_eq!(state.handle_key(&mut answer, Key::Enter, &cfg), Step::Continue);
    assert_eq!(state.last_error.as_deref(), Some("输入不能为空"));
    assert_eq!(state.total_practice, 0);
}

#[test]
fn saved_session_comes_back_without_message() {
    let cfg = config(2);
    let mut state = GameState::new(vec![radical("ab", "甲", 1), radical("cd", "乙", 1)], &cfg);
    assert!(!state.check_input("zz", &cfg));
    let restored = GameState::from_saved(
        state.radicals.clone(),
        state.current_radical,
        state.remaining_practice.clone(),
        state.correct_count,
        state.wrong_count,
        state.total_practice,
        state.recent_radicals.clone(),
    );
    assert!(restored.last_error.is_none());
    assert!(restored.last_big_code.is_none());
    assert_eq!(restored.wrong_count, 1);
    assert_eq!(restored.total_practice, 1);
    assert_eq!(restored.recent_radicals, state.recent_radicals);
    assert_eq!(restored.remaining_practice.entries, state.remaining_practice.entries);
    assert_eq!(restored.progress(), state.progress());
}

#[test]
fn counts_table_replaces_and_appends() {
    let mut counts = PracticeCounts::new();
    assert_eq!(counts.len(), 0);
    assert!(counts.is_finished());
    counts.insert(String::from("甲"), 2);
    counts.insert(String::from("乙"), 0);
    counts.insert(String::from("甲"), 5);
    assert_eq!(counts.len(), 2);
    assert_eq!(counts.entries, vec![(String::from("甲"), 5), (String::from("乙"), 0)]);
    assert_eq!(counts.find(&String::from("乙")), Some(1));
    assert_eq!(counts.find(&String::from("丙")), None);
    assert_eq!(counts.get(&String::from("丙")), None);
    assert_eq!(counts.outstanding(), 5);
    assert!(!counts.is_finished());
    counts.change(0, 0);
    assert!(counts.is_finished());
    assert_eq!(counts.outstanding(), 0);
}

#[test]
fn room_for_an_answer_is_checked() {
    let mut cfg = config(1);
    let mut state = GameState::new(vec![radical("ab", "甲", 1)], &cfg);
    assert!(state.can_record("ab", &cfg));
    assert!(state.can_record("zz", &cfg));
    state.total_practice = usize::MAX;
    assert!(!state.can_record("ab", &cfg));
    assert!(!state.can_record("zz", &cfg));
    assert!(state.can_record("  ", &cfg));
    state.total_practice = 0;
    state.correct_count = usize::MAX;
    assert!(!state.can_record("ab", &cfg));
    assert!(state.can_record("zz", &cfg));
    state.correct_count = 0;
    state.wrong_count = usize::MAX;
    assert!(state.can_record("ab", &cfg));
    assert!(!state.can_record("zz", &cfg));
    state.wrong_count = 0;
    cfg.penalty = usize::MAX;
    assert!(state.can_record("ab", &cfg));
    assert!(!state.can_record("zz", &cfg));
    state.current_radical = 3;
    assert!(state.can_record("ab", &cfg));
    assert!(!state.can_record("zz", &cfg));
    assert!(state.can_record_as(true, usize::MAX));
    assert!(!state.can_record_as(false, usize::MAX));
    assert!(state.can_record_as(false, usize::MAX - 1));
}

#[test]
fn empty_answer_is_taken_with_full_counters() {
    let cfg = config(1);
    let mut state = GameState::new(vec![radical("ab", "甲", 1)], &cfg);
    state.correct_count = usize::MAX;
    state.wrong_count = usize::MAX;
    state.total_practice = usize::MAX;
    for input in ["", " ", "\t"] {
        assert!(state.can_record(input, &cfg));
        assert!(!state.check_input(input, &cfg));
        assert_eq!(state.try_check_input(input, &cfg), Some(false));
    }
    assert_eq!(state.last_error.as_deref(), Some("输入不能为空"));
    assert_eq!(state.correct_count, usize::MAX);
    assert_eq!(state.wrong_count, usize::MAX);
    assert_eq!(state.total_practice, usize::MAX);
    assert!(state.recent_radicals.is_empty());
    assert_eq!(state.remaining_practice.get(&String::from("甲")), Some(1));
}

#[test]
fn empty_catalog_is_taken_with_full_counters() {
    let cfg = config(1);
    let mut state = GameState::new(Vec::new(), &cfg);
    state.correct_count = usize::MAX;
    state.wrong_count = usize::MAX;
    state.total_practice = usize::MAX;
    assert!(state.can_record("ab", &cfg));
    assert!(!state.check_input("ab", &cfg));
    assert_eq!(state.last_error.as_deref(), Some("没有可练习的字根"));
    assert_eq!(state.correct_count, usize::MAX);
    assert_eq!(state.wrong_count, usize::MAX);
    assert_eq!(state.total_practice, usize::MAX);
    assert!(state.recent_radicals.is_empty());
    assert!(state.last_big_code.is_none());
    assert_eq!(state.current_radical, 0);
    assert_eq!(state.remaining_practice.len(), 0);
}

#[test]
fn answer_without_room_is_not_taken() {
    let cfg = config(1);
    let mut state = GameState::new(vec![radical("ab", "甲", 1)], &cfg);
    state.total_practice = usize::MAX;
    assert_eq!(state.try_check_input("ab", &cfg), None);
    assert_eq!(state.total_practice, usize::MAX);
    assert_eq!(state.correct_count, 0);
    assert!(state.last_error.is_none());
    assert!(state.recent_radicals.is_empty());
    state.total_practice = 5;
    assert_eq!(state.try_check_input("ab", &cfg), Some(true));
    assert_eq!(state.total_practice, 6);
    assert_eq!(state.try_check_input("zz", &cfg), Some(false));
    assert_eq!(state.total_practice, 7);
}

#[test]
fn judged_answer_is_recorded_against_the_judged_radical() {
    let cfg = config(2);
    let mut state = GameState::new(vec![radical("ab", "甲", 1), radical("cd", "乙", 1)], &cfg);
    assert_eq!(state.judged_index(), 0);
    state.record_answer(false, String::from("no"), 3);
    assert_eq!(state.last_error.as_deref(), Some("no"));
    assert_eq!(state.wrong_count, 1);
    assert_eq!(state.total_practice, 1);
    assert_eq!(state.remaining_practice.get(&String::from("甲")), Some(5));
    assert_eq!(state.recent_radicals, vec![String::from("甲")]);
    assert_eq!(state.last_big_code.as_deref(), Some("a"));
    state.current_radical = 2;
    assert_eq!(state.judged_index(), 1);
    state.record_answer(true, String::from("yes"), 3);
    assert_eq!(state.last_error.as_deref(), Some("yes"));
    assert_eq!(state.correct_count, 1);
    assert_eq!(state.total_practice, 2);
    assert_eq!(state.remaining_practice.get(&String::from("乙")), Some(1));
    assert_eq!(state.recent_radicals, vec![String::from("乙"), String::from("甲")]);
    assert_eq!(state.last_big_code.as_deref(), Some("c"));
    assert_eq!(state.current_radical, 2);
    let mut empty = GameState::new(Vec::new(), &cfg);
    empty.record_answer(true, String::from("nothing"), 3);
    assert_eq!(empty.last_error.as_deref(), Some("nothing"));
    assert_eq!(empty.total_practice, 0);
    assert_eq!(empty.correct_count, 0);
    assert!(empty.recent_radicals.is_empty());
}

#[test]
fn keys_are_taken_with_full_counters_unless_they_submit() {
    let cfg = config(1);
    let mut state = GameState::new(vec![radical("ab", "甲", 1)], &cfg);
    state.total_practice = usize::MAX;
    let mut answer = String::new();
    assert!(state.can_handle(&answer, Key::Enter, &cfg));
    assert_eq!(state.try_handle_key(&mut answer, Key::Enter, &cfg), Some(Step::Continue));
    assert_eq!(state.try_handle_key(&mut answer, Key::Char('a'), &cfg), Some(Step::Continue));
    assert_eq!(state.try_handle_key(&mut answer, Key::Char('b'), &cfg), Some(Step::Continue));
    assert_eq!(state.try_handle_key(&mut answer, Key::Other, &cfg), Some(Step::Continue));
    assert_eq!(answer, "ab");
    assert!(!state.can_handle(&answer, Key::Enter, &cfg));
    assert_eq!(state.try_handle_key(&mut answer, Key::Enter, &cfg), None);
    assert_eq!(answer, "ab");
    assert_eq!(state.total_practice, usize::MAX);
    assert!(state.last_error.is_none());
    assert_eq!(state.try_handle_key(&mut answer, Key::Backspace, &cfg), Some(Step::Continue));
    assert_eq!(state.try_handle_key(&mut answer, Key::Escape, &cfg), Some(Step::Quit));
    assert_eq!(state.try_handle_key(&mut answer, Key::Quit, &cfg), Some(Step::Quit));
    state.total_practice = 0;
    assert_eq!(state.try_handle_key(&mut answer, Key::Char('b'), &cfg), Some(Step::Continue));
    assert_eq!(state.try_handle_key(&mut answer, Key::Enter, &cfg), Some(Step::Finished));
    assert_eq!(state.total_practice, 1);
}

#[test]
fn filler_text_has_the_promised_shape() {
    let cfg = config(1);
    let state = GameState::new(Vec::new(), &cfg);
    for _ in 0..20 {
        let text = state.generate_pretend_chars();
        let lines: Vec<&str> = text.split('\n').collect();
        let filled: Vec<&&str> = lines.iter().filter(|l| !l.is_empty()).collect();
        assert!(filled.len() >= 21 && filled.len() <= 30);
        for line in &filled {
            let n = line.chars().count();
            assert!((30..50).contains(&n));
            assert!(line.chars().all(|c| c.is_ascii_alphanumeric()));
        }
        assert!(!text.ends_with('\n'));
        assert!(!text.starts_with('\n'));
        assert!(!text.contains("\n\n\n"));
    }
}

#[test]
fn filler_text_varies() {
    let cfg = config(1);
    let state = GameState::new(Vec::new(), &cfg);
    let mut lengths = std::collections::BTreeSet::new();
    let mut gaps = 0;
    let mut plain = 0;
    let mut letters = std::collections::BTreeSet::new();
    for _ in 0..20 {
        let text = state.generate_pretend_chars();
        let lines: Vec<&str> = text.split('\n').collect();
        for pair in lines.windows(2) {
            if pair[0].is_empty() {
                continue;
            }
            if pair[1].is_empty() {
                gaps += 1;
            } else {
                plain += 1;
            }
        }
        for line in lines.iter().filter(|l| !l.is_empty()) {
            lengths.insert(line.chars().count());
            letters.extend(line.chars());
        }
    }
    assert!(lengths.len() > 1);
    assert!(gaps > 0);
    assert!(plain > 0);
    assert!(letters.len() > 30);
}
