use radical_drill::config::{GameConfig, GameMode, PracticeMode, PracticeOrder};
use radical_drill::menu::{MenuKey, MenuStep, SettingsMenu, Typing};

fn press(menu: &mut SettingsMenu, keys: &[MenuKey]) {
    for key in keys {
        assert_eq!(menu.handle_key(*key), MenuStep::Continue);
    }
}

#[test]
fn menu_opens_with_standard_settings() {
    let menu = SettingsMenu::new();
    assert_eq!(menu.selected(), 0);
    assert_eq!(menu.typing(), Typing::Nothing);
    assert_eq!(menu.input(), "");
    let c = menu.config();
    assert_eq!(c.radical_file, "res/yujoy-3.8.0.txt");
    assert_eq!(c.frequency_file, "res/counts.txt");
    assert_eq!(c.penalty, 4);
    assert_eq!(c.min_practice_count, 2);
    assert_eq!(c.practice_mode, PracticeMode::DualCode);
    assert_eq!(c.order, PracticeOrder::Random);
    assert_eq!(c.mode, GameMode::Normal);
    assert!(!c.cancelled);
    let standard = GameConfig::standard();
    assert_eq!(standard.radical_file, c.radical_file);
    assert_eq!(standard.penalty, c.penalty);
}

#[test]
fn selection_stays_on_the_menu() {
    let mut menu = SettingsMenu::new();
    press(&mut menu, &[MenuKey::Up]);
    assert_eq!(menu.selected(), 0);
    press(&mut menu, &[MenuKey::Down; 9]);
    assert_eq!(menu.selected(), 6);
    press(&mut menu, &[MenuKey::Up, MenuKey::Up]);
    assert_eq!(menu.selected(), 4);
}

#[test]
fn penalty_stays_between_one_and_ten() {
    let mut menu = SettingsMenu::new();
    press(&mut menu, &[MenuKey::Down, MenuKey::Down]);
    press(&mut menu, &[MenuKey::Left; 5]);
    assert_eq!(menu.config().penalty, 1);
    press(&mut menu, &[MenuKey::Right; 12]);
    assert_eq!(menu.config().penalty, 10);
    press(&mut menu, &[MenuKey::Left]);
    assert_eq!(menu.config().penalty, 9);
}

#[test]
fn starting_repetitions_stay_between_one_and_five() {
    let mut menu = SettingsMenu::new();
    press(&mut menu, &[MenuKey::Down, MenuKey::Down, MenuKey::Down]);
    press(&mut menu, &[MenuKey::Right; 7]);
    assert_eq!(menu.config().min_practice_count, 5);
    press(&mut menu, &[MenuKey::Left; 7]);
    assert_eq!(menu.config().min_practice_count, 1);
}

#[test]
fn modes_and_order_step_left_and_right() {
    let mut menu = SettingsMenu::new();
    press(&mut menu, &[MenuKey::Down; 4]);
    press(&mut menu, &[MenuKey::Left]);
    assert_eq!(menu.config().practice_mode, PracticeMode::BigCode);
    press(&mut menu, &[MenuKey::Right]);
    assert_eq!(menu.config().practice_mode, PracticeMode::DualCode);
    press(&mut menu, &[MenuKey::Down]);
    press(&mut menu, &[MenuKey::Right]);
    assert_eq!(menu.config().order, PracticeOrder::Random);
    press(&mut menu, &[MenuKey::Left]);
    assert_eq!(menu.config().order, PracticeOrder::Keyboard);
    press(&mut menu, &[MenuKey::Left]);
    assert_eq!(menu.config().order, PracticeOrder::Frequency);
    press(&mut menu, &[MenuKey::Left, MenuKey::Left]);
    assert_eq!(menu.config().order, PracticeOrder::Alphabetical);
    press(&mut menu, &[MenuKey::Right, MenuKey::Right]);
    assert_eq!(menu.config().order, PracticeOrder::Keyboard);
    press(&mut menu, &[MenuKey::Down, MenuKey::Right]);
    assert_eq!(menu.config().mode, GameMode::Pretend);
    press(&mut menu, &[MenuKey::Left]);
    assert_eq!(menu.config().mode, GameMode::Normal);
}

#[test]
fn code_tables_cycle() {
    let mut menu = SettingsMenu::new();
    press(&mut menu, &[MenuKey::Right]);
    assert_eq!(menu.config().radical_file, "res/yulight-3.8.0.txt");
    press(&mut menu, &[MenuKey::Right, MenuKey::Right, MenuKey::Right]);
    assert_eq!(menu.config().radical_file, "res/yusm-3.9.0-20250522.txt");
    press(&mut menu, &[MenuKey::Right]);
    assert_eq!(menu.config().radical_file, "按右方向键手动输入→");
    assert_eq!(menu.typing(), Typing::Nothing);
    press(&mut menu, &[MenuKey::Left]);
    assert_eq!(menu.config().radical_file, "res/yusm-3.9.0-20250522.txt");
    press(&mut menu, &[MenuKey::Left; 4]);
    assert_eq!(menu.config().radical_file, "res/yujoy-3.8.0.txt");
    press(&mut menu, &[MenuKey::Left]);
    assert_eq!(menu.config().radical_file, "按右方向键手动输入→");
}

#[test]
fn a_path_can_be_typed() {
    let mut menu = SettingsMenu::new();
    press(&mut menu, &[MenuKey::Left, MenuKey::Right]);
    assert_eq!(menu.typing(), Typing::RadicalFile);
    assert_eq!(menu.input(), "");
    press(&mut menu, &[MenuKey::Enter]);
    assert_eq!(menu.typing(), Typing::RadicalFile);
    press(
        &mut menu,
        &[
            MenuKey::Backspace,
            MenuKey::Char(' '),
            MenuKey::Char('a'),
            MenuKey::Char('x'),
            MenuKey::Backspace,
            MenuKey::Char('.'),
            MenuKey::Up,
            MenuKey::Char('t'),
            MenuKey::Char(' '),
        ],
    );
    assert_eq!(menu.input(), " a.t ");
    press(&mut menu, &[MenuKey::Enter]);
    assert_eq!(menu.typing(), Typing::Nothing);
    assert_eq!(menu.config().radical_file, "a.t");
    assert_eq!(menu.selected(), 0);
}

#[test]
fn escape_while_typing_falls_back_to_last_table() {
    let mut menu = SettingsMenu::new();
    press(&mut menu, &[MenuKey::Down, MenuKey::Right, MenuKey::Right, MenuKey::Right]);
    assert_eq!(menu.typing(), Typing::FrequencyFile);
    press(&mut menu, &[MenuKey::Char('z'), MenuKey::Escape]);
    assert_eq!(menu.typing(), Typing::Nothing);
    assert_eq!(menu.config().frequency_file, "res/counts-3.6.0.txt");
    assert!(!menu.config().cancelled);
    let mut menu = SettingsMenu::new();
    press(&mut menu, &[MenuKey::Left, MenuKey::Right, MenuKey::Escape]);
    assert_eq!(menu.config().radical_file, "res/yusm-3.9.0-20250522.txt");
}

#[test]
fn enter_confirms_and_escape_cancels() {
    let mut menu = SettingsMenu::new();
    assert_eq!(menu.handle_key(MenuKey::Enter), MenuStep::Confirmed);
    assert!(!menu.config().cancelled);
    assert_eq!(menu.handle_key(MenuKey::Escape), MenuStep::Cancelled);
    assert!(menu.config().cancelled);
    let config = menu.into_config();
    assert!(config.cancelled);
    assert_eq!(config.penalty, 4);
}

#[test]
fn other_keys_change_nothing() {
    let mut menu = SettingsMenu::new();
    press(&mut menu, &[MenuKey::Other, MenuKey::Char('x'), MenuKey::Backspace]);
    assert_eq!(menu.selected(), 0);
    assert_eq!(menu.input(), "");
    assert_eq!(menu.config().radical_file, "res/yujoy-3.8.0.txt");
}
