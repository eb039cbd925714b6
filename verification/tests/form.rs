use radical_drill::form::{
    find_char_index, ConversionForm, Focus, FormField, FormKey, FormStep,
};

fn press(form: &mut ConversionForm, keys: &[FormKey]) {
    for key in keys {
        assert!(form.can_handle(*key));
        assert_eq!(form.handle_key(*key), FormStep::Continue);
    }
}

#[test]
fn form_opens_with_standard_paths() {
    let form = ConversionForm::new();
    assert_eq!(form.source.text, "./yustar_chaifen.dict.yaml");
    assert_eq!(form.source.cursor, 26);
    assert_eq!(form.code_target.text, "res/yucode-custom.txt");
    assert_eq!(form.code_target.cursor, 21);
    assert_eq!(form.count_target.text, "res/counts-custom.txt");
    assert_eq!(form.count_target.cursor, 21);
    assert_eq!(form.focus, Focus::Source);
}

#[test]
fn focus_moves_through_fields_and_buttons() {
    let mut form = ConversionForm::new();
    press(&mut form, &[FormKey::Up]);
    assert_eq!(form.focus, Focus::Source);
    press(&mut form, &[FormKey::Down]);
    assert_eq!(form.focus, Focus::CodeTarget);
    press(&mut form, &[FormKey::Down]);
    assert_eq!(form.focus, Focus::CountTarget);
    press(&mut form, &[FormKey::Down]);
    assert_eq!(form.focus, Focus::Confirm);
    press(&mut form, &[FormKey::Down]);
    assert_eq!(form.focus, Focus::Cancel);
    press(&mut form, &[FormKey::Down]);
    assert_eq!(form.focus, Focus::Cancel);
    press(&mut form, &[FormKey::Left]);
    assert_eq!(form.focus, Focus::Confirm);
    press(&mut form, &[FormKey::Right]);
    assert_eq!(form.focus, Focus::Cancel);
    press(&mut form, &[FormKey::Up]);
    assert_eq!(form.focus, Focus::CountTarget);
    press(&mut form, &[FormKey::Up]);
    assert_eq!(form.focus, Focus::CodeTarget);
    press(&mut form, &[FormKey::Up]);
    assert_eq!(form.focus, Focus::Source);
}

#[test]
fn leaving_a_field_puts_its_cursor_at_the_end() {
    let mut form = ConversionForm::new();
    press(&mut form, &[FormKey::Left, FormKey::Left, FormKey::Left]);
    assert_eq!(form.source.cursor, 23);
    press(&mut form, &[FormKey::Down]);
    assert_eq!(form.source.cursor, 26);
    press(&mut form, &[FormKey::Left, FormKey::Up]);
    assert_eq!(form.code_target.cursor, 21);
}

#[test]
fn typing_and_erasing_at_the_cursor() {
    let mut form = ConversionForm::new();
    press(&mut form, &[FormKey::Char('x'), FormKey::Char('y')]);
    assert_eq!(form.source.text, "./yustar_chaifen.dict.yamlxy");
    assert_eq!(form.source.cursor, 28);
    press(&mut form, &[FormKey::Left, FormKey::Backspace]);
    assert_eq!(form.source.text, "./yustar_chaifen.dict.yamly");
    assert_eq!(form.source.cursor, 26);
    press(&mut form, &[FormKey::Right, FormKey::Right, FormKey::Right]);
    assert_eq!(form.source.cursor, 27);
    let mut field = FormField::new("ab");
    for _ in 0..5 {
        field.step_left();
    }
    assert_eq!(field.cursor, 0);
    field.type_char('z');
    assert_eq!((field.text.as_str(), field.cursor), ("zab", 1));
    field.step_left();
    field.erase();
    assert_eq!((field.text.as_str(), field.cursor), ("zab", 0));
}

#[test]
fn buttons_ignore_typing() {
    let mut form = ConversionForm::new();
    press(&mut form, &[FormKey::Down, FormKey::Down, FormKey::Down]);
    press(&mut form, &[FormKey::Char('x'), FormKey::Backspace, FormKey::Other]);
    assert_eq!(form.count_target.text, "res/counts-custom.txt");
    assert_eq!(form.focus, Focus::Confirm);
}

#[test]
fn enter_and_escape_decide() {
    let mut form = ConversionForm::new();
    assert_eq!(form.handle_key(FormKey::Enter), FormStep::Continue);
    assert_eq!(form.handle_key(FormKey::Escape), FormStep::Leave);
    press(&mut form, &[FormKey::Down, FormKey::Down, FormKey::Down]);
    assert_eq!(form.handle_key(FormKey::Enter), FormStep::Convert);
    press(&mut form, &[FormKey::Down]);
    assert_eq!(form.handle_key(FormKey::Enter), FormStep::Leave);
}

#[test]
fn cursor_inside_a_character_cannot_be_typed_at() {
    let mut field = FormField::new("a");
    field.type_char('甲');
    assert_eq!((field.text.as_str(), field.cursor), ("a甲", 2));
    assert!(!field.can_type());
    assert!(field.can_erase());
    field.step_left();
    assert!(field.can_type());
    assert!(field.can_erase());
    field.step_right();
    field.step_right();
    field.step_right();
    assert_eq!(field.cursor, 4);
    assert!(field.can_type());
    assert!(!field.can_erase());
    field.step_right();
    assert_eq!(field.cursor, 4);
    field.step_left();
    field.step_left();
    field.step_left();
    assert!(field.can_erase());
    field.erase();
    assert_eq!((field.text.as_str(), field.cursor), ("甲", 0));
    assert!(field.can_erase());
    field.erase();
    assert_eq!((field.text.as_str(), field.cursor), ("甲", 0));
    assert!(field.fits());
    field.go_to_end();
    assert_eq!(field.cursor, 3);
}

#[test]
fn byte_positions_map_to_characters() {
    let text: Vec<char> = "a甲é".chars().collect();
    assert_eq!(find_char_index(&text, 0), Some(0));
    assert_eq!(find_char_index(&text, 1), Some(1));
    assert_eq!(find_char_index(&text, 2), None);
    assert_eq!(find_char_index(&text, 3), None);
    assert_eq!(find_char_index(&text, 4), Some(2));
    assert_eq!(find_char_index(&text, 5), None);
    assert_eq!(find_char_index(&text, 6), Some(3));
    assert_eq!(find_char_index(&text, 7), None);
}
