use simplecrypt::editor::{Editor, EditorControl, TextInput};
use simplecrypt::input::{KeyCode, KeyEvent, KeyModifiers};
use simplecrypt::model::{Field, FieldKind, Record, Template};

fn key(code: KeyCode) -> KeyEvent {
    KeyEvent::plain(code)
}

#[test]
fn unicode_boundaries_and_deletion() {
    let mut input = TextInput::new("a猫é");
    input.key(key(KeyCode::Left), false, 100);
    input.key(key(KeyCode::Backspace), false, 100);
    assert!(input.value.as_str() == "aé");
    input.key(key(KeyCode::Delete), false, 100);
    assert!(input.value.as_str() == "a");
}

#[test]
fn literal_navigation_keys_and_bounded_paste() {
    let mut input = TextInput::default();
    for c in "hjkl/q".chars() {
        input.key(key(KeyCode::Char(c)), false, 16);
    }
    assert!(input.value.as_str() == "hjkl/q");
    assert!(!input.insert("\x1b[31m", false, 100));
    assert!(!input.insert("too long", false, 7));
    assert!(!input.insert("\n", false, 16));
    assert!(input.insert("\n", true, 16));
}

#[test]
fn byte_cursor_tracks_multibyte_characters() {
    let mut input = TextInput::new("猫x");
    assert_eq!(input.cursor, 4);
    input.key(key(KeyCode::Home), false, 100);
    assert_eq!(input.cursor, 0);
    input.key(key(KeyCode::Right), false, 100);
    assert_eq!(input.cursor, 3);
    assert!(input.insert("é", false, 100));
    assert_eq!(input.value, "猫éx");
    assert_eq!(input.cursor, 5);
    input.key(key(KeyCode::End), false, 100);
    assert_eq!(input.cursor, 6);
    input.key(KeyEvent::new(KeyCode::Char('a'), KeyModifiers::control()), false, 100);
    assert_eq!(input.cursor, 0);
    input.key(KeyEvent::new(KeyCode::Char('e'), KeyModifiers::control()), false, 100);
    assert_eq!(input.cursor, 6);
    input.key(KeyEvent::new(KeyCode::Char('u'), KeyModifiers::control()), false, 100);
    assert!(input.value.is_empty());
    assert_eq!(input.cursor, 0);
}

#[test]
fn multiline_vertical_moves_keep_the_column() {
    let mut input = TextInput::new("abcd\nxy\n12345");
    input.key(key(KeyCode::Up), true, 100);
    assert_eq!(input.cursor, 7);
    input.key(key(KeyCode::Up), true, 100);
    assert_eq!(input.cursor, 2);
    input.key(key(KeyCode::Down), true, 100);
    assert_eq!(input.cursor, 7);
    input.key(key(KeyCode::Home), true, 100);
    assert_eq!(input.cursor, 5);
    input.key(key(KeyCode::End), true, 100);
    assert_eq!(input.cursor, 7);
    assert!(!input.key(key(KeyCode::Up), false, 100));
    input.key(key(KeyCode::Enter), true, 100);
    assert_eq!(input.value, "abcd\nxy\n\n12345");
    assert!(!input.key(key(KeyCode::Enter), false, 100));
}

#[test]
fn limits_count_bytes_and_refuse_controls() {
    let mut input = TextInput::new("ééé");
    assert!(!input.insert("é", false, 7));
    assert!(input.insert("é", false, 8));
    assert!(!input.key(key(KeyCode::Char('\u{7}')), false, 100));
    assert!(!input.key(KeyEvent::new(KeyCode::Char('x'), KeyModifiers::control()), false, 100));
    let alt = KeyModifiers {
        control: false,
        alt: true,
        shift: false,
    };
    assert!(!input.key(KeyEvent::new(KeyCode::Char('x'), alt), false, 100));
    assert_eq!(input.value, "éééé");
}

fn login_editor() -> Editor {
    Editor::new(Template::Login.make_record().unwrap(), false)
}

#[test]
fn editor_loads_syncs_and_moves_fields() {
    let mut editor = login_editor();
    assert_eq!(editor.field, 0);
    assert_eq!(editor.focus, EditorControl::Label);
    assert_eq!(editor.name.value, "Username");
    assert_eq!(editor.label.value, "Login");
    editor.label = TextInput::new("Bank");
    editor.value = TextInput::new("alice");
    editor.select_field(1);
    assert_eq!(editor.field, 1);
    assert_eq!(editor.name.value, "Password");
    assert_eq!(editor.record.fields[0].value, "alice");
    assert_eq!(editor.record.label, "Bank");
    editor.select_field(5);
    assert_eq!(editor.field, 2);
    editor.select_field(-9);
    assert_eq!(editor.field, 0);
    editor.move_field(1);
    assert_eq!(editor.field, 1);
    assert_eq!(editor.record.fields[1].name, "Username");
    assert_eq!(editor.record.fields[0].name, "Password");
    editor.move_field(-5);
    assert_eq!(editor.field, 1);
}

#[test]
fn editor_adds_removes_and_toggles() {
    let mut editor = login_editor();
    editor.add_field();
    assert_eq!(editor.record.fields.len(), 4);
    assert_eq!(editor.field, 3);
    assert_eq!(editor.focus, EditorControl::Name);
    assert_eq!(editor.record.fields[3].name, "custom");
    assert_eq!(editor.record.fields[3].kind, FieldKind::Text);
    editor.remove_field();
    assert_eq!(editor.record.fields.len(), 3);
    assert_eq!(editor.field, 2);
    editor.cycle_kind(1);
    assert_eq!(editor.record.fields[2].kind, FieldKind::Multiline);
    assert!(editor.multiline());
    editor.cycle_kind(-2);
    assert_eq!(editor.record.fields[2].kind, FieldKind::Address);
    editor.cycle_kind(-1);
    assert_eq!(editor.record.fields[2].kind, FieldKind::Password);
    assert!(editor.record.fields[2].secret);
    assert!(editor.masked());
    editor.toggle_secret();
    assert!(!editor.record.fields[2].secret);
    let mut empty = Editor::new(Record::with_id_bytes("Empty", &[3; 16]), true);
    empty.remove_field();
    assert!(empty.record.fields.is_empty());
    assert_eq!(empty.field, 0);
    assert!(empty.name.value.is_empty());
}

#[test]
fn editor_tab_and_text_keys() {
    let mut editor = login_editor();
    editor.tab(false);
    assert_eq!(editor.focus, EditorControl::FieldList);
    editor.tab(true);
    editor.tab(true);
    assert_eq!(editor.focus, EditorControl::Cancel);
    assert_eq!(EditorControl::Cancel.step(1), EditorControl::Label);
    editor.focus = EditorControl::Name;
    assert!(editor.text_key(key(KeyCode::Char('!'))));
    assert_eq!(editor.name.value, "Username!");
    assert!(editor.paste(" two"));
    assert_eq!(editor.name.value, "Username! two");
    editor.focus = EditorControl::Save;
    assert!(!editor.text_key(key(KeyCode::Char('x'))));
    assert!(!editor.paste("x"));
    editor.sync();
    assert_eq!(editor.record.fields[0].name, "Username! two");
    let field = Field::new("n", FieldKind::Password);
    assert!(field.secret);
}

#[test]
fn focus_and_kind_steps_undo() {
    for control in EditorControl::ALL {
        for d in [1_isize, 5, 13, 27] {
            assert_eq!(control.step(d).step(-d), control);
        }
    }
    let mut editor = login_editor();
    editor.field = 2;
    let before = editor.record.fields[2].kind;
    editor.cycle_kind(3);
    editor.cycle_kind(-3);
    assert_eq!(editor.record.fields[2].kind, before);
    let mut input = TextInput::new("abc");
    for c in "defghij".chars() {
        input.key(key(KeyCode::Char(c)), false, 8);
    }
    assert_eq!(input.value, "abcdefgh");
}
