use simplecrypt::app::Mode;
use simplecrypt::editor::{Editor, EditorControl, TextInput};
use simplecrypt::model::{Field, FieldKind, Template};
use simplecrypt::ui::{
    column_width, control_label, describe_control, detail_start, display_width, field_content, footer_hints,
    input_view, reveals_value, safe_text, secret_view, window, wrapped_safe,
};

#[test]
fn safe_text_escapes_controls_and_invisible_formatting() {
    assert_eq!(safe_text("plain 日本語"), "plain 日本語");
    assert_eq!(safe_text("a\nb\r\tc"), "a\\nb\\r\\tc");
    assert_eq!(safe_text("\u{1b}[31m"), "<ESC>[31m");
    assert_eq!(safe_text("\u{7}"), "\\u{0007}");
    assert_eq!(safe_text("\u{9b}"), "\\u{009B}");
    assert_eq!(safe_text("x\u{202e}y"), "x\\u{202E}y");
    assert_eq!(safe_text("\u{feff}"), "\\u{FEFF}");
    assert_eq!(safe_text("\u{e0041}"), "\\u{E0041}");
    assert_eq!(safe_text("\u{ad}\u{200b}"), "\\u{00AD}\\u{200B}");
    assert_eq!(safe_text(""), "");
    let hostile = "\u{1b}]0;title\u{7}\u{202e}\u{200d}\u{9c}ok";
    assert!(safe_text(hostile)
        .chars()
        .all(|c| !c.is_control() && !('\u{2028}'..='\u{202e}').contains(&c)));
}

#[test]
fn widths_count_columns() {
    assert_eq!(display_width("abc"), 3);
    assert_eq!(display_width("猫猫"), 4);
    assert_eq!(display_width("a\u{7}b"), 2);
    assert_eq!(display_width(""), 0);
}

#[test]
fn windows_cut_by_columns() {
    assert_eq!(window("abcdef", 2, 3), "cde");
    assert_eq!(window("abcdef", 0, 10), "abcdef");
    assert_eq!(window("猫猫猫", 1, 4), " 猫");
    assert_eq!(window("猫猫猫", 2, 3), "猫");
    assert_eq!(window("abc", 5, 3), "");
    assert_eq!(window("abc", 0, 0), "");
}

#[test]
fn wrapping_keeps_lines_and_breaks_by_width() {
    assert_eq!(wrapped_safe("abcdef", 4), vec!["abcd", "ef"]);
    assert_eq!(wrapped_safe("ab\ncd", 10), vec!["ab", "cd"]);
    assert_eq!(wrapped_safe("a\n", 10), vec!["a", ""]);
    assert_eq!(wrapped_safe("", 10), vec![""]);
    assert_eq!(wrapped_safe("猫猫猫", 5), vec!["猫猫", "猫"]);
    assert_eq!(wrapped_safe("x\u{1b}", 3), vec!["x<E", "SC>"]);
    assert_eq!(wrapped_safe("abc", 0), vec!["a", "b", "c"]);
}

#[test]
fn labels_and_hints() {
    assert_eq!(control_label(EditorControl::Label), "Record title");
    assert_eq!(control_label(EditorControl::MoveDown), "Move down");
    assert_eq!(control_label(EditorControl::Cancel), "Cancel");
    let (primary, secondary) = footer_hints(Mode::Delete);
    assert_eq!(primary, "y permanently delete · n / Esc keep record");
    assert_eq!(secondary, "Deletion is saved immediately. There is no undo.");
    assert_eq!(footer_hints(Mode::Locked).0, "Enter unlock · Esc clear · Ctrl-Q quit");
}

#[test]
fn secrets_are_masked_unless_revealed() {
    let mut field = Field::new("Password", FieldKind::Password);
    field.value = "hunter2-very-long-secret".to_owned();
    assert_eq!(field_content(&field, false, 40), vec!["************"]);
    assert_eq!(field_content(&field, true, 40), vec!["hunter2-very-long-secret"]);
    let mut note = Field::new("Note", FieldKind::Multiline);
    assert_eq!(field_content(&note, false, 40), vec!["(empty)"]);
    note.value = "one\ntwo".to_owned();
    assert_eq!(field_content(&note, false, 40), vec!["one", "two"]);
}

#[test]
fn detail_scrolling_brings_the_selection_into_view() {
    assert_eq!(detail_start(2, 5, 10, 0), 0);
    assert_eq!(detail_start(8, 12, 10, 0), 2);
    assert_eq!(detail_start(8, 30, 10, 0), 8);
    assert_eq!(detail_start(8, 30, 10, 5), 13);
    assert_eq!(detail_start(8, 30, 10, 500), 29);
    assert_eq!(detail_start(4, 4, 10, 3), 4);
}

#[test]
fn input_views_follow_the_cursor() {
    let input = TextInput::new("hello world");
    let view = input_view(&input, false, 5, 1);
    assert_eq!(view.lines, vec!["orld"]);
    assert_eq!(view.column, 4);
    assert_eq!(view.row, 0);
    let lines = TextInput::new("one\ntwo\nthree");
    let view = input_view(&lines, true, 10, 2);
    assert_eq!(view.lines, vec!["two", "three"]);
    assert_eq!(view.column, 5);
    assert_eq!(view.row, 1);
    let odd = TextInput {
        value: "猫a".to_owned(),
        cursor: 2,
    };
    let view = input_view(&odd, false, 10, 1);
    assert_eq!(view.column, 0);
    assert_eq!(view.lines, vec!["猫a"]);
    let escaped = TextInput::new("a\u{1b}");
    let view = input_view(&escaped, false, 20, 1);
    assert_eq!(view.lines, vec!["a<ESC>"]);
    assert_eq!(view.column, 6);
}

#[test]
fn secret_inputs_show_a_constant_mask() {
    let wide = secret_view(40);
    assert_eq!(wide.lines, vec!["************"]);
    assert_eq!(wide.column, 12);
    assert_eq!(wide.row, 0);
    assert_eq!(secret_view(5).column, 4);
    assert_eq!(secret_view(0).column, 0);
}

#[test]
fn compact_descriptions_follow_the_focus() {
    let mut editor = Editor::new(Template::Login.make_record().unwrap(), false);
    editor.focus = EditorControl::Kind;
    assert_eq!(describe_control(&editor), "‹ Username ›\nLeft / Right changes the type.");
    editor.field = 1;
    editor.focus = EditorControl::Secret;
    assert_eq!(describe_control(&editor), "[x] Secret / hidden\nSpace toggles visibility.");
    editor.focus = EditorControl::MoveUp;
    assert_eq!(describe_control(&editor), "Reorder the selected field.");
    editor.focus = EditorControl::Label;
    assert_eq!(describe_control(&editor), "");
}

#[test]
fn column_widths_of_ascii_controls_and_wide_characters() {
    assert_eq!(column_width('a'), 1);
    assert_eq!(column_width(' '), 1);
    assert_eq!(column_width('\u{7}'), 0);
    assert_eq!(column_width('\u{9b}'), 0);
    assert_eq!(column_width('日'), 2);
}

#[test]
fn window_laws_on_examples() {
    let text = "ab日本cd";
    for left in 0..8 {
        for width in 1..10 {
            let narrow = window(text, left, width);
            let wide = window(text, left, width + 1);
            assert!(display_width(&narrow) <= width);
            assert!(wide.starts_with(narrow.as_str()));
        }
    }
    assert_eq!(window(text, 0, display_width(text)), text);
    assert_eq!(window(text, 0, 20), text);
}

#[test]
fn wrapped_rows_rejoin_fit_and_break_greedily() {
    let rows = wrapped_safe("abcdef", 4);
    assert_eq!(rows, vec!["abcd".to_string(), "ef".to_string()]);
    assert_eq!(rows.concat(), "abcdef");
    let rows = wrapped_safe("a日本b", 3);
    assert_eq!(rows, vec!["a日".to_string(), "本b".to_string()]);
    let rows = wrapped_safe("日x", 1);
    assert_eq!(rows, vec!["日".to_string(), "x".to_string()]);
}

#[test]
fn escaping_is_per_character_and_idempotent() {
    let parts = ["plain", "a\nb", "\u{1b}[31m", "x\u{202e}y", "日本", ""];
    for a in parts {
        for b in parts {
            let joined = format!("{a}{b}");
            assert_eq!(safe_text(&joined), format!("{}{}", safe_text(a), safe_text(b)));
        }
        assert_eq!(safe_text(&safe_text(a)), safe_text(a));
    }
    assert_eq!(safe_text("plain 日本"), "plain 日本");
    assert_ne!(safe_text("tab\t"), "tab\t");
}

#[test]
fn only_the_selected_revealed_secret_in_the_browser_is_shown() {
    let mut field = Field::new("password", FieldKind::Password);
    field.secret = true;
    assert!(reveals_value(&field, true, true, Mode::Browse));
    assert!(!reveals_value(&field, false, true, Mode::Browse));
    assert!(!reveals_value(&field, true, false, Mode::Browse));
    assert!(!reveals_value(&field, true, true, Mode::Edit));
    field.secret = false;
    assert!(!reveals_value(&field, true, true, Mode::Browse));
}
