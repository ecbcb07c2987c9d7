use serde_json::Value;
use simplecrypt::app::{App, Effect, Mode, Pane};
use simplecrypt::editor::{EditorControl, TextInput};
use simplecrypt::input::{Event, KeyCode, KeyEvent, KeyModifiers};
use simplecrypt::model::{Field, FieldKind, Record, Vault};
use simplecrypt::storage::SaveError;
use simplecrypt::theme::Theme;

const IDLE_MS: u64 = 300_000;

/// The vault file, held in memory.
struct Disk {
    bytes: Option<Vec<u8>>,
    fail_next_write: Option<bool>,
}

fn field_json(field: &Field) -> Value {
    let mut m = serde_json::Map::new();
    m.insert("name".to_string(), Value::String(field.name.clone()));
    m.insert("value".to_string(), Value::String(field.value.clone()));
    m.insert("kind".to_string(), Value::String(field.kind.label().to_string()));
    m.insert("secret".to_string(), Value::Bool(field.secret));
    Value::Object(m)
}

fn record_json(record: &Record) -> Value {
    let mut m = serde_json::Map::new();
    m.insert("id".to_string(), Value::String(record.id.clone()));
    m.insert("label".to_string(), Value::String(record.label.clone()));
    m.insert(
        "fields".to_string(),
        Value::Array(record.fields.iter().map(field_json).collect()),
    );
    Value::Object(m)
}

fn encode(vault: &Vault) -> Vec<u8> {
    let mut m = serde_json::Map::new();
    m.insert(
        "records".to_string(),
        Value::Array(vault.records.iter().map(record_json).collect()),
    );
    serde_json::to_vec(&Value::Object(m)).unwrap()
}

fn decode(bytes: &[u8]) -> Option<Vault> {
    let value: Value = serde_json::from_slice(bytes).ok()?;
    let mut records = Vec::new();
    for r in value.get("records")?.as_array()? {
        let mut fields = Vec::new();
        for f in r.get("fields")?.as_array()? {
            let kind = FieldKind::ALL
                .into_iter()
                .find(|k| Some(k.label()) == f.get("kind").and_then(|v| v.as_str()))?;
            fields.push(Field {
                name: f.get("name")?.as_str()?.to_string(),
                value: f.get("value")?.as_str()?.to_string(),
                kind,
                secret: f.get("secret")?.as_bool()?,
            });
        }
        records.push(Record {
            id: r.get("id")?.as_str()?.to_string(),
            label: r.get("label")?.as_str()?.to_string(),
            fields,
        });
    }
    Some(Vault { records })
}

/// Performs each effect the application asks for and hands back the outcome.
fn settle(app: &mut App, disk: &mut Disk, mut effect: Effect, now: u64) {
    loop {
        effect = match effect {
            Effect::Nothing => return,
            Effect::ReadVault => app.vault_read(
                disk.bytes
                    .clone()
                    .ok_or_else(|| "Vault does not exist.".to_owned()),
            ),
            Effect::Decode(bytes) => app.payload_decoded(decode(&bytes), now),
            Effect::Encode(vault) => app.payload_encoded(Some(encode(&vault))),
            Effect::Write(bytes, create) => {
                if let Some(committed) = disk.fail_next_write.take() {
                    if committed {
                        disk.bytes = Some(bytes);
                    }
                    app.write_finished(
                        Err(SaveError::new("injected failure".to_owned(), committed)),
                        now,
                    )
                } else if create && disk.bytes.is_some() {
                    app.write_finished(
                        Err(SaveError::new(
                            "A vault already exists; creation will not overwrite it.".to_owned(),
                            false,
                        )),
                        now,
                    )
                } else {
                    disk.bytes = Some(bytes);
                    app.write_finished(Ok(()), now)
                }
            }
        };
    }
}

fn send(app: &mut App, disk: &mut Disk, event: Event, now: u64) {
    let effect = app.event(event, now);
    settle(app, disk, effect, now);
}

fn press(app: &mut App, disk: &mut Disk, code: KeyCode) {
    send(app, disk, Event::Key(KeyEvent::plain(code)), 1_000);
}

fn paste(app: &mut App, disk: &mut Disk, text: &str) {
    send(app, disk, Event::Paste(text.to_owned()), 1_000);
}

fn save(app: &mut App, disk: &mut Disk) {
    send(
        app,
        disk,
        Event::Key(KeyEvent::new(KeyCode::Char('s'), KeyModifiers::control())),
        1_000,
    );
}

fn new_app() -> (Disk, App) {
    let disk = Disk {
        bytes: None,
        fail_next_write: None,
    };
    let app = App::new(false, Theme::Mocha, IDLE_MS, 0);
    (disk, app)
}

fn create(app: &mut App, disk: &mut Disk) {
    assert_eq!(app.mode, Mode::Create);
    paste(app, disk, "synthetic test master password");
    press(app, disk, KeyCode::Enter);
    paste(app, disk, "synthetic test master password");
    press(app, disk, KeyCode::Enter);
    assert_eq!(app.mode, Mode::Browse, "{}", app.status);
}

#[test]
fn complete_record_search_edit_lock_and_restart_flow() {
    let (mut disk, mut app) = new_app();
    create(&mut app, &mut disk);
    press(&mut app, &mut disk, KeyCode::Char('a'));
    press(&mut app, &mut disk, KeyCode::Enter);
    assert_eq!(app.mode, Mode::Edit);
    app.editor.as_mut().unwrap().label.clear();
    for c in "hjkl/q猫".chars() {
        press(&mut app, &mut disk, KeyCode::Char(c));
    }
    assert!(app.editor.as_ref().unwrap().label.value.as_str() == "hjkl/q猫");
    {
        let editor = app.editor.as_mut().unwrap();
        editor.label = TextInput::new("Personal Email 猫");
        let index = editor
            .record
            .fields
            .iter()
            .position(|field| field.kind == FieldKind::Password)
            .unwrap();
        editor.select_field(index as isize);
        editor.focus = EditorControl::Value;
    }
    paste(&mut app, &mut disk, "unique-synthetic-password-sentinel");
    save(&mut app, &mut disk);
    assert_eq!(app.mode, Mode::Browse, "{}", app.status);
    assert_eq!(app.records().len(), 1);
    let encrypted = disk.bytes.clone().unwrap();
    for needle in ["Personal Email", "unique-synthetic-password-sentinel"] {
        assert!(!encrypted
            .windows(needle.len())
            .any(|w| w == needle.as_bytes()));
    }
    press(&mut app, &mut disk, KeyCode::Char('/'));
    paste(&mut app, &mut disk, "EMAIL");
    assert_eq!(app.filtered_indices().len(), 1);
    press(&mut app, &mut disk, KeyCode::Enter);
    press(&mut app, &mut disk, KeyCode::Char('/'));
    paste(&mut app, &mut disk, "no-match");
    assert!(app.filtered_indices().is_empty());
    press(&mut app, &mut disk, KeyCode::Esc);
    assert!(app.query.value.as_str() == "EMAIL");
    assert_eq!(app.filtered_indices().len(), 1);
    app.pane = Pane::Fields;
    app.selected_field = app
        .current_record()
        .unwrap()
        .fields
        .iter()
        .position(|f| f.secret)
        .unwrap();
    press(&mut app, &mut disk, KeyCode::Char('r'));
    assert!(app.revealed());
    send(&mut app, &mut disk, Event::FocusLost, 1_000);
    assert!(!app.revealed());
    press(&mut app, &mut disk, KeyCode::Char('r'));
    app.tick(1_000 + 11_000);
    assert!(!app.revealed());
    press(&mut app, &mut disk, KeyCode::Char('e'));
    assert!(app.editor.is_some());
    app.tick(1_000 + 301_000);
    assert_eq!(app.mode, Mode::Locked);
    assert!(app.editor.is_none());
    assert!(app.session.is_none());
    assert!(app.query.value.is_empty());
    assert!(app.master.value.is_empty());
    paste(&mut app, &mut disk, "incorrect synthetic password");
    press(&mut app, &mut disk, KeyCode::Enter);
    assert_eq!(app.mode, Mode::Locked);
    assert!(app.is_error);
    assert!(app.master.value.is_empty());
    drop(app);

    let mut reopened = App::new(disk.bytes.is_some(), Theme::Latte, IDLE_MS, 0);
    assert_eq!(reopened.mode, Mode::Locked);
    paste(&mut reopened, &mut disk, "synthetic test master password");
    press(&mut reopened, &mut disk, KeyCode::Enter);
    assert_eq!(reopened.mode, Mode::Browse);
    assert_eq!(reopened.records().len(), 1);
    assert!(reopened.records()[0]
        .fields
        .iter()
        .any(|f| f.value == "unique-synthetic-password-sentinel"));
    press(&mut reopened, &mut disk, KeyCode::Char('d'));
    press(&mut reopened, &mut disk, KeyCode::Char('n'));
    assert_eq!(reopened.records().len(), 1);
    press(&mut reopened, &mut disk, KeyCode::Char('d'));
    press(&mut reopened, &mut disk, KeyCode::Char('y'));
    assert!(reopened.records().is_empty());
    press(&mut reopened, &mut disk, KeyCode::Char('q'));
    assert!(reopened.should_quit);
    assert!(reopened.session.is_none());
}

#[test]
fn setup_validation_and_mode_specific_quit() {
    let (mut disk, mut app) = new_app();
    paste(&mut app, &mut disk, "short");
    press(&mut app, &mut disk, KeyCode::Enter);
    paste(&mut app, &mut disk, "short");
    press(&mut app, &mut disk, KeyCode::Enter);
    assert_eq!(app.mode, Mode::Create);
    assert!(app.is_error);
    press(&mut app, &mut disk, KeyCode::Esc);
    paste(&mut app, &mut disk, "sufficient length one");
    press(&mut app, &mut disk, KeyCode::Enter);
    paste(&mut app, &mut disk, "different length two");
    press(&mut app, &mut disk, KeyCode::Enter);
    assert_eq!(app.mode, Mode::Create);
    assert!(app.confirmation.value.is_empty());
    press(&mut app, &mut disk, KeyCode::Char('q'));
    assert!(!app.should_quit);
    assert!(app.confirmation.value.as_str() == "q");
}

#[test]
fn manual_lock_clears_all_modes() {
    let (_disk, mut app) = new_app();
    for mode in [
        Mode::Browse,
        Mode::Search,
        Mode::Edit,
        Mode::Templates,
        Mode::Delete,
        Mode::Help,
        Mode::Themes,
    ] {
        app.mode = mode;
        app.query = TextInput::new("sensitive label query");
        app.lock(false);
        assert_eq!(app.mode, Mode::Locked);
        assert!(app.query.value.is_empty());
    }
}

#[test]
fn uncertain_write_blocks_every_later_write() {
    let (mut disk, mut app) = new_app();
    create(&mut app, &mut disk);
    press(&mut app, &mut disk, KeyCode::Char('a'));
    press(&mut app, &mut disk, KeyCode::Enter);
    disk.fail_next_write = Some(true);
    save(&mut app, &mut disk);
    assert!(app.write_blocked);
    assert_eq!(app.mode, Mode::Locked);
    assert!(app.session.is_none());
    assert!(app.is_error);
    assert_eq!(
        app.status,
        "Vault was published, but durability is uncertain; reopen before writing: injected failure"
    );
    paste(&mut app, &mut disk, "synthetic test master password");
    let effect = app.event(Event::Key(KeyEvent::plain(KeyCode::Enter)), 2_000);
    assert!(matches!(effect, Effect::Nothing));
    assert_eq!(
        app.status,
        "Save durability is uncertain. Quit with Ctrl-Q and reopen the vault before continuing."
    );
    send(
        &mut app,
        &mut disk,
        Event::Key(KeyEvent::new(KeyCode::Char('q'), KeyModifiers::control())),
        2_000,
    );
    assert!(app.should_quit);
}

#[test]
fn failed_write_keeps_the_committed_records() {
    let (mut disk, mut app) = new_app();
    create(&mut app, &mut disk);
    let before = disk.bytes.clone();
    press(&mut app, &mut disk, KeyCode::Char('a'));
    press(&mut app, &mut disk, KeyCode::Enter);
    disk.fail_next_write = Some(false);
    save(&mut app, &mut disk);
    assert!(!app.write_blocked);
    assert_eq!(app.mode, Mode::Edit);
    assert!(app.records().is_empty());
    assert_eq!(disk.bytes, before);
    assert_eq!(app.status, "Vault was not saved: injected failure");
    save(&mut app, &mut disk);
    assert_eq!(app.mode, Mode::Browse);
    assert_eq!(app.records().len(), 1);
    assert_eq!(app.status, "Record saved. Your vault is encrypted on disk.");
}

#[test]
fn templates_themes_and_help_navigation() {
    let (mut disk, mut app) = new_app();
    create(&mut app, &mut disk);
    assert_eq!(app.status, "Vault created. Press a to add your first record.");
    press(&mut app, &mut disk, KeyCode::Char('a'));
    assert_eq!(app.mode, Mode::Templates);
    press(&mut app, &mut disk, KeyCode::Char('k'));
    assert_eq!(app.template_index, 4);
    press(&mut app, &mut disk, KeyCode::Down);
    assert_eq!(app.template_index, 0);
    press(&mut app, &mut disk, KeyCode::Esc);
    assert_eq!(app.mode, Mode::Browse);
    press(&mut app, &mut disk, KeyCode::Char('t'));
    assert_eq!(app.mode, Mode::Themes);
    assert_eq!(app.theme_index, 0);
    press(&mut app, &mut disk, KeyCode::Char('j'));
    press(&mut app, &mut disk, KeyCode::Enter);
    assert_eq!(app.theme, Theme::Macchiato);
    assert_eq!(
        app.status,
        "Theme changed for this session. Use --theme to choose a launch theme."
    );
    press(&mut app, &mut disk, KeyCode::Char('?'));
    assert_eq!(app.mode, Mode::Help);
    press(&mut app, &mut disk, KeyCode::Char('q'));
    assert_eq!(app.mode, Mode::Browse);
    assert!(!app.should_quit);
    press(&mut app, &mut disk, KeyCode::Char('L'));
    assert_eq!(app.mode, Mode::Locked);
    assert_eq!(app.status, "Vault locked. Small vault. Quiet secrets.");
}

#[test]
fn editor_controls_generate_cancel_and_browse_navigation() {
    let (mut disk, mut app) = new_app();
    create(&mut app, &mut disk);
    press(&mut app, &mut disk, KeyCode::Char('a'));
    press(&mut app, &mut disk, KeyCode::Enter);
    {
        let editor = app.editor.as_mut().unwrap();
        editor.select_field(1);
        editor.focus = EditorControl::Generate;
    }
    press(&mut app, &mut disk, KeyCode::Enter);
    assert_eq!(
        app.status,
        "Generated a 24-character random secret. Ctrl-S saves the record."
    );
    let generated = app.editor.as_ref().unwrap().value.value.clone();
    assert_eq!(generated.chars().count(), 24);
    press(&mut app, &mut disk, KeyCode::Esc);
    assert_eq!(app.mode, Mode::Browse);
    assert!(app.editor.is_none());
    assert!(app.records().is_empty());
    assert_eq!(app.status, "Editor cancelled. No changes saved.");
    for _ in 0..2 {
        press(&mut app, &mut disk, KeyCode::Char('a'));
        press(&mut app, &mut disk, KeyCode::Enter);
        save(&mut app, &mut disk);
    }
    assert_eq!(app.records().len(), 2);
    assert_eq!(app.selected, 1);
    press(&mut app, &mut disk, KeyCode::Up);
    assert_eq!(app.selected, 0);
    press(&mut app, &mut disk, KeyCode::Up);
    assert_eq!(app.selected, 0);
    press(&mut app, &mut disk, KeyCode::Down);
    press(&mut app, &mut disk, KeyCode::Down);
    assert_eq!(app.selected, 1);
    press(&mut app, &mut disk, KeyCode::PageDown);
    assert_eq!(app.detail_scroll, 5);
    press(&mut app, &mut disk, KeyCode::PageUp);
    assert_eq!(app.detail_scroll, 0);
    press(&mut app, &mut disk, KeyCode::Tab);
    assert_eq!(app.pane, Pane::Fields);
    press(&mut app, &mut disk, KeyCode::Char('d'));
    press(&mut app, &mut disk, KeyCode::Char('y'));
    assert_eq!(app.records().len(), 1);
    assert_eq!(app.selected, 0);
    assert_eq!(app.status, "Record deleted and encrypted vault saved.");
    press(&mut app, &mut disk, KeyCode::Char('e'));
    assert_eq!(app.mode, Mode::Edit);
    assert!(app.editor.as_ref().unwrap().existing);
    save(&mut app, &mut disk);
    assert_eq!(app.records().len(), 1);
    assert_eq!(app.mode, Mode::Browse);
}

#[test]
fn secrets_reveal_only_on_secret_fields_and_expire() {
    let (mut disk, mut app) = new_app();
    create(&mut app, &mut disk);
    press(&mut app, &mut disk, KeyCode::Char('a'));
    press(&mut app, &mut disk, KeyCode::Enter);
    save(&mut app, &mut disk);
    app.selected_field = 0;
    press(&mut app, &mut disk, KeyCode::Char('r'));
    assert!(!app.revealed());
    app.selected_field = 1;
    press(&mut app, &mut disk, KeyCode::Char('r'));
    assert_eq!(app.revealed_until, Some(1_000 + 10_000));
    assert_eq!(app.idle_remaining(1_000), IDLE_MS);
    press(&mut app, &mut disk, KeyCode::Char('r'));
    assert!(!app.revealed());
    press(&mut app, &mut disk, KeyCode::Char('r'));
    press(&mut app, &mut disk, KeyCode::Down);
    assert!(!app.revealed());
    let release = KeyEvent {
        code: KeyCode::Char('q'),
        modifiers: KeyModifiers::none(),
        release: true,
    };
    send(&mut app, &mut disk, Event::Key(release), 1_000);
    assert!(!app.should_quit);
    app.tick(1_000 + IDLE_MS);
    assert_eq!(app.mode, Mode::Locked);
    assert_eq!(
        app.status,
        "Locked after inactivity. Your saved records are safe."
    );
}

#[test]
fn unlock_reports_missing_files_and_pastes_are_bounded() {
    let mut disk = Disk {
        bytes: None,
        fail_next_write: None,
    };
    let mut app = App::new(true, Theme::Frappe, IDLE_MS, 0);
    assert_eq!(app.status, "Your vault is locked. Welcome back.");
    paste(&mut app, &mut disk, "anything long enough");
    press(&mut app, &mut disk, KeyCode::Enter);
    assert!(app.is_error);
    assert_eq!(app.status, "Vault does not exist.");
    assert!(app.master.value.is_empty());
    paste(&mut app, &mut disk, "bad\u{7}paste");
    assert!(app.is_error);
    assert_eq!(
        app.status,
        "Paste rejected: select a text input, respect its size limit, and omit control characters."
    );
    assert!(app.master.value.is_empty());
    disk.bytes = Some(vec![b'x'; 200]);
    paste(&mut app, &mut disk, "anything long enough");
    press(&mut app, &mut disk, KeyCode::Enter);
    assert_eq!(app.status, "Not a SimpleCrypt vault.");
}
