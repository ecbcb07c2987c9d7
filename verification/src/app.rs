//! The application as a state machine: a terminal event and the current time
//! go in, the next state and an [`Effect`] come out. The program around the
//! library performs each effect (reading or writing the vault file, encoding
//! or decoding records) and hands the outcome back.
use vstd::prelude::*;

use crate::crypto::{master_key, sealed_by, unlock_result, Session, Unsealed, SALT_SIZE};
use crate::text::utf8_len;
use crate::editor::{
    control_at, control_index, insert_allowed, insert_at, key_outcome, loaded, synced, add_post, cycle_post, move_post, remove_post, select_post,
    tab_post, text_key_post, toggle_post, Editor, EditorControl,
    TextInput, LABEL_LIMIT, PASSWORD_LIMIT,
};
use crate::error::{message_of, VaultError};
use crate::input::{Event, KeyCode, KeyEvent};
use crate::model::{
    generate_password, in_alphabet, same_record, same_records, template_at, template_fields_match, template_record_label,
    valid_id, valid_records, validation_result, wipe_string, Field, Record, Template, Vault,
    MAX_FIELDS_PER_RECORD,
};
use crate::storage::SaveError;
use crate::theme::{theme_at, theme_index, Theme};

verus! {

/// What the screen shows and how keys are read.
#[derive(Clone, Copy, PartialEq, Eq, Structural, Debug)]
pub enum Mode {
    Create,
    Locked,
    Browse,
    Search,
    Edit,
    Templates,
    Delete,
    Help,
    Themes,
}

/// The focused browser pane.
#[derive(Clone, Copy, PartialEq, Eq, Structural, Debug)]
pub enum Pane {
    Records,
    Fields,
}

/// What to do once a vault write succeeds.
#[derive(Debug)]
pub enum After {
    /// Close the editor and select the saved record.
    SavedRecord(String),
    /// Return to the browser with the selection clamped.
    Deleted,
}

/// The step of an operation that waits for outside work.
pub enum Pending {
    Idle,
    /// Unlocking: waits for the vault file's bytes.
    Unlock,
    /// Unlocking: waits for the authenticated payload to be parsed.
    Decode(Unsealed),
    /// Creating: waits for the empty vault to be encoded.
    CreateEncode(Session),
    /// Creating: waits for the first envelope to be written.
    CreateWrite(Session),
    /// Saving: waits for the candidate records to be encoded.
    PersistEncode(Vault, After),
    /// Saving: waits for the envelope to be written.
    PersistWrite(Vault, After),
}

/// Outside work the application asks for.
pub enum Effect {
    Nothing,
    /// Read the vault file; answer with [`App::vault_read`].
    ReadVault,
    /// Parse this authenticated payload into records; answer with [`App::payload_decoded`].
    Decode(Vec<u8>),
    /// Serialize these records (within the envelope's size bound); answer with [`App::payload_encoded`].
    Encode(Vault),
    /// Write this envelope, creating the file when the flag is set; answer with [`App::write_finished`].
    Write(Vec<u8>, bool),
}

/// The whole application state. Times are milliseconds on a monotonic clock.
pub struct App {
    pub session: Option<Session>,
    pub mode: Mode,
    pub pane: Pane,
    pub theme: Theme,
    pub selected: usize,
    pub selected_field: usize,
    pub detail_scroll: usize,
    pub query: TextInput,
    pub previous_query: String,
    pub previous_selection: usize,
    pub master: TextInput,
    pub confirmation: TextInput,
    pub auth_focus: usize,
    pub editor: Option<Editor>,
    pub template_index: usize,
    pub theme_index: usize,
    pub status: String,
    pub is_error: bool,
    pub should_quit: bool,
    pub clear_terminal: bool,
    pub write_blocked: bool,
    pub idle_timeout: u64,
    pub last_activity: u64,
    pub revealed_until: Option<u64>,
    pub pending: Pending,
}

// ---------------------------------------------------------------------------
// Specifications
// ---------------------------------------------------------------------------

/// Milliseconds from `since` to `now`, zero when the clock reads earlier.
pub open spec fn elapsed(now: u64, since: u64) -> int {
    if now > since {
        now - since
    } else {
        0
    }
}

/// Unicode lowercase, as `str::to_lowercase` computes it.
pub uninterp spec fn lowercase(s: Seq<char>) -> Seq<char>;

/// `needle` occurs in `hay` starting at `i`.
pub open spec fn occurs_at(hay: Seq<char>, needle: Seq<char>, i: int) -> bool {
    0 <= i && i + needle.len() <= hay.len() && hay.subrange(i, i + needle.len()) == needle
}

/// `needle` occurs in `hay`.
pub open spec fn contains(hay: Seq<char>, needle: Seq<char>) -> bool {
    exists|i: int| occurs_at(hay, needle, i)
}

/// A record's label matches a search query, ignoring case.
pub open spec fn label_matches(r: Record, query: Seq<char>) -> bool {
    contains(lowercase(r.label@), lowercase(query))
}

/// Indices of the records whose labels match the query, in order.
pub open spec fn filtered(records: Seq<Record>, query: Seq<char>) -> Seq<usize>
    decreases records.len(),
{
    if records.len() == 0 {
        Seq::empty()
    } else {
        let p = filtered(records.drop_last(), query);
        if label_matches(records.last(), query) {
            p.push((records.len() - 1) as usize)
        } else {
            p
        }
    }
}

/// `min(max(v, 0), hi)` for the selection arithmetic.
pub open spec fn clamp_to(v: int, hi: int) -> int {
    if v < 0 {
        0
    } else if v > hi {
        hi
    } else {
        v
    }
}

/// `n - 1`, or zero for zero.
pub open spec fn last_index(n: int) -> int {
    if n > 0 {
        n - 1
    } else {
        0
    }
}

/// The status line after locking.
pub open spec fn lock_message(had_draft: bool, automatic: bool) -> Seq<char> {
    if had_draft {
        "Vault locked. The unsaved editor draft was discarded."@
    } else if automatic {
        "Locked after inactivity. Your saved records are safe."@
    } else {
        "Vault locked. Small vault. Quiet secrets."@
    }
}

/// `after` is `before` with the session, any draft, any waiting operation
/// and every secret-bearing input discarded, on the locked screen; the
/// status line is left to the caller.
pub open spec fn wiped_from(before: App, after: App) -> bool {
    &&& after.session is None
    &&& after.editor is None
    &&& after.pending is Idle
    &&& cleared(after.master)
    &&& cleared(after.confirmation)
    &&& cleared(after.query)
    &&& after.previous_query@.len() == 0
    &&& after.selected == 0
    &&& after.selected_field == 0
    &&& after.detail_scroll == 0
    &&& after.revealed_until is None
    &&& after.auth_focus == 0
    &&& after.mode == Mode::Locked
    &&& after.clear_terminal
    &&& after.pane == before.pane
    &&& after.theme == before.theme
    &&& after.previous_selection == before.previous_selection
    &&& after.template_index == before.template_index
    &&& after.theme_index == before.theme_index
    &&& after.should_quit == before.should_quit
    &&& after.write_blocked == before.write_blocked
    &&& after.idle_timeout == before.idle_timeout
    &&& after.last_activity == before.last_activity
}

/// `after` is `before` locked: no session, draft, secrets or queries remain,
/// and the status line says why.
pub open spec fn locked_from(before: App, after: App, automatic: bool) -> bool {
    &&& wiped_from(before, after)
    &&& after.status@ == lock_message(before.editor is Some, automatic)
    &&& !after.is_error
}

/// An editor whose inputs are consistent, whose record stays within the
/// field limit, and whose selection is a field or the first position.
pub open spec fn editor_ok(e: Editor) -> bool {
    &&& e.wf()
    &&& e.record.fields@.len() <= MAX_FIELDS_PER_RECORD
    &&& (e.field < e.record.fields@.len() || e.field == 0)
}

/// A waiting operation holds a keyed session or valid records.
pub open spec fn pending_ok(p: Pending) -> bool {
    match p {
        Pending::Decode(u) => u.wf(),
        Pending::CreateEncode(s) => s.wf() && s.vault().records@.len() == 0,
        Pending::CreateWrite(s) => s.wf() && s.vault().records@.len() == 0,
        Pending::PersistEncode(v, _) => valid_records(v.records@),
        Pending::PersistWrite(v, _) => valid_records(v.records@),
        _ => true,
    }
}

/// `str::to_lowercase` of std. Claims: the result is the Unicode lowercase
/// mapping named by [`lowercase`], a function of the text alone.
#[verifier::external_body]
fn to_lowercase(s: &str) -> (r: String)
    ensures
        r@ == lowercase(s@),
{
    s.to_lowercase()
}

/// Whether `needle` occurs in `hay`.
fn find(hay: &Vec<char>, needle: &Vec<char>) -> (b: bool)
    ensures
        b == contains(hay@, needle@),
{
    if needle.len() == 0 {
        assert(occurs_at(hay@, needle@, 0)) by {
            assert(hay@.subrange(0, 0) =~= needle@);
        }
        return true;
    }
    if needle.len() > hay.len() {
        proof {
            assert forall|i: int| !occurs_at(hay@, needle@, i) by {}
        }
        return false;
    }
    let total = hay.len();
    let last = hay.len() - needle.len();
    let mut i: usize = 0;
    while i <= last
        invariant
            total == hay@.len(),
            needle@.len() > 0,
            last == hay@.len() - needle@.len(),
            i <= last + 1,
            forall|j: int| 0 <= j < i ==> !occurs_at(hay@, needle@, j),
        decreases last + 1 - i,
    {
        let mut k: usize = 0;
        let mut same = true;
        while k < needle.len()
            invariant
                i <= last,
                total == hay@.len(),
                last == hay@.len() - needle@.len(),
                k <= needle@.len(),
                same == forall|m: int| 0 <= m < k ==> hay@[i + m] == needle@[m],
            decreases needle.len() - k,
        {
            if hay[i + k] != needle[k] {
                same = false;
            }
            k += 1;
        }
        if same {
            assert(hay@.subrange(i as int, i + needle@.len()) =~= needle@);
            assert(occurs_at(hay@, needle@, i as int));
            return true;
        }
        assert(!occurs_at(hay@, needle@, i as int)) by {
            if occurs_at(hay@, needle@, i as int) {
                let m = choose|m: int| 0 <= m < needle@.len() && hay@[i + m] != needle@[m];
                assert(hay@.subrange(i as int, i + needle@.len())[m] == hay@[i + m]);
            }
        }
        i += 1;
    }
    proof {
        assert forall|j: int| !occurs_at(hay@, needle@, j) by {}
    }
    false
}

impl App {
    // -----------------------------------------------------------------------
    // Views
    // -----------------------------------------------------------------------

    /// Records of the unlocked vault, or none when locked.
    pub open spec fn spec_records(&self) -> Seq<Record> {
        match self.session {
            Some(s) => s.vault().records@,
            None => Seq::empty(),
        }
    }

    /// Indices of the records shown under the current query.
    pub open spec fn spec_filtered(&self) -> Seq<usize> {
        filtered(self.spec_records(), self.query.value@)
    }

    /// The record under the selection, if any.
    pub open spec fn spec_current_record(&self) -> Option<Record> {
        if self.selected < self.spec_filtered().len() {
            Some(self.spec_records()[self.spec_filtered()[self.selected as int] as int])
        } else {
            None
        }
    }

    /// The field under the field selection, if any.
    pub open spec fn spec_current_field(&self) -> Option<Field> {
        match self.spec_current_record() {
            Some(r) => if self.selected_field < r.fields@.len() {
                Some(r.fields@[self.selected_field as int])
            } else {
                None
            },
            None => None,
        }
    }

    /// A secret is shown only in the browser, while a secret field is selected.
    pub open spec fn reveal_ok(&self) -> bool {
        self.revealed_until is Some ==> self.mode == Mode::Browse && (self.spec_current_field() matches Some(
            f,
        ) && f.secret)
    }

    /// Internal consistency that every operation keeps.
    pub open spec fn wf(&self) -> bool {
        &&& self.master.wf()
        &&& self.confirmation.wf()
        &&& self.query.wf()
        &&& self.auth_focus <= 1
        &&& self.template_index < 5
        &&& self.theme_index < 4
        &&& self.editor matches Some(e) ==> editor_ok(e)
        &&& self.session matches Some(s) ==> s.wf() && valid_records(s.vault().records@)
        &&& pending_ok(self.pending)
        &&& (self.pending is PersistEncode || self.pending is PersistWrite) ==> self.session is Some
        &&& !(self.pending is Idle) ==> self.mode != Mode::Browse
    }

    /// A new application: the locked screen for an existing vault, the
    /// creation screen otherwise.
    pub fn new(exists: bool, theme: Theme, idle_timeout: u64, now: u64) -> (app: App)
        ensures
            app.wf(),
            (app.session is None),
            (app.editor is None),
            (app.pending is Idle),
            app.mode == (if exists {
                Mode::Locked
            } else {
                Mode::Create
            }),
            app.pane == Pane::Records,
            app.theme == theme,
            app.selected == 0 && app.selected_field == 0 && app.detail_scroll == 0,
            cleared(app.query) && cleared(app.master) && cleared(app.confirmation),
            app.previous_query@.len() == 0 && app.previous_selection == 0,
            app.auth_focus == 0 && app.template_index == 0 && app.theme_index == 0,
            app.status@ == (if exists {
                "Your vault is locked. Welcome back."@
            } else {
                "Create a master password of at least 12 characters. There is no password recovery."@
            }),
            !app.is_error && !app.should_quit && !app.clear_terminal && !app.write_blocked,
            app.idle_timeout == idle_timeout,
            app.last_activity == now,
            (app.revealed_until is None),
    {
        App {
            session: None,
            mode: if exists {
                Mode::Locked
            } else {
                Mode::Create
            },
            pane: Pane::Records,
            theme,
            selected: 0,
            selected_field: 0,
            detail_scroll: 0,
            query: TextInput::default(),
            previous_query: String::new(),
            previous_selection: 0,
            master: TextInput::default(),
            confirmation: TextInput::default(),
            auth_focus: 0,
            editor: None,
            template_index: 0,
            theme_index: 0,
            status: if exists {
                String::from_str("Your vault is locked. Welcome back.")
            } else {
                String::from_str(
                    "Create a master password of at least 12 characters. There is no password recovery.",
                )
            },
            is_error: false,
            should_quit: false,
            clear_terminal: false,
            write_blocked: false,
            idle_timeout,
            last_activity: now,
            revealed_until: None,
            pending: Pending::Idle,
        }
    }

    /// The unlocked records, or none.
    pub fn records(&self) -> (r: &[Record])
        ensures
            r@ == self.spec_records(),
    {
        match &self.session {
            Some(s) => s.data().records.as_slice(),
            None => &[],
        }
    }

    /// Indices of the records whose labels contain the query, ignoring case.
    pub fn filtered_indices(&self) -> (v: Vec<usize>)
        ensures
            v@ == self.spec_filtered(),
    {
        let records = self.records();
        let query = to_lowercase(self.query.value.as_str());
        let needle = crate::text::chars_of(query.as_str());
        let mut out: Vec<usize> = Vec::new();
        let mut i: usize = 0;
        while i < records.len()
            invariant
                records@ == self.spec_records(),
                needle@ == lowercase(self.query.value@),
                i <= records@.len(),
                out@ == filtered(records@.take(i as int), self.query.value@),
            decreases records.len() - i,
        {
            let mut label = to_lowercase(records[i].label.as_str());
            let hay = crate::text::chars_of(label.as_str());
            let hit = find(&hay, &needle);
            wipe_string(&mut label);
            proof {
                assert(records@.take(i + 1).drop_last() =~= records@.take(i as int));
            }
            if hit {
                out.push(i);
            }
            i += 1;
        }
        assert(records@.take(records@.len() as int) =~= records@);
        out
    }

    /// The selected record among the filtered ones.
    pub fn current_record(&self) -> (r: Option<&Record>)
        ensures
            r matches Some(rec) ==> self.spec_current_record() == Some(*rec),
            r is None ==> (self.spec_current_record() is None),
    {
        let indices = self.filtered_indices();
        if self.selected < indices.len() {
            proof {
                lemma_filtered_in_range(self.spec_records(), self.query.value@);
            }
            let records = self.records();
            Some(&records[indices[self.selected]])
        } else {
            None
        }
    }

    /// The selected field of the selected record.
    pub fn current_field(&self) -> (f: Option<&Field>)
        ensures
            f matches Some(fld) ==> self.spec_current_field() == Some(*fld),
            f is None ==> (self.spec_current_field() is None),
    {
        match self.current_record() {
            Some(r) => if self.selected_field < r.fields.len() {
                Some(&r.fields[self.selected_field])
            } else {
                None
            },
            None => None,
        }
    }

    /// A secret is currently revealed.
    pub fn revealed(&self) -> (b: bool)
        ensures
            b == (self.revealed_until is Some),
    {
        self.revealed_until.is_some()
    }

    /// Milliseconds until the inactivity lock.
    pub fn idle_remaining(&self, now: u64) -> (r: u64)
        ensures
            r == (if self.idle_timeout > elapsed(now, self.last_activity) {
                self.idle_timeout - elapsed(now, self.last_activity)
            } else {
                0
            }),
    {
        let since = if now > self.last_activity {
            now - self.last_activity
        } else {
            0
        };
        if self.idle_timeout > since {
            self.idle_timeout - since
        } else {
            0
        }
    }

    /// Sets the status line.
    pub fn message(&mut self, message: &str, error: bool)
        ensures
            final(self).status@ == message@,
            *final(self) == (App { status: final(self).status, is_error: error, ..*old(self) }),
    {
        let mut status = String::from_str(message);
        std::mem::swap(&mut self.status, &mut status);
        wipe_string(&mut status);
        self.is_error = error;
    }

    /// Discards the session, any draft and every secret-bearing input.
    pub fn lock(&mut self, automatic: bool)
        ensures
            locked_from(*old(self), *final(self), automatic),
    {
        let had_draft = self.editor.is_some();
        if let Some(mut session) = self.session.take() {
            session.zeroize();
        }
        if let Some(mut editor) = self.editor.take() {
            editor.zeroize();
        }
        self.discard_pending();
        self.master.clear();
        self.confirmation.clear();
        self.query.clear();
        wipe_string(&mut self.previous_query);
        self.selected = 0;
        self.selected_field = 0;
        self.detail_scroll = 0;
        self.revealed_until = None;
        self.auth_focus = 0;
        self.mode = Mode::Locked;
        self.clear_terminal = true;
        let text = if had_draft {
            "Vault locked. The unsaved editor draft was discarded."
        } else if automatic {
            "Locked after inactivity. Your saved records are safe."
        } else {
            "Vault locked. Small vault. Quiet secrets."
        };
        self.message(text, false);
    }

    /// Drops any waiting operation, wiping what it held.
    fn discard_pending(&mut self)
        ensures
            *final(self) == (App { pending: Pending::Idle, ..*old(self) }),
    {
        let mut pending = Pending::Idle;
        std::mem::swap(&mut self.pending, &mut pending);
        match pending {
            Pending::CreateEncode(mut s) => s.zeroize(),
            Pending::CreateWrite(mut s) => s.zeroize(),
            Pending::PersistEncode(mut v, _) => v.zeroize(),
            Pending::PersistWrite(mut v, _) => v.zeroize(),
            _ => {},
        }
    }

    /// Hides an expired reveal, then locks after the inactivity timeout.
    pub fn tick(&mut self, now: u64)
        requires
            old(self).wf(),
        ensures
            old(self).reveal_ok() ==> final(self).reveal_ok(),
            final(self).wf(),
            ticked(*old(self), *final(self), now),
    {
        if let Some(until) = self.revealed_until {
            if now >= until {
                self.revealed_until = None;
                self.clear_terminal = true;
            }
        }
        let since = if now > self.last_activity {
            now - self.last_activity
        } else {
            0
        };
        if self.session.is_some() && since >= self.idle_timeout {
            self.lock(true);
        }
    }
}

/// What the clock does at `now`: an expired reveal is hidden, then an
/// unlocked vault idle for the whole timeout is locked.
pub open spec fn ticked(b: App, a: App, now: u64) -> bool {
    let m = if b.revealed_until matches Some(u) && now >= u {
        App { revealed_until: None, clear_terminal: true, ..b }
    } else {
        b
    };
    if b.session is Some && elapsed(now, b.last_activity) >= b.idle_timeout {
        locked_from(m, a, true)
    } else {
        a == m
    }
}

/// Every index the filter yields points at a record.
pub proof fn lemma_filtered_in_range(records: Seq<Record>, query: Seq<char>)
    ensures
        forall|k: int|
            0 <= k < filtered(records, query).len() ==> (#[trigger] filtered(records, query)[k])
                < records.len(),
        filtered(records, query).len() <= records.len(),
    decreases records.len(),
{
    if records.len() > 0 {
        lemma_filtered_in_range(records.drop_last(), query);
    }
}


/// The search lists record `j` exactly when its label matches the query.
proof fn lemma_filtered_contains(records: Seq<Record>, query: Seq<char>, j: int)
    requires
        0 <= j < records.len() <= usize::MAX,
    ensures
        filtered(records, query).contains(j as usize) <==> label_matches(records[j], query),
    decreases records.len(),
{
    let n = records.len() - 1;
    let p = filtered(records.drop_last(), query);
    lemma_filtered_in_range(records.drop_last(), query);
    if j < n {
        lemma_filtered_contains(records.drop_last(), query, j);
        assert(records.drop_last()[j] == records[j]);
        if label_matches(records.last(), query) {
            let q = p.push(n as usize);
            if q.contains(j as usize) {
                let k = choose|k: int| 0 <= k < q.len() && q[k] == j as usize;
                if k < p.len() {
                    assert(p[k] == j as usize);
                }
            }
            if p.contains(j as usize) {
                let k = choose|k: int| 0 <= k < p.len() && p[k] == j as usize;
                assert(q[k] == j as usize);
            }
        }
    } else {
        assert(records.last() == records[j]);
        if p.contains(j as usize) {
            let k = choose|k: int| 0 <= k < p.len() && p[k] == j as usize;
            assert(p[k] < records.drop_last().len());
        }
        if label_matches(records.last(), query) {
            let q = p.push(n as usize);
            assert(q[p.len() as int] == j as usize);
        }
    }
}

/// A query found inside a label, ignoring case, lists that record: wherever
/// the lowercased query stands in the lowercased label, at its start, its
/// end, or as the whole label.
pub proof fn lemma_search_finds(
    records: Seq<Record>,
    query: Seq<char>,
    j: int,
    before: Seq<char>,
    after: Seq<char>,
)
    requires
        0 <= j < records.len() <= usize::MAX,
        lowercase(records[j].label@) == before + lowercase(query) + after,
    ensures
        filtered(records, query).contains(j as usize),
{
    let hay = lowercase(records[j].label@);
    let needle = lowercase(query);
    let i = before.len() as int;
    assert(hay.subrange(i, i + needle.len()) =~= needle);
    assert(occurs_at(hay, needle, i));
    lemma_filtered_contains(records, query, j);
}

/// A listed record's lowercased label holds the lowercased query: it is some
/// text, the query, then some text.
pub proof fn lemma_search_listed_holds_query(records: Seq<Record>, query: Seq<char>, j: int)
    requires
        0 <= j < records.len() <= usize::MAX,
        filtered(records, query).contains(j as usize),
    ensures
        exists|before: Seq<char>, after: Seq<char>|
            lowercase(records[j].label@) == before + lowercase(query) + after,
{
    lemma_filtered_contains(records, query, j);
    let hay = lowercase(records[j].label@);
    let needle = lowercase(query);
    let i = choose|i: int| occurs_at(hay, needle, i);
    let before = hay.take(i);
    let after = hay.skip(i + needle.len());
    assert(hay =~= before + needle + after);
}

/// Confirming a deletion writes the records without exactly the one shown at
/// the selected row of the search results: that record matches the query,
/// the records before it stay in place, and those after it move up by one.
pub proof fn lemma_delete_removes_shown(b: App, a: App, effect: Effect)
    requires
        deleted(b, a, effect),
        effect is Encode,
    ensures
        b.selected < b.spec_filtered().len(),
        ({
            let records = b.spec_records();
            let j = b.spec_filtered()[b.selected as int] as int;
            let written = effect->Encode_0.records@;
            &&& 0 <= j < records.len()
            &&& label_matches(records[j], b.query.value@)
            &&& written.len() == records.len() - 1
            &&& forall|i: int| 0 <= i < j ==> #[trigger] same_record(written[i], records[i])
            &&& forall|i: int| j <= i < written.len() ==> #[trigger] same_record(written[i], records[i + 1])
        }),
{
    let records = b.spec_records();
    let shown = b.spec_filtered();
    lemma_filtered_in_range(records, b.query.value@);
    let j = shown[b.selected as int] as int;
    assert(shown.contains(j as usize));
    lemma_filtered_contains(records, b.query.value@, j);
    let written = effect->Encode_0.records@;
    let target = records.remove(j);
    assert forall|i: int| 0 <= i < j implies #[trigger] same_record(written[i], records[i]) by {
        assert(same_record(written[i], target[i]));
    }
    assert forall|i: int| j <= i < written.len() implies #[trigger] same_record(written[i], records[i + 1]) by {
        assert(same_record(written[i], target[i]));
    }
}

// ---------------------------------------------------------------------------
// Saving
// ---------------------------------------------------------------------------

/// Position of the first record with identifier `id`, or -1.
pub open spec fn index_of_id(records: Seq<Record>, id: Seq<char>) -> int
    decreases records.len(),
{
    if records.len() == 0 {
        -1
    } else if records[0].id@ == id {
        0
    } else {
        let r = index_of_id(records.drop_first(), id);
        if r < 0 {
            -1
        } else {
            r + 1
        }
    }
}

proof fn lemma_index_of_id(records: Seq<Record>, id: Seq<char>)
    ensures
        -1 <= index_of_id(records, id) < records.len(),
        index_of_id(records, id) >= 0 ==> records[index_of_id(records, id)].id@ == id,
        forall|j: int|
            0 <= j < records.len() && (index_of_id(records, id) < 0 || j < index_of_id(records, id))
                ==> (#[trigger] records[j]).id@ != id,
    decreases records.len(),
{
    if records.len() > 0 {
        lemma_index_of_id(records.drop_first(), id);
        assert forall|j: int|
            0 <= j < records.len() && (index_of_id(records, id) < 0 || j < index_of_id(records, id))
                implies (#[trigger] records[j]).id@ != id by {
            if j > 0 {
                assert(records[j] == records.drop_first()[j - 1]);
            }
        }
    }
}

/// Position of the first record with the identifier `id`.
fn find_record(records: &[Record], id: &String) -> (r: Option<usize>)
    ensures
        r matches Some(i) ==> i == index_of_id(records@, id@),
        r is None ==> index_of_id(records@, id@) == -1,
{
    proof {
        lemma_index_of_id(records@, id@);
    }
    let mut i: usize = 0;
    while i < records.len()
        invariant
            i <= records@.len(),
            forall|j: int| 0 <= j < i ==> (#[trigger] records@[j]).id@ != id@,
            -1 <= index_of_id(records@, id@) < records@.len(),
            index_of_id(records@, id@) >= 0 ==> records@[index_of_id(records@, id@)].id@ == id@,
            forall|j: int|
                0 <= j < records@.len() && (index_of_id(records@, id@) < 0 || j < index_of_id(
                    records@,
                    id@,
                )) ==> (#[trigger] records@[j]).id@ != id@,
        decreases records.len() - i,
    {
        if records[i].id == *id {
            return Some(i);
        }
        i += 1;
    }
    None
}

/// Records after saving the draft `rec`: it replaces the first record with
/// its identifier when `existing`, and is appended otherwise. `None` when
/// an existing record is no longer there.
pub open spec fn saved_records(records: Seq<Record>, rec: Record, existing: bool) -> Option<
    Seq<Record>,
> {
    if existing {
        let i = index_of_id(records, rec.id@);
        if i < 0 {
            None
        } else {
            Some(records.update(i, rec))
        }
    } else {
        Some(records.push(rec))
    }
}

/// The status line after a failed save.
pub open spec fn save_failure(e: SaveError) -> Seq<char> {
    crate::storage::save_error_text(e.message@, e.committed)
}

impl App {
    /// Moves to the browser after unlocking or creating.
    fn unlocked(&mut self, message: &str, now: u64)
        ensures
            *final(self) == (App {
                mode: Mode::Browse,
                last_activity: now,
                clear_terminal: true,
                status: final(self).status,
                is_error: false,
                ..*old(self)
            }),
            final(self).status@ == message@,
    {
        self.mode = Mode::Browse;
        self.last_activity = now;
        self.clear_terminal = true;
        self.message(message, false);
    }

    /// Inserts pasted text into the input of the current mode.
    fn paste(&mut self, text: String)
        requires
            old(self).wf(),
        ensures
            old(self).reveal_ok() ==> final(self).reveal_ok(),
            final(self).wf(),
            pasted(*old(self), *final(self), text@),
            final(self).write_blocked == old(self).write_blocked,
    {
        let ghost pasted_text = text@;
        let mut text = text;
        let accepted = match self.mode {
            Mode::Create | Mode::Locked => {
                if self.auth_focus == 0 {
                    self.master.insert(text.as_str(), false, PASSWORD_LIMIT)
                } else {
                    self.confirmation.insert(text.as_str(), false, PASSWORD_LIMIT)
                }
            },
            Mode::Search => {
                self.selected = 0;
                self.query.insert(text.as_str(), false, LABEL_LIMIT)
            },
            Mode::Edit => match &mut self.editor {
                Some(editor) => editor.paste(text.as_str()),
                None => false,
            },
            _ => false,
        };
        wipe_string(&mut text);
        if !accepted {
            self.message(
                "Paste rejected: select a text input, respect its size limit, and omit control characters.",
                true,
            );
        }
        proof {
            if old(self).mode == Mode::Edit && old(self).editor is Some {
                assert(editor_pasted(*old(self), *self, pasted_text, accepted));
            }
        }
    }
}

/// The status line after a refused paste.
pub open spec fn paste_rejected() -> Seq<char> {
    "Paste rejected: select a text input, respect its size limit, and omit control characters."@
}

/// `after` is `before` with `text` inserted at the cursor.
pub open spec fn inserted(before: TextInput, after: TextInput, text: Seq<char>) -> bool {
    &&& after.wf()
    &&& after.value@ == insert_at(before.value@, before.position(), text)
    &&& after.position() == before.position() + text.len()
}

/// `a` is `b` with the status line reporting a refused paste.
pub open spec fn paste_refused(b: App, a: App) -> bool {
    &&& a.status@ == paste_rejected()
    &&& a == (App { status: a.status, is_error: true, ..b })
}

/// What pasting `text` does: the focused input of the current mode takes it
/// when it fits its limit and holds no control character; otherwise the
/// status line reports the refusal. The search prompt also resets the selection.
pub open spec fn pasted(b: App, a: App, text: Seq<char>) -> bool {
    if b.mode == Mode::Create || b.mode == Mode::Locked {
        if b.auth_focus == 0 {
            if insert_allowed(b.master.value@, text, false, PASSWORD_LIMIT) {
                inserted(b.master, a.master, text) && a == (App { master: a.master, ..b })
            } else {
                paste_refused(b, a)
            }
        } else {
            if insert_allowed(b.confirmation.value@, text, false, PASSWORD_LIMIT) {
                inserted(b.confirmation, a.confirmation, text) && a == (App {
                    confirmation: a.confirmation,
                    ..b
                })
            } else {
                paste_refused(b, a)
            }
        }
    } else if b.mode == Mode::Search {
        if insert_allowed(b.query.value@, text, false, LABEL_LIMIT) {
            inserted(b.query, a.query, text) && a == (App { query: a.query, selected: 0, ..b })
        } else {
            paste_refused(App { selected: 0, ..b }, a)
        }
    } else if b.mode == Mode::Edit && b.editor is Some {
        exists|accepted: bool|
            #![trigger editor_pasted(b, a, text, accepted)]
            editor_pasted(b, a, text, accepted)
    } else {
        paste_refused(b, a)
    }
}

/// The editor took (or refused) the pasted text as [`Editor::paste`] says.
pub open spec fn editor_pasted(b: App, a: App, text: Seq<char>, accepted: bool) -> bool {
    &&& b.editor matches Some(e) && a.editor matches Some(f) && crate::editor::paste_post(
        e,
        f,
        text,
        accepted,
    )
    &&& accepted ==> a == (App { editor: a.editor, ..b })
    &&& !accepted ==> paste_refused(App { editor: a.editor, ..b }, a)
}

// ---------------------------------------------------------------------------
// Selection
// ---------------------------------------------------------------------------

/// The smaller of two integers.
pub open spec fn min_int(a: int, b: int) -> int {
    if a < b {
        a
    } else {
        b
    }
}

/// The number of fields of the record at filtered position `sel`, or zero.
pub open spec fn fields_at(records: Seq<Record>, shown: Seq<usize>, sel: int) -> int {
    if 0 <= sel < shown.len() {
        records[shown[sel] as int].fields@.len() as int
    } else {
        0
    }
}

/// `a` is `b` with both selections clamped: the record selection to the
/// filtered records, then the field selection to the selected record's fields.
pub open spec fn selection_clamped(b: App, a: App) -> bool {
    let shown = b.spec_filtered();
    let sel = min_int(b.selected as int, last_index(shown.len() as int));
    &&& a.selected == sel
    &&& a.selected_field == min_int(
        b.selected_field as int,
        last_index(fields_at(b.spec_records(), shown, sel)),
    )
    &&& a == (App { selected: a.selected, selected_field: a.selected_field, ..b })
}

/// What moving the selection by `direction` does: in the record pane it
/// moves among the filtered records and resets the field selection; in the
/// field pane it moves among the selected record's fields. Either way the
/// detail scroll resets and any revealed secret is hidden.
pub open spec fn navigated(b: App, a: App, direction: int) -> bool {
    match b.pane {
        Pane::Records => a == (App {
            selected: clamp_to(b.selected + direction, last_index(b.spec_filtered().len() as int))
                as usize,
            selected_field: 0,
            detail_scroll: 0,
            revealed_until: None,
            ..b
        }),
        Pane::Fields => a == (App {
            selected_field: clamp_to(
                b.selected_field + direction,
                last_index(fields_at(b.spec_records(), b.spec_filtered(), b.selected as int)),
            ) as usize,
            detail_scroll: 0,
            revealed_until: None,
            ..b
        }),
    }
}

/// Down (`j`) and up (`k`) in the browser move the focused selection by one
/// row and stop at the ends: in the field pane among the selected record's
/// fields, in the record pane among the records shown. Down never moves the
/// selection up, and up never moves it down.
pub proof fn lemma_browse_steps(b: App, a: App, key: KeyEvent, now: u64)
    requires
        browsed(b, a, key, now),
    ensures
        b.pane == Pane::Fields && (b.spec_current_record() matches Some(r) && b.selected_field
            < r.fields@.len() <= usize::MAX) ==> {
            let n = b.spec_current_record()->Some_0.fields@.len() as int;
            let f = b.selected_field as int;
            &&& (key.code == KeyCode::Char('j') || key.code == KeyCode::Down) ==> {
                &&& a.selected_field == (if f + 1 < n { f + 1 } else { n - 1 })
                &&& a.selected_field >= b.selected_field
                &&& a.selected == b.selected
            }
            &&& (key.code == KeyCode::Char('k') || key.code == KeyCode::Up) ==> {
                &&& a.selected_field == (if f > 0 { f - 1 } else { 0 })
                &&& a.selected_field <= b.selected_field
                &&& a.selected == b.selected
            }
        },
        b.pane == Pane::Records && b.selected < b.spec_filtered().len() <= usize::MAX ==> {
            let n = b.spec_filtered().len() as int;
            let s = b.selected as int;
            &&& (key.code == KeyCode::Char('j') || key.code == KeyCode::Down) ==> {
                &&& a.selected == (if s + 1 < n { s + 1 } else { n - 1 })
                &&& a.selected >= b.selected
                &&& a.selected_field == 0
            }
            &&& (key.code == KeyCode::Char('k') || key.code == KeyCode::Up) ==> {
                &&& a.selected == (if s > 0 { s - 1 } else { 0 })
                &&& a.selected <= b.selected
                &&& a.selected_field == 0
            }
        },
{
    let code = key.code;
    let down = code == KeyCode::Char('j') || code == KeyCode::Down;
    let up = code == KeyCode::Char('k') || code == KeyCode::Up;
    if down || up {
        let d: int = if down { 1 } else { -1 };
        assert(code != KeyCode::PageDown && code != KeyCode::PageUp && code != KeyCode::Home);
        assert(navigated(b, a, d));
        if b.pane == Pane::Fields && b.spec_current_record() is Some {
            let n = fields_at(b.spec_records(), b.spec_filtered(), b.selected as int);
            assert(n == b.spec_current_record()->Some_0.fields@.len());
            assert(a.selected_field == clamp_to(b.selected_field + d, last_index(n)) as usize);
        }
        if b.pane == Pane::Records {
            assert(a.selected == clamp_to(
                b.selected + d,
                last_index(b.spec_filtered().len() as int),
            ) as usize);
        }
    }
}

/// `v + direction` clamped to `0..=hi`, for a step of one either way.
fn step_clamped(v: usize, direction: isize, hi: usize) -> (r: usize)
    requires
        direction == 1 || direction == -1,
    ensures
        r == clamp_to(v + direction, hi as int),
{
    if direction < 0 {
        if v == 0 {
            0
        } else if v - 1 > hi {
            hi
        } else {
            v - 1
        }
    } else if v >= hi {
        hi
    } else {
        v + 1
    }
}

impl App {
    /// Clamps the record selection to the filtered records and the field
    /// selection to the selected record's fields.
    fn clamp_selection(&mut self)
        ensures
            selection_clamped(*old(self), *final(self)),
    {
        let count = self.filtered_indices().len();
        let last = if count > 0 {
            count - 1
        } else {
            0
        };
        if self.selected > last {
            self.selected = last;
        }
        let n = match self.current_record() {
            Some(r) => r.fields.len(),
            None => 0,
        };
        let last_field = if n > 0 {
            n - 1
        } else {
            0
        };
        if self.selected_field > last_field {
            self.selected_field = last_field;
        }
    }

    /// Moves the selection of the focused pane one step (`direction` is 1 or -1).
    fn navigate(&mut self, direction: isize)
        requires
            direction == 1 || direction == -1,
        ensures
            navigated(*old(self), *final(self), direction as int),
    {
        self.revealed_until = None;
        self.detail_scroll = 0;
        match self.pane {
            Pane::Records => {
                let count = self.filtered_indices().len();
                let last = if count > 0 {
                    count - 1
                } else {
                    0
                };
                self.selected = step_clamped(self.selected, direction, last);
                self.selected_field = 0;
            },
            Pane::Fields => {
                let count = match self.current_record() {
                    Some(r) => r.fields.len(),
                    None => 0,
                };
                let last = if count > 0 {
                    count - 1
                } else {
                    0
                };
                self.selected_field = step_clamped(self.selected_field, direction, last);
            },
        }
    }
}

// ---------------------------------------------------------------------------
// The browser
// ---------------------------------------------------------------------------

/// How long a revealed secret stays visible, in milliseconds.
pub const REVEAL_MS: u64 = 10000;

/// When a secret revealed at `now` hides again.
pub open spec fn reveal_deadline(now: u64) -> u64 {
    if now + REVEAL_MS > u64::MAX {
        u64::MAX
    } else {
        (now + REVEAL_MS) as u64
    }
}

/// An emptied, consistent input.
pub open spec fn cleared(t: TextInput) -> bool {
    t.value@.len() == 0 && t.cursor == 0 && t.wf()
}

/// The editor [`Editor::new`] opens: the label input holds the record's
/// label, the first field is loaded and the label is focused.
pub open spec fn editor_opened(e: Editor, existing: bool) -> bool {
    &&& e.label.value@ == e.record.label@
    &&& e.label.wf()
    &&& e.label.position() == e.record.label@.len()
    &&& e.field == 0
    &&& e.focus == EditorControl::Label
    &&& e.existing == existing
    &&& loaded(e.record, e.field, e.name, e.value)
}

/// The status line while editing.
pub open spec fn editing_message() -> Seq<char> {
    "Ctrl-S saves. Esc cancels. Unsaved drafts are discarded on lock."@
}

/// `a` is `b` locked by the user and told to quit.
pub open spec fn quit_from(b: App, a: App) -> bool {
    locked_from(b, App { should_quit: b.should_quit, ..a }, false) && a.should_quit
}

/// What a key does in the browser.
pub open spec fn browsed(b: App, a: App, key: KeyEvent, now: u64) -> bool {
    let code = key.code;
    if code == KeyCode::PageDown {
        a == (App { detail_scroll: min_int(b.detail_scroll + 5, 65535) as usize, ..b })
    } else if code == KeyCode::PageUp {
        a == (App {
            detail_scroll: if b.detail_scroll >= 5 {
                (b.detail_scroll - 5) as usize
            } else {
                0
            },
            ..b
        })
    } else if code == KeyCode::Home {
        a == (App { detail_scroll: 0, ..b })
    } else if code == KeyCode::Char('j') || code == KeyCode::Down {
        navigated(b, a, 1)
    } else if code == KeyCode::Char('k') || code == KeyCode::Up {
        navigated(b, a, -1)
    } else if code == KeyCode::Char('h') || code == KeyCode::Left {
        a == (App { pane: Pane::Records, revealed_until: None, ..b })
    } else if code == KeyCode::Char('l') || code == KeyCode::Right || code == KeyCode::Enter {
        a == (App { pane: Pane::Fields, revealed_until: None, ..b })
    } else if code == KeyCode::Tab || code == KeyCode::BackTab {
        a == (App {
            pane: if b.pane == Pane::Records {
                Pane::Fields
            } else {
                Pane::Records
            },
            revealed_until: None,
            ..b
        })
    } else if code == KeyCode::Char('/') {
        &&& a.previous_query@ == b.query.value@
        &&& a == (App {
            previous_query: a.previous_query,
            previous_selection: b.selected,
            revealed_until: None,
            mode: Mode::Search,
            ..b
        })
    } else if code == KeyCode::Esc {
        &&& cleared(a.query)
        &&& a == (App {
            query: a.query,
            selected: 0,
            selected_field: 0,
            revealed_until: None,
            ..b
        })
    } else if code == KeyCode::Char('a') {
        a == (App { mode: Mode::Templates, template_index: 0, revealed_until: None, ..b })
    } else if code == KeyCode::Char('e') {
        match b.spec_current_record() {
            Some(r) => {
                &&& a.editor matches Some(e) && editor_opened(e, true) && same_record(e.record, r)
                &&& a.status@ == editing_message()
                &&& a == (App {
                    editor: a.editor,
                    mode: Mode::Edit,
                    revealed_until: None,
                    status: a.status,
                    is_error: false,
                    ..b
                })
            },
            None => a == b,
        }
    } else if code == KeyCode::Char('d') && b.spec_current_record() is Some {
        a == (App { mode: Mode::Delete, revealed_until: None, ..b })
    } else if code == KeyCode::Char('r') && (b.spec_current_field() matches Some(f) && f.secret) {
        a == (App {
            revealed_until: if b.revealed_until is Some {
                None
            } else {
                Some(reveal_deadline(now))
            },
            ..b
        })
    } else if code == KeyCode::Char('L') {
        locked_from(b, a, false)
    } else if code == KeyCode::Char('?') {
        a == (App { mode: Mode::Help, revealed_until: None, ..b })
    } else if code == KeyCode::Char('t') {
        a == (App {
            mode: Mode::Themes,
            revealed_until: None,
            theme_index: theme_index(b.theme) as usize,
            ..b
        })
    } else if code == KeyCode::Char('q') {
        quit_from(b, a)
    } else {
        a == b
    }
}

impl App {
    /// The selected record holds at most the field limit.
    proof fn lemma_current_record_fields(&self)
        requires
            self.wf(),
        ensures
            self.spec_current_record() matches Some(r) ==> r.fields@.len()
                <= MAX_FIELDS_PER_RECORD,
    {
        lemma_filtered_in_range(self.spec_records(), self.query.value@);
        if self.selected < self.spec_filtered().len() {
            crate::model::lemma_valid_record_fields(
                self.spec_records(),
                self.spec_filtered()[self.selected as int] as int,
            );
        }
    }

    /// Replaces the editor, wiping the one it replaces.
    fn install_editor(&mut self, editor: Option<Editor>)
        ensures
            *final(self) == (App { editor: editor, ..*old(self) }),
    {
        let mut previous = editor;
        std::mem::swap(&mut self.editor, &mut previous);
        if let Some(mut e) = previous {
            e.zeroize();
        }
    }

    /// Handles a key in the browser.
    fn browse_key(&mut self, key: KeyEvent, now: u64)
        requires
            old(self).pending is Idle,
            old(self).mode == Mode::Browse,
            old(self).wf(),
        ensures
            old(self).reveal_ok() ==> final(self).reveal_ok(),
            final(self).wf(),
            browsed(*old(self), *final(self), key, now),
            final(self).write_blocked == old(self).write_blocked,
    {
        let code = key.code;
        if code == KeyCode::PageDown {
            self.detail_scroll = if self.detail_scroll > 65530 {
                65535
            } else {
                self.detail_scroll + 5
            };
        } else if code == KeyCode::PageUp {
            self.detail_scroll = if self.detail_scroll >= 5 {
                self.detail_scroll - 5
            } else {
                0
            };
        } else if code == KeyCode::Home {
            self.detail_scroll = 0;
        } else if code == KeyCode::Char('j') || code == KeyCode::Down {
            self.navigate(1);
        } else if code == KeyCode::Char('k') || code == KeyCode::Up {
            self.navigate(-1);
        } else if code == KeyCode::Char('h') || code == KeyCode::Left {
            self.pane = Pane::Records;
            self.revealed_until = None;
        } else if code == KeyCode::Char('l') || code == KeyCode::Right || code == KeyCode::Enter {
            self.pane = Pane::Fields;
            self.revealed_until = None;
        } else if code == KeyCode::Tab || code == KeyCode::BackTab {
            self.pane = if self.pane == Pane::Records {
                Pane::Fields
            } else {
                Pane::Records
            };
            self.revealed_until = None;
        } else if code == KeyCode::Char('/') {
            let mut previous = self.query.value.clone();
            std::mem::swap(&mut self.previous_query, &mut previous);
            wipe_string(&mut previous);
            self.previous_selection = self.selected;
            self.revealed_until = None;
            self.mode = Mode::Search;
        } else if code == KeyCode::Esc {
            self.query.clear();
            self.selected = 0;
            self.selected_field = 0;
            self.revealed_until = None;
        } else if code == KeyCode::Char('a') {
            self.mode = Mode::Templates;
            self.template_index = 0;
            self.revealed_until = None;
        } else if code == KeyCode::Char('e') {
            proof {
                self.lemma_current_record_fields();
            }
            let opened = match self.current_record() {
                Some(r) => Some(Editor::new(r.duplicate(), true)),
                None => None,
            };
            if opened.is_some() {
                self.install_editor(opened);
                self.mode = Mode::Edit;
                self.revealed_until = None;
                self.message("Ctrl-S saves. Esc cancels. Unsaved drafts are discarded on lock.", false);
            }
        } else if code == KeyCode::Char('d') && self.current_record().is_some() {
            self.mode = Mode::Delete;
            self.revealed_until = None;
        } else if code == KeyCode::Char('r') && match self.current_field() {
            Some(f) => f.secret,
            None => false,
        } {
            self.revealed_until = if self.revealed_until.is_some() {
                None
            } else {
                Some(now.saturating_add(REVEAL_MS))
            };
        } else if code == KeyCode::Char('L') {
            self.lock(false);
        } else if code == KeyCode::Char('?') {
            self.mode = Mode::Help;
            self.revealed_until = None;
        } else if code == KeyCode::Char('t') {
            self.mode = Mode::Themes;
            self.revealed_until = None;
            self.theme_index = self.theme.index();
        } else if code == KeyCode::Char('q') {
            self.lock(false);
            self.should_quit = true;
        }
    }
}

// ---------------------------------------------------------------------------
// Prompts and pickers
// ---------------------------------------------------------------------------

/// The status line after the search filter is applied.
pub open spec fn filter_message() -> Seq<char> {
    "Filter applied. Press / to change it, or Esc to clear it."@
}

/// The status line after the theme changes.
pub open spec fn theme_message() -> Seq<char> {
    "Theme changed for this session. Use --theme to choose a launch theme."@
}

/// What a key does in the search prompt: Esc restores the query and
/// selection from before the search, Enter keeps the filter, and any other
/// key edits the query and resets the selection.
pub open spec fn searched(b: App, a: App, key: KeyEvent) -> bool {
    if key.code == KeyCode::Esc {
        &&& a.query.value@ == b.previous_query@
        &&& a.query.wf()
        &&& a.query.position() == b.previous_query@.len()
        &&& a.previous_query@.len() == 0
        &&& selection_clamped(
            App {
                query: a.query,
                previous_query: a.previous_query,
                selected: b.previous_selection,
                mode: Mode::Browse,
                ..b
            },
            a,
        )
    } else if key.code == KeyCode::Enter {
        &&& a.previous_query@.len() == 0
        &&& a.status@ == filter_message()
        &&& a == (App {
            previous_query: a.previous_query,
            mode: Mode::Browse,
            status: a.status,
            is_error: false,
            ..b
        })
    } else {
        let (s, k, h) = key_outcome(b.query.value@, b.query.position(), key, false, LABEL_LIMIT);
        &&& a.query.wf()
        &&& a.query.value@ == s
        &&& a.query.position() == k
        &&& a == (App { query: a.query, selected: 0, selected_field: 0, detail_scroll: 0, ..b })
    }
}

/// What a key does in the template picker.
pub open spec fn picked_template(b: App, a: App, key: KeyEvent) -> bool {
    let code = key.code;
    if code == KeyCode::Esc {
        a == (App { mode: Mode::Browse, ..b })
    } else if code == KeyCode::Char('j') || code == KeyCode::Down {
        a == (App { template_index: ((b.template_index + 1) % 5) as usize, ..b })
    } else if code == KeyCode::Char('k') || code == KeyCode::Up {
        a == (App { template_index: ((b.template_index + 4) % 5) as usize, ..b })
    } else if code == KeyCode::Enter {
        let t = template_at(b.template_index as int);
        ||| {
            &&& a.editor matches Some(e) && editor_opened(e, false) && e.record.label@
                == template_record_label(t) && valid_id(e.record.id@) && template_fields_match(
                t,
                e.record.fields@,
            )
            &&& a.status@ == editing_message()
            &&& a == (App {
                editor: a.editor,
                mode: Mode::Edit,
                status: a.status,
                is_error: false,
                ..b
            })
        }
        ||| {
            &&& a.status@ == message_of(VaultError::RandomnessUnavailable)
            &&& a == (App { status: a.status, is_error: true, ..b })
        }
    } else if code == KeyCode::Char('L') {
        locked_from(b, a, false)
    } else {
        a == b
    }
}

/// What a key does in the help screen.
pub open spec fn helped(b: App, a: App, key: KeyEvent) -> bool {
    let code = key.code;
    if code == KeyCode::Char('L') {
        locked_from(b, a, false)
    } else if code == KeyCode::Esc || code == KeyCode::Char('?') || code == KeyCode::Enter || code
        == KeyCode::Char('q') {
        a == (App { mode: Mode::Browse, ..b })
    } else {
        a == b
    }
}

/// What a key does in the theme picker.
pub open spec fn picked_theme(b: App, a: App, key: KeyEvent) -> bool {
    let code = key.code;
    if code == KeyCode::Esc {
        a == (App { mode: Mode::Browse, ..b })
    } else if code == KeyCode::Char('j') || code == KeyCode::Down {
        a == (App { theme_index: ((b.theme_index + 1) % 4) as usize, ..b })
    } else if code == KeyCode::Char('k') || code == KeyCode::Up {
        a == (App { theme_index: ((b.theme_index + 3) % 4) as usize, ..b })
    } else if code == KeyCode::Enter {
        &&& a.status@ == theme_message()
        &&& a == (App {
            theme: theme_at(b.theme_index as int),
            mode: Mode::Browse,
            status: a.status,
            is_error: false,
            ..b
        })
    } else if code == KeyCode::Char('L') {
        locked_from(b, a, false)
    } else {
        a == b
    }
}

impl App {
    /// Handles a key in the search prompt.
    fn search_key(&mut self, key: KeyEvent)
        requires
            old(self).pending is Idle,
            old(self).mode == Mode::Search,
            old(self).wf(),
        ensures
            old(self).reveal_ok() ==> final(self).reveal_ok(),
            final(self).wf(),
            searched(*old(self), *final(self), key),
            final(self).write_blocked == old(self).write_blocked,
    {
        if key.code == KeyCode::Esc {
            let mut replaced = TextInput::new(self.previous_query.as_str());
            std::mem::swap(&mut self.query, &mut replaced);
            wipe_string(&mut replaced.value);
            self.selected = self.previous_selection;
            wipe_string(&mut self.previous_query);
            self.mode = Mode::Browse;
            self.clamp_selection();
        } else if key.code == KeyCode::Enter {
            wipe_string(&mut self.previous_query);
            self.mode = Mode::Browse;
            self.message("Filter applied. Press / to change it, or Esc to clear it.", false);
        } else {
            self.query.key(key, false, LABEL_LIMIT);
            self.selected = 0;
            self.selected_field = 0;
            self.detail_scroll = 0;
        }
    }

    /// Handles a key in the template picker.
    fn templates_key(&mut self, key: KeyEvent)
        requires
            old(self).pending is Idle,
            old(self).mode == Mode::Templates,
            old(self).wf(),
        ensures
            old(self).reveal_ok() ==> final(self).reveal_ok(),
            final(self).wf(),
            picked_template(*old(self), *final(self), key),
            final(self).write_blocked == old(self).write_blocked,
    {
        let code = key.code;
        if code == KeyCode::Esc {
            self.mode = Mode::Browse;
        } else if code == KeyCode::Char('j') || code == KeyCode::Down {
            self.template_index = (self.template_index + 1) % 5;
        } else if code == KeyCode::Char('k') || code == KeyCode::Up {
            self.template_index = (self.template_index + 4) % 5;
        } else if code == KeyCode::Enter {
            let template = Template::at(self.template_index);
            match template.make_record() {
                Ok(record) => {
                    self.install_editor(Some(Editor::new(record, false)));
                    self.mode = Mode::Edit;
                    self.message(
                        "Ctrl-S saves. Esc cancels. Unsaved drafts are discarded on lock.",
                        false,
                    );
                },
                Err(error) => self.message(error.message(), true),
            }
        } else if code == KeyCode::Char('L') {
            self.lock(false);
        }
    }

    /// Handles a key in the help screen.
    fn help_key(&mut self, key: KeyEvent)
        requires
            old(self).pending is Idle,
            old(self).mode == Mode::Help,
            old(self).wf(),
        ensures
            old(self).reveal_ok() ==> final(self).reveal_ok(),
            final(self).wf(),
            helped(*old(self), *final(self), key),
            final(self).write_blocked == old(self).write_blocked,
    {
        let code = key.code;
        if code == KeyCode::Char('L') {
            self.lock(false);
        } else if code == KeyCode::Esc || code == KeyCode::Char('?') || code == KeyCode::Enter
            || code == KeyCode::Char('q') {
            self.mode = Mode::Browse;
        }
    }

    /// Handles a key in the theme picker.
    fn themes_key(&mut self, key: KeyEvent)
        requires
            old(self).pending is Idle,
            old(self).mode == Mode::Themes,
            old(self).wf(),
        ensures
            old(self).reveal_ok() ==> final(self).reveal_ok(),
            final(self).wf(),
            picked_theme(*old(self), *final(self), key),
            final(self).write_blocked == old(self).write_blocked,
    {
        let code = key.code;
        if code == KeyCode::Esc {
            self.mode = Mode::Browse;
        } else if code == KeyCode::Char('j') || code == KeyCode::Down {
            self.theme_index = (self.theme_index + 1) % 4;
        } else if code == KeyCode::Char('k') || code == KeyCode::Up {
            self.theme_index = (self.theme_index + 3) % 4;
        } else if code == KeyCode::Enter {
            self.theme = Theme::at(self.theme_index);
            self.mode = Mode::Browse;
            self.message(
                "Theme changed for this session. Use --theme to choose a launch theme.",
                false,
            );
        } else if code == KeyCode::Char('L') {
            self.lock(false);
        }
    }
}

// ---------------------------------------------------------------------------
// Writing the vault
// ---------------------------------------------------------------------------

/// The status line when a write is refused after an uncertain one.
pub open spec fn reopen_message() -> Seq<char> {
    "Reopen the vault before attempting another write."@
}

/// The status line when the edited record has disappeared.
pub open spec fn missing_message() -> Seq<char> {
    "The edited record is no longer available."@
}

/// `after` records what a write is for: saving the record with identifier
/// `saved`, or (for `None`) a deletion.
pub open spec fn after_matches(after: After, saved: Option<Seq<char>>) -> bool {
    match after {
        After::SavedRecord(id) => saved == Some(id@),
        After::Deleted => saved is None,
    }
}

/// What asking to write `records` does: refused after an uncertain write,
/// ignored while locked, refused with the first validation problem, and
/// otherwise the records go out to be encoded while the write waits.
pub open spec fn persisted(
    b: App,
    a: App,
    records: Seq<Record>,
    saved: Option<Seq<char>>,
    effect: Effect,
) -> bool {
    if b.write_blocked {
        &&& a.status@ == reopen_message()
        &&& a == (App { status: a.status, is_error: true, ..b })
        &&& effect is Nothing
    } else if b.session is None {
        a == b && effect is Nothing
    } else {
        match validation_result(records) {
            Err(e) => {
                &&& a.status@ == message_of(e)
                &&& a == (App { status: a.status, is_error: true, ..b })
                &&& effect is Nothing
            },
            Ok(_) => {
                &&& effect matches Effect::Encode(v) && same_records(v.records@, records)
                &&& a.pending matches Pending::PersistEncode(w, after) && same_records(
                    w.records@,
                    records,
                ) && after_matches(after, saved)
                &&& a == (App { pending: a.pending, ..b })
            },
        }
    }
}

/// What deleting the selected record does: nothing to delete returns to the
/// browser; otherwise the records without it are written.
pub open spec fn deleted(b: App, a: App, effect: Effect) -> bool {
    let shown = b.spec_filtered();
    if b.selected >= shown.len() {
        a == (App { mode: Mode::Browse, ..b }) && effect is Nothing
    } else {
        persisted(b, a, b.spec_records().remove(shown[b.selected as int] as int), None, effect)
    }
}

/// What a key does in the delete confirmation.
pub open spec fn delete_answered(b: App, a: App, key: KeyEvent, effect: Effect) -> bool {
    let code = key.code;
    if code == KeyCode::Char('y') {
        deleted(b, a, effect)
    } else if code == KeyCode::Char('n') || code == KeyCode::Esc {
        a == (App { mode: Mode::Browse, ..b }) && effect is Nothing
    } else if code == KeyCode::Char('L') {
        locked_from(b, a, false) && effect is Nothing
    } else {
        a == b && effect is Nothing
    }
}

/// What saving the editor does: the draft is synced from its inputs, then
/// written in place of the record with its identifier (or appended, for a
/// new record). A draft whose record has disappeared is refused.
pub open spec fn save_requested(b: App, a: App, effect: Effect) -> bool {
    match b.editor {
        None => a == b && effect is Nothing,
        Some(e) => match a.editor {
            None => false,
            Some(f) => {
                let mid = App { editor: a.editor, ..b };
                &&& synced(e, f.record)
                &&& f == (Editor { record: f.record, ..e })
                &&& if b.session is None {
                    a == mid && effect is Nothing
                } else {
                    match saved_records(b.spec_records(), f.record, e.existing) {
                        None => {
                            &&& a.status@ == missing_message()
                            &&& a == (App { status: a.status, is_error: true, ..mid })
                            &&& effect is Nothing
                        },
                        Some(rs) => persisted(mid, a, rs, Some(f.record.id@), effect),
                    }
                }
            },
        },
    }
}

/// Lists holding the same records find an identifier at the same place.
proof fn lemma_same_records_index(a: Seq<Record>, b: Seq<Record>, id: Seq<char>)
    requires
        same_records(a, b),
    ensures
        index_of_id(a, id) == index_of_id(b, id),
    decreases a.len(),
{
    if a.len() > 0 {
        assert(same_record(a[0], b[0]));
        assert forall|i: int| 0 <= i < a.drop_first().len() implies #[trigger] same_record(
            a.drop_first()[i],
            b.drop_first()[i],
        ) by {
            assert(same_record(a[i + 1], b[i + 1]));
        }
        lemma_same_records_index(a.drop_first(), b.drop_first(), id);
    }
}

/// What holds of `persisted` for one list holds for any list with the same records.
proof fn lemma_persisted_same(
    b: App,
    a: App,
    x: Seq<Record>,
    y: Seq<Record>,
    saved: Option<Seq<char>>,
    effect: Effect,
)
    requires
        same_records(x, y),
        persisted(b, a, x, saved, effect),
    ensures
        persisted(b, a, y, saved, effect),
{
    crate::model::lemma_same_records_validation(x, y);
    let writes = !b.write_blocked && b.session is Some && validation_result(x) is Ok;
    if let Effect::Encode(v) = effect {
        assert forall|i: int| writes && 0 <= i < v.records@.len() implies #[trigger] same_record(
            v.records@[i],
            y[i],
        ) by {
            assert(same_record(v.records@[i], x[i]));
            assert(same_record(x[i], y[i]));
        }
    }
    if let Pending::PersistEncode(w, _) = a.pending {
        assert forall|i: int| writes && 0 <= i < w.records@.len() implies #[trigger] same_record(
            w.records@[i],
            y[i],
        ) by {
            assert(same_record(w.records@[i], x[i]));
            assert(same_record(x[i], y[i]));
        }
    }
}

impl App {
    /// Asks for `data` to be encoded and written, when writing is allowed
    /// and the data validates.
    fn persist(&mut self, data: Vault, after: After) -> (effect: Effect)
        requires
            old(self).mode != Mode::Browse,
            old(self).wf(),
            old(self).pending is Idle,
        ensures
            (effect is Nothing) == (final(self).pending is Idle),
            final(self).wf(),
            persisted(*old(self), *final(self), data.records@, after_target(after), effect),
            old(self).write_blocked ==> effect is Nothing,
            final(self).write_blocked == old(self).write_blocked,
    {
        let mut data = data;
        if self.write_blocked {
            data.zeroize();
            self.message("Reopen the vault before attempting another write.", true);
            return Effect::Nothing;
        }
        if self.session.is_none() {
            data.zeroize();
            return Effect::Nothing;
        }
        match data.validate() {
            Ok(()) => {},
            Err(error) => {
                data.zeroize();
                self.message(error.message(), true);
                return Effect::Nothing;
            },
        }
        let copy = data.duplicate();
        proof {
            crate::model::lemma_same_records_validation(copy.records@, data.records@);
            assert forall|i: int| 0 <= i < data.records@.len() implies #[trigger] same_record(
                data.records@[i],
                data.records@[i],
            ) by {}
        }
        self.pending = Pending::PersistEncode(data, after);
        Effect::Encode(copy)
    }

    /// Asks to write the records without the selected one.
    fn delete_record(&mut self) -> (effect: Effect)
        requires
            old(self).mode == Mode::Delete,
            old(self).wf(),
            old(self).pending is Idle,
        ensures
            (effect is Nothing) == (final(self).pending is Idle),
            final(self).wf(),
            deleted(*old(self), *final(self), effect),
            old(self).write_blocked ==> effect is Nothing,
            final(self).write_blocked == old(self).write_blocked,
    {
        let indices = self.filtered_indices();
        if self.selected >= indices.len() {
            self.mode = Mode::Browse;
            return Effect::Nothing;
        }
        proof {
            lemma_filtered_in_range(self.spec_records(), self.query.value@);
        }
        let index = indices[self.selected];
        let data = match &self.session {
            Some(s) => {
                let mut d = s.data().duplicate();
                let mut removed = d.records.remove(index);
                removed.zeroize();
                d
            },
            None => {
                return Effect::Nothing;
            },
        };
        let ghost target = self.spec_records().remove(index as int);
        proof {
            assert forall|i: int| 0 <= i < data.records@.len() implies #[trigger] same_record(
                data.records@[i],
                target[i],
            ) by {
                if i < index {
                    assert(same_record(
                        data.records@[i],
                        self.spec_records()[i],
                    ));
                } else {
                    assert(same_record(
                        data.records@[i],
                        self.spec_records()[i + 1],
                    ));
                }
            }
        }
        let ghost before = *self;
        let effect = self.persist(data, After::Deleted);
        proof {
            lemma_persisted_same(before, *self, data.records@, target, None, effect);
        }
        effect
    }
}

/// The identifier a write is for, as [`after_matches`] reads it.
pub open spec fn after_target(after: After) -> Option<Seq<char>> {
    match after {
        After::SavedRecord(id) => Some(id@),
        After::Deleted => None,
    }
}

impl App {
    /// Handles a key in the delete confirmation.
    fn delete_key(&mut self, key: KeyEvent) -> (effect: Effect)
        requires
            old(self).mode == Mode::Delete,
            old(self).wf(),
            old(self).pending is Idle,
        ensures
            (effect is Nothing) == (final(self).pending is Idle),
            old(self).reveal_ok() ==> final(self).reveal_ok(),
            final(self).wf(),
            delete_answered(*old(self), *final(self), key, effect),
            old(self).write_blocked ==> effect is Nothing,
            final(self).write_blocked == old(self).write_blocked,
    {
        let code = key.code;
        if code == KeyCode::Char('y') {
            self.delete_record()
        } else if code == KeyCode::Char('n') || code == KeyCode::Esc {
            self.mode = Mode::Browse;
            Effect::Nothing
        } else if code == KeyCode::Char('L') {
            self.lock(false);
            Effect::Nothing
        } else {
            Effect::Nothing
        }
    }

    /// Syncs the draft and asks to write it into the records.
    fn save_editor(&mut self) -> (effect: Effect)
        requires
            old(self).mode == Mode::Edit,
            old(self).wf(),
            old(self).pending is Idle,
        ensures
            (effect is Nothing) == (final(self).pending is Idle),
            final(self).wf(),
            save_requested(*old(self), *final(self), effect),
            old(self).write_blocked ==> effect is Nothing,
            final(self).write_blocked == old(self).write_blocked,
    {
        let mut editor = match self.editor.take() {
            Some(e) => e,
            None => return Effect::Nothing,
        };
        editor.sync();
        let id = editor.record.id.clone();
        let existing = editor.existing;
        let record = editor.record.duplicate();
        self.editor = Some(editor);
        let mut data = match &self.session {
            Some(s) => s.data().duplicate(),
            None => {
                let mut record = record;
                record.zeroize();
                return Effect::Nothing;
            },
        };
        let ghost records = self.spec_records();
        let ghost draft = record;
        let ghost target = saved_records(records, editor.record, existing);
        proof {
            lemma_same_records_index(data.records@, records, editor.record.id@);
            lemma_index_of_id(data.records@, id@);
        }
        let ghost k = if existing {
            index_of_id(records, editor.record.id@)
        } else {
            records.len() as int
        };
        if existing {
            match find_record(data.records.as_slice(), &id) {
                None => {
                    let mut record = record;
                    record.zeroize();
                    data.zeroize();
                    self.message("The edited record is no longer available.", true);
                    return Effect::Nothing;
                },
                Some(i) => {
                    let mut slot = record;
                    data.records.set_and_swap(i, &mut slot);
                    slot.zeroize();
                },
            }
        } else {
            data.records.push(record);
        }
        proof {
            let rs = target.unwrap();
            assert forall|i: int| 0 <= i < data.records@.len() implies #[trigger] same_record(
                data.records@[i],
                rs[i],
            ) by {
                if i != k {
                    assert(same_record(data.records@[i], records[i]));
                }
            }
        }
        let ghost before = *self;
        let effect = self.persist(data, After::SavedRecord(id));
        proof {
            lemma_persisted_same(before, *self, data.records@, target.unwrap(), Some(id@), effect);
        }
        effect
    }
}

// ---------------------------------------------------------------------------
// The editor screen
// ---------------------------------------------------------------------------

/// The status line after the editor is cancelled.
pub open spec fn cancel_message() -> Seq<char> {
    "Editor cancelled. No changes saved."@
}

/// The status line after a secret is generated.
pub open spec fn generated_message() -> Seq<char> {
    "Generated a 24-character random secret. Ctrl-S saves the record."@
}

/// `a` is `b` with the editor closed and its draft discarded.
pub open spec fn editor_cancelled(b: App, a: App) -> bool {
    &&& a.status@ == cancel_message()
    &&& a == (App {
        editor: None,
        mode: Mode::Browse,
        status: a.status,
        is_error: false,
        ..b
    })
}

/// The key activates the focused control.
pub open spec fn activates(key: KeyEvent) -> bool {
    key.code == KeyCode::Enter || key.code == KeyCode::Char(' ')
}

/// `f` is `e` with a generated password in the value input and the selected
/// field marked secret.
pub open spec fn filled_generated(e: Editor, f: Editor) -> bool {
    &&& f.value.wf()
    &&& f.value.value@.len() == 24
    &&& forall|k: int| 0 <= k < 24 ==> in_alphabet(#[trigger] f.value.value@[k])
    &&& f.value.position() == 24
    &&& f == (Editor { value: f.value, record: f.record, ..e })
    &&& f.record.id == e.record.id
    &&& f.record.label == e.record.label
    &&& e.field < e.record.fields@.len() ==> f.record.fields@ == e.record.fields@.update(
        e.field as int,
        (Field { secret: true, ..e.record.fields@[e.field as int] }),
    )
}

/// What the generate control does: a fresh random password, or the
/// randomness failure.
pub open spec fn generated(b: App, a: App, e: Editor) -> bool {
    ||| {
        &&& a.editor matches Some(f) && filled_generated(e, f)
        &&& a.status@ == generated_message()
        &&& a == (App { editor: a.editor, status: a.status, is_error: false, ..b })
    }
    ||| {
        &&& a.status@ == message_of(VaultError::RandomnessUnavailable)
        &&& a == (App { status: a.status, is_error: true, ..b })
    }
}

/// `a` is `b` with the editor replaced by `f`, nothing else changed.
pub open spec fn editor_now(b: App, a: App, f: Editor) -> bool {
    a.editor == Some(f) && a == (App { editor: a.editor, ..b })
}

/// What a key does in the editor. Control-S saves and Esc cancels from any
/// control; Tab moves the focus; the field list, kind and secret controls
/// and the buttons act on Enter or space; text controls take the key.
pub open spec fn edited(b: App, a: App, key: KeyEvent, effect: Effect) -> bool {
    let code = key.code;
    if key.modifiers.control && code == KeyCode::Char('s') {
        save_requested(b, a, effect)
    } else if code == KeyCode::Esc {
        editor_cancelled(b, a) && effect is Nothing
    } else {
        match b.editor {
            None => a == (App { mode: Mode::Browse, ..b }) && effect is Nothing,
            Some(e) => if code == KeyCode::Tab || code == KeyCode::BackTab {
                &&& effect is Nothing
                &&& a.editor matches Some(f) && editor_now(b, a, f) && tab_post(
                    e,
                    f,
                    code == KeyCode::BackTab || key.modifiers.shift,
                )
            } else if e.focus == EditorControl::FieldList {
                &&& effect is Nothing
                &&& a.editor matches Some(f) && editor_now(b, a, f) && if code == KeyCode::Char(
                    'j',
                ) || code == KeyCode::Down {
                    select_post(e, f, 1)
                } else if code == KeyCode::Char('k') || code == KeyCode::Up {
                    select_post(e, f, -1isize)
                } else if code == KeyCode::Enter {
                    f == (Editor { focus: EditorControl::Name, ..e })
                } else {
                    f == e
                }
            } else if e.focus == EditorControl::Kind {
                &&& effect is Nothing
                &&& a.editor matches Some(f) && editor_now(b, a, f) && if code == KeyCode::Right
                    || code == KeyCode::Char('l') || activates(key) {
                    cycle_post(e, f, 1)
                } else if code == KeyCode::Left || code == KeyCode::Char('h') {
                    cycle_post(e, f, -1isize)
                } else {
                    f == e
                }
            } else if e.focus == EditorControl::Secret && activates(key) {
                &&& effect is Nothing
                &&& a.editor matches Some(f) && editor_now(b, a, f) && toggle_post(e, f)
            } else if activates(key) && e.focus != EditorControl::Label && e.focus
                != EditorControl::Name && e.focus != EditorControl::Value {
                if e.focus == EditorControl::Generate && e.record.fields@.len() > 0 {
                    generated(b, a, e) && effect is Nothing
                } else if e.focus == EditorControl::Add {
                    &&& effect is Nothing
                    &&& a.editor matches Some(f) && editor_now(b, a, f) && add_post(e, f)
                } else if e.focus == EditorControl::Remove {
                    &&& effect is Nothing
                    &&& a.editor matches Some(f) && editor_now(b, a, f) && remove_post(e, f)
                } else if e.focus == EditorControl::MoveUp {
                    &&& effect is Nothing
                    &&& a.editor matches Some(f) && editor_now(b, a, f) && move_post(e, f, -1isize)
                } else if e.focus == EditorControl::MoveDown {
                    &&& effect is Nothing
                    &&& a.editor matches Some(f) && editor_now(b, a, f) && move_post(e, f, 1)
                } else if e.focus == EditorControl::Save {
                    save_requested(b, a, effect)
                } else if e.focus == EditorControl::Cancel {
                    editor_cancelled(b, a) && effect is Nothing
                } else {
                    a == b && effect is Nothing
                }
            } else {
                &&& effect is Nothing
                &&& a.editor matches Some(f) && editor_now(b, a, f) && exists|handled: bool|
                    #[trigger] text_key_post(e, f, key, handled)
            },
        }
    }
}

/// `f` is `e` with the value input holding `p`, its cursor at the end, and
/// the selected field, if there is one, marked secret.
pub open spec fn filled_with(e: Editor, f: Editor, p: Seq<char>) -> bool {
    &&& f.value.wf()
    &&& f.value.value@ == p
    &&& f.value.position() == p.len()
    &&& f == (Editor { value: f.value, record: f.record, ..e })
    &&& f.record.id == e.record.id
    &&& f.record.label == e.record.label
    &&& e.field < e.record.fields@.len() ==> f.record.fields@ == e.record.fields@.update(
        e.field as int,
        (Field { secret: true, ..e.record.fields@[e.field as int] }),
    )
    &&& e.field >= e.record.fields@.len() ==> f.record == e.record
}

/// Puts `password` into the value input, wiping the text it replaces, and
/// marks the selected field secret.
fn fill_with(editor: &mut Editor, password: &str)
    ensures
        filled_with(*old(editor), *final(editor), password@),
{
    let mut replaced = TextInput::new(password);
    std::mem::swap(&mut editor.value, &mut replaced);
    wipe_string(&mut replaced.value);
    if editor.field < editor.record.fields.len() {
        let i = editor.field;
        let mut slot = Field::new("", crate::model::FieldKind::Text);
        editor.record.fields.set_and_swap(i, &mut slot);
        slot.secret = true;
        editor.record.fields.set_and_swap(i, &mut slot);
        let ghost g = old(editor).record.fields@[i as int];
        assert(editor.record.fields@ =~= old(editor).record.fields@.update(
            i as int,
            (Field { secret: true, ..g }),
        ));
    }
}

/// Fills the value input with a new 24-character password and marks the
/// selected field secret; on failure the editor is unchanged. Only the
/// operating system's randomness can make it fail (see `generate_password`);
/// which password comes is chance.
fn fill_generated(editor: &mut Editor) -> (ok: bool)
    ensures
        ok ==> filled_generated(*old(editor), *final(editor)),
        ok ==> exists|p: Seq<char>| #[trigger] filled_with(*old(editor), *final(editor), p),
        !ok ==> *final(editor) == *old(editor),
{
    let mut password = match generate_password(24) {
        Ok(p) => p,
        Err(_) => return false,
    };
    fill_with(editor, password.as_str());
    assert(filled_with(*old(editor), *editor, password@));
    wipe_string(&mut password);
    true
}

/// What remains for the application after the editor's own controls act.
pub enum Follow {
    Stay,
    Save,
    Cancel,
    Generated,
    GenerationFailed,
}

/// What the editor's controls do to the editor (`e` before, `f` after) for a
/// key that neither saves nor cancels by itself, and what follows.
pub open spec fn controlled(e: Editor, f: Editor, key: KeyEvent, follow: Follow) -> bool {
    let code = key.code;
    if code == KeyCode::Tab || code == KeyCode::BackTab {
        follow is Stay && tab_post(e, f, code == KeyCode::BackTab || key.modifiers.shift)
    } else if e.focus == EditorControl::FieldList {
        &&& follow is Stay
        &&& if code == KeyCode::Char('j') || code == KeyCode::Down {
            select_post(e, f, 1)
        } else if code == KeyCode::Char('k') || code == KeyCode::Up {
            select_post(e, f, -1isize)
        } else if code == KeyCode::Enter {
            f == (Editor { focus: EditorControl::Name, ..e })
        } else {
            f == e
        }
    } else if e.focus == EditorControl::Kind {
        &&& follow is Stay
        &&& if code == KeyCode::Right || code == KeyCode::Char('l') || activates(key) {
            cycle_post(e, f, 1)
        } else if code == KeyCode::Left || code == KeyCode::Char('h') {
            cycle_post(e, f, -1isize)
        } else {
            f == e
        }
    } else if e.focus == EditorControl::Secret && activates(key) {
        follow is Stay && toggle_post(e, f)
    } else if activates(key) && e.focus != EditorControl::Label && e.focus != EditorControl::Name
        && e.focus != EditorControl::Value {
        pressed(e, f, follow)
    } else {
        follow is Stay && exists|handled: bool| #[trigger] text_key_post(e, f, key, handled)
    }
}

/// What pressing the focused button of the editor does.
pub open spec fn pressed(e: Editor, f: Editor, follow: Follow) -> bool {
    if e.focus == EditorControl::Generate && e.record.fields@.len() > 0 {
        ||| follow is Generated && filled_generated(e, f)
        ||| follow is GenerationFailed && f == e
    } else if e.focus == EditorControl::Add {
        follow is Stay && add_post(e, f)
    } else if e.focus == EditorControl::Remove {
        follow is Stay && remove_post(e, f)
    } else if e.focus == EditorControl::MoveUp {
        follow is Stay && move_post(e, f, -1isize)
    } else if e.focus == EditorControl::MoveDown {
        follow is Stay && move_post(e, f, 1)
    } else if e.focus == EditorControl::Save {
        follow is Save && f == e
    } else if e.focus == EditorControl::Cancel {
        follow is Cancel && f == e
    } else {
        follow is Stay && f == e
    }
}

/// Applies a key to the editor's controls.
fn editor_control(editor: &mut Editor, key: KeyEvent) -> (follow: Follow)
    requires
        editor_ok(*old(editor)),
    ensures
        editor_ok(*final(editor)),
        controlled(*old(editor), *final(editor), key, follow),
{
    let code = key.code;
    let activate = code == KeyCode::Enter || code == KeyCode::Char(' ');
    if code == KeyCode::Tab || code == KeyCode::BackTab {
        editor.tab(code == KeyCode::BackTab || key.modifiers.shift);
        Follow::Stay
    } else if editor.focus == EditorControl::FieldList {
        if code == KeyCode::Char('j') || code == KeyCode::Down {
            editor.select_field(1);
        } else if code == KeyCode::Char('k') || code == KeyCode::Up {
            editor.select_field(-1);
        } else if code == KeyCode::Enter {
            editor.focus = EditorControl::Name;
        }
        Follow::Stay
    } else if editor.focus == EditorControl::Kind {
        if code == KeyCode::Right || code == KeyCode::Char('l') || activate {
            editor.cycle_kind(1);
        } else if code == KeyCode::Left || code == KeyCode::Char('h') {
            editor.cycle_kind(-1);
        }
        Follow::Stay
    } else if editor.focus == EditorControl::Secret && activate {
        editor.toggle_secret();
        Follow::Stay
    } else if activate && editor.focus != EditorControl::Label && editor.focus
        != EditorControl::Name && editor.focus != EditorControl::Value {
        editor_button(editor)
    } else {
        let handled = editor.text_key(key);
        assert(text_key_post(*old(editor), *editor, key, handled));
        Follow::Stay
    }
}

/// Presses the focused button of the editor.
fn editor_button(editor: &mut Editor) -> (follow: Follow)
    requires
        editor_ok(*old(editor)),
        old(editor).focus != EditorControl::Label,
        old(editor).focus != EditorControl::Name,
        old(editor).focus != EditorControl::Value,
        old(editor).focus != EditorControl::FieldList,
        old(editor).focus != EditorControl::Kind,
        old(editor).focus != EditorControl::Secret,
    ensures
        editor_ok(*final(editor)),
        pressed(*old(editor), *final(editor), follow),
{
    if editor.focus == EditorControl::Generate {
        if editor.record.fields.len() > 0 {
            if fill_generated(editor) {
                Follow::Generated
            } else {
                Follow::GenerationFailed
            }
        } else {
            Follow::Stay
        }
    } else if editor.focus == EditorControl::Add {
        editor.add_field();
        Follow::Stay
    } else if editor.focus == EditorControl::Remove {
        editor.remove_field();
        Follow::Stay
    } else if editor.focus == EditorControl::MoveUp {
        editor.move_field(-1);
        Follow::Stay
    } else if editor.focus == EditorControl::MoveDown {
        editor.move_field(1);
        Follow::Stay
    } else if editor.focus == EditorControl::Save {
        Follow::Save
    } else {
        Follow::Cancel
    }
}

impl App {
    /// Closes the editor without saving, wiping the draft.
    fn close_editor(&mut self)
        ensures
            editor_cancelled(*old(self), *final(self)),
            final(self).write_blocked == old(self).write_blocked,
    {
        self.install_editor(None);
        self.mode = Mode::Browse;
        self.message("Editor cancelled. No changes saved.", false);
    }

    /// Handles a key in the editor.
    fn editor_key(&mut self, key: KeyEvent) -> (effect: Effect)
        requires
            old(self).mode == Mode::Edit,
            old(self).wf(),
            old(self).pending is Idle,
        ensures
            (effect is Nothing) == (final(self).pending is Idle),
            old(self).reveal_ok() ==> final(self).reveal_ok(),
            final(self).wf(),
            edited(*old(self), *final(self), key, effect),
            old(self).write_blocked ==> effect is Nothing,
            final(self).write_blocked == old(self).write_blocked,
    {
        let code = key.code;
        if key.modifiers.control && code == KeyCode::Char('s') {
            return self.save_editor();
        }
        if code == KeyCode::Esc {
            self.close_editor();
            return Effect::Nothing;
        }
        let mut editor = match self.editor.take() {
            Some(e) => e,
            None => {
                self.mode = Mode::Browse;
                return Effect::Nothing;
            },
        };
        let follow = editor_control(&mut editor, key);
        self.editor = Some(editor);
        match follow {
            Follow::Stay => Effect::Nothing,
            Follow::Generated => {
                self.message(
                    "Generated a 24-character random secret. Ctrl-S saves the record.",
                    false,
                );
                Effect::Nothing
            },
            Follow::GenerationFailed => {
                self.message(VaultError::RandomnessUnavailable.message(), true);
                Effect::Nothing
            },
            Follow::Save => self.save_editor(),
            Follow::Cancel => {
                self.close_editor();
                Effect::Nothing
            },
        }
    }
}

// ---------------------------------------------------------------------------
// Creating and unlocking
// ---------------------------------------------------------------------------

/// The status line while a write's durability is uncertain.
pub open spec fn durability_message() -> Seq<char> {
    "Save durability is uncertain. Quit with Ctrl-Q and reopen the vault before continuing."@
}

/// The status line for a master password that is too short.
pub open spec fn short_master_message() -> Seq<char> {
    "Use a master password with at least 12 characters; a long unique passphrase is best."@
}

/// The status line when the confirmation differs.
pub open spec fn mismatch_message() -> Seq<char> {
    "Master passwords do not match. Re-enter the confirmation."@
}

/// Key derivation can refuse a master password only when its UTF-8 form
/// exceeds what Argon2 accepts.
pub open spec fn derivation_may_fail(master: Seq<char>) -> bool {
    utf8_len(master) > 0xFFFF_FFFF
}

/// What submitting the master password does: on the creation screen, a
/// long enough, confirmed password keys a new empty vault, which goes out to
/// be encoded; on the locked screen the vault file is read.
pub open spec fn authenticated(b: App, a: App, effect: Effect) -> bool {
    if b.mode == Mode::Create {
        if b.master.value@.len() < 12 {
            &&& a.status@ == short_master_message()
            &&& a == (App { status: a.status, is_error: true, auth_focus: 0, ..b })
            &&& effect is Nothing
        } else if b.master.value@ != b.confirmation.value@ {
            &&& cleared(a.confirmation)
            &&& a.status@ == mismatch_message()
            &&& a == (App {
                confirmation: a.confirmation,
                status: a.status,
                is_error: true,
                ..b
            })
            &&& effect is Nothing
        } else {
            let m = App { master: a.master, confirmation: a.confirmation, auth_focus: 0, ..b };
            &&& cleared(a.master)
            &&& cleared(a.confirmation)
            &&& {
                ||| {
                    &&& effect matches Effect::Encode(v) && v.records@.len() == 0
                    &&& a.pending matches Pending::CreateEncode(s) && s.vault().records@.len() == 0
                        && s.salt().len() == SALT_SIZE && s.key() == master_key(
                        b.master.value@,
                        s.salt(),
                    )
                    &&& a == (App { pending: a.pending, ..m })
                }
                ||| {
                    &&& effect is Nothing
                    &&& a == (App { status: a.status, is_error: true, ..m })
                    &&& (a.status@ == message_of(VaultError::RandomnessUnavailable) || (
                    derivation_may_fail(b.master.value@) && a.status@ == message_of(
                        VaultError::KeyDerivationFailed,
                    )))
                }
            }
        }
    } else {
        a == (App { pending: Pending::Unlock, ..b }) && effect is ReadVault
    }
}

/// What a key does on the creation and locked screens.
pub open spec fn auth_handled(b: App, a: App, key: KeyEvent, effect: Effect) -> bool {
    let code = key.code;
    if b.write_blocked {
        &&& a.status@ == durability_message()
        &&& a == (App { status: a.status, is_error: true, ..b })
        &&& effect is Nothing
    } else if (code == KeyCode::Tab || code == KeyCode::BackTab) && b.mode == Mode::Create {
        a == (App { auth_focus: (1 - b.auth_focus) as usize, ..b }) && effect is Nothing
    } else if code == KeyCode::Enter && b.mode == Mode::Create && b.auth_focus == 0 {
        a == (App { auth_focus: 1, ..b }) && effect is Nothing
    } else if code == KeyCode::Enter {
        authenticated(b, a, effect)
    } else if code == KeyCode::Esc {
        &&& cleared(a.master)
        &&& cleared(a.confirmation)
        &&& a == (App {
            master: a.master,
            confirmation: a.confirmation,
            auth_focus: 0,
            ..b
        })
        &&& effect is Nothing
    } else if b.auth_focus == 0 {
        let (s, k, h) = key_outcome(b.master.value@, b.master.position(), key, false, PASSWORD_LIMIT);
        &&& a.master.wf() && a.master.value@ == s && a.master.position() == k
        &&& a == (App { master: a.master, ..b })
        &&& effect is Nothing
    } else {
        let (s, k, h) = key_outcome(
            b.confirmation.value@,
            b.confirmation.position(),
            key,
            false,
            PASSWORD_LIMIT,
        );
        &&& a.confirmation.wf() && a.confirmation.value@ == s && a.confirmation.position() == k
        &&& a == (App { confirmation: a.confirmation, ..b })
        &&& effect is Nothing
    }
}

impl App {
    /// Submits the master password.
    fn authenticate(&mut self) -> (effect: Effect)
        requires
            old(self).wf(),
            old(self).pending is Idle,
            old(self).mode == Mode::Create || old(self).mode == Mode::Locked,
            !old(self).write_blocked,
        ensures
            (effect is Nothing) == (final(self).pending is Idle),
            final(self).wf(),
            authenticated(*old(self), *final(self), effect),
            final(self).write_blocked == old(self).write_blocked,
    {
        if self.mode == Mode::Create {
            if self.master.value.as_str().unicode_len() < 12 {
                self.auth_focus = 0;
                self.message(
                    "Use a master password with at least 12 characters; a long unique passphrase is best.",
                    true,
                );
                return Effect::Nothing;
            }
            if !(self.master.value == self.confirmation.value) {
                self.confirmation.clear();
                self.message("Master passwords do not match. Re-enter the confirmation.", true);
                return Effect::Nothing;
            }
            let result = Session::create(self.master.value.as_str());
            self.master.clear();
            self.confirmation.clear();
            self.auth_focus = 0;
            match result {
                Ok(session) => {
                    self.pending = Pending::CreateEncode(session);
                    Effect::Encode(Vault::default())
                },
                Err(error) => {
                    self.message(error.message(), true);
                    Effect::Nothing
                },
            }
        } else {
            self.pending = Pending::Unlock;
            Effect::ReadVault
        }
    }

    /// Handles a key on the creation and locked screens.
    fn auth_key(&mut self, key: KeyEvent) -> (effect: Effect)
        requires
            old(self).wf(),
            old(self).pending is Idle,
            old(self).mode == Mode::Create || old(self).mode == Mode::Locked,
        ensures
            (effect is Nothing) == (final(self).pending is Idle),
            old(self).reveal_ok() ==> final(self).reveal_ok(),
            final(self).wf(),
            auth_handled(*old(self), *final(self), key, effect),
            old(self).write_blocked ==> effect is Nothing,
            final(self).write_blocked == old(self).write_blocked,
    {
        let code = key.code;
        if self.write_blocked {
            self.message(
                "Save durability is uncertain. Quit with Ctrl-Q and reopen the vault before continuing.",
                true,
            );
            Effect::Nothing
        } else if (code == KeyCode::Tab || code == KeyCode::BackTab) && self.mode == Mode::Create {
            self.auth_focus = 1 - self.auth_focus;
            Effect::Nothing
        } else if code == KeyCode::Enter && self.mode == Mode::Create && self.auth_focus == 0 {
            self.auth_focus = 1;
            Effect::Nothing
        } else if code == KeyCode::Enter {
            self.authenticate()
        } else if code == KeyCode::Esc {
            self.master.clear();
            self.confirmation.clear();
            self.auth_focus = 0;
            Effect::Nothing
        } else if self.auth_focus == 0 {
            self.master.key(key, false, PASSWORD_LIMIT);
            Effect::Nothing
        } else {
            self.confirmation.key(key, false, PASSWORD_LIMIT);
            Effect::Nothing
        }
    }
}

// ---------------------------------------------------------------------------
// Answers to outside work
// ---------------------------------------------------------------------------

/// The status line after unlocking.
pub open spec fn unlocked_message() -> Seq<char> {
    "Vault unlocked. / searches labels · ? opens help."@
}

/// The status line after creating the vault.
pub open spec fn created_message() -> Seq<char> {
    "Vault created. Press a to add your first record."@
}

/// The status line after a record is saved.
pub open spec fn saved_message() -> Seq<char> {
    "Record saved. Your vault is encrypted on disk."@
}

/// The status line after a record is deleted.
pub open spec fn deleted_message() -> Seq<char> {
    "Record deleted and encrypted vault saved."@
}

/// `a` is `b` reporting an error on the status line, the waiting operation dropped.
pub open spec fn failed_with(b: App, a: App, message: Seq<char>) -> bool {
    &&& a.status@ == message
    &&& a == (App { pending: Pending::Idle, status: a.status, is_error: true, ..b })
}

/// What the vault file's contents (or the error reading it) do to an
/// unlock in progress: the master password is wiped, and a file that
/// authenticates under it is handed out for parsing.
pub open spec fn vault_was_read(b: App, a: App, read: Result<Vec<u8>, String>, effect: Effect) -> bool {
    if !(b.pending is Unlock) {
        a == b && effect is Nothing
    } else {
        let m = App { master: a.master, ..b };
        &&& cleared(a.master)
        &&& match read {
            Err(message) => failed_with(m, a, message@) && effect is Nothing,
            Ok(bytes) => match unlock_result(bytes@, b.master.value@) {
                Err(e) => {
                    &&& effect is Nothing
                    &&& (failed_with(m, a, message_of(e)) || (derivation_may_fail(b.master.value@)
                        && failed_with(m, a, message_of(VaultError::KeyDerivationFailed))))
                },
                Ok((salt, payload)) => {
                    ||| {
                        &&& effect matches Effect::Decode(p) && p@ == payload
                        &&& a.pending matches Pending::Decode(u) && u.payload() == payload
                            && u.salt() == salt && u.key() == master_key(b.master.value@, salt)
                        &&& a == (App { pending: a.pending, ..m })
                    }
                    ||| {
                        &&& effect is Nothing
                        &&& derivation_may_fail(b.master.value@)
                        &&& failed_with(m, a, message_of(VaultError::KeyDerivationFailed))
                    }
                },
            },
        }
    }
}

/// What the parsed payload does to an unlock in progress: valid records
/// become the session, keyed as the file was; a missing or invalid parse is
/// reported without its details.
pub open spec fn payload_was_decoded(b: App, a: App, parsed: Option<Vault>, now: u64) -> bool {
    match b.pending {
        Pending::Decode(u) => match parsed {
            Some(v) if valid_records(v.records@) => {
                &&& a.session matches Some(s) && s.vault() == v && s.key() == u.key() && s.salt()
                    == u.salt()
                &&& a.status@ == unlocked_message()
                &&& a == (App {
                    session: a.session,
                    pending: Pending::Idle,
                    mode: Mode::Browse,
                    last_activity: now,
                    clear_terminal: true,
                    status: a.status,
                    is_error: false,
                    ..b
                })
            },
            _ => failed_with(b, a, message_of(VaultError::InvalidPayload)),
        },
        _ => a == b,
    }
}

/// What sealing a serialized payload under `key` and `salt` gives: the
/// write of an envelope of exactly that payload, an oversized payload, or
/// no randomness for the nonce.
pub open spec fn sealed_or_failed(
    b: App,
    a: App,
    payload: Option<Vec<u8>>,
    key: Seq<u8>,
    salt: Seq<u8>,
    create: bool,
    next: Pending,
    effect: Effect,
) -> bool {
    match payload {
        Some(p) if p@.len() <= crate::crypto::MAX_CIPHERTEXT_SIZE - crate::crypto::TAG_SIZE => {
            ||| {
                &&& effect matches Effect::Write(bytes, c) && c == create && sealed_by(
                    bytes@,
                    key,
                    salt,
                    p@,
                )
                &&& a == (App { pending: next, ..b })
            }
            ||| failed_with(b, a, message_of(VaultError::RandomnessUnavailable)) && effect is Nothing
        },
        _ => failed_with(b, a, message_of(VaultError::PayloadTooLarge)) && effect is Nothing,
    }
}

/// What the serialized payload does to a creation or a save in progress.
pub open spec fn payload_was_encoded(
    b: App,
    a: App,
    payload: Option<Vec<u8>>,
    effect: Effect,
) -> bool {
    match b.pending {
        Pending::CreateEncode(s) => sealed_or_failed(
            b,
            a,
            payload,
            s.key(),
            s.salt(),
            true,
            Pending::CreateWrite(s),
            effect,
        ),
        Pending::PersistEncode(v, after) => match b.session {
            Some(s) => sealed_or_failed(
                b,
                a,
                payload,
                s.key(),
                s.salt(),
                false,
                Pending::PersistWrite(v, after),
                effect,
            ),
            None => false,
        },
        _ => a == b && effect is Nothing,
    }
}

/// What a finished save does after the in-memory state has taken the
/// written records: close the editor on the saved record, or return to the
/// browser after a deletion.
pub open spec fn save_completed(m: App, a: App, after: After) -> bool {
    match after {
        After::SavedRecord(id) => {
            let i = index_of_id(m.spec_records(), id@);
            &&& cleared(a.query)
            &&& a.status@ == saved_message()
            &&& a == (App {
                editor: None,
                mode: Mode::Browse,
                query: a.query,
                selected: if i >= 0 {
                    i as usize
                } else {
                    0
                },
                selected_field: 0,
                detail_scroll: 0,
                status: a.status,
                is_error: false,
                ..m
            })
        },
        After::Deleted => {
            &&& a.status@ == deleted_message()
            &&& !a.is_error
            &&& selection_clamped(
                App { mode: Mode::Browse, ..m },
                App { status: m.status, is_error: m.is_error, ..a },
            )
        },
    }
}

/// What the outcome of writing an envelope does. A created vault becomes
/// the session; a saved one replaces the session's records. A failure keeps
/// the last committed state; one whose durability is uncertain blocks every
/// later write (and, for a save, locks the vault).
pub open spec fn write_was_finished(
    b: App,
    a: App,
    result: Result<(), SaveError>,
    now: u64,
) -> bool {
    match b.pending {
        Pending::CreateWrite(s) => match result {
            Ok(()) => {
                &&& a.status@ == created_message()
                &&& a == (App {
                    session: Some(s),
                    pending: Pending::Idle,
                    mode: Mode::Browse,
                    last_activity: now,
                    clear_terminal: true,
                    status: a.status,
                    is_error: false,
                    ..b
                })
            },
            Err(e) => failed_with(
                App {
                    write_blocked: b.write_blocked || e.committed,
                    mode: if e.committed {
                        Mode::Locked
                    } else {
                        b.mode
                    },
                    ..b
                },
                a,
                save_failure(e),
            ),
        },
        Pending::PersistWrite(v, after) => match result {
            Ok(()) => b.session matches Some(s) && a.session matches Some(t) && t.vault() == v
                && t.key() == s.key() && t.salt() == s.salt() && save_completed(
                App { session: a.session, pending: Pending::Idle, ..b },
                a,
                after,
            ),
            Err(e) => if e.committed {
                &&& wiped_from(App { write_blocked: true, ..b }, a)
                &&& a.status@ == save_failure(e)
                &&& a.is_error
            } else {
                failed_with(b, a, save_failure(e))
            },
        },
        _ => a == b,
    }
}

impl App {
    /// Continues an unlock with the vault file's contents, or the message
    /// of the error that reading it gave.
    pub fn vault_read(&mut self, read: Result<Vec<u8>, String>) -> (effect: Effect)
        requires
            old(self).wf(),
        ensures
            old(self).pending is Unlock ==> ((effect is Nothing) == (final(self).pending is Idle)),
            old(self).reveal_ok() ==> final(self).reveal_ok(),
            final(self).wf(),
            vault_was_read(*old(self), *final(self), read, effect),
    {
        if !matches!(self.pending, Pending::Unlock) {
            return Effect::Nothing;
        }
        let result = match &read {
            Ok(bytes) => Ok(Session::unlock(bytes.as_slice(), self.master.value.as_str())),
            Err(_) => Err(()),
        };
        self.master.clear();
        self.pending = Pending::Idle;
        match result {
            Err(()) => {
                match &read {
                    Err(message) => self.message(message.as_str(), true),
                    Ok(_) => {},
                }
                Effect::Nothing
            },
            Ok(Err(error)) => {
                self.message(error.message(), true);
                Effect::Nothing
            },
            Ok(Ok(unsealed)) => {
                let payload = vstd::slice::slice_to_vec(unsealed.plaintext());
                self.pending = Pending::Decode(unsealed);
                Effect::Decode(payload)
            },
        }
    }

    /// Continues an unlock with the parsed payload (`None` when it did not parse).
    pub fn payload_decoded(&mut self, parsed: Option<Vault>, now: u64) -> (effect: Effect)
        requires
            old(self).wf(),
        ensures
            final(self).pending is Idle || final(self).pending == old(self).pending,
            old(self).reveal_ok() ==> final(self).reveal_ok(),
            final(self).wf(),
            payload_was_decoded(*old(self), *final(self), parsed, now),
            effect is Nothing,
    {
        if !matches!(self.pending, Pending::Decode(_)) {
            if let Some(mut v) = parsed {
                v.zeroize();
            }
            return Effect::Nothing;
        }
        let mut pending = Pending::Idle;
        std::mem::swap(&mut self.pending, &mut pending);
        let unsealed = match pending {
            Pending::Decode(u) => u,
            _ => {
                return Effect::Nothing;
            },
        };
        match unsealed.into_session(parsed) {
            Ok(session) => {
                let mut previous = Some(session);
                std::mem::swap(&mut self.session, &mut previous);
                if let Some(mut s) = previous {
                    s.zeroize();
                }
                self.unlocked("Vault unlocked. / searches labels · ? opens help.", now);
            },
            Err(error) => self.message(error.message(), true),
        }
        Effect::Nothing
    }

    /// Continues a creation or a save with the serialized records (`None`
    /// when they did not fit within the envelope's size bound).
    pub fn payload_encoded(&mut self, payload: Option<Vec<u8>>) -> (effect: Effect)
        requires
            old(self).wf(),
        ensures
            (old(self).pending is CreateEncode || old(self).pending is PersistEncode) ==> ((effect is Nothing) == (final(self).pending is Idle)),
            old(self).reveal_ok() ==> final(self).reveal_ok(),
            final(self).wf(),
            payload_was_encoded(*old(self), *final(self), payload, effect),
    {
        let mut pending = Pending::Idle;
        std::mem::swap(&mut self.pending, &mut pending);
        match pending {
            Pending::CreateEncode(session) => {
                let sealed = match &payload {
                    Some(p) => session.seal(session.data(), p.as_slice()),
                    None => Err(VaultError::PayloadTooLarge),
                };
                match sealed {
                    Ok(bytes) => {
                        self.pending = Pending::CreateWrite(session);
                        Effect::Write(bytes, true)
                    },
                    Err(error) => {
                        let mut session = session;
                        session.zeroize();
                        self.message(error.message(), true);
                        Effect::Nothing
                    },
                }
            },
            Pending::PersistEncode(data, after) => {
                let sealed = match (&self.session, &payload) {
                    (Some(s), Some(p)) => s.seal(&data, p.as_slice()),
                    _ => Err(VaultError::PayloadTooLarge),
                };
                match sealed {
                    Ok(bytes) => {
                        self.pending = Pending::PersistWrite(data, after);
                        Effect::Write(bytes, false)
                    },
                    Err(error) => {
                        let mut data = data;
                        data.zeroize();
                        self.message(error.message(), true);
                        Effect::Nothing
                    },
                }
            },
            other => {
                self.pending = other;
                Effect::Nothing
            },
        }
    }

    /// Continues a creation or a save with the outcome of the write.
    pub fn write_finished(&mut self, result: Result<(), SaveError>, now: u64) -> (effect: Effect)
        requires
            old(self).wf(),
        ensures
            final(self).pending is Idle || final(self).pending == old(self).pending,
            old(self).reveal_ok() ==> final(self).reveal_ok(),
            final(self).wf(),
            write_was_finished(*old(self), *final(self), result, now),
            effect is Nothing,
    {
        let mut pending = Pending::Idle;
        std::mem::swap(&mut self.pending, &mut pending);
        match pending {
            Pending::CreateWrite(session) => match result {
                Ok(()) => {
                    self.session = Some(session);
                    self.unlocked("Vault created. Press a to add your first record.", now);
                },
                Err(error) => {
                    let mut session = session;
                    session.zeroize();
                    if error.committed() {
                        self.write_blocked = true;
                        self.mode = Mode::Locked;
                    }
                    let text = error.describe();
                    self.message(text.as_str(), true);
                },
            },
            Pending::PersistWrite(data, after) => match result {
                Ok(()) => {
                    match &mut self.session {
                        Some(s) => s.replace_data(data),
                        None => {},
                    }
                    self.finish_save(after);
                },
                Err(error) => {
                    let mut data = data;
                    data.zeroize();
                    if error.committed() {
                        self.write_blocked = true;
                        self.lock(false);
                    }
                    let text = error.describe();
                    self.message(text.as_str(), true);
                },
            },
            other => {
                self.pending = other;
            },
        }
        Effect::Nothing
    }

    /// Closes the editor on a saved record, or returns to the browser after a deletion.
    fn finish_save(&mut self, after: After)
        requires
            old(self).pending is Idle,
            old(self).wf(),
        ensures
            final(self).wf(),
            save_completed(*old(self), *final(self), after),
    {
        match after {
            After::SavedRecord(id) => {
                self.install_editor(None);
                self.mode = Mode::Browse;
                self.query.clear();
                let found = find_record(self.records(), &id);
                self.selected = match found {
                    Some(i) => i,
                    None => 0,
                };
                self.selected_field = 0;
                self.detail_scroll = 0;
                self.message("Record saved. Your vault is encrypted on disk.", false);
            },
            After::Deleted => {
                self.mode = Mode::Browse;
                self.clamp_selection();
                self.message("Record deleted and encrypted vault saved.", false);
            },
        }
    }
}

// ---------------------------------------------------------------------------
// Events
// ---------------------------------------------------------------------------

/// What a key press does in the current mode.
pub open spec fn key_handled(b: App, a: App, key: KeyEvent, now: u64, effect: Effect) -> bool {
    match b.mode {
        Mode::Create | Mode::Locked => auth_handled(b, a, key, effect),
        Mode::Browse => browsed(b, a, key, now) && effect is Nothing,
        Mode::Search => searched(b, a, key) && effect is Nothing,
        Mode::Edit => edited(b, a, key, effect),
        Mode::Templates => picked_template(b, a, key) && effect is Nothing,
        Mode::Delete => delete_answered(b, a, key, effect),
        Mode::Help => helped(b, a, key) && effect is Nothing,
        Mode::Themes => picked_theme(b, a, key) && effect is Nothing,
    }
}

/// The key asks to lock and quit from any mode (Control-C or Control-Q).
pub open spec fn quits(key: KeyEvent) -> bool {
    key.modifiers.control && (key.code == KeyCode::Char('c') || key.code == KeyCode::Char('q'))
}

/// What an event does once the clock has been applied: key presses and
/// pastes count as activity; a quit key locks and quits; other key presses
/// go to the current mode and pastes to its focused input; a lost focus
/// hides any revealed secret.
pub open spec fn responded(t: App, a: App, event: Event, now: u64, effect: Effect) -> bool {
    match event {
        Event::Key(key) => if key.release {
            a == t && effect is Nothing
        } else if quits(key) {
            quit_from(App { last_activity: now, ..t }, a) && effect is Nothing
        } else {
            key_handled(App { last_activity: now, ..t }, a, key, now, effect)
        },
        Event::Paste(text) => pasted(App { last_activity: now, ..t }, a, text@) && effect is Nothing,
        Event::FocusLost => a == (App { revealed_until: None, clear_terminal: true, ..t })
            && effect is Nothing,
        Event::Other => a == t && effect is Nothing,
    }
}

/// Control-Q and Control-C lock and quit from every mode, dropping the
/// session and any draft; losing focus hides a revealed secret and clears
/// the screen.
pub proof fn lemma_quit_and_focus(t: App, a: App, event: Event, now: u64, effect: Effect)
    requires
        responded(t, a, event, now, effect),
    ensures
        event matches Event::Key(key) && !key.release && quits(key) ==> {
            &&& a.should_quit
            &&& a.mode == Mode::Locked
            &&& a.session is None
            &&& a.editor is None
            &&& effect is Nothing
        },
        event is FocusLost ==> a.revealed_until is None && a.clear_terminal && effect is Nothing,
{
}

impl App {
    /// Passes a key press to the handler of the current mode.
    fn key(&mut self, key: KeyEvent, now: u64) -> (effect: Effect)
        requires
            old(self).wf(),
            old(self).pending is Idle,
        ensures
            (effect is Nothing) == (final(self).pending is Idle),
            old(self).reveal_ok() ==> final(self).reveal_ok(),
            final(self).wf(),
            key_handled(*old(self), *final(self), key, now, effect),
            old(self).write_blocked ==> effect is Nothing,
            final(self).write_blocked == old(self).write_blocked,
    {
        match self.mode {
            Mode::Create | Mode::Locked => self.auth_key(key),
            Mode::Browse => {
                self.browse_key(key, now);
                Effect::Nothing
            },
            Mode::Search => {
                self.search_key(key);
                Effect::Nothing
            },
            Mode::Edit => self.editor_key(key),
            Mode::Templates => {
                self.templates_key(key);
                Effect::Nothing
            },
            Mode::Delete => self.delete_key(key),
            Mode::Help => {
                self.help_key(key);
                Effect::Nothing
            },
            Mode::Themes => {
                self.themes_key(key);
                Effect::Nothing
            },
        }
    }

    /// Handles a terminal event at time `now`: first the clock
    /// ([`App::tick`]), then the event ([`responded`]). The returned effect
    /// is outside work to perform and answer before the next event.
    pub fn event(&mut self, event: Event, now: u64) -> (effect: Effect)
        requires
            old(self).wf(),
            old(self).pending is Idle,
        ensures
            (effect is Nothing) == (final(self).pending is Idle),
            old(self).reveal_ok() ==> final(self).reveal_ok(),
            final(self).wf(),
            exists|t: App| ticked(*old(self), t, now) && #[trigger] responded(t, *final(self), event, now, effect),
            old(self).write_blocked ==> effect is Nothing,
            final(self).write_blocked == old(self).write_blocked,
    {
        self.tick(now);
        let ghost t = *self;
        let effect = match event {
            Event::Key(key) => {
                if key.release {
                    Effect::Nothing
                } else {
                    self.last_activity = now;
                    if key.modifiers.control && (key.code == KeyCode::Char('c') || key.code
                        == KeyCode::Char('q')) {
                        self.lock(false);
                        self.should_quit = true;
                        Effect::Nothing
                    } else {
                        self.key(key, now)
                    }
                }
            },
            Event::Paste(text) => {
                self.last_activity = now;
                self.paste(text);
                Effect::Nothing
            },
            Event::FocusLost => {
                self.revealed_until = None;
                self.clear_terminal = true;
                Effect::Nothing
            },
            Event::Other => Effect::Nothing,
        };
        assert(responded(t, *self, event, now, effect));
        effect
    }
}

// ---------------------------------------------------------------------------
// Laws across operations
// ---------------------------------------------------------------------------

/// What the application writes, it reads back: the envelope written for a
/// session keyed by `master` gives, when the locked application reads it
/// under the same master password, exactly the payload that was encoded for
/// it (unless the password is too long for key derivation at all).
pub proof fn lemma_write_then_read(
    b1: App,
    a1: App,
    payload: Vec<u8>,
    write: Effect,
    b2: App,
    a2: App,
    read_effect: Effect,
    master: Seq<char>,
)
    requires
        b1.wf(),
        payload_was_encoded(b1, a1, Some(payload), write),
        match b1.pending {
            Pending::CreateEncode(s) => s.key() == master_key(master, s.salt()),
            Pending::PersistEncode(_, _) => b1.session matches Some(s) && s.key() == master_key(
                master,
                s.salt(),
            ),
            _ => false,
        },
        b2.pending is Unlock,
        b2.master.value@ == master,
        write matches Effect::Write(bytes, _) && vault_was_read(
            b2,
            a2,
            Ok::<Vec<u8>, String>(bytes),
            read_effect,
        ),
        !derivation_may_fail(master),
    ensures
        read_effect matches Effect::Decode(p) && p@ == payload@,
{
    let s = match b1.pending {
        Pending::CreateEncode(s) => s,
        _ => b1.session.unwrap(),
    };
    s.lemma_wf_sizes();
    if let Effect::Write(bytes, _) = write {
        let nonce = choose|nonce: Seq<u8>| crate::crypto::is_envelope(
            bytes@,
            s.key(),
            s.salt(),
            nonce,
            payload@,
        );
        crate::crypto::lemma_seal_unlock_roundtrip(bytes@, master, s.salt(), nonce, payload@);
    }
}

} // verus!
