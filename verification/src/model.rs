//! Ordered vault records, their limits and validation, record templates and
//! password generation.
use vstd::prelude::*;
use std::collections::HashSet;

use crate::entropy::random_bytes;
use crate::error::VaultError;
use crate::text::{byte_len, chars_of, is_blank, is_blank_str, is_white_space, push_char, utf8_len};

verus! {

broadcast use vstd::std_specs::hash::group_hash_axioms;

/// Text limits are in UTF-8 bytes, not Unicode scalar values.
pub const MAX_LABEL_LEN: usize = 256;
pub const MAX_FIELD_NAME_LEN: usize = 128;
pub const MAX_FIELD_VALUE_LEN: usize = 65536;
pub const MAX_NAME_LEN: usize = 128;
pub const MAX_VALUE_LEN: usize = 65536;
pub const MAX_RECORDS: usize = 10000;
pub const MAX_FIELDS_PER_RECORD: usize = 128;
pub const MIN_PASSWORD_LENGTH: usize = 12;
pub const MAX_PASSWORD_LENGTH: usize = 1024;
pub const DEFAULT_PASSWORD_LENGTH: usize = 24;

/// How a field's value is entered and shown.
#[derive(Clone, Copy, PartialEq, Eq, Structural, Debug)]
pub enum FieldKind {
    Text,
    Multiline,
    Email,
    Username,
    Password,
    Address,
}

/// One named value of a record.
#[derive(Clone, Debug)]
pub struct Field {
    pub name: String,
    pub value: String,
    pub kind: FieldKind,
    pub secret: bool,
}

/// A labelled, ordered list of fields with a stable random identifier.
#[derive(Clone, Debug)]
pub struct Record {
    pub id: String,
    pub label: String,
    pub fields: Vec<Field>,
}

/// The decrypted contents of a vault file.
#[derive(Clone, Debug)]
pub struct Vault {
    pub records: Vec<Record>,
}

// ---------------------------------------------------------------------------
// Field kinds
// ---------------------------------------------------------------------------

/// Display name of each field kind.
pub open spec fn kind_label(k: FieldKind) -> Seq<char> {
    match k {
        FieldKind::Text => "Text"@,
        FieldKind::Multiline => "Multiline"@,
        FieldKind::Email => "Email"@,
        FieldKind::Username => "Username"@,
        FieldKind::Password => "Password"@,
        FieldKind::Address => "Address"@,
    }
}

/// Position of each kind in [`FieldKind::ALL`].
pub open spec fn kind_index(k: FieldKind) -> int {
    match k {
        FieldKind::Text => 0,
        FieldKind::Multiline => 1,
        FieldKind::Email => 2,
        FieldKind::Username => 3,
        FieldKind::Password => 4,
        FieldKind::Address => 5,
    }
}

/// The kind at a position of [`FieldKind::ALL`].
pub open spec fn kind_at(i: int) -> FieldKind {
    if i == 0 {
        FieldKind::Text
    } else if i == 1 {
        FieldKind::Multiline
    } else if i == 2 {
        FieldKind::Email
    } else if i == 3 {
        FieldKind::Username
    } else if i == 4 {
        FieldKind::Password
    } else {
        FieldKind::Address
    }
}

/// Cycling a field's kind by `d` and then by `-d` restores the kind: the
/// kinds form one cycle.
pub proof fn lemma_kind_step_undo(k: FieldKind, d: int)
    ensures
        kind_at((kind_index(kind_at((kind_index(k) + d) % 6)) - d) % 6) == k,
{
    let i = kind_index(k);
    let j = (i + d) % 6;
    assert(0 <= j < 6);
    assert(kind_index(kind_at(j)) == j);
    assert((j - d) % 6 == i) by (nonlinear_arith)
        requires
            0 <= i < 6,
            j == (i + d) % 6,
    ;
}

impl FieldKind {
    pub const ALL: [FieldKind; 6] = [
        FieldKind::Text,
        FieldKind::Multiline,
        FieldKind::Email,
        FieldKind::Username,
        FieldKind::Password,
        FieldKind::Address,
    ];

    pub fn label(self) -> (s: &'static str)
        ensures
            s@ == kind_label(self),
    {
        match self {
            FieldKind::Text => "Text",
            FieldKind::Multiline => "Multiline",
            FieldKind::Email => "Email",
            FieldKind::Username => "Username",
            FieldKind::Password => "Password",
            FieldKind::Address => "Address",
        }
    }

    /// Position of this kind in [`FieldKind::ALL`].
    pub fn index(self) -> (i: usize)
        ensures
            i == kind_index(self),
            kind_at(i as int) == self,
    {
        match self {
            FieldKind::Text => 0,
            FieldKind::Multiline => 1,
            FieldKind::Email => 2,
            FieldKind::Username => 3,
            FieldKind::Password => 4,
            FieldKind::Address => 5,
        }
    }

    /// The kind at position `i` of [`FieldKind::ALL`].
    pub fn at(i: usize) -> (k: FieldKind)
        requires
            i < 6,
        ensures
            k == kind_at(i as int),
            kind_index(k) == i,
    {
        if i == 0 {
            FieldKind::Text
        } else if i == 1 {
            FieldKind::Multiline
        } else if i == 2 {
            FieldKind::Email
        } else if i == 3 {
            FieldKind::Username
        } else if i == 4 {
            FieldKind::Password
        } else {
            FieldKind::Address
        }
    }
}

// ---------------------------------------------------------------------------
// Fields and records
// ---------------------------------------------------------------------------

impl Field {
    /// An empty field; password fields start secret.
    pub fn new(name: &str, kind: FieldKind) -> (f: Field)
        ensures
            f.name@ == name@,
            f.value@ == Seq::<char>::empty(),
            f.kind == kind,
            f.secret == (kind == FieldKind::Password),
    {
        Field { name: name.to_owned(), value: String::new(), kind, secret: kind == FieldKind::Password }
    }

    /// A copy with the same name, value, kind and secrecy.
    pub fn duplicate(&self) -> (f: Field)
        ensures
            f == *self,
    {
        Field { name: self.name.clone(), value: self.value.clone(), kind: self.kind, secret: self.secret }
    }
}

/// A lowercase hexadecimal digit, as identifiers use.
pub open spec fn is_hex_digit(c: char) -> bool {
    (0x30 <= (c as u32) && (c as u32) <= 0x39) || (0x61 <= (c as u32) && (c as u32) <= 0x66)
}

/// Value of one lowercase hexadecimal digit.
pub open spec fn hex_digit_value(c: char) -> int {
    if (c as u32) <= 0x39 {
        (c as u32) - 0x30
    } else {
        (c as u32) - 0x61 + 10
    }
}

/// The hexadecimal digit character for a value below 16.
pub open spec fn hex_char(v: int) -> char {
    if v < 10 {
        (0x30 + v) as char
    } else {
        (0x61 + v - 10) as char
    }
}

/// True when every character of `s` is a lowercase hexadecimal digit.
pub open spec fn all_hex(s: Seq<char>) -> bool {
    forall|i: int| 0 <= i < s.len() ==> #[trigger] is_hex_digit(s[i])
}

/// A record identifier: 32 lowercase hexadecimal digits.
pub open spec fn valid_id(id: Seq<char>) -> bool {
    id.len() == 32 && all_hex(id)
}

/// Big-endian value of a hexadecimal digit string.
pub open spec fn hex_value(s: Seq<char>) -> int
    decreases s.len(),
{
    if s.len() == 0 {
        0
    } else {
        hex_value(s.drop_last()) * 16 + hex_digit_value(s.last())
    }
}

/// The hexadecimal text of `bytes`, two lowercase digits per byte, high nibble first.
pub open spec fn hex_text(bytes: Seq<u8>) -> Seq<char>
    decreases bytes.len(),
{
    if bytes.len() == 0 {
        Seq::empty()
    } else {
        hex_text(bytes.drop_last()).push(hex_char((bytes.last() / 16) as int)).push(
            hex_char((bytes.last() % 16) as int),
        )
    }
}

/// Sixteen to the power `n`.
pub open spec fn pow16(n: nat) -> nat
    decreases n,
{
    if n == 0 {
        1
    } else {
        16 * pow16((n - 1) as nat)
    }
}

proof fn lemma_div16(q1: int, r1: int, q2: int, r2: int)
    requires
        q1 * 16 + r1 == q2 * 16 + r2,
        0 <= r1 < 16,
        0 <= r2 < 16,
    ensures
        q1 == q2,
        r1 == r2,
{
    assert(q1 == q2) by (nonlinear_arith)
        requires
            q1 * 16 + r1 == q2 * 16 + r2,
            0 <= r1 < 16,
            0 <= r2 < 16,
    ;
}

proof fn lemma_hex_value_bounds(s: Seq<char>)
    requires
        all_hex(s),
    ensures
        0 <= hex_value(s) < pow16(s.len()),
    decreases s.len(),
{
    if s.len() > 0 {
        let p = s.drop_last();
        assert(all_hex(p)) by {
            assert forall|i: int| 0 <= i < p.len() implies #[trigger] is_hex_digit(p[i]) by {
                assert(p[i] == s[i]);
            }
        }
        lemma_hex_value_bounds(p);
        assert(is_hex_digit(s[s.len() - 1]));
        let q = hex_value(p);
        let d = hex_digit_value(s.last());
        let b = pow16(p.len());
        assert(0 <= q * 16 + d < 16 * b) by (nonlinear_arith)
            requires
                0 <= q < b,
                0 <= d < 16,
        ;
    }
}

/// Two hexadecimal strings of one length with one value are the same string.
proof fn lemma_hex_value_injective(a: Seq<char>, b: Seq<char>)
    requires
        a.len() == b.len(),
        all_hex(a),
        all_hex(b),
        hex_value(a) == hex_value(b),
    ensures
        a == b,
    decreases a.len(),
{
    if a.len() > 0 {
        let pa = a.drop_last();
        let pb = b.drop_last();
        assert(all_hex(pa)) by {
            assert forall|i: int| 0 <= i < pa.len() implies #[trigger] is_hex_digit(pa[i]) by {
                assert(pa[i] == a[i]);
            }
        }
        assert(all_hex(pb)) by {
            assert forall|i: int| 0 <= i < pb.len() implies #[trigger] is_hex_digit(pb[i]) by {
                assert(pb[i] == b[i]);
            }
        }
        assert(is_hex_digit(a[a.len() - 1]));
        assert(is_hex_digit(b[b.len() - 1]));
        lemma_hex_value_bounds(pa);
        lemma_hex_value_bounds(pb);
        lemma_div16(hex_value(pa), hex_digit_value(a.last()), hex_value(pb), hex_digit_value(b.last()));
        lemma_hex_value_injective(pa, pb);
        assert((a.last() as u32) == (b.last() as u32));
        vstd::utf8::char_u32_cast(a.last(), a.last() as u32);
        vstd::utf8::char_u32_cast(b.last(), b.last() as u32);
        assert(a =~= pa.push(a.last()));
        assert(b =~= pb.push(b.last()));
    }
}

proof fn lemma_pow16_32()
    ensures
        pow16(32) == 0x1_0000_0000_0000_0000_0000_0000_0000_0000,
{
    reveal_with_fuel(pow16, 33);
}

proof fn lemma_pow16_monotone(i: nat, j: nat)
    requires
        i <= j,
    ensures
        pow16(i) <= pow16(j),
    decreases j,
{
    if i < j {
        lemma_pow16_monotone(i, (j - 1) as nat);
    }
}

/// The numeric value of a valid identifier.
fn id_value(id: &String) -> (v: u128)
    requires
        valid_id(id@),
    ensures
        v == hex_value(id@),
{
    let chars = chars_of(id.as_str());
    let mut v: u128 = 0;
    let mut i: usize = 0;
    proof {
        lemma_pow16_32();
    }
    while i < 32
        invariant
            chars@ == id@,
            valid_id(id@),
            i <= 32,
            v == hex_value(chars@.take(i as int)),
            v < pow16(i as nat),
            pow16(32) == 0x1_0000_0000_0000_0000_0000_0000_0000_0000,
        decreases 32 - i,
    {
        let c = chars[i];
        assert(is_hex_digit(chars@[i as int]));
        let d: u128 = if (c as u32) <= 0x39 {
            (c as u32 - 0x30) as u128
        } else {
            (c as u32 - 0x61 + 10) as u128
        };
        proof {
            lemma_pow16_monotone((i + 1) as nat, 32);
            assert(v * 16 + d < pow16((i + 1) as nat)) by (nonlinear_arith)
                requires
                    v < pow16(i as nat),
                    d < 16,
                    pow16((i + 1) as nat) == 16 * pow16(i as nat),
            ;
            assert(chars@.take(i + 1).drop_last() =~= chars@.take(i as int));
        }
        v = v * 16 + d;
        i += 1;
    }
    assert(chars@.take(32) =~= chars@);
    v
}

/// The lowercase hexadecimal digit for `v < 16`.
fn hex_digit(v: u8) -> (c: char)
    requires
        v < 16,
    ensures
        c == hex_char(v as int),
        is_hex_digit(c),
        hex_digit_value(c) == v,
{
    if v < 10 {
        ((0x30 + v) as char)
    } else {
        ((0x61 + v - 10) as char)
    }
}

proof fn lemma_hex_text_shape(bytes: Seq<u8>)
    ensures
        hex_text(bytes).len() == 2 * bytes.len(),
        all_hex(hex_text(bytes)),
    decreases bytes.len(),
{
    if bytes.len() > 0 {
        lemma_hex_text_shape(bytes.drop_last());
        let p = hex_text(bytes.drop_last());
        let hi = hex_char((bytes.last() / 16) as int);
        let lo = hex_char((bytes.last() % 16) as int);
        let t = hex_text(bytes);
        assert(t == p.push(hi).push(lo));
        assert forall|i: int| 0 <= i < t.len() implies #[trigger] is_hex_digit(t[i]) by {
            if i < p.len() {
                assert(t[i] == p[i]);
            }
        }
    }
}

/// Hexadecimal text of `bytes`: two lowercase digits per byte.
pub fn hex_encode(bytes: &[u8]) -> (s: String)
    ensures
        s@ == hex_text(bytes@),
        s@.len() == 2 * bytes@.len(),
        all_hex(s@),
{
    let mut s = String::new();
    let mut i: usize = 0;
    while i < bytes.len()
        invariant
            i <= bytes@.len(),
            s@ == hex_text(bytes@.take(i as int)),
        decreases bytes.len() - i,
    {
        let b = bytes[i];
        let hi = hex_digit(b / 16);
        let lo = hex_digit(b % 16);
        push_char(&mut s, hi);
        push_char(&mut s, lo);
        proof {
            assert(bytes@.take(i + 1).drop_last() =~= bytes@.take(i as int));
            assert(bytes@.take(i + 1).last() == b);
        }
        i += 1;
    }
    assert(bytes@.take(bytes@.len() as int) =~= bytes@);
    proof {
        lemma_hex_text_shape(bytes@);
    }
    s
}

/// A label or field name is acceptable: not blank and within `limit` bytes.
pub open spec fn text_ok(s: Seq<char>, limit: nat) -> bool {
    !is_blank(s) && utf8_len(s) <= limit
}

/// A nonblank record label of at most [`MAX_LABEL_LEN`] bytes.
pub open spec fn label_ok(s: Seq<char>) -> bool {
    text_ok(s, MAX_LABEL_LEN as nat)
}

/// Whether `s` is nonblank and at most `limit` UTF-8 bytes long.
pub fn text_within(s: &str, limit: usize) -> (b: bool)
    ensures
        b == text_ok(s@, limit as nat),
{
    !is_blank_str(s) && byte_len(s) <= limit
}

impl Record {
    /// A record with a fresh random identifier and no fields.
    pub fn new(label: &str) -> (r: Result<Record, VaultError>)
        ensures
            !label_ok(label@) ==> r == Err::<Record, VaultError>(VaultError::InvalidLabel),
            label_ok(label@) ==> (r is Ok || r == Err::<Record, VaultError>(
                VaultError::RandomnessUnavailable,
            )),
            r matches Ok(rec) ==> rec.label@ == label@ && rec.fields@.len() == 0 && valid_id(
                rec.id@,
            ),
    {
        if !text_within(label, MAX_LABEL_LEN) {
            return Err(VaultError::InvalidLabel);
        }
        match random_bytes(16) {
            Some(bytes) => Ok(Record::with_id_bytes(label, &bytes)),
            None => Err(VaultError::RandomnessUnavailable),
        }
    }

    /// A record whose identifier is the hexadecimal text of `bytes`.
    pub fn with_id_bytes(label: &str, bytes: &[u8]) -> (r: Record)
        requires
            bytes@.len() == 16,
        ensures
            r.id@ == hex_text(bytes@),
            valid_id(r.id@),
            r.label@ == label@,
            r.fields@.len() == 0,
    {
        Record { id: hex_encode(bytes), label: label.to_owned(), fields: Vec::new() }
    }

    /// A copy with the same identifier, label and fields.
    pub fn duplicate(&self) -> (r: Record)
        ensures
            same_record(r, *self),
    {
        let mut fields: Vec<Field> = Vec::new();
        let mut i: usize = 0;
        while i < self.fields.len()
            invariant
                i <= self.fields@.len(),
                fields@ == self.fields@.take(i as int),
            decreases self.fields.len() - i,
        {
            fields.push(self.fields[i].duplicate());
            i += 1;
            assert(fields@ =~= self.fields@.take(i as int));
        }
        assert(self.fields@.take(self.fields@.len() as int) =~= self.fields@);
        Record { id: self.id.clone(), label: self.label.clone(), fields }
    }
}

// ---------------------------------------------------------------------------
// Validation
// ---------------------------------------------------------------------------

/// Two records hold the same identifier, label and fields.
pub open spec fn same_record(a: Record, b: Record) -> bool {
    a.id@ == b.id@ && a.label@ == b.label@ && a.fields@ == b.fields@
}

/// Two record lists hold the same records in the same order.
pub open spec fn same_records(a: Seq<Record>, b: Seq<Record>) -> bool {
    a.len() == b.len() && forall|i: int| 0 <= i < a.len() ==> #[trigger] same_record(a[i], b[i])
}

/// The first problem among the first `n` fields, in order.
pub open spec fn fields_error(fields: Seq<Field>, n: int) -> Option<VaultError>
    decreases n,
{
    if n <= 0 {
        None
    } else {
        match fields_error(fields, n - 1) {
            Some(e) => Some(e),
            None => {
                let f = fields[n - 1];
                if !text_ok(f.name@, MAX_FIELD_NAME_LEN as nat) {
                    Some(VaultError::InvalidFieldName)
                } else if utf8_len(f.value@) > MAX_FIELD_VALUE_LEN {
                    Some(VaultError::FieldValueTooLong)
                } else {
                    None
                }
            },
        }
    }
}

/// Once the first `m` fields hold a problem, every longer prefix reports that same problem.
pub proof fn lemma_fields_error_stable(fields: Seq<Field>, m: int, n: int)
    requires
        0 <= m <= n,
        fields_error(fields, m) is Some,
    ensures
        fields_error(fields, n) == fields_error(fields, m),
    decreases n - m,
{
    if m < n {
        lemma_fields_error_stable(fields, m, n - 1);
    }
}

/// The problem with record `i`, given the records before it.
pub open spec fn record_error(records: Seq<Record>, i: int) -> Option<VaultError> {
    let r = records[i];
    if !valid_id(r.id@) {
        Some(VaultError::InvalidIdentifier)
    } else if exists|j: int| 0 <= j < i && #[trigger] records[j].id@ == r.id@ {
        Some(VaultError::DuplicateIdentifier)
    } else if !label_ok(r.label@) {
        Some(VaultError::InvalidLabel)
    } else if r.fields@.len() > MAX_FIELDS_PER_RECORD {
        Some(VaultError::TooManyFields)
    } else {
        fields_error(r.fields@, r.fields@.len() as int)
    }
}

/// The first problem among the first `n` records, in order.
pub open spec fn records_error(records: Seq<Record>, n: int) -> Option<VaultError>
    decreases n,
{
    if n <= 0 {
        None
    } else {
        match records_error(records, n - 1) {
            Some(e) => Some(e),
            None => record_error(records, n - 1),
        }
    }
}

/// Once the first `m` records hold a problem, every longer prefix reports that same problem.
pub proof fn lemma_records_error_stable(records: Seq<Record>, m: int, n: int)
    requires
        0 <= m <= n,
        records_error(records, m) is Some,
    ensures
        records_error(records, n) == records_error(records, m),
    decreases n - m,
{
    if m < n {
        lemma_records_error_stable(records, m, n - 1);
    }
}

/// The problem that [`Vault::validate`] reports for these records, if any.
pub open spec fn vault_error(records: Seq<Record>) -> Option<VaultError> {
    if records.len() > MAX_RECORDS {
        Some(VaultError::TooManyRecords)
    } else {
        records_error(records, records.len() as int)
    }
}

/// Records that [`Vault::validate`] accepts.
pub open spec fn valid_records(records: Seq<Record>) -> bool {
    vault_error(records) is None
}

/// Every record of a valid list stays within the field limit.
pub proof fn lemma_valid_record_fields(records: Seq<Record>, i: int)
    requires
        valid_records(records),
        0 <= i < records.len(),
    ensures
        records[i].fields@.len() <= MAX_FIELDS_PER_RECORD,
{
    if records_error(records, i + 1) is Some {
        lemma_records_error_stable(records, i + 1, records.len() as int);
    }
}

/// Record lists that hold the same records meet the same first problem.
pub proof fn lemma_same_records_error(a: Seq<Record>, b: Seq<Record>, n: int)
    requires
        same_records(a, b),
        0 <= n <= a.len(),
    ensures
        records_error(a, n) == records_error(b, n),
    decreases n,
{
    if n > 0 {
        lemma_same_records_error(a, b, n - 1);
        let i = n - 1;
        assert(same_record(a[i], b[i]));
        if exists|j: int| 0 <= j < i && #[trigger] a[j].id@ == a[i].id@ {
            let j = choose|j: int| 0 <= j < i && #[trigger] a[j].id@ == a[i].id@;
            assert(same_record(a[j], b[j]));
            assert(b[j].id@ == b[i].id@);
        }
        if exists|j: int| 0 <= j < i && #[trigger] b[j].id@ == b[i].id@ {
            let j = choose|j: int| 0 <= j < i && #[trigger] b[j].id@ == b[i].id@;
            assert(same_record(a[j], b[j]));
            assert(a[j].id@ == a[i].id@);
        }
    }
}

/// Record lists that hold the same records validate alike.
pub proof fn lemma_same_records_validation(a: Seq<Record>, b: Seq<Record>)
    requires
        same_records(a, b),
    ensures
        vault_error(a) == vault_error(b),
        validation_result(a) == validation_result(b),
{
    lemma_same_records_error(a, b, a.len() as int);
}

/// The result that validation of these records gives.
pub open spec fn validation_result(records: Seq<Record>) -> Result<(), VaultError> {
    match vault_error(records) {
        None => Ok(()),
        Some(e) => Err(e),
    }
}

fn check_fields(fields: &Vec<Field>) -> (r: Result<(), VaultError>)
    ensures
        r == (match fields_error(fields@, fields@.len() as int) {
            None => Ok::<(), VaultError>(()),
            Some(e) => Err(e),
        }),
{
    let mut i: usize = 0;
    while i < fields.len()
        invariant
            i <= fields@.len(),
            fields_error(fields@, i as int) is None,
        decreases fields.len() - i,
    {
        let f = &fields[i];
        if !text_within(f.name.as_str(), MAX_FIELD_NAME_LEN) {
            proof {
                lemma_fields_error_stable(fields@, i + 1, fields@.len() as int);
            }
            return Err(VaultError::InvalidFieldName);
        }
        if byte_len(f.value.as_str()) > MAX_FIELD_VALUE_LEN {
            proof {
                lemma_fields_error_stable(fields@, i + 1, fields@.len() as int);
            }
            return Err(VaultError::FieldValueTooLong);
        }
        i += 1;
    }
    Ok(())
}

impl Default for Vault {
    /// An empty vault.
    fn default() -> (v: Vault)
        ensures
            v.records@.len() == 0,
    {
        Vault { records: Vec::new() }
    }
}

impl Vault {
    /// Checks every limit and identifier; reports the first problem in record order.
    pub fn validate(&self) -> (r: Result<(), VaultError>)
        ensures
            r == validation_result(self.records@),
    {
        if self.records.len() > MAX_RECORDS {
            return Err(VaultError::TooManyRecords);
        }
        let mut ids: HashSet<u128> = HashSet::new();
        let mut i: usize = 0;
        while i < self.records.len()
            invariant
                i <= self.records@.len() <= MAX_RECORDS,
                records_error(self.records@, i as int) is None,
                forall|k: u128|
                    ids@.contains(k) <==> exists|j: int|
                        0 <= j < i && #[trigger] hex_value(self.records@[j].id@) == k,
                forall|j: int| 0 <= j < i ==> valid_id(#[trigger] self.records@[j].id@),
            decreases self.records.len() - i,
        {
            let record = &self.records[i];
            let ghost recs = self.records@;
            if !is_valid_id(&record.id) {
                proof {
                    lemma_records_error_stable(recs, i + 1, recs.len() as int);
                }
                return Err(VaultError::InvalidIdentifier);
            }
            let value = id_value(&record.id);
            proof {
                lemma_hex_value_bounds(record.id@);
            }
            let fresh = ids.insert(value);
            if !fresh {
                proof {
                    let j = choose|j: int| 0 <= j < i && #[trigger] hex_value(recs[j].id@) == value;
                    lemma_hex_value_injective(recs[j].id@, record.id@);
                    assert(recs[j].id@ == recs[i as int].id@);
                    assert(record_error(recs, i as int) == Some(VaultError::DuplicateIdentifier));
                    lemma_records_error_stable(recs, i + 1, recs.len() as int);
                }
                return Err(VaultError::DuplicateIdentifier);
            }
            proof {
                assert forall|j: int| 0 <= j < i implies #[trigger] recs[j].id@ != recs[i as int].id@ by {
                    if recs[j].id@ == recs[i as int].id@ {
                        assert(hex_value(recs[j].id@) == value);
                        assert(!fresh);
                    }
                }
            }
            if !text_within(record.label.as_str(), MAX_LABEL_LEN) {
                proof {
                    lemma_records_error_stable(recs, i + 1, recs.len() as int);
                }
                return Err(VaultError::InvalidLabel);
            }
            if record.fields.len() > MAX_FIELDS_PER_RECORD {
                proof {
                    lemma_records_error_stable(recs, i + 1, recs.len() as int);
                }
                return Err(VaultError::TooManyFields);
            }
            let checked = check_fields(&record.fields);
            if checked.is_err() {
                proof {
                    lemma_records_error_stable(recs, i + 1, recs.len() as int);
                }
                return checked;
            }
            i += 1;
            proof {
                assert forall|k: u128|
                    ids@.contains(k) <==> exists|j: int|
                        0 <= j < i && #[trigger] hex_value(recs[j].id@) == k by {
                    if ids@.contains(k) && k != value {
                        let j = choose|j: int| 0 <= j < i - 1 && #[trigger] hex_value(recs[j].id@) == k;
                        assert(0 <= j < i);
                    }
                    if k == value {
                        assert(hex_value(recs[i - 1].id@) == k);
                    }
                }
            }
        }
        Ok(())
    }

    /// A copy holding equal records.
    pub fn duplicate(&self) -> (v: Vault)
        ensures
            same_records(v.records@, self.records@),
    {
        let mut records: Vec<Record> = Vec::new();
        let mut i: usize = 0;
        while i < self.records.len()
            invariant
                i <= self.records@.len(),
                records@.len() == i,
                forall|j: int| 0 <= j < i ==> #[trigger] same_record(records@[j], self.records@[j]),
            decreases self.records.len() - i,
        {
            records.push(self.records[i].duplicate());
            i += 1;
        }
        Vault { records }
    }

    /// Empties the vault, wiping every owned string first.
    pub fn zeroize(&mut self)
        ensures
            final(self).records@.len() == 0,
    {
        while self.records.len() > 0
            invariant_except_break
                true,
            ensures
                self.records@.len() == 0,
            decreases self.records.len(),
        {
            let mut record = self.records.pop().unwrap();
            record.zeroize();
        }
    }
}

/// Whether `id` is 32 lowercase hexadecimal digits.
pub fn is_valid_id(id: &String) -> (b: bool)
    ensures
        b == valid_id(id@),
{
    let chars = chars_of(id.as_str());
    if chars.len() != 32 {
        return false;
    }
    let mut i: usize = 0;
    while i < 32
        invariant
            chars@ == id@,
            chars@.len() == 32,
            i <= 32,
            forall|j: int| 0 <= j < i ==> #[trigger] is_hex_digit(chars@[j]),
        decreases 32 - i,
    {
        let v = chars[i] as u32;
        if !((0x30 <= v && v <= 0x39) || (0x61 <= v && v <= 0x66)) {
            assert(!is_hex_digit(id@[i as int]));
            return false;
        }
        i += 1;
    }
    true
}

// ---------------------------------------------------------------------------
// Wiping
// ---------------------------------------------------------------------------

/// Overwrites a string's bytes with zeros and empties it (`zeroize::Zeroize` for `String`).
#[verifier::external_body]
pub(crate) fn wipe_string(s: &mut String)
    ensures
        final(s)@ == Seq::<char>::empty(),
{
    zeroize::Zeroize::zeroize(s);
}

impl Field {
    /// Wipes the name and value.
    pub fn zeroize(&mut self)
        ensures
            final(self).name@.len() == 0,
            final(self).value@.len() == 0,
            final(self).kind == old(self).kind,
            final(self).secret == old(self).secret,
    {
        wipe_string(&mut self.name);
        wipe_string(&mut self.value);
    }
}

impl Record {
    /// Wipes the identifier, label and every field, leaving no fields.
    pub fn zeroize(&mut self)
        ensures
            final(self).id@.len() == 0,
            final(self).label@.len() == 0,
            final(self).fields@.len() == 0,
    {
        wipe_string(&mut self.id);
        wipe_string(&mut self.label);
        while self.fields.len() > 0
            invariant_except_break
                self.id@.len() == 0,
                self.label@.len() == 0,
            ensures
                self.id@.len() == 0,
                self.label@.len() == 0,
                self.fields@.len() == 0,
            decreases self.fields.len(),
        {
            let mut field = self.fields.pop().unwrap();
            field.zeroize();
        }
    }
}

// ---------------------------------------------------------------------------
// Templates
// ---------------------------------------------------------------------------

/// Starting points for new records.
#[derive(Clone, Copy, PartialEq, Eq, Structural, Debug)]
pub enum Template {
    Login,
    Email,
    Bitcoin,
    SecureNote,
    Blank,
}

/// Display name of each template.
pub open spec fn template_label(t: Template) -> Seq<char> {
    match t {
        Template::Login => "Login"@,
        Template::Email => "Email"@,
        Template::Bitcoin => "Bitcoin Address"@,
        Template::SecureNote => "Secure Note"@,
        Template::Blank => "Blank"@,
    }
}

/// Label of the record a template makes.
pub open spec fn template_record_label(t: Template) -> Seq<char> {
    match t {
        Template::Blank => "Untitled"@,
        _ => template_label(t),
    }
}

/// Number of fields a template starts with.
pub open spec fn template_len(t: Template) -> nat {
    match t {
        Template::SecureNote => 1,
        Template::Blank => 0,
        _ => 3,
    }
}

/// Name and kind of field `i` of a template.
pub open spec fn template_field(t: Template, i: int) -> (Seq<char>, FieldKind) {
    match t {
        Template::Login => if i == 0 {
            ("Username"@, FieldKind::Username)
        } else if i == 1 {
            ("Password"@, FieldKind::Password)
        } else {
            ("Website"@, FieldKind::Text)
        },
        Template::Email => if i == 0 {
            ("Email"@, FieldKind::Email)
        } else if i == 1 {
            ("Password"@, FieldKind::Password)
        } else {
            ("Notes"@, FieldKind::Multiline)
        },
        Template::Bitcoin => if i == 0 {
            ("Address"@, FieldKind::Address)
        } else if i == 1 {
            ("Network"@, FieldKind::Text)
        } else {
            ("Notes"@, FieldKind::Multiline)
        },
        _ => ("Note"@, FieldKind::Multiline),
    }
}

/// The fields that a template's record starts with: named and typed as the
/// template says, empty, secret when a password or a secure note.
pub open spec fn template_fields_match(t: Template, fields: Seq<Field>) -> bool {
    &&& fields.len() == template_len(t)
    &&& forall|i: int|
        0 <= i < fields.len() ==> {
            &&& (#[trigger] fields[i]).name@ == template_field(t, i).0
            &&& fields[i].kind == template_field(t, i).1
            &&& fields[i].value@.len() == 0
            &&& fields[i].secret == (fields[i].kind == FieldKind::Password || t
                == Template::SecureNote)
        }
}

impl Template {
    pub const ALL: [Template; 5] = [
        Template::Login,
        Template::Email,
        Template::Bitcoin,
        Template::SecureNote,
        Template::Blank,
    ];

    pub fn label(self) -> (s: &'static str)
        ensures
            s@ == template_label(self),
    {
        match self {
            Template::Login => "Login",
            Template::Email => "Email",
            Template::Bitcoin => "Bitcoin Address",
            Template::SecureNote => "Secure Note",
            Template::Blank => "Blank",
        }
    }

    /// A fresh record shaped by this template.
    pub fn make_record(self) -> (r: Result<Record, VaultError>)
        ensures
            r is Ok || r == Err::<Record, VaultError>(VaultError::RandomnessUnavailable),
            r matches Ok(rec) ==> {
                &&& rec.label@ == template_record_label(self)
                &&& valid_id(rec.id@)
                &&& template_fields_match(self, rec.fields@)
            },
    {
        let label = match self {
            Template::Blank => "Untitled",
            _ => self.label(),
        };
        proof {
            template_labels_ok(self);
        }
        let mut record = match Record::new(label) {
            Ok(record) => record,
            Err(e) => return Err(e),
        };
        let mut fields: Vec<Field> = Vec::new();
        match self {
            Template::Login => {
                fields.push(Field::new("Username", FieldKind::Username));
                fields.push(Field::new("Password", FieldKind::Password));
                fields.push(Field::new("Website", FieldKind::Text));
            },
            Template::Email => {
                fields.push(Field::new("Email", FieldKind::Email));
                fields.push(Field::new("Password", FieldKind::Password));
                fields.push(Field::new("Notes", FieldKind::Multiline));
            },
            Template::Bitcoin => {
                fields.push(Field::new("Address", FieldKind::Address));
                fields.push(Field::new("Network", FieldKind::Text));
                fields.push(Field::new("Notes", FieldKind::Multiline));
            },
            Template::SecureNote => {
                let mut field = Field::new("Note", FieldKind::Multiline);
                field.secret = true;
                fields.push(field);
            },
            Template::Blank => {},
        }
        record.fields = fields;
        Ok(record)
    }
}

/// The template at a position of [`Template::ALL`].
pub open spec fn template_at(i: int) -> Template {
    if i == 0 {
        Template::Login
    } else if i == 1 {
        Template::Email
    } else if i == 2 {
        Template::Bitcoin
    } else if i == 3 {
        Template::SecureNote
    } else {
        Template::Blank
    }
}

impl Template {
    /// The template at position `i < 5` of [`Template::ALL`].
    pub fn at(i: usize) -> (t: Template)
        requires
            i < 5,
        ensures
            t == template_at(i as int),
    {
        if i == 0 {
            Template::Login
        } else if i == 1 {
            Template::Email
        } else if i == 2 {
            Template::Bitcoin
        } else if i == 3 {
            Template::SecureNote
        } else {
            Template::Blank
        }
    }
}

proof fn template_labels_ok(t: Template)
    ensures
        label_ok(template_record_label(t)),
{
    reveal_strlit("Login");
    reveal_strlit("Email");
    reveal_strlit("Bitcoin Address");
    reveal_strlit("Secure Note");
    reveal_strlit("Untitled");
    let s = template_record_label(t);
    crate::text::lemma_utf8_len_ge_len(s);
    assert(!is_white_space(s[0]));
}

/// Every record a template makes is a valid vault on its own.
pub proof fn lemma_template_record_valid(t: Template, r: Record)
    requires
        r.label@ == template_record_label(t),
        valid_id(r.id@),
        template_fields_match(t, r.fields@),
    ensures
        valid_records(seq![r]),
{
    template_labels_ok(t);
    reveal_strlit("Username");
    reveal_strlit("Password");
    reveal_strlit("Website");
    reveal_strlit("Email");
    reveal_strlit("Notes");
    reveal_strlit("Address");
    reveal_strlit("Network");
    reveal_strlit("Note");
    let fields = r.fields@;
    assert forall|k: int| 0 <= k <= fields.len() implies fields_error(fields, k) is None by {
        lemma_fields_prefix_ok(t, fields, k);
    }
    let recs = seq![r];
    assert(records_error(recs, 0) is None);
    assert(recs[0] == r);
    assert(record_error(recs, 0) is None);
}

/// Every field a template names "Password" holds a password and starts
/// secret, and the Login and Email templates each start with one; no field
/// of any other kind starts secret, except in a secure note.
pub proof fn lemma_template_passwords_secret(t: Template, fields: Seq<Field>)
    requires
        template_fields_match(t, fields),
    ensures
        forall|i: int|
            0 <= i < fields.len() && (#[trigger] fields[i]).name@ == "Password"@ ==> fields[i].kind
                == FieldKind::Password && fields[i].secret,
        t == Template::Login || t == Template::Email ==> exists|i: int|
            0 <= i < fields.len() && (#[trigger] fields[i]).name@ == "Password"@ && fields[i].kind
                == FieldKind::Password && fields[i].secret,
        forall|i: int|
            0 <= i < fields.len() && (#[trigger] fields[i]).secret ==> fields[i].kind
                == FieldKind::Password || t == Template::SecureNote,
{
    reveal_strlit("Username");
    reveal_strlit("Password");
    reveal_strlit("Website");
    reveal_strlit("Email");
    reveal_strlit("Notes");
    reveal_strlit("Address");
    reveal_strlit("Network");
    reveal_strlit("Note");
    assert forall|i: int|
        0 <= i < fields.len() && (#[trigger] fields[i]).name@ == "Password"@ implies fields[i].kind
            == FieldKind::Password && fields[i].secret by {
        let name = template_field(t, i).0;
        assert(fields[i].name@ == name);
        assert("Password"@[0] == 'P');
        if template_field(t, i).1 != FieldKind::Password {
            assert(name[0] != 'P');
        }
    }
    if t == Template::Login || t == Template::Email {
        assert(fields[1].name@ == "Password"@);
    }
}

proof fn lemma_fields_prefix_ok(t: Template, fields: Seq<Field>, k: int)
    requires
        template_fields_match(t, fields),
        0 <= k <= fields.len(),
    ensures
        fields_error(fields, k) is None,
    decreases k,
{
    reveal_strlit("Username");
    reveal_strlit("Password");
    reveal_strlit("Website");
    reveal_strlit("Email");
    reveal_strlit("Notes");
    reveal_strlit("Address");
    reveal_strlit("Network");
    reveal_strlit("Note");
    if k > 0 {
        lemma_fields_prefix_ok(t, fields, k - 1);
        let f = fields[k - 1];
        let name = f.name@;
        crate::text::lemma_utf8_len_ge_len(name);
        crate::text::lemma_utf8_len_ge_len(f.value@);
        assert(!is_white_space(name[0]));
        assert(!is_blank(name));
    }
}

// ---------------------------------------------------------------------------
// Password generation
// ---------------------------------------------------------------------------

/// Number of characters a generated password may use.
pub const ALPHABET_LEN: u8 = 85;

/// Random bytes below this are accepted; larger ones would bias the choice.
pub const ACCEPT_BELOW: u8 = 255;

/// Rounds of 128 random bytes tried before giving up on the operating system.
pub const MAX_SAMPLE_ROUNDS: usize = 1024;

/// Code point of each punctuation character of the alphabet, in order.
pub open spec fn punctuation(i: int) -> u32 {
    if i == 0 { 0x21 } else if i == 1 { 0x40 } else if i == 2 { 0x23 } else if i == 3 { 0x24 }
    else if i == 4 { 0x25 } else if i == 5 { 0x5E } else if i == 6 { 0x26 } else if i == 7 { 0x2A }
    else if i == 8 { 0x28 } else if i == 9 { 0x29 } else if i == 10 { 0x2D } else if i == 11 { 0x5F }
    else if i == 12 { 0x3D } else if i == 13 { 0x2B } else if i == 14 { 0x5B } else if i == 15 { 0x5D }
    else if i == 16 { 0x7B } else if i == 17 { 0x7D } else if i == 18 { 0x3B } else if i == 19 { 0x3A }
    else if i == 20 { 0x2C } else if i == 21 { 0x2E } else { 0x3F }
}

/// The `i`-th character of `A–Z a–z 0–9 !@#$%^&*()-_=+[]{};:,.?`.
pub open spec fn alphabet_char(i: int) -> char {
    if i < 26 {
        (0x41 + i) as char
    } else if i < 52 {
        (0x61 + i - 26) as char
    } else if i < 62 {
        (0x30 + i - 52) as char
    } else {
        punctuation(i - 62) as char
    }
}

/// A character a generated password may contain.
pub open spec fn in_alphabet(c: char) -> bool {
    exists|i: int| 0 <= i < ALPHABET_LEN && alphabet_char(i) == c
}

/// Characters chosen by a block of random bytes: each byte below
/// [`ACCEPT_BELOW`] picks `alphabet[byte % 85]`; the others are skipped.
pub open spec fn sampled(block: Seq<u8>) -> Seq<char>
    decreases block.len(),
{
    if block.len() == 0 {
        Seq::empty()
    } else if block.last() < ACCEPT_BELOW {
        sampled(block.drop_last()).push(alphabet_char((block.last() % ALPHABET_LEN) as int))
    } else {
        sampled(block.drop_last())
    }
}

proof fn lemma_sampled_prefix(block: Seq<u8>, i: int)
    requires
        0 <= i <= block.len(),
    ensures
        sampled(block.take(i)).len() <= sampled(block).len(),
        sampled(block).take(sampled(block.take(i)).len() as int) =~= sampled(block.take(i)),
    decreases block.len() - i,
{
    if i < block.len() {
        lemma_sampled_prefix(block, i + 1);
        assert(block.take(i + 1).drop_last() =~= block.take(i));
        let a = sampled(block.take(i));
        let b = sampled(block.take(i + 1));
        assert(b.take(a.len() as int) =~= a);
        let full = sampled(block);
        assert(full.take(b.len() as int).take(a.len() as int) =~= full.take(a.len() as int));
    } else {
        assert(block.take(i) =~= block);
    }
}

proof fn lemma_sampled_in_alphabet(block: Seq<u8>)
    ensures
        forall|k: int| 0 <= k < sampled(block).len() ==> in_alphabet(#[trigger] sampled(block)[k]),
    decreases block.len(),
{
    if block.len() > 0 {
        lemma_sampled_in_alphabet(block.drop_last());
        let p = sampled(block.drop_last());
        if block.last() < ACCEPT_BELOW {
            let j = (block.last() % ALPHABET_LEN) as int;
            assert(in_alphabet(alphabet_char(j)));
            assert forall|k: int| 0 <= k < sampled(block).len() implies in_alphabet(
                #[trigger] sampled(block)[k],
            ) by {
                if k < p.len() {
                    assert(sampled(block)[k] == p[k]);
                }
            }
        }
    }
}

/// Alphabet characters are printable ASCII (graphic, not space).
pub proof fn lemma_alphabet_is_ascii_graphic(c: char)
    requires
        in_alphabet(c),
    ensures
        0x21 <= (c as u32) <= 0x7E,
{
    let i = choose|i: int| 0 <= i < ALPHABET_LEN && alphabet_char(i) == c;
    if i >= 62 {
        assert(0x21 <= punctuation(i - 62) <= 0x7E);
    }
}

/// The alphabet character at position `i`.
fn alphabet_at(i: u8) -> (c: char)
    requires
        i < ALPHABET_LEN,
    ensures
        c == alphabet_char(i as int),
{
    if i < 26 {
        (0x41 + i) as char
    } else if i < 52 {
        (0x61 + i - 26) as char
    } else if i < 62 {
        (0x30 + i - 52) as char
    } else {
        let code: u8 = match i - 62 {
            0 => 0x21, 1 => 0x40, 2 => 0x23, 3 => 0x24, 4 => 0x25, 5 => 0x5E, 6 => 0x26,
            7 => 0x2A, 8 => 0x28, 9 => 0x29, 10 => 0x2D, 11 => 0x5F, 12 => 0x3D, 13 => 0x2B,
            14 => 0x5B, 15 => 0x5D, 16 => 0x7B, 17 => 0x7D, 18 => 0x3B, 19 => 0x3A,
            20 => 0x2C, 21 => 0x2E, _ => 0x3F,
        };
        code as char
    }
}

/// Appends to `out` the characters that `block` picks, at most `wanted` of
/// them. Returns how many were appended.
pub fn append_sampled(out: &mut String, block: &[u8], wanted: usize) -> (added: usize)
    ensures
        added == vstd::math::min(sampled(block@).len() as int, wanted as int),
        final(out)@ == old(out)@ + sampled(block@).take(added as int),
{
    let ghost start = out@;
    let mut added: usize = 0;
    let mut i: usize = 0;
    while i < block.len()
        invariant_except_break
            i <= block@.len(),
            out@ == start + sampled(block@.take(i as int)),
            added == sampled(block@.take(i as int)).len(),
            added <= wanted,
        ensures
            out@ == start + sampled(block@.take(i as int)),
            added == sampled(block@.take(i as int)).len(),
            i <= block@.len(),
            added == wanted || i == block@.len(),
            added <= wanted,
        decreases block.len() - i,
    {
        if added == wanted {
            break;
        }
        let b = block[i];
        proof {
            assert(block@.take(i + 1).drop_last() =~= block@.take(i as int));
            assert(block@.take(i + 1).last() == b);
        }
        if b < ACCEPT_BELOW {
            push_char(out, alphabet_at(b % ALPHABET_LEN));
            added += 1;
        }
        i += 1;
        proof {
            assert(out@ =~= start + sampled(block@.take(i as int)));
        }
        if added == wanted {
            break;
        }
    }
    proof {
        lemma_sampled_prefix(block@, i as int);
        if i == block@.len() {
            assert(block@.take(i as int) =~= block@);
        }
        assert(sampled(block@).take(added as int) =~= sampled(block@.take(i as int)));
    }
    added
}

/// A random password of `length` characters from the 85-character alphabet,
/// drawn uniformly by rejection sampling of operating-system random bytes.
/// Sampling gives up with `RandomnessUnavailable` after `MAX_SAMPLE_ROUNDS`
/// blocks of 128 bytes; this bound is a choice of this library, so that the
/// loop provably ends (each block yields about 85 characters on average, so
/// the bound is never reached with working randomness).
pub fn generate_password(length: usize) -> (r: Result<String, VaultError>)
    ensures
        !(MIN_PASSWORD_LENGTH <= length <= MAX_PASSWORD_LENGTH) ==> r == Err::<String, VaultError>(
            VaultError::InvalidPasswordLength,
        ),
        MIN_PASSWORD_LENGTH <= length <= MAX_PASSWORD_LENGTH ==> (r is Ok || r == Err::<
            String,
            VaultError,
        >(VaultError::RandomnessUnavailable)),
        r matches Ok(p) ==> p@.len() == length && forall|k: int|
            0 <= k < p@.len() ==> in_alphabet(#[trigger] p@[k]),
{
    if length < MIN_PASSWORD_LENGTH || length > MAX_PASSWORD_LENGTH {
        return Err(VaultError::InvalidPasswordLength);
    }
    let mut result = String::new();
    let mut count: usize = 0;
    let mut round: usize = 0;
    while count < length
        invariant
            result@.len() == count <= length,
            MIN_PASSWORD_LENGTH <= length <= MAX_PASSWORD_LENGTH,
            round <= MAX_SAMPLE_ROUNDS,
            forall|k: int| 0 <= k < result@.len() ==> in_alphabet(#[trigger] result@[k]),
        decreases MAX_SAMPLE_ROUNDS - round,
    {
        if round == MAX_SAMPLE_ROUNDS {
            return Err(VaultError::RandomnessUnavailable);
        }
        round += 1;
        let block = match random_bytes(128) {
            Some(block) => block,
            None => return Err(VaultError::RandomnessUnavailable),
        };
        let ghost before = result@;
        let added = append_sampled(&mut result, &block, length - count);
        proof {
            lemma_sampled_in_alphabet(block@);
            assert forall|k: int| 0 <= k < result@.len() implies in_alphabet(#[trigger] result@[k]) by {
                if k >= before.len() {
                    assert(result@[k] == sampled(block@)[k - before.len()]);
                }
            }
        }
        count = count + added;
    }
    Ok(result)
}

} // verus!
