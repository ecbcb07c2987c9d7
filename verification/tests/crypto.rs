use serde_json::Value;
use simplecrypt::crypto::{
    encode_header, BoundedWriter, ParsedHeader, Session, HEADER_SIZE, MAX_CIPHERTEXT_SIZE,
    MAX_FILE_SIZE, TAG_SIZE,
};
use simplecrypt::error::VaultError;
use simplecrypt::model::{Field, FieldKind, Record, Vault, MAX_FIELD_VALUE_LEN};

const MASTER: &str = "synthetic master password";
const AUTH_ERROR: &str = "Wrong password or damaged vault.";

fn field_json(field: &Field) -> Value {
    let mut m = serde_json::Map::new();
    m.insert("name".to_string(), Value::String(field.name.clone()));
    m.insert("value".to_string(), Value::String(field.value.clone()));
    m.insert("kind".to_string(), Value::String(field.kind.label().to_string()));
    m.insert("secret".to_string(), Value::Bool(field.secret));
    Value::Object(m)
}

fn record_json(record: &Record) -> Value {
    let mut m = serde_json::Map::new();
    m.insert("id".to_string(), Value::String(record.id.clone()));
    m.insert("label".to_string(), Value::String(record.label.clone()));
    m.insert(
        "fields".to_string(),
        Value::Array(record.fields.iter().map(field_json).collect()),
    );
    Value::Object(m)
}

fn encode(vault: &Vault) -> Vec<u8> {
    let mut m = serde_json::Map::new();
    m.insert(
        "records".to_string(),
        Value::Array(vault.records.iter().map(record_json).collect()),
    );
    serde_json::to_vec(&Value::Object(m)).unwrap()
}

fn exact_keys(m: &serde_json::Map<String, Value>, keys: &[&str]) -> bool {
    m.len() == keys.len() && keys.iter().all(|k| m.contains_key(*k))
}

fn kind_from(name: &str) -> Option<FieldKind> {
    FieldKind::ALL.into_iter().find(|k| k.label() == name)
}

fn decode(bytes: &[u8]) -> Option<Vault> {
    let value: Value = serde_json::from_slice(bytes).ok()?;
    let top = value.as_object()?;
    if !exact_keys(top, &["records"]) {
        return None;
    }
    let mut records = Vec::new();
    for r in top.get("records")?.as_array()? {
        let r = r.as_object()?;
        if !exact_keys(r, &["id", "label", "fields"]) {
            return None;
        }
        let mut fields = Vec::new();
        for f in r.get("fields")?.as_array()? {
            let f = f.as_object()?;
            if !exact_keys(f, &["name", "value", "kind", "secret"]) {
                return None;
            }
            fields.push(Field {
                name: f.get("name")?.as_str()?.to_string(),
                value: f.get("value")?.as_str()?.to_string(),
                kind: kind_from(f.get("kind")?.as_str()?)?,
                secret: f.get("secret")?.as_bool()?,
            });
        }
        records.push(Record {
            id: r.get("id")?.as_str()?.to_string(),
            label: r.get("label")?.as_str()?.to_string(),
            fields,
        });
    }
    Some(Vault { records })
}

fn fixture() -> Session {
    let mut session = Session::create(MASTER).unwrap();
    let mut record = Record::new("sentinel-private-label-秘密").unwrap();
    for kind in FieldKind::ALL {
        let mut field = Field::new(kind.label(), kind);
        field.value = "sentinel-private-value-秘密\n\u{1b}[31m".to_owned();
        record.fields.push(field);
    }
    session.data.records.push(record);
    session
}

fn seal_current(session: &Session) -> Vec<u8> {
    let payload = encode(&session.data);
    session.seal(&session.data, &payload).unwrap()
}

fn open(bytes: &[u8], master: &str) -> Result<Session, VaultError> {
    let unsealed = Session::unlock(bytes, master)?;
    let parsed = decode(unsealed.plaintext());
    unsealed.into_session(parsed)
}

#[test]
fn round_trip_all_field_types_and_no_plaintext() {
    let session = fixture();
    let bytes = seal_current(&session);
    for sentinel in [
        b"sentinel-private-label".as_slice(),
        b"sentinel-private-value".as_slice(),
    ] {
        assert!(!bytes.windows(sentinel.len()).any(|w| w == sentinel));
    }
    let opened = open(&bytes, MASTER).unwrap();
    let expected = encode(&session.data);
    let restored = encode(&opened.data);
    assert!(expected.as_slice() == restored.as_slice());
}

/// Unlocks `bytes` with one byte flipped at each offset and expects the
/// authentication error every time.
fn assert_tampering_fails(bytes: &[u8], offsets: &[usize]) {
    for &offset in offsets {
        let mut modified = bytes.to_vec();
        modified[offset] ^= 1;
        let error = open(&modified, MASTER).err().unwrap();
        assert_eq!(error.message(), AUTH_ERROR);
    }
}

// Every unlock runs a full 64 MiB Argon2id derivation, so the tampered
// offsets (salt 28, nonce 44, first ciphertext byte, last byte) are spread
// over three tests to keep each one short.
#[test]
fn wrong_password_and_tampering_fail_authentication() {
    let session = fixture();
    let bytes = seal_current(&session);
    let error = open(&bytes, "wrong").err().unwrap();
    assert_eq!(error.message(), AUTH_ERROR);
    assert_tampering_fails(&bytes, &[28]);
}

#[test]
fn tampered_nonce_and_ciphertext_fail_authentication() {
    let session = fixture();
    let bytes = seal_current(&session);
    assert_tampering_fails(&bytes, &[44, HEADER_SIZE]);
}

#[test]
fn tampered_last_byte_fails_authentication() {
    let session = fixture();
    let bytes = seal_current(&session);
    assert_tampering_fails(&bytes, &[bytes.len() - 1]);
}

#[test]
fn repeated_saves_use_fresh_nonces_and_same_profile() {
    let session = fixture();
    let a = seal_current(&session);
    let b = seal_current(&session);
    assert_ne!(&a[44..68], &b[44..68]);
    assert_eq!(&a[12..44], &b[12..44]);
    assert_ne!(&a[HEADER_SIZE..], &b[HEADER_SIZE..]);
    assert_eq!(&a[16..20], &65536_u32.to_le_bytes());
    assert_eq!(&a[20..24], &3_u32.to_le_bytes());
    assert_eq!(&a[24..28], &4_u32.to_le_bytes());
}

#[test]
fn bounded_parser_rejects_invalid_headers_without_kdf() {
    let header = encode_header(&[0; 16], &[0; 24], TAG_SIZE);
    let mut bytes = header.to_vec();
    bytes.extend_from_slice(&[0; TAG_SIZE]);
    assert!(ParsedHeader::parse(&bytes).is_ok());
    for offset in [0, 8, 10, 11, 12, 16, 20, 24, 76] {
        let mut changed = bytes.clone();
        changed[offset] ^= 0xff;
        assert!(ParsedHeader::parse(&changed).is_err());
    }
    for length in [0, 15, MAX_CIPHERTEXT_SIZE as u64 + 1, u64::MAX] {
        let mut changed = bytes.clone();
        changed[68..76].copy_from_slice(&length.to_le_bytes());
        assert!(ParsedHeader::parse(&changed).is_err());
    }
    for length in 0..bytes.len() {
        assert!(ParsedHeader::parse(&bytes[..length]).is_err());
    }
    bytes.push(0);
    assert!(ParsedHeader::parse(&bytes).is_err());
    assert!(ParsedHeader::parse(&vec![0; MAX_FILE_SIZE + 1]).is_err());
}

/// Seals each payload with the session's key and expects unlocking to refuse
/// it with the generic message.
fn assert_payloads_refused(session: &Session, payloads: &[&[u8]]) {
    for payload in payloads {
        let bytes = session.encrypt_payload(payload).unwrap();
        let error = open(&bytes, MASTER).err().unwrap();
        assert_eq!(error.message(), "Authenticated vault payload is invalid.");
    }
}

// As above, each unlock costs a full key derivation: the non-JSON payload is
// checked in the next test.
#[test]
fn authenticated_invalid_payloads_are_rejected_without_leaking_data() {
    let session = fixture();
    assert_payloads_refused(
        &session,
        &[
            br#"{"records":[],"secret-error-sentinel":true}"#.as_slice(),
            br#"{"records":[{"id":"bad","label":"secret-error-sentinel","fields":[]}]}"#.as_slice(),
        ],
    );
}

#[test]
fn authenticated_non_json_payload_is_rejected_without_leaking_data() {
    let session = fixture();
    assert_payloads_refused(&session, &[b"secret-error-sentinel".as_slice()]);
}

#[test]
fn seal_validates_and_bounds_serialization() {
    let mut session = fixture();
    session.data.records[0].fields[0].value = "x".repeat(MAX_FIELD_VALUE_LEN + 1);
    let payload = encode(&session.data);
    assert!(session.seal(&session.data, &payload).is_err());
    let mut writer = BoundedWriter {
        buffer: Vec::new(),
        limit: 3,
    };
    assert!(writer.write(b"abc"));
    assert!(!writer.write(b"d"));
    assert_eq!(writer.buffer.len(), 3);
    assert!(Session::create("").is_err());
}

#[test]
fn header_layout_is_exact() {
    let header = encode_header(&[7; 16], &[9; 24], 300);
    assert_eq!(header.len(), HEADER_SIZE);
    assert_eq!(&header[..8], b"SCVAULT\0");
    assert_eq!(&header[8..10], &1_u16.to_le_bytes());
    assert_eq!(header[10], 1);
    assert_eq!(header[11], 1);
    assert_eq!(&header[12..16], &0x13_u32.to_le_bytes());
    assert_eq!(&header[28..44], &[7; 16]);
    assert_eq!(&header[44..68], &[9; 24]);
    assert_eq!(&header[68..76], &300_u64.to_le_bytes());
    assert_eq!(&header[76..80], &[0; 4]);
}

#[test]
fn header_errors_name_the_first_problem() {
    let mut bytes = encode_header(&[0; 16], &[0; 24], TAG_SIZE);
    bytes.extend_from_slice(&[0; TAG_SIZE]);
    let short = &bytes[..HEADER_SIZE + TAG_SIZE - 1];
    assert!(matches!(ParsedHeader::parse(short), Err(VaultError::Truncated)));
    let mut magic = bytes.clone();
    magic[0] = b'X';
    assert!(matches!(ParsedHeader::parse(&magic), Err(VaultError::NotAVault)));
    let mut version = bytes.clone();
    version[8] = 2;
    assert!(matches!(ParsedHeader::parse(&version), Err(VaultError::UnsupportedVersion)));
    let mut algorithm = bytes.clone();
    algorithm[11] = 2;
    assert!(matches!(ParsedHeader::parse(&algorithm), Err(VaultError::UnsupportedAlgorithms)));
    let mut profile = bytes.clone();
    profile[20] = 9;
    assert!(matches!(ParsedHeader::parse(&profile), Err(VaultError::UnsupportedProfile)));
    let mut flags = bytes.clone();
    flags[79] = 1;
    assert!(matches!(ParsedHeader::parse(&flags), Err(VaultError::UnsupportedFlags)));
    let mut length = bytes.clone();
    length[68..76].copy_from_slice(&15_u64.to_le_bytes());
    assert!(matches!(
        ParsedHeader::parse(&length),
        Err(VaultError::InvalidCiphertextLength)
    ));
    let mut trailing = bytes.clone();
    trailing.push(0);
    assert!(matches!(ParsedHeader::parse(&trailing), Err(VaultError::LengthMismatch)));
    let huge = vec![0; MAX_FILE_SIZE + 1];
    assert!(matches!(ParsedHeader::parse(&huge), Err(VaultError::FileTooLarge)));
    let parsed = ParsedHeader::parse(&bytes).unwrap();
    assert_eq!(parsed.salt, vec![0; 16]);
    assert_eq!(parsed.nonce, vec![0; 24]);
}

#[test]
fn empty_master_is_refused_and_oversized_payloads_are_reported() {
    assert!(matches!(Session::create(""), Err(VaultError::EmptyMaster)));
    let session = Session::create(MASTER).unwrap();
    let vault = Vault::default();
    let oversized = vec![b' '; MAX_CIPHERTEXT_SIZE - TAG_SIZE + 1];
    assert!(matches!(
        session.seal(&vault, &oversized),
        Err(VaultError::PayloadTooLarge)
    ));
    assert!(matches!(
        session.encrypt_payload(&oversized),
        Err(VaultError::VaultTooLarge)
    ));
    let sealed = session.seal(&vault, b"{\"records\":[]}").unwrap();
    assert_eq!(sealed.len(), HEADER_SIZE + 14 + TAG_SIZE);
    let unsealed = Session::unlock(&sealed, MASTER).unwrap();
    assert_eq!(unsealed.plaintext(), b"{\"records\":[]}");
    assert!(matches!(
        unsealed.into_session(None),
        Err(VaultError::InvalidPayload)
    ));
}

#[test]
fn bounded_writer_fills_to_its_limit() {
    let mut writer = BoundedWriter {
        buffer: b"ab".to_vec(),
        limit: 5,
    };
    assert!(!writer.write(b"cdef"));
    assert_eq!(writer.buffer, b"ab".to_vec());
    assert!(writer.write(b"cde"));
    assert_eq!(writer.buffer, b"abcde".to_vec());
    assert!(writer.write(b""));
    assert!(!writer.write(b"f"));
}

#[test]
fn encryption_under_a_given_nonce_is_exact() {
    let session = fixture();
    let payload = b"{\"records\":[]}";
    let nonce = [5_u8; 24];
    let a = session.encrypt_with_nonce(payload, &nonce).unwrap();
    let b = session.encrypt_with_nonce(payload, &nonce).unwrap();
    assert_eq!(a, b);
    assert_eq!(a.len(), HEADER_SIZE + payload.len() + TAG_SIZE);
    assert_eq!(&a[44..68], &nonce);
    assert_eq!(&a[..HEADER_SIZE], &encode_header(&a[28..44], &nonce, payload.len() + TAG_SIZE)[..]);
    assert!(!a[HEADER_SIZE..].windows(payload.len()).any(|w| w == payload));
    let other = session.encrypt_with_nonce(payload, &[6_u8; 24]).unwrap();
    assert_ne!(&a[HEADER_SIZE..], &other[HEADER_SIZE..]);
    let unsealed = Session::unlock(&a, MASTER).unwrap();
    assert_eq!(unsealed.plaintext(), payload);
    let too_large = vec![0_u8; MAX_CIPHERTEXT_SIZE - TAG_SIZE + 1];
    assert_eq!(
        session.encrypt_with_nonce(&too_large, &nonce).err(),
        Some(VaultError::VaultTooLarge)
    );
}
