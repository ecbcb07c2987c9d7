use simplecrypt::error::VaultError;
use simplecrypt::model::{
    generate_password, hex_encode, is_valid_id, Field, FieldKind, Record, Template, Vault,
    DEFAULT_PASSWORD_LENGTH, MAX_FIELDS_PER_RECORD, MAX_FIELD_VALUE_LEN, MAX_LABEL_LEN,
    MAX_PASSWORD_LENGTH, MAX_RECORDS, MIN_PASSWORD_LENGTH,
};

#[test]
fn templates_and_defaults_are_valid() {
    for template in Template::ALL {
        let record = template.make_record().unwrap();
        assert!(!template.label().is_empty());
        for field in &record.fields {
            if field.kind == FieldKind::Password {
                assert!(field.secret);
            }
        }
        Vault {
            records: vec![record],
        }
        .validate()
        .unwrap();
    }
    for kind in FieldKind::ALL {
        assert!(!kind.label().is_empty());
        let field = Field::new("Custom", kind);
        assert!(field.value.is_empty());
        assert_eq!(field.secret, kind == FieldKind::Password);
    }
}

#[test]
fn identifiers_are_stable_and_labels_may_repeat() {
    let first = Record::new("duplicate").unwrap();
    let second = Record::new("duplicate").unwrap();
    assert_ne!(first.id, second.id);
    let copy = first.duplicate();
    assert_eq!(first.id, copy.id);
    Vault {
        records: vec![first.clone(), second],
    }
    .validate()
    .unwrap();
    assert!(Vault {
        records: vec![first.clone(), first]
    }
    .validate()
    .is_err());
}

#[test]
fn validates_utf8_byte_bounds_and_structure() {
    assert!(Record::new("").is_err());
    assert!(Record::new("  ").is_err());
    assert!(Record::new(&"é".repeat(MAX_LABEL_LEN / 2 + 1)).is_err());
    let mut vault = Vault {
        records: vec![Record::new("Unicode 日本語").unwrap()],
    };
    vault.records[0]
        .fields
        .push(Field::new("note", FieldKind::Multiline));
    vault.records[0].fields[0].value = "\n\u{1b}[31m日本語".to_owned();
    vault.validate().unwrap();
    vault.records[0].fields[0].value = "x".repeat(MAX_FIELD_VALUE_LEN + 1);
    assert!(vault.validate().is_err());
    vault.records[0].fields[0].value.clear();
    vault.records[0].fields[0].name.clear();
    assert!(vault.validate().is_err());
    vault.records[0].fields.clear();
    vault.records[0].id = "invalid".to_owned();
    assert!(vault.validate().is_err());
}

#[test]
fn count_limits_and_unknown_fields_are_rejected() {
    let mut vault = Vault {
        records: vec![Record::new("limit").unwrap()],
    };
    vault.records[0].fields = vec![Field::new("x", FieldKind::Text); MAX_FIELDS_PER_RECORD + 1];
    assert!(vault.validate().is_err());
    vault.records = vec![Record::new("x").unwrap(); MAX_RECORDS + 1];
    assert!(vault.validate().is_err());
}

#[test]
fn generated_passwords_are_bounded_and_random() {
    assert!(generate_password(MIN_PASSWORD_LENGTH - 1).is_err());
    assert!(generate_password(MAX_PASSWORD_LENGTH + 1).is_err());
    for length in [
        MIN_PASSWORD_LENGTH,
        DEFAULT_PASSWORD_LENGTH,
        MAX_PASSWORD_LENGTH,
    ] {
        let a = generate_password(length).unwrap();
        let b = generate_password(length).unwrap();
        assert_eq!(a.len(), length);
        assert!(a.bytes().all(|b| b.is_ascii_graphic()));
        assert!(a.as_str() != b.as_str());
    }
}

#[test]
fn explicit_zeroization_clears_all_plaintext_owners() {
    let mut vault = Vault {
        records: vec![Template::Login.make_record().unwrap()],
    };
    vault.records[0].fields[1].value = "synthetic-secret".to_owned();
    vault.zeroize();
    assert!(vault.records.is_empty());
}

#[test]
fn validation_reports_the_first_problem_in_order() {
    let mut vault = Vault::default();
    assert_eq!(vault.validate(), Ok(()));
    vault.records.push(Record::with_id_bytes("a", &[0xab; 16]));
    vault.records.push(Record::with_id_bytes("b", &[0xab; 16]));
    assert_eq!(vault.validate(), Err(VaultError::DuplicateIdentifier));
    vault.records[0].label = " ".to_owned();
    assert_eq!(vault.validate(), Err(VaultError::InvalidLabel));
    vault.records[0].id = "ABABABABABABABABABABABABABABABAB".to_owned();
    assert_eq!(vault.validate(), Err(VaultError::InvalidIdentifier));
    vault.records.truncate(1);
    vault.records[0].id = "ab".repeat(16);
    vault.records[0].label = "fine".to_owned();
    vault.records[0].fields.push(Field::new(&"n".repeat(129), FieldKind::Text));
    assert_eq!(vault.validate(), Err(VaultError::InvalidFieldName));
    vault.records[0].fields[0].name = "n".repeat(128);
    assert_eq!(vault.validate(), Ok(()));
    vault.records[0].fields[0].value = "v".repeat(MAX_FIELD_VALUE_LEN);
    assert_eq!(vault.validate(), Ok(()));
    vault.records[0].fields[0].value.push('v');
    assert_eq!(vault.validate(), Err(VaultError::FieldValueTooLong));
    let too_many = Vault {
        records: vec![Record::with_id_bytes("x", &[1; 16]); MAX_RECORDS + 1],
    };
    assert_eq!(too_many.validate(), Err(VaultError::TooManyRecords));
}

#[test]
fn identifiers_are_lowercase_hex_of_the_random_bytes() {
    let record = Record::with_id_bytes("Label", &[0x00, 0x01, 0xfe, 0xff, 0, 0, 0, 0, 0, 0, 0, 0, 0, 0, 0, 0x10]);
    assert_eq!(record.id, "0001feff000000000000000000000010");
    assert_eq!(record.label, "Label");
    assert!(record.fields.is_empty());
    assert!(is_valid_id(&record.id));
    assert!(!is_valid_id(&"0".repeat(31)));
    assert!(!is_valid_id(&"g".repeat(32)));
    assert_eq!(hex_encode(&[0x9a, 0x0c]), "9a0c");
    let fresh = Record::new("Fresh").unwrap();
    assert!(is_valid_id(&fresh.id));
    assert!(matches!(Record::new(" \t"), Err(VaultError::InvalidLabel)));
}

#[test]
fn password_alphabet_and_template_shapes() {
    assert!(matches!(
        generate_password(11),
        Err(VaultError::InvalidPasswordLength)
    ));
    let password = generate_password(64).unwrap();
    assert_eq!(password.chars().count(), 64);
    assert!(password.chars().all(|c| c.is_ascii_graphic()));
    let login = Template::Login.make_record().unwrap();
    let names: Vec<&str> = login.fields.iter().map(|f| f.name.as_str()).collect();
    assert_eq!(names, ["Username", "Password", "Website"]);
    assert_eq!(login.label, "Login");
    let note = Template::SecureNote.make_record().unwrap();
    assert_eq!(note.label, "Secure Note");
    assert!(note.fields[0].secret);
    assert_eq!(note.fields[0].kind, FieldKind::Multiline);
    let blank = Template::Blank.make_record().unwrap();
    assert_eq!(blank.label, "Untitled");
    assert!(blank.fields.is_empty());
    assert_eq!(Template::Bitcoin.make_record().unwrap().label, "Bitcoin Address");
    assert_eq!(FieldKind::Address.label(), "Address");
    assert_eq!(FieldKind::at(4), FieldKind::Password);
    assert_eq!(FieldKind::Email.index(), 2);
}

#[test]
fn error_messages_match_the_user_facing_text() {
    assert_eq!(VaultError::TooManyRecords.message(), "Too many records.");
    assert_eq!(
        VaultError::InvalidLabel.message(),
        "Record label must be nonempty and at most 256 bytes."
    );
    assert_eq!(
        VaultError::InvalidPasswordLength.message(),
        "Generated password length must be 12–1024."
    );
    assert_eq!(
        VaultError::PayloadTooLarge.message(),
        "Vault cannot be serialized within the size limit."
    );
}
