use simplecrypt::crypto::MAX_FILE_SIZE;
use simplecrypt::storage::{
    check_private_file, check_read_size, lock_file_name, publish_check, save_preflight,
    save_target_check, temp_file_name, SaveError,
};

#[test]
fn uncertain_saves_block_later_writes() {
    let error = save_preflight(true, 10).unwrap_err();
    assert!(error.committed());
    assert_eq!(
        error.describe(),
        "Vault was published, but durability is uncertain; reopen before writing: A previous save requires reopening the vault."
    );
    let error = save_preflight(false, 0).unwrap_err();
    assert!(!error.committed());
    assert_eq!(error.describe(), "Vault was not saved: Invalid encrypted vault size.");
    assert!(save_preflight(false, MAX_FILE_SIZE + 1).is_err());
    assert!(save_preflight(false, MAX_FILE_SIZE).is_ok());
}

#[test]
fn targets_and_publication_are_checked() {
    assert_eq!(
        save_target_check(false, false).unwrap_err(),
        "Cannot replace a missing vault; reopen to initialize it."
    );
    assert_eq!(
        save_target_check(true, true).unwrap_err(),
        "A vault already exists; creation will not overwrite it."
    );
    assert!(save_target_check(true, false).is_ok());
    assert!(save_target_check(false, true).is_ok());
    assert_eq!(
        publish_check(false, false, true, true).unwrap_err(),
        "Vault disappeared before replacement."
    );
    assert_eq!(
        publish_check(false, true, true, false).unwrap_err(),
        "Vault changed outside the locked session."
    );
    assert!(publish_check(false, true, true, true).is_ok());
    assert!(publish_check(true, false, false, false).is_ok());
}

#[test]
fn private_files_are_regular_owned_0600_and_unlinked() {
    assert!(check_private_file(true, 1000, 1000, 0o100600, 1, "vault").is_ok());
    assert_eq!(
        check_private_file(false, 1000, 1000, 0o600, 1, "lock").unwrap_err(),
        "The lock must be a regular file."
    );
    assert_eq!(
        check_private_file(true, 0, 1000, 0o600, 1, "vault").unwrap_err(),
        "The vault must be owned by the current user."
    );
    assert_eq!(
        check_private_file(true, 1000, 1000, 0o644, 1, "vault").unwrap_err(),
        "The vault must have private permissions (0600)."
    );
    assert_eq!(
        check_private_file(true, 1000, 1000, 0o600, 2, "temporary vault").unwrap_err(),
        "The temporary vault must not have additional hard links."
    );
    assert_eq!(
        check_read_size(MAX_FILE_SIZE as u64 + 1).unwrap_err(),
        "Vault exceeds the file size limit."
    );
    assert!(check_read_size(MAX_FILE_SIZE as u64).is_ok());
}

#[test]
fn lock_and_temporary_names() {
    assert_eq!(lock_file_name(b"vault.scv"), b"vault.scv.lock".to_vec());
    let mut random = [0_u8; 16];
    random[0] = 0x01;
    random[15] = 0xab;
    assert_eq!(
        temp_file_name(&random),
        format!(".simplecrypt-{:032x}.tmp", u128::from_le_bytes(random))
    );
    let error = SaveError::new("disk full".to_owned(), false);
    assert!(!error.committed());
    assert_eq!(error.describe(), "Vault was not saved: disk full");
}
