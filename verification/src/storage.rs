//! Decisions of ciphertext persistence: what a save may do, which files are
//! private enough, and how lock and temporary files are named. The file
//! system work itself is done by the program around this library.
use vstd::prelude::*;

use crate::crypto::MAX_FILE_SIZE;
use crate::model::{hex_encode, hex_text};

verus! {

/// A failed save. `committed` means publication occurred but durability is
/// uncertain: stop writing and reopen; do not present the previous
/// in-memory state as current.
#[derive(Debug)]
pub struct SaveError {
    pub message: String,
    pub committed: bool,
}

/// The user-facing description of a save failure.
pub open spec fn save_error_text(message: Seq<char>, committed: bool) -> Seq<char> {
    if committed {
        "Vault was published, but durability is uncertain; reopen before writing: "@ + message
    } else {
        "Vault was not saved: "@ + message
    }
}

impl SaveError {
    pub fn new(message: String, committed: bool) -> (e: SaveError)
        ensures
            e.message == message,
            e.committed == committed,
    {
        SaveError { message, committed }
    }

    /// True means publication occurred but durability is uncertain.
    pub fn committed(&self) -> (b: bool)
        ensures
            b == self.committed,
    {
        self.committed
    }

    /// The message shown to the user.
    pub fn describe(&self) -> (s: String)
        ensures
            s@ == save_error_text(self.message@, self.committed),
    {
        let mut s = if self.committed {
            String::from_str("Vault was published, but durability is uncertain; reopen before writing: ")
        } else {
            String::from_str("Vault was not saved: ")
        };
        s.append(self.message.as_str());
        s
    }
}

/// Checks made before any file is touched: a save after an uncertain one is
/// refused as committed, and only nonempty envelopes within the file size
/// limit may be written.
pub fn save_preflight(uncertain: bool, len: usize) -> (r: Result<(), SaveError>)
    ensures
        uncertain ==> (r matches Err(e) && e.committed && e.message@
            == "A previous save requires reopening the vault."@),
        !uncertain && !(0 < len <= MAX_FILE_SIZE) ==> (r matches Err(e) && !e.committed
            && e.message@ == "Invalid encrypted vault size."@),
        !uncertain && 0 < len <= MAX_FILE_SIZE ==> r is Ok,
{
    if uncertain {
        return Err(SaveError::new(String::from_str("A previous save requires reopening the vault."), true));
    }
    if len == 0 || len > MAX_FILE_SIZE {
        return Err(SaveError::new(String::from_str("Invalid encrypted vault size."), false));
    }
    Ok(())
}

/// Creation publishes only where no vault exists; replacement only where one does.
pub fn save_target_check(create: bool, exists: bool) -> (r: Result<(), String>)
    ensures
        !create && !exists ==> (r matches Err(m) && m@
            == "Cannot replace a missing vault; reopen to initialize it."@),
        create && exists ==> (r matches Err(m) && m@
            == "A vault already exists; creation will not overwrite it."@),
        create != exists ==> r is Ok,
{
    if !create && !exists {
        return Err(String::from_str("Cannot replace a missing vault; reopen to initialize it."));
    }
    if create && exists {
        return Err(String::from_str("A vault already exists; creation will not overwrite it."));
    }
    Ok(())
}

/// Just before publication: a replaced vault must still be there and must be
/// the same file (device and inode) that was checked at the start.
pub fn publish_check(create: bool, exists_now: bool, checked_before: bool, same_file: bool) -> (r:
    Result<(), String>)
    ensures
        !create && !exists_now ==> (r matches Err(m) && m@ == "Vault disappeared before replacement."@),
        (create || exists_now) && checked_before && exists_now && !same_file ==> (r matches Err(m)
            && m@ == "Vault changed outside the locked session."@),
        (create || exists_now) && !(checked_before && exists_now && !same_file) ==> r is Ok,
{
    if !create && !exists_now {
        return Err(String::from_str("Vault disappeared before replacement."));
    }
    if checked_before && exists_now && !same_file {
        return Err(String::from_str("Vault changed outside the locked session."));
    }
    Ok(())
}

/// Files the vault relies on are regular files of the current user with mode
/// 0600 and a single link. `role` names the file in the message.
pub fn check_private_file(is_file: bool, owner: u32, euid: u32, mode: u32, links: u64, role: &str) -> (r:
    Result<(), String>)
    ensures
        !is_file ==> (r matches Err(m) && m@ == "The "@ + role@ + " must be a regular file."@),
        is_file && owner != euid ==> (r matches Err(m) && m@ == "The "@ + role@
            + " must be owned by the current user."@),
        is_file && owner == euid && mode & 0o7777 != 0o600 ==> (r matches Err(m) && m@ == "The "@
            + role@ + " must have private permissions (0600)."@),
        is_file && owner == euid && mode & 0o7777 == 0o600 && links != 1 ==> (r matches Err(m) && m@
            == "The "@ + role@ + " must not have additional hard links."@),
        is_file && owner == euid && mode & 0o7777 == 0o600 && links == 1 ==> r is Ok,
{
    let suffix = if !is_file {
        " must be a regular file."
    } else if owner != euid {
        " must be owned by the current user."
    } else if mode & 0o7777 != 0o600 {
        " must have private permissions (0600)."
    } else if links != 1 {
        " must not have additional hard links."
    } else {
        return Ok(());
    };
    let mut m = String::from_str("The ");
    m.append(role);
    m.append(suffix);
    Err(m)
}

/// A vault file read from disk may not exceed the file size limit.
pub fn check_read_size(len: u64) -> (r: Result<(), String>)
    ensures
        len > MAX_FILE_SIZE ==> (r matches Err(m) && m@ == "Vault exceeds the file size limit."@),
        len <= MAX_FILE_SIZE ==> r is Ok,
{
    if len > MAX_FILE_SIZE as u64 {
        return Err(String::from_str("Vault exceeds the file size limit."));
    }
    Ok(())
}

/// The lock file's name: the vault's file name followed by `.lock`.
pub fn lock_file_name(name: &[u8]) -> (out: Vec<u8>)
    ensures
        out@ == name@ + seq![0x2Eu8, 0x6C, 0x6F, 0x63, 0x6B],
{
    let mut out: Vec<u8> = Vec::new();
    let mut i: usize = 0;
    while i < name.len()
        invariant
            i <= name@.len(),
            out@ == name@.take(i as int),
        decreases name.len() - i,
    {
        out.push(name[i]);
        i += 1;
        assert(out@ =~= name@.take(i as int));
    }
    out.push(0x2E);
    out.push(0x6C);
    out.push(0x6F);
    out.push(0x63);
    out.push(0x6B);
    assert(name@.take(name@.len() as int) =~= name@);
    assert(out@ =~= name@ + seq![0x2Eu8, 0x6C, 0x6F, 0x63, 0x6B]);
    out
}

/// The name of a temporary ciphertext file: `.simplecrypt-`, the 128-bit
/// little-endian number of 16 random bytes in 32 lowercase hex digits, `.tmp`.
pub fn temp_file_name(random: &[u8]) -> (name: String)
    requires
        random@.len() == 16,
    ensures
        name@ == ".simplecrypt-"@ + hex_text(random@.reverse()) + ".tmp"@,
{
    let mut reversed: Vec<u8> = Vec::new();
    let mut i: usize = 16;
    while i > 0
        invariant
            i <= 16,
            random@.len() == 16,
            reversed@ == random@.reverse().take(16 - i),
        decreases i,
    {
        i -= 1;
        reversed.push(random[i]);
        assert(reversed@ =~= random@.reverse().take(16 - i));
    }
    assert(random@.reverse().take(16) =~= random@.reverse());
    let digits = hex_encode(reversed.as_slice());
    let mut name = String::from_str(".simplecrypt-");
    name.append(digits.as_str());
    name.append(".tmp");
    name
}

} // verus!
