//! Client keys loaded from `allowed_clients/<name>.key` files.

use vstd::prelude::*;
use dashmap::DashMap;
use crate::text::str_eq;
use crate::tokens::{table_insert, token_table};

verus! {

/// The permission bits of a Unix file mode: the mode modulo 2^9.
pub open spec fn permission_bits(mode: u32) -> int {
    mode as int % 512
}

/// A key file is accepted only when its permission bits are exactly
/// `0o600` (owner read/write) or `0o400` (owner read).
pub open spec fn secure_key_mode(mode: u32) -> bool {
    permission_bits(mode) == 0o600 || permission_bits(mode) == 0o400
}

pub fn is_secure_key_mode(mode: u32) -> (secure: bool)
    ensures
        secure == secure_key_mode(mode),
{
    let masked = mode & 0o777;
    assert(masked == mode % 512) by (bit_vector)
        requires
            masked == mode & 0o777u32,
    ;
    masked == 0o600 || masked == 0o400
}

/// The contents of a key file: a bearer token and the permissions it grants.
pub struct ClientKeyFile {
    pub token: String,
    pub permissions: Vec<String>,
}

/// What a file in the `allowed_clients` directory is, by its extension.
#[derive(PartialEq, Eq, Structural, Debug, Clone, Copy)]
pub enum KeyFileKind {
    /// `.key`: a key file to load.
    Key,
    /// `.blocked`, `.deleted` or `.disabled`: a key that is switched off.
    Inactive,
    /// Anything else, or no extension: ignored.
    Other,
}

pub open spec fn key_file_kind_of(extension: Option<Seq<char>>) -> KeyFileKind {
    match extension {
        Some(e) => if e == "key"@ {
            KeyFileKind::Key
        } else if e == "blocked"@ || e == "deleted"@ || e == "disabled"@ {
            KeyFileKind::Inactive
        } else {
            KeyFileKind::Other
        },
        None => KeyFileKind::Other,
    }
}

/// Classifies a directory entry by its file extension.
pub fn key_file_kind(extension: Option<&str>) -> (k: KeyFileKind)
    ensures
        k == key_file_kind_of(match extension {
            Some(e) => Some(e@),
            None => None,
        }),
{
    match extension {
        Some(e) => if str_eq(e, "key") {
            KeyFileKind::Key
        } else if str_eq(e, "blocked") || str_eq(e, "deleted") || str_eq(e, "disabled") {
            KeyFileKind::Inactive
        } else {
            KeyFileKind::Other
        },
        None => KeyFileKind::Other,
    }
}

/// Loads a parsed key file into the token table; a key with an empty token is
/// refused and leaves the table as it was.
pub fn register_client_key(tokens: &mut DashMap<String, Vec<String>>, key: ClientKeyFile) -> (registered: bool)
    ensures
        registered == (key.token@.len() > 0),
        registered ==> token_table(*final(tokens)) == token_table(*old(tokens)).insert(
            key.token@,
            key.permissions.deep_view(),
        ),
        !registered ==> token_table(*final(tokens)) == token_table(*old(tokens)),
{
    if key.token.as_str().is_empty() {
        return false;
    }
    let _ = table_insert(tokens, key.token, key.permissions);
    true
}

/// What to do with one entry of the `allowed_clients` directory.
#[derive(PartialEq, Eq, Structural, Debug, Clone, Copy)]
pub enum KeyFileAction {
    /// Not a regular file, or an extension that means nothing here: skip it.
    Skip,
    /// A switched-off key (`.blocked`, `.deleted`, `.disabled`): report it.
    ReportInactive,
    /// A `.key` file whose permission bits are not `0o600` or `0o400`: refuse it.
    RefuseInsecure,
    /// A `.key` file to read and load.
    Read,
}

/// The action for an entry: whether it is a regular file, its extension, and
/// its Unix mode (`None` on a platform without Unix modes, where the mode is
/// not checked).
pub open spec fn key_file_action_spec(is_file: bool, extension: Option<Seq<char>>, mode: Option<u32>) -> KeyFileAction {
    if !is_file {
        KeyFileAction::Skip
    } else {
        match key_file_kind_of(extension) {
            KeyFileKind::Key => match mode {
                Some(m) => if secure_key_mode(m) {
                    KeyFileAction::Read
                } else {
                    KeyFileAction::RefuseInsecure
                },
                None => KeyFileAction::Read,
            },
            KeyFileKind::Inactive => KeyFileAction::ReportInactive,
            KeyFileKind::Other => KeyFileAction::Skip,
        }
    }
}

/// Decides what to do with one directory entry.
pub fn key_file_action(is_file: bool, extension: Option<&str>, mode: Option<u32>) -> (a: KeyFileAction)
    ensures
        a == key_file_action_spec(
            is_file,
            match extension {
                Some(e) => Some(e@),
                None => None,
            },
            mode,
        ),
{
    if !is_file {
        return KeyFileAction::Skip;
    }
    match key_file_kind(extension) {
        KeyFileKind::Key => match mode {
            Some(m) => if is_secure_key_mode(m) {
                KeyFileAction::Read
            } else {
                KeyFileAction::RefuseInsecure
            },
            None => KeyFileAction::Read,
        },
        KeyFileKind::Inactive => KeyFileAction::ReportInactive,
        KeyFileKind::Other => KeyFileAction::Skip,
    }
}

/// The entry was to be read and its key has a token.
pub open spec fn loads_key(action: KeyFileAction, parsed: Option<ClientKeyFile>) -> bool {
    action == KeyFileAction::Read && match parsed {
        Some(k) => k.token@.len() > 0,
        None => false,
    }
}

/// The last step for one entry: the key read from it (`None` when it could
/// not be read or was not a valid key file) enters the table only when the
/// entry was to be read and the key's token is not empty; otherwise the table
/// stays as it was.
pub fn load_key_file(
    tokens: &mut DashMap<String, Vec<String>>,
    action: KeyFileAction,
    parsed: Option<ClientKeyFile>,
) -> (loaded: bool)
    ensures
        loaded == loads_key(action, parsed),
        loaded ==> (parsed matches Some(k) && token_table(*final(tokens)) == token_table(*old(tokens)).insert(
            k.token@,
            k.permissions.deep_view(),
        )),
        !loaded ==> token_table(*final(tokens)) == token_table(*old(tokens)),
{
    if action != KeyFileAction::Read {
        return false;
    }
    match parsed {
        Some(k) => register_client_key(tokens, k),
        None => false,
    }
}

/// Only a regular `.key` file whose permission bits are `0o600` or `0o400`
/// (where the platform has them) is ever read, and so ever loaded.
pub proof fn law_only_secure_key_files_load(is_file: bool, extension: Option<Seq<char>>, mode: Option<u32>)
    requires
        key_file_action_spec(is_file, extension, mode) == KeyFileAction::Read,
    ensures
        is_file,
        extension == Some("key"@),
        mode matches Some(m) ==> secure_key_mode(m),
{
}

} // verus!
