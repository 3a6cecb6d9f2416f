//! Where the server listens, and the service's fixed settings.

use vstd::prelude::*;
use vstd::string::StringExecFns;

verus! {

broadcast use vstd::string::group_string_axioms;

/// The port used when `SERVER_PORT` is not set.
pub const DEFAULT_SERVER_PORT: &'static str = "3000";

/// The host used when `SERVER_HOST` is not set.
pub const DEFAULT_SERVER_HOST: &'static str = "127.0.0.1";

/// The capacity of the log channel.
pub const LOG_CHANNEL_SIZE: usize = 1000;

/// The folder of the service in a user's drive.
pub const SDRIVE_FOLDER_NAME: &'static str = ".sdrive";

/// The value of a setting, or its default when it is unset.
pub open spec fn setting_or(value: Option<Seq<char>>, default: Seq<char>) -> Seq<char> {
    match value {
        Some(v) => v,
        None => default,
    }
}

/// The text of an optional setting.
pub open spec fn setting_view(value: Option<&str>) -> Option<Seq<char>> {
    match value {
        Some(v) => Some(v@),
        None => None,
    }
}

/// `host:port`, each part from its setting or its default.
pub fn server_address(host: Option<&str>, port: Option<&str>) -> (addr: String)
    ensures
        addr@ == setting_or(setting_view(host), DEFAULT_SERVER_HOST@) + ":"@
            + setting_or(setting_view(port), DEFAULT_SERVER_PORT@),
{
    let mut addr = match host {
        Some(h) => h.to_string(),
        None => DEFAULT_SERVER_HOST.to_string(),
    };
    addr.append(":");
    match port {
        Some(p) => addr.append(p),
        None => addr.append(DEFAULT_SERVER_PORT),
    }
    addr
}

} // verus!
