//! Values that a configuration takes when it leaves them out.

use vstd::prelude::*;

verus! {

/// The log level of a configuration that names none: `info`.
pub fn default_log_level() -> (level: String)
    ensures
        level@ == "info"@,
{
    "info".to_owned()
}

/// The address to bind of a configuration that names none: every interface,
/// port 3000.
pub fn default_address() -> (address: String)
    ensures
        address@ == "0.0.0.0:3000"@,
{
    "0.0.0.0:3000".to_owned()
}

} // verus!
