//! Decisions of the credential store. The caller inspects the account
//! directory and reads the files; these functions decide what follows.

use vstd::prelude::*;
use crate::error::{ConfigError, ConfigKind, OperationKind};
use crate::token::{SessionToken, select_token, usable_binary, token_bytes};

verus! {

/// How an account's device fingerprint is obtained.
#[derive(Clone, Copy, Debug, PartialEq, Eq, Structural)]
pub enum DevicePlan {
    /// No fingerprint is stored: generate a random one and write it.
    Generate,
    /// Read and deserialize the stored fingerprint.
    Read,
}

/// Decides how to load the device fingerprint. A missing account directory is
/// a device `NotFound` error; a missing fingerprint file means a new one is made.
pub fn device_plan(dir_exists: bool, file_exists: bool) -> (r: Result<DevicePlan, ConfigError>)
    ensures
        !dir_exists ==> r is Err && r->Err_0.kind == ConfigKind::Device && r->Err_0.operation
            == OperationKind::NotFound,
        dir_exists && !file_exists ==> r == Ok::<DevicePlan, ConfigError>(DevicePlan::Generate),
        dir_exists && file_exists ==> r == Ok::<DevicePlan, ConfigError>(DevicePlan::Read),
{
    if !dir_exists {
        Err(ConfigError::new(ConfigKind::Device, OperationKind::NotFound))
    } else if !file_exists {
        Ok(DevicePlan::Generate)
    } else {
        Ok(DevicePlan::Read)
    }
}

/// Loads an account's token from what was read of its two stored forms: a
/// missing account directory is a token `NotFound` error; otherwise the binary
/// form wins when it decodes, and the structured text form is the fallback.
pub fn load_token(
    dir_exists: bool,
    binary: Option<Vec<u8>>,
    text: Result<SessionToken, ConfigError>,
) -> (r: Result<SessionToken, ConfigError>)
    ensures
        !dir_exists ==> r is Err && r->Err_0.kind == ConfigKind::Token && r->Err_0.operation
            == OperationKind::NotFound,
        dir_exists && usable_binary(binary) ==> r is Ok && token_bytes(r->Ok_0) == binary->Some_0@,
        dir_exists && !usable_binary(binary) ==> r == text,
{
    if !dir_exists {
        return Err(ConfigError::new(ConfigKind::Token, OperationKind::NotFound));
    }
    select_token(binary, text)
}

/// Decides whether a refreshed token may be written: the account directory
/// must exist, else a token `NotFound` error.
pub fn save_token_target(dir_exists: bool) -> (r: Result<(), ConfigError>)
    ensures
        dir_exists <==> r is Ok,
        r matches Err(e) ==> e.kind == ConfigKind::Token && e.operation == OperationKind::NotFound,
{
    if dir_exists {
        Ok(())
    } else {
        Err(ConfigError::new(ConfigKind::Token, OperationKind::NotFound))
    }
}

} // verus!
