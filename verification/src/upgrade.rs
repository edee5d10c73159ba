//! The self-upgrade decision: whether a fetched release is actually
//! newer than the running host. Fetching, downloading and unpacking
//! are outside work; only the decisions live here.

use vstd::prelude::*;

use crate::version::{version_le, Version};

verus! {

/// What to do about a fetched latest release.
#[derive(Clone, Copy, PartialEq, Eq, Structural, Debug)]
pub enum UpgradePlan {
    /// The running version is already at or past the latest release.
    AlreadyLatest,
    /// The latest release is strictly newer: download and unpack it.
    Upgrade,
}

/// Why a performed upgrade still failed.
#[derive(Clone, Copy, PartialEq, Eq, Structural, Debug)]
pub enum UpgradeError {
    /// Unpacking replaced no binary.
    UpgradeFailed,
}

/// Compares the running version against the latest release:
/// upgrade exactly when the release is strictly newer.
pub fn upgrade(current: &Version, latest: &Version) -> (r: UpgradePlan)
    ensures
        r == UpgradePlan::AlreadyLatest <==> version_le(*latest, *current),
{
    if latest.le(current) {
        UpgradePlan::AlreadyLatest
    } else {
        UpgradePlan::Upgrade
    }
}

/// Turns the unpack step's report into the command's outcome: an
/// upgrade that replaced no binary is a failure, not a silent no-op.
pub fn finish_upgrade(replaced: bool) -> (r: Result<(), UpgradeError>)
    ensures
        r is Ok <==> replaced,
        !replaced ==> r == Err::<(), UpgradeError>(UpgradeError::UpgradeFailed),
{
    if replaced {
        Ok(())
    } else {
        Err(UpgradeError::UpgradeFailed)
    }
}

} // verus!
