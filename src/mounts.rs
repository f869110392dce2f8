//! Records of the mount and authorization services, which the host talks
//! to.
use vstd::prelude::*;

verus! {

/// A block device and where it is mounted.
#[derive(Clone, Debug)]
pub struct MountPoint {
    pub device: String,
    pub mount_path: String,
    pub label: String,
    pub filesystem_type: String,
    pub size: u64,
    pub is_mounted: bool,
}

/// The answer of the authorization service.
#[derive(Clone, Debug)]
pub struct AuthorizationResult {
    pub is_authorized: bool,
    pub is_challenge: bool,
    pub details: Vec<(String, String)>,
}

} // verus!
