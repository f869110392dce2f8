//! Safety checks consulted before operations outside the user's tree. The
//! authorization service and the security-label layer are external
//! collaborators run by the host.
use vstd::prelude::*;
use vstd::string::*;
use crate::error::Error;
use crate::path::{starts_with, starts_with_of};

verus! {

/// Whether a path lies under one of the system directories.
pub open spec fn is_system_path_of(p: Seq<char>) -> bool {
    starts_with_of(p, "/bin"@) || starts_with_of(p, "/boot"@) || starts_with_of(p, "/dev"@)
        || starts_with_of(p, "/etc"@) || starts_with_of(p, "/lib"@) || starts_with_of(
        p,
        "/lib64"@,
    ) || starts_with_of(p, "/proc"@) || starts_with_of(p, "/root"@) || starts_with_of(
        p,
        "/sbin"@,
    ) || starts_with_of(p, "/sys"@) || starts_with_of(p, "/usr/bin"@) || starts_with_of(
        p,
        "/usr/sbin"@,
    ) || starts_with_of(p, "/usr/lib"@) || starts_with_of(p, "/usr/lib64"@)
}

/// Whether `path` lies, component by component, under a system directory.
pub fn is_system_path(path: &str) -> (r: bool)
    ensures
        r == is_system_path_of(path@),
{
    starts_with(path, "/bin") || starts_with(path, "/boot") || starts_with(path, "/dev")
        || starts_with(path, "/etc") || starts_with(path, "/lib") || starts_with(path, "/lib64")
        || starts_with(path, "/proc") || starts_with(path, "/root") || starts_with(path, "/sbin")
        || starts_with(path, "/sys") || starts_with(path, "/usr/bin") || starts_with(
        path,
        "/usr/sbin",
    ) || starts_with(path, "/usr/lib") || starts_with(path, "/usr/lib64")
}

/// Relies on nix::unistd::Uid::effective and Uid::is_root: whether the
/// process runs with effective user id zero. That depends on the process,
/// so nothing is stated of it.
#[verifier::external_body]
pub fn is_running_as_root() -> bool {
    nix::unistd::Uid::effective().is_root()
}

/// A symbolic link may point anywhere; one into a system directory is only
/// worth a warning, which the host may log.
pub fn validate_symlink_target(link: &str, target: &str) -> (r: Result<(), Error>)
    ensures
        r is Ok,
{
    Ok(())
}

/// The security settings that the host found at start-up.
pub struct Security {
    selinux_enabled: bool,
}

impl Security {
    pub closed spec fn spec_selinux_enabled(&self) -> bool {
        self.selinux_enabled
    }

    pub fn new(selinux_enabled: bool) -> (r: Security)
        ensures
            r.spec_selinux_enabled() == selinux_enabled,
    {
        Security { selinux_enabled }
    }

    pub fn is_selinux_enabled(&self) -> (r: bool)
        ensures
            r == self.spec_selinux_enabled(),
    {
        self.selinux_enabled
    }

    /// Refuses an operation on `path` when the process runs as root, or when
    /// the path is a system path; otherwise accepts it. With security labels
    /// enabled the host then checks the label of `path`.
    pub fn validate_safe_operation_as(&self, path: &str, running_as_root: bool) -> (r: Result<
        (),
        Error,
    >)
        ensures
            running_as_root ==> r matches Err(Error::InvalidOperation(_)),
            !running_as_root && is_system_path_of(path@) ==> (r matches Err(
                Error::PermissionDenied { path: p },
            ) && p@ == path@),
            !running_as_root && !is_system_path_of(path@) ==> r is Ok,
    {
        if running_as_root {
            return Err(
                Error::InvalidOperation(String::from_str("Cheese must not be run as root")),
            );
        }
        if is_system_path(path) {
            return Err(Error::PermissionDenied { path: path.to_owned() });
        }
        Ok(())
    }

    /// The same checks, for the running process.
    pub fn validate_safe_operation(&self, path: &str) -> (r: Result<(), Error>)
        ensures
            r is Ok ==> !is_system_path_of(path@),
            r matches Err(e) ==> e is InvalidOperation || (e matches Error::PermissionDenied {
                path: p,
            } && p@ == path@ && is_system_path_of(path@)),
    {
        let root = is_running_as_root();
        self.validate_safe_operation_as(path, root)
    }
}

} // verus!
