//! The root of a delegated cgroup subtree.
use vstd::prelude::*;

use crate::cgroup::CGroup;
use crate::num::{decimal, format_unsigned};
use crate::util::{file_path, join_path};

verus! {

/// Where the cgroup v2 filesystem is mounted by default.
pub const DEFAULT_MOUNT_POINT: &'static str = "/sys/fs/cgroup/";

/// The directory that systemd delegates to the user `uid` under `mount_point`.
pub open spec fn delegate_path(mount_point: Seq<char>, uid: u32) -> Seq<char> {
    mount_point + "/user.slice/user-"@ + decimal(uid as nat) + ".slice/user@"@ + decimal(
        uid as nat,
    ) + ".service/"@
}

/// The directory that systemd delegates to the user `uid` under `mount_point`.
pub fn get_delegate_path(mount_point: &str, uid: u32) -> (r: String)
    ensures
        r@ == delegate_path(mount_point@, uid),
{
    let id = format_unsigned(uid as u64);
    let s = String::from_str(mount_point).concat("/user.slice/user-");
    let s = s.concat(id.as_str());
    let s = s.concat(".slice/user@");
    let s = s.concat(id.as_str());
    s.concat(".service/")
}

/// A cgroup directory under which child cgroups are made.
#[derive(Debug)]
pub struct Manager {
    path: String,
}

impl View for Manager {
    type V = Seq<char>;

    closed spec fn view(&self) -> Seq<char> {
        self.path@
    }
}

impl Manager {
    pub fn new(path: String) -> (r: Manager)
        ensures
            r@ == path@,
    {
        Manager { path }
    }

    /// The manager of the subtree delegated to the user `uid` under `mount_point`.
    pub fn delegated(mount_point: &str, uid: u32) -> (r: Manager)
        ensures
            r@ == delegate_path(mount_point@, uid),
    {
        Manager { path: get_delegate_path(mount_point, uid) }
    }

    pub fn path(&self) -> (r: &String)
        ensures
            r@ == self@,
    {
        &self.path
    }

    /// The cgroup at this manager's directory.
    pub fn cgroup(&self) -> (r: CGroup)
        ensures
            r@ == self@,
    {
        CGroup::new(self.path.clone())
    }

    /// The manager of the child cgroup `name`.
    pub fn child(&self, name: &str) -> (r: Manager)
        ensures
            r@ == join_path(self@, name@),
    {
        Manager { path: file_path(self.path.as_str(), name) }
    }
}

} // verus!
