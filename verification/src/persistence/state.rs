//! The data directory and the files under it that hold runtime state: the
//! DHCP leases (v4 and v6) of each interface and the last-applied proxy
//! configuration.

use crate::text::{join_path, path_join};
use vstd::prelude::*;

verus! {

/// The data directory when none was configured.
pub const DEFAULT_DATA_DIR: &'static str = "/var/lib/mitos-network";

/// The configured data directory. It is set once; later settings are
/// ignored (the first one wins).
#[derive(Debug, Clone)]
pub struct DataDir {
    pub dir: Option<String>,
}

impl DataDir {
    pub fn new() -> (d: DataDir)
        ensures
            d.dir is None,
    {
        DataDir { dir: None }
    }

    /// The directory in effect.
    pub open spec fn base(self) -> Seq<char> {
        match self.dir {
            Some(d) => d@,
            None => DEFAULT_DATA_DIR@,
        }
    }

    /// Records the data directory; only the first call counts.
    pub fn init(&mut self, dir: &str)
        ensures
            old(self).dir is Some ==> final(self).base() == old(self).base(),
            old(self).dir is None ==> final(self).base() == dir@,
            final(self).dir is Some,
    {
        if self.dir.is_none() {
            self.dir = Some(String::from_str(dir));
        }
    }

    pub fn base_dir(&self) -> (p: String)
        ensures
            p@ == self.base(),
    {
        match &self.dir {
            Some(d) => d.clone(),
            None => String::from_str(DEFAULT_DATA_DIR),
        }
    }

    /// `<data>/leases/<ifname>.json`, the IPv4 lease of `ifname`.
    pub fn lease_path(&self, ifname: &str) -> (p: String)
        ensures
            p@ == path_join(path_join(self.base(), "leases"@), ifname@ + ".json"@),
    {
        let base = self.base_dir();
        let dir = join_path(base.as_str(), "leases");
        let name = crate::errors::join2(ifname, ".json");
        join_path(dir.as_str(), name.as_str())
    }

    /// `<data>/leases/<ifname>.v6.json`, the IPv6 lease of `ifname`; a
    /// different file from the IPv4 lease, since a dual-stack interface
    /// holds both at once.
    pub fn lease6_path(&self, ifname: &str) -> (p: String)
        ensures
            p@ == path_join(path_join(self.base(), "leases"@), ifname@ + ".v6.json"@),
    {
        let base = self.base_dir();
        let dir = join_path(base.as_str(), "leases");
        let name = crate::errors::join2(ifname, ".v6.json");
        join_path(dir.as_str(), name.as_str())
    }

    /// `<data>/proxy.json`, the last-applied proxy configuration.
    pub fn proxy_config_path(&self) -> (p: String)
        ensures
            p@ == path_join(self.base(), "proxy.json"@),
    {
        let base = self.base_dir();
        join_path(base.as_str(), "proxy.json")
    }
}

} // verus!
