//! Where the store and the generated artifacts live.

use vstd::prelude::*;
use vstd::string::StringExecFns;
use crate::text::{chars_of, concat2, concat3};

verus! {

/// The files and directories below the root directory, as text.
#[derive(Clone, Debug, PartialEq, Eq)]
pub struct DarpPaths {
    pub _darp_root: String,
    pub config_path: String,
    pub portmap_path: String,
    pub dnsmasq_dir: String,
    pub vhost_container_conf: String,
    pub hosts_container_path: String,
    pub nginx_conf_path: String,
}

/// The path of `name` below the directory `dir`, with `/` between them
/// unless `dir` is empty or ends in one.
pub open spec fn joined(dir: Seq<char>, name: Seq<char>) -> Seq<char> {
    if dir.len() == 0 {
        name
    } else if dir.last() == '/' {
        dir + name
    } else {
        dir + "/"@ + name
    }
}

/// The root directory: the one that is given, else `.darp` below the home
/// directory.
pub open spec fn root_dir(home: Seq<char>, given: Option<Seq<char>>) -> Seq<char> {
    match given {
        Some(r) => r,
        None => joined(home, ".darp"@),
    }
}

/// Joins a relative name to a directory.
pub fn join(dir: &str, name: &str) -> (r: String)
    ensures
        r@ == joined(dir@, name@),
{
    let d = chars_of(dir);
    let n: usize = d.len();
    if n == 0 {
        String::from_str(name)
    } else if d[n - 1] == '/' {
        concat2(dir, name)
    } else {
        concat3(dir, "/", name)
    }
}

impl DarpPaths {
    /// The layout below `root`.
    pub open spec fn layout(self, root: Seq<char>) -> bool {
        &&& self._darp_root@ == root
        &&& self.config_path@ == joined(root, "config.json"@)
        &&& self.portmap_path@ == joined(root, "portmap.json"@)
        &&& self.dnsmasq_dir@ == joined(root, "dnsmasq.d"@)
        &&& self.vhost_container_conf@ == joined(root, "vhost_container.conf"@)
        &&& self.hosts_container_path@ == joined(root, "hosts_container"@)
        &&& self.nginx_conf_path@ == joined(root, "nginx.conf"@)
    }

    /// The paths below the root directory `root`.
    pub fn from_root(root: &str) -> (r: DarpPaths)
        ensures
            r.layout(root@),
    {
        DarpPaths {
            _darp_root: String::from_str(root),
            config_path: join(root, "config.json"),
            portmap_path: join(root, "portmap.json"),
            dnsmasq_dir: join(root, "dnsmasq.d"),
            vhost_container_conf: join(root, "vhost_container.conf"),
            hosts_container_path: join(root, "hosts_container"),
            nginx_conf_path: join(root, "nginx.conf"),
        }
    }

    /// The paths for a home directory and the root directory that the
    /// environment names, if it names one.
    pub fn from_home(home: &str, given_root: Option<&str>) -> (r: DarpPaths)
        ensures
            r.layout(
                root_dir(
                    home@,
                    match given_root {
                        Some(g) => Some(g@),
                        None => None,
                    },
                ),
            ),
    {
        match given_root {
            Some(g) => DarpPaths::from_root(g),
            None => {
                let root = join(home, ".darp");
                DarpPaths::from_root(root.as_str())
            },
        }
    }
}

} // verus!
