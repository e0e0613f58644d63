//! The settings of the daemon: loaded once, read everywhere.

use vstd::prelude::*;

verus! {

/// Which sections the status report holds.
#[derive(Debug, Clone, Copy, PartialEq, Eq)]
pub struct Stats {
    /// The users that have a plan.
    pub users: bool,
    /// The time, the uptime, the sessions and the load.
    pub uptime: bool,
    /// The system's name and versions.
    pub kernel: bool,
    /// The temperature sensors.
    pub cpu: bool,
}

impl Default for Stats {
    /// No section at all.
    fn default() -> (stats: Stats)
        ensures
            stats == (Stats { users: false, uptime: false, kernel: false, cpu: false }),
    {
        Stats { users: false, uptime: false, kernel: false, cpu: false }
    }
}

/// The settings of the daemon.
#[derive(Debug)]
pub struct Config {
    /// The name for this server
    pub server: String,
    /// The ip address to bind to
    pub address: String,
    /// The port to run on
    pub port: String,
    /// The user the server should run as
    pub user: String,
    /// The group the server should run as
    pub group: String,
    /// The server "root" directory
    pub root: String,
    /// Whether or not to chroot into the server root
    pub chroot: bool,
    /// The number of worker threads used to serve requests
    pub threads: usize,
    /// The sections of the status report
    pub stats: Stats,
}

/// The mathematical content of a [`Config`].
pub struct ConfigView {
    pub server: Seq<char>,
    pub address: Seq<char>,
    pub port: Seq<char>,
    pub user: Seq<char>,
    pub group: Seq<char>,
    pub root: Seq<char>,
    pub chroot: bool,
    pub threads: nat,
    pub stats: Stats,
}

impl View for Config {
    type V = ConfigView;

    open spec fn view(&self) -> ConfigView {
        ConfigView {
            server: self.server@,
            address: self.address@,
            port: self.port@,
            user: self.user@,
            group: self.group@,
            root: self.root@,
            chroot: self.chroot,
            threads: self.threads as nat,
            stats: self.stats,
        }
    }
}

impl ConfigView {
    /// The settings that stand where no file says otherwise.
    pub open spec fn standard() -> ConfigView {
        ConfigView {
            server: "localhost"@,
            address: "0.0.0.0"@,
            port: "79"@,
            user: "toe"@,
            group: "toe"@,
            root: "/srv"@,
            chroot: true,
            threads: 4,
            stats: Stats { users: false, uptime: false, kernel: false, cpu: false },
        }
    }

    /// Settings are usable when there is at least one worker.
    pub open spec fn valid(self) -> bool {
        self.threads > 0
    }

    /// Where the listening socket is bound: the address, a colon and the
    /// port.
    pub open spec fn bind_address(self) -> Seq<char> {
        self.address + ":"@ + self.port
    }

    /// The directory whose entries are the users: the root of the file
    /// system once the process is confined to `root`, else `root` itself.
    pub open spec fn listing_root(self) -> Seq<char> {
        if self.chroot {
            "/"@
        } else {
            self.root
        }
    }
}

impl Default for Config {
    fn default() -> (config: Config)
        ensures
            config@ == ConfigView::standard(),
            config@.valid(),
    {
        Config {
            server: String::from_str("localhost"),
            address: String::from_str("0.0.0.0"),
            port: String::from_str("79"),
            user: String::from_str("toe"),
            group: String::from_str("toe"),
            root: String::from_str("/srv"),
            threads: 4,
            chroot: true,
            stats: Stats::default(),
        }
    }
}

impl Config {
    /// Whether the settings are usable: there is at least one worker.
    pub fn is_valid(&self) -> (b: bool)
        ensures
            b == self@.valid(),
    {
        self.threads > 0
    }

    /// Where the listening socket is bound.
    pub fn bind_address(&self) -> (at: String)
        ensures
            at@ == self@.bind_address(),
    {
        let mut at = self.address.clone();
        at.append(":");
        at.append(self.port.as_str());
        at
    }

    /// The directory whose entries are the users.
    pub fn listing_root(&self) -> (dir: String)
        ensures
            dir@ == self@.listing_root(),
    {
        if self.chroot {
            String::from_str("/")
        } else {
            self.root.clone()
        }
    }
}

} // verus!
