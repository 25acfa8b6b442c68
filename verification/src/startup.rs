//! The service definitions that start the daemon at boot, for systemd,
//! launchd and OpenRC.

use vstd::prelude::*;
use vstd::string::StringExecFns;

use crate::text::str_eq;

verus! {

/// The init systems for which a service definition can be written.
#[derive(Debug, Clone, Copy, PartialEq, Eq, Structural)]
pub enum InitSystem {
    Systemd,
    Launchd,
    Openrc,
    Unknown,
}

impl InitSystem {
    /// The lower-case name of the init system.
    pub open spec fn name(self) -> Seq<char> {
        match self {
            InitSystem::Systemd => "systemd"@,
            InitSystem::Launchd => "launchd"@,
            InitSystem::Openrc => "openrc"@,
            InitSystem::Unknown => "unknown"@,
        }
    }

    /// The lower-case name of the init system.
    pub fn as_str(&self) -> (s: &'static str)
        ensures
            s@ == self.name(),
    {
        match self {
            InitSystem::Systemd => "systemd",
            InitSystem::Launchd => "launchd",
            InitSystem::Openrc => "openrc",
            InitSystem::Unknown => "unknown",
        }
    }
}

/// The init system of a machine: launchd on macOS; on Linux systemd where
/// its runtime directory exists, else OpenRC where its binary exists; none
/// that is known anywhere else.
pub open spec fn init_system_of(os: Seq<char>, has_systemd: bool, has_openrc: bool) -> InitSystem {
    if os == "macos"@ {
        InitSystem::Launchd
    } else if os == "linux"@ {
        if has_systemd {
            InitSystem::Systemd
        } else if has_openrc {
            InitSystem::Openrc
        } else {
            InitSystem::Unknown
        }
    } else {
        InitSystem::Unknown
    }
}

/// Tells the init system from the name of the operating system and from
/// whether `/run/systemd/system` and `/sbin/openrc` exist.
pub fn detect_init_system(os: &str, has_systemd: bool, has_openrc: bool) -> (r: InitSystem)
    ensures
        r == init_system_of(os@, has_systemd, has_openrc),
{
    if str_eq(os, "macos") {
        InitSystem::Launchd
    } else if str_eq(os, "linux") {
        if has_systemd {
            InitSystem::Systemd
        } else if has_openrc {
            InitSystem::Openrc
        } else {
            InitSystem::Unknown
        }
    } else {
        InitSystem::Unknown
    }
}

/// What precedes the path of the binary in a systemd unit.
pub const SYSTEMD_HEAD: &'static str =
    "[Unit]\nDescription=Velos Process Manager\nAfter=network.target\n\n[Service]\nType=simple\nExecStart=";

/// What follows the path of the binary in a systemd unit.
pub const SYSTEMD_TAIL: &'static str =
    " daemon\nExecReload=/bin/kill -HUP $MAINPID\nRestart=on-failure\nRestartSec=5\nLimitNOFILE=65536\nEnvironment=HOME=%h\n\n[Install]\nWantedBy=default.target\n";

/// What precedes the path of the binary in a launchd property list.
pub const LAUNCHD_HEAD: &'static str =
    "<?xml version=\"1.0\" encoding=\"UTF-8\"?>\n<!DOCTYPE plist PUBLIC \"-//Apple//DTD PLIST 1.0//EN\" \"http://www.apple.com/DTDs/PropertyList-1.0.dtd\">\n<plist version=\"1.0\">\n<dict>\n    <key>Label</key>\n    <string>com.velos.daemon</string>\n    <key>ProgramArguments</key>\n    <array>\n        <string>";

/// What follows the path of the binary in a launchd property list.
pub const LAUNCHD_TAIL: &'static str =
    "</string>\n        <string>daemon</string>\n    </array>\n    <key>RunAtLoad</key>\n    <true/>\n    <key>KeepAlive</key>\n    <true/>\n    <key>StandardOutPath</key>\n    <string>/tmp/velos-daemon.stdout.log</string>\n    <key>StandardErrorPath</key>\n    <string>/tmp/velos-daemon.stderr.log</string>\n</dict>\n</plist>\n";

/// What precedes the path of the binary in an OpenRC script.
pub const OPENRC_HEAD: &'static str =
    "#!/sbin/openrc-run\n\nname=\"velos\"\ndescription=\"Velos Process Manager\"\ncommand=\"";

/// What follows the path of the binary in an OpenRC script.
pub const OPENRC_TAIL: &'static str =
    "\"\ncommand_args=\"daemon\"\ncommand_background=true\npidfile=\"/run/${RC_SVCNAME}.pid\"\n\ndepend() {\n    need net\n    after firewall\n}\n";

/// Where the OpenRC script goes.
pub const OPENRC_SERVICE_PATH: &'static str = "/etc/init.d/velos";

/// The systemd user unit that runs `velos_bin daemon`.
pub fn generate_systemd_unit(velos_bin: &str) -> (s: String)
    ensures
        s@ == SYSTEMD_HEAD@ + velos_bin@ + SYSTEMD_TAIL@,
{
    let mut out = String::from_str(SYSTEMD_HEAD);
    out.append(velos_bin);
    out.append(SYSTEMD_TAIL);
    out
}

/// The launchd property list that runs `velos_bin daemon`.
pub fn generate_launchd_plist(velos_bin: &str) -> (s: String)
    ensures
        s@ == LAUNCHD_HEAD@ + velos_bin@ + LAUNCHD_TAIL@,
{
    let mut out = String::from_str(LAUNCHD_HEAD);
    out.append(velos_bin);
    out.append(LAUNCHD_TAIL);
    out
}

/// The OpenRC script that runs `velos_bin daemon`.
pub fn generate_openrc_script(velos_bin: &str) -> (s: String)
    ensures
        s@ == OPENRC_HEAD@ + velos_bin@ + OPENRC_TAIL@,
{
    let mut out = String::from_str(OPENRC_HEAD);
    out.append(velos_bin);
    out.append(OPENRC_TAIL);
    out
}

/// Where the OpenRC script goes.
pub fn openrc_service_path() -> (s: &'static str)
    ensures
        s@ == OPENRC_SERVICE_PATH@,
{
    OPENRC_SERVICE_PATH
}

} // verus!
