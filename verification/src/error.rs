//! The error taxonomy surfaced by the supervisor's clients.

use vstd::prelude::*;
use vstd::string::StringExecFns;

verus! {

/// Failures that a client of the daemon can observe.
#[derive(Debug)]
pub enum VelosError {
    /// Connecting failed because no daemon listens on the socket.
    DaemonNotRunning,
    /// Connecting failed for another reason; carries the cause.
    ConnectionFailed(String),
    /// The daemon did not answer in time.
    ConnectionTimeout,
    /// No process has the given name or id.
    ProcessNotFound(String),
    /// Framing error, unknown command or status, truncated payload.
    ProtocolError(String),
    /// A value could not be serialised.
    Serialize(String),
    /// An I/O failure; carries its message.
    Io(String),
}

impl VelosError {
    /// The message shown to the user for this error.
    pub open spec fn text(&self) -> Seq<char> {
        match self {
            VelosError::DaemonNotRunning => "daemon is not running"@,
            VelosError::ConnectionFailed(m) => "connection failed: "@ + m@,
            VelosError::ConnectionTimeout => "connection timeout"@,
            VelosError::ProcessNotFound(m) => "process not found: "@ + m@,
            VelosError::ProtocolError(m) => "protocol error: "@ + m@,
            VelosError::Serialize(m) => "serialization error: "@ + m@,
            VelosError::Io(m) => m@,
        }
    }

    /// True when this is a protocol error whose message is `msg`.
    pub open spec fn is_protocol(&self, msg: Seq<char>) -> bool {
        self matches VelosError::ProtocolError(m) && m@ == msg
    }

    /// True when this is a process-not-found error naming `name`.
    pub open spec fn is_not_found(&self, name: Seq<char>) -> bool {
        self matches VelosError::ProcessNotFound(m) && m@ == name
    }

    /// Renders the user-facing message.
    pub fn to_string(&self) -> (out: String)
        ensures
            out@ == self.text(),
    {
        match self {
            VelosError::DaemonNotRunning => String::from_str("daemon is not running"),
            VelosError::ConnectionFailed(m) => String::from_str("connection failed: ").concat(
                m.as_str(),
            ),
            VelosError::ConnectionTimeout => String::from_str("connection timeout"),
            VelosError::ProcessNotFound(m) => String::from_str("process not found: ").concat(
                m.as_str(),
            ),
            VelosError::ProtocolError(m) => String::from_str("protocol error: ").concat(m.as_str()),
            VelosError::Serialize(m) => String::from_str("serialization error: ").concat(
                m.as_str(),
            ),
            VelosError::Io(m) => m.clone(),
        }
    }
}

/// Builds a protocol error from a message.
pub fn protocol_error(msg: &str) -> (e: VelosError)
    ensures
        e.is_protocol(msg@),
{
    VelosError::ProtocolError(String::from_str(msg))
}

/// The texts of a list of strings.
pub open spec fn line_texts(lines: Seq<String>) -> Seq<Seq<char>> {
    lines.map_values(|s: String| s@)
}

impl VelosError {
    /// What the command line prints for this error: the error, and for the
    /// errors that the user can act on a hint of what to do.
    pub open spec fn report(&self) -> Seq<Seq<char>> {
        match self {
            VelosError::DaemonNotRunning => seq![
                "Error: Daemon is not running."@,
                "  Start it with: velos daemon"@,
            ],
            VelosError::ConnectionFailed(m) => seq![
                "Error: Cannot connect to daemon: "@ + m@,
                "  Is the daemon running? Start with: velos daemon"@,
            ],
            VelosError::ConnectionTimeout => seq![
                "Error: Connection to daemon timed out."@,
                "  Check if the daemon is responsive: velos ping"@,
            ],
            VelosError::ProcessNotFound(m) => seq![
                "Error: Process '"@ + m@ + "' not found."@,
                "  Run 'velos list' to see running processes."@,
            ],
            VelosError::ProtocolError(m) => seq![
                "Error: Protocol error: "@ + m@,
                "  This may indicate a version mismatch. Try restarting the daemon."@,
            ],
            _ => seq!["Error: "@ + self.text()],
        }
    }

    /// The lines that the command line prints for this error.
    pub fn report_lines(&self) -> (lines: Vec<String>)
        ensures
            line_texts(lines@) == self.report(),
    {
        let mut lines: Vec<String> = Vec::new();
        match self {
            VelosError::DaemonNotRunning => {
                lines.push(String::from_str("Error: Daemon is not running."));
                lines.push(String::from_str("  Start it with: velos daemon"));
            },
            VelosError::ConnectionFailed(m) => {
                lines.push(String::from_str("Error: Cannot connect to daemon: ").concat(m.as_str()));
                lines.push(String::from_str("  Is the daemon running? Start with: velos daemon"));
            },
            VelosError::ConnectionTimeout => {
                lines.push(String::from_str("Error: Connection to daemon timed out."));
                lines.push(String::from_str("  Check if the daemon is responsive: velos ping"));
            },
            VelosError::ProcessNotFound(m) => {
                let mut first = String::from_str("Error: Process '");
                first.append(m.as_str());
                first.append("' not found.");
                lines.push(first);
                lines.push(String::from_str("  Run 'velos list' to see running processes."));
            },
            VelosError::ProtocolError(m) => {
                lines.push(String::from_str("Error: Protocol error: ").concat(m.as_str()));
                lines.push(
                    String::from_str(
                        "  This may indicate a version mismatch. Try restarting the daemon.",
                    ),
                );
            },
            _ => {
                let text = self.to_string();
                lines.push(String::from_str("Error: ").concat(text.as_str()));
            },
        }
        assert(line_texts(lines@) =~= self.report());
        lines
    }
}

} // verus!
