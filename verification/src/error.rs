//! The errors of the capture side, their messages, and the platforms they
//! are told for.

use vstd::prelude::*;
use crate::text::{decimal, push_decimal, push_signed, signed_decimal};

verus! {

broadcast use vstd::string::group_string_axioms;

/// The operating systems the capture backends know.
#[derive(Copy, Clone, Debug, PartialEq, Eq, Structural)]
pub enum Platform {
    FreeBsd,
    Linux,
    Other,
}

pub open spec fn spec_permission_hint(p: Platform) -> &'static str {
    match p {
        Platform::FreeBsd => "permission denied \u{2014} try running with doas/sudo, or grant yourself access to /dev/bpf",
        Platform::Linux => "permission denied \u{2014} try running with sudo, or grant CAP_NET_RAW to the binary",
        Platform::Other => "permission denied",
    }
}

/// What to tell a user who may not capture, on platform `p`.
pub fn permission_hint(p: Platform) -> (r: &'static str)
    ensures
        r == spec_permission_hint(p),
{
    match p {
        Platform::FreeBsd => "permission denied \u{2014} try running with doas/sudo, or grant yourself access to /dev/bpf",
        Platform::Linux => "permission denied \u{2014} try running with sudo, or grant CAP_NET_RAW to the binary",
        Platform::Other => "permission denied",
    }
}

/// What can go wrong while capturing. An I/O error is held as its message.
#[derive(Debug)]
pub enum Error {
    Io(String),
    Capture(String),
    Sysctl { oid: String, errno: i32 },
    NoSuchInterface(String),
    PermissionDenied,
    Parse(String),
    Config(String),
}

impl Error {
    pub open spec fn spec_message(&self, p: Platform) -> Seq<char> {
        match self {
            Error::Io(m) => "I/O error: "@ + m@,
            Error::Capture(m) => "capture: "@ + m@,
            Error::Sysctl { oid, errno } => "sysctl "@ + oid@ + " failed: "@ + signed_decimal(*errno as int),
            Error::NoSuchInterface(n) => "interface "@ + n@ + " not found"@,
            Error::PermissionDenied => spec_permission_hint(p)@,
            Error::Parse(m) => "parse: "@ + m@,
            Error::Config(m) => "configuration: "@ + m@,
        }
    }

    /// The message for this error on platform `p`.
    pub fn message(&self, p: Platform) -> (r: String)
        ensures
            r@ == self.spec_message(p),
    {
        match self {
            Error::Io(m) => {
                let mut s = String::from_str("I/O error: ");
                s.append(m.as_str());
                s
            },
            Error::Capture(m) => {
                let mut s = String::from_str("capture: ");
                s.append(m.as_str());
                s
            },
            Error::Sysctl { oid, errno } => {
                let mut s = String::from_str("sysctl ");
                s.append(oid.as_str());
                s.append(" failed: ");
                push_signed(&mut s, *errno as i64);
                s
            },
            Error::NoSuchInterface(n) => {
                let mut s = String::from_str("interface ");
                s.append(n.as_str());
                s.append(" not found");
                s
            },
            Error::PermissionDenied => String::from_str(permission_hint(p)),
            Error::Parse(m) => {
                let mut s = String::from_str("parse: ");
                s.append(m.as_str());
                s
            },
            Error::Config(m) => {
                let mut s = String::from_str("configuration: ");
                s.append(m.as_str());
                s
            },
        }
    }
}

} // verus!
