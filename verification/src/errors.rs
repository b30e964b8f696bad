//! The crate-wide error type.

use vstd::prelude::*;

verus! {

/// Everything that can go wrong anywhere in the daemon, by subsystem.
#[derive(Debug, Clone)]
pub enum NetworkError {
    Io(String),
    Parse(String),
    Config(String),
    Wifi(String),
    Vpn(String),
    Dhcp(String),
    NotFound(String),
    PermissionDenied(String),
    Timeout(String),
    Other(String),
}

impl NetworkError {
    /// The human-readable message carried by the error.
    pub fn message(&self) -> (m: String)
        ensures
            m@ == self.message_view(),
    {
        match self {
            NetworkError::Io(m) => m.clone(),
            NetworkError::Parse(m) => m.clone(),
            NetworkError::Config(m) => m.clone(),
            NetworkError::Wifi(m) => m.clone(),
            NetworkError::Vpn(m) => m.clone(),
            NetworkError::Dhcp(m) => m.clone(),
            NetworkError::NotFound(m) => m.clone(),
            NetworkError::PermissionDenied(m) => m.clone(),
            NetworkError::Timeout(m) => m.clone(),
            NetworkError::Other(m) => m.clone(),
        }
    }

    pub open spec fn message_view(self) -> Seq<char> {
        match self {
            NetworkError::Io(m) => m@,
            NetworkError::Parse(m) => m@,
            NetworkError::Config(m) => m@,
            NetworkError::Wifi(m) => m@,
            NetworkError::Vpn(m) => m@,
            NetworkError::Dhcp(m) => m@,
            NetworkError::NotFound(m) => m@,
            NetworkError::PermissionDenied(m) => m@,
            NetworkError::Timeout(m) => m@,
            NetworkError::Other(m) => m@,
        }
    }
}

/// `r` failed with a `Parse` error whose message is `msg`.
pub open spec fn parse_err<T>(r: Result<T, NetworkError>, msg: Seq<char>) -> bool {
    r matches Err(NetworkError::Parse(m)) && m@ == msg
}

/// `r` failed with a `Config` error whose message is `msg`.
pub open spec fn config_err<T>(r: Result<T, NetworkError>, msg: Seq<char>) -> bool {
    r matches Err(NetworkError::Config(m)) && m@ == msg
}

/// `r` failed with a `Wifi` error whose message is `msg`.
pub open spec fn wifi_err<T>(r: Result<T, NetworkError>, msg: Seq<char>) -> bool {
    r matches Err(NetworkError::Wifi(m)) && m@ == msg
}

/// `r` failed with a `Vpn` error whose message is `msg`.
pub open spec fn vpn_err<T>(r: Result<T, NetworkError>, msg: Seq<char>) -> bool {
    r matches Err(NetworkError::Vpn(m)) && m@ == msg
}

/// `r` failed with an `Other` error whose message is `msg`.
pub open spec fn other_err<T>(r: Result<T, NetworkError>, msg: Seq<char>) -> bool {
    r matches Err(NetworkError::Other(m)) && m@ == msg
}

/// `r` failed with a `NotFound` error whose message is `msg`.
pub open spec fn not_found_err<T>(r: Result<T, NetworkError>, msg: Seq<char>) -> bool {
    r matches Err(NetworkError::NotFound(m)) && m@ == msg
}

/// `r` failed with a `PermissionDenied` error whose message is `msg`.
pub open spec fn permission_err<T>(r: Result<T, NetworkError>, msg: Seq<char>) -> bool {
    r matches Err(NetworkError::PermissionDenied(m)) && m@ == msg
}

/// `a ++ b ++ c` as a new `String`.
pub fn join3(a: &str, b: &str, c: &str) -> (r: String)
    ensures
        r@ == a@ + b@ + c@,
{
    let mut r = String::from_str(a);
    r.append(b);
    r.append(c);
    r
}

/// `a ++ b` as a new `String`.
pub fn join2(a: &str, b: &str) -> (r: String)
    ensures
        r@ == a@ + b@,
{
    let mut r = String::from_str(a);
    r.append(b);
    r
}

} // verus!

verus! {

/// The subsystem an error belongs to.
#[derive(Debug, Clone, Copy, PartialEq, Eq, Structural)]
pub enum ErrKind {
    Io,
    Parse,
    Config,
    Wifi,
    Vpn,
    Dhcp,
    NotFound,
    PermissionDenied,
    Timeout,
    Other,
}

impl NetworkError {
    /// Kind and message of the error.
    pub open spec fn view(self) -> (ErrKind, Seq<char>) {
        match self {
            NetworkError::Io(m) => (ErrKind::Io, m@),
            NetworkError::Parse(m) => (ErrKind::Parse, m@),
            NetworkError::Config(m) => (ErrKind::Config, m@),
            NetworkError::Wifi(m) => (ErrKind::Wifi, m@),
            NetworkError::Vpn(m) => (ErrKind::Vpn, m@),
            NetworkError::Dhcp(m) => (ErrKind::Dhcp, m@),
            NetworkError::NotFound(m) => (ErrKind::NotFound, m@),
            NetworkError::PermissionDenied(m) => (ErrKind::PermissionDenied, m@),
            NetworkError::Timeout(m) => (ErrKind::Timeout, m@),
            NetworkError::Other(m) => (ErrKind::Other, m@),
        }
    }
}

} // verus!
