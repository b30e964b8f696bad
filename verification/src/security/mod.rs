//! Authorization (who may do what over the IPC socket), secrets handling
//! and the shared input validation for everything that ends up in a
//! plain-text command or config format.

pub mod permissions;
pub mod policy;
pub mod secrets;
pub mod tempfile;
pub mod validation;

pub use permissions::PeerIdentity;
pub use policy::Capability;
