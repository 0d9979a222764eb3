//! Host-management agent: a typed command protocol for a privileged helper
//! process, and a declarative network-configuration engine.
//!
//! - [`protocol`], [`task`], [`client`]: the command taxonomy, the argument
//!   codec, the dispatcher inside the helper and the caller's side of it.
//! - [`interface`], [`netplan`], [`ifconfig`]: interface records, the merged
//!   configuration document, and the `Get`/`List`/`Set`/`Init`/`Delete`
//!   operations with their validation.
//! - [`ntp`], [`syslog`], [`ufw`], [`hwinfo`], [`services`], [`sshd`]: the rules of the
//!   simpler collaborators (configuration lines, status outputs).
//! - [`order`], [`lines`], [`text`]: name order, line filtering, and the
//!   text operations of std and regex that the rules build on.
//!
//! Everything here is computation with proved contracts; reading files,
//! spawning processes and talking to the kernel is left to the caller.

pub mod client;
pub mod hwinfo;
pub mod ifconfig;
pub mod interface;
pub mod lines;
pub mod netplan;
pub mod ntp;
pub mod order;
pub mod protocol;
pub mod services;
pub mod sshd;
pub mod syslog;
pub mod task;
pub mod text;
pub mod ufw;
