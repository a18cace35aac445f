//! Building blocks for an outbound, optionally proxied, TLS-encrypted and
//! message-framed connection: the proxy descriptor and its textual form, and
//! the rules by which the layers of such a connection are put on top of each
//! other.

pub mod banner;
pub mod descriptor;
pub mod external;
pub mod host;
pub mod proxy_socket;
pub mod text;

pub use crate::descriptor::{Proxy, ProxyKind, ProxyParseError};
