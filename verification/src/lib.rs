//! Building, rendering and parsing WireGuard tunnel configurations: key
//! pairs, hosts and peers, `.conf` text both ways, address pools, a
//! multi-host network, and the form state of a configuration studio.
pub mod client_tab;
pub mod dict;
pub mod error;
pub mod field_law;
pub mod form;
pub mod form_law;
pub mod host;
pub mod host_tab;
pub mod ip;
pub mod keys;
pub mod layout;
pub mod network;
pub mod parse;
pub mod peer;
pub mod pool;
pub mod project;
pub mod record_law;
pub mod reload;
pub mod roundtrip;
pub mod studio;
pub mod text;
pub mod ui_state;

pub use dict::{host_from_dict, host_to_dict, HostDict};
pub use error::WgError;
pub use host::{HostOptions, WireGuardHost};
pub use keys::{generate_preshared_key, generate_private_key, public_key_from_private, validate_key};
pub use network::WireGuardNetwork;
pub use parse::load_host_from_config;
pub use peer::Peer;
pub use pool::IpAddressPool;
