//! What the forms report back to the application after a frame: popups to
//! show and tabs to close, and what a client form needs to know of its
//! host.
use vstd::prelude::*;

verus! {

/// A popup: information, an error, or a read-only, copyable preview of
/// generated text (a `.conf` file).
#[derive(Clone, Debug)]
pub enum Modal {
    Info { title: String, body: String },
    Error { title: String, body: String },
    Preview { title: String, body: String },
}

/// What one frame of a client form asks for.
pub struct ClientUiOutcome {
    pub close_requested: bool,
    pub modal: Option<Modal>,
    pub sync_ran: bool,
}

impl Default for ClientUiOutcome {
    fn default() -> (res: ClientUiOutcome)
        ensures
            !res.close_requested,
            res.modal is None,
            !res.sync_ran,
    {
        ClientUiOutcome { close_requested: false, modal: None, sync_ran: false }
    }
}

/// What a client form reads of its host.
pub struct ClientCtx<'a> {
    pub host_pubkey: &'a str,
    pub host_name: &'a str,
    pub host_public_ip: &'a str,
    pub host_listen_port: &'a str,
    pub host_dns: &'a [String],
    pub host_mtu: Option<u32>,
    /// The host's bare address, for tunnels that name the remote end.
    pub host_tunnel_remote: Option<String>,
}

/// What one frame of a host form asks for.
pub struct HostUiOutcome {
    pub modal: Option<Modal>,
    pub close_requested: bool,
    /// Set when a client's "Remove Client" button was clicked, so that the
    /// application can ask for confirmation first.
    pub close_client_requested: Option<usize>,
}

impl Default for HostUiOutcome {
    fn default() -> (res: HostUiOutcome)
        ensures
            res.modal is None,
            !res.close_requested,
            res.close_client_requested is None,
    {
        HostUiOutcome { modal: None, close_requested: false, close_client_requested: None }
    }
}

} // verus!
