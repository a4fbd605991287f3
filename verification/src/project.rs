//! The records a project file holds: every host with its settings and its
//! clients.
use vstd::prelude::*;

verus! {

pub const PROJECT_FORMAT_VERSION: u32 = 1;

/// A whole project: its format version and its hosts.
#[derive(Debug, Clone)]
pub struct ProjectFile {
    pub version: u32,
    pub hosts: Vec<HostProjectDict>,
}

/// One host of a project: its `[Interface]` fields, the form settings
/// around them, and its clients.
#[derive(Debug, Clone)]
pub struct HostProjectDict {
    pub name: String,
    pub private_key: Option<String>,
    pub address: Vec<String>,
    pub listen_port: Option<u16>,
    pub dns: Vec<String>,
    pub mtu: Option<u32>,
    pub table: Option<String>,
    pub fw_mark: Option<String>,
    pub pre_up: Vec<String>,
    pub post_up: Vec<String>,
    pub pre_down: Vec<String>,
    pub post_down: Vec<String>,
    pub save_config: Option<bool>,
    /// The host's externally reachable address.
    pub public_ip: Option<String>,
    /// Older projects stored a combined `host:port` endpoint instead.
    pub public_endpoint: Option<String>,
    pub manual_key: bool,
    pub clients: Vec<ClientProjectDict>,
}

/// One client of a host in a project.
#[derive(Debug, Clone)]
pub struct ClientProjectDict {
    pub name: String,
    pub private_key: Option<String>,
    pub address: Vec<String>,
    pub dns: Vec<String>,
    pub mtu: Option<u32>,
    pub manual_key: bool,
    pub allowed_ips: Vec<String>,
    pub endpoint: Option<String>,
    pub endpoint_manual: bool,
    pub persistent_keepalive: Option<u32>,
    pub use_preshared_key: bool,
    pub preshared_key: Option<String>,
    pub tunnel_id: Option<u32>,
    pub tunnel_id_manual: bool,
}

impl Default for ProjectFile {
    /// A project of no hosts, format version 0.
    fn default() -> (res: ProjectFile)
        ensures
            res.version == 0,
            res.hosts@.len() == 0,
    {
        ProjectFile { version: 0, hosts: Vec::new() }
    }
}

impl Default for HostProjectDict {
    /// An unnamed host record with every field unset and no clients.
    fn default() -> (res: HostProjectDict)
        ensures
            res.name@ == Seq::<char>::empty(),
            res.private_key.is_none(),
            res.address@.len() == 0,
            res.listen_port.is_none(),
            res.dns@.len() == 0,
            res.mtu.is_none(),
            res.table.is_none(),
            res.fw_mark.is_none(),
            res.pre_up@.len() == 0,
            res.post_up@.len() == 0,
            res.pre_down@.len() == 0,
            res.post_down@.len() == 0,
            res.save_config.is_none(),
            res.public_ip.is_none(),
            res.public_endpoint.is_none(),
            !res.manual_key,
            res.clients@.len() == 0,
    {
        HostProjectDict {
            name: String::new(),
            private_key: None,
            address: Vec::new(),
            listen_port: None,
            dns: Vec::new(),
            mtu: None,
            table: None,
            fw_mark: None,
            pre_up: Vec::new(),
            post_up: Vec::new(),
            pre_down: Vec::new(),
            post_down: Vec::new(),
            save_config: None,
            public_ip: None,
            public_endpoint: None,
            manual_key: false,
            clients: Vec::new(),
        }
    }
}

impl Default for ClientProjectDict {
    /// An unnamed client record with every field unset.
    fn default() -> (res: ClientProjectDict)
        ensures
            res.name@ == Seq::<char>::empty(),
            res.private_key.is_none(),
            res.address@.len() == 0,
            res.dns@.len() == 0,
            res.mtu.is_none(),
            !res.manual_key,
            res.allowed_ips@.len() == 0,
            res.endpoint.is_none(),
            !res.endpoint_manual,
            res.persistent_keepalive.is_none(),
            !res.use_preshared_key,
            res.preshared_key.is_none(),
            res.tunnel_id.is_none(),
            !res.tunnel_id_manual,
    {
        ClientProjectDict {
            name: String::new(),
            private_key: None,
            address: Vec::new(),
            dns: Vec::new(),
            mtu: None,
            manual_key: false,
            allowed_ips: Vec::new(),
            endpoint: None,
            endpoint_manual: false,
            persistent_keepalive: None,
            use_preshared_key: false,
            preshared_key: None,
            tunnel_id: None,
            tunnel_id_manual: false,
        }
    }
}

} // verus!
