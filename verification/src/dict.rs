//! A host's own `[Interface]` fields (not its peers) as a plain record, the
//! form in which projects store hosts.
use vstd::prelude::*;

use crate::error::WgError;
use crate::host::{host_from_options, host_keys_ok, options_ok, HostOptions, HostView, OptionsView, WireGuardHost};
use crate::text::{clone_opt_string, clone_strings, opt_view, string_clone, string_views};

verus! {

/// The `[Interface]` fields of a host, as stored in a project file.
#[derive(Debug, Clone)]
pub struct HostDict {
    pub name: String,
    pub private_key: Option<String>,
    pub address: Vec<String>,
    pub listen_port: Option<u16>,
    pub dns: Vec<String>,
    pub mtu: Option<u32>,
    pub table: Option<String>,
    pub fw_mark: Option<String>,
    pub pre_up: Vec<String>,
    pub post_up: Vec<String>,
    pub pre_down: Vec<String>,
    pub post_down: Vec<String>,
    pub save_config: Option<bool>,
}

impl Default for HostDict {
    /// An unnamed record with every field unset.
    fn default() -> (res: HostDict)
        ensures
            res.name@ == Seq::<char>::empty(),
            res.options_view() == (OptionsView {
                private_key: None,
                address: Seq::empty(),
                listen_port: None,
                dns: Seq::empty(),
                mtu: None,
                table: None,
                pre_up: Seq::empty(),
                post_up: Seq::empty(),
                pre_down: Seq::empty(),
                post_down: Seq::empty(),
                save_config: None,
                fw_mark: None,
            }),
    {
        let res = HostDict {
            name: String::new(),
            private_key: None,
            address: Vec::new(),
            listen_port: None,
            dns: Vec::new(),
            mtu: None,
            table: None,
            fw_mark: None,
            pre_up: Vec::new(),
            post_up: Vec::new(),
            pre_down: Vec::new(),
            post_down: Vec::new(),
            save_config: None,
        };
        assert(res.options_view() =~= (OptionsView {
            private_key: None,
            address: Seq::empty(),
            listen_port: None,
            dns: Seq::empty(),
            mtu: None,
            table: None,
            pre_up: Seq::empty(),
            post_up: Seq::empty(),
            pre_down: Seq::empty(),
            post_down: Seq::empty(),
            save_config: None,
            fw_mark: None,
        }));
        res
    }
}

impl HostDict {
    /// The name and the options this record stands for.
    pub open spec fn name_view(&self) -> Seq<char> {
        self.name@
    }

    pub open spec fn options_view(&self) -> OptionsView {
        OptionsView {
            private_key: opt_view(self.private_key),
            address: string_views(self.address@),
            listen_port: self.listen_port,
            dns: string_views(self.dns@),
            mtu: self.mtu,
            table: opt_view(self.table),
            pre_up: string_views(self.pre_up@),
            post_up: string_views(self.post_up@),
            pre_down: string_views(self.pre_down@),
            post_down: string_views(self.post_down@),
            save_config: self.save_config,
            fw_mark: opt_view(self.fw_mark),
        }
    }
}

/// The options a host's record holds: its own fields, with its private key.
pub open spec fn host_options_of(h: HostView) -> OptionsView {
    OptionsView {
        private_key: Some(h.private_key),
        address: h.address,
        listen_port: h.listen_port,
        dns: h.dns,
        mtu: h.mtu,
        table: h.table,
        pre_up: h.pre_up,
        post_up: h.post_up,
        pre_down: h.pre_down,
        post_down: h.post_down,
        save_config: h.save_config,
        fw_mark: h.fw_mark,
    }
}

/// The record of a host's `[Interface]` fields.
pub fn host_to_dict(host: &WireGuardHost) -> (res: HostDict)
    ensures
        res.name_view() == host@.name,
        res.options_view() == host_options_of(host@),
{
    HostDict {
        name: string_clone(&host.name),
        private_key: Some(string_clone(&host.private_key)),
        address: clone_strings(host.address.as_slice()),
        listen_port: host.listen_port,
        dns: clone_strings(host.dns.as_slice()),
        mtu: host.mtu,
        table: clone_opt_string(&host.table),
        fw_mark: clone_opt_string(&host.fw_mark),
        pre_up: clone_strings(host.pre_up.as_slice()),
        post_up: clone_strings(host.post_up.as_slice()),
        pre_down: clone_strings(host.pre_down.as_slice()),
        post_down: clone_strings(host.post_down.as_slice()),
        save_config: host.save_config,
    }
}

/// Inverse of `host_to_dict`: builds the host (without peers) through
/// `WireGuardHost::new`.
pub fn host_from_dict(d: &HostDict) -> (res: Result<WireGuardHost, WgError>)
    ensures
        res is Ok <==> options_ok(d.options_view()),
        match res {
            Ok(h) => h@ == host_from_options(d.name_view(), d.options_view(), h@.private_key)
                && host_keys_ok(h@) && (d.options_view().private_key matches Some(k)
                ==> h@.private_key == k),
            Err(e) => !options_ok(d.options_view()),
        },
{
    let opts = HostOptions {
        private_key: clone_opt_string(&d.private_key),
        address: clone_strings(d.address.as_slice()),
        listen_port: d.listen_port,
        dns: clone_strings(d.dns.as_slice()),
        mtu: d.mtu,
        table: clone_opt_string(&d.table),
        fw_mark: clone_opt_string(&d.fw_mark),
        pre_up: clone_strings(d.pre_up.as_slice()),
        post_up: clone_strings(d.post_up.as_slice()),
        pre_down: clone_strings(d.pre_down.as_slice()),
        post_down: clone_strings(d.post_down.as_slice()),
        save_config: d.save_config,
    };
    assert(opts@ == d.options_view());
    WireGuardHost::new(d.name.as_str(), opts)
}

/// Storing a host as a record and building it back gives the same host
/// without its peers: same name, same private and public key, same
/// `[Interface]` fields.
pub proof fn lemma_dict_roundtrip(h: HostView)
    requires
        host_keys_ok(h),
    ensures
        options_ok(host_options_of(h)),
        host_from_options(h.name, host_options_of(h), h.private_key) == (HostView {
            peers: Seq::empty(),
            ..h
        }),
{
}

} // verus!
