//! The application's own state around the host forms: the host tabs and
//! which one is shown, popups, confirmations, keyboard shortcuts, and
//! whole projects.
use vstd::prelude::*;

use crate::host_tab::{
    can_add_client, client_tab_added, fresh_host_tab, full_built, host_record, host_tab_from_record,
    selected_after_close, shortcut_target, subtab_at, HostSubTab, HostTabState, HostTabView,
};
use crate::project::{HostProjectDict, ProjectFile, PROJECT_FORMAT_VERSION};
use crate::text::{dec, dec_string, string_of};
use crate::ui_state::{HostUiOutcome, Modal};
use crate::host::HostView;

verus! {

/// An action waiting for the user's confirmation.
#[derive(Clone, Copy, PartialEq, Eq, Structural)]
pub enum PendingConfirm {
    CloseHost { host_idx: usize },
    CloseClient { host_idx: usize, client_idx: usize },
    ResetProject,
}

/// The application state: one form per host, the host tab shown, the
/// "confirm before closing tabs" setting, the popup shown, and the
/// confirmation asked for (title, question, action).
pub struct WgStudioApp {
    pub hosts: Vec<HostTabState>,
    pub selected_host: usize,
    pub host_counter: u64,
    pub confirm_close: bool,
    pub modal: Option<Modal>,
    pub confirm: Option<(String, String, PendingConfirm)>,
    pub theme_applied: bool,
}

pub struct StudioView {
    pub hosts: Seq<HostTabView>,
    pub selected_host: usize,
    pub host_counter: u64,
    pub confirm_close: bool,
    pub modal: Option<Modal>,
    pub confirm: Option<(Seq<char>, Seq<char>, PendingConfirm)>,
    pub theme_applied: bool,
}

impl View for WgStudioApp {
    type V = StudioView;

    open spec fn view(&self) -> StudioView {
        StudioView {
            hosts: Seq::new(self.hosts@.len(), |i: int| self.hosts@[i]@),
            selected_host: self.selected_host,
            host_counter: self.host_counter,
            confirm_close: self.confirm_close,
            modal: self.modal,
            confirm: match self.confirm {
                Some((t, b, a)) => Some((t@, b@, a)),
                None => None,
            },
            theme_applied: self.theme_applied,
        }
    }
}

/// The name of the `n`-th host tab.
pub open spec fn host_tab_name(n: nat) -> Seq<char> {
    "host-"@ + dec(n)
}

/// A host tab was added to `o`, giving `f`: a fresh form named after the
/// incremented counter, appended and shown.
pub open spec fn host_added(o: StudioView, f: StudioView) -> bool {
    let n = (o.host_counter + 1) as u64;
    &&& f.hosts.len() == o.hosts.len() + 1
    &&& f.hosts.drop_last() == o.hosts
    &&& fresh_host_tab(f.hosts.last(), n, host_tab_name(n as nat))
    &&& f == StudioView { hosts: f.hosts, selected_host: o.hosts.len() as usize, host_counter: n, ..o }
}

/// The host tab at `idx` (if any) was closed in `o`, giving `f`: the
/// selection moves to the last tab when it fell off the end, and a fresh
/// tab opens when none is left.
pub open spec fn host_closed(o: StudioView, idx: usize, f: StudioView) -> bool {
    let kept = if idx < o.hosts.len() {
        o.hosts.remove(idx as int)
    } else {
        o.hosts
    };
    if kept.len() == 0 {
        host_added(StudioView { hosts: kept, ..o }, f)
    } else {
        f == StudioView {
            hosts: kept,
            selected_host: if o.selected_host >= kept.len() {
                (kept.len() - 1) as usize
            } else {
                o.selected_host
            },
            ..o
        }
    }
}

/// The host form after the client at `idx` (if any) was closed.
pub open spec fn client_closed(t: HostTabView, idx: usize) -> HostTabView {
    HostTabView {
        clients: if idx < t.clients.len() {
            t.clients.remove(idx as int)
        } else {
            t.clients
        },
        selected: selected_after_close(t.selected, idx),
        ..t
    }
}

/// Every host tab was removed and the counter restarted, then a fresh
/// tab opened.
pub open spec fn project_reset(o: StudioView, f: StudioView) -> bool {
    host_added(StudioView { hosts: Seq::empty(), host_counter: 0, ..o }, f)
}

pub open spec fn remove_client_prompt(name: Seq<char>) -> Seq<char> {
    "Remove client '"@ + name + "'?"@
}

pub open spec fn close_host_prompt(name: Seq<char>) -> Seq<char> {
    "Close host '"@ + name + "' and all its client tabs?"@
}

/// Building the full model of host form `o` succeeded, leaving form `f`.
pub open spec fn host_rebuilt(o: HostTabView, f: HostTabView) -> bool {
    exists|h: HostView| #[trigger] full_built(o, f, Some(h))
}

/// Host form `o` was rebuilt into `f` and recorded as `d`.
pub open spec fn host_saved(o: HostTabView, f: HostTabView, d: HostProjectDict) -> bool {
    host_rebuilt(o, f) && host_record(f, d)
}

/// The host tab the shortcuts act on: the shown one, kept in range.
pub open spec fn shown_host(o: StudioView) -> usize {
    if o.selected_host < o.hosts.len() - 1 {
        o.selected_host
    } else {
        (o.hosts.len() - 1) as usize
    }
}

/// The host form after an optional new client tab.
pub open spec fn after_new_client(h0: HostTabView, want_new: bool, h1: HostTabView) -> bool {
    if want_new {
        client_tab_added(h0, None, h1)
    } else {
        h1 == h0
    }
}

/// The host form after an optional jump to a sub-tab by number.
pub open spec fn after_number(h1: HostTabView, want_number: Option<usize>) -> HostTabView {
    match want_number {
        Some(n) => match shortcut_target(n as int, 1 + h1.clients.len() as int) {
            Some(t) => HostTabView { selected: subtab_at(t), ..h1 },
            None => h1,
        },
        None => h1,
    }
}

/// The state after the close shortcut on the host tab at `idx` (whose
/// form is `s2.hosts[idx]`): the shown client is removed, or else the host
/// tab is closed; either is asked first when closing needs confirming.
pub open spec fn after_close_shortcut(s2: StudioView, idx: usize, f: StudioView) -> bool {
    let h2 = s2.hosts[idx as int];
    match h2.selected {
        HostSubTab::Client(ci) => if s2.confirm_close {
            f == StudioView {
                confirm: Some(
                    (
                        "Remove client"@,
                        remove_client_prompt(h2.clients[ci as int].name),
                        PendingConfirm::CloseClient { host_idx: idx, client_idx: ci },
                    ),
                ),
                ..s2
            }
        } else {
            f == StudioView { hosts: s2.hosts.update(idx as int, client_closed(h2, ci)), ..s2 }
        },
        HostSubTab::Settings => if s2.confirm_close {
            f == StudioView {
                confirm: Some(
                    ("Close host tab"@, close_host_prompt(h2.name), PendingConfirm::CloseHost { host_idx: idx }),
                ),
                ..s2
            }
        } else {
            host_closed(s2, idx, f)
        },
    }
}

fn remove_client_confirm(name: &str, host_idx: usize, client_idx: usize) -> (res: (String, String, PendingConfirm))
    ensures
        res.0@ == "Remove client"@,
        res.1@ == remove_client_prompt(name@),
        res.2 == (PendingConfirm::CloseClient { host_idx, client_idx }),
{
    let mut body = string_of("Remove client '");
    body.append(name);
    body.append("'?");
    (string_of("Remove client"), body, PendingConfirm::CloseClient { host_idx, client_idx })
}

fn close_host_confirm(name: &str, host_idx: usize) -> (res: (String, String, PendingConfirm))
    ensures
        res.0@ == "Close host tab"@,
        res.1@ == close_host_prompt(name@),
        res.2 == (PendingConfirm::CloseHost { host_idx }),
{
    let mut body = string_of("Close host '");
    body.append(name);
    body.append("' and all its client tabs?");
    (string_of("Close host tab"), body, PendingConfirm::CloseHost { host_idx })
}

impl WgStudioApp {
    /// Every host form is well formed.
    pub open spec fn hosts_wf(&self) -> bool {
        forall|i: int| 0 <= i < self.hosts@.len() ==> (#[trigger] self.hosts@[i]).wf()
    }

    /// The host forms are well formed, there is at least one, and the
    /// shown one is one of them.
    pub open spec fn wf(&self) -> bool {
        &&& self.hosts_wf()
        &&& self.hosts@.len() > 0
        &&& self.selected_host < self.hosts@.len()
    }

    /// Add a host tab named after the counter and show it.
    pub fn new_host_tab(&mut self) -> (res: usize)
        requires
            old(self).hosts_wf(),
            old(self).host_counter < u64::MAX,
        ensures
            final(self).wf(),
            host_added(old(self)@, final(self)@),
            res == final(self).selected_host,
    {
        let ghost o = self@;
        self.host_counter = self.host_counter + 1;
        let mut name = string_of("host-");
        name.append(dec_string(self.host_counter).as_str());
        let host = HostTabState::new(self.host_counter, name.as_str());
        let ghost hv = host@;
        self.hosts.push(host);
        self.selected_host = self.hosts.len() - 1;
        assert(self@.hosts =~= o.hosts.push(hv));
        assert(self@.hosts.drop_last() =~= o.hosts);
        self.selected_host
    }

    /// Show an information popup.
    pub fn info(&mut self, title: String, body: String)
        ensures
            final(self).hosts@ == old(self).hosts@,
            final(self)@ == (StudioView { modal: Some(Modal::Info { title, body }), ..old(self)@ }),
    {
        self.modal = Some(Modal::Info { title, body });
    }

    /// Show an error popup.
    pub fn error(&mut self, title: String, body: String)
        ensures
            final(self).hosts@ == old(self).hosts@,
            final(self)@ == (StudioView { modal: Some(Modal::Error { title, body }), ..old(self)@ }),
    {
        self.modal = Some(Modal::Error { title, body });
    }

    /// Close the host tab at `idx` (if there is one); a fresh tab opens
    /// when none is left.
    pub fn close_host_tab(&mut self, idx: usize)
        requires
            old(self).hosts_wf(),
            (old(self)@.hosts.len() == 0 || (old(self)@.hosts.len() == 1 && idx == 0))
                ==> old(self).host_counter < u64::MAX,
        ensures
            final(self).wf(),
            host_closed(old(self)@, idx, final(self)@),
    {
        let ghost o = self@;
        if idx < self.hosts.len() {
            self.hosts.remove(idx);
            assert(self@.hosts =~= o.hosts.remove(idx as int));
        }
        if self.selected_host >= self.hosts.len() && !self.hosts.is_empty() {
            self.selected_host = self.hosts.len() - 1;
        }
        if self.hosts.is_empty() {
            assert(self@.hosts =~= Seq::<HostTabView>::empty());
            self.new_host_tab();
        }
    }

    /// The host tab to draw: opens a fresh one (and draws nothing this
    /// time) when there is none, otherwise keeps the selection in range.
    pub fn focus_host_tab(&mut self) -> (res: Option<usize>)
        requires
            old(self).hosts_wf(),
            old(self).host_counter < u64::MAX,
        ensures
            final(self).wf(),
            old(self)@.hosts.len() == 0 ==> res is None && host_added(old(self)@, final(self)@),
            old(self)@.hosts.len() > 0 ==> {
                let idx = if old(self).selected_host < old(self)@.hosts.len() {
                    old(self).selected_host
                } else {
                    (old(self)@.hosts.len() - 1) as usize
                };
                res == Some(idx) && final(self)@ == (StudioView { selected_host: idx, ..old(self)@ })
                    && final(self).hosts@ == old(self).hosts@
            },
    {
        if self.hosts.is_empty() {
            self.new_host_tab();
            return None;
        }
        let last = self.hosts.len() - 1;
        let idx = if self.selected_host < last {
            self.selected_host
        } else {
            last
        };
        self.selected_host = idx;
        Some(idx)
    }

    /// Act on what a frame of the host form at `idx` asked for: show its
    /// popup; close the client it asked to remove, or ask first when
    /// closing tabs needs confirming; then likewise for closing the host.
    pub fn handle_host_outcome(&mut self, idx: usize, out: HostUiOutcome)
        requires
            old(self).wf(),
            old(self).host_counter < u64::MAX,
            idx < old(self)@.hosts.len(),
            old(self).confirm_close ==> (out.close_client_requested matches Some(ci) ==> ci
                < old(self)@.hosts[idx as int].clients.len()),
        ensures
            final(self).hosts_wf(),
            ({
                let o = old(self)@;
                let f = final(self)@;
                let m = if out.modal is Some {
                    out.modal
                } else {
                    o.modal
                };
                let s1 = StudioView { modal: m, ..o };
                let s2 = match out.close_client_requested {
                    None => s1,
                    Some(ci) => if o.confirm_close {
                        StudioView {
                            confirm: Some(
                                (
                                    "Remove client"@,
                                    remove_client_prompt(o.hosts[idx as int].clients[ci as int].name),
                                    PendingConfirm::CloseClient { host_idx: idx, client_idx: ci },
                                ),
                            ),
                            ..s1
                        }
                    } else {
                        StudioView { hosts: s1.hosts.update(idx as int, client_closed(s1.hosts[idx as int], ci)), ..s1 }
                    },
                };
                if !out.close_requested {
                    f == s2
                } else if o.confirm_close {
                    f == StudioView {
                        confirm: Some(
                            (
                                "Close host tab"@,
                                close_host_prompt(s2.hosts[idx as int].name),
                                PendingConfirm::CloseHost { host_idx: idx },
                            ),
                        ),
                        ..s2
                    }
                } else {
                    host_closed(s2, idx, f)
                }
            }),
    {
        let ghost o = self@;
        if let Some(m) = out.modal {
            self.modal = Some(m);
        }
        let confirm_close = self.confirm_close;
        if let Some(client_idx) = out.close_client_requested {
            if confirm_close {
                self.confirm = Some(
                    remove_client_confirm(self.hosts[idx].client_name_text(client_idx), idx, client_idx),
                );
            } else {
                let ghost before = self.hosts@;
                let mut h = self.hosts.remove(idx);
                h.close_client_tab(client_idx);
                let ghost hv = h@;
                self.hosts.insert(idx, h);
                assert(self@.hosts =~= o.hosts.update(idx as int, hv));
                assert(self.hosts@ =~= before.update(idx as int, self.hosts@[idx as int]));
            }
        }
        if out.close_requested {
            if confirm_close {
                self.confirm = Some(close_host_confirm(self.hosts[idx].name_text(), idx));
            } else {
                self.close_host_tab(idx);
            }
        }
    }

    /// Clear every host tab and restart the counter, then open a fresh tab.
    pub fn reset_project(&mut self)
        ensures
            final(self).wf(),
            project_reset(old(self)@, final(self)@),
    {
        self.hosts.clear();
        self.host_counter = 0;
        assert(self@.hosts =~= Seq::<HostTabView>::empty());
        self.new_host_tab();
    }

    /// Answer the pending confirmation (if any): on yes, carry out its
    /// action; either way it is gone.
    pub fn resolve_confirm(&mut self, yes: bool)
        requires
            old(self).hosts_wf(),
            old(self).host_counter < u64::MAX,
        ensures
            final(self).hosts_wf(),
            ({
                let o = old(self)@;
                let f = final(self)@;
                let o2 = StudioView { confirm: None, ..o };
                match o.confirm {
                    None => f == o,
                    Some((_, _, action)) => if !yes {
                        f == o2
                    } else {
                        match action {
                            PendingConfirm::CloseHost { host_idx } => host_closed(o2, host_idx, f),
                            PendingConfirm::CloseClient { host_idx, client_idx } => if host_idx < o.hosts.len() {
                                f == StudioView {
                                    hosts: o.hosts.update(host_idx as int, client_closed(o.hosts[host_idx as int], client_idx)),
                                    ..o2
                                }
                            } else {
                                f == o2
                            },
                            PendingConfirm::ResetProject => project_reset(o2, f),
                        }
                    },
                }
            }),
    {
        let ghost o = self@;
        let pending = self.confirm.take();
        if let Some((_, _, action)) = pending {
            if yes {
                match action {
                    PendingConfirm::CloseHost { host_idx } => self.close_host_tab(host_idx),
                    PendingConfirm::CloseClient { host_idx, client_idx } => {
                        if host_idx < self.hosts.len() {
                            let ghost before = self.hosts@;
                            let mut h = self.hosts.remove(host_idx);
                            h.close_client_tab(client_idx);
                            let ghost hv = h@;
                            self.hosts.insert(host_idx, h);
                            assert(self@.hosts =~= o.hosts.update(host_idx as int, hv));
                            assert(self.hosts@ =~= before.update(host_idx as int, self.hosts@[host_idx as int]));
                        }
                    },
                    PendingConfirm::ResetProject => self.reset_project(),
                }
            }
        }
    }

    /// Browser-style shortcuts on the shown host tab, ignored while a popup
    /// or a confirmation is up: a new client tab, a jump to a sub-tab by
    /// number, and closing the shown sub-tab (in that order).
    pub fn apply_shortcuts(&mut self, want_close: bool, want_new: bool, want_number: Option<usize>)
        requires
            old(self).hosts_wf(),
            old(self).host_counter < u64::MAX,
            old(self).modal is None && old(self).confirm is None && old(self)@.hosts.len() > 0 ==> {
                let h0 = old(self)@.hosts[shown_host(old(self)@) as int];
                &&& want_new ==> can_add_client(h0)
                &&& h0.clients.len() + 1 < usize::MAX
            },
        ensures
            final(self).hosts_wf(),
            ({
                let o = old(self)@;
                let f = final(self)@;
                if o.modal is Some || o.confirm is Some || o.hosts.len() == 0 {
                    f == o
                } else {
                    let idx = shown_host(o);
                    exists|h1: HostTabView|
                        #![trigger after_new_client(o.hosts[idx as int], want_new, h1)]
                        after_new_client(o.hosts[idx as int], want_new, h1) && {
                            let s2 = StudioView {
                                hosts: o.hosts.update(idx as int, after_number(h1, want_number)),
                                ..o
                            };
                            if want_close {
                                after_close_shortcut(s2, idx, f)
                            } else {
                                f == s2
                            }
                        }
                }
            }),
    {
        if self.modal.is_some() || self.confirm.is_some() || self.hosts.len() == 0 {
            return ;
        }
        let ghost o = self@;
        let last = self.hosts.len() - 1;
        let idx = if self.selected_host < last {
            self.selected_host
        } else {
            last
        };
        let ghost before = self.hosts@;
        let mut h = self.hosts.remove(idx);
        assert(h@ == o.hosts[idx as int]);
        if want_new {
            h.new_client_tab(None);
        }
        let ghost h1 = h@;
        if let Some(n) = want_number {
            h.select_subtab_by_shortcut_index(n);
        }
        let ghost hv = h@;
        self.hosts.insert(idx, h);
        assert(self@.hosts =~= o.hosts.update(idx as int, hv));
        assert(hv == after_number(h1, want_number));
        assert(after_new_client(o.hosts[idx as int], want_new, h1));
        if want_close {
            self.close_shortcut(idx);
        }
    }

    /// The close shortcut on the host tab at `idx`.
    fn close_shortcut(&mut self, idx: usize)
        requires
            old(self).hosts_wf(),
            old(self).host_counter < u64::MAX,
            idx < old(self)@.hosts.len(),
        ensures
            final(self).hosts_wf(),
            after_close_shortcut(old(self)@, idx, final(self)@),
    {
        let ghost o = self@;
        let sel = self.hosts[idx].selected_subtab();
        proof {
            self.hosts@[idx as int].lemma_selected_client();
        }
        match sel {
            HostSubTab::Client(ci) => {
                if self.confirm_close {
                    self.confirm = Some(remove_client_confirm(self.hosts[idx].client_name_text(ci), idx, ci));
                } else {
                    let ghost mid = self.hosts@;
                    let mut h2 = self.hosts.remove(idx);
                    h2.close_client_tab(ci);
                    let ghost hv2 = h2@;
                    self.hosts.insert(idx, h2);
                    assert(self@.hosts =~= o.hosts.update(idx as int, hv2));
                    assert(self.hosts@ =~= mid.update(idx as int, self.hosts@[idx as int]));
                }
            },
            HostSubTab::Settings => {
                if self.confirm_close {
                    self.confirm = Some(close_host_confirm(self.hosts[idx].name_text(), idx));
                } else {
                    self.close_host_tab(idx);
                }
            },
        }
    }

    /// Replace every host tab with the hosts of a project (numbered on from
    /// the counter), and show the first; a fresh tab opens when the project
    /// has none.
    pub fn load_project(&mut self, data: ProjectFile)
        requires
            old(self).hosts_wf(),
            old(self).host_counter + data.hosts@.len() < u64::MAX,
            forall|i: int|
                0 <= i < data.hosts@.len() ==> (old(self).host_counter + i + 1) * 100000 + (
                #[trigger] data.hosts@[i]).clients@.len() <= u64::MAX,
        ensures
            final(self).wf(),
            ({
                let o = old(self)@;
                let f = final(self)@;
                let n = data.hosts@.len();
                if n == 0 {
                    host_added(StudioView { hosts: Seq::empty(), selected_host: 0, ..o }, f)
                } else {
                    &&& f.hosts.len() == n
                    &&& forall|i: int| 0 <= i < n ==> host_tab_from_record(
                        (o.host_counter + i + 1) as u64,
                        data.hosts@[i],
                        #[trigger] f.hosts[i],
                    )
                    &&& f == StudioView {
                        hosts: f.hosts,
                        selected_host: 0,
                        host_counter: (o.host_counter + n) as u64,
                        ..o
                    }
                }
            }),
    {
        let ghost o = self@;
        self.hosts.clear();
        let mut i: usize = 0;
        while i < data.hosts.len()
            invariant
                i <= data.hosts.len(),
                self.hosts_wf(),
                self.host_counter == o.host_counter + i,
                o.host_counter + data.hosts@.len() < u64::MAX,
                forall|k: int|
                    0 <= k < data.hosts@.len() ==> (o.host_counter + k + 1) * 100000 + (
                    #[trigger] data.hosts@[k]).clients@.len() <= u64::MAX,
                self@.hosts.len() == i,
                forall|k: int| 0 <= k < i ==> host_tab_from_record(
                    (o.host_counter + k + 1) as u64,
                    data.hosts@[k],
                    #[trigger] self@.hosts[k],
                ),
                self@ == (StudioView { hosts: self@.hosts, host_counter: self.host_counter, ..o }),
            decreases data.hosts.len() - i,
        {
            self.host_counter = self.host_counter + 1;
            assert(self.host_counter * 100000 + data.hosts@[i as int].clients@.len() <= u64::MAX);
            let host = HostTabState::from_project_dict(self.host_counter, &data.hosts[i]);
            let ghost before = self@.hosts;
            let ghost hv = host@;
            self.hosts.push(host);
            assert(self@.hosts =~= before.push(hv));
            i = i + 1;
        }
        self.selected_host = 0;
        if self.hosts.len() == 0 {
            assert(self@.hosts =~= Seq::<HostTabView>::empty());
            self.new_host_tab();
        }
    }

    /// Rebuild every host (its clients, then itself) so that the records
    /// hold the latest form values, and collect the project. Stops at the
    /// first host that fails to build.
    pub fn collect_project(&mut self) -> (res: Result<ProjectFile, String>)
        requires
            old(self).hosts_wf(),
        ensures
            final(self).hosts_wf(),
            ({
                let o = old(self)@;
                let f = final(self)@;
                let n = o.hosts.len();
                &&& f.hosts.len() == n
                &&& f == StudioView { hosts: f.hosts, ..o }
                &&& match res {
                    Ok(p) => {
                        &&& p.version == PROJECT_FORMAT_VERSION
                        &&& p.hosts@.len() == n
                        &&& forall|i: int| 0 <= i < n ==> #[trigger] host_saved(o.hosts[i], f.hosts[i], p.hosts@[i])
                    },
                    Err(_) => exists|k: int|
                        #![trigger f.hosts[k]]
                        {
                            &&& 0 <= k < n
                            &&& forall|i: int| 0 <= i < k ==> #[trigger] host_rebuilt(o.hosts[i], f.hosts[i])
                            &&& full_built(o.hosts[k], f.hosts[k], None)
                            &&& forall|i: int| k < i < n ==> f.hosts[i] == o.hosts[i]
                        },
                }
            }),
    {
        let ghost o = self@;
        let mut dicts: Vec<HostProjectDict> = Vec::new();
        let mut failure: Option<String> = None;
        let n = self.hosts.len();
        let mut i: usize = 0;
        while i < n
            invariant_except_break
                failure is None,
                dicts@.len() == i,
                forall|k: int| 0 <= k < i ==> #[trigger] host_saved(o.hosts[k], self@.hosts[k], dicts@[k]),
                forall|k: int| i <= k < n ==> self@.hosts[k] == o.hosts[k],
            invariant
                i <= n,
                n == o.hosts.len(),
                self.hosts_wf(),
                self@.hosts.len() == n,
                self@ == (StudioView { hosts: self@.hosts, ..o }),
            ensures
                self.hosts_wf(),
                self@.hosts.len() == n,
                self@ == (StudioView { hosts: self@.hosts, ..o }),
                failure is None ==> i == n && dicts@.len() == n && forall|k: int| 0 <= k < n ==> #[trigger] host_saved(o.hosts[k], self@.hosts[k], dicts@[k]),
                failure is Some ==> i < n && (forall|k: int| 0 <= k < i ==> #[trigger] host_rebuilt(o.hosts[k], self@.hosts[k]))
                    && full_built(o.hosts[i as int], self@.hosts[i as int], None)
                    && forall|k: int| i < k < n ==> self@.hosts[k] == o.hosts[k],
            decreases n - i,
        {
            let ghost before = self.hosts@;
            let ghost beforev = self@.hosts;
            let mut h = self.hosts.remove(i);
            let r = h.build_full_model();
            let ghost hv = h@;
            let ghost rv: Option<HostView> = match &r {
                Ok(m) => Some(m@),
                Err(_) => None,
            };
            assert(full_built(o.hosts[i as int], hv, rv));
            self.hosts.insert(i, h);
            assert(self@.hosts =~= beforev.update(i as int, hv));
            assert(self.hosts@ =~= before.update(i as int, self.hosts@[i as int]));
            match r {
                Ok(_) => {
                    dicts.push(self.hosts[i].to_project_dict());
                    assert forall|k: int| 0 <= k < i + 1 implies #[trigger] host_saved(o.hosts[k], self@.hosts[k], dicts@[k]) by {
                        if k < i {
                            assert(self@.hosts[k] == beforev[k]);
                        } else {
                            assert(full_built(o.hosts[k], self@.hosts[k], rv));
                        }
                    }
                },
                Err(e) => {
                    assert forall|k: int| 0 <= k < i implies #[trigger] host_rebuilt(o.hosts[k], self@.hosts[k]) by {
                        assert(self@.hosts[k] == beforev[k]);
                        assert(host_saved(o.hosts[k], beforev[k], dicts@[k]));
                    }
                    failure = Some(e);
                    break;
                },
            }
            i = i + 1;
        }
        if let Some(e) = failure {
            proof {
                let f = self@;
                let kk = i as int;
                assert(f.hosts[kk] == self@.hosts[kk]);
            }
            return Err(e);
        }
        Ok(ProjectFile { version: PROJECT_FORMAT_VERSION, hosts: dicts })
    }
}

impl Default for WgStudioApp {
    /// One fresh host tab, shown; closing tabs asks first.
    fn default() -> (res: WgStudioApp)
        ensures
            res.wf(),
            res@.hosts.len() == 1,
            fresh_host_tab(res@.hosts[0], 1, host_tab_name(1)),
            res.selected_host == 0,
            res.host_counter == 1,
            res.confirm_close,
            res.modal is None,
            res.confirm is None,
            !res.theme_applied,
    {
        let mut app = WgStudioApp {
            hosts: Vec::new(),
            selected_host: 0,
            host_counter: 0,
            confirm_close: true,
            modal: None,
            confirm: None,
            theme_applied: false,
        };
        app.new_host_tab();
        app
    }
}

} // verus!
