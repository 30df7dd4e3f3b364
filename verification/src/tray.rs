//! The tray: what it knows, and what it does about each thing that happens.
//!
//! The native side tells the tray what happened and does what the tray answers.
use crate::fingerprint::{fingerprint, names, structural_fingerprint};
use crate::icon::{circle_color, icon_for, icon_pixels, letter_color};
use crate::ipc_client::{PollResult, PollView};
use crate::members::{network_views, NetworkStatus, NetworkView};
use crate::menu::{
    build_menu_and_state, menu_entries, menu_networks, status_text, top_views, ui_views,
    update_status_item, MenuAndState, NetworkUi, UiView,
};
use crate::actions::{clicked, handle_click, ClickAction};
use crate::poll::{later, Clock, Moment, PollCmd, PollConfig, MAX_ELAPSED};
use crate::reconcile::{
    applied, chrome_ops, in_range, member_ops, op_views, update_network_chrome,
    update_network_members, MenuOp, OpView,
};
use crate::text::same_text;
use std::time::Instant;
use vstd::prelude::*;

verus! {

/// What the tray knows.
#[derive(Debug, PartialEq, Eq)]
pub struct Tray {
    pub cfg: PollConfig,
    pub reachable: bool,
    pub active: bool,
    pub networks: Vec<NetworkStatus>,
    /// The fingerprint that the present menu was built for.
    pub last_structural: String,
    /// What the submenus of the present menu hold.
    pub network_uis: Vec<NetworkUi>,
    /// What the present icon was made for: reachability and activity.
    pub last_icon_key: (bool, bool),
    /// Until when the menu counts as in use.
    pub active_until: Option<Moment>,
    /// The interval that the poller was last told.
    pub last_sent_interval: u64,
}

/// Mathematical model of a [`Tray`].
#[verifier::ext_equal]
pub struct TrayView {
    pub cfg: PollConfig,
    pub reachable: bool,
    pub active: bool,
    pub networks: Seq<NetworkView>,
    pub last_structural: Seq<char>,
    pub network_uis: Seq<UiView>,
    pub last_icon_key: (bool, bool),
    pub active_until: Option<Moment>,
    pub last_sent_interval: u64,
}

impl View for Tray {
    type V = TrayView;

    open spec fn view(&self) -> TrayView {
        TrayView {
            cfg: self.cfg,
            reachable: self.reachable,
            active: self.active,
            networks: network_views(self.networks@),
            last_structural: self.last_structural@,
            network_uis: ui_views(self.network_uis@),
            last_icon_key: self.last_icon_key,
            active_until: self.active_until,
            last_sent_interval: self.last_sent_interval,
        }
    }
}

/// A tray that has not heard from the daemon yet.
pub open spec fn started(cfg: PollConfig) -> TrayView {
    TrayView {
        cfg,
        reachable: false,
        active: false,
        networks: Seq::empty(),
        last_structural: fingerprint(false, Seq::empty()),
        network_uis: Seq::empty(),
        last_icon_key: (false, false),
        active_until: None,
        last_sent_interval: cfg.idle,
    }
}

/// The tray once it knows the result of a poll. While the daemon cannot be
/// reached there are no networks, and the last activity is remembered.
pub open spec fn polled(t: TrayView, result: PollView) -> TrayView {
    match result {
        PollView::Reachable { active, networks } => TrayView {
            reachable: true,
            active,
            networks,
            ..t
        },
        PollView::Unreachable => TrayView { reachable: false, networks: Seq::empty(), ..t },
    }
}

/// The fingerprint of what the tray knows.
pub open spec fn present_fingerprint(t: TrayView) -> Seq<char> {
    fingerprint(t.reachable, names(t.networks))
}

/// A menu to be built anew, with the fingerprint that it is built for.
#[derive(Debug, PartialEq, Eq)]
pub struct Rebuild {
    pub structural: String,
    /// The log line that says so.
    pub log: String,
    pub menu: MenuAndState,
}

/// The log line of a rebuild.
pub open spec fn rebuild_line(old_print: Seq<char>, new_print: Seq<char>) -> Seq<char> {
    "tetron-systray: structural change: '"@ + old_print + "' -> '"@ + new_print + "'"@
}

/// The first network with this name.
pub open spec fn network_named(networks: Seq<NetworkView>, name: Seq<char>) -> Option<NetworkView>
    decreases networks.len(),
{
    if networks.len() == 0 {
        None
    } else if networks[0].network == name {
        Some(networks[0])
    } else {
        network_named(networks.skip(1), name)
    }
}

/// The status that a submenu is brought up to date with: that of its network,
/// while the daemon can be reached and reports one of that name.
pub open spec fn status_for(t: TrayView, ui: UiView) -> Option<NetworkView> {
    if t.reachable {
        network_named(t.networks, ui.key)
    } else {
        None
    }
}

/// The command that puts a poller which was last told one interval on another.
pub open spec fn retarget_cmd(last_sent: u64, want: u64) -> Option<PollCmd> {
    if want != last_sent {
        Some(PollCmd::SetInterval { secs: want })
    } else {
        None
    }
}

/// What is to be done when a menu item is clicked.
#[derive(Debug, PartialEq, Eq)]
pub enum MenuReaction {
    Quit,
    Click { action: ClickAction },
}

/// Something that happened to the tray icon.
#[derive(Clone, Copy, Debug, PartialEq, Eq, Structural)]
pub enum TrayEvent {
    Click,
    DoubleClick,
    Enter,
    Move,
    Leave,
    Other,
}

/// Whether this means that the menu is open, or about to be.
pub fn announces_menu(event: TrayEvent) -> (r: bool)
    ensures
        r == (event == TrayEvent::Click || event == TrayEvent::DoubleClick || event
            == TrayEvent::Enter),
{
    match event {
        TrayEvent::Click => true,
        TrayEvent::DoubleClick => true,
        TrayEvent::Enter => true,
        _ => false,
    }
}

/// What is to be done when the menu item with this id is clicked.
pub fn on_menu_event(id: &str) -> (r: MenuReaction)
    ensures
        r is Quit == (id@ == "quit"@),
        r matches MenuReaction::Click { action } ==> action@ == clicked(id@),
{
    if same_text(id, "quit") {
        MenuReaction::Quit
    } else {
        MenuReaction::Click { action: handle_click(id) }
    }
}

impl Tray {
    /// A tray that has not heard from the daemon yet.
    pub fn new(cfg: PollConfig) -> (t: Tray)
        ensures
            t@ == started(cfg),
    {
        let networks: Vec<NetworkStatus> = Vec::new();
        let t: Tray = Tray {
            cfg,
            reachable: false,
            active: false,
            last_structural: structural_fingerprint(false, &networks),
            networks,
            network_uis: Vec::new(),
            last_icon_key: (false, false),
            active_until: None,
            last_sent_interval: cfg.idle,
        };
        proof {
            assert(network_views(t.networks@) == Seq::<NetworkView>::empty());
            assert(names(network_views(t.networks@)) == Seq::<Seq<char>>::empty());
        }
        assert(t@ =~= started(cfg));
        t
    }

    /// Takes in the result of a poll. A menu is returned if one has to be built
    /// anew, because the reachability flipped or the networks changed.
    pub fn on_poll(&mut self, result: PollResult) -> (rebuild: Option<Rebuild>)
        ensures
            final(self)@ == polled(old(self)@, result@),
            rebuild is Some == (present_fingerprint(final(self)@) != old(self)@.last_structural),
            rebuild matches Some(r) ==> {
                let t = final(self)@;
                &&& r.structural@ == present_fingerprint(t)
                &&& r.log@ == rebuild_line(t.last_structural, r.structural@)
                &&& top_views(r.menu.entries@) == menu_entries(
                    t.reachable,
                    t.active,
                    t.networks.len(),
                )
                &&& ui_views(r.menu.network_uis@) == menu_networks(t.reachable, t.networks)
            },
    {
        let ghost before = self@;
        match result {
            PollResult::Reachable { active, networks } => {
                self.reachable = true;
                self.active = active;
                self.networks = networks;
            },
            PollResult::Unreachable => {
                self.reachable = false;
                self.networks = Vec::new();
                assert(network_views(self.networks@) == Seq::<NetworkView>::empty());
            },
        }
        assert(self@ =~= polled(before, result@));
        let structural: String = structural_fingerprint(self.reachable, &self.networks);
        if same_text(structural.as_str(), self.last_structural.as_str()) {
            None
        } else {
            let mut log: String = "tetron-systray: structural change: '".to_owned();
            log.append(self.last_structural.as_str());
            log.append("' -> '");
            log.append(structural.as_str());
            log.append("'");
            let menu: MenuAndState = build_menu_and_state(
                self.reachable,
                self.active,
                &self.networks,
            );
            Some(Rebuild { structural, log, menu })
        }
    }

    /// Records that a menu was built anew and is shown.
    pub fn on_rebuilt(&mut self, structural: String, network_uis: Vec<NetworkUi>)
        ensures
            final(self)@ == (TrayView {
                last_structural: structural@,
                network_uis: ui_views(network_uis@),
                ..old(self)@
            }),
    {
        let ghost before = self@;
        self.network_uis = network_uis;
        self.last_structural = structural;
        assert(self@ =~= (TrayView {
            last_structural: structural@,
            network_uis: ui_views(network_uis@),
            ..before
        }));
    }

    /// The text that the status line is set to after each poll.
    pub fn status_line(&self) -> (text: String)
        ensures
            text@ == status_text(self.reachable, self.active),
    {
        update_status_item(self.reachable, self.active)
    }

    fn find_network(&self, name: &str) -> (r: Option<usize>)
        ensures
            r is Some == network_named(self@.networks, name@) is Some,
            r matches Some(i) ==> i < self.networks.len() && network_named(self@.networks, name@)
                == Some(self.networks@[i as int]@),
    {
        let ghost all = self@.networks;
        assert(all.skip(0) == all);
        for i in 0..self.networks.len()
            invariant
                all == self@.networks,
                network_named(all, name@) == network_named(all.skip(i as int), name@),
        {
            assert(all[i as int] == self.networks@[i as int]@);
            if same_text(self.networks[i].network.as_str(), name) {
                return Some(i);
            }
            assert(all.skip(i as int).skip(1) == all.skip(i + 1));
        }
        None
    }

    /// The edits that bring the member rows of a submenu up to date.
    pub fn member_edits(&self, index: usize) -> (ops: Vec<MenuOp>)
        requires
            index < self.network_uis.len(),
        ensures
            op_views(ops@) == (match status_for(self@, self.network_uis@[index as int]@) {
                Some(net) => member_ops(self.network_uis@[index as int]@, net),
                None => Seq::empty(),
            }),
    {
        if self.reachable {
            match self.find_network(self.network_uis[index].key.as_str()) {
                Some(i) => {
                    return update_network_members(&self.network_uis[index], &self.networks[i]);
                },
                None => {},
            }
        }
        let ops: Vec<MenuOp> = Vec::new();
        assert(op_views(ops@) == Seq::<OpView>::empty());
        ops
    }

    /// The edits that bring the title and the toggle of a submenu up to date;
    /// they are made after those of its member rows.
    pub fn chrome_edits(&self, index: usize) -> (ops: Vec<MenuOp>)
        requires
            index < self.network_uis.len(),
            self.network_uis@[index as int].members.len() <= usize::MAX - 2,
        ensures
            op_views(ops@) == (match status_for(self@, self.network_uis@[index as int]@) {
                Some(net) => chrome_ops(self.network_uis@[index as int]@, net),
                None => Seq::empty(),
            }),
    {
        if self.reachable {
            match self.find_network(self.network_uis[index].key.as_str()) {
                Some(i) => {
                    return update_network_chrome(&self.network_uis[index], &self.networks[i]);
                },
                None => {},
            }
        }
        let ops: Vec<MenuOp> = Vec::new();
        assert(op_views(ops@) == Seq::<OpView>::empty());
        ops
    }

    /// Records the outcome of an edit of a submenu, and returns whether the
    /// edits that follow it are to be made.
    pub fn on_edit(&mut self, index: usize, op: MenuOp, done: bool) -> (go_on: bool)
        requires
            index < old(self).network_uis.len(),
            in_range(old(self).network_uis@[index as int]@, op@),
        ensures
            go_on == done,
            final(self)@ == (if done || op@ is RemoveMore {
                TrayView {
                    network_uis: old(self)@.network_uis.update(
                        index as int,
                        applied(old(self)@.network_uis[index as int], op@),
                    ),
                    ..old(self)@
                }
            } else {
                old(self)@
            }),
    {
        let ghost before = self@;
        let go_on: bool = self.network_uis[index].settle(op, done);
        proof {
            let want = if done || op@ is RemoveMore {
                TrayView {
                    network_uis: before.network_uis.update(
                        index as int,
                        applied(before.network_uis[index as int], op@),
                    ),
                    ..before
                }
            } else {
                before
            };
            assert(self@.network_uis =~= want.network_uis);
            assert(self@ =~= want);
        }
        go_on
    }

    /// The icon to be shown after a poll, where it is another than the present
    /// one.
    pub fn icon_update(&mut self) -> (rgba: Option<Vec<u8>>)
        ensures
            final(self)@ == (TrayView {
                last_icon_key: (old(self).reachable, old(self).active),
                ..old(self)@
            }),
            rgba is Some == ((old(self).reachable, old(self).active) != old(self).last_icon_key),
            rgba matches Some(v) ==> v@ == icon_pixels(
                circle_color(old(self).reachable, old(self).active),
                letter_color(old(self).reachable, old(self).active),
            ),
    {
        let ghost before = self@;
        let same: bool = self.reachable == self.last_icon_key.0 && self.active
            == self.last_icon_key.1;
        if same {
            assert(self@ =~= (TrayView {
                last_icon_key: (before.reachable, before.active),
                ..before
            }));
            None
        } else {
            self.last_icon_key = (self.reachable, self.active);
            assert(self@ =~= (TrayView {
                last_icon_key: (before.reachable, before.active),
                ..before
            }));
            Some(icon_for(self.reachable, self.active))
        }
    }

    /// Takes in that the menu was opened or used: it counts as in use for a
    /// while from now on, and the poller is to poll at once.
    pub fn on_use(&mut self, now: Moment) -> (cmd: PollCmd)
        requires
            later(now, old(self).cfg.active_window) <= i128::MAX,
        ensures
            cmd == PollCmd::Now,
            final(self)@ == (TrayView {
                active_until: Some(
                    Moment { nanos: later(now, old(self).cfg.active_window) as i128 },
                ),
                ..old(self)@
            }),
    {
        let ghost before = self@;
        self.active_until = Some(now.after_secs(self.cfg.active_window));
        assert(self@ =~= (TrayView {
            active_until: Some(Moment { nanos: later(now, before.cfg.active_window) as i128 }),
            ..before
        }));
        PollCmd::Now
    }

    /// Takes in that the menu was opened or used just now, by this clock.
    pub fn on_use_now(&mut self, clock: &Clock) -> (cmd: PollCmd)
        ensures
            cmd == PollCmd::Now,
            exists|reading: Instant|
                {
                    let now = #[trigger] clock.at(reading);
                    &&& 0 <= now.nanos <= MAX_ELAPSED
                    &&& final(self)@ == (TrayView {
                        active_until: Some(
                            Moment { nanos: later(now, old(self).cfg.active_window) as i128 },
                        ),
                        ..old(self)@
                    })
                },
    {
        let now: Moment = clock.now();
        self.on_use(now)
    }

    /// Keeps the poller on the interval `want`: it is told where it is on
    /// another.
    pub fn retarget(&mut self, want: u64) -> (cmd: Option<PollCmd>)
        ensures
            final(self)@ == (TrayView { last_sent_interval: want, ..old(self)@ }),
            cmd == retarget_cmd(old(self).last_sent_interval, want),
    {
        let ghost before = self@;
        if want != self.last_sent_interval {
            self.last_sent_interval = want;
            assert(self@ =~= (TrayView { last_sent_interval: want, ..before }));
            Some(PollCmd::SetInterval { secs: want })
        } else {
            assert(self@ =~= (TrayView { last_sent_interval: want, ..before }));
            None
        }
    }
}

} // verus!
