use crate::config::Config;
use crate::error::ErrorKind;
use vstd::prelude::*;

verus! {

/// The wireless subsystem's mode: access point, client of the numbered
/// configured network, enabled but idle, or not yet brought up.
#[derive(Debug, Clone, PartialEq, Eq)]
pub enum WifiState {
    Ap,
    Client(usize),
    Inactive,
    Uninitialized,
}

/// The wireless mode state machine.  The engine decides transitions; the
/// runtime reconciles the host's daemons and interfaces with `state`, and
/// records the address it obtained in `client_ip`.
#[derive(Debug)]
pub struct WifiManager {
    pub config: Config,
    pub state: WifiState,
    pub client_ip: String,
}

impl WifiManager {
    /// A manager that has not brought the wireless hardware up.
    pub fn new(config: Config) -> (r: WifiManager)
        ensures
            r.state == WifiState::Uninitialized,
            r.config == config,
            r.client_ip@.len() == 0,
    {
        WifiManager { config, state: WifiState::Uninitialized, client_ip: String::new() }
    }

    /// Brings the subsystem from untouched to enabled-but-idle; in any
    /// other state nothing changes.
    pub fn enable_wifi(&mut self) -> (r: Result<(), ErrorKind>)
        ensures
            r is Ok,
            final(self).state == (if old(self).state == WifiState::Uninitialized {
                WifiState::Inactive
            } else {
                old(self).state
            }),
            final(self).config == old(self).config,
            final(self).client_ip == old(self).client_ip,
    {
        match self.state {
            WifiState::Uninitialized => {
                self.state = WifiState::Inactive;
                Ok(())
            },
            _ => Ok(()),
        }
    }

    /// Moves to access-point mode from any state, leaving client mode
    /// first when necessary.
    pub fn activate_host(&mut self) -> (r: Result<(), ErrorKind>)
        ensures
            r is Ok,
            final(self).state == WifiState::Ap,
            final(self).config == old(self).config,
            final(self).client_ip == old(self).client_ip,
    {
        self.state = WifiState::Ap;
        Ok(())
    }

    /// Stops access-point mode; refuses while in client mode, and does
    /// nothing when no access point runs.
    pub fn deactivate_host(&mut self) -> (r: Result<(), ErrorKind>)
        ensures
            r is Ok <==> !(old(self).state matches WifiState::Client(_)),
            final(self).state == (if old(self).state == WifiState::Ap {
                WifiState::Inactive
            } else {
                old(self).state
            }),
            final(self).config == old(self).config,
            final(self).client_ip == old(self).client_ip,
    {
        match self.state {
            WifiState::Ap => {
                self.state = WifiState::Inactive;
                Ok(())
            },
            WifiState::Client(_) => Err(
                ErrorKind::Msg("attempt to deactivate host while in client mode".to_owned()),
            ),
            _ => Ok(()),
        }
    }

    /// Turns access-point mode off when it runs, and on otherwise.
    pub fn toggle_host(&mut self) -> (r: Result<(), ErrorKind>)
        ensures
            r is Ok,
            final(self).state == (if old(self).state == WifiState::Ap {
                WifiState::Inactive
            } else {
                WifiState::Ap
            }),
            final(self).config == old(self).config,
            final(self).client_ip == old(self).client_ip,
    {
        match self.state {
            WifiState::Ap => self.deactivate_host(),
            _ => self.activate_host(),
        }
    }

    /// Joins the numbered configured network from any state, leaving
    /// access-point or another client association first when necessary.
    pub fn activate_client(&mut self, network_num: usize) -> (r: Result<(), ErrorKind>)
        ensures
            r is Ok,
            final(self).state == WifiState::Client(network_num),
            final(self).config == old(self).config,
            final(self).client_ip == old(self).client_ip,
    {
        self.state = WifiState::Client(network_num);
        Ok(())
    }

    /// Leaves client mode; refuses while in access-point mode, and does
    /// nothing when not associated.
    pub fn deactivate_client(&mut self) -> (r: Result<(), ErrorKind>)
        ensures
            r is Ok <==> old(self).state != WifiState::Ap,
            final(self).state == (if old(self).state matches WifiState::Client(_) {
                WifiState::Inactive
            } else {
                old(self).state
            }),
            final(self).config == old(self).config,
            final(self).client_ip == old(self).client_ip,
    {
        match self.state {
            WifiState::Client(_) => {
                self.state = WifiState::Inactive;
                Ok(())
            },
            WifiState::Ap => Err(
                ErrorKind::Msg("attempt to deactivate client while in host mode".to_owned()),
            ),
            _ => Ok(()),
        }
    }

    /// Leaves the numbered network when already on it, otherwise joins it.
    pub fn toggle_client(&mut self, network_num: usize) -> (r: Result<(), ErrorKind>)
        ensures
            r is Ok,
            final(self).state == (if old(self).state == WifiState::Client(network_num) {
                WifiState::Inactive
            } else {
                WifiState::Client(network_num)
            }),
            final(self).config == old(self).config,
            final(self).client_ip == old(self).client_ip,
    {
        match self.state {
            WifiState::Client(num) => {
                if num == network_num {
                    self.deactivate_client()
                } else {
                    self.activate_client(network_num)
                }
            },
            _ => self.activate_client(network_num),
        }
    }
}

/// The row that opens the wireless menu; while open it holds the
/// selection page as its child.
#[derive(Debug)]
pub struct WifiMenu {
    pub windowid: crate::displaymanager::WindowId,
    pub config: Config,
    pub open: Option<crate::displaymanager::WindowId>,
}

/// What the row renders: its caption and the focus arrow.
pub open spec fn wifimenu_render_spec(focus: bool) -> Seq<Seq<u8>> {
    let base = crate::bitmap::blit_spec(
        crate::bitmap::zero_grid(10, 1),
        crate::font::label_grid("WiFi"@),
        12,
        0,
    );
    if focus {
        crate::bitmap::blit_spec(base, crate::font::arrow_grid(), 0, 0)
    } else {
        base
    }
}

impl WifiMenu {
    /// Registers a window and builds the row, closed.
    pub fn new(
        disp: &mut crate::displaymanager::DisplayManager,
        config: &Config,
    ) -> (r: Result<crate::displaymanager::Widget, ErrorKind>)
        requires
            old(disp).wf(),
        ensures
            final(disp).wf(),
            crate::displaymanager::dm_extends(*old(disp), *final(disp)),
            old(disp).focus_unique() ==> final(disp).focus_unique(),
            old(disp).some_focused() ==> final(disp).some_focused(),
            r is Ok <==> old(disp).nextid < u32::MAX,
            r matches Ok(w) ==> {
                &&& w.kind matches crate::displaymanager::WidgetKind::WifiMenu(s) && s.windowid
                    == old(disp).nextid && s.open is None
                &&& w.children@.len() == 0
                &&& final(disp).has_window(old(disp).nextid)
            },
    {
        let windowid = disp.add_child(crate::displaymanager::Position::Normal)?;
        Ok(
            crate::displaymanager::Widget {
                kind: crate::displaymanager::WidgetKind::WifiMenu(
                    WifiMenu { windowid, config: clone_config(config), open: None },
                ),
                children: Vec::new(),
            },
        )
    }

    pub(crate) fn render(&self, focus: bool) -> (r: crate::bitmap::Bitmap)
        ensures
            r@ == wifimenu_render_spec(focus),
            r.wf(),
    {
        let mut base = crate::bitmap::Bitmap::new(10, 1);
        let text = crate::font::label("WiFi");
        base.blit(&text, (12, 0));
        if focus {
            let ar = crate::font::arrow();
            base.blit(&ar, (0, 0));
        }
        base
    }
}

/// A copy of a network entry, equal to the original.
pub fn clone_client_config(
    c: &crate::config::WifiClientNetworkConfig,
) -> (r: crate::config::WifiClientNetworkConfig)
    ensures
        r == *c,
{
    crate::config::WifiClientNetworkConfig { ssid: c.ssid.clone(), password: c.password.clone() }
}

/// A copy of a configuration: the same settings, entry for entry.
pub fn clone_config(c: &Config) -> (r: Config)
    ensures
        r.user == c.user,
        r.ui == c.ui,
        r.wifi.ap == c.wifi.ap,
        r.system == c.system,
        (match (r.wifi.client, c.wifi.client) {
            (Some(a), Some(b)) => a@ == b@,
            (None, None) => true,
            _ => false,
        }),
        (match (r.drive, c.drive) {
            (Some(a), Some(b)) => a@ == b@,
            (None, None) => true,
            _ => false,
        }),
{
    let client: Option<Vec<crate::config::WifiClientNetworkConfig>> = match &c.wifi.client {
        None => None,
        Some(v) => {
            let mut out: Vec<crate::config::WifiClientNetworkConfig> = Vec::new();
            let mut i: usize = 0;
            while i < v.len()
                invariant
                    i <= v@.len(),
                    out@ =~= v@.subrange(0, i as int),
                decreases v@.len() - i,
            {
                let e = clone_client_config(&v[i]);
                out.push(e);
                proof {
                    assert(out@ =~= v@.subrange(0, (i + 1) as int));
                }
                i = i + 1;
            }
            proof {
                assert(out@ =~= v@);
            }
            Some(out)
        },
    };
    let drive: Option<Vec<crate::config::DriveRenameConfig>> = match &c.drive {
        None => None,
        Some(v) => {
            let mut out: Vec<crate::config::DriveRenameConfig> = Vec::new();
            let mut i: usize = 0;
            while i < v.len()
                invariant
                    i <= v@.len(),
                    out@ =~= v@.subrange(0, i as int),
                decreases v@.len() - i,
            {
                let e = crate::config::DriveRenameConfig {
                    name: v[i].name.clone(),
                    newname: v[i].newname.clone(),
                };
                out.push(e);
                proof {
                    assert(out@ =~= v@.subrange(0, (i + 1) as int));
                }
                i = i + 1;
            }
            proof {
                assert(out@ =~= v@);
            }
            Some(out)
        },
    };
    Config {
        user: crate::config::UserConfig { name: c.user.name.clone(), password: c.user.password.clone() },
        wifi: crate::config::WifiConfig {
            client,
            ap: crate::config::WifiApConfig {
                ssid: c.wifi.ap.ssid.clone(),
                password: c.wifi.ap.password.clone(),
            },
        },
        ui: crate::config::UiConfig {
            size_step: c.ui.size_step,
            default_size: c.ui.default_size,
            min_button_press_ms: c.ui.min_button_press_ms,
            button_long_press_ms: c.ui.button_long_press_ms,
        },
        system: match &c.system {
            None => None,
            Some(sc) => Some(crate::config::SystemConfig { auto_fstrim: sc.auto_fstrim }),
        },
        drive,
    }
}

/// The full-screen page listing the configured networks, the access
/// point row and a way back.
#[derive(Debug)]
pub struct SelectWifiMenu {
    pub windowid: crate::displaymanager::WindowId,
}

/// What the page's own surface renders: a blank display-sized region.
pub open spec fn selectwifi_render_spec() -> Seq<Seq<u8>> {
    crate::bitmap::zero_grid(
        crate::display::DISPLAY_WIDTH as nat,
        crate::display::DISPLAY_HEIGHT as nat,
    )
}

impl SelectWifiMenu {
    /// Registers windows for the page, one row per configured network,
    /// the access point row and the back row; the first network (or the
    /// access point row) gets the focus.
    pub fn new(
        disp: &mut crate::displaymanager::DisplayManager,
        config: &Config,
    ) -> (r: Result<crate::displaymanager::Widget, ErrorKind>)
        requires
            old(disp).wf(),
        ensures
            final(disp).wf(),
            crate::displaymanager::dm_extends(*old(disp), *final(disp)),
            old(disp).focus_unique() && old(disp).some_focused() ==> final(disp).focus_unique()
                && final(disp).some_focused(),
            r matches Ok(w) ==> (w.kind matches crate::displaymanager::WidgetKind::WifiSelect(s)
                && s.windowid == old(disp).nextid),
    {
        let windowid = disp.add_child(crate::displaymanager::Position::Fixed(0, 0))?;
        let mut children: Vec<crate::displaymanager::Widget> = Vec::new();
        let mut first_client: Option<crate::displaymanager::WindowId> = None;
        match &config.wifi.client {
            Some(clients) => {
                let mut i: usize = 0;
                while i < clients.len()
                    invariant
                        disp.wf(),
                        crate::displaymanager::dm_extends(*old(disp), *disp),
                        old(disp).focus_unique() && old(disp).some_focused() ==> disp.focus_unique()
                            && disp.some_focused(),
                    decreases clients@.len() - i,
                {
                    let ghost pre = *disp;
                    let cc = clone_client_config(&clients[i]);
                    let item = match WifiClient::new(disp, cc, i + 1) {
                        Ok(x) => {
                            proof {
                                crate::displaymanager::lemma_dm_extends_trans(
                                    *old(disp),
                                    pre,
                                    *disp,
                                );
                            }
                            x
                        },
                        Err(e) => {
                            proof {
                                crate::displaymanager::lemma_dm_extends_trans(
                                    *old(disp),
                                    pre,
                                    *disp,
                                );
                            }
                            return Err(e);
                        },
                    };
                    if first_client.is_none() {
                        first_client = Some(item.windowid());
                    }
                    children.push(item);
                    i = i + 1;
                }
            },
            None => {},
        }
        let ghost pre2 = *disp;
        let ap = match WifiAp::new(disp) {
            Ok(x) => {
                proof {
                    crate::displaymanager::lemma_dm_extends_trans(*old(disp), pre2, *disp);
                }
                x
            },
            Err(e) => {
                proof {
                    crate::displaymanager::lemma_dm_extends_trans(*old(disp), pre2, *disp);
                }
                return Err(e);
            },
        };
        let ap_id = ap.windowid();
        children.push(ap);
        let ghost pre3 = *disp;
        let back = match crate::buttons::back::BackButton::new(
            disp,
            crate::action::Action::CloseWifiMenu,
        ) {
            Ok(x) => {
                proof {
                    crate::displaymanager::lemma_dm_extends_trans(*old(disp), pre3, *disp);
                }
                x
            },
            Err(e) => {
                proof {
                    crate::displaymanager::lemma_dm_extends_trans(*old(disp), pre3, *disp);
                }
                return Err(e);
            },
        };
        children.push(back);
        let ghost pre4 = *disp;
        match first_client {
            Some(id) => {
                let _ = disp.focus_window(id);
            },
            None => {
                let _ = disp.focus_window(ap_id);
            },
        }
        proof {
            crate::displaymanager::lemma_dm_extends_trans(*old(disp), pre4, *disp);
        }
        Ok(
            crate::displaymanager::Widget {
                kind: crate::displaymanager::WidgetKind::WifiSelect(SelectWifiMenu { windowid }),
                children,
            },
        )
    }

    pub(crate) fn render(&self) -> (r: crate::bitmap::Bitmap)
        ensures
            r@ == selectwifi_render_spec(),
            r.wf(),
    {
        crate::bitmap::Bitmap::new(crate::display::DISPLAY_WIDTH, crate::display::DISPLAY_HEIGHT)
    }
}

/// One configured network's row; while its connection page is open it
/// holds that page as its child.
#[derive(Debug)]
pub struct WifiClient {
    pub windowid: crate::displaymanager::WindowId,
    pub config: crate::config::WifiClientNetworkConfig,
    pub id: usize,
    pub menu: Option<crate::displaymanager::WindowId>,
}

/// What a network row renders: its name (with the obtained address while
/// associated), the square marker while this network is joined, and the
/// focus arrow.
pub open spec fn wificlient_render_spec(s: WifiClient, focus: bool, cx: crate::context::Context) -> Seq<
    Seq<u8>,
> {
    let active = cx.wifi.state == WifiState::Client(s.id);
    let caption = if active {
        s.config.ssid@ + " ("@ + cx.wifi.client_ip@ + ")"@
    } else {
        s.config.ssid@
    };
    let base = crate::bitmap::blit_spec(
        crate::bitmap::zero_grid(10, 1),
        crate::font::label_grid(caption),
        12,
        0,
    );
    let marked = if active {
        crate::bitmap::blit_spec(base, crate::font::square_grid(), 6, 0)
    } else {
        base
    };
    if focus {
        crate::bitmap::blit_spec(marked, crate::font::arrow_grid(), 0, 0)
    } else {
        marked
    }
}

impl WifiClient {
    pub fn new(
        disp: &mut crate::displaymanager::DisplayManager,
        config: crate::config::WifiClientNetworkConfig,
        id: usize,
    ) -> (r: Result<crate::displaymanager::Widget, ErrorKind>)
        requires
            old(disp).wf(),
        ensures
            final(disp).wf(),
            crate::displaymanager::dm_extends(*old(disp), *final(disp)),
            old(disp).focus_unique() ==> final(disp).focus_unique(),
            old(disp).some_focused() ==> final(disp).some_focused(),
            r is Ok <==> old(disp).nextid < u32::MAX,
            r matches Ok(w) ==> {
                &&& w.kind matches crate::displaymanager::WidgetKind::WifiClient(s) && s.windowid
                    == old(disp).nextid && s.config == config && s.id == id && s.menu is None
                &&& w.children@.len() == 0
                &&& final(disp).has_window(old(disp).nextid)
            },
    {
        let windowid = disp.add_child(crate::displaymanager::Position::Normal)?;
        Ok(
            crate::displaymanager::Widget {
                kind: crate::displaymanager::WidgetKind::WifiClient(
                    WifiClient { windowid, config, id, menu: None },
                ),
                children: Vec::new(),
            },
        )
    }

    pub(crate) fn render(&self, focus: bool, ctx: &crate::context::Context) -> (r:
        crate::bitmap::Bitmap)
        ensures
            r@ == wificlient_render_spec(*self, focus, *ctx),
            r.wf(),
    {
        proof {
            reveal_strlit(" (");
            reveal_strlit(")");
        }
        let active = match ctx.wifi.state {
            WifiState::Client(n) => n == self.id,
            _ => false,
        };
        let mut base = crate::bitmap::Bitmap::new(10, 1);
        if active {
            let mut caption = self.config.ssid.clone();
            caption.append(" (");
            caption.append(ctx.wifi.client_ip.as_str());
            caption.append(")");
            let text = crate::font::label(caption.as_str());
            base.blit(&text, (12, 0));
            let sq = crate::font::square();
            base.blit(&sq, (6, 0));
        } else {
            let text = crate::font::label(self.config.ssid.as_str());
            base.blit(&text, (12, 0));
        }
        if focus {
            let ar = crate::font::arrow();
            base.blit(&ar, (0, 0));
        }
        base
    }
}

/// How far the connection page has come.
#[derive(Debug, PartialEq, Eq)]
pub enum WifiConnectionState {
    Ready,
    Connected,
}

/// The full-screen page shown while joining a network.
#[derive(Debug)]
pub struct WifiClientConnectionMenu {
    pub windowid: crate::displaymanager::WindowId,
    pub message: String,
    pub state: WifiConnectionState,
    pub id: usize,
}

/// What the page renders: a joining notice at first, then the outcome
/// message with a confirmation row.
pub open spec fn wificonnection_render_spec(s: WifiClientConnectionMenu, focus: bool) -> Seq<
    Seq<u8>,
> {
    let screen = crate::bitmap::zero_grid(
        crate::display::DISPLAY_WIDTH as nat,
        crate::display::DISPLAY_HEIGHT as nat,
    );
    if s.state is Ready {
        crate::bitmap::blit_spec(screen, crate::font::label_grid("Connecting"@), 0, 0)
    } else {
        let b1 = crate::bitmap::blit_spec(screen, crate::font::label_grid(s.message@), 0, 0);
        let b2 = crate::bitmap::blit_spec(b1, crate::font::label_grid("Ok"@), 10, 20);
        if focus {
            crate::bitmap::blit_spec(b2, crate::font::arrow_grid(), 0, 20)
        } else {
            b2
        }
    }
}

impl WifiClientConnectionMenu {
    pub fn new(disp: &mut crate::displaymanager::DisplayManager, id: usize) -> (r: Result<
        crate::displaymanager::Widget,
        ErrorKind,
    >)
        requires
            old(disp).wf(),
        ensures
            final(disp).wf(),
            crate::displaymanager::dm_extends(*old(disp), *final(disp)),
            old(disp).focus_unique() ==> final(disp).focus_unique(),
            old(disp).some_focused() ==> final(disp).some_focused(),
            r is Ok <==> old(disp).nextid < u32::MAX,
            r matches Ok(w) ==> {
                &&& w.kind matches crate::displaymanager::WidgetKind::WifiConnection(s)
                    && s.windowid == old(disp).nextid && s.state is Ready && s.id == id
                &&& w.children@.len() == 0
                &&& final(disp).has_window(old(disp).nextid)
            },
    {
        let windowid = disp.add_child(crate::displaymanager::Position::Fixed(0, 0))?;
        Ok(
            crate::displaymanager::Widget {
                kind: crate::displaymanager::WidgetKind::WifiConnection(
                    WifiClientConnectionMenu {
                        windowid,
                        message: String::new(),
                        state: WifiConnectionState::Ready,
                        id,
                    },
                ),
                children: Vec::new(),
            },
        )
    }

    pub(crate) fn render(&self, focus: bool) -> (r: crate::bitmap::Bitmap)
        ensures
            r@ == wificonnection_render_spec(*self, focus),
            r.wf(),
    {
        let mut base = crate::bitmap::Bitmap::new(
            crate::display::DISPLAY_WIDTH,
            crate::display::DISPLAY_HEIGHT,
        );
        match self.state {
            WifiConnectionState::Ready => {
                let t = crate::font::label("Connecting");
                base.blit(&t, (0, 0));
            },
            WifiConnectionState::Connected => {
                let t = crate::font::label(self.message.as_str());
                base.blit(&t, (0, 0));
                let ok = crate::font::label("Ok");
                base.blit(&ok, (10, 20));
                if focus {
                    let ar = crate::font::arrow();
                    base.blit(&ar, (0, 20));
                }
            },
        }
        base
    }
}

/// The access-point row; while its startup page is open it holds that
/// page as its child.
#[derive(Debug)]
pub struct WifiAp {
    pub windowid: crate::displaymanager::WindowId,
    pub menu: Option<crate::displaymanager::WindowId>,
}

/// What the access-point row renders: its caption with a line above it,
/// the square marker while the access point runs, and the focus arrow.
pub open spec fn wifiap_render_spec(focus: bool, cx: crate::context::Context) -> Seq<Seq<u8>> {
    let bordered = crate::bitmap::border_edge_spec(
        crate::font::label_grid("Activate AP"@),
        crate::bitmap::BorderStyle::Top,
        3,
    );
    let base = crate::bitmap::blit_spec(crate::bitmap::zero_grid(10, 1), bordered, 12, 0);
    let marked = if cx.wifi.state == WifiState::Ap {
        crate::bitmap::blit_spec(base, crate::font::square_grid(), 6, 3)
    } else {
        base
    };
    if focus {
        crate::bitmap::blit_spec(marked, crate::font::arrow_grid(), 0, 3)
    } else {
        marked
    }
}

impl WifiAp {
    pub fn new(disp: &mut crate::displaymanager::DisplayManager) -> (r: Result<
        crate::displaymanager::Widget,
        ErrorKind,
    >)
        requires
            old(disp).wf(),
        ensures
            final(disp).wf(),
            crate::displaymanager::dm_extends(*old(disp), *final(disp)),
            old(disp).focus_unique() ==> final(disp).focus_unique(),
            old(disp).some_focused() ==> final(disp).some_focused(),
            r is Ok <==> old(disp).nextid < u32::MAX,
            r matches Ok(w) ==> {
                &&& w.kind matches crate::displaymanager::WidgetKind::WifiAp(s) && s.windowid
                    == old(disp).nextid && s.menu is None
                &&& w.children@.len() == 0
                &&& final(disp).has_window(old(disp).nextid)
            },
    {
        let windowid = disp.add_child(crate::displaymanager::Position::Normal)?;
        Ok(
            crate::displaymanager::Widget {
                kind: crate::displaymanager::WidgetKind::WifiAp(WifiAp { windowid, menu: None }),
                children: Vec::new(),
            },
        )
    }

    pub(crate) fn render(&self, focus: bool, ctx: &crate::context::Context) -> (r:
        crate::bitmap::Bitmap)
        ensures
            r@ == wifiap_render_spec(focus, *ctx),
            r.wf(),
    {
        let mut base = crate::bitmap::Bitmap::new(10, 1);
        let text = crate::font::label("Activate AP");
        let bordered = crate::bitmap::with_border(text, crate::bitmap::BorderStyle::Top, 2);
        base.blit(&bordered, (12, 0));
        let active = match ctx.wifi.state {
            WifiState::Ap => true,
            _ => false,
        };
        if active {
            let sq = crate::font::square();
            base.blit(&sq, (6, 3));
        }
        if focus {
            let ar = crate::font::arrow();
            base.blit(&ar, (0, 3));
        }
        base
    }
}

/// The full-screen page shown while the access point comes up.
#[derive(Debug)]
pub struct WifiApStartupMenu {
    pub windowid: crate::displaymanager::WindowId,
}

/// What the page renders: a starting notice on a blank screen.
pub open spec fn wifistartup_render_spec() -> Seq<Seq<u8>> {
    crate::bitmap::blit_spec(
        crate::bitmap::zero_grid(
            crate::display::DISPLAY_WIDTH as nat,
            crate::display::DISPLAY_HEIGHT as nat,
        ),
        crate::font::label_grid("Creating Network"@),
        0,
        0,
    )
}

impl WifiApStartupMenu {
    pub fn new(disp: &mut crate::displaymanager::DisplayManager) -> (r: Result<
        crate::displaymanager::Widget,
        ErrorKind,
    >)
        requires
            old(disp).wf(),
        ensures
            final(disp).wf(),
            crate::displaymanager::dm_extends(*old(disp), *final(disp)),
            old(disp).focus_unique() ==> final(disp).focus_unique(),
            old(disp).some_focused() ==> final(disp).some_focused(),
            r is Ok <==> old(disp).nextid < u32::MAX,
            r matches Ok(w) ==> {
                &&& w.kind matches crate::displaymanager::WidgetKind::WifiApStartup(s)
                    && s.windowid == old(disp).nextid
                &&& w.children@.len() == 0
                &&& final(disp).has_window(old(disp).nextid)
            },
    {
        let windowid = disp.add_child(crate::displaymanager::Position::Fixed(0, 0))?;
        Ok(
            crate::displaymanager::Widget {
                kind: crate::displaymanager::WidgetKind::WifiApStartup(
                    WifiApStartupMenu { windowid },
                ),
                children: Vec::new(),
            },
        )
    }

    pub(crate) fn render(&self) -> (r: crate::bitmap::Bitmap)
        ensures
            r@ == wifistartup_render_spec(),
            r.wf(),
    {
        let mut base = crate::bitmap::Bitmap::new(
            crate::display::DISPLAY_WIDTH,
            crate::display::DISPLAY_HEIGHT,
        );
        let t = crate::font::label("Creating Network");
        base.blit(&t, (0, 0));
        base
    }
}

} // verus!
