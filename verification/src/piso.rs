use crate::bitmap::{zero_grid, Bitmap};
use crate::config::Config;
use crate::context::Context;
use crate::displaymanager::{DisplayManager, Position, Widget, WidgetKind, WindowId};
use crate::error::ErrorKind;
use crate::version::PiVersion;
use vstd::prelude::*;

verus! {

/// The root widget: it owns the drive rows, the new-drive row, the
/// wireless menu on boards that have the hardware, the options row and
/// the capacity gauge.
#[derive(Debug)]
pub struct PIso {
    pub config: Config,
    pub window: WindowId,
}

/// What the root renders: nothing of its own.
pub open spec fn piso_render_spec() -> Seq<Seq<u8>> {
    zero_grid(0, 0)
}

impl PIso {
    /// Registers windows for the root and its rows, builds one drive row
    /// per volume of the group, and focuses the first drive row (or the
    /// new-drive row when there is none).
    pub fn new(disp: &mut DisplayManager, ctx: &Context, config: &Config, version: PiVersion) -> (r:
        Result<Widget, ErrorKind>)
        requires
            old(disp).wf(),
        ensures
            final(disp).wf(),
            crate::displaymanager::dm_extends(*old(disp), *final(disp)),
            r matches Ok(w) ==> (w.kind matches WidgetKind::Piso(s) && s.window == old(
                disp,
            ).nextid),
            r is Ok ==> final(disp).focus_unique() && final(disp).some_focused(),
            // the composed rows: one drive per volume, the new-drive row,
            // the wireless row on boards that have the hardware, the
            // options row, and the capacity gauge
            r matches Ok(w) ==> ({
                let nvol = ctx.vg.volumes@.len() as int;
                let wifi = version is ZeroW11 || version is Unknown;
                let extra: int = if wifi {
                    4
                } else {
                    3
                };
                &&& w.children@.len() == nvol + extra
                &&& forall|i: int|
                    0 <= i < nvol ==> ((#[trigger] w.children@[i]).kind
                        matches WidgetKind::Drive(d) && d.volume == ctx.vg.volumes@[i]
                        && d.state is Unmounted)
                &&& w.children@[nvol].kind is NewDrive
                &&& (wifi ==> w.children@[nvol + 1].kind is WifiMenu)
                &&& w.children@[nvol + extra - 2].kind is Options
                &&& w.children@[nvol + extra - 1].kind is Stats
            }),
    {
        let window = disp.add_child(Position::Fixed(0, 0))?;
        let volumes = ctx.vg.volumes();
        let mut children: Vec<Widget> = Vec::new();
        let mut first_drive: Option<WindowId> = None;
        let mut i: usize = 0;
        while i < volumes.len()
            invariant
                i <= volumes@.len(),
                disp.wf(),
                crate::displaymanager::dm_extends(*old(disp), *disp),
                volumes@ == ctx.vg.volumes@,
                children@.len() == i as int,
                forall|k: int|
                    0 <= k < i ==> ((#[trigger] children@[k]).kind matches WidgetKind::Drive(d)
                        && d.volume == ctx.vg.volumes@[k] && d.state is Unmounted),
            decreases volumes@.len() - i,
        {
            let ghost pre = *disp;
            let vol = crate::lvm::LogicalVolume {
                name: volumes[i].name.clone(),
                path: volumes[i].path.clone(),
                size: volumes[i].size,
            };
            let drive = match crate::vdrive::VirtualDrive::new(disp, vol) {
                Ok(x) => {
                    proof {
                        crate::displaymanager::lemma_dm_extends_trans(*old(disp), pre, *disp);
                    }
                    x
                },
                Err(e) => {
                    proof {
                        crate::displaymanager::lemma_dm_extends_trans(*old(disp), pre, *disp);
                    }
                    return Err(e);
                },
            };
            proof {
                assert(vol == ctx.vg.volumes@[i as int]);
            }
            if first_drive.is_none() {
                first_drive = Some(drive.windowid());
            }
            children.push(drive);
            i = i + 1;
        }
        let ghost nvol = children@.len();
        proof {
            assert(nvol == ctx.vg.volumes@.len());
        }
        let ghost d1 = *disp;
        let ndrive = match crate::newdrive::NewDrive::new(disp, crate::wifi::clone_config(config)) {
            Ok(x) => {
                proof {
                    crate::displaymanager::lemma_dm_extends_trans(*old(disp), d1, *disp);
                }
                x
            },
            Err(e) => {
                proof {
                    crate::displaymanager::lemma_dm_extends_trans(*old(disp), d1, *disp);
                }
                return Err(e);
            },
        };
        let ndrive_id = ndrive.windowid();
        children.push(ndrive);
        if version.has_wifi() {
            let ghost d2 = *disp;
            let wifi = match crate::wifi::WifiMenu::new(disp, config) {
                Ok(x) => {
                    proof {
                        crate::displaymanager::lemma_dm_extends_trans(*old(disp), d2, *disp);
                    }
                    x
                },
                Err(e) => {
                    proof {
                        crate::displaymanager::lemma_dm_extends_trans(*old(disp), d2, *disp);
                    }
                    return Err(e);
                },
            };
            children.push(wifi);
        }
        let ghost d3 = *disp;
        let options = match crate::options::Options::new(disp) {
            Ok(x) => {
                proof {
                    crate::displaymanager::lemma_dm_extends_trans(*old(disp), d3, *disp);
                }
                x
            },
            Err(e) => {
                proof {
                    crate::displaymanager::lemma_dm_extends_trans(*old(disp), d3, *disp);
                }
                return Err(e);
            },
        };
        children.push(options);
        let ghost d4 = *disp;
        let stats = match crate::stats::Stats::new(disp, ctx.vg.clone_model()) {
            Ok(x) => {
                proof {
                    crate::displaymanager::lemma_dm_extends_trans(*old(disp), d4, *disp);
                }
                x
            },
            Err(e) => {
                proof {
                    crate::displaymanager::lemma_dm_extends_trans(*old(disp), d4, *disp);
                }
                return Err(e);
            },
        };
        children.push(stats);
        let ghost d5 = *disp;
        let focused = match first_drive {
            Some(id) => disp.focus_window(id),
            None => disp.focus_window(ndrive_id),
        };
        proof {
            crate::displaymanager::lemma_dm_extends_trans(*old(disp), d5, *disp);
        }
        if !focused {
            return Err(ErrorKind::Registry("newly registered window is missing".to_owned()));
        }
        Ok(
            Widget {
                kind: WidgetKind::Piso(PIso { config: crate::wifi::clone_config(config), window }),
                children,
            },
        )
    }

    pub(crate) fn render(&self) -> (r: Bitmap)
        ensures
            r@ == piso_render_spec(),
            r.wf(),
    {
        Bitmap::new(0, 0)
    }
}

} // verus!
