use crate::bitmap::{blit_spec, zero_grid, Bitmap};
use crate::context::{Context, HostOp, MountDiscovery};
use crate::displaymanager::{DisplayManager, Position, TreeEdit, Widget, WidgetKind, WindowId};
use crate::error::ErrorKind;
use crate::font;
use crate::lvm::LogicalVolume;
use crate::usb::UsbGadget;
use vstd::prelude::*;

verus! {

/// How many image paths a pending discovery offers.
pub open spec fn discovery_isos(d: Option<MountDiscovery>) -> int {
    match d {
        Some(x) => x.iso_paths@.len() as int,
        None => 0,
    }
}

/// What an internal attachment holds: the loopback device used and the
/// partitions that mounted.
#[derive(Debug, Clone)]
pub struct MountInfo {
    pub loopback_path: String,
    pub part_mount_paths: Vec<String>,
}

/// How a virtual drive is attached: not at all, to this device itself
/// (browsing its images), or exported to the host.
#[derive(Debug)]
pub enum MountState {
    Unmounted,
    Internal(MountInfo),
    External(u64),
}

/// One virtual drive backed by a logical volume.
#[derive(Debug)]
pub struct VirtualDrive {
    pub state: MountState,
    pub volume: LogicalVolume,
    pub window: WindowId,
}

/// What one toggle of the drive's attachment does to the row and to the
/// context: an unattached drive is exported; an internally attached one
/// is detached (the teardown queued) and exported; an exported one is
/// withdrawn and attached internally.  A toggle that fails for want of
/// ids leaves the drive unattached with the export withdrawn or never
/// made.
pub open spec fn toggle_frame(
    s0: VirtualDrive,
    s1: VirtualDrive,
    c0: crate::context::Context,
    c1: crate::context::Context,
    ok: bool,
) -> bool {
    &&& s1.window == s0.window
    &&& s1.volume == s0.volume
    &&& c1.usb.config == c0.usb.config
    &&& c1.usb.root == c0.usb.root
    &&& c1.persist == c0.persist
    &&& c1.vg == c0.vg
    &&& c1.wifi == c0.wifi
    &&& (match s0.state {
        MountState::Unmounted => {
            if ok {
                &&& s1.state == MountState::External(c0.usb.current_id)
                &&& drive_exported(s0, c0.usb, c1.usb)
            } else {
                s1 == s0 && c1.usb == c0.usb
            }
        },
        MountState::Internal(info) => {
            &&& c1.ops@ == c0.ops@.push(
                crate::context::HostOp::DetachInternal {
                    loopback_path: info.loopback_path,
                    part_mount_paths: info.part_mount_paths,
                },
            )
            &&& if ok {
                &&& s1.state == MountState::External(c0.usb.current_id)
                &&& drive_exported(s0, c0.usb, c1.usb)
            } else {
                s1.state is Unmounted && c1.usb == c0.usb
            }
        },
        MountState::External(id) => {
            &&& c1.usb.exports@ == crate::usb::without_id(c0.usb.exports@, id)
            &&& c1.usb.current_id == c0.usb.current_id
            &&& (ok ==> s1.state is Internal)
            &&& (!ok ==> s1.state is Unmounted)
        },
    })
}

/// The drive's volume appended to the gadget's export list under the
/// next id, writable.
pub open spec fn drive_exported(s0: VirtualDrive, u0: UsbGadget, u1: UsbGadget) -> bool {
    &&& u1.current_id == u0.current_id + 1
    &&& u1.exports@.len() == u0.exports@.len() + 1
    &&& u1.exports@.subrange(0, u0.exports@.len() as int) == u0.exports@
    &&& u1.exports@.last().id == u0.current_id
    &&& u1.exports@.last().path@ == s0.volume.path@
    &&& !u1.exports@.last().cdrom
}

/// What a drive row renders: the volume's name, the square marker while
/// it is exported to the host, and the focus arrow.
pub open spec fn vdrive_render_spec(s: VirtualDrive, focus: bool) -> Seq<Seq<u8>> {
    let base = blit_spec(zero_grid(10, 1), font::label_grid(s.volume.name@), 12, 0);
    let marked = if s.state is External {
        blit_spec(base, font::square_grid(), 6, 0)
    } else {
        base
    };
    if focus {
        blit_spec(marked, font::arrow_grid(), 0, 0)
    } else {
        marked
    }
}

impl VirtualDrive {
    /// Registers a window and builds the drive's widget, unattached.
    pub fn new(disp: &mut DisplayManager, volume: LogicalVolume) -> (r: Result<Widget, ErrorKind>)
        requires
            old(disp).wf(),
        ensures
            final(disp).wf(),
            crate::displaymanager::dm_extends(*old(disp), *final(disp)),
            old(disp).focus_unique() ==> final(disp).focus_unique(),
            old(disp).some_focused() ==> final(disp).some_focused(),
            r is Ok <==> old(disp).nextid < u32::MAX,
            r matches Ok(w) ==> {
                &&& w.kind matches WidgetKind::Drive(s) && s.window == old(disp).nextid
                    && s.volume == volume && s.state is Unmounted
                &&& w.children@.len() == 0
                &&& final(disp).nextid == old(disp).nextid + 1
                &&& final(disp).has_window(old(disp).nextid)
            },
    {
        let window = disp.add_child(Position::Normal)?;
        Ok(
            Widget {
                kind: WidgetKind::Drive(
                    VirtualDrive { state: MountState::Unmounted, volume, window },
                ),
                children: Vec::new(),
            },
        )
    }

    /// The drive's name.
    pub fn name(&self) -> (r: &String)
        ensures
            r == &self.volume.name,
    {
        &self.volume.name
    }

    /// Exports the volume to the host; a no-op when already exported,
    /// refused while attached internally.
    pub fn mount_external(&mut self, usb: &mut UsbGadget) -> (r: Result<(), ErrorKind>)
        ensures
            old(self).state is External ==> r is Ok && *final(self) == *old(self) && *final(usb)
                == *old(usb),
            old(self).state is Internal ==> r is Err && *final(self) == *old(self) && *final(usb)
                == *old(usb),
            old(self).state is Unmounted && old(usb).current_id < u64::MAX ==> r is Ok
                && final(self).state == MountState::External(old(usb).current_id),
            old(self).state is Unmounted && r is Ok ==> final(self).state is External,
            old(self).state is Unmounted && r is Ok ==> {
                &&& final(usb).current_id == old(usb).current_id + 1
                &&& final(usb).exports@.len() == old(usb).exports@.len() + 1
                &&& final(usb).exports@.subrange(0, old(usb).exports@.len() as int) == old(
                    usb,
                ).exports@
                &&& final(usb).exports@.last().id == old(usb).current_id
                &&& final(usb).exports@.last().path@ == old(self).volume.path@
                &&& !final(usb).exports@.last().cdrom
            },
            old(self).state is Unmounted && r is Err ==> *final(self) == *old(self) && *final(usb)
                == *old(usb),
            final(usb).config == old(usb).config,
            final(usb).root == old(usb).root,
            final(self).window == old(self).window,
            final(self).volume == old(self).volume,
    {
        match self.state {
            MountState::External(_) => Ok(()),
            MountState::Unmounted => {
                let id = usb.export_file(self.volume.path.as_str(), false)?;
                self.state = MountState::External(id.0);
                Ok(())
            },
            MountState::Internal(_) => Err(
                ErrorKind::Msg("attempt to mount_external while mounted internal".to_owned()),
            ),
        }
    }

    /// Withdraws the export, if any; refused while attached internally.
    pub fn unmount_external(&mut self, usb: &mut UsbGadget) -> (r: Result<(), ErrorKind>)
        ensures
            old(self).state is Internal ==> r is Err && *final(self) == *old(self) && *final(usb)
                == *old(usb),
            !(old(self).state is Internal) ==> r is Ok && final(self).state is Unmounted,
            (match old(self).state {
                MountState::External(id) => final(usb).exports@ == crate::usb::without_id(
                    old(usb).exports@,
                    id,
                ),
                MountState::Unmounted => *final(usb) == *old(usb),
                MountState::Internal(_) => *final(usb) == *old(usb),
            }),
            final(usb).current_id == old(usb).current_id,
            final(usb).config == old(usb).config,
            final(usb).root == old(usb).root,
            final(self).window == old(self).window,
            final(self).volume == old(self).volume,
    {
        match self.state {
            MountState::Unmounted => {
                self.state = MountState::Unmounted;
                Ok(())
            },
            MountState::Internal(_) => Err(
                ErrorKind::Msg("attempt to unmount_external while mounted internal".to_owned()),
            ),
            MountState::External(id) => {
                let sid = crate::usb::StorageID(id);
                let _ = usb.unexport_file(&sid);
                self.state = MountState::Unmounted;
                Ok(())
            },
        }
    }

    /// Attaches the volume internally from what the runtime discovered:
    /// the images found become child widgets.  A no-op while already
    /// internal, refused while exported.
    pub fn mount_internal(
        &mut self,
        disp: &mut DisplayManager,
        discovery: MountDiscovery,
    ) -> (r: Result<Vec<TreeEdit>, ErrorKind>)
        requires
            old(disp).wf(),
        ensures
            final(disp).wf(),
            crate::displaymanager::dm_extends(*old(disp), *final(disp)),
            old(disp).focus_unique() ==> final(disp).focus_unique(),
            old(disp).some_focused() ==> final(disp).some_focused(),
            old(self).state is External ==> r is Err && *final(self) == *old(self),
            old(self).state is Internal ==> (r matches Ok(edits) && edits@.len() == 0
                && *final(self) == *old(self)),
            old(self).state is Unmounted && r is Ok ==> final(self).state
                == MountState::Internal(
                MountInfo {
                    loopback_path: discovery.loopback_path,
                    part_mount_paths: discovery.part_mount_paths,
                },
            ),
            old(self).state is Unmounted && old(disp).nextid + discovery.iso_paths@.len()
                <= u32::MAX ==> r is Ok,
            old(self).state is Unmounted && r is Err ==> *final(self) == *old(self),
            old(self).state is Unmounted ==> (match r {
                Ok(edits) => {
                    &&& edits@.len() == discovery.iso_paths@.len()
                    &&& forall|i: int|
                        0 <= i < edits@.len() ==> ((#[trigger] edits@[i]) matches TreeEdit::InsertChild(_, w)
                            && (w.kind matches WidgetKind::IsoImage(img) && img.path
                            == discovery.iso_paths@[i] && img.state is Unmounted)
                            && w.children@.len() == 0)
                },
                Err(_) => true,
            }),
            final(self).window == old(self).window,
            final(self).volume == old(self).volume,
    {
        match self.state {
            MountState::Internal(_) => Ok(Vec::new()),
            MountState::External(_) => Err(
                ErrorKind::Msg("attempt to mount_internal while mounted external".to_owned()),
            ),
            MountState::Unmounted => {
                let mut edits: Vec<TreeEdit> = Vec::new();
                let mut i: usize = 0;
                let n = discovery.iso_paths.len();
                while i < n
                    invariant
                        disp.wf(),
                        n == discovery.iso_paths@.len(),
                        i <= n,
                        crate::displaymanager::dm_extends(*old(disp), *disp),
                        old(disp).focus_unique() ==> disp.focus_unique(),
                        old(disp).some_focused() ==> disp.some_focused(),
                        *self == *old(self),
                        old(self).state is Unmounted,
                        edits@.len() == i as int,
                        forall|k: int|
                            0 <= k < i ==> ((#[trigger] edits@[k]) matches TreeEdit::InsertChild(
                                _,
                                w,
                            ) && (w.kind matches WidgetKind::IsoImage(img) && img.path
                                == discovery.iso_paths@[k] && img.state is Unmounted)
                                && w.children@.len() == 0),
                        old(disp).nextid + n <= u32::MAX ==> disp.nextid == old(disp).nextid
                            + i as int,
                    decreases n - i,
                {
                    let ghost pre = *disp;
                    let path = discovery.iso_paths[i].clone();
                    let iso = match crate::iso::Iso::new(disp, path) {
                        Ok(x) => {
                            proof {
                                crate::displaymanager::lemma_dm_extends_trans(
                                    *old(disp),
                                    pre,
                                    *disp,
                                );
                            }
                            x
                        },
                        Err(e) => {
                            proof {
                                crate::displaymanager::lemma_dm_extends_trans(
                                    *old(disp),
                                    pre,
                                    *disp,
                                );
                                if old(disp).nextid + n <= u32::MAX {
                                    assert(pre.nextid < u32::MAX);
                                    assert(false);
                                }
                            }
                            return Err(e);
                        },
                    };
                    let at = usize::MAX;
                    edits.push(TreeEdit::InsertChild(at, iso));
                    i = i + 1;
                }
                self.state = MountState::Internal(
                    MountInfo {
                        loopback_path: discovery.loopback_path,
                        part_mount_paths: discovery.part_mount_paths,
                    },
                );
                Ok(edits)
            },
        }
    }

    /// Detaches an internal attachment: the teardown is queued for the
    /// runtime, and the caller clears the image children.  Refused while
    /// exported.
    pub fn unmount_internal(&mut self, ctx_ops: &mut Vec<HostOp>) -> (r: Result<(), ErrorKind>)
        ensures
            old(self).state is External ==> r is Err && *final(self) == *old(self)
                && *final(ctx_ops) == *old(ctx_ops),
            !(old(self).state is External) ==> r is Ok && final(self).state is Unmounted,
            (match old(self).state {
                MountState::Internal(info) => final(ctx_ops)@ == old(ctx_ops)@.push(
                    HostOp::DetachInternal {
                        loopback_path: info.loopback_path,
                        part_mount_paths: info.part_mount_paths,
                    },
                ),
                MountState::Unmounted => *final(ctx_ops) == *old(ctx_ops),
                MountState::External(_) => *final(ctx_ops) == *old(ctx_ops),
            }),
            old(ctx_ops)@.is_prefix_of(final(ctx_ops)@),
            final(self).window == old(self).window,
            final(self).volume == old(self).volume,
    {
        let mut prev = MountState::Unmounted;
        std::mem::swap(&mut self.state, &mut prev);
        match prev {
            MountState::Unmounted => {
                proof {
                    crate::displaymanager::lemma_prefix_refl(ctx_ops@);
                }
                Ok(())
            },
            MountState::Internal(info) => {
                let op = HostOp::DetachInternal {
                    loopback_path: info.loopback_path,
                    part_mount_paths: info.part_mount_paths,
                };
                proof {
                    crate::displaymanager::lemma_prefix_push(ctx_ops@, op);
                }
                ctx_ops.push(op);
                Ok(())
            },
            MountState::External(id) => {
                self.state = MountState::External(id);
                proof {
                    crate::displaymanager::lemma_prefix_refl(ctx_ops@);
                }
                Err(ErrorKind::Msg("attempt to unmount_internal while mounted external".to_owned()))
            },
        }
    }

    /// Cycles the attachment: unattached drives are exported, internal
    /// ones are detached and exported, exported ones are withdrawn and
    /// attached internally from what the runtime discovered.
    pub fn toggle_mount(
        &mut self,
        disp: &mut DisplayManager,
        ctx: &mut Context,
    ) -> (r: Result<Vec<TreeEdit>, ErrorKind>)
        requires
            old(disp).wf(),
        ensures
            final(disp).wf(),
            crate::displaymanager::dm_extends(*old(disp), *final(disp)),
            old(disp).focus_unique() ==> final(disp).focus_unique(),
            old(disp).some_focused() ==> final(disp).some_focused(),
            old(ctx).ops@.is_prefix_of(final(ctx).ops@),
            final(ctx).persist == old(ctx).persist,
            final(ctx).vg == old(ctx).vg,
            final(ctx).wifi == old(ctx).wifi,
            final(self).window == old(self).window,
            final(self).volume == old(self).volume,
            old(self).state is Unmounted && old(ctx).usb.current_id < u64::MAX ==> r is Ok
                && final(self).state is External,
            old(self).state is Internal && old(ctx).usb.current_id < u64::MAX ==> r is Ok
                && final(self).state is External,
            old(self).state is External && old(disp).nextid + discovery_isos(old(ctx).discovery)
                <= u32::MAX ==> r is Ok,
            old(self).state is External && r is Ok ==> final(self).state is Internal,
            r is Ok ==> !(final(self).state is Unmounted),
            old(self).state is Unmounted ==> (match r {
                Ok(e) => e@.len() == 0,
                Err(_) => true,
            }),
            old(self).state is Internal ==> (match r {
                Ok(e) => e@ == seq![TreeEdit::ClearChildren],
                Err(_) => true,
            }),
            old(self).state is External ==> (match r {
                Ok(e) => forall|i: int|
                    0 <= i < e@.len() ==> ((#[trigger] e@[i]) matches TreeEdit::InsertChild(_, w)
                        && w.kind is IsoImage),
                Err(_) => true,
            }),
            toggle_frame(*old(self), *final(self), *old(ctx), *final(ctx), r is Ok),
    {
        match self.state {
            MountState::Unmounted => {
                proof {
                    crate::displaymanager::lemma_prefix_refl(ctx.ops@);
                }
                let res = self.mount_external(&mut ctx.usb);
                match res {
                    Ok(_) => Ok(Vec::new()),
                    Err(e) => Err(e),
                }
            },
            MountState::Internal(_) => {
                let res = self.unmount_internal(&mut ctx.ops);
                match res {
                    Ok(_) => {},
                    Err(e) => {
                        return Err(e);
                    },
                }
                let res2 = self.mount_external(&mut ctx.usb);
                match res2 {
                    Ok(_) => {
                        let mut edits: Vec<TreeEdit> = Vec::new();
                        edits.push(TreeEdit::ClearChildren);
                        proof {
                            assert(edits@ =~= seq![TreeEdit::ClearChildren]);
                        }
                        Ok(edits)
                    },
                    Err(e) => Err(e),
                }
            },
            MountState::External(_) => {
                proof {
                    crate::displaymanager::lemma_prefix_refl(ctx.ops@);
                }
                let res = self.unmount_external(&mut ctx.usb);
                match res {
                    Ok(_) => {},
                    Err(e) => {
                        return Err(e);
                    },
                }
                let mut taken: Option<MountDiscovery> = None;
                std::mem::swap(&mut ctx.discovery, &mut taken);
                let discovery = match taken {
                    Some(d) => d,
                    None => MountDiscovery {
                        loopback_path: String::new(),
                        part_mount_paths: Vec::new(),
                        iso_paths: Vec::new(),
                    },
                };
                self.mount_internal(disp, discovery)
            },
        }
    }

    pub(crate) fn render(&self, focus: bool) -> (r: Bitmap)
        ensures
            r@ == vdrive_render_spec(*self, focus),
            r.wf(),
    {
        let mut base = Bitmap::new(10, 1);
        let text = font::label(self.volume.name.as_str());
        base.blit(&text, (12, 0));
        match self.state {
            MountState::External(_) => {
                let sq = font::square();
                base.blit(&sq, (6, 0));
            },
            _ => {},
        }
        if focus {
            let ar = font::arrow();
            base.blit(&ar, (0, 0));
        }
        base
    }
}

} // verus!
