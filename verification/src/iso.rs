use crate::bitmap::{blit_spec, zero_grid, Bitmap};
use crate::displaymanager::{DisplayManager, Position, Widget, WidgetKind, WindowId};
use crate::error::ErrorKind;
use crate::font;
use crate::usb::UsbGadget;
use vstd::prelude::*;

verus! {

/// Whether the optical image is currently exported to the host.
#[derive(Debug)]
pub enum IsoMountState {
    Mounted(u64),
    Unmounted,
}

/// One optical image found on an internally attached drive, exportable to
/// the host as a read-only drive.
#[derive(Debug)]
pub struct Iso {
    pub window: WindowId,
    pub path: String,
    pub name: String,
    pub state: IsoMountState,
}

/// What one toggle of the image's export does to the row and to the
/// gadget: an exported image is withdrawn, an unexported one is exported
/// under the next id as a read-only optical drive, and an exhausted id
/// space changes nothing.
pub open spec fn toggle_frame(s0: Iso, s1: Iso, u0: UsbGadget, u1: UsbGadget) -> bool {
    &&& s1.window == s0.window
    &&& s1.path == s0.path
    &&& s1.name == s0.name
    &&& u1.config == u0.config
    &&& u1.root == u0.root
    &&& (match s0.state {
        IsoMountState::Mounted(id) => {
            &&& s1.state is Unmounted
            &&& u1.exports@ == crate::usb::without_id(u0.exports@, id)
            &&& u1.current_id == u0.current_id
        },
        IsoMountState::Unmounted => {
            if u0.current_id < u64::MAX {
                &&& s1.state == IsoMountState::Mounted(u0.current_id)
                &&& u1.current_id == u0.current_id + 1
                &&& u1.exports@.len() == u0.exports@.len() + 1
                &&& u1.exports@.subrange(0, u0.exports@.len() as int) == u0.exports@
                &&& u1.exports@.last().id == u0.current_id
                &&& u1.exports@.last().path@ == s0.path@
                &&& u1.exports@.last().cdrom
            } else {
                s1 == s0 && u1 == u0
            }
        },
    })
}

/// What an image row renders: its file name, a square marker while it is
/// exported, and the focus arrow.
pub open spec fn iso_render_spec(s: Iso, focus: bool) -> Seq<Seq<u8>> {
    let base = blit_spec(zero_grid(10, 1), font::label_grid(s.name@), 16, 0);
    let marked = if s.state is Mounted {
        blit_spec(base, font::square_grid(), 10, 0)
    } else {
        base
    };
    if focus {
        blit_spec(marked, font::arrow_grid(), 0, 0)
    } else {
        marked
    }
}

impl Iso {
    /// Registers a window for an image found at `path` and builds its
    /// widget, not exported yet.
    pub fn new(disp: &mut DisplayManager, path: String) -> (r: Result<Widget, ErrorKind>)
        requires
            old(disp).wf(),
        ensures
            final(disp).wf(),
            crate::displaymanager::dm_extends(*old(disp), *final(disp)),
            old(disp).focus_unique() ==> final(disp).focus_unique(),
            old(disp).some_focused() ==> final(disp).some_focused(),
            r is Ok <==> old(disp).nextid < u32::MAX,
            r matches Ok(w) ==> {
                &&& w.kind matches WidgetKind::IsoImage(s) && s.window == old(disp).nextid
                    && s.path == path && s.name@ == crate::lvm::file_name_of(path@)
                    && s.state is Unmounted
                &&& w.children@.len() == 0
                &&& final(disp).nextid == old(disp).nextid + 1
            },
    {
        let window = disp.add_child(Position::Normal)?;
        let name = crate::utils::file_name(path.as_str());
        Ok(
            Widget {
                kind: WidgetKind::IsoImage(
                    Iso { window, path, name, state: IsoMountState::Unmounted },
                ),
                children: Vec::new(),
            },
        )
    }

    /// Exports the image to the host; refuses while already exported.
    pub fn mount(&mut self, usb: &mut UsbGadget) -> (r: Result<(), ErrorKind>)
        ensures
            r is Ok <==> (old(self).state is Unmounted && old(usb).current_id < u64::MAX),
            r is Ok ==> final(self).state == IsoMountState::Mounted(old(usb).current_id),
            r is Ok ==> final(usb).exports@.len() == old(usb).exports@.len() + 1,
            r is Ok ==> final(usb).exports@.last().path@ == old(self).path@
                && final(usb).exports@.last().cdrom,
            r is Ok ==> final(usb).exports@.subrange(0, old(usb).exports@.len() as int) == old(
                usb,
            ).exports@ && final(usb).exports@.last().id == old(usb).current_id,
            r is Err && old(self).state is Mounted ==> *final(self) == *old(self) && *final(usb)
                == *old(usb),
            r is Err && old(self).state is Unmounted ==> *final(self) == *old(self) && *final(usb)
                == *old(usb),
            r is Ok ==> final(usb).current_id == old(usb).current_id + 1,
            final(usb).config == old(usb).config,
            final(usb).root == old(usb).root,
            final(self).window == old(self).window,
            final(self).path == old(self).path,
            final(self).name == old(self).name,
    {
        match self.state {
            IsoMountState::Unmounted => {
                let id = usb.export_file(self.path.as_str(), true)?;
                self.state = IsoMountState::Mounted(id.0);
                Ok(())
            },
            IsoMountState::Mounted(_) => Err(
                ErrorKind::Msg("attempt to mount iso while already mounted".to_owned()),
            ),
        }
    }

    /// Withdraws the export, if any.
    pub fn unmount(&mut self, usb: &mut UsbGadget) -> (r: Result<(), ErrorKind>)
        ensures
            r is Ok,
            final(self).state is Unmounted,
            (match old(self).state {
                IsoMountState::Mounted(id) => final(usb).exports@ == crate::usb::without_id(
                    old(usb).exports@,
                    id,
                ),
                IsoMountState::Unmounted => *final(usb) == *old(usb),
            }),
            final(usb).current_id == old(usb).current_id,
            final(usb).config == old(usb).config,
            final(usb).root == old(usb).root,
            final(self).window == old(self).window,
            final(self).path == old(self).path,
            final(self).name == old(self).name,
    {
        match self.state {
            IsoMountState::Mounted(id) => {
                let sid = crate::usb::StorageID(id);
                let _ = usb.unexport_file(&sid);
                self.state = IsoMountState::Unmounted;
                Ok(())
            },
            IsoMountState::Unmounted => Ok(()),
        }
    }

    /// Exports the image when it is not exported and withdraws it when it
    /// is.
    pub fn toggle_mount(&mut self, usb: &mut UsbGadget) -> (r: Result<(), ErrorKind>)
        ensures
            old(self).state is Mounted ==> r is Ok,
            old(self).state is Unmounted && old(usb).current_id < u64::MAX ==> r is Ok,
            toggle_frame(*old(self), *final(self), *old(usb), *final(usb)),
    {
        match self.state {
            IsoMountState::Unmounted => self.mount(usb),
            IsoMountState::Mounted(_) => self.unmount(usb),
        }
    }

    pub(crate) fn render(&self, focus: bool) -> (r: Bitmap)
        ensures
            r@ == iso_render_spec(*self, focus),
            r.wf(),
    {
        let mut base = Bitmap::new(10, 1);
        let text = font::label(self.name.as_str());
        base.blit(&text, (16, 0));
        match self.state {
            IsoMountState::Mounted(_) => {
                let sq = font::square();
                base.blit(&sq, (10, 0));
            },
            IsoMountState::Unmounted => {},
        }
        if focus {
            let ar = font::arrow();
            base.blit(&ar, (0, 0));
        }
        base
    }
}

} // verus!
