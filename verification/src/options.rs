use crate::bitmap::{blit_spec, zero_grid, Bitmap};
use crate::buttons::vdrivelist::{DriveList, MarkKind};
use crate::displaymanager::{DisplayManager, Position, Widget, WidgetKind, WindowId};
use crate::error::ErrorKind;
use crate::font;
use vstd::prelude::*;

verus! {

/// The options row: while open, it shows the per-drive maintenance lists
/// beneath itself.
#[derive(Debug)]
pub struct Options {
    pub window: WindowId,
    pub open: bool,
}

/// What the options row renders: its caption and the focus arrow.
pub open spec fn options_render_spec(focus: bool) -> Seq<Seq<u8>> {
    let base = blit_spec(zero_grid(10, 1), font::label_grid("Options"@), 12, 0);
    if focus {
        blit_spec(base, font::arrow_grid(), 0, 0)
    } else {
        base
    }
}

impl Options {
    /// Registers windows for the row and its four drive lists, and builds
    /// the subtree, closed.
    pub fn new(disp: &mut DisplayManager) -> (r: Result<Widget, ErrorKind>)
        requires
            old(disp).wf(),
        ensures
            final(disp).wf(),
            crate::displaymanager::dm_extends(*old(disp), *final(disp)),
            old(disp).focus_unique() ==> final(disp).focus_unique(),
            old(disp).some_focused() ==> final(disp).some_focused(),
            r matches Ok(w) ==> (w.kind matches WidgetKind::Options(o) && o.window == old(
                disp,
            ).nextid && !o.open && w.children@.len() == 4),
    {
        let window = disp.add_child(Position::Normal)?;
        let ghost d0 = *disp;
        let readonly = DriveList::new(disp, "Make Read-Only", MarkKind::ReadOnly, false);
        let ghost d1 = *disp;
        proof {
            crate::displaymanager::lemma_dm_extends_trans(*old(disp), d0, d1);
        }
        let readonly = match readonly {
            Ok(x) => x,
            Err(e) => {
                return Err(e);
            },
        };
        let removable = DriveList::new(disp, "Make Nonremovable", MarkKind::NonRemovable, false);
        let ghost d2 = *disp;
        proof {
            crate::displaymanager::lemma_dm_extends_trans(*old(disp), d1, d2);
        }
        let removable = match removable {
            Ok(x) => x,
            Err(e) => {
                return Err(e);
            },
        };
        let snapshot = DriveList::new(disp, "Snapshot Drive", MarkKind::Snapshot, true);
        let ghost d3 = *disp;
        proof {
            crate::displaymanager::lemma_dm_extends_trans(*old(disp), d2, d3);
        }
        let snapshot = match snapshot {
            Ok(x) => x,
            Err(e) => {
                return Err(e);
            },
        };
        let delete = DriveList::new(disp, "Delete Drive", MarkKind::Delete, true);
        let ghost d4 = *disp;
        proof {
            crate::displaymanager::lemma_dm_extends_trans(*old(disp), d3, d4);
        }
        let delete = match delete {
            Ok(x) => x,
            Err(e) => {
                return Err(e);
            },
        };
        let mut children: Vec<Widget> = Vec::new();
        children.push(readonly);
        children.push(removable);
        children.push(snapshot);
        children.push(delete);
        Ok(
            Widget {
                kind: WidgetKind::Options(Options { window, open: false }),
                children,
            },
        )
    }

    pub(crate) fn render(&self, focus: bool) -> (r: Bitmap)
        ensures
            r@ == options_render_spec(focus),
            r.wf(),
    {
        let mut base = Bitmap::new(10, 1);
        let text = font::label("Options");
        base.blit(&text, (12, 0));
        if focus {
            let ar = font::arrow();
            base.blit(&ar, (0, 0));
        }
        base
    }
}

} // verus!
