use crate::action::Action;
use crate::bitmap::{blit_spec, zero_grid, Bitmap};
use crate::buttons::back::BackButton;
use crate::context::Context;
use crate::display::{DISPLAY_HEIGHT, DISPLAY_WIDTH};
use crate::displaymanager::{DisplayManager, Position, Widget, WidgetKind, WindowId};
use crate::error::ErrorKind;
use crate::font;
use vstd::prelude::*;

verus! {

/// Which per-drive maintenance a list performs, which also decides when
/// an entry shows the marker square.
#[derive(Debug, Clone, Copy, PartialEq, Eq)]
pub enum MarkKind {
    ReadOnly,
    NonRemovable,
    Delete,
    Snapshot,
}

/// The action an entry emits for the drive it names.
pub open spec fn mark_action(m: MarkKind, name: String) -> Action {
    match m {
        MarkKind::ReadOnly => Action::ToggleDriveReadOnly(name),
        MarkKind::NonRemovable => Action::ToggleDriveNonRemovable(name),
        MarkKind::Delete => Action::DeleteDrive(name),
        MarkKind::Snapshot => Action::SnapshotDrive(name),
    }
}

/// Builds the action an entry emits.
pub fn mark_action_exec(m: MarkKind, name: &String) -> (r: Action)
    ensures
        r == mark_action(m, *name),
{
    match m {
        MarkKind::ReadOnly => Action::ToggleDriveReadOnly(name.clone()),
        MarkKind::NonRemovable => Action::ToggleDriveNonRemovable(name.clone()),
        MarkKind::Delete => Action::DeleteDrive(name.clone()),
        MarkKind::Snapshot => Action::SnapshotDrive(name.clone()),
    }
}

/// Whether an entry is marked, given the drive's persisted flags.
pub open spec fn marked_spec(m: MarkKind, flags: crate::context::DriveFlags) -> bool {
    match m {
        MarkKind::ReadOnly => flags.readonly,
        MarkKind::NonRemovable => !flags.removable,
        MarkKind::Delete => false,
        MarkKind::Snapshot => false,
    }
}

/// One drive entry of an open list.
#[derive(Debug)]
pub struct DriveListItem {
    pub window: WindowId,
    pub name: String,
    pub mark: MarkKind,
    pub listwindow: WindowId,
    pub autoclose: bool,
}

/// What a drive entry renders: the drive's name, the marker square when
/// its persisted flag is set, and the focus arrow.
pub open spec fn item_render_spec(s: DriveListItem, focus: bool, cx: Context) -> Seq<Seq<u8>> {
    let base = blit_spec(zero_grid(10, 1), font::label_grid(s.name@), 12, 0);
    let marked = if marked_spec(s.mark, cx.persist.spec_get(s.name@)) {
        blit_spec(base, font::square_grid(), 6, 0)
    } else {
        base
    };
    if focus {
        blit_spec(marked, font::arrow_grid(), 0, 0)
    } else {
        marked
    }
}

impl DriveListItem {
    pub fn new(
        disp: &mut DisplayManager,
        name: String,
        mark: MarkKind,
        listwindow: WindowId,
        autoclose: bool,
    ) -> (r: Result<Widget, ErrorKind>)
        requires
            old(disp).wf(),
        ensures
            final(disp).wf(),
            crate::displaymanager::dm_extends(*old(disp), *final(disp)),
            old(disp).focus_unique() ==> final(disp).focus_unique(),
            old(disp).some_focused() ==> final(disp).some_focused(),
            r is Ok <==> old(disp).nextid < u32::MAX,
            r matches Ok(w) ==> {
                &&& w.kind matches WidgetKind::DriveItem(s) && s.window == old(disp).nextid
                    && s.name == name && s.mark == mark && s.listwindow == listwindow
                    && s.autoclose == autoclose
                &&& w.children@.len() == 0
                &&& final(disp).nextid == old(disp).nextid + 1
                &&& final(disp).has_window(old(disp).nextid)
            },
    {
        let window = disp.add_child(Position::Normal)?;
        Ok(
            Widget {
                kind: WidgetKind::DriveItem(
                    DriveListItem { window, name, mark, listwindow, autoclose },
                ),
                children: Vec::new(),
            },
        )
    }

    pub(crate) fn render(&self, focus: bool, ctx: &Context) -> (r: Bitmap)
        requires
            ctx.wf(),
        ensures
            r@ == item_render_spec(*self, focus, *ctx),
            r.wf(),
    {
        let mut base = Bitmap::new(10, 1);
        let text = font::label(self.name.as_str());
        base.blit(&text, (12, 0));
        let flags = ctx.persist.get(self.name.as_str());
        let marked = match self.mark {
            MarkKind::ReadOnly => flags.readonly,
            MarkKind::NonRemovable => !flags.removable,
            MarkKind::Delete => false,
            MarkKind::Snapshot => false,
        };
        if marked {
            let sq = font::square();
            base.blit(&sq, (6, 0));
        }
        if focus {
            let ar = font::arrow();
            base.blit(&ar, (0, 0));
        }
        base
    }
}

/// The full-screen page an open drive list shows: its entries and a back
/// row flow on a blank background.
#[derive(Debug)]
pub struct DriveListSelector {
    pub window: WindowId,
}

/// What the page's own surface renders: a blank display-sized region.
pub open spec fn selector_render_spec() -> Seq<Seq<u8>> {
    zero_grid(DISPLAY_WIDTH as nat, DISPLAY_HEIGHT as nat)
}

impl DriveListSelector {
    /// Registers windows for the page, one entry per drive of the volume
    /// group, and the back row; the first entry (or the back row) gets
    /// the focus.
    pub fn new(
        disp: &mut DisplayManager,
        ctx: &Context,
        parent: WindowId,
        mark: MarkKind,
        autoclose: bool,
    ) -> (r: Result<Widget, ErrorKind>)
        requires
            old(disp).wf(),
        ensures
            final(disp).wf(),
            crate::displaymanager::dm_extends(*old(disp), *final(disp)),
            old(disp).focus_unique() && old(disp).some_focused() ==> final(disp).focus_unique()
                && final(disp).some_focused(),
            r matches Ok(w) ==> (w.kind matches WidgetKind::DriveSelector(s) && s.window == old(
                disp,
            ).nextid),
    {
        let window = disp.add_child(Position::Fixed(0, 0))?;
        let volumes = ctx.vg.volumes();
        let mut children: Vec<Widget> = Vec::new();
        let mut first_item: Option<WindowId> = None;
        let mut i: usize = 0;
        while i < volumes.len()
            invariant
                disp.wf(),
                crate::displaymanager::dm_extends(*old(disp), *disp),
                old(disp).focus_unique() && old(disp).some_focused() ==> disp.focus_unique()
                    && disp.some_focused(),
            decreases volumes@.len() - i,
        {
            let ghost pre = *disp;
            let name = volumes[i].name.clone();
            let item = match DriveListItem::new(disp, name, mark, parent, autoclose) {
                Ok(x) => {
                    proof {
                        crate::displaymanager::lemma_dm_extends_trans(*old(disp), pre, *disp);
                    }
                    x
                },
                Err(e) => {
                    proof {
                        crate::displaymanager::lemma_dm_extends_trans(*old(disp), pre, *disp);
                    }
                    return Err(e);
                },
            };
            if first_item.is_none() {
                first_item = Some(item.windowid());
            }
            children.push(item);
            i = i + 1;
        }
        let ghost pre2 = *disp;
        let back = match BackButton::new(disp, Action::CloseVDriveList(parent)) {
            Ok(x) => {
                proof {
                    crate::displaymanager::lemma_dm_extends_trans(*old(disp), pre2, *disp);
                }
                x
            },
            Err(e) => {
                proof {
                    crate::displaymanager::lemma_dm_extends_trans(*old(disp), pre2, *disp);
                }
                return Err(e);
            },
        };
        let back_id = back.windowid();
        children.push(back);
        let ghost pre3 = *disp;
        match first_item {
            Some(id) => {
                let _ = disp.focus_window(id);
            },
            None => {
                let _ = disp.focus_window(back_id);
            },
        }
        proof {
            crate::displaymanager::lemma_dm_extends_trans(*old(disp), pre3, *disp);
        }
        Ok(
            Widget {
                kind: WidgetKind::DriveSelector(DriveListSelector { window }),
                children,
            },
        )
    }

    pub(crate) fn render(&self) -> (r: Bitmap)
        ensures
            r@ == selector_render_spec(),
            r.wf(),
    {
        Bitmap::new(DISPLAY_WIDTH, DISPLAY_HEIGHT)
    }
}

/// The closed row of one per-drive maintenance list; selecting it opens
/// the full-screen page.
#[derive(Debug)]
pub struct DriveList {
    pub window: WindowId,
    pub name: String,
    pub mark: MarkKind,
    pub autoclose: bool,
    pub open_page: Option<WindowId>,
}

/// What the closed row renders: its caption and the focus arrow.
pub open spec fn list_render_spec(s: DriveList, focus: bool) -> Seq<Seq<u8>> {
    let base = blit_spec(zero_grid(10, 1), font::label_grid(s.name@), 16, 0);
    if focus {
        blit_spec(base, font::arrow_grid(), 0, 0)
    } else {
        base
    }
}

impl DriveList {
    pub fn new(
        disp: &mut DisplayManager,
        name: &str,
        mark: MarkKind,
        autoclose: bool,
    ) -> (r: Result<Widget, ErrorKind>)
        requires
            old(disp).wf(),
        ensures
            final(disp).wf(),
            crate::displaymanager::dm_extends(*old(disp), *final(disp)),
            old(disp).focus_unique() ==> final(disp).focus_unique(),
            old(disp).some_focused() ==> final(disp).some_focused(),
            r is Ok <==> old(disp).nextid < u32::MAX,
            r matches Ok(w) ==> {
                &&& w.kind matches WidgetKind::DriveList(s) && s.window == old(disp).nextid
                    && s.name@ == name@ && s.mark == mark && s.autoclose == autoclose
                    && s.open_page is None
                &&& w.children@.len() == 0
                &&& final(disp).nextid == old(disp).nextid + 1
            },
    {
        let window = disp.add_child(Position::Normal)?;
        Ok(
            Widget {
                kind: WidgetKind::DriveList(
                    DriveList {
                        window,
                        name: name.to_owned(),
                        mark,
                        autoclose,
                        open_page: None,
                    },
                ),
                children: Vec::new(),
            },
        )
    }

    pub(crate) fn render(&self, focus: bool) -> (r: Bitmap)
        ensures
            r@ == list_render_spec(*self, focus),
            r.wf(),
    {
        let mut base = Bitmap::new(10, 1);
        let text = font::label(self.name.as_str());
        base.blit(&text, (16, 0));
        if focus {
            let ar = font::arrow();
            base.blit(&ar, (0, 0));
        }
        base
    }
}

} // verus!
