use crate::action::Action;
use crate::bitmap::{blit_spec, zero_grid, Bitmap};
use crate::displaymanager::{DisplayManager, Position, Widget, WidgetKind, WindowId};
use crate::error::ErrorKind;
use crate::font;
use vstd::prelude::*;

verus! {

/// A row that emits one fixed action when selected: the way back out of a
/// menu.
#[derive(Debug)]
pub struct BackButton {
    pub windowid: WindowId,
    pub action: Action,
}

/// What the back row renders: its caption and the focus arrow.
pub open spec fn back_render_spec(focus: bool) -> Seq<Seq<u8>> {
    let base = blit_spec(zero_grid(10, 1), font::label_grid("Back"@), 12, 0);
    if focus {
        blit_spec(base, font::arrow_grid(), 0, 0)
    } else {
        base
    }
}

impl BackButton {
    /// Registers a window and builds the row; selecting it will emit
    /// `action`.
    pub fn new(disp: &mut DisplayManager, action: Action) -> (r: Result<Widget, ErrorKind>)
        requires
            old(disp).wf(),
        ensures
            final(disp).wf(),
            crate::displaymanager::dm_extends(*old(disp), *final(disp)),
            old(disp).focus_unique() ==> final(disp).focus_unique(),
            old(disp).some_focused() ==> final(disp).some_focused(),
            r is Ok <==> old(disp).nextid < u32::MAX,
            r matches Ok(w) ==> {
                &&& w.kind matches WidgetKind::Back(b) && b.windowid == old(disp).nextid
                    && b.action == action
                &&& w.children@.len() == 0
                &&& final(disp).nextid == old(disp).nextid + 1
                &&& final(disp).has_window(old(disp).nextid)
            },
    {
        let windowid = disp.add_child(Position::Normal)?;
        Ok(
            Widget {
                kind: WidgetKind::Back(BackButton { windowid, action }),
                children: Vec::new(),
            },
        )
    }

    pub(crate) fn render(&self, focus: bool) -> (r: Bitmap)
        ensures
            r@ == back_render_spec(focus),
            r.wf(),
    {
        let mut base = Bitmap::new(10, 1);
        let text = font::label("Back");
        base.blit(&text, (12, 0));
        if focus {
            let ar = font::arrow();
            base.blit(&ar, (0, 0));
        }
        base
    }
}

} // verus!
