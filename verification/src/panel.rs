use crate::bitmap::{zero_grid, Bitmap};
use crate::displaymanager::{DisplayManager, Position, Widget, WidgetKind, WindowId};
use crate::error::ErrorKind;
use vstd::prelude::*;

verus! {

/// A blank widget of a fixed size: a spacer or placeholder region that
/// renders an all-zero surface and handles nothing.
#[derive(Debug)]
pub struct Panel {
    pub window: WindowId,
    pub size: (usize, usize),
}

/// What a panel renders: an all-zero grid of its size.
pub open spec fn panel_render_spec(p: Panel) -> Seq<Seq<u8>> {
    zero_grid(p.size.0 as nat, p.size.1 as nat)
}

impl Panel {
    /// Registers a window and builds a panel node over the given children.
    pub fn new(
        disp: &mut DisplayManager,
        position: Position,
        size: (usize, usize),
        children: Vec<Widget>,
    ) -> (r: Result<Widget, ErrorKind>)
        requires
            old(disp).wf(),
        ensures
            final(disp).wf(),
            r is Ok <==> old(disp).nextid < u32::MAX,
            r matches Ok(w) ==> {
                &&& w.kind matches WidgetKind::Panel(p) && p.window == old(disp).nextid && p.size
                    == size
                &&& w.children == children
                &&& final(disp).nextid == old(disp).nextid + 1
                &&& final(disp).windows@.len() == old(disp).windows@.len() + 1
                &&& final(disp).windows@.subrange(0, old(disp).windows@.len() as int) == old(
                    disp,
                ).windows@
                &&& final(disp).windows@.last().id == old(disp).nextid
                &&& final(disp).windows@.last().position == position
                &&& !final(disp).windows@.last().focus
            },
            r is Err ==> *final(disp) == *old(disp),
            old(disp).focus_unique() ==> final(disp).focus_unique(),
            old(disp).some_focused() ==> final(disp).some_focused(),
    {
        let window = disp.add_child(position)?;
        Ok(Widget { kind: WidgetKind::Panel(Panel { window, size }), children })
    }

    pub(crate) fn render(&self) -> (r: Bitmap)
        ensures
            r@ == panel_render_spec(*self),
            r.wf(),
    {
        Bitmap::new(self.size.0, self.size.1)
    }
}

} // verus!
