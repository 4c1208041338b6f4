use crate::bitmap::{blit_spec, rotate_left_spec, zero_grid, Bitmap, Direction};
use crate::context::Context;
use crate::displaymanager::{DisplayManager, Position, Widget, WidgetKind, WindowId};
use crate::error::ErrorKind;
use crate::font;
use crate::lvm::VolumeGroup;
use crate::utils;
use vstd::prelude::*;
use vstd::string::StringExecFns;

verus! {

/// The capacity gauge pinned at the display's right edge.
#[derive(Debug)]
pub struct Stats {
    pub vg: VolumeGroup,
    pub window: WindowId,
}

/// The free share of the volume group, in whole percent, capped at one
/// hundred.
pub open spec fn free_percent_of(size: u64, free: u64) -> int {
    if size > 0 {
        let p = free * 100 / size as int;
        if p > 100 {
            100
        } else {
            p
        }
    } else {
        0
    }
}

/// What the gauge renders: the free percentage, rotated a quarter turn to
/// the left.
pub open spec fn stats_render_spec(cx: Context) -> Seq<Seq<u8>> {
    let text = utils::dec_seq(free_percent_of(cx.vg.size, cx.vg.free) as nat) + "% Free"@;
    rotate_left_spec(blit_spec(zero_grid(0, 0), font::label_grid(text), 0, 0))
}

impl Stats {
    /// Registers a window at the display's right edge and builds the
    /// gauge.
    pub fn new(disp: &mut DisplayManager, vg: VolumeGroup) -> (r: Result<Widget, ErrorKind>)
        requires
            old(disp).wf(),
        ensures
            final(disp).wf(),
            crate::displaymanager::dm_extends(*old(disp), *final(disp)),
            old(disp).focus_unique() ==> final(disp).focus_unique(),
            old(disp).some_focused() ==> final(disp).some_focused(),
            r is Ok <==> old(disp).nextid < u32::MAX,
            r matches Ok(w) ==> {
                &&& w.kind matches WidgetKind::Stats(s) && s.window == old(disp).nextid && s.vg
                    == vg
                &&& w.children@.len() == 0
                &&& final(disp).nextid == old(disp).nextid + 1
            },
    {
        let window = disp.add_child(Position::Fixed(119, 0))?;
        Ok(Widget { kind: WidgetKind::Stats(Stats { vg, window }), children: Vec::new() })
    }

    pub(crate) fn render(&self, ctx: &Context) -> (r: Bitmap)
        ensures
            r@ == stats_render_spec(*ctx),
            r.wf(),
    {
        proof {
            assert(ctx.vg.free * 100 < 0x10000000000000000 * 100) by (nonlinear_arith)
                requires
                    ctx.vg.free < 0x10000000000000000,
            ;
            if ctx.vg.size > 0 {
                assert(ctx.vg.free * 100 / ctx.vg.size as int <= ctx.vg.free * 100) by (nonlinear_arith)
                    requires
                        ctx.vg.size > 0,
                        ctx.vg.free >= 0,
                ;
            }
        }
        let pct: u64 = if ctx.vg.size > 0 {
            let wide: u128 = ctx.vg.free as u128 * 100 / ctx.vg.size as u128;
            if wide > 100 {
                100
            } else {
                wide as u64
            }
        } else {
            0
        };
        proof {
            assert(pct == free_percent_of(ctx.vg.size, ctx.vg.free));
        }
        let mut text = utils::u64_to_dec(pct);
        text.append("% Free");
        let mut base = Bitmap::new(0, 0);
        let label = font::label(text.as_str());
        base.blit(&label, (0, 0));
        base.rotate(Direction::Left)
    }
}

} // verus!
