use crate::bitmap::{blit_spec, border_edge_spec, zero_grid, Bitmap, BorderStyle};
use crate::config::Config;
use crate::context::{Context, FormatKind, HostOp};
use crate::display::{DISPLAY_HEIGHT, DISPLAY_WIDTH};
use crate::displaymanager::{DisplayManager, Position, Widget, WidgetKind, WindowId};
use crate::error::ErrorKind;
use crate::font;
use crate::lvm::LogicalVolume;
use crate::utils;
use vstd::prelude::*;
use vstd::string::StringExecFns;

verus! {

/// The row that starts the new-drive flow; while the size menu is open
/// it holds that menu as its child.
#[derive(Debug)]
pub struct NewDrive {
    pub window: WindowId,
    pub config: Config,
    pub menu: Option<WindowId>,
}

/// What the row renders: its caption with a line above it, and the focus
/// arrow.
pub open spec fn newdrive_render_spec(focus: bool) -> Seq<Seq<u8>> {
    let bordered = border_edge_spec(font::label_grid("New Drive"@), BorderStyle::Top, 3);
    let base = blit_spec(zero_grid(10, 1), bordered, 12, 0);
    if focus {
        blit_spec(base, font::arrow_grid(), 0, 3)
    } else {
        base
    }
}

impl NewDrive {
    /// Registers a window and builds the row, with no menu open.
    pub fn new(disp: &mut DisplayManager, config: Config) -> (r: Result<Widget, ErrorKind>)
        requires
            old(disp).wf(),
        ensures
            final(disp).wf(),
            crate::displaymanager::dm_extends(*old(disp), *final(disp)),
            old(disp).focus_unique() ==> final(disp).focus_unique(),
            old(disp).some_focused() ==> final(disp).some_focused(),
            r is Ok <==> old(disp).nextid < u32::MAX,
            r matches Ok(w) ==> {
                &&& w.kind matches WidgetKind::NewDrive(s) && s.window == old(disp).nextid
                    && s.config == config && s.menu is None
                &&& w.children@.len() == 0
                &&& final(disp).nextid == old(disp).nextid + 1
                &&& final(disp).has_window(old(disp).nextid)
            },
    {
        let window = disp.add_child(Position::Normal)?;
        Ok(
            Widget {
                kind: WidgetKind::NewDrive(NewDrive { window, config, menu: None }),
                children: Vec::new(),
            },
        )
    }

    pub(crate) fn render(&self, focus: bool) -> (r: Bitmap)
        ensures
            r@ == newdrive_render_spec(focus),
            r.wf(),
    {
        let mut base = Bitmap::new(10, 1);
        let text = font::label("New Drive");
        let bordered = crate::bitmap::with_border(text, BorderStyle::Top, 2);
        base.blit(&bordered, (12, 0));
        if focus {
            let ar = font::arrow();
            base.blit(&ar, (0, 3));
        }
        base
    }
}

/// The size menu of the new-drive flow: a full-screen page picking the
/// new drive's share of the volume group.
#[derive(Debug)]
pub struct DriveSize {
    pub window: WindowId,
    pub current_percent: u32,
    pub vg_size: u64,
    pub size_step: u32,
    pub menu: Option<WindowId>,
}

/// The size the current percentage selects: that share of the group's
/// bytes, rounded up to a whole number of half-kibibyte blocks and
/// capped at the machine's largest size.
pub open spec fn current_size_spec(vg_size: u64, percent: u32) -> int {
    let raw = (vg_size * percent / 100 + 511) / 512 * 512;
    if raw > u64::MAX {
        u64::MAX as int
    } else {
        raw
    }
}

/// The caption of the current pick: the percentage, then the size in
/// binary gigabytes with two decimals.
pub open spec fn size_caption(vg_size: u64, percent: u32) -> Seq<char> {
    let size = current_size_spec(vg_size, percent);
    let hundredths = size * 100 / 0x40000000;
    utils::dec_seq(percent as nat) + "% ("@ + utils::dec_seq((hundredths / 100) as nat) + "."@
        + seq![utils::dec_digit((hundredths % 100 / 10) as nat)] + seq![
        utils::dec_digit((hundredths % 10) as nat),
    ] + "GB)"@
}

/// What the size menu renders: the prompt and the current pick.
pub open spec fn drivesize_render_spec(s: DriveSize) -> Seq<Seq<u8>> {
    let base = blit_spec(zero_grid(0, 0), font::label_grid("New drive capacity:"@), 0, 0);
    blit_spec(base, font::label_grid(size_caption(s.vg_size, s.current_percent)), 10, 30)
}

impl DriveSize {
    /// Registers a pinned window and builds the size menu at the
    /// configured default share.
    pub fn new(disp: &mut DisplayManager, config: &Config, vg_size: u64) -> (r: Result<
        Widget,
        ErrorKind,
    >)
        requires
            old(disp).wf(),
        ensures
            final(disp).wf(),
            crate::displaymanager::dm_extends(*old(disp), *final(disp)),
            old(disp).focus_unique() ==> final(disp).focus_unique(),
            old(disp).some_focused() ==> final(disp).some_focused(),
            r is Ok <==> old(disp).nextid < u32::MAX,
            r matches Ok(w) ==> {
                &&& w.kind matches WidgetKind::SizeMenu(s) && s.window == old(disp).nextid
                    && s.current_percent == config.ui.default_size && s.vg_size == vg_size
                    && s.size_step == config.ui.size_step && s.menu is None
                &&& w.children@.len() == 0
                &&& final(disp).has_window(old(disp).nextid)
            },
    {
        let window = disp.add_child(Position::Fixed(0, 0))?;
        Ok(
            Widget {
                kind: WidgetKind::SizeMenu(
                    DriveSize {
                        window,
                        current_percent: config.ui.default_size,
                        vg_size,
                        size_step: config.ui.size_step,
                        menu: None,
                    },
                ),
                children: Vec::new(),
            },
        )
    }

    /// The byte size the current percentage selects.
    pub fn current_size(&self) -> (r: u64)
        ensures
            r == current_size_spec(self.vg_size, self.current_percent),
    {
        proof {
            assert(self.vg_size * self.current_percent < 0x10000000000000000 * 0x100000000) by (nonlinear_arith)
                requires
                    self.vg_size < 0x10000000000000000,
                    self.current_percent < 0x100000000,
            ;
        }
        let bytes: u128 = self.vg_size as u128 * self.current_percent as u128 / 100;
        let rounded: u128 = (bytes + 511) / 512 * 512;
        if rounded > u64::MAX as u128 {
            u64::MAX
        } else {
            rounded as u64
        }
    }

    pub(crate) fn render(&self) -> (r: Bitmap)
        ensures
            r@ == drivesize_render_spec(*self),
            r.wf(),
    {
        proof {
            reveal_strlit("% (");
            reveal_strlit(".");
            reveal_strlit("GB)");
        }
        let size = self.current_size();
        let hundredths: u64 = ((size as u128) * 100 / 0x40000000) as u64;
        let mut caption = utils::u64_to_dec(self.current_percent as u64);
        caption.append("% (");
        let whole = utils::u64_to_dec(hundredths / 100);
        caption.append(whole.as_str());
        caption.append(".");
        let tenth = utils::digit_str(hundredths % 100 / 10);
        caption.append(tenth);
        let hundredth = utils::digit_str(hundredths % 10);
        caption.append(hundredth);
        caption.append("GB)");
        proof {
            assert(caption@ =~= size_caption(self.vg_size, self.current_percent));
        }
        let mut base = Bitmap::new(0, 0);
        let prompt = font::label("New drive capacity:");
        base.blit(&prompt, (0, 0));
        let pick = font::label(caption.as_str());
        base.blit(&pick, (10, 30));
        base
    }
}

/// Which filesystem states the format menu can be in.
#[derive(Debug, PartialEq, Eq)]
pub enum DriveFormatState {
    Selecting,
    Formatting,
    Done,
}

/// The format menu of the new-drive flow: a full-screen page picking the
/// filesystem of the drive about to be created.
#[derive(Debug)]
pub struct DriveFormat {
    pub windowid: WindowId,
    pub size: u64,
    pub selected: FormatKind,
    pub state: DriveFormatState,
}

/// The filesystem after the given one in the menu's order; the last one
/// stays.
pub open spec fn next_format_spec(f: FormatKind) -> FormatKind {
    match f {
        FormatKind::Windows => FormatKind::MacOs,
        FormatKind::MacOs => FormatKind::Linux,
        FormatKind::Linux => FormatKind::Universal,
        FormatKind::Universal => FormatKind::Universal,
    }
}

/// The filesystem before the given one in the menu's order; the first
/// one stays.
pub open spec fn prev_format_spec(f: FormatKind) -> FormatKind {
    match f {
        FormatKind::Windows => FormatKind::Windows,
        FormatKind::MacOs => FormatKind::Windows,
        FormatKind::Linux => FormatKind::MacOs,
        FormatKind::Universal => FormatKind::Linux,
    }
}

/// The row of the menu's cursor for each filesystem.
pub open spec fn format_row(f: FormatKind) -> int {
    match f {
        FormatKind::Windows => 9,
        FormatKind::MacOs => 18,
        FormatKind::Linux => 27,
        FormatKind::Universal => 36,
    }
}

/// What the format menu renders: while selecting, the list of choices
/// with the cursor beside the selected one; afterwards, a notice that the
/// drive is being formatted.
pub open spec fn driveformat_render_spec(s: DriveFormat) -> Seq<Seq<u8>> {
    let screen = zero_grid(DISPLAY_WIDTH as nat, DISPLAY_HEIGHT as nat);
    if s.state is Selecting {
        let b1 = blit_spec(screen, font::label_grid("Select Format:"@), 0, 0);
        let b2 = blit_spec(b1, font::label_grid("Windows (NTFS)"@), 10, 9);
        let b3 = blit_spec(b2, font::label_grid("MacOS (EXFAT)"@), 10, 18);
        let b4 = blit_spec(b3, font::label_grid("Linux (EXT3)"@), 10, 27);
        let b5 = blit_spec(b4, font::label_grid("Universal (FAT32)"@), 10, 36);
        blit_spec(b5, font::arrow_grid(), 2, format_row(s.selected))
    } else {
        blit_spec(screen, font::label_grid("Formatting new drive"@), 0, 0)
    }
}

impl DriveFormat {
    /// Registers a pinned window and builds the format menu, selecting
    /// the first filesystem.
    pub fn new(disp: &mut DisplayManager, size: u64) -> (r: Result<Widget, ErrorKind>)
        requires
            old(disp).wf(),
        ensures
            final(disp).wf(),
            crate::displaymanager::dm_extends(*old(disp), *final(disp)),
            old(disp).focus_unique() ==> final(disp).focus_unique(),
            old(disp).some_focused() ==> final(disp).some_focused(),
            r is Ok <==> old(disp).nextid < u32::MAX,
            r matches Ok(w) ==> {
                &&& w.kind matches WidgetKind::FormatMenu(s) && s.windowid == old(disp).nextid
                    && s.size == size && s.selected == FormatKind::Windows
                    && s.state is Selecting
                &&& w.children@.len() == 0
                &&& final(disp).has_window(old(disp).nextid)
            },
    {
        let windowid = disp.add_child(Position::Fixed(0, 0))?;
        Ok(
            Widget {
                kind: WidgetKind::FormatMenu(
                    DriveFormat {
                        windowid,
                        size,
                        selected: FormatKind::Windows,
                        state: DriveFormatState::Selecting,
                    },
                ),
                children: Vec::new(),
            },
        )
    }

    /// The filesystem after the selected one.
    pub fn next_format(&self) -> (r: FormatKind)
        ensures
            r == next_format_spec(self.selected),
    {
        match self.selected {
            FormatKind::Windows => FormatKind::MacOs,
            FormatKind::MacOs => FormatKind::Linux,
            FormatKind::Linux => FormatKind::Universal,
            FormatKind::Universal => FormatKind::Universal,
        }
    }

    /// The filesystem before the selected one.
    pub fn prev_format(&self) -> (r: FormatKind)
        ensures
            r == prev_format_spec(self.selected),
    {
        match self.selected {
            FormatKind::Windows => FormatKind::Windows,
            FormatKind::MacOs => FormatKind::Windows,
            FormatKind::Linux => FormatKind::MacOs,
            FormatKind::Universal => FormatKind::Linux,
        }
    }

    /// Decides the formatting of a freshly created volume: the runtime
    /// performs the partitioning and filesystem creation queued here.
    pub fn format_volume(
        volume: &LogicalVolume,
        format: FormatKind,
        name: &str,
        ops: &mut Vec<HostOp>,
    ) -> (r: Result<(), ErrorKind>)
        ensures
            r is Ok,
            final(ops)@.len() == old(ops)@.len() + 1,
            old(ops)@.is_prefix_of(final(ops)@),
            (final(ops)@.last() matches HostOp::FormatVolume { path, format: f2, label } && path@
                == volume.path@ && f2 == format && label@ == name@),
    {
        proof {
            crate::displaymanager::lemma_prefix_push(
                ops@,
                HostOp::FormatVolume {
                    path: volume.path,
                    format,
                    label: volume.path,
                },
            );
        }
        let op = HostOp::FormatVolume {
            path: volume.path.clone(),
            format,
            label: name.to_owned(),
        };
        ops.push(op);
        Ok(())
    }

    pub(crate) fn render(&self) -> (r: Bitmap)
        ensures
            r@ == driveformat_render_spec(*self),
            r.wf(),
    {
        let mut base = Bitmap::new(DISPLAY_WIDTH, DISPLAY_HEIGHT);
        match self.state {
            DriveFormatState::Selecting => {
                let t1 = font::label("Select Format:");
                base.blit(&t1, (0, 0));
                let t2 = font::label("Windows (NTFS)");
                base.blit(&t2, (10, 9));
                let t3 = font::label("MacOS (EXFAT)");
                base.blit(&t3, (10, 18));
                let t4 = font::label("Linux (EXT3)");
                base.blit(&t4, (10, 27));
                let t5 = font::label("Universal (FAT32)");
                base.blit(&t5, (10, 36));
                let row: usize = match self.selected {
                    FormatKind::Windows => 9,
                    FormatKind::MacOs => 18,
                    FormatKind::Linux => 27,
                    FormatKind::Universal => 36,
                };
                let ar = font::arrow();
                base.blit(&ar, (2, row));
            },
            _ => {
                let t = font::label("Formatting new drive");
                base.blit(&t, (0, 0));
            },
        }
        base
    }
}

} // verus!
