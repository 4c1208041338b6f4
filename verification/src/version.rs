use crate::bitmap::{blit_spec, zero_grid, Bitmap};
use crate::display::{DISPLAY_HEIGHT, DISPLAY_WIDTH};
use crate::displaymanager::{DisplayManager, Position, Widget, WidgetKind, WindowId};
use crate::error::ErrorKind;
use crate::font;
use crate::utils;
use vstd::prelude::*;
use vstd::string::StringExecFns;

verus! {

/// The board revisions the device distinguishes.
#[derive(Debug, Eq, PartialEq)]
pub enum PiVersion {
    Zero12,
    Zero13,
    Zero131,
    ZeroW11,
    Unknown,
}

impl PiVersion {
    /// Whether the board has wireless hardware; an unknown board is
    /// assumed to.
    pub fn has_wifi(&self) -> (r: bool)
        ensures
            r == (*self is ZeroW11 || *self is Unknown),
    {
        match self {
            PiVersion::ZeroW11 => true,
            PiVersion::Unknown => true,
            _ => false,
        }
    }
}

/// The board a revision string names.
pub open spec fn version_of(s: Seq<char>) -> PiVersion {
    if s == "900092"@ {
        PiVersion::Zero12
    } else if s == "900093"@ {
        PiVersion::Zero13
    } else if s == "920093"@ {
        PiVersion::Zero131
    } else if s == "9000c1"@ {
        PiVersion::ZeroW11
    } else {
        PiVersion::Unknown
    }
}

/// Decides the board from the revision string the runtime read from the
/// processor.
pub fn read_version(revision: &str) -> (r: PiVersion)
    ensures
        r == version_of(revision@),
{
    if utils::str_eq(revision, "900092") {
        PiVersion::Zero12
    } else if utils::str_eq(revision, "900093") {
        PiVersion::Zero13
    } else if utils::str_eq(revision, "920093") {
        PiVersion::Zero131
    } else if utils::str_eq(revision, "9000c1") {
        PiVersion::ZeroW11
    } else {
        PiVersion::Unknown
    }
}

/// The row that opens the version page; while open it holds that page as
/// its child.
#[derive(Debug)]
pub struct VersionMenu {
    pub window: WindowId,
    pub version_text: String,
    pub open: Option<WindowId>,
}

/// What the row renders: its caption and the focus arrow.
pub open spec fn versionmenu_render_spec(focus: bool) -> Seq<Seq<u8>> {
    let base = blit_spec(zero_grid(10, 1), font::label_grid("Version"@), 16, 0);
    if focus {
        blit_spec(base, font::arrow_grid(), 0, 0)
    } else {
        base
    }
}

impl VersionMenu {
    /// Registers a window and builds the row, carrying the system's
    /// version text for the page it can open.
    pub fn new(disp: &mut DisplayManager, version_text: String) -> (r: Result<Widget, ErrorKind>)
        requires
            old(disp).wf(),
        ensures
            final(disp).wf(),
            crate::displaymanager::dm_extends(*old(disp), *final(disp)),
            old(disp).focus_unique() ==> final(disp).focus_unique(),
            old(disp).some_focused() ==> final(disp).some_focused(),
            r is Ok <==> old(disp).nextid < u32::MAX,
            r matches Ok(w) ==> {
                &&& w.kind matches WidgetKind::VersionMenu(s) && s.window == old(disp).nextid
                    && s.version_text == version_text && s.open is None
                &&& w.children@.len() == 0
                &&& final(disp).has_window(old(disp).nextid)
            },
    {
        let window = disp.add_child(Position::Normal)?;
        Ok(
            Widget {
                kind: WidgetKind::VersionMenu(VersionMenu { window, version_text, open: None }),
                children: Vec::new(),
            },
        )
    }

    pub(crate) fn render(&self, focus: bool) -> (r: Bitmap)
        ensures
            r@ == versionmenu_render_spec(focus),
            r.wf(),
    {
        let mut base = Bitmap::new(10, 1);
        let text = font::label("Version");
        base.blit(&text, (16, 0));
        if focus {
            let ar = font::arrow();
            base.blit(&ar, (0, 0));
        }
        base
    }
}

/// The full-screen page showing the system's version.
#[derive(Debug)]
pub struct OpenVersionMenu {
    pub window: WindowId,
    pub version_text: String,
}

/// What the page renders: the version caption on a blank screen.
pub open spec fn openversion_render_spec(s: OpenVersionMenu) -> Seq<Seq<u8>> {
    blit_spec(
        zero_grid(DISPLAY_WIDTH as nat, DISPLAY_HEIGHT as nat),
        font::label_grid("OS Version: "@ + s.version_text@),
        6,
        0,
    )
}

impl OpenVersionMenu {
    pub fn new(disp: &mut DisplayManager, version_text: String) -> (r: Result<Widget, ErrorKind>)
        requires
            old(disp).wf(),
        ensures
            final(disp).wf(),
            crate::displaymanager::dm_extends(*old(disp), *final(disp)),
            old(disp).focus_unique() ==> final(disp).focus_unique(),
            old(disp).some_focused() ==> final(disp).some_focused(),
            r is Ok <==> old(disp).nextid < u32::MAX,
            r matches Ok(w) ==> {
                &&& w.kind matches WidgetKind::VersionInfo(s) && s.window == old(disp).nextid
                    && s.version_text == version_text
                &&& w.children@.len() == 0
                &&& final(disp).has_window(old(disp).nextid)
            },
    {
        let window = disp.add_child(Position::Fixed(0, 0))?;
        Ok(
            Widget {
                kind: WidgetKind::VersionInfo(OpenVersionMenu { window, version_text }),
                children: Vec::new(),
            },
        )
    }

    pub(crate) fn render(&self) -> (r: Bitmap)
        ensures
            r@ == openversion_render_spec(*self),
            r.wf(),
    {
        let mut caption = "OS Version: ".to_owned();
        caption.append(self.version_text.as_str());
        let mut base = Bitmap::new(DISPLAY_WIDTH, DISPLAY_HEIGHT);
        let text = font::label(caption.as_str());
        base.blit(&text, (6, 0));
        base
    }
}

} // verus!
