use crate::bitmap::Bitmap;
use crate::error::ErrorKind;
use vstd::prelude::*;

verus! {

/// The opaque handle a widget holds for its window; assigned once,
/// never reused while the manager lives.
pub type WindowId = u32;

/// Where a window is laid out: pinned at absolute coordinates (an overlay
/// anchor), or flowing vertically beneath the nearest fixed ancestor.
#[derive(Debug, Clone, Copy)]
pub enum Position {
    Fixed(usize, usize),
    Normal,
}

/// The layout and focus record of one widget.
#[derive(Debug)]
pub struct Window {
    pub position: Position,
    pub z: u32,
    pub focus: bool,
    pub id: WindowId,
    pub bitmap: Bitmap,
}

/// The registry of windows, keyed by id, together with the id allocator.
#[derive(Debug)]
pub struct DisplayManager {
    pub windows: Vec<Window>,
    pub nextid: u32,
}

/// The first window carrying `id`, if any.
pub open spec fn lookup(s: Seq<Window>, id: WindowId) -> Option<Window>
    decreases s.len(),
{
    if s.len() == 0 {
        None
    } else if s[0].id == id {
        Some(s[0])
    } else {
        lookup(s.skip(1), id)
    }
}

/// Whether the window carrying `id` is fixed-positioned.
pub open spec fn is_fixed_spec(s: Seq<Window>, id: WindowId) -> bool {
    match lookup(s, id) {
        Some(w) => w.position is Fixed,
        None => false,
    }
}

impl DisplayManager {
    /// Ids strictly increase along the registry (so they are unique), stay
    /// below the allocator, and every cached bitmap is rectangular.
    pub open spec fn wf(&self) -> bool {
        &&& forall|i: int, j: int|
            0 <= i < j < self.windows@.len() ==> (#[trigger] self.windows@[i].id) < (
            #[trigger] self.windows@[j].id)
        &&& forall|i: int|
            0 <= i < self.windows@.len() ==> (#[trigger] self.windows@[i].id) < self.nextid
        &&& 1 <= self.nextid
        &&& forall|i: int| 0 <= i < self.windows@.len() ==> (#[trigger] self.windows@[i].bitmap.wf())
    }

    pub open spec fn spec_get(&self, id: WindowId) -> Option<Window> {
        lookup(self.windows@, id)
    }

    pub open spec fn has_window(&self, id: WindowId) -> bool {
        self.spec_get(id) is Some
    }

    /// At most one window has the focus flag set.
    pub open spec fn focus_unique(&self) -> bool {
        forall|i: int, j: int|
            0 <= i < self.windows@.len() && 0 <= j < self.windows@.len() && (
            #[trigger] self.windows@[i].focus) && (#[trigger] self.windows@[j].focus) ==> i == j
    }

    /// Some window has the focus flag set.
    pub open spec fn some_focused(&self) -> bool {
        exists|i: int| 0 <= i < self.windows@.len() && (#[trigger] self.windows@[i].focus)
    }

    /// An empty registry; ids start at one.
    pub fn new() -> (r: DisplayManager)
        ensures
            r.windows@.len() == 0,
            r.nextid == 1,
            r.wf(),
            r.focus_unique(),
    {
        DisplayManager { windows: Vec::new(), nextid: 1 }
    }

    /// Allocates the next id and registers a window for it: unfocused,
    /// with an empty cached bitmap.  Fails exactly when the id space is
    /// used up.
    pub fn add_child(&mut self, pos: Position) -> (r: Result<WindowId, ErrorKind>)
        requires
            old(self).wf(),
        ensures
            final(self).wf(),
            r is Ok <==> old(self).nextid < u32::MAX,
            r matches Ok(id) ==> {
                &&& id == old(self).nextid
                &&& final(self).nextid == old(self).nextid + 1
                &&& final(self).windows@.len() == old(self).windows@.len() + 1
                &&& final(self).windows@.subrange(0, old(self).windows@.len() as int) == old(
                    self,
                ).windows@
                &&& final(self).windows@.last().id == id
                &&& final(self).windows@.last().position == pos
                &&& !final(self).windows@.last().focus
                &&& final(self).windows@.last().z == 0
                &&& final(self).windows@.last().bitmap@.len() == 0
                &&& final(self).has_window(id)
                &&& crate::displaymanager::dm_extends(*old(self), *final(self))
            },
            r is Err ==> *final(self) == *old(self),
            old(self).focus_unique() ==> final(self).focus_unique(),
            old(self).some_focused() ==> final(self).some_focused(),
    {
        if self.nextid == u32::MAX {
            return Err(ErrorKind::Registry("window id space exhausted".to_owned()));
        }
        let id = self.nextid;
        self.nextid = self.nextid + 1;
        let w = Window { position: pos, z: 0, focus: false, id, bitmap: Bitmap::new(0, 0) };
        self.windows.push(w);
        proof {
            assert(self.windows@.subrange(0, old(self).windows@.len() as int) =~= old(
                self,
            ).windows@);
            assert(forall|i: int|
                0 <= i < old(self).windows@.len() ==> (#[trigger] old(self).windows@[i].id) != id);
            lemma_lookup_append_fresh(old(self).windows@, w);
            assert(self.windows@ =~= old(self).windows@.push(w));
        }
        Ok(id)
    }

    /// The window carrying `id`, if it is registered.
    pub fn get(&self, id: WindowId) -> (r: Option<&Window>)
        ensures
            match r {
                Some(w) => self.spec_get(id) == Some(*w),
                None => self.spec_get(id) is None,
            },
    {
        proof {
            assert(self.windows@.skip(0) =~= self.windows@);
        }
        let mut i: usize = 0;
        while i < self.windows.len()
            invariant
                i <= self.windows@.len(),
                lookup(self.windows@, id) == lookup(self.windows@.skip(i as int), id),
            decreases self.windows@.len() - i,
        {
            proof {
                assert(self.windows@.skip(i as int)[0] == self.windows@[i as int]);
                assert(self.windows@.skip(i as int).skip(1) =~= self.windows@.skip(i as int + 1));
            }
            if self.windows[i].id == id {
                return Some(&self.windows[i]);
            }
            i = i + 1;
        }
        None
    }

    /// The window carrying `id`, exclusively borrowed; what the caller
    /// leaves in it is what the registry then holds.  The caller must
    /// keep the id and a rectangular bitmap for the registry to stay
    /// well-formed.
    pub fn get_mut(&mut self, id: WindowId) -> (r: Option<&mut Window>)
        requires
            old(self).wf(),
        ensures
            r is Some <==> old(self).has_window(id),
            (match r {
                Some(w) => {
                    &&& old(self).spec_get(id) == Some(*w)
                    &&& final(self).nextid == old(self).nextid
                    &&& final(self).windows@.len() == old(self).windows@.len()
                    &&& (exists|i: int|
                        0 <= i < old(self).windows@.len() && old(self).windows@[i].id == id
                            && final(self).windows@ == old(self).windows@.update(i, *final(w)))
                },
                None => *final(self) == *old(self),
            }),
    {
        proof {
            assert(self.windows@.skip(0) =~= self.windows@);
        }
        let n = self.windows.len();
        let mut i: usize = 0;
        while i < n
            invariant
                i <= n,
                n == self.windows@.len(),
                *self == *old(self),
                old(self).wf(),
                lookup(self.windows@, id) == lookup(self.windows@.skip(i as int), id),
            decreases n - i,
        {
            proof {
                assert(self.windows@.skip(i as int)[0] == self.windows@[i as int]);
                assert(self.windows@.skip(i as int).skip(1) =~= self.windows@.skip(i as int + 1));
            }
            if self.windows[i].id == id {
                proof {
                    assert(lookup(self.windows@, id) == Some(self.windows@[i as int]));
                }
                return Some(&mut self.windows[i]);
            }
            i = i + 1;
        }
        None
    }

    /// Stores a freshly rendered bitmap into the window carrying `id`;
    /// everything else about the registry is unchanged.  Reports whether
    /// the window was found.
    pub fn update_bitmap(&mut self, id: WindowId, bm: Bitmap) -> (found: bool)
        requires
            old(self).wf(),
            bm.wf(),
        ensures
            final(self).wf(),
            found <==> old(self).has_window(id),
            final(self).nextid == old(self).nextid,
            final(self).windows@.len() == old(self).windows@.len(),
            forall|i: int|
                0 <= i < old(self).windows@.len() ==> {
                    &&& (#[trigger] final(self).windows@[i].id) == old(self).windows@[i].id
                    &&& final(self).windows@[i].position == old(self).windows@[i].position
                    &&& final(self).windows@[i].focus == old(self).windows@[i].focus
                    &&& final(self).windows@[i].z == old(self).windows@[i].z
                },
            found ==> (final(self).spec_get(id) matches Some(w) && w.bitmap == bm),
            forall|i: int|
                0 <= i < old(self).windows@.len() && old(self).windows@[i].id != id ==> (
                #[trigger] final(self).windows@[i].bitmap) == old(self).windows@[i].bitmap,
    {
        let n = self.windows.len();
        proof {
            assert(self.windows@.skip(0) =~= self.windows@);
        }
        let mut i: usize = 0;
        while i < n
            invariant
                i <= n,
                n == old(self).windows@.len(),
                *self == *old(self),
                old(self).wf(),
                bm.wf(),
                lookup(self.windows@, id) == lookup(self.windows@.skip(i as int), id),
                forall|k: int| 0 <= k < i ==> (#[trigger] self.windows@[k].id) != id,
            decreases n - i,
        {
            proof {
                assert(self.windows@.skip(i as int)[0] == self.windows@[i as int]);
                assert(self.windows@.skip(i as int).skip(1) =~= self.windows@.skip(i as int + 1));
            }
            if self.windows[i].id == id {
                let pos = self.windows[i].position;
                let z = self.windows[i].z;
                let focus = self.windows[i].focus;
                let w = Window { position: pos, z, focus, id, bitmap: bm };
                let ghost pre = self.windows@;
                let _ = self.windows.remove(i);
                self.windows.insert(i, w);
                proof {
                    assert(self.windows@ =~= pre.update(i as int, w));
                    lemma_lookup_update(pre, i as int, w, id);
                    assert(forall|k: int|
                        0 <= k < n && k != i ==> (#[trigger] self.windows@[k]) == pre[k]);
                    assert(self.windows@[i as int] == w);
                    assert forall|a: int|
                        0 <= a < self.windows@.len() implies (#[trigger] self.windows@[a].id)
                        == pre[a].id && self.windows@[a].bitmap.wf() by {
                        if a != i {
                            assert(self.windows@[a] == pre[a]);
                        }
                    }
                    assert(self.wf());
                }
                return true;
            }
            i = i + 1;
        }
        false
    }

    /// Moves the focus to the window carrying `id`, when it is
    /// registered: that window's flag is set and every other flag is
    /// cleared, so exactly one window has focus afterwards.  An
    /// unregistered id changes nothing.
    pub fn focus_window(&mut self, id: WindowId) -> (found: bool)
        requires
            old(self).wf(),
        ensures
            final(self).wf(),
            found <==> old(self).has_window(id),
            found ==> shifted_pattern(*old(self), *final(self), id) && final(self).focus_unique()
                && final(self).some_focused(),
            !found ==> *final(self) == *old(self),
            dm_extends(*old(self), *final(self)),
    {
        let present = match self.get(id) {
            Some(_) => true,
            None => false,
        };
        if present {
            self.shift_focus_id(id);
            proof {
                lemma_lookup_some_ids(old(self).windows@, self.windows@, id);
                lemma_single_focus(*self, id);
            }
            true
        } else {
            false
        }
    }

    /// Sets the focus flag of the window carrying `id` and clears every
    /// other window's flag, in one pass.
    pub fn shift_focus_id(&mut self, id: WindowId)
        requires
            old(self).wf(),
        ensures
            final(self).wf(),
            final(self).nextid == old(self).nextid,
            final(self).windows@.len() == old(self).windows@.len(),
            forall|i: int|
                0 <= i < old(self).windows@.len() ==> {
                    &&& (#[trigger] final(self).windows@[i].id) == old(self).windows@[i].id
                    &&& final(self).windows@[i].position == old(self).windows@[i].position
                    &&& final(self).windows@[i].bitmap == old(self).windows@[i].bitmap
                    &&& final(self).windows@[i].z == old(self).windows@[i].z
                    &&& (final(self).windows@[i].focus <==> old(self).windows@[i].id == id)
                },
    {
        let n = self.windows.len();
        let mut i: usize = 0;
        while i < n
            invariant
                i <= n,
                n == self.windows@.len(),
                n == old(self).windows@.len(),
                self.nextid == old(self).nextid,
                old(self).wf(),
                forall|k: int|
                    0 <= k < n ==> {
                        &&& (#[trigger] self.windows@[k].id) == old(self).windows@[k].id
                        &&& self.windows@[k].position == old(self).windows@[k].position
                        &&& self.windows@[k].bitmap == old(self).windows@[k].bitmap
                        &&& self.windows@[k].z == old(self).windows@[k].z
                    },
                forall|k: int|
                    0 <= k < i ==> (self.windows@[k].focus <==> old(self).windows@[k].id == id),
                forall|k: int|
                    i <= k < n ==> (#[trigger] self.windows@[k].focus) == old(
                        self,
                    ).windows@[k].focus,
            decreases n - i,
        {
            let wid = self.windows[i].id;
            let focus = wid == id;
            let pos = self.windows[i].position;
            let z = self.windows[i].z;
            let ghost pre = self.windows@;
            let old_w = self.windows.remove(i);
            let w = Window { position: pos, z, focus, id: wid, bitmap: old_w.bitmap };
            self.windows.insert(i, w);
            proof {
                assert(self.windows@ =~= pre.update(i as int, w));
            }
            i = i + 1;
        }
        proof {
            assert forall|a: int|
                0 <= a < self.windows@.len() implies (#[trigger] self.windows@[a].id) == old(
                self,
            ).windows@[a].id && self.windows@[a].bitmap.wf() by {
                assert(self.windows@[a].id == old(self).windows@[a].id);
                assert(self.windows@[a].bitmap == old(self).windows@[a].bitmap);
            }
            assert(forall|a: int, b: int|
                0 <= a < b < self.windows@.len() ==> (#[trigger] self.windows@[a].id) < (
                #[trigger] self.windows@[b].id));
            assert(forall|a: int|
                0 <= a < self.windows@.len() ==> (#[trigger] self.windows@[a].id) < self.nextid);
            assert(1 <= self.nextid);
            assert forall|a: int|
                0 <= a < self.windows@.len() implies (#[trigger] self.windows@[a].bitmap.wf()) by {
                assert(self.windows@[a].id == old(self).windows@[a].id);
                assert(self.windows@[a].bitmap == old(self).windows@[a].bitmap);
                assert(old(self).windows@[a].bitmap.wf());
            }
            assert(self.wf());
        }
    }
}

/// Looking a window up in an updated registry: the update is returned for
/// the updated window's id, and lookups of other ids are unchanged, as
/// long as the update keeps the id in place.
pub proof fn lemma_lookup_update(s: Seq<Window>, i: int, w: Window, id: WindowId)
    requires
        0 <= i < s.len(),
        w.id == s[i].id,
        forall|a: int, b: int|
            0 <= a < b < s.len() ==> (#[trigger] s[a].id) < (#[trigger] s[b].id),
    ensures
        s[i].id == id ==> lookup(s.update(i, w), id) == Some(w),
        s[i].id != id ==> lookup(s.update(i, w), id) == lookup(s, id),
    decreases s.len(),
{
    if s.len() == 0 {
    } else if i == 0 {
        if s[0].id == id {
            assert(s.update(0, w)[0] == w);
        } else {
            assert(s.update(0, w).skip(1) =~= s.skip(1));
        }
    } else {
        if s[0].id == id {
        } else {
            assert(s.update(i, w).skip(1) =~= s.skip(1).update(i - 1, w));
            assert(forall|a: int, b: int|
                0 <= a < b < s.skip(1).len() ==> (#[trigger] s.skip(1)[a].id) < (
                #[trigger] s.skip(1)[b].id));
            lemma_lookup_update(s.skip(1), i - 1, w, id);
        }
    }
}

/// After a focus shift to a registered window, exactly one window has
/// focus: the flags of a registry whose flags follow the shifted pattern
/// single out one index.
pub proof fn lemma_single_focus(dm: DisplayManager, id: WindowId)
    requires
        dm.wf(),
        dm.has_window(id),
        forall|i: int|
            0 <= i < dm.windows@.len() ==> ((#[trigger] dm.windows@[i].focus) <==> dm.windows@[i].id
                == id),
    ensures
        dm.some_focused(),
        dm.focus_unique(),
{
    lemma_lookup_witness(dm.windows@, id);
    let k = choose|k: int| 0 <= k < dm.windows@.len() && dm.windows@[k].id == id;
    assert(dm.windows@[k].focus);
    assert forall|i: int, j: int|
        0 <= i < dm.windows@.len() && 0 <= j < dm.windows@.len() && (#[trigger] dm.windows@[i].focus)
            && (#[trigger] dm.windows@[j].focus) implies i == j by {
        if i < j {
            assert(dm.windows@[i].id < dm.windows@[j].id);
        } else if j < i {
            assert(dm.windows@[j].id < dm.windows@[i].id);
        }
    }
}

/// One node of the widget tree: its kind-specific state plus its
/// children, owned exclusively by it.
#[derive(Debug)]
pub struct Widget {
    pub kind: WidgetKind,
    pub children: Vec<Widget>,
}

/// Every concrete widget the engine knows, as one tagged variant each.
#[derive(Debug)]
pub enum WidgetKind {
    Panel(crate::panel::Panel),
    IsoImage(crate::iso::Iso),
    Drive(crate::vdrive::VirtualDrive),
    Back(crate::buttons::back::BackButton),
    DriveItem(crate::buttons::vdrivelist::DriveListItem),
    DriveSelector(crate::buttons::vdrivelist::DriveListSelector),
    DriveList(crate::buttons::vdrivelist::DriveList),
    NewDrive(crate::newdrive::NewDrive),
    SizeMenu(crate::newdrive::DriveSize),
    FormatMenu(crate::newdrive::DriveFormat),
    Options(crate::options::Options),
    Stats(crate::stats::Stats),
    VersionMenu(crate::version::VersionMenu),
    VersionInfo(crate::version::OpenVersionMenu),
    WifiMenu(crate::wifi::WifiMenu),
    WifiSelect(crate::wifi::SelectWifiMenu),
    WifiClient(crate::wifi::WifiClient),
    WifiConnection(crate::wifi::WifiClientConnectionMenu),
    WifiAp(crate::wifi::WifiAp),
    WifiApStartup(crate::wifi::WifiApStartupMenu),
    Piso(crate::piso::PIso),
}

/// The id of a widget kind's window in the registry.
pub open spec fn kind_windowid(k: WidgetKind) -> WindowId {
    match k {
        WidgetKind::Panel(p) => p.window,
        WidgetKind::IsoImage(s) => s.window,
        WidgetKind::Drive(s) => s.window,
        WidgetKind::Back(s) => s.windowid,
        WidgetKind::DriveItem(s) => s.window,
        WidgetKind::DriveSelector(s) => s.window,
        WidgetKind::DriveList(s) => s.window,
        WidgetKind::NewDrive(s) => s.window,
        WidgetKind::SizeMenu(s) => s.window,
        WidgetKind::FormatMenu(s) => s.windowid,
        WidgetKind::Options(s) => s.window,
        WidgetKind::Stats(s) => s.window,
        WidgetKind::VersionMenu(s) => s.window,
        WidgetKind::VersionInfo(s) => s.window,
        WidgetKind::WifiMenu(s) => s.windowid,
        WidgetKind::WifiSelect(s) => s.windowid,
        WidgetKind::WifiClient(s) => s.windowid,
        WidgetKind::WifiConnection(s) => s.windowid,
        WidgetKind::WifiAp(s) => s.windowid,
        WidgetKind::WifiApStartup(s) => s.windowid,
        WidgetKind::Piso(s) => s.window,
    }
}

impl Widget {
    /// The id of this widget's window in the registry.
    pub open spec fn spec_windowid(&self) -> WindowId {
        kind_windowid(self.kind)
    }

    /// Whether the children are currently part of the visible tree.
    pub open spec fn expanded(&self) -> bool {
        match self.kind {
            WidgetKind::Options(o) => o.open,
            _ => true,
        }
    }

    /// The visible children: all of them while expanded, none otherwise.
    pub open spec fn kids(&self) -> Seq<Widget> {
        if self.expanded() {
            self.children@
        } else {
            Seq::empty()
        }
    }

    /// The id of this widget's window in the registry.
    pub fn windowid(&self) -> (r: WindowId)
        ensures
            r == self.spec_windowid(),
    {
        match self.kind {
            WidgetKind::Panel(ref p) => p.window,
            WidgetKind::IsoImage(ref s) => s.window,
            WidgetKind::Drive(ref s) => s.window,
            WidgetKind::Back(ref s) => s.windowid,
            WidgetKind::DriveItem(ref s) => s.window,
            WidgetKind::DriveSelector(ref s) => s.window,
            WidgetKind::DriveList(ref s) => s.window,
            WidgetKind::NewDrive(ref s) => s.window,
            WidgetKind::SizeMenu(ref s) => s.window,
            WidgetKind::FormatMenu(ref s) => s.windowid,
            WidgetKind::Options(ref s) => s.window,
            WidgetKind::Stats(ref s) => s.window,
            WidgetKind::VersionMenu(ref s) => s.window,
            WidgetKind::VersionInfo(ref s) => s.window,
            WidgetKind::WifiMenu(ref s) => s.windowid,
            WidgetKind::WifiSelect(ref s) => s.windowid,
            WidgetKind::WifiClient(ref s) => s.windowid,
            WidgetKind::WifiConnection(ref s) => s.windowid,
            WidgetKind::WifiAp(ref s) => s.windowid,
            WidgetKind::WifiApStartup(ref s) => s.windowid,
            WidgetKind::Piso(ref s) => s.window,
        }
    }

    /// How many children are visible.
    pub fn num_children(&self) -> (n: usize)
        ensures
            n == self.kids().len(),
    {
        let e = match self.kind {
            WidgetKind::Options(ref o) => o.open,
            _ => true,
        };
        if e {
            self.children.len()
        } else {
            0
        }
    }

    /// One visible child.
    pub fn child(&self, i: usize) -> (r: &Widget)
        requires
            i < self.kids().len(),
        ensures
            *r == self.kids()[i as int],
    {
        &self.children[i]
    }
}

/// Every widget in the subtree, visible or not, has a window in the
/// registry.
pub open spec fn registered(reg: Seq<Window>, w: Widget) -> bool
    decreases w,
{
    &&& lookup(reg, w.spec_windowid()) is Some
    &&& forall|i: int|
        0 <= i < w.children@.len() ==> registered(reg, #[trigger] w.children@[i])
}

/// The visible flow under `cur`, flattened in depth-first pre-order:
/// `cur` itself, then each non-fixed child's flow in order.  Fixed
/// children start their own independent flows and are skipped.
pub open spec fn flow_ids(reg: Seq<Window>, cur: Widget) -> Seq<WindowId>
    decreases cur, cur.kids().len() + 1int,
{
    seq![cur.spec_windowid()] + flow_ids_from(reg, cur, 0)
}

pub open spec fn flow_ids_from(reg: Seq<Window>, cur: Widget, i: int) -> Seq<WindowId>
    decreases cur, cur.kids().len() - i,
{
    if i < 0 || i >= cur.kids().len() {
        Seq::empty()
    } else if is_fixed_spec(reg, cur.kids()[i].spec_windowid()) {
        flow_ids_from(reg, cur, i + 1)
    } else {
        flow_ids(reg, cur.kids()[i]) + flow_ids_from(reg, cur, i + 1)
    }
}

/// The focused widget: the first widget in a depth-first pre-order walk
/// of the visible tree whose window has the focus flag.
pub open spec fn focused_node(reg: Seq<Window>, cur: Widget) -> Option<Widget>
    decreases cur, cur.kids().len() + 1int,
{
    if lookup(reg, cur.spec_windowid()) matches Some(w) && w.focus {
        Some(cur)
    } else {
        focused_node_from(reg, cur, 0)
    }
}

pub open spec fn focused_node_from(reg: Seq<Window>, cur: Widget, i: int) -> Option<Widget>
    decreases cur, cur.kids().len() - i,
{
    if i < 0 || i >= cur.kids().len() {
        None
    } else {
        match focused_node(reg, cur.kids()[i]) {
            Some(n) => Some(n),
            None => focused_node_from(reg, cur, i + 1),
        }
    }
}

/// Same tree shape and the same window ids at every node; only the
/// kind-specific state may differ.
pub open spec fn same_shape(a: Widget, b: Widget) -> bool
    decreases a,
{
    &&& a.spec_windowid() == b.spec_windowid()
    &&& a.children@.len() == b.children@.len()
    &&& forall|i: int|
        0 <= i < a.children@.len() ==> same_shape(#[trigger] a.children@[i], b.children@[i])
}

/// The height a window contributes to the flow: its cached bitmap's row
/// count, or zero when it is fixed-positioned (or unregistered).
pub open spec fn flow_height(reg: Seq<Window>, id: WindowId) -> int {
    match lookup(reg, id) {
        Some(w) => match w.position {
            Position::Fixed(_, _) => 0,
            Position::Normal => w.bitmap@.len() as int,
        },
        None => 0,
    }
}

/// The flow walk from `cur` looking for `target`, carrying the position
/// accumulated so far: a widget's own height joins the running offset
/// only once its whole subtree has been passed, and fixed subtrees are
/// skipped entirely.  Returns whether `target` was found and the position
/// reached.
pub open spec fn flow_visit(
    reg: Seq<Window>,
    cur: Widget,
    target: WindowId,
    x: int,
    y: int,
) -> (bool, int, int)
    decreases cur, cur.kids().len() + 1int,
{
    if cur.spec_windowid() == target {
        (true, x, y)
    } else {
        let r = flow_scan(reg, cur, target, 0, x, y);
        if r.0 {
            r
        } else {
            (false, x, r.2 + flow_height(reg, cur.spec_windowid()))
        }
    }
}

pub open spec fn flow_scan(
    reg: Seq<Window>,
    cur: Widget,
    target: WindowId,
    i: int,
    x: int,
    y: int,
) -> (bool, int, int)
    decreases cur, cur.kids().len() - i,
{
    if i < 0 || i >= cur.kids().len() {
        (false, x, y)
    } else if is_fixed_spec(reg, cur.kids()[i].spec_windowid()) {
        flow_scan(reg, cur, target, i + 1, x, y)
    } else {
        let r = flow_visit(reg, cur.kids()[i], target, x, y);
        if r.0 {
            r
        } else {
            flow_scan(reg, cur, target, i + 1, x, r.2)
        }
    }
}

/// The flow walk never moves the horizontal offset and never decreases
/// the vertical one.
pub proof fn lemma_flow_monotonic(reg: Seq<Window>, cur: Widget, target: WindowId, x: int, y: int)
    ensures
        flow_visit(reg, cur, target, x, y).1 == x,
        flow_visit(reg, cur, target, x, y).2 >= y,
    decreases cur, cur.kids().len() + 1int,
{
    if cur.spec_windowid() == target {
    } else {
        lemma_flow_scan_monotonic(reg, cur, target, 0, x, y);
        assert(flow_height(reg, cur.spec_windowid()) >= 0);
    }
}

pub proof fn lemma_flow_scan_monotonic(
    reg: Seq<Window>,
    cur: Widget,
    target: WindowId,
    i: int,
    x: int,
    y: int,
)
    ensures
        flow_scan(reg, cur, target, i, x, y).1 == x,
        flow_scan(reg, cur, target, i, x, y).2 >= y,
    decreases cur, cur.kids().len() - i,
{
    if i < 0 || i >= cur.kids().len() {
    } else if is_fixed_spec(reg, cur.kids()[i].spec_windowid()) {
        lemma_flow_scan_monotonic(reg, cur, target, i + 1, x, y);
    } else {
        lemma_flow_monotonic(reg, cur.kids()[i], target, x, y);
        let r = flow_visit(reg, cur.kids()[i], target, x, y);
        if !r.0 {
            lemma_flow_scan_monotonic(reg, cur, target, i + 1, x, r.2);
        }
    }
}

/// The sum of flow heights accumulated before the walk under `cur`
/// reaches `target`: zero at `target` itself; otherwise the heights of
/// every normally positioned widget whose whole subtree is passed on the
/// way, fixed subtrees contributing nothing.  The first component tells
/// whether `target` was found; when it was not, the second is the whole
/// subtree's flow height.
pub open spec fn prec_visit(reg: Seq<Window>, cur: Widget, target: WindowId) -> (bool, int)
    decreases cur, cur.kids().len() + 1int,
{
    if cur.spec_windowid() == target {
        (true, 0)
    } else {
        let r = prec_scan(reg, cur, target, 0);
        if r.0 {
            r
        } else {
            (false, r.1 + flow_height(reg, cur.spec_windowid()))
        }
    }
}

pub open spec fn prec_scan(reg: Seq<Window>, cur: Widget, target: WindowId, i: int) -> (bool, int)
    decreases cur, cur.kids().len() - i,
{
    if i < 0 || i >= cur.kids().len() {
        (false, 0)
    } else if is_fixed_spec(reg, cur.kids()[i].spec_windowid()) {
        prec_scan(reg, cur, target, i + 1)
    } else {
        let r = prec_visit(reg, cur.kids()[i], target);
        if r.0 {
            r
        } else {
            let r2 = prec_scan(reg, cur, target, i + 1);
            (r2.0, r.1 + r2.1)
        }
    }
}

/// The flow walk is the running sum of passed heights: starting it at
/// `(x, y)` finds `target` exactly when the height sum does, at `x` and
/// at `y` plus the sum of the heights passed.
pub proof fn lemma_flow_is_prec_sum(
    reg: Seq<Window>,
    cur: Widget,
    target: WindowId,
    x: int,
    y: int,
)
    ensures
        flow_visit(reg, cur, target, x, y).0 == prec_visit(reg, cur, target).0,
        flow_visit(reg, cur, target, x, y).1 == x,
        flow_visit(reg, cur, target, x, y).2 == y + prec_visit(reg, cur, target).1,
    decreases cur, cur.kids().len() + 1int,
{
    if cur.spec_windowid() == target {
    } else {
        lemma_flow_scan_is_prec_sum(reg, cur, target, 0, x, y);
    }
}

pub proof fn lemma_flow_scan_is_prec_sum(
    reg: Seq<Window>,
    cur: Widget,
    target: WindowId,
    i: int,
    x: int,
    y: int,
)
    ensures
        flow_scan(reg, cur, target, i, x, y).0 == prec_scan(reg, cur, target, i).0,
        flow_scan(reg, cur, target, i, x, y).1 == x,
        flow_scan(reg, cur, target, i, x, y).2 == y + prec_scan(reg, cur, target, i).1,
    decreases cur, cur.kids().len() - i,
{
    if i < 0 || i >= cur.kids().len() {
    } else if is_fixed_spec(reg, cur.kids()[i].spec_windowid()) {
        lemma_flow_scan_is_prec_sum(reg, cur, target, i + 1, x, y);
    } else {
        lemma_flow_is_prec_sum(reg, cur.kids()[i], target, x, y);
        let r = flow_visit(reg, cur.kids()[i], target, x, y);
        if !r.0 {
            lemma_flow_scan_is_prec_sum(reg, cur, target, i + 1, x, r.2);
        }
    }
}

/// A normally positioned widget sits at its anchor's column, and its row
/// is the anchor's row plus the sum of the flow heights passed before the
/// pre-order walk from the anchor reaches it; fixed subtrees contribute
/// zero to that sum.
pub proof fn lemma_normal_position_is_preceding_sum(reg: Seq<Window>, root: Widget, w: Widget)
    requires
        calc_pos_ok(reg, root, w),
        (lookup(reg, w.spec_windowid()) matches Some(win) && win.position is Normal),
    ensures
        nearest_anchor_spec(reg, root, w) matches Some(a) && (lookup(
            reg,
            a.spec_windowid(),
        ) matches Some(aw) && aw.position matches Position::Fixed(ax, ay) && calc_pos_spec(
            reg,
            root,
            w,
        ) == (ax as int, ay + prec_visit(reg, a, w.spec_windowid()).1)),
{
    let a = nearest_anchor_spec(reg, root, w).unwrap();
    let aw = lookup(reg, a.spec_windowid()).unwrap();
    match aw.position {
        Position::Fixed(ax, ay) => {
            lemma_flow_is_prec_sum(reg, a, w.spec_windowid(), ax as int, ay as int);
        },
        Position::Normal => {
            assert(false);
        },
    }
}

/// The walk that finds the nearest fixed-positioned ancestor of `target`:
/// the deepest fixed node strictly above `target` on the root-to-target
/// path.  The first component reports whether `target` was found in the
/// subtree; the second carries the anchor once one is passed on the way
/// back up.
pub open spec fn anchor_visit(reg: Seq<Window>, cur: Widget, target: WindowId) -> (
    bool,
    Option<Widget>,
)
    decreases cur, cur.kids().len() + 1int,
{
    if cur.spec_windowid() == target {
        (true, None)
    } else {
        anchor_scan(reg, cur, target, 0)
    }
}

pub open spec fn anchor_scan(reg: Seq<Window>, cur: Widget, target: WindowId, i: int) -> (
    bool,
    Option<Widget>,
)
    decreases cur, cur.kids().len() - i,
{
    if i < 0 || i >= cur.kids().len() {
        (false, None)
    } else {
        let r = anchor_visit(reg, cur.kids()[i], target);
        if r.0 {
            if r.1 is Some {
                r
            } else if is_fixed_spec(reg, cur.spec_windowid()) {
                (true, Some(cur))
            } else {
                r
            }
        } else {
            anchor_scan(reg, cur, target, i + 1)
        }
    }
}

/// The layout anchor of `target` under `root`: `target` itself when it is
/// fixed-positioned, else the nearest fixed ancestor found by the walk.
pub open spec fn nearest_anchor_spec(reg: Seq<Window>, root: Widget, target: Widget) -> Option<
    Widget,
> {
    if is_fixed_spec(reg, target.spec_windowid()) {
        Some(target)
    } else {
        anchor_visit(reg, root, target.spec_windowid()).1
    }
}

/// Everything `calculate_position` relies on: the widget has a window,
/// and a normally positioned widget has an anchor that is fixed and from
/// which the flow walk reaches it at a position that fits the machine.
pub open spec fn calc_pos_ok(reg: Seq<Window>, root: Widget, w: Widget) -> bool {
    match lookup(reg, w.spec_windowid()) {
        None => false,
        Some(win) => match win.position {
            Position::Fixed(_, _) => true,
            Position::Normal => match nearest_anchor_spec(reg, root, w) {
                None => false,
                Some(a) => match lookup(reg, a.spec_windowid()) {
                    None => false,
                    Some(aw) => match aw.position {
                        Position::Fixed(ax, ay) => {
                            let r = flow_visit(reg, a, w.spec_windowid(), ax as int, ay as int);
                            r.0 && r.2 <= usize::MAX
                        },
                        Position::Normal => false,
                    },
                },
            },
        },
    }
}

/// Where a widget is laid out: a fixed widget at its own coordinates, a
/// normal one where the flow walk from its anchor reaches it.
pub open spec fn calc_pos_spec(reg: Seq<Window>, root: Widget, w: Widget) -> (int, int) {
    match lookup(reg, w.spec_windowid()) {
        None => (0, 0),
        Some(win) => match win.position {
            Position::Fixed(x, y) => (x as int, y as int),
            Position::Normal => match nearest_anchor_spec(reg, root, w) {
                None => (0, 0),
                Some(a) => match lookup(reg, a.spec_windowid()) {
                    None => (0, 0),
                    Some(aw) => match aw.position {
                        Position::Fixed(ax, ay) => {
                            let r = flow_visit(reg, a, w.spec_windowid(), ax as int, ay as int);
                            (r.1, r.2)
                        },
                        Position::Normal => (0, 0),
                    },
                },
            },
        },
    }
}

impl DisplayManager {
    /// Whether this widget's window is fixed-positioned.
    pub fn is_fixed_position(&self, widget: &Widget) -> (r: bool)
        ensures
            r == is_fixed_spec(self.windows@, widget.spec_windowid()),
    {
        match self.get(widget.windowid()) {
            Some(w) => match w.position {
                Position::Fixed(_, _) => true,
                Position::Normal => false,
            },
            None => false,
        }
    }

    fn flow_visit_x(&self, cur: &Widget, target: WindowId, x: usize, y: usize) -> (r: (
        bool,
        usize,
        usize,
    ))
        requires
            flow_visit(self.windows@, *cur, target, x as int, y as int).2 <= usize::MAX,
        ensures
            (r.0, r.1 as int, r.2 as int) == flow_visit(
                self.windows@,
                *cur,
                target,
                x as int,
                y as int,
            ),
        decreases *cur, cur.kids().len() + 1int,
    {
        if cur.windowid() == target {
            (true, x, y)
        } else {
            proof {
                lemma_flow_scan_monotonic(self.windows@, *cur, target, 0, x as int, y as int);
            }
            let r = self.flow_scan_x(cur, target, 0, x, y);
            if r.0 {
                r
            } else {
                let h = match self.get(cur.windowid()) {
                    Some(w) => match w.position {
                        Position::Fixed(_, _) => 0,
                        Position::Normal => w.bitmap.height(),
                    },
                    None => 0,
                };
                (false, x, r.2 + h)
            }
        }
    }

    fn flow_scan_x(&self, cur: &Widget, target: WindowId, i: usize, x: usize, y: usize) -> (r: (
        bool,
        usize,
        usize,
    ))
        requires
            flow_scan(self.windows@, *cur, target, i as int, x as int, y as int).2 <= usize::MAX,
        ensures
            (r.0, r.1 as int, r.2 as int) == flow_scan(
                self.windows@,
                *cur,
                target,
                i as int,
                x as int,
                y as int,
            ),
        decreases *cur, cur.kids().len() - i,
    {
        if i >= cur.num_children() {
            (false, x, y)
        } else {
            let child = cur.child(i);
            if self.is_fixed_position(child) {
                self.flow_scan_x(cur, target, i + 1, x, y)
            } else {
                proof {
                    lemma_flow_monotonic(self.windows@, *child, target, x as int, y as int);
                    let rr = flow_visit(self.windows@, *child, target, x as int, y as int);
                    if !rr.0 {
                        lemma_flow_scan_monotonic(
                            self.windows@,
                            *cur,
                            target,
                            i as int + 1,
                            x as int,
                            rr.2,
                        );
                    }
                }
                let r = self.flow_visit_x(child, target, x, y);
                if r.0 {
                    r
                } else {
                    self.flow_scan_x(cur, target, i + 1, x, r.2)
                }
            }
        }
    }

    fn anchor_visit_x<'b>(&self, cur: &'b Widget, target: WindowId) -> (r: (bool, Option<
        &'b Widget,
    >))
        ensures
            r.0 == anchor_visit(self.windows@, *cur, target).0,
            match r.1 {
                Some(n) => anchor_visit(self.windows@, *cur, target).1 == Some(*n),
                None => anchor_visit(self.windows@, *cur, target).1 is None,
            },
        decreases *cur, cur.kids().len() + 1int,
    {
        if cur.windowid() == target {
            (true, None)
        } else {
            self.anchor_scan_x(cur, target, 0)
        }
    }

    fn anchor_scan_x<'b>(&self, cur: &'b Widget, target: WindowId, i: usize) -> (r: (bool, Option<
        &'b Widget,
    >))
        ensures
            r.0 == anchor_scan(self.windows@, *cur, target, i as int).0,
            match r.1 {
                Some(n) => anchor_scan(self.windows@, *cur, target, i as int).1 == Some(*n),
                None => anchor_scan(self.windows@, *cur, target, i as int).1 is None,
            },
        decreases *cur, cur.kids().len() - i,
    {
        if i >= cur.num_children() {
            (false, None)
        } else {
            let r = self.anchor_visit_x(cur.child(i), target);
            if r.0 {
                match r.1 {
                    Some(n) => (true, Some(n)),
                    None => {
                        if self.is_fixed_position(cur) {
                            (true, Some(cur))
                        } else {
                            (true, None)
                        }
                    },
                }
            } else {
                self.anchor_scan_x(cur, target, i + 1)
            }
        }
    }

    /// The layout anchor of `target`: `target` itself when fixed, else the
    /// nearest fixed ancestor on the root-to-target path.  Fails when no
    /// fixed ancestor exists.
    pub fn nearest_fixed_position_ancestor<'b>(
        &self,
        root: &'b Widget,
        target: &'b Widget,
    ) -> (r: Result<&'b Widget, ErrorKind>)
        ensures
            match r {
                Ok(n) => nearest_anchor_spec(self.windows@, *root, *target) == Some(*n),
                Err(_) => nearest_anchor_spec(self.windows@, *root, *target) is None,
            },
    {
        if self.is_fixed_position(target) {
            Ok(target)
        } else {
            let r = self.anchor_visit_x(root, target.windowid());
            match r.1 {
                Some(n) => Ok(n),
                None => Err(
                    ErrorKind::Registry("failed to find fixed position parent".to_owned()),
                ),
            }
        }
    }

    /// The flow position of a normally positioned widget: its anchor's
    /// coordinates plus the heights accumulated by the flow walk.
    pub fn normal_position(&self, root: &Widget, widget: &Widget) -> (r: (usize, usize))
        requires
            self.spec_get(widget.spec_windowid()) matches Some(win) && win.position is Normal,
            calc_pos_ok(self.windows@, *root, *widget),
        ensures
            (r.0 as int, r.1 as int) == calc_pos_spec(self.windows@, *root, *widget),
    {
        let parent = match self.nearest_fixed_position_ancestor(root, widget) {
            Ok(p) => p,
            Err(_) => {
                proof {
                    assert(false);
                }
                root
            },
        };
        let (ax, ay) = match self.get(parent.windowid()) {
            Some(w) => match w.position {
                Position::Fixed(a, b) => (a, b),
                Position::Normal => {
                    proof {
                        assert(false);
                    }
                    (0, 0)
                },
            },
            None => {
                proof {
                    assert(false);
                }
                (0, 0)
            },
        };
        let r = self.flow_visit_x(parent, widget.windowid(), ax, ay);
        (r.1, r.2)
    }

    /// Where a widget is laid out: a fixed widget at its own coordinates
    /// verbatim, a normal one in the flow beneath its nearest fixed
    /// ancestor.
    pub fn calculate_position(&self, root: &Widget, widget: &Widget) -> (r: (usize, usize))
        requires
            calc_pos_ok(self.windows@, *root, *widget),
        ensures
            (r.0 as int, r.1 as int) == calc_pos_spec(self.windows@, *root, *widget),
    {
        match self.get(widget.windowid()) {
            Some(w) => match w.position {
                Position::Fixed(x, y) => (x, y),
                Position::Normal => self.normal_position(root, widget),
            },
            None => {
                proof {
                    assert(false);
                }
                (0, 0)
            },
        }
    }
}

/// The first index of `id` in `s`, or `-1`.
pub open spec fn index_in(s: Seq<WindowId>, id: WindowId) -> int
    decreases s.len(),
{
    if s.len() == 0 {
        -1
    } else if s[0] == id {
        0
    } else {
        let r = index_in(s.skip(1), id);
        if r < 0 {
            -1
        } else {
            r + 1
        }
    }
}

/// The first index is inside the sequence when the id occurs at all.
pub proof fn lemma_index_in_bound(s: Seq<WindowId>, id: WindowId)
    ensures
        index_in(s, id) < s.len(),
        index_in(s, id) >= -1,
    decreases s.len(),
{
    if s.len() == 0 {
    } else if s[0] == id {
    } else {
        lemma_index_in_bound(s.skip(1), id);
    }
}

/// The focus-navigation neighbor of `target`: its successor (`next`) or
/// predecessor in the depth-first pre-order flattening of the flow its
/// anchor starts, fixed subtrees skipped.
pub open spec fn nav_spec(reg: Seq<Window>, root: Widget, target: Widget, next: bool) -> Option<
    WindowId,
> {
    match nearest_anchor_spec(reg, root, target) {
        None => None,
        Some(a) => {
            let f = flow_ids(reg, a);
            let idx = index_in(f, target.spec_windowid());
            if idx < 0 {
                None
            } else if next {
                if idx + 1 < f.len() {
                    Some(f[idx + 1])
                } else {
                    None
                }
            } else {
                if idx > 0 {
                    Some(f[idx - 1])
                } else {
                    None
                }
            }
        },
    }
}

impl DisplayManager {
    /// The visible flow under `cur`, flattened in pre-order.
    fn flow_vec(&self, cur: &Widget) -> (r: Vec<WindowId>)
        ensures
            r@ == flow_ids(self.windows@, *cur),
        decreases *cur, cur.kids().len() + 2int,
    {
        let n = cur.num_children();
        let mut tail: Vec<WindowId> = Vec::new();
        let mut i: usize = n;
        while i > 0
            invariant
                i <= n,
                n == cur.kids().len(),
                tail@ == flow_ids_from(self.windows@, *cur, i as int),
            decreases i,
        {
            i = i - 1;
            let child = cur.child(i);
            if !self.is_fixed_position(child) {
                let mut sub = self.flow_vec(child);
                sub.append(&mut tail);
                tail = sub;
            }
        }
        let mut out: Vec<WindowId> = Vec::new();
        out.push(cur.windowid());
        out.append(&mut tail);
        proof {
            assert(out@ =~= seq![cur.spec_windowid()] + flow_ids_from(self.windows@, *cur, 0));
        }
        out
    }

    /// The focus-navigation neighbor of `target` in its anchor's flow:
    /// the next widget when `next`, the previous one otherwise.
    pub fn nearest_widget(&self, root: &Widget, target: &Widget, next: bool) -> (r: Option<
        WindowId,
    >)
        ensures
            r == nav_spec(self.windows@, *root, *target, next),
    {
        let anchor = match self.nearest_fixed_position_ancestor(root, target) {
            Ok(a) => a,
            Err(_) => {
                return None;
            },
        };
        let f = self.flow_vec(anchor);
        let tid = target.windowid();
        let ghost fs = f@;
        proof {
            assert(fs.skip(0) =~= fs);
            lemma_index_in_bound(fs, tid);
        }
        let mut i: usize = 0;
        while i < f.len()
            invariant
                i <= fs.len(),
                f@ == fs,
                tid == target.spec_windowid(),
                (nearest_anchor_spec(self.windows@, *root, *target) matches Some(a) && fs
                    == flow_ids(self.windows@, a)),
                index_in(fs, tid) == (if index_in(fs.skip(i as int), tid) < 0 {
                    -1int
                } else {
                    i + index_in(fs.skip(i as int), tid)
                }),
                index_in(fs.skip(i as int), tid) < fs.len() - i,
            decreases fs.len() - i,
        {
            proof {
                assert(fs.skip(i as int)[0] == fs[i as int]);
                assert(fs.skip(i as int).skip(1) =~= fs.skip(i as int + 1));
                lemma_index_in_bound(fs.skip(i as int), tid);
                lemma_index_in_bound(fs.skip(i as int + 1), tid);
            }
            if f[i] == tid {
                if next {
                    if i + 1 < f.len() {
                        return Some(f[i + 1]);
                    } else {
                        return None;
                    }
                } else {
                    if i > 0 {
                        return Some(f[i - 1]);
                    } else {
                        return None;
                    }
                }
            }
            i = i + 1;
        }
        proof {
            assert(fs.skip(fs.len() as int) =~= Seq::<WindowId>::empty());
        }
        None
    }

    /// The widget focus moves to on a downward step.
    pub fn next_widget(&self, root: &Widget, target: &Widget) -> (r: Option<WindowId>)
        ensures
            r == nav_spec(self.windows@, *root, *target, true),
    {
        self.nearest_widget(root, target, true)
    }

    /// The widget focus moves to on an upward step.
    pub fn prev_widget(&self, root: &Widget, target: &Widget) -> (r: Option<WindowId>)
        ensures
            r == nav_spec(self.windows@, *root, *target, false),
    {
        self.nearest_widget(root, target, false)
    }

    /// The currently focused widget in the visible tree, if any.
    pub fn find_focused_widget<'b>(&self, cur: &'b Widget) -> (r: Option<&'b Widget>)
        ensures
            match r {
                Some(n) => focused_node(self.windows@, *cur) == Some(*n),
                None => focused_node(self.windows@, *cur) is None,
            },
        decreases *cur, cur.kids().len() + 1int,
    {
        let own_focus = match self.get(cur.windowid()) {
            Some(w) => w.focus,
            None => false,
        };
        if own_focus {
            Some(cur)
        } else {
            self.find_focused_from(cur, 0)
        }
    }

    fn find_focused_from<'b>(&self, cur: &'b Widget, i: usize) -> (r: Option<&'b Widget>)
        ensures
            match r {
                Some(n) => focused_node_from(self.windows@, *cur, i as int) == Some(*n),
                None => focused_node_from(self.windows@, *cur, i as int) is None,
            },
        decreases *cur, cur.kids().len() - i,
    {
        if i >= cur.num_children() {
            None
        } else {
            match self.find_focused_widget(cur.child(i)) {
                Some(n) => Some(n),
                None => self.find_focused_from(cur, i + 1),
            }
        }
    }

    /// Sets the focus flag of this widget's window and clears every other
    /// window's flag, in one atomic pass.
    pub fn shift_focus(&mut self, widget: &Widget)
        requires
            old(self).wf(),
        ensures
            final(self).wf(),
            final(self).nextid == old(self).nextid,
            final(self).windows@.len() == old(self).windows@.len(),
            forall|i: int|
                0 <= i < old(self).windows@.len() ==> {
                    &&& (#[trigger] final(self).windows@[i].id) == old(self).windows@[i].id
                    &&& final(self).windows@[i].position == old(self).windows@[i].position
                    &&& final(self).windows@[i].bitmap == old(self).windows@[i].bitmap
                    &&& final(self).windows@[i].z == old(self).windows@[i].z
                    &&& (final(self).windows@[i].focus <==> old(self).windows@[i].id
                        == widget.spec_windowid())
                },
    {
        let id = widget.windowid();
        self.shift_focus_id(id);
        proof {
            assert forall|i: int| 0 <= i < old(self).windows@.len() implies {
                &&& (#[trigger] self.windows@[i].id) == old(self).windows@[i].id
                &&& self.windows@[i].position == old(self).windows@[i].position
                &&& self.windows@[i].bitmap == old(self).windows@[i].bitmap
                &&& self.windows@[i].z == old(self).windows@[i].z
                &&& (self.windows@[i].focus <==> old(self).windows@[i].id == widget.spec_windowid())
            } by {
                assert((#[trigger] self.windows@[i].id) == old(self).windows@[i].id);
            }
        }
    }
}

/// What one widget does with an input event delivered to it: its next
/// kind-specific state, whether it consumed the event, and the actions it
/// emitted.
pub open spec fn widget_on_event_spec(k: WidgetKind, ev: crate::controller::Event) -> (
    WidgetKind,
    bool,
    Seq<crate::action::Action>,
) {
    match k {
        WidgetKind::IsoImage(s) => match ev {
            crate::controller::Event::Select => (
                WidgetKind::IsoImage(s),
                true,
                seq![crate::action::Action::ToggleIsoMount(s.window)],
            ),
            _ => (WidgetKind::IsoImage(s), false, Seq::empty()),
        },
        WidgetKind::Drive(s) => match ev {
            crate::controller::Event::Select => (
                WidgetKind::Drive(s),
                true,
                seq![crate::action::Action::ToggleVDriveMount(s.window)],
            ),
            _ => (WidgetKind::Drive(s), false, Seq::empty()),
        },
        WidgetKind::Back(b) => match ev {
            crate::controller::Event::Select => (WidgetKind::Back(b), true, seq![b.action]),
            _ => (WidgetKind::Back(b), false, Seq::empty()),
        },
        WidgetKind::DriveItem(s) => match ev {
            crate::controller::Event::Select => (
                WidgetKind::DriveItem(s),
                true,
                if s.autoclose {
                    seq![
                        crate::buttons::vdrivelist::mark_action(s.mark, s.name),
                        crate::action::Action::CloseVDriveList(s.listwindow),
                    ]
                } else {
                    seq![crate::buttons::vdrivelist::mark_action(s.mark, s.name)]
                },
            ),
            _ => (WidgetKind::DriveItem(s), false, Seq::empty()),
        },
        WidgetKind::DriveList(s) => match ev {
            crate::controller::Event::Select => (
                WidgetKind::DriveList(s),
                true,
                seq![crate::action::Action::OpenVDriveList(s.window)],
            ),
            _ => (WidgetKind::DriveList(s), false, Seq::empty()),
        },
        WidgetKind::NewDrive(s) => match ev {
            crate::controller::Event::Select => (
                WidgetKind::NewDrive(s),
                true,
                seq![crate::action::Action::OpenSizeMenu],
            ),
            _ => (WidgetKind::NewDrive(s), false, Seq::empty()),
        },
        WidgetKind::SizeMenu(s) => match ev {
            crate::controller::Event::Select => (
                WidgetKind::SizeMenu(s),
                true,
                seq![crate::action::Action::OpenFormatMenu],
            ),
            crate::controller::Event::Up => (
                WidgetKind::SizeMenu(s),
                true,
                seq![crate::action::Action::IncDriveSize],
            ),
            crate::controller::Event::Down => (
                WidgetKind::SizeMenu(s),
                true,
                seq![crate::action::Action::DecDriveSize],
            ),
            _ => (WidgetKind::SizeMenu(s), false, Seq::empty()),
        },
        WidgetKind::FormatMenu(s) => match ev {
            crate::controller::Event::Select => (
                WidgetKind::FormatMenu(s),
                true,
                seq![crate::action::Action::FormatDrive],
            ),
            crate::controller::Event::Up => (
                WidgetKind::FormatMenu(
                    crate::newdrive::DriveFormat {
                        selected: crate::newdrive::prev_format_spec(s.selected),
                        ..s
                    },
                ),
                true,
                Seq::empty(),
            ),
            crate::controller::Event::Down => (
                WidgetKind::FormatMenu(
                    crate::newdrive::DriveFormat {
                        selected: crate::newdrive::next_format_spec(s.selected),
                        ..s
                    },
                ),
                true,
                Seq::empty(),
            ),
            _ => (WidgetKind::FormatMenu(s), false, Seq::empty()),
        },
        WidgetKind::Options(o) => match ev {
            crate::controller::Event::Select => (
                WidgetKind::Options(crate::options::Options { open: !o.open, ..o }),
                true,
                Seq::empty(),
            ),
            _ => (WidgetKind::Options(o), false, Seq::empty()),
        },
        WidgetKind::VersionMenu(s) => match ev {
            crate::controller::Event::Select => (
                WidgetKind::VersionMenu(s),
                true,
                seq![crate::action::Action::OpenVersion],
            ),
            _ => (WidgetKind::VersionMenu(s), false, Seq::empty()),
        },
        WidgetKind::VersionInfo(s) => match ev {
            crate::controller::Event::Select => (
                WidgetKind::VersionInfo(s),
                true,
                seq![crate::action::Action::CloseVersion],
            ),
            _ => (WidgetKind::VersionInfo(s), false, Seq::empty()),
        },
        WidgetKind::WifiMenu(s) => match ev {
            crate::controller::Event::Select => (
                WidgetKind::WifiMenu(s),
                true,
                seq![crate::action::Action::OpenWifiMenu],
            ),
            _ => (WidgetKind::WifiMenu(s), false, Seq::empty()),
        },
        WidgetKind::WifiClient(s) => match ev {
            crate::controller::Event::Select => (
                WidgetKind::WifiClient(s),
                true,
                seq![crate::action::Action::OpenWifiClientConnectionMenu],
            ),
            _ => (WidgetKind::WifiClient(s), false, Seq::empty()),
        },
        WidgetKind::WifiConnection(s) => match ev {
            crate::controller::Event::Select => {
                if s.state is Connected {
                    (
                        WidgetKind::WifiConnection(s),
                        true,
                        seq![crate::action::Action::CloseWifiClientConnectionMenu],
                    )
                } else {
                    (WidgetKind::WifiConnection(s), false, Seq::empty())
                }
            },
            _ => (WidgetKind::WifiConnection(s), false, Seq::empty()),
        },
        WidgetKind::WifiAp(s) => match ev {
            crate::controller::Event::Select => (
                WidgetKind::WifiAp(s),
                true,
                seq![crate::action::Action::OpenWifiApStartupMenu],
            ),
            _ => (WidgetKind::WifiAp(s), false, Seq::empty()),
        },
        _ => (k, false, Seq::empty()),
    }
}

impl Widget {
    /// Delivers one input event to this widget alone; children are
    /// untouched.
    pub fn on_event(&mut self, event: &crate::controller::Event) -> (r: (
        bool,
        Vec<crate::action::Action>,
    ))
        ensures
            ({
                let s = widget_on_event_spec(old(self).kind, *event);
                &&& final(self).kind == s.0
                &&& r.0 == s.1
                &&& r.1@ == s.2
                &&& final(self).children == old(self).children
            }),
    {
        match self.kind {
            WidgetKind::IsoImage(ref s) => match event {
                crate::controller::Event::Select => (
                    true,
                    vec![crate::action::Action::ToggleIsoMount(s.window)],
                ),
                _ => (false, Vec::new()),
            },
            WidgetKind::Drive(ref s) => match event {
                crate::controller::Event::Select => (
                    true,
                    vec![crate::action::Action::ToggleVDriveMount(s.window)],
                ),
                _ => (false, Vec::new()),
            },
            WidgetKind::Back(ref b) => match event {
                crate::controller::Event::Select => (
                    true,
                    vec![crate::action::clone_action(&b.action)],
                ),
                _ => (false, Vec::new()),
            },
            WidgetKind::DriveItem(ref s) => match event {
                crate::controller::Event::Select => {
                    let mut acts: Vec<crate::action::Action> = Vec::new();
                    let a = crate::buttons::vdrivelist::mark_action_exec(s.mark, &s.name);
                    acts.push(a);
                    if s.autoclose {
                        acts.push(crate::action::Action::CloseVDriveList(s.listwindow));
                    }
                    proof {
                        if s.autoclose {
                            assert(acts@ =~= seq![
                                crate::buttons::vdrivelist::mark_action(s.mark, s.name),
                                crate::action::Action::CloseVDriveList(s.listwindow),
                            ]);
                        } else {
                            assert(acts@ =~= seq![
                                crate::buttons::vdrivelist::mark_action(s.mark, s.name),
                            ]);
                        }
                    }
                    (true, acts)
                },
                _ => (false, Vec::new()),
            },
            WidgetKind::DriveList(ref s) => match event {
                crate::controller::Event::Select => (
                    true,
                    vec![crate::action::Action::OpenVDriveList(s.window)],
                ),
                _ => (false, Vec::new()),
            },
            WidgetKind::NewDrive(_) => match event {
                crate::controller::Event::Select => (
                    true,
                    vec![crate::action::Action::OpenSizeMenu],
                ),
                _ => (false, Vec::new()),
            },
            WidgetKind::SizeMenu(_) => match event {
                crate::controller::Event::Select => (
                    true,
                    vec![crate::action::Action::OpenFormatMenu],
                ),
                crate::controller::Event::Up => (
                    true,
                    vec![crate::action::Action::IncDriveSize],
                ),
                crate::controller::Event::Down => (
                    true,
                    vec![crate::action::Action::DecDriveSize],
                ),
                _ => (false, Vec::new()),
            },
            WidgetKind::FormatMenu(ref mut s) => match event {
                crate::controller::Event::Select => (
                    true,
                    vec![crate::action::Action::FormatDrive],
                ),
                crate::controller::Event::Up => {
                    s.selected = s.prev_format();
                    (true, Vec::new())
                },
                crate::controller::Event::Down => {
                    s.selected = s.next_format();
                    (true, Vec::new())
                },
                _ => (false, Vec::new()),
            },
            WidgetKind::Options(ref mut o) => match event {
                crate::controller::Event::Select => {
                    o.open = !o.open;
                    (true, Vec::new())
                },
                _ => (false, Vec::new()),
            },
            WidgetKind::VersionMenu(_) => match event {
                crate::controller::Event::Select => (
                    true,
                    vec![crate::action::Action::OpenVersion],
                ),
                _ => (false, Vec::new()),
            },
            WidgetKind::VersionInfo(_) => match event {
                crate::controller::Event::Select => (
                    true,
                    vec![crate::action::Action::CloseVersion],
                ),
                _ => (false, Vec::new()),
            },
            WidgetKind::WifiMenu(_) => match event {
                crate::controller::Event::Select => (
                    true,
                    vec![crate::action::Action::OpenWifiMenu],
                ),
                _ => (false, Vec::new()),
            },
            WidgetKind::WifiClient(_) => match event {
                crate::controller::Event::Select => (
                    true,
                    vec![crate::action::Action::OpenWifiClientConnectionMenu],
                ),
                _ => (false, Vec::new()),
            },
            WidgetKind::WifiConnection(ref s) => match event {
                crate::controller::Event::Select => {
                    match s.state {
                        crate::wifi::WifiConnectionState::Connected => (
                            true,
                            vec![crate::action::Action::CloseWifiClientConnectionMenu],
                        ),
                        crate::wifi::WifiConnectionState::Ready => (false, Vec::new()),
                    }
                },
                _ => (false, Vec::new()),
            },
            WidgetKind::WifiAp(_) => match event {
                crate::controller::Event::Select => (
                    true,
                    vec![crate::action::Action::OpenWifiApStartupMenu],
                ),
                _ => (false, Vec::new()),
            },
            _ => (false, Vec::new()),
        }
    }
}

/// The same tree content: equal kind-specific state at every node and
/// the same children, element for element.
pub open spec fn tree_eq(a: Widget, b: Widget) -> bool
    decreases a,
{
    &&& a.kind == b.kind
    &&& a.children@.len() == b.children@.len()
    &&& forall|i: int|
        0 <= i < a.children@.len() ==> tree_eq(#[trigger] a.children@[i], b.children@[i])
}

/// Every tree has the same content as itself.
pub proof fn lemma_tree_eq_refl(w: Widget)
    ensures
        tree_eq(w, w),
    decreases w,
{
    assert forall|i: int| 0 <= i < w.children@.len() implies tree_eq(
        #[trigger] w.children@[i],
        w.children@[i],
    ) by {
        lemma_tree_eq_refl(w.children@[i]);
    }
}

/// Trees with the same content have the same shape.
pub proof fn lemma_tree_eq_same_shape(a: Widget, b: Widget)
    requires
        tree_eq(a, b),
    ensures
        same_shape(a, b),
    decreases a,
{
    assert forall|i: int| 0 <= i < a.children@.len() implies same_shape(
        #[trigger] a.children@[i],
        b.children@[i],
    ) by {
        lemma_tree_eq_same_shape(a.children@[i], b.children@[i]);
    }
}

/// Scanning past one child that holds no focus reaches the next child.
pub proof fn lemma_focused_from_step(reg: Seq<Window>, v: Widget, j: int)
    requires
        0 <= j < v.kids().len(),
        focused_node(reg, v.kids()[j]) is None,
    ensures
        focused_node_from(reg, v, j) == focused_node_from(reg, v, j + 1),
{
}

/// Scanning past children that hold no focus reaches the first that
/// might.
pub proof fn lemma_focused_from_none_upto(reg: Seq<Window>, v: Widget, i: int)
    requires
        0 <= i <= v.kids().len(),
        forall|j: int| 0 <= j < i ==> focused_node(reg, #[trigger] v.kids()[j]) is None,
    ensures
        focused_node_from(reg, v, 0) == focused_node_from(reg, v, i),
    decreases i,
{
    if i > 0 {
        lemma_focused_from_none_upto(reg, v, i - 1);
        lemma_focused_from_step(reg, v, i - 1);
    }
}

impl DisplayManager {
    /// Delivers the event to the focused widget in the subtree, if any:
    /// only that widget's kind-specific state changes, and its answer is
    /// returned.
    fn deliver_event(&self, w: &mut Widget, event: &crate::controller::Event) -> (r: Option<(
        bool,
        Vec<crate::action::Action>,
    )>)
        ensures
            match r {
                None => {
                    &&& tree_eq(*old(w), *final(w))
                    &&& focused_node(self.windows@, *old(w)) is None
                    &&& focused_node(self.windows@, *final(w)) is None
                },
                Some((h, acts)) => {
                    &&& focused_node(self.windows@, *old(w)) matches Some(fw) && {
                        let s = widget_on_event_spec(fw.kind, *event);
                        &&& h == s.1
                        &&& acts@ == s.2
                        &&& same_shape(*old(w), *final(w))
                        &&& focused_node(self.windows@, *final(w)) == Some(
                            Widget { kind: s.0, children: fw.children },
                        )
                        &&& (!h ==> tree_eq(*old(w), *final(w)))
                    }
                },
            },
        decreases *old(w),
    {
        let ghost reg = self.windows@;
        let own_focus = match self.get(w.windowid()) {
            Some(win) => win.focus,
            None => false,
        };
        if own_focus {
            let (h, acts) = w.on_event(event);
            proof {
                if !h {
                    lemma_tree_eq_refl(*w);
                }
                lemma_same_shape_refl(*old(w));
                assert(same_shape(*old(w), *w)) by {
                    assert(w.kind == widget_on_event_spec(old(w).kind, *event).0);
                    assert(forall|i: int|
                        0 <= i < old(w).children@.len() ==> (#[trigger] old(w).children@[i])
                            == w.children@[i]);
                    assert forall|i: int| 0 <= i < old(w).children@.len() implies same_shape(
                        #[trigger] old(w).children@[i],
                        w.children@[i],
                    ) by {
                        lemma_same_shape_refl(old(w).children@[i]);
                    }
                }
            }
            Some((h, acts))
        } else {
            let n = w.num_children();
            let mut i: usize = 0;
            while i < n
                invariant
                    i <= n,
                    n == old(w).kids().len(),
                    reg == self.windows@,
                    w.kind == old(w).kind,
                    w.children@.len() == old(w).children@.len(),
                    w.kids().len() == old(w).kids().len(),
                    !(lookup(reg, old(w).spec_windowid()) matches Some(win) && win.focus),
                    forall|k: int|
                        i <= k < old(w).children@.len() ==> (#[trigger] w.children@[k]) == old(
                            w,
                        ).children@[k],
                    forall|k: int|
                        0 <= k < i ==> tree_eq(
                            #[trigger] old(w).children@[k],
                            w.children@[k],
                        ),
                    forall|k: int|
                        0 <= k < i ==> focused_node(reg, #[trigger] old(w).kids()[k]) is None,
                    forall|k: int|
                        0 <= k < i ==> focused_node(reg, #[trigger] w.kids()[k]) is None,
                decreases n - i,
            {
                let ghost pre = *w;
                proof {
                    assert(w.children@[i as int] == old(w).children@[i as int]);
                }
                let r = self.deliver_event(&mut w.children[i], event);
                proof {
                    assert(w.kind == pre.kind);
                    assert(forall|k: int|
                        0 <= k < pre.children@.len() && k != i ==> (#[trigger] w.children@[k])
                            == pre.children@[k]);
                }
                match r {
                    Some((h, acts)) => {
                        proof {
                            let fw = focused_node(reg, old(w).kids()[i as int]).unwrap();
                            let s = widget_on_event_spec(fw.kind, *event);
                            // the focused widget of the old subtree
                            lemma_focused_from_none_upto(reg, *old(w), i as int);
                            assert(focused_node_from(reg, *old(w), i as int) == Some(fw));
                            assert(focused_node(reg, *old(w)) == Some(fw));
                            // the focused widget of the final subtree
                            assert(focused_node(reg, w.kids()[i as int]) == Some(
                                Widget { kind: s.0, children: fw.children },
                            ));
                            lemma_focused_from_none_upto(reg, *w, i as int);
                            assert(focused_node_from(reg, *w, i as int) == Some(
                                Widget { kind: s.0, children: fw.children },
                            ));
                            // shapes and content
                            assert forall|k: int| 0 <= k < old(w).children@.len() implies same_shape(
                                #[trigger] old(w).children@[k],
                                w.children@[k],
                            ) by {
                                if k < i {
                                    lemma_tree_eq_same_shape(old(w).children@[k], w.children@[k]);
                                } else if k == i {
                                } else {
                                    assert(w.children@[k] == old(w).children@[k]);
                                    lemma_same_shape_refl(old(w).children@[k]);
                                }
                            }
                            assert(same_shape(*old(w), *w));
                            if !h {
                                assert forall|k: int| 0 <= k < old(w).children@.len() implies tree_eq(
                                    #[trigger] old(w).children@[k],
                                    w.children@[k],
                                ) by {
                                    if k > i {
                                        assert(w.children@[k] == old(w).children@[k]);
                                        lemma_tree_eq_refl(old(w).children@[k]);
                                    }
                                }
                                assert(tree_eq(*old(w), *w));
                            }
                        }
                        return Some((h, acts));
                    },
                    None => {
                    },
                }
                i = i + 1;
            }
            proof {
                lemma_focused_from_none_upto(reg, *old(w), n as int);
                lemma_focused_from_none_upto(reg, *w, n as int);
                assert(focused_node(reg, *old(w)) is None);
                assert(focused_node(reg, *w) is None);
                assert forall|k: int| 0 <= k < old(w).children@.len() implies tree_eq(
                    #[trigger] old(w).children@[k],
                    w.children@[k],
                ) by {
                    if k >= n {
                        assert(w.children@[k] == old(w).children@[k]);
                        lemma_tree_eq_refl(old(w).children@[k]);
                    }
                }
                assert(tree_eq(*old(w), *w));
            }
            None
        }
    }
}

/// The registries are identical except that the focus flags now single
/// out the window carrying `id`.
pub open spec fn shifted_pattern(a: DisplayManager, b: DisplayManager, id: WindowId) -> bool {
    &&& b.nextid == a.nextid
    &&& b.windows@.len() == a.windows@.len()
    &&& forall|i: int|
        0 <= i < a.windows@.len() ==> {
            &&& (#[trigger] b.windows@[i].id) == a.windows@[i].id
            &&& b.windows@[i].position == a.windows@[i].position
            &&& b.windows@[i].bitmap == a.windows@[i].bitmap
            &&& b.windows@[i].z == a.windows@[i].z
            &&& (b.windows@[i].focus <==> a.windows@[i].id == id)
        }
}

impl DisplayManager {
    /// Routes one input event: the focused widget gets it first; if it
    /// consumes it, its actions are the result.  Otherwise an up or down
    /// step moves the focus to the previous or next widget of the focused
    /// widget's flow (never onto the tree root), and any other unhandled
    /// event changes nothing.
    #[verifier::spinoff_prover]
    #[verifier::rlimit(100)]
    pub fn on_event(&mut self, root: &mut Widget, event: &crate::controller::Event) -> (r: Result<
        Vec<crate::action::Action>,
        ErrorKind,
    >)
        requires
            old(self).wf(),
            focused_node(old(self).windows@, *old(root)) is Some,
        ensures
            final(self).wf(),
            r is Ok,
            ({
                let reg = old(self).windows@;
                let fw = focused_node(reg, *old(root)).unwrap();
                let s = widget_on_event_spec(fw.kind, *event);
                &&& same_shape(*old(root), *final(root))
                &&& focused_node(reg, *final(root)) == Some(
                    Widget { kind: s.0, children: fw.children },
                )
                &&& if s.1 {
                    &&& (r matches Ok(acts) && acts@ == s.2)
                    &&& *final(self) == *old(self)
                } else {
                    &&& (r matches Ok(acts) && acts@.len() == 0)
                    &&& tree_eq(*old(root), *final(root))
                    &&& match *event {
                        crate::controller::Event::Up => match nav_spec(
                            reg,
                            *final(root),
                            focused_node(reg, *final(root)).unwrap(),
                            false,
                        ) {
                            Some(pid) => if pid != final(root).spec_windowid() {
                                shifted_pattern(*old(self), *final(self), pid)
                            } else {
                                *final(self) == *old(self)
                            },
                            None => *final(self) == *old(self),
                        },
                        crate::controller::Event::Down => match nav_spec(
                            reg,
                            *final(root),
                            focused_node(reg, *final(root)).unwrap(),
                            true,
                        ) {
                            Some(nid) => shifted_pattern(*old(self), *final(self), nid),
                            None => *final(self) == *old(self),
                        },
                        _ => *final(self) == *old(self),
                    }
                }
            }),
    {
        let r = self.deliver_event(root, event);
        let (handled, acts) = match r {
            Some(p) => p,
            None => {
                proof {
                    assert(false);
                }
                (false, Vec::new())
            },
        };
        if handled {
            return Ok(acts);
        }
        let focused = match self.find_focused_widget(root) {
            Some(f) => f,
            None => {
                proof {
                    assert(false);
                }
                &*root
            },
        };
        let ghost dm_mid = *self;
        match *event {
            crate::controller::Event::Up => {
                match self.prev_widget(root, focused) {
                    Some(pid) => {
                        if pid != root.windowid() {
                            self.shift_focus_id(pid);
                            proof {
                                assert(shifted_pattern(dm_mid, *self, pid));
                            }
                        }
                    },
                    None => {},
                }
            },
            crate::controller::Event::Down => {
                match self.next_widget(root, focused) {
                    Some(nid) => {
                        self.shift_focus_id(nid);
                        proof {
                            assert(shifted_pattern(dm_mid, *self, nid));
                        }
                    },
                    None => {},
                }
            },
            _ => {},
        }
        proof {
            assert(dm_mid == *old(self));
        }
        Ok(Vec::new())
    }
}

/// What one widget renders, given whether its window has focus and the
/// current service state.
pub open spec fn widget_render_spec(
    k: WidgetKind,
    focus: bool,
    cx: crate::context::Context,
) -> Seq<Seq<u8>> {
    match k {
        WidgetKind::Panel(p) => crate::panel::panel_render_spec(p),
        WidgetKind::IsoImage(s) => crate::iso::iso_render_spec(s, focus),
        WidgetKind::Drive(s) => crate::vdrive::vdrive_render_spec(s, focus),
        WidgetKind::Back(_) => crate::buttons::back::back_render_spec(focus),
        WidgetKind::DriveItem(s) => crate::buttons::vdrivelist::item_render_spec(s, focus, cx),
        WidgetKind::DriveSelector(_) => crate::buttons::vdrivelist::selector_render_spec(),
        WidgetKind::DriveList(s) => crate::buttons::vdrivelist::list_render_spec(s, focus),
        WidgetKind::NewDrive(_) => crate::newdrive::newdrive_render_spec(focus),
        WidgetKind::SizeMenu(s) => crate::newdrive::drivesize_render_spec(s),
        WidgetKind::FormatMenu(s) => crate::newdrive::driveformat_render_spec(s),
        WidgetKind::Options(_) => crate::options::options_render_spec(focus),
        WidgetKind::Stats(_) => crate::stats::stats_render_spec(cx),
        WidgetKind::VersionMenu(_) => crate::version::versionmenu_render_spec(focus),
        WidgetKind::VersionInfo(s) => crate::version::openversion_render_spec(s),
        WidgetKind::WifiMenu(_) => crate::wifi::wifimenu_render_spec(focus),
        WidgetKind::WifiSelect(_) => crate::wifi::selectwifi_render_spec(),
        WidgetKind::WifiClient(s) => crate::wifi::wificlient_render_spec(s, focus, cx),
        WidgetKind::WifiConnection(s) => crate::wifi::wificonnection_render_spec(s, focus),
        WidgetKind::WifiAp(_) => crate::wifi::wifiap_render_spec(focus, cx),
        WidgetKind::WifiApStartup(_) => crate::wifi::wifistartup_render_spec(),
        WidgetKind::Piso(_) => crate::piso::piso_render_spec(),
    }
}

impl Widget {
    /// Renders this widget alone into a fresh surface.
    pub fn render(&self, window: &Window, ctx: &crate::context::Context) -> (r: Bitmap)
        requires
            ctx.wf(),
        ensures
            r@ == widget_render_spec(self.kind, window.focus, *ctx),
            r.wf(),
    {
        match &self.kind {
            WidgetKind::Panel(p) => p.render(),
            WidgetKind::IsoImage(s) => s.render(window.focus),
            WidgetKind::Drive(s) => s.render(window.focus),
            WidgetKind::Back(s) => s.render(window.focus),
            WidgetKind::DriveItem(s) => s.render(window.focus, ctx),
            WidgetKind::DriveSelector(s) => s.render(),
            WidgetKind::DriveList(s) => s.render(window.focus),
            WidgetKind::NewDrive(s) => s.render(window.focus),
            WidgetKind::SizeMenu(s) => s.render(),
            WidgetKind::FormatMenu(s) => s.render(),
            WidgetKind::Options(s) => s.render(window.focus),
            WidgetKind::Stats(s) => s.render(ctx),
            WidgetKind::VersionMenu(s) => s.render(window.focus),
            WidgetKind::VersionInfo(s) => s.render(),
            WidgetKind::WifiMenu(s) => s.render(window.focus),
            WidgetKind::WifiSelect(s) => s.render(),
            WidgetKind::WifiClient(s) => s.render(window.focus, ctx),
            WidgetKind::WifiConnection(s) => s.render(window.focus),
            WidgetKind::WifiAp(s) => s.render(window.focus, ctx),
            WidgetKind::WifiApStartup(s) => s.render(),
            WidgetKind::Piso(s) => s.render(),
        }
    }
}

/// The window ids of the visible subtree.
pub open spec fn vis_ids(w: Widget) -> Set<WindowId>
    decreases w, w.kids().len() + 1int,
{
    vis_ids_from(w, 0).insert(w.spec_windowid())
}

pub open spec fn vis_ids_from(w: Widget, i: int) -> Set<WindowId>
    decreases w, w.kids().len() - i,
{
    if i < 0 || i >= w.kids().len() {
        Set::empty()
    } else {
        vis_ids(w.kids()[i]).union(vis_ids_from(w, i + 1))
    }
}

/// Every widget of the visible subtree has a window.
pub open spec fn vis_registered(reg: Seq<Window>, w: Widget) -> bool
    decreases w,
{
    &&& lookup(reg, w.spec_windowid()) is Some
    &&& forall|i: int|
        0 <= i < w.kids().len() ==> vis_registered(reg, #[trigger] w.kids()[i])
}

/// No window id occurs twice in the visible subtree.
pub open spec fn vis_distinct(w: Widget) -> bool
    decreases w, w.kids().len() + 1int,
{
    &&& !vis_ids_from(w, 0).contains(w.spec_windowid())
    &&& vis_distinct_from(w, 0)
}

pub open spec fn vis_distinct_from(w: Widget, i: int) -> bool
    decreases w, w.kids().len() - i,
{
    if i < 0 || i >= w.kids().len() {
        true
    } else {
        &&& vis_distinct(w.kids()[i])
        &&& vis_ids(w.kids()[i]).disjoint(vis_ids_from(w, i + 1))
        &&& vis_distinct_from(w, i + 1)
    }
}

/// Every visible widget's window caches exactly what that widget renders
/// under its current focus flag.
pub open spec fn rendered_ok(reg: Seq<Window>, w: Widget, cx: crate::context::Context) -> bool
    decreases w,
{
    &&& (lookup(reg, w.spec_windowid()) matches Some(win) && win.bitmap@ == widget_render_spec(
        w.kind,
        win.focus,
        cx,
    ))
    &&& forall|i: int| 0 <= i < w.kids().len() ==> rendered_ok(reg, #[trigger] w.kids()[i], cx)
}

/// A child's visible ids are contained in the scan from any earlier
/// index.
pub proof fn lemma_vis_from_contains(w: Widget, i: int, j: int)
    requires
        0 <= i <= j < w.kids().len(),
    ensures
        vis_ids(w.kids()[j]).subset_of(vis_ids_from(w, i)),
    decreases j - i,
{
    if i == j {
    } else {
        lemma_vis_from_contains(w, i + 1, j);
    }
}

/// A later scan covers a subset of an earlier one.
pub proof fn lemma_vis_from_subset(w: Widget, i: int, j: int)
    requires
        0 <= i <= j,
    ensures
        vis_ids_from(w, j).subset_of(vis_ids_from(w, i)),
    decreases j - i,
{
    if i < j && i < w.kids().len() {
        lemma_vis_from_subset(w, i + 1, j);
    }
}

/// Distinctness of the whole scan yields each child's distinctness and
/// its disjointness from everything after it.
pub proof fn lemma_vis_distinct_extract(w: Widget, i: int, k: int)
    requires
        0 <= i <= k < w.kids().len(),
        vis_distinct_from(w, i),
    ensures
        vis_distinct(w.kids()[k]),
        vis_ids(w.kids()[k]).disjoint(vis_ids_from(w, k + 1)),
    decreases k - i,
{
    if i < k {
        lemma_vis_distinct_extract(w, i + 1, k);
    }
}

/// A cached-rendering statement carries over to another registry that
/// looks the same on the subtree's visible ids.
pub proof fn lemma_rendered_same(
    reg1: Seq<Window>,
    reg2: Seq<Window>,
    w: Widget,
    cx: crate::context::Context,
)
    requires
        rendered_ok(reg1, w, cx),
        forall|id: WindowId|
            vis_ids(w).contains(id) ==> lookup(reg2, id) == lookup(reg1, id),
    ensures
        rendered_ok(reg2, w, cx),
    decreases w,
{
    assert(vis_ids(w).contains(w.spec_windowid()));
    assert forall|i: int| 0 <= i < w.kids().len() implies rendered_ok(
        reg2,
        #[trigger] w.kids()[i],
        cx,
    ) by {
        lemma_vis_from_contains(w, 0, i);
        assert forall|id: WindowId| vis_ids(w.kids()[i]).contains(id) implies lookup(reg2, id)
            == lookup(reg1, id) by {
            assert(vis_ids(w).contains(id));
        }
        lemma_rendered_same(reg1, reg2, w.kids()[i], cx);
    }
}

/// The registries carry the same windows except possibly for cached
/// bitmaps.
pub open spec fn same_windows_structure(a: DisplayManager, b: DisplayManager) -> bool {
    &&& b.nextid == a.nextid
    &&& b.windows@.len() == a.windows@.len()
    &&& forall|i: int|
        0 <= i < a.windows@.len() ==> {
            &&& (#[trigger] b.windows@[i].id) == a.windows@[i].id
            &&& b.windows@[i].position == a.windows@[i].position
            &&& b.windows@[i].focus == a.windows@[i].focus
            &&& b.windows@[i].z == a.windows@[i].z
        }
}

/// Structure equality composes.
pub proof fn lemma_structure_trans(a: DisplayManager, b: DisplayManager, c: DisplayManager)
    requires
        same_windows_structure(a, b),
        same_windows_structure(b, c),
    ensures
        same_windows_structure(a, c),
{
    assert forall|i: int| 0 <= i < a.windows@.len() implies {
        &&& (#[trigger] c.windows@[i].id) == a.windows@[i].id
        &&& c.windows@[i].position == a.windows@[i].position
        &&& c.windows@[i].focus == a.windows@[i].focus
        &&& c.windows@[i].z == a.windows@[i].z
    } by {
        assert(b.windows@[i].id == a.windows@[i].id);
        assert(c.windows@[i].id == b.windows@[i].id);
    }
}

/// Positions and focus flags survive a structure-preserving change.
#[verifier::spinoff_prover]
pub proof fn lemma_structure_lookup(a: DisplayManager, b: DisplayManager, id: WindowId)
    requires
        same_windows_structure(a, b),
    ensures
        lookup(b.windows@, id) is Some <==> lookup(a.windows@, id) is Some,
        (match (lookup(a.windows@, id), lookup(b.windows@, id)) {
            (Some(wa), Some(wb)) => wb.position == wa.position && wb.focus == wa.focus && wb.id
                == wa.id,
            (None, None) => true,
            _ => false,
        }),
{
    assert(same_structure_seq(a.windows@, b.windows@));
    lemma_structure_lookup_seq(a.windows@, b.windows@, id);
}

/// The two window sequences agree on everything but cached bitmaps.
pub open spec fn same_structure_seq(a: Seq<Window>, b: Seq<Window>) -> bool {
    &&& b.len() == a.len()
    &&& forall|i: int|
        0 <= i < a.len() ==> (#[trigger] b[i].id) == a[i].id && b[i].position == a[i].position
            && b[i].focus == a[i].focus && b[i].z == a[i].z
}

pub proof fn lemma_structure_lookup_seq(a: Seq<Window>, b: Seq<Window>, id: WindowId)
    requires
        same_structure_seq(a, b),
    ensures
        lookup(b, id) is Some <==> lookup(a, id) is Some,
        (match (lookup(a, id), lookup(b, id)) {
            (Some(wa), Some(wb)) => wb.position == wa.position && wb.focus == wa.focus && wb.id
                == wa.id,
            (None, None) => true,
            _ => false,
        }),
    decreases a.len(),
{
    if a.len() == 0 {
    } else {
        assert(b[0].id == a[0].id);
        if a[0].id != id {
            let a1 = a.skip(1);
            let b1 = b.skip(1);
            assert forall|i: int| 0 <= i < a1.len() implies (#[trigger] b1[i].id) == a1[i].id
                && b1[i].position == a1[i].position && b1[i].focus == a1[i].focus && b1[i].z
                == a1[i].z by {
                assert(b1[i] == b[i + 1]);
                assert(a1[i] == a[i + 1]);
                assert(b[i + 1].id == a[i + 1].id);
            }
            assert(same_structure_seq(a1, b1));
            lemma_structure_lookup_seq(a1, b1, id);
        }
    }
}

impl DisplayManager {
    /// Refreshes the cached bitmap of every visible widget, parents before
    /// children: after this, layout reads up-to-date sizes.  Fails exactly
    /// when some visible widget has no window, and never touches windows
    /// outside the subtree.
    #[verifier::spinoff_prover]
    #[verifier::rlimit(60)]
    pub fn do_render(
        &mut self,
        root: &Widget,
        ctx: &crate::context::Context,
    ) -> (r: Result<(), ErrorKind>)
        requires
            old(self).wf(),
            vis_distinct(*root),
            ctx.wf(),
        ensures
            final(self).wf(),
            same_windows_structure(*old(self), *final(self)),
            forall|id: WindowId|
                !vis_ids(*root).contains(id) ==> lookup(final(self).windows@, id) == lookup(
                    old(self).windows@,
                    id,
                ),
            r is Ok <==> vis_registered(old(self).windows@, *root),
            r is Ok ==> rendered_ok(final(self).windows@, *root, *ctx),
        decreases *root, root.kids().len() + 1int,
    {
        let id = root.windowid();
        let bitmap = match self.get(id) {
            Some(win) => root.render(win, ctx),
            None => {
                return Err(ErrorKind::Registry("failed to find window for widget".to_owned()));
            },
        };
        let ghost bmv = bitmap@;
        let found = self.update_bitmap(id, bitmap);
        proof {
            assert(found);
            assert forall|id2: WindowId| id2 != id implies lookup(self.windows@, id2) == lookup(
                old(self).windows@,
                id2,
            ) by {
                lemma_lookup_same_outside(old(self).windows@, self.windows@, id, id2);
            }
            assert(vis_ids(*root).contains(id));
            assert(same_windows_structure(*old(self), *self));
            lemma_structure_lookup(*old(self), *self, id);
            let w1 = lookup(old(self).windows@, id).unwrap();
            let w2 = lookup(self.windows@, id).unwrap();
            assert(w2.bitmap@ == bmv);
            assert(w2.focus == w1.focus);
            assert(bmv == widget_render_spec(root.kind, w1.focus, *ctx));
            assert(w2.bitmap@ == widget_render_spec(root.kind, w2.focus, *ctx));
        }
        let ghost after_own = *self;
        let n = root.num_children();
        let mut i: usize = 0;
        while i < n
            invariant
                i <= n,
                n == root.kids().len(),
                vis_distinct(*root),
                self.wf(),
                same_windows_structure(after_own, *self),
                same_windows_structure(*old(self), after_own),
                ctx.wf(),
                lookup(after_own.windows@, root.spec_windowid()) matches Some(win)
                    && win.bitmap@ == widget_render_spec(root.kind, win.focus, *ctx),
                forall|id2: WindowId|
                    !vis_ids(*root).contains(id2) ==> lookup(after_own.windows@, id2) == lookup(
                        old(self).windows@,
                        id2,
                    ),
                forall|id2: WindowId|
                    !vis_ids_from(*root, 0).contains(id2) ==> lookup(self.windows@, id2) == lookup(
                        after_own.windows@,
                        id2,
                    ),
                forall|k: int|
                    0 <= k < i ==> vis_registered(old(self).windows@, #[trigger] root.kids()[k]),
                forall|k: int|
                    0 <= k < i ==> rendered_ok(self.windows@, #[trigger] root.kids()[k], *ctx),
                vis_distinct_from(*root, 0),
                !vis_ids_from(*root, 0).contains(root.spec_windowid()),
            decreases n - i,
        {
            let ghost pre = *self;
            proof {
                lemma_vis_distinct_extract(*root, 0, i as int);
            }
            let res = self.do_render(root.child(i), ctx);
            proof {
                lemma_structure_trans(after_own, pre, *self);
                lemma_structure_trans(*old(self), after_own, pre);
                lemma_vis_from_contains(*root, 0, i as int);
                // everything outside the full child scan is untouched
                assert forall|id2: WindowId|
                    !vis_ids_from(*root, 0).contains(id2) implies lookup(self.windows@, id2)
                    == lookup(after_own.windows@, id2) by {
                    assert(!vis_ids(root.kids()[i as int]).contains(id2));
                    assert(lookup(self.windows@, id2) == lookup(pre.windows@, id2));
                }
            }
            match res {
                Ok(_) => {
                    proof {
                        // earlier siblings keep their rendering
                        assert forall|k: int| 0 <= k < i implies rendered_ok(
                            self.windows@,
                            #[trigger] root.kids()[k],
                            *ctx,
                        ) by {
                            lemma_vis_distinct_extract(*root, 0, k);
                            lemma_vis_from_contains(*root, k + 1, i as int);
                            assert forall|id2: WindowId|
                                vis_ids(root.kids()[k]).contains(id2) implies lookup(
                                self.windows@,
                                id2,
                            ) == lookup(pre.windows@, id2) by {
                                assert(!vis_ids_from(*root, k + 1).contains(id2));
                                assert(!vis_ids(root.kids()[i as int]).contains(id2));
                            }
                            lemma_rendered_same(
                                pre.windows@,
                                self.windows@,
                                root.kids()[k],
                                *ctx,
                            );
                        }
                        // registration is stated over the entry registry
                        lemma_vis_registered_structure(*old(self), pre, root.kids()[i as int]);
                    }
                },
                Err(e) => {
                    proof {
                        lemma_vis_registered_structure_rev(*old(self), pre, root.kids()[i as int]);
                        lemma_structure_trans(*old(self), after_own, *self);
                        assert forall|id2: WindowId| !vis_ids(*root).contains(id2) implies lookup(
                            self.windows@,
                            id2,
                        ) == lookup(old(self).windows@, id2) by {
                            assert(!vis_ids_from(*root, 0).contains(id2));
                        }
                        assert(!vis_registered(old(self).windows@, *root));
                    }
                    return Err(e);
                },
            }
            i = i + 1;
        }
        proof {
            lemma_structure_trans(*old(self), after_own, *self);
            assert forall|id2: WindowId| !vis_ids(*root).contains(id2) implies lookup(
                self.windows@,
                id2,
            ) == lookup(old(self).windows@, id2) by {
                assert(!vis_ids_from(*root, 0).contains(id2));
            }
            // the subtree is registered
            assert(lookup(old(self).windows@, root.spec_windowid()) is Some) by {
                lemma_structure_lookup(*old(self), after_own, root.spec_windowid());
            }
            // own window still carries its rendering
            assert(lookup(self.windows@, root.spec_windowid()) == lookup(
                after_own.windows@,
                root.spec_windowid(),
            ));
            assert(rendered_ok(self.windows@, *root, *ctx));
        }
        Ok(())
    }
}

/// Registration depends only on which ids exist.
pub proof fn lemma_vis_registered_structure(a: DisplayManager, b: DisplayManager, w: Widget)
    requires
        same_windows_structure(a, b),
        vis_registered(b.windows@, w),
    ensures
        vis_registered(a.windows@, w),
    decreases w,
{
    lemma_structure_lookup(a, b, w.spec_windowid());
    assert forall|i: int| 0 <= i < w.kids().len() implies vis_registered(
        a.windows@,
        #[trigger] w.kids()[i],
    ) by {
        lemma_vis_registered_structure(a, b, w.kids()[i]);
    }
}

/// Registration depends only on which ids exist (other direction).
pub proof fn lemma_vis_registered_structure_rev(a: DisplayManager, b: DisplayManager, w: Widget)
    requires
        same_windows_structure(a, b),
        !vis_registered(b.windows@, w),
    ensures
        !vis_registered(a.windows@, w),
    decreases w,
{
    if lookup(b.windows@, w.spec_windowid()) is None {
        lemma_structure_lookup(a, b, w.spec_windowid());
    } else {
        let i = choose|i: int|
            0 <= i < w.kids().len() && !vis_registered(b.windows@, #[trigger] w.kids()[i]);
        lemma_vis_registered_structure_rev(a, b, w.kids()[i]);
    }
}

/// Lookups of other ids are unchanged when one window's bitmap changes.
pub proof fn lemma_lookup_same_outside(a: Seq<Window>, b: Seq<Window>, id: WindowId, id2: WindowId)
    requires
        b.len() == a.len(),
        forall|i: int|
            0 <= i < a.len() ==> (#[trigger] b[i].id) == a[i].id && b[i].position == a[i].position
                && b[i].focus == a[i].focus && b[i].z == a[i].z,
        forall|i: int| 0 <= i < a.len() && a[i].id != id ==> (#[trigger] b[i].bitmap) == a[i].bitmap,
        id2 != id,
    ensures
        lookup(b, id2) == lookup(a, id2),
    decreases a.len(),
{
    if a.len() == 0 {
    } else {
        assert(b[0].id == a[0].id);
        if a[0].id == id2 {
            assert(a[0].id != id);
            assert(b[0].bitmap == a[0].bitmap);
            assert(b[0] == a[0]);
        } else {
            assert(forall|i: int|
                0 <= i < a.skip(1).len() ==> (#[trigger] b.skip(1)[i].id) == a.skip(1)[i].id
                    && b.skip(1)[i].position == a.skip(1)[i].position && b.skip(1)[i].focus
                    == a.skip(1)[i].focus && b.skip(1)[i].z == a.skip(1)[i].z);
            assert(forall|i: int|
                0 <= i < a.skip(1).len() && a.skip(1)[i].id != id ==> (#[trigger] b.skip(1)[i].bitmap)
                    == a.skip(1)[i].bitmap);
            lemma_lookup_same_outside(a.skip(1), b.skip(1), id, id2);
        }
    }
}

/// The auto-scroll shift of the flow under `cur`: walking the visible
/// flow for the focused window, the amount its bottom edge exceeds the
/// display height, if it does.  Fixed children are left to their own
/// overlay passes.
pub open spec fn scroll_spec(reg: Seq<Window>, rroot: Widget, cur: Widget) -> Option<int>
    decreases cur, cur.kids().len() + 1int,
{
    scroll_scan(reg, rroot, cur, 0)
}

pub open spec fn scroll_scan(reg: Seq<Window>, rroot: Widget, cur: Widget, i: int) -> Option<int>
    decreases cur, cur.kids().len() - i,
{
    if i < 0 || i >= cur.kids().len() {
        None
    } else {
        match lookup(reg, cur.kids()[i].spec_windowid()) {
            None => scroll_scan(reg, rroot, cur, i + 1),
            Some(win) => match win.position {
                Position::Fixed(_, _) => scroll_scan(reg, rroot, cur, i + 1),
                Position::Normal => {
                    if win.focus {
                        let pos = calc_pos_spec(reg, rroot, cur.kids()[i]);
                        let bottom = pos.1 + win.bitmap@.len();
                        if bottom > crate::display::DISPLAY_HEIGHT {
                            Some(bottom - crate::display::DISPLAY_HEIGHT)
                        } else {
                            None
                        }
                    } else {
                        match scroll_spec(reg, rroot, cur.kids()[i]) {
                            Some(s) => Some(s),
                            None => scroll_scan(reg, rroot, cur, i + 1),
                        }
                    }
                },
            },
        }
    }
}

/// Everything compositing relies on, for every widget of the visible
/// subtree: a registered window, a computable position, and positions and
/// dimensions small enough for the machine.
pub open spec fn blit_ok(reg: Seq<Window>, rroot: Widget, cur: Widget) -> bool
    decreases cur,
{
    &&& calc_pos_ok(reg, rroot, cur)
    &&& calc_pos_spec(reg, rroot, cur).0 <= 0x4000_0000
    &&& calc_pos_spec(reg, rroot, cur).1 <= 0x4000_0000
    &&& (lookup(reg, cur.spec_windowid()) matches Some(win) && win.bitmap@.len() <= 0x4000_0000
        && crate::bitmap::grid_w(win.bitmap@) <= 0x4000_0000)
    &&& forall|i: int| 0 <= i < cur.kids().len() ==> blit_ok(reg, rroot, #[trigger] cur.kids()[i])
}

/// The cached bitmap of a window, or an empty grid when it is missing.
pub open spec fn cached_view(reg: Seq<Window>, id: WindowId) -> Seq<Seq<u8>> {
    match lookup(reg, id) {
        Some(w) => w.bitmap@,
        None => Seq::empty(),
    }
}

/// What painting the flow under `cur` leaves on the frame: the widget's
/// own cached bitmap composited at its position (shifted up by the
/// auto-scroll amount), then each non-fixed child's flow in order.
pub open spec fn blit_flow_spec(
    reg: Seq<Window>,
    rroot: Widget,
    cur: Widget,
    frame: Seq<Seq<u8>>,
    shift: int,
) -> Seq<Seq<u8>>
    decreases cur, 0int, cur.kids().len() + 1int,
{
    let pos = calc_pos_spec(reg, rroot, cur);
    let painted = crate::bitmap::blit_clip_spec(
        frame,
        cached_view(reg, cur.spec_windowid()),
        pos.0,
        pos.1 - shift,
    );
    blit_flow_scan(reg, rroot, cur, painted, shift, 0)
}

pub open spec fn blit_flow_scan(
    reg: Seq<Window>,
    rroot: Widget,
    cur: Widget,
    frame: Seq<Seq<u8>>,
    shift: int,
    i: int,
) -> Seq<Seq<u8>>
    decreases cur, 0int, cur.kids().len() - i,
{
    if i < 0 || i >= cur.kids().len() {
        frame
    } else if is_fixed_spec(reg, cur.kids()[i].spec_windowid()) {
        blit_flow_scan(reg, rroot, cur, frame, shift, i + 1)
    } else {
        blit_flow_scan(
            reg,
            rroot,
            cur,
            blit_flow_spec(reg, rroot, cur.kids()[i], frame, shift),
            shift,
            i + 1,
        )
    }
}

/// What painting the overlays under `cur` leaves on the frame: each
/// fixed-positioned child found in flow order becomes its own full
/// compositing pass, painted strictly after all flow content.
pub open spec fn blit_overlays_spec(
    reg: Seq<Window>,
    rroot: Widget,
    cur: Widget,
    frame: Seq<Seq<u8>>,
) -> Seq<Seq<u8>>
    decreases cur, 1int, cur.kids().len() + 1int,
{
    blit_overlays_scan(reg, rroot, cur, frame, 0)
}

pub open spec fn blit_overlays_scan(
    reg: Seq<Window>,
    rroot: Widget,
    cur: Widget,
    frame: Seq<Seq<u8>>,
    i: int,
) -> Seq<Seq<u8>>
    decreases cur, 1int, cur.kids().len() - i,
{
    if i < 0 || i >= cur.kids().len() {
        frame
    } else if is_fixed_spec(reg, cur.kids()[i].spec_windowid()) {
        blit_overlays_scan(
            reg,
            rroot,
            cur,
            do_blit_spec(reg, rroot, cur.kids()[i], frame),
            i + 1,
        )
    } else {
        blit_overlays_scan(
            reg,
            rroot,
            cur,
            blit_overlays_spec(reg, rroot, cur.kids()[i], frame),
            i + 1,
        )
    }
}

/// What one full compositing pass leaves on the frame: the subtree's
/// flow, shifted by its own auto-scroll amount, then its overlays.
pub open spec fn do_blit_spec(
    reg: Seq<Window>,
    rroot: Widget,
    cur: Widget,
    frame: Seq<Seq<u8>>,
) -> Seq<Seq<u8>>
    decreases cur, 2int, 0int,
{
    let shift = match scroll_spec(reg, rroot, cur) {
        Some(s) => s,
        None => 0,
    };
    blit_overlays_spec(reg, rroot, cur, blit_flow_spec(reg, rroot, cur, frame, shift))
}

impl DisplayManager {
    fn flow_visit_chk(&self, cur: &Widget, target: WindowId, x: usize, y: usize) -> (r: Option<
        (bool, usize, usize),
    >)
        requires
            x <= 0x4000_0000,
            y <= 0x4000_0000,
        ensures
            r matches Some(t) ==> (t.0, t.1 as int, t.2 as int) == flow_visit(
                self.windows@,
                *cur,
                target,
                x as int,
                y as int,
            ) && t.1 <= 0x4000_0000 && t.2 <= 0x4000_0000,
            r is None ==> flow_visit(self.windows@, *cur, target, x as int, y as int).2
                > 0x4000_0000,
        decreases *cur, cur.kids().len() + 1int,
    {
        if cur.windowid() == target {
            Some((true, x, y))
        } else {
            let r = match self.flow_scan_chk(cur, target, 0, x, y) {
                Some(t) => t,
                None => {
                    proof {
                        let sr = flow_scan(self.windows@, *cur, target, 0, x as int, y as int);
                        if !sr.0 {
                            assert(flow_height(self.windows@, cur.spec_windowid()) >= 0);
                        }
                    }
                    return None;
                },
            };
            if r.0 {
                Some(r)
            } else {
                let h = match self.get(cur.windowid()) {
                    Some(w) => match w.position {
                        Position::Fixed(_, _) => 0,
                        Position::Normal => w.bitmap.height(),
                    },
                    None => 0,
                };
                if h > 0x4000_0000 - r.2 {
                    None
                } else {
                    Some((false, x, r.2 + h))
                }
            }
        }
    }

    fn flow_scan_chk(&self, cur: &Widget, target: WindowId, i: usize, x: usize, y: usize) -> (r:
        Option<(bool, usize, usize)>)
        requires
            x <= 0x4000_0000,
            y <= 0x4000_0000,
        ensures
            r matches Some(t) ==> (t.0, t.1 as int, t.2 as int) == flow_scan(
                self.windows@,
                *cur,
                target,
                i as int,
                x as int,
                y as int,
            ) && t.1 <= 0x4000_0000 && t.2 <= 0x4000_0000,
            r is None ==> flow_scan(self.windows@, *cur, target, i as int, x as int, y as int).2
                > 0x4000_0000,
        decreases *cur, cur.kids().len() - i,
    {
        if i >= cur.num_children() {
            Some((false, x, y))
        } else {
            let child = cur.child(i);
            if self.is_fixed_position(child) {
                self.flow_scan_chk(cur, target, i + 1, x, y)
            } else {
                let r = match self.flow_visit_chk(child, target, x, y) {
                    Some(t) => t,
                    None => {
                        proof {
                            let cr = flow_visit(self.windows@, *child, target, x as int, y as int);
                            if !cr.0 {
                                lemma_flow_scan_monotonic(
                                    self.windows@,
                                    *cur,
                                    target,
                                    i as int + 1,
                                    x as int,
                                    cr.2,
                                );
                            }
                        }
                        return None;
                    },
                };
                if r.0 {
                    Some(r)
                } else {
                    self.flow_scan_chk(cur, target, i + 1, x, r.2)
                }
            }
        }
    }

    /// Checks, without overflowing, whether the whole visible subtree can
    /// be composited: the answer is exactly [`blit_ok`].
    fn blit_ready(&self, real_root: &Widget, cur: &Widget) -> (r: bool)
        ensures
            r == blit_ok(self.windows@, *real_root, *cur),
        decreases *cur, cur.kids().len() + 1int,
    {
        let ghost reg = self.windows@;
        match self.get(cur.windowid()) {
            None => {
                return false;
            },
            Some(win) => {
                let bh = win.bitmap.height();
                let bw = win.bitmap.width();
                if bh > 0x4000_0000 || bw > 0x4000_0000 {
                    return false;
                }
            },
        }
        match self.get(cur.windowid()) {
            None => {
                proof {
                    assert(false);
                }
                return false;
            },
            Some(win) => match win.position {
                Position::Fixed(x, y) => {
                    if x > 0x4000_0000 || y > 0x4000_0000 {
                        return false;
                    }
                },
                Position::Normal => {
                    match self.nearest_fixed_position_ancestor(real_root, cur) {
                        Err(_) => {
                            return false;
                        },
                        Ok(anchor) => match self.get(anchor.windowid()) {
                            None => {
                                return false;
                            },
                            Some(aw) => match aw.position {
                                Position::Normal => {
                                    return false;
                                },
                                Position::Fixed(ax, ay) => {
                                    if ax > 0x4000_0000 || ay > 0x4000_0000 {
                                        proof {
                                            lemma_flow_monotonic(
                                                reg,
                                                *anchor,
                                                cur.spec_windowid(),
                                                ax as int,
                                                ay as int,
                                            );
                                        }
                                        return false;
                                    }
                                    match self.flow_visit_chk(anchor, cur.windowid(), ax, ay) {
                                        Some(t) => {
                                            if !t.0 {
                                                return false;
                                            }
                                        },
                                        None => {
                                            return false;
                                        },
                                    }
                                },
                            },
                        },
                    }
                },
            },
        }
        let n = cur.num_children();
        let mut i: usize = 0;
        while i < n
            invariant
                i <= n,
                n == cur.kids().len(),
                reg == self.windows@,
                forall|k: int|
                    0 <= k < i ==> blit_ok(self.windows@, *real_root, #[trigger] cur.kids()[k]),
                calc_pos_ok(self.windows@, *real_root, *cur),
                calc_pos_spec(self.windows@, *real_root, *cur).0 <= 0x4000_0000,
                calc_pos_spec(self.windows@, *real_root, *cur).1 <= 0x4000_0000,
                (lookup(self.windows@, cur.spec_windowid()) matches Some(win)
                    && win.bitmap@.len() <= 0x4000_0000 && crate::bitmap::grid_w(win.bitmap@)
                    <= 0x4000_0000),
            decreases n - i,
        {
            if !self.blit_ready(real_root, cur.child(i)) {
                return false;
            }
            i = i + 1;
        }
        true
    }

    /// The amount the flow under `widget` must shift up so the focused
    /// widget's bottom edge stays on the display.
    pub fn find_scroll_shift(&self, root: &Widget, widget: &Widget) -> (r: Option<i32>)
        requires
            blit_ok(self.windows@, *root, *widget),
        ensures
            match r {
                Some(s) => scroll_spec(self.windows@, *root, *widget) == Some(s as int) && 0 <= s,
                None => scroll_spec(self.windows@, *root, *widget) is None,
            },
        decreases *widget, widget.kids().len() + 1int,
    {
        self.scroll_scan_x(root, widget, 0)
    }

    fn scroll_scan_x(&self, root: &Widget, widget: &Widget, i: usize) -> (r: Option<i32>)
        requires
            blit_ok(self.windows@, *root, *widget),
        ensures
            match r {
                Some(s) => scroll_scan(self.windows@, *root, *widget, i as int) == Some(s as int)
                    && 0 <= s,
                None => scroll_scan(self.windows@, *root, *widget, i as int) is None,
            },
        decreases *widget, widget.kids().len() - i,
    {
        if i >= widget.num_children() {
            None
        } else {
            let child = widget.child(i);
            proof {
                assert(blit_ok(self.windows@, *root, widget.kids()[i as int]));
            }
            match self.get(child.windowid()) {
                None => self.scroll_scan_x(root, widget, i + 1),
                Some(win) => {
                    let fixed = match win.position {
                        Position::Fixed(_, _) => true,
                        Position::Normal => false,
                    };
                    if fixed {
                        self.scroll_scan_x(root, widget, i + 1)
                    } else if win.focus {
                        let h = win.bitmap.height();
                        let pos = self.calculate_position(root, child);
                        let bottom: u64 = pos.1 as u64 + h as u64;
                        if bottom > crate::display::DISPLAY_HEIGHT as u64 {
                            Some((bottom - crate::display::DISPLAY_HEIGHT as u64) as i32)
                        } else {
                            None
                        }
                    } else {
                        match self.find_scroll_shift(root, child) {
                            Some(s) => Some(s),
                            None => self.scroll_scan_x(root, widget, i + 1),
                        }
                    }
                },
            }
        }
    }

    fn blit_flow(
        &self,
        real_root: &Widget,
        cur: &Widget,
        frame: &mut Bitmap,
        shift: i32,
    )
        requires
            self.wf(),
            blit_ok(self.windows@, *real_root, *cur),
            old(frame).wf(),
            old(frame)@.len() <= i32::MAX,
            crate::bitmap::grid_w(old(frame)@) <= i32::MAX,
            0 <= shift,
        ensures
            final(frame).wf(),
            final(frame)@.len() == old(frame)@.len(),
            crate::bitmap::grid_w(final(frame)@) == crate::bitmap::grid_w(old(frame)@),
            final(frame)@ == blit_flow_spec(
                self.windows@,
                *real_root,
                *cur,
                old(frame)@,
                shift as int,
            ),
        decreases *cur, 0int, cur.kids().len() + 2int,
    {
        let pos = self.calculate_position(real_root, cur);
        match self.get(cur.windowid()) {
            Some(win) => {
                proof {
                    lemma_lookup_wf(self.windows@, cur.spec_windowid(), *self);
                }
                let py: i64 = pos.1 as i64 - shift as i64;
                frame.blit_clip(&win.bitmap, (pos.0 as i32, py as i32));
            },
            None => {
                proof {
                    assert(false);
                }
            },
        }
        let n = cur.num_children();
        let mut i: usize = 0;
        while i < n
            invariant
                i <= n,
                n == cur.kids().len(),
                self.wf(),
                blit_ok(self.windows@, *real_root, *cur),
                frame.wf(),
                frame@.len() == old(frame)@.len(),
                crate::bitmap::grid_w(frame@) == crate::bitmap::grid_w(old(frame)@),
                old(frame)@.len() <= i32::MAX,
                crate::bitmap::grid_w(old(frame)@) <= i32::MAX,
                0 <= shift,
                blit_flow_spec(self.windows@, *real_root, *cur, old(frame)@, shift as int)
                    == blit_flow_scan(self.windows@, *real_root, *cur, frame@, shift as int, i as int),
            decreases n - i,
        {
            let child = cur.child(i);
            if !self.is_fixed_position(child) {
                self.blit_flow(real_root, child, frame, shift);
            }
            i = i + 1;
        }
    }

    fn blit_overlays(&self, real_root: &Widget, cur: &Widget, frame: &mut Bitmap) -> (r: Result<
        (),
        ErrorKind,
    >)
        requires
            self.wf(),
            blit_ok(self.windows@, *real_root, *cur),
            old(frame).wf(),
            old(frame)@.len() <= i32::MAX,
            crate::bitmap::grid_w(old(frame)@) <= i32::MAX,
        ensures
            r is Ok,
            final(frame).wf(),
            final(frame)@.len() == old(frame)@.len(),
            crate::bitmap::grid_w(final(frame)@) == crate::bitmap::grid_w(old(frame)@),
            final(frame)@ == blit_overlays_spec(self.windows@, *real_root, *cur, old(frame)@),
        decreases *cur, 1int, cur.kids().len() + 2int,
    {
        let n = cur.num_children();
        let mut i: usize = 0;
        while i < n
            invariant
                i <= n,
                n == cur.kids().len(),
                self.wf(),
                blit_ok(self.windows@, *real_root, *cur),
                frame.wf(),
                frame@.len() == old(frame)@.len(),
                crate::bitmap::grid_w(frame@) == crate::bitmap::grid_w(old(frame)@),
                old(frame)@.len() <= i32::MAX,
                crate::bitmap::grid_w(old(frame)@) <= i32::MAX,
                blit_overlays_spec(self.windows@, *real_root, *cur, old(frame)@)
                    == blit_overlays_scan(self.windows@, *real_root, *cur, frame@, i as int),
            decreases n - i,
        {
            let child = cur.child(i);
            if self.is_fixed_position(child) {
                let res = self.do_blit(real_root, child, frame);
                match res {
                    Ok(_) => {},
                    Err(e) => {
                        return Err(e);
                    },
                }
            } else {
                let res = self.blit_overlays(real_root, child, frame);
                match res {
                    Ok(_) => {},
                    Err(e) => {
                        return Err(e);
                    },
                }
            }
            i = i + 1;
        }
        Ok(())
    }

    /// Composites the visible subtree onto `bitmap`: flow content first,
    /// shifted by the auto-scroll amount, then every fixed-positioned
    /// subtree as its own overlay pass, painted strictly after its flow
    /// siblings.  The frame's dimensions never change.
    pub fn do_blit(
        &self,
        real_root: &Widget,
        root: &Widget,
        bitmap: &mut Bitmap,
    ) -> (r: Result<(), ErrorKind>)
        requires
            self.wf(),
            blit_ok(self.windows@, *real_root, *root),
            old(bitmap).wf(),
            old(bitmap)@.len() <= i32::MAX,
            crate::bitmap::grid_w(old(bitmap)@) <= i32::MAX,
        ensures
            r is Ok,
            final(bitmap).wf(),
            final(bitmap)@.len() == old(bitmap)@.len(),
            crate::bitmap::grid_w(final(bitmap)@) == crate::bitmap::grid_w(old(bitmap)@),
            final(bitmap)@ == do_blit_spec(self.windows@, *real_root, *root, old(bitmap)@),
        decreases *root, 2int, 0int,
    {
        let shift = match self.find_scroll_shift(real_root, root) {
            Some(s) => s,
            None => 0,
        };
        self.blit_flow(real_root, root, bitmap, shift);
        self.blit_overlays(real_root, root, bitmap)
    }

    /// Runs the full render pipeline: refreshes every visible widget's
    /// cached bitmap, then composites the tree into one display-sized
    /// frame, auto-scrolled so the focused widget stays visible.
    pub fn render(
        &mut self,
        root: &Widget,
        ctx: &crate::context::Context,
    ) -> (r: Result<Bitmap, ErrorKind>)
        requires
            old(self).wf(),
            vis_distinct(*root),
            ctx.wf(),
        ensures
            final(self).wf(),
            same_windows_structure(*old(self), *final(self)),
            r is Ok <==> vis_registered(old(self).windows@, *root) && blit_ok(
                final(self).windows@,
                *root,
                *root,
            ),
            r matches Ok(frame) ==> {
                &&& frame@.len() == crate::display::DISPLAY_HEIGHT
                &&& crate::bitmap::grid_w(frame@) == crate::display::DISPLAY_WIDTH
                &&& frame.wf()
                &&& rendered_ok(final(self).windows@, *root, *ctx)
                &&& vis_registered(old(self).windows@, *root)
                &&& frame@ == do_blit_spec(
                    final(self).windows@,
                    *root,
                    *root,
                    crate::bitmap::zero_grid(
                        crate::display::DISPLAY_WIDTH as nat,
                        crate::display::DISPLAY_HEIGHT as nat,
                    ),
                )
            },
    {
        match self.do_render(root, ctx) {
            Ok(_) => {},
            Err(e) => {
                return Err(e);
            },
        }
        if !self.blit_ready(root, root) {
            return Err(ErrorKind::Msg("layout exceeds machine bounds".to_owned()));
        }
        let mut frame = Bitmap::new(crate::display::DISPLAY_WIDTH, crate::display::DISPLAY_HEIGHT);
        proof {
            assert(frame@.len() == crate::display::DISPLAY_HEIGHT);
            assert(crate::bitmap::grid_w(frame@) == crate::display::DISPLAY_WIDTH);
        }
        match self.do_blit(root, root, &mut frame) {
            Ok(_) => {},
            Err(e) => {
                return Err(e);
            },
        }
        Ok(frame)
    }
}

/// A registered window's cached bitmap is rectangular.
pub proof fn lemma_lookup_wf(s: Seq<Window>, id: WindowId, dm: DisplayManager)
    requires
        dm.wf(),
        s == dm.windows@,
        lookup(s, id) is Some,
    ensures
        lookup(s, id).unwrap().bitmap.wf(),
{
    lemma_lookup_witness(s, id);
}

/// A structural change a widget's action handler asks for: attaching a
/// freshly built subtree at an index (clamped to the end), dropping the
/// child whose window carries an id, dropping every child, or dropping
/// the drive child of a given name.  A dropped subtree is detached from
/// the host first.
pub enum TreeEdit {
    InsertChild(usize, Widget),
    RemoveChildById(WindowId),
    ClearChildren,
    RemoveDrive(String),
}

/// The registry only grew: every old window keeps its id, position,
/// cached bitmap and stacking slot; ids already handed out stay handed
/// out.  Focus flags may move.
pub open spec fn dm_extends(a: DisplayManager, b: DisplayManager) -> bool {
    &&& b.nextid >= a.nextid
    &&& b.windows@.len() >= a.windows@.len()
    &&& forall|i: int|
        0 <= i < a.windows@.len() ==> {
            &&& (#[trigger] b.windows@[i].id) == a.windows@[i].id
            &&& b.windows@[i].position == a.windows@[i].position
            &&& b.windows@[i].bitmap == a.windows@[i].bitmap
            &&& b.windows@[i].z == a.windows@[i].z
        }
}

/// Growth composes.
pub proof fn lemma_dm_extends_trans(a: DisplayManager, b: DisplayManager, c: DisplayManager)
    requires
        dm_extends(a, b),
        dm_extends(b, c),
    ensures
        dm_extends(a, c),
{
    assert forall|i: int| 0 <= i < a.windows@.len() implies {
        &&& (#[trigger] c.windows@[i].id) == a.windows@[i].id
        &&& c.windows@[i].position == a.windows@[i].position
        &&& c.windows@[i].bitmap == a.windows@[i].bitmap
        &&& c.windows@[i].z == a.windows@[i].z
    } by {
        assert(b.windows@[i].id == a.windows@[i].id);
        assert(c.windows@[i].id == b.windows@[i].id);
    }
}

/// What every action handler may do to its surroundings: grow the
/// registry, keep a single focused window focused somewhere, and only
/// append to the host-work queue.
pub open spec fn handler_frame(
    dm0: DisplayManager,
    dm1: DisplayManager,
    cx0: crate::context::Context,
    cx1: crate::context::Context,
) -> bool {
    &&& dm1.wf()
    &&& dm_extends(dm0, dm1)
    &&& (dm0.focus_unique() && dm0.some_focused() ==> dm1.focus_unique() && dm1.some_focused())
    &&& cx0.ops@.is_prefix_of(cx1.ops@)
    &&& (cx0.wf() ==> cx1.wf())
}

/// The handler frame composes.
pub proof fn lemma_handler_frame_trans(
    dm0: DisplayManager,
    dm1: DisplayManager,
    dm2: DisplayManager,
    cx0: crate::context::Context,
    cx1: crate::context::Context,
    cx2: crate::context::Context,
)
    requires
        handler_frame(dm0, dm1, cx0, cx1),
        handler_frame(dm1, dm2, cx1, cx2),
    ensures
        handler_frame(dm0, dm2, cx0, cx2),
{
    lemma_dm_extends_trans(dm0, dm1, dm2);
    assert(cx0.ops@.is_prefix_of(cx2.ops@)) by {
        assert(forall|i: int|
            0 <= i < cx0.ops@.len() ==> cx0.ops@[i] == cx1.ops@[i] && cx1.ops@[i] == cx2.ops@[i]);
    }
}

/// The claim-relevant state of one widget: everything that decides which
/// actions its handler consumes.
pub enum ClaimSig {
    ImageRow(WindowId),
    DriveRow(WindowId),
    ListRow(WindowId),
    NewDriveRow,
    SizeRow,
    FormatRow(bool),
    VersionRow,
    WifiRow,
    ClientRow,
    ConnectionRow,
    ApRow,
    ApStartRow,
    RootRow,
    Inert,
}

/// Projects a widget's state onto what decides its claims; for the
/// format menu that includes whether it is still selecting.
pub open spec fn claim_sig(k: WidgetKind) -> ClaimSig {
    match k {
        WidgetKind::IsoImage(s) => ClaimSig::ImageRow(s.window),
        WidgetKind::Drive(s) => ClaimSig::DriveRow(s.window),
        WidgetKind::DriveList(s) => ClaimSig::ListRow(s.window),
        WidgetKind::NewDrive(_) => ClaimSig::NewDriveRow,
        WidgetKind::SizeMenu(_) => ClaimSig::SizeRow,
        WidgetKind::FormatMenu(s) => ClaimSig::FormatRow(s.state is Selecting),
        WidgetKind::VersionMenu(_) => ClaimSig::VersionRow,
        WidgetKind::WifiMenu(_) => ClaimSig::WifiRow,
        WidgetKind::WifiClient(_) => ClaimSig::ClientRow,
        WidgetKind::WifiConnection(_) => ClaimSig::ConnectionRow,
        WidgetKind::WifiAp(_) => ClaimSig::ApRow,
        WidgetKind::WifiApStartup(_) => ClaimSig::ApStartRow,
        WidgetKind::Piso(_) => ClaimSig::RootRow,
        _ => ClaimSig::Inert,
    }
}

/// Whether a widget with this claim state consumes the offered action
/// (also when its handler then fails: a failing pairing still leaves the
/// pending list).
pub open spec fn sig_claims(sig: ClaimSig, a: crate::action::Action) -> bool {
    match sig {
        ClaimSig::ImageRow(w) => a matches crate::action::Action::ToggleIsoMount(id) && id == w,
        ClaimSig::DriveRow(w) => a matches crate::action::Action::ToggleVDriveMount(id) && id == w,
        ClaimSig::ListRow(w) => (a matches crate::action::Action::OpenVDriveList(id) && id == w)
            || (a matches crate::action::Action::CloseVDriveList(id2) && id2 == w),
        ClaimSig::NewDriveRow => a is OpenSizeMenu || a is CloseFormatMenu,
        ClaimSig::SizeRow => a is IncDriveSize || a is DecDriveSize || a is OpenFormatMenu
            || a is CloseFormatMenu,
        ClaimSig::FormatRow(selecting) => !selecting && a is FormatDrive,
        ClaimSig::VersionRow => a is OpenVersion || a is CloseVersion,
        ClaimSig::WifiRow => a is OpenWifiMenu || a is CloseWifiMenu,
        ClaimSig::ClientRow => a is OpenWifiClientConnectionMenu
            || a is CloseWifiClientConnectionMenu,
        ClaimSig::ConnectionRow => a is WifiClientConnect,
        ClaimSig::ApRow => a is OpenWifiApStartupMenu || a is CloseWifiApStartupMenu,
        ClaimSig::ApStartRow => a is WifiApStartup,
        ClaimSig::RootRow => a is FlipDisplay || a is CreateDrive || a is SnapshotDrive
            || a is DeleteDrive || a is ToggleDriveReadOnly || a is ToggleDriveNonRemovable,
        ClaimSig::Inert => false,
    }
}

/// How one offered action changes the claim state: a selecting format
/// menu moves to its formatting step when the format action passes by
/// unconsumed; nothing else a handler does changes what it claims.
pub open spec fn sig_step(sig: ClaimSig, a: crate::action::Action) -> ClaimSig {
    if sig == ClaimSig::FormatRow(true) && a is FormatDrive {
        ClaimSig::FormatRow(false)
    } else {
        sig
    }
}

/// The pending actions a widget leaves after being offered a list, in
/// order: exactly those it did not consume.
pub open spec fn offer_kept(sig: ClaimSig, acts: Seq<crate::action::Action>) -> Seq<
    crate::action::Action,
>
    decreases acts.len(),
{
    if acts.len() == 0 {
        Seq::empty()
    } else if sig_claims(sig, acts[0]) {
        offer_kept(sig_step(sig, acts[0]), acts.drop_first())
    } else {
        seq![acts[0]] + offer_kept(sig_step(sig, acts[0]), acts.drop_first())
    }
}

/// The pending actions one full pre-order sweep of the subtree leaves:
/// the widget itself is offered the list first, then each visible child's
/// subtree in order takes what remains.
pub open spec fn tree_offer(w: Widget, acts: Seq<crate::action::Action>) -> Seq<
    crate::action::Action,
>
    decreases w, w.kids().len() + 1int,
{
    tree_offer_kids(w, offer_kept(claim_sig(w.kind), acts), 0)
}

pub open spec fn tree_offer_kids(w: Widget, acts: Seq<crate::action::Action>, i: int) -> Seq<
    crate::action::Action,
>
    decreases w, w.kids().len() - i,
{
    if i < 0 || i >= w.kids().len() {
        acts
    } else {
        tree_offer_kids(w, tree_offer(w.kids()[i], acts), i + 1)
    }
}

/// The follow-ups one consumed action adds to the side buffer: the
/// access-point startup chain and a completing format menu always emit
/// theirs; the connection and startup openers emit theirs when the page
/// was built (an open that failed for want of window ids emits
/// nothing); every other consumed action emits nothing.
pub open spec fn chunk_ok(
    sig: ClaimSig,
    a: crate::action::Action,
    chunk: Seq<crate::action::Action>,
) -> bool {
    if sig == ClaimSig::ApStartRow && a is WifiApStartup {
        chunk.len() == 1 && chunk[0] is CloseWifiApStartupMenu
    } else if sig == ClaimSig::FormatRow(false) && a is FormatDrive {
        chunk.len() == 2 && chunk[0] is CloseFormatMenu && chunk[1] is CreateDrive
    } else if sig == ClaimSig::ClientRow && a is OpenWifiClientConnectionMenu {
        (chunk.len() == 1 && chunk[0] is WifiClientConnect) || chunk.len() == 0
    } else if sig == ClaimSig::ApRow && a is OpenWifiApStartupMenu {
        (chunk.len() == 1 && chunk[0] is WifiApStartup) || chunk.len() == 0
    } else {
        chunk.len() == 0
    }
}

/// The side-buffer tail one widget's offer of a list produces: one chunk
/// per consumed action, in offer order, nothing for the rest.
pub open spec fn offer_tail_ok(
    sig: ClaimSig,
    acts: Seq<crate::action::Action>,
    tail: Seq<crate::action::Action>,
) -> bool
    decreases acts.len(),
{
    if acts.len() == 0 {
        tail.len() == 0
    } else if sig_claims(sig, acts[0]) {
        exists|n: int|
            #![auto]
            0 <= n <= tail.len() && chunk_ok(sig, acts[0], tail.take(n)) && offer_tail_ok(
                sig_step(sig, acts[0]),
                acts.drop_first(),
                tail.skip(n),
            )
    } else {
        offer_tail_ok(sig_step(sig, acts[0]), acts.drop_first(), tail)
    }
}

/// The side-buffer tail one full pre-order sweep of the subtree
/// produces: the widget's own chunks first, then each visible child's
/// subtree in order, working on what the earlier offers kept.
pub open spec fn tree_tail_ok(
    w: Widget,
    acts: Seq<crate::action::Action>,
    tail: Seq<crate::action::Action>,
) -> bool
    decreases w, w.kids().len() + 1int,
{
    exists|n: int|
        #![auto]
        0 <= n <= tail.len() && offer_tail_ok(claim_sig(w.kind), acts, tail.take(n))
            && tree_tail_kids_ok(w, offer_kept(claim_sig(w.kind), acts), tail.skip(n), 0)
}

pub open spec fn tree_tail_kids_ok(
    w: Widget,
    acts: Seq<crate::action::Action>,
    tail: Seq<crate::action::Action>,
    i: int,
) -> bool
    decreases w, w.kids().len() - i,
{
    if i < 0 || i >= w.kids().len() {
        tail.len() == 0
    } else {
        exists|n: int|
            #![auto]
            0 <= n <= tail.len() && tree_tail_ok(w.kids()[i], acts, tail.take(n))
                && tree_tail_kids_ok(w, tree_offer(w.kids()[i], acts), tail.skip(n), i + 1)
    }
}

/// A consumed action's chunk joins the front of a valid tail.
pub proof fn lemma_offer_tail_step(
    sig: ClaimSig,
    a: crate::action::Action,
    rest: Seq<crate::action::Action>,
    chunk: Seq<crate::action::Action>,
    ft: Seq<crate::action::Action>,
)
    requires
        sig_claims(sig, a),
        chunk_ok(sig, a, chunk),
        offer_tail_ok(sig_step(sig, a), rest, ft),
    ensures
        offer_tail_ok(sig, seq![a] + rest, chunk + ft),
{
    let full = seq![a] + rest;
    let tail = chunk + ft;
    assert(full[0] == a);
    assert(full.drop_first() =~= rest);
    assert(tail.take(chunk.len() as int) =~= chunk);
    assert(tail.skip(chunk.len() as int) =~= ft);
    assert(0 <= chunk.len() <= tail.len() && chunk_ok(sig, full[0], tail.take(chunk.len() as int))
        && offer_tail_ok(sig_step(sig, full[0]), full.drop_first(), tail.skip(chunk.len() as int)));
}

/// An unconsumed action passes the tail through.
pub proof fn lemma_offer_tail_unclaimed(
    sig: ClaimSig,
    a: crate::action::Action,
    rest: Seq<crate::action::Action>,
    ft: Seq<crate::action::Action>,
)
    requires
        !sig_claims(sig, a),
        offer_tail_ok(sig_step(sig, a), rest, ft),
    ensures
        offer_tail_ok(sig, seq![a] + rest, ft),
{
    let full = seq![a] + rest;
    assert(full[0] == a);
    assert(full.drop_first() =~= rest);
}

/// One child's tail joins the front of the later children's tail.
pub proof fn lemma_kids_tail_step(
    w: Widget,
    acts: Seq<crate::action::Action>,
    e: Seq<crate::action::Action>,
    ft: Seq<crate::action::Action>,
    i: int,
)
    requires
        0 <= i < w.kids().len(),
        tree_tail_ok(w.kids()[i], acts, e),
        tree_tail_kids_ok(w, tree_offer(w.kids()[i], acts), ft, i + 1),
    ensures
        tree_tail_kids_ok(w, acts, e + ft, i),
{
    let tail = e + ft;
    assert(tail.take(e.len() as int) =~= e);
    assert(tail.skip(e.len() as int) =~= ft);
    assert(0 <= e.len() <= tail.len() && tree_tail_ok(w.kids()[i], acts, tail.take(e.len() as int))
        && tree_tail_kids_ok(w, tree_offer(w.kids()[i], acts), tail.skip(e.len() as int), i + 1));
}

/// Whether a widget kind currently shows its children.
pub open spec fn kind_expanded(k: WidgetKind) -> bool {
    match k {
        WidgetKind::Options(o) => o.open,
        _ => true,
    }
}

/// The follow-up actions a successful handler emits for a consumed
/// action: the connection and startup menus chain their close and
/// connect steps, and a completing format menu asks for the freshly
/// decided volume to become a drive.
pub open spec fn action_emission_ok(
    k: WidgetKind,
    cx: crate::context::Context,
    a: crate::action::Action,
    out: Seq<crate::action::Action>,
) -> bool {
    if k is WifiClient && a is OpenWifiClientConnectionMenu {
        out == seq![crate::action::Action::WifiClientConnect]
    } else if k is WifiAp && a is OpenWifiApStartupMenu {
        out == seq![crate::action::Action::WifiApStartup]
    } else if k is WifiApStartup && a is WifiApStartup {
        out == seq![crate::action::Action::CloseWifiApStartupMenu]
    } else if (k matches WidgetKind::FormatMenu(s) && !(s.state is Selecting)) && a is FormatDrive {
        exists|v: crate::lvm::LogicalVolume|
            {
                &&& out == seq![
                    crate::action::Action::CloseFormatMenu,
                    crate::action::Action::CreateDrive(v),
                ]
                &&& v.name@ == "Drive"@ + crate::utils::dec_seq(cx.vg.volumes@.len())
                &&& v.path@ == cx.vg.path@ + seq!['/'] + v.name@
                &&& (k matches WidgetKind::FormatMenu(s2) && v.size == s2.size)
            }
    } else {
        out.len() == 0
    }
}

/// The structural edits a successful handler asks for, for a consumed
/// action: open steps attach exactly the page they built, close steps
/// drop the page they remember, a drive toggle clears or attaches image
/// children, and the root attaches or drops drive rows.
pub open spec fn action_edits_ok(
    k: WidgetKind,
    a: crate::action::Action,
    edits: Seq<TreeEdit>,
) -> bool {
    match k {
        WidgetKind::Drive(s) => {
            if a == crate::action::Action::ToggleVDriveMount(s.window) {
                match s.state {
                    crate::vdrive::MountState::Unmounted => edits.len() == 0,
                    crate::vdrive::MountState::Internal(_) => edits == seq![
                        TreeEdit::ClearChildren,
                    ],
                    crate::vdrive::MountState::External(_) => forall|i: int|
                        0 <= i < edits.len() ==> ((#[trigger] edits[i]) matches TreeEdit::InsertChild(
                            _,
                            w,
                        ) && w.kind is IsoImage),
                }
            } else {
                edits.len() == 0
            }
        },
        WidgetKind::DriveList(s) => {
            if a == crate::action::Action::OpenVDriveList(s.window) {
                edits.len() == 1 && (edits[0] matches TreeEdit::InsertChild(_, w)
                    && w.kind is DriveSelector)
            } else if a == crate::action::Action::CloseVDriveList(s.window) {
                match s.open_page {
                    Some(p) => edits == seq![TreeEdit::RemoveChildById(p)],
                    None => edits.len() == 0,
                }
            } else {
                edits.len() == 0
            }
        },
        WidgetKind::NewDrive(s) => {
            if a is OpenSizeMenu {
                edits.len() == 1 && (edits[0] matches TreeEdit::InsertChild(_, w)
                    && w.kind is SizeMenu)
            } else if a is CloseFormatMenu {
                match s.menu {
                    Some(p) => edits == seq![TreeEdit::RemoveChildById(p)],
                    None => edits.len() == 0,
                }
            } else {
                edits.len() == 0
            }
        },
        WidgetKind::SizeMenu(s) => {
            if a is OpenFormatMenu {
                edits.len() == 1 && (edits[0] matches TreeEdit::InsertChild(_, w)
                    && w.kind is FormatMenu)
            } else if a is CloseFormatMenu {
                match s.menu {
                    Some(p) => edits == seq![TreeEdit::RemoveChildById(p)],
                    None => edits.len() == 0,
                }
            } else {
                edits.len() == 0
            }
        },
        WidgetKind::VersionMenu(s) => {
            if a is OpenVersion {
                edits.len() == 1 && (edits[0] matches TreeEdit::InsertChild(_, w)
                    && w.kind is VersionInfo)
            } else if a is CloseVersion {
                match s.open {
                    Some(p) => edits == seq![TreeEdit::RemoveChildById(p)],
                    None => edits.len() == 0,
                }
            } else {
                edits.len() == 0
            }
        },
        WidgetKind::WifiMenu(s) => {
            if a is OpenWifiMenu {
                edits.len() == 1 && (edits[0] matches TreeEdit::InsertChild(_, w)
                    && w.kind is WifiSelect)
            } else if a is CloseWifiMenu {
                match s.open {
                    Some(p) => edits == seq![TreeEdit::RemoveChildById(p)],
                    None => edits.len() == 0,
                }
            } else {
                edits.len() == 0
            }
        },
        WidgetKind::WifiClient(s) => {
            if a is OpenWifiClientConnectionMenu {
                edits.len() == 1 && (edits[0] matches TreeEdit::InsertChild(_, w)
                    && w.kind is WifiConnection)
            } else if a is CloseWifiClientConnectionMenu {
                match s.menu {
                    Some(p) => edits == seq![TreeEdit::RemoveChildById(p)],
                    None => edits.len() == 0,
                }
            } else {
                edits.len() == 0
            }
        },
        WidgetKind::WifiAp(s) => {
            if a is OpenWifiApStartupMenu {
                edits.len() == 1 && (edits[0] matches TreeEdit::InsertChild(_, w)
                    && w.kind is WifiApStartup)
            } else if a is CloseWifiApStartupMenu {
                match s.menu {
                    Some(p) => edits == seq![TreeEdit::RemoveChildById(p)],
                    None => edits.len() == 0,
                }
            } else {
                edits.len() == 0
            }
        },
        WidgetKind::Piso(_) => {
            match a {
                crate::action::Action::CreateDrive(_) => edits.len() == 1 && (
                edits[0] matches TreeEdit::InsertChild(at, w) && at == 0 && w.kind is Drive),
                crate::action::Action::SnapshotDrive(_) => edits.len() == 1 && (
                edits[0] matches TreeEdit::InsertChild(at, w) && at == 0 && w.kind is Drive),
                crate::action::Action::DeleteDrive(nm) => edits == seq![TreeEdit::RemoveDrive(nm)],
                _ => edits.len() == 0,
            }
        },
        _ => edits.len() == 0,
    }
}

/// One widget's answer to an offered action, decided over its
/// kind-specific state alone: whether it consumed the action, the
/// follow-up actions it emitted, and the structural edits to apply to its
/// children.  An error is reported but never unseats the surroundings.
pub fn widget_do_action(
    k: &mut WidgetKind,
    disp: &mut DisplayManager,
    ctx: &mut crate::context::Context,
    action: &crate::action::Action,
) -> (r: Result<(bool, Vec<crate::action::Action>, Vec<TreeEdit>), ErrorKind>)
    requires
        old(disp).wf(),
    ensures
        handler_frame(*old(disp), *final(disp), *old(ctx), *final(ctx)),
        kind_windowid(*final(k)) == kind_windowid(*old(k)),
        // consumption is decided by the widget's claim state, also when
        // the handler then fails
        r matches Ok(t) ==> t.0 == sig_claims(claim_sig(*old(k)), *action),
        r is Err ==> sig_claims(claim_sig(*old(k)), *action),
        claim_sig(*final(k)) == sig_step(claim_sig(*old(k)), *action),
        kind_expanded(*final(k)) == kind_expanded(*old(k)),
        // a consumed toggle drives its state machine: the image and drive
        // rows end in the state and with the gadget changes their own
        // toggle contracts give
        *old(k) matches WidgetKind::IsoImage(s0) ==> (*action
            == crate::action::Action::ToggleIsoMount(s0.window)
            ==> (*final(k) matches WidgetKind::IsoImage(s1) && crate::iso::toggle_frame(
            s0,
            s1,
            old(ctx).usb,
            final(ctx).usb,
        ))),
        *old(k) matches WidgetKind::Drive(s0) ==> (*action
            == crate::action::Action::ToggleVDriveMount(s0.window)
            ==> (*final(k) matches WidgetKind::Drive(s1) && crate::vdrive::toggle_frame(
            s0,
            s1,
            *old(ctx),
            *final(ctx),
            r is Ok,
        ))),
        // what a successful handler emits and which edits it asks for
        r matches Ok(t) ==> (t.0 ==> action_emission_ok(*old(k), *old(ctx), *action, t.1@)),
        r matches Ok(t) ==> (t.0 ==> chunk_ok(claim_sig(*old(k)), *action, t.1@)),
        // a failing handler emits nothing, and the chains that always
        // emit never fail
        r is Err ==> chunk_ok(claim_sig(*old(k)), *action, Seq::empty()),
        r matches Ok(t) ==> action_edits_ok(*old(k), *action, t.2@),
        // an action the widget does not consume emits nothing and asks
        // for no edits
        r matches Ok(t) ==> (!t.0 ==> t.1@.len() == 0 && t.2@.len() == 0),
        // and, except for the format menu's intermediate redraw step,
        // leaves widget, registry and context untouched
        r matches Ok(t) ==> ((!t.0 && !(*old(k) is FormatMenu)) ==> *final(k) == *old(k)
            && *final(disp) == *old(disp) && *final(ctx) == *old(ctx)),
{
    proof {
        lemma_prefix_refl(ctx.ops@);
    }
    let nothing: Result<(bool, Vec<crate::action::Action>, Vec<TreeEdit>), ErrorKind> = Ok(
        (false, Vec::new(), Vec::new()),
    );
    match k {
        WidgetKind::IsoImage(s) => {
            match action {
                crate::action::Action::ToggleIsoMount(id) => {
                    if *id == s.window {
                        match s.toggle_mount(&mut ctx.usb) {
                            Ok(_) => Ok((true, Vec::new(), Vec::new())),
                            Err(e) => Err(e),
                        }
                    } else {
                        nothing
                    }
                },
                _ => nothing,
            }
        },
        WidgetKind::Drive(s) => {
            match action {
                crate::action::Action::ToggleVDriveMount(id) => {
                    if *id == s.window {
                        match s.toggle_mount(disp, ctx) {
                            Ok(edits) => Ok((true, Vec::new(), edits)),
                            Err(e) => Err(e),
                        }
                    } else {
                        nothing
                    }
                },
                _ => nothing,
            }
        },
        WidgetKind::DriveList(s) => {
            match action {
                crate::action::Action::OpenVDriveList(id) => {
                    if *id == s.window {
                        let page = match crate::buttons::vdrivelist::DriveListSelector::new(
                            disp,
                            ctx,
                            s.window,
                            s.mark,
                            s.autoclose,
                        ) {
                            Ok(p) => p,
                            Err(e) => {
                                return Err(e);
                            },
                        };
                        s.open_page = Some(page.windowid());
                        let mut edits: Vec<TreeEdit> = Vec::new();
                        edits.push(TreeEdit::InsertChild(usize::MAX, page));
                        proof {
                            assert(edits@.len() == 1);
                        }
                        Ok((true, Vec::new(), edits))
                    } else {
                        nothing
                    }
                },
                crate::action::Action::CloseVDriveList(id) => {
                    if *id == s.window {
                        let mut edits: Vec<TreeEdit> = Vec::new();
                        match s.open_page {
                            Some(pid) => {
                                edits.push(TreeEdit::RemoveChildById(pid));
                                proof {
                                    assert(edits@ =~= seq![TreeEdit::RemoveChildById(pid)]);
                                }
                            },
                            None => {},
                        }
                        s.open_page = None;
                        let _ = disp.focus_window(s.window);
                        Ok((true, Vec::new(), edits))
                    } else {
                        nothing
                    }
                },
                _ => nothing,
            }
        },
        WidgetKind::NewDrive(s) => {
            match action {
                crate::action::Action::OpenSizeMenu => {
                    let menu = match crate::newdrive::DriveSize::new(disp, &s.config, ctx.vg.size) {
                        Ok(m) => m,
                        Err(e) => {
                            return Err(e);
                        },
                    };
                    let ghost d1 = *disp;
                    let mid = menu.windowid();
                    let _ = disp.focus_window(mid);
                    proof {
                        lemma_dm_extends_trans(*old(disp), d1, *disp);
                    }
                    s.menu = Some(mid);
                    let mut edits: Vec<TreeEdit> = Vec::new();
                    edits.push(TreeEdit::InsertChild(usize::MAX, menu));
                    Ok((true, Vec::new(), edits))
                },
                crate::action::Action::CloseFormatMenu => {
                    let mut edits: Vec<TreeEdit> = Vec::new();
                    match s.menu {
                        Some(mid) => {
                            edits.push(TreeEdit::RemoveChildById(mid));
                            proof {
                                assert(edits@ =~= seq![TreeEdit::RemoveChildById(mid)]);
                            }
                        },
                        None => {},
                    }
                    s.menu = None;
                    let _ = disp.focus_window(s.window);
                    Ok((true, Vec::new(), edits))
                },
                _ => nothing,
            }
        },
        WidgetKind::SizeMenu(s) => {
            match action {
                crate::action::Action::IncDriveSize => {
                    if s.current_percent <= u32::MAX - s.size_step {
                        s.current_percent = s.current_percent + s.size_step;
                    } else {
                        s.current_percent = u32::MAX;
                    }
                    Ok((true, Vec::new(), Vec::new()))
                },
                crate::action::Action::DecDriveSize => {
                    if s.current_percent >= s.size_step {
                        s.current_percent = s.current_percent - s.size_step;
                    } else {
                        s.current_percent = 0;
                    }
                    Ok((true, Vec::new(), Vec::new()))
                },
                crate::action::Action::OpenFormatMenu => {
                    let size = s.current_size();
                    let menu = match crate::newdrive::DriveFormat::new(disp, size) {
                        Ok(m) => m,
                        Err(e) => {
                            return Err(e);
                        },
                    };
                    let ghost d1 = *disp;
                    let mid = menu.windowid();
                    let _ = disp.focus_window(mid);
                    proof {
                        lemma_dm_extends_trans(*old(disp), d1, *disp);
                    }
                    s.menu = Some(mid);
                    let mut edits: Vec<TreeEdit> = Vec::new();
                    edits.push(TreeEdit::InsertChild(usize::MAX, menu));
                    Ok((true, Vec::new(), edits))
                },
                crate::action::Action::CloseFormatMenu => {
                    let mut edits: Vec<TreeEdit> = Vec::new();
                    match s.menu {
                        Some(mid) => {
                            edits.push(TreeEdit::RemoveChildById(mid));
                            proof {
                                assert(edits@ =~= seq![TreeEdit::RemoveChildById(mid)]);
                            }
                        },
                        None => {},
                    }
                    s.menu = None;
                    Ok((true, Vec::new(), edits))
                },
                _ => nothing,
            }
        },
        WidgetKind::FormatMenu(s) => {
            match action {
                crate::action::Action::FormatDrive => {
                    match s.state {
                        crate::newdrive::DriveFormatState::Selecting => {
                            s.state = crate::newdrive::DriveFormatState::Formatting;
                            Ok((false, Vec::new(), Vec::new()))
                        },
                        _ => {
                            let count = ctx.vg.volumes.len();
                            let mut name = "Drive".to_owned();
                            let count64: u64 = count as u64;
                            let num = crate::utils::u64_to_dec(count64);
                            name.append(num.as_str());
                            let volume = match ctx.vg.create_volume(name.as_str(), s.size) {
                                Ok(v) => v,
                                Err(e) => {
                                    return Err(e);
                                },
                            };
                            let ghost cx1 = *ctx;
                            let op = crate::context::HostOp::CreateVolume {
                                name: name.clone(),
                                size: s.size,
                            };
                            proof {
                                lemma_prefix_push(ctx.ops@, op);
                            }
                            ctx.ops.push(op);
                            let ghost cx2 = *ctx;
                            let fres = crate::newdrive::DriveFormat::format_volume(
                                &volume,
                                s.selected,
                                name.as_str(),
                                &mut ctx.ops,
                            );
                            proof {
                                assert(old(ctx).ops@.is_prefix_of(ctx.ops@)) by {
                                    assert(forall|j: int|
                                        0 <= j < old(ctx).ops@.len() ==> old(ctx).ops@[j]
                                            == cx2.ops@[j] && cx2.ops@[j] == ctx.ops@[j]);
                                }
                            }
                            match fres {
                                Ok(_) => {},
                                Err(e) => {
                                    return Err(e);
                                },
                            }
                            s.state = crate::newdrive::DriveFormatState::Done;
                            let mut acts: Vec<crate::action::Action> = Vec::new();
                            acts.push(crate::action::Action::CloseFormatMenu);
                            let ghost vol = volume;
                            acts.push(crate::action::Action::CreateDrive(volume));
                            proof {
                                assert(acts@ =~= seq![
                                    crate::action::Action::CloseFormatMenu,
                                    crate::action::Action::CreateDrive(vol),
                                ]);
                                assert(vol.name@ == "Drive"@ + crate::utils::dec_seq(
                                    old(ctx).vg.volumes@.len(),
                                ));
                            }
                            Ok((true, acts, Vec::new()))
                        },
                    }
                },
                _ => nothing,
            }
        },
        WidgetKind::VersionMenu(s) => {
            match action {
                crate::action::Action::OpenVersion => {
                    let page = match crate::version::OpenVersionMenu::new(
                        disp,
                        s.version_text.clone(),
                    ) {
                        Ok(p) => p,
                        Err(e) => {
                            return Err(e);
                        },
                    };
                    let ghost d1 = *disp;
                    let pid = page.windowid();
                    let _ = disp.focus_window(pid);
                    proof {
                        lemma_dm_extends_trans(*old(disp), d1, *disp);
                    }
                    s.open = Some(pid);
                    let mut edits: Vec<TreeEdit> = Vec::new();
                    edits.push(TreeEdit::InsertChild(usize::MAX, page));
                    Ok((true, Vec::new(), edits))
                },
                crate::action::Action::CloseVersion => {
                    let mut edits: Vec<TreeEdit> = Vec::new();
                    match s.open {
                        Some(pid) => {
                            edits.push(TreeEdit::RemoveChildById(pid));
                            proof {
                                assert(edits@ =~= seq![TreeEdit::RemoveChildById(pid)]);
                            }
                        },
                        None => {},
                    }
                    s.open = None;
                    let _ = disp.focus_window(s.window);
                    Ok((true, Vec::new(), edits))
                },
                _ => nothing,
            }
        },
        WidgetKind::WifiMenu(s) => {
            match action {
                crate::action::Action::OpenWifiMenu => {
                    let page = match crate::wifi::SelectWifiMenu::new(disp, &s.config) {
                        Ok(p) => p,
                        Err(e) => {
                            return Err(e);
                        },
                    };
                    s.open = Some(page.windowid());
                    let mut edits: Vec<TreeEdit> = Vec::new();
                    edits.push(TreeEdit::InsertChild(usize::MAX, page));
                    Ok((true, Vec::new(), edits))
                },
                crate::action::Action::CloseWifiMenu => {
                    let mut edits: Vec<TreeEdit> = Vec::new();
                    match s.open {
                        Some(pid) => {
                            edits.push(TreeEdit::RemoveChildById(pid));
                            proof {
                                assert(edits@ =~= seq![TreeEdit::RemoveChildById(pid)]);
                            }
                        },
                        None => {},
                    }
                    s.open = None;
                    let _ = disp.focus_window(s.windowid);
                    Ok((true, Vec::new(), edits))
                },
                _ => nothing,
            }
        },
        WidgetKind::WifiClient(s) => {
            match action {
                crate::action::Action::OpenWifiClientConnectionMenu => {
                    let page = match crate::wifi::WifiClientConnectionMenu::new(disp, s.id) {
                        Ok(p) => p,
                        Err(e) => {
                            return Err(e);
                        },
                    };
                    let ghost d1 = *disp;
                    let pid = page.windowid();
                    let _ = disp.focus_window(pid);
                    proof {
                        lemma_dm_extends_trans(*old(disp), d1, *disp);
                    }
                    s.menu = Some(pid);
                    let mut edits: Vec<TreeEdit> = Vec::new();
                    edits.push(TreeEdit::InsertChild(usize::MAX, page));
                    let mut acts: Vec<crate::action::Action> = Vec::new();
                    acts.push(crate::action::Action::WifiClientConnect);
                    proof {
                        assert(acts@ =~= seq![crate::action::Action::WifiClientConnect]);
                    }
                    Ok((true, acts, edits))
                },
                crate::action::Action::CloseWifiClientConnectionMenu => {
                    let mut edits: Vec<TreeEdit> = Vec::new();
                    match s.menu {
                        Some(pid) => {
                            edits.push(TreeEdit::RemoveChildById(pid));
                            proof {
                                assert(edits@ =~= seq![TreeEdit::RemoveChildById(pid)]);
                            }
                        },
                        None => {},
                    }
                    s.menu = None;
                    let _ = disp.focus_window(s.windowid);
                    Ok((true, Vec::new(), edits))
                },
                _ => nothing,
            }
        },
        WidgetKind::WifiConnection(s) => {
            match action {
                crate::action::Action::WifiClientConnect => {
                    match s.state {
                        crate::wifi::WifiConnectionState::Ready => {
                            let _ = ctx.wifi.toggle_client(s.id);
                            let mut message = "Connected: ".to_owned();
                            message.append(ctx.wifi.client_ip.as_str());
                            s.message = message;
                            s.state = crate::wifi::WifiConnectionState::Connected;
                        },
                        _ => {},
                    }
                    Ok((true, Vec::new(), Vec::new()))
                },
                _ => nothing,
            }
        },
        WidgetKind::WifiAp(s) => {
            match action {
                crate::action::Action::OpenWifiApStartupMenu => {
                    let page = match crate::wifi::WifiApStartupMenu::new(disp) {
                        Ok(p) => p,
                        Err(e) => {
                            return Err(e);
                        },
                    };
                    let ghost d1 = *disp;
                    let pid = page.windowid();
                    let _ = disp.focus_window(pid);
                    proof {
                        lemma_dm_extends_trans(*old(disp), d1, *disp);
                    }
                    s.menu = Some(pid);
                    let mut edits: Vec<TreeEdit> = Vec::new();
                    edits.push(TreeEdit::InsertChild(usize::MAX, page));
                    let mut acts: Vec<crate::action::Action> = Vec::new();
                    acts.push(crate::action::Action::WifiApStartup);
                    proof {
                        assert(acts@ =~= seq![crate::action::Action::WifiApStartup]);
                    }
                    Ok((true, acts, edits))
                },
                crate::action::Action::CloseWifiApStartupMenu => {
                    let mut edits: Vec<TreeEdit> = Vec::new();
                    match s.menu {
                        Some(pid) => {
                            edits.push(TreeEdit::RemoveChildById(pid));
                            proof {
                                assert(edits@ =~= seq![TreeEdit::RemoveChildById(pid)]);
                            }
                        },
                        None => {},
                    }
                    s.menu = None;
                    let _ = disp.focus_window(s.windowid);
                    Ok((true, Vec::new(), edits))
                },
                _ => nothing,
            }
        },
        WidgetKind::WifiApStartup(s) => {
            match action {
                crate::action::Action::WifiApStartup => {
                    let _ = ctx.wifi.toggle_host();
                    let mut acts: Vec<crate::action::Action> = Vec::new();
                    acts.push(crate::action::Action::CloseWifiApStartupMenu);
                    proof {
                        assert(acts@ =~= seq![crate::action::Action::CloseWifiApStartupMenu]);
                    }
                    Ok((true, acts, Vec::new()))
                },
                _ => nothing,
            }
        },
        WidgetKind::Piso(_) => {
            match action {
                crate::action::Action::FlipDisplay => {
                    let op = crate::context::HostOp::FlipDisplay;
                    proof {
                        lemma_prefix_push(ctx.ops@, op);
                    }
                    ctx.ops.push(op);
                    Ok((true, Vec::new(), Vec::new()))
                },
                crate::action::Action::CreateDrive(vol) => {
                    let copy = crate::lvm::LogicalVolume {
                        name: vol.name.clone(),
                        path: vol.path.clone(),
                        size: vol.size,
                    };
                    let drive = match crate::vdrive::VirtualDrive::new(disp, copy) {
                        Ok(d) => d,
                        Err(e) => {
                            return Err(e);
                        },
                    };
                    let mut edits: Vec<TreeEdit> = Vec::new();
                    edits.push(TreeEdit::InsertChild(0, drive));
                    proof {
                        assert(edits@.len() == 1);
                    }
                    Ok((true, Vec::new(), edits))
                },
                crate::action::Action::SnapshotDrive(nm) => {
                    let vol = match ctx.vg.snapshot_volume(nm.as_str()) {
                        Ok(v) => v,
                        Err(e) => {
                            return Err(e);
                        },
                    };
                    let op = crate::context::HostOp::SnapshotVolume { name: nm.clone() };
                    proof {
                        lemma_prefix_push(ctx.ops@, op);
                    }
                    ctx.ops.push(op);
                    let drive = match crate::vdrive::VirtualDrive::new(disp, vol) {
                        Ok(d) => d,
                        Err(e) => {
                            return Err(e);
                        },
                    };
                    let mut edits: Vec<TreeEdit> = Vec::new();
                    edits.push(TreeEdit::InsertChild(0, drive));
                    proof {
                        assert(edits@.len() == 1);
                    }
                    Ok((true, Vec::new(), edits))
                },
                crate::action::Action::DeleteDrive(nm) => {
                    let _ = ctx.vg.delete_volume(nm.as_str());
                    let op = crate::context::HostOp::DeleteVolume { name: nm.clone() };
                    proof {
                        lemma_prefix_push(ctx.ops@, op);
                    }
                    ctx.ops.push(op);
                    let mut edits: Vec<TreeEdit> = Vec::new();
                    edits.push(TreeEdit::RemoveDrive(nm.clone()));
                    proof {
                        assert(edits@ =~= seq![TreeEdit::RemoveDrive(*nm)]);
                    }
                    Ok((true, Vec::new(), edits))
                },
                crate::action::Action::ToggleDriveReadOnly(nm) => {
                    if ctx.persist.check() {
                        ctx.persist.toggle_readonly(nm.as_str());
                    }
                    Ok((true, Vec::new(), Vec::new()))
                },
                crate::action::Action::ToggleDriveNonRemovable(nm) => {
                    if ctx.persist.check() {
                        ctx.persist.toggle_removable(nm.as_str());
                    }
                    Ok((true, Vec::new(), Vec::new()))
                },
                _ => nothing,
            }
        },
        _ => nothing,
    }
}

/// Whether this child is the drive named `name`.
fn is_drive_named(c: &Widget, name: &String) -> (r: bool) {
    match &c.kind {
        WidgetKind::Drive(v) => crate::utils::str_eq(v.volume.name.as_str(), name.as_str()),
        _ => false,
    }
}

/// Withdraws whatever a subtree holds on the host before it is dropped:
/// exported images and drives are unexported, and an internal attachment
/// is queued for detachment.
pub fn detach_widget(c: &mut Widget, ctx: &mut crate::context::Context)
    ensures
        old(ctx).ops@.is_prefix_of(final(ctx).ops@),
        final(ctx).persist == old(ctx).persist,
    decreases *old(c),
{
    match &mut c.kind {
        WidgetKind::IsoImage(s) => {
            let _ = s.unmount(&mut ctx.usb);
        },
        WidgetKind::Drive(v) => {
            let mut prev = crate::vdrive::MountState::Unmounted;
            std::mem::swap(&mut v.state, &mut prev);
            match prev {
                crate::vdrive::MountState::External(id) => {
                    let sid = crate::usb::StorageID(id);
                    let _ = ctx.usb.unexport_file(&sid);
                },
                crate::vdrive::MountState::Internal(info) => {
                    let op = crate::context::HostOp::DetachInternal {
                        loopback_path: info.loopback_path,
                        part_mount_paths: info.part_mount_paths,
                    };
                    proof {
                        lemma_prefix_push(ctx.ops@, op);
                    }
                    ctx.ops.push(op);
                },
                crate::vdrive::MountState::Unmounted => {},
            }
        },
        _ => {},
    }
    let n = c.children.len();
    let mut i: usize = 0;
    while i < n
        invariant
            i <= n,
            n == old(c).children@.len(),
            c.children@.len() == n,
            forall|k: int|
                i <= k < n ==> (#[trigger] c.children@[k]) == old(c).children@[k],
            old(ctx).ops@.is_prefix_of(ctx.ops@),
            ctx.persist == old(ctx).persist,
        decreases n - i,
    {
        let ghost cx_pre = *ctx;
        proof {
            assert(c.children@[i as int] == old(c).children@[i as int]);
        }
        detach_widget(&mut c.children[i], ctx);
        proof {
            assert(old(ctx).ops@.is_prefix_of(ctx.ops@)) by {
                assert(forall|k: int|
                    0 <= k < old(ctx).ops@.len() ==> old(ctx).ops@[k] == cx_pre.ops@[k]
                        && cx_pre.ops@[k] == ctx.ops@[k]);
            }
        }
        i = i + 1;
    }
}

/// Applies a handler's structural edits to this widget's children; the
/// kind-specific state is untouched.
fn apply_edits(w: &mut Widget, ctx: &mut crate::context::Context, edits: Vec<TreeEdit>)
    ensures
        final(w).kind == old(w).kind,
        old(ctx).ops@.is_prefix_of(final(ctx).ops@),
        final(ctx).persist == old(ctx).persist,
{
    let mut edits = edits;
    while edits.len() > 0
        invariant
            w.kind == old(w).kind,
            old(ctx).ops@.is_prefix_of(ctx.ops@),
            ctx.persist == old(ctx).persist,
        decreases edits.len(),
    {
        let ghost cx_pre = *ctx;
        let e = edits.remove(0);
        match e {
            TreeEdit::InsertChild(idx, node) => {
                let j = if idx <= w.children.len() {
                    idx
                } else {
                    w.children.len()
                };
                w.children.insert(j, node);
            },
            TreeEdit::RemoveChildById(id) => {
                let mut kept: Vec<Widget> = Vec::new();
                while w.children.len() > 0
                    invariant
                        w.kind == old(w).kind,
                        cx_pre.ops@.is_prefix_of(ctx.ops@),
                        ctx.persist == cx_pre.persist,
                    decreases w.children.len(),
                {
                    let ghost cx_it = *ctx;
                    let mut c = w.children.remove(0);
                    if c.windowid() != id {
                        kept.push(c);
                    } else {
                        detach_widget(&mut c, ctx);
                    }
                    proof {
                        assert(cx_pre.ops@.is_prefix_of(ctx.ops@)) by {
                            assert(forall|k: int|
                                0 <= k < cx_pre.ops@.len() ==> cx_pre.ops@[k] == cx_it.ops@[k]
                                    && cx_it.ops@[k] == ctx.ops@[k]);
                        }
                    }
                }
                w.children = kept;
            },
            TreeEdit::ClearChildren => {
                while w.children.len() > 0
                    invariant
                        w.kind == old(w).kind,
                        cx_pre.ops@.is_prefix_of(ctx.ops@),
                        ctx.persist == cx_pre.persist,
                    decreases w.children.len(),
                {
                    let ghost cx_it = *ctx;
                    let mut c = w.children.remove(0);
                    detach_widget(&mut c, ctx);
                    proof {
                        assert(cx_pre.ops@.is_prefix_of(ctx.ops@)) by {
                            assert(forall|k: int|
                                0 <= k < cx_pre.ops@.len() ==> cx_pre.ops@[k] == cx_it.ops@[k]
                                    && cx_it.ops@[k] == ctx.ops@[k]);
                        }
                    }
                }
            },
            TreeEdit::RemoveDrive(name) => {
                let mut kept: Vec<Widget> = Vec::new();
                while w.children.len() > 0
                    invariant
                        w.kind == old(w).kind,
                        cx_pre.ops@.is_prefix_of(ctx.ops@),
                        ctx.persist == cx_pre.persist,
                    decreases w.children.len(),
                {
                    let ghost cx_it = *ctx;
                    let mut c = w.children.remove(0);
                    if is_drive_named(&c, &name) {
                        detach_widget(&mut c, ctx);
                    } else {
                        kept.push(c);
                    }
                    proof {
                        assert(cx_pre.ops@.is_prefix_of(ctx.ops@)) by {
                            assert(forall|k: int|
                                0 <= k < cx_pre.ops@.len() ==> cx_pre.ops@[k] == cx_it.ops@[k]
                                    && cx_it.ops@[k] == ctx.ops@[k]);
                        }
                    }
                }
                w.children = kept;
            },
        }
        proof {
            assert(old(ctx).ops@.is_prefix_of(ctx.ops@)) by {
                assert(forall|i: int|
                    0 <= i < old(ctx).ops@.len() ==> old(ctx).ops@[i] == cx_pre.ops@[i]
                        && cx_pre.ops@[i] == ctx.ops@[i]);
            }
        }
    }
}

impl Widget {
    /// Offers one action to this widget alone: its handler may consume
    /// it, emit follow-up actions, and restructure this widget's
    /// children.
    pub fn do_action(
        &mut self,
        disp: &mut DisplayManager,
        ctx: &mut crate::context::Context,
        action: &crate::action::Action,
    ) -> (r: Result<(bool, Vec<crate::action::Action>), ErrorKind>)
        requires
            old(disp).wf(),
        ensures
            handler_frame(*old(disp), *final(disp), *old(ctx), *final(ctx)),
            final(self).spec_windowid() == old(self).spec_windowid(),
            r matches Ok(t) ==> t.0 == sig_claims(claim_sig(old(self).kind), *action),
            r is Err ==> sig_claims(claim_sig(old(self).kind), *action),
            claim_sig(final(self).kind) == sig_step(claim_sig(old(self).kind), *action),
            r matches Ok(t) ==> (t.0 ==> action_emission_ok(
                old(self).kind,
                *old(ctx),
                *action,
                t.1@,
            )),
            r matches Ok(t) ==> (!t.0 ==> t.1@.len() == 0),
    {
        let t = match widget_do_action(&mut self.kind, disp, ctx, action) {
            Ok(t) => t,
            Err(e) => {
                return Err(e);
            },
        };
        let (handled, acts, edits) = t;
        let ghost cx_mid = *ctx;
        apply_edits(self, ctx, edits);
        proof {
            assert(ctx.ops@.len() >= cx_mid.ops@.len());
            assert(old(ctx).ops@.is_prefix_of(ctx.ops@)) by {
                assert(forall|i: int|
                    0 <= i < old(ctx).ops@.len() ==> old(ctx).ops@[i] == cx_mid.ops@[i]
                        && cx_mid.ops@[i] == ctx.ops@[i]);
            }
        }
        Ok((handled, acts))
    }
}

impl DisplayManager {
    fn sweep(
        &mut self,
        w: &mut Widget,
        ctx: &mut crate::context::Context,
        actions: &mut Vec<crate::action::Action>,
        new_actions: &mut Vec<crate::action::Action>,
    )
        requires
            old(self).wf(),
        ensures
            handler_frame(*old(self), *final(self), *old(ctx), *final(ctx)),
            final(actions)@ == tree_offer(*old(w), old(actions)@),
            old(new_actions)@.is_prefix_of(final(new_actions)@),
            final(new_actions)@.subrange(0, old(new_actions)@.len() as int) == old(new_actions)@,
            tree_tail_ok(
                *old(w),
                old(actions)@,
                final(new_actions)@.skip(old(new_actions)@.len() as int),
            ),
        decreases *old(w),
    {
        let ghost sig0 = claim_sig(w.kind);
        let ghost acts0 = actions@;
        let ghost na0 = new_actions@;
        let ghost mut sig = sig0;
        let mut kept: Vec<crate::action::Action> = Vec::new();
        let mut edits_all: Vec<TreeEdit> = Vec::new();
        proof {
            lemma_prefix_refl(new_actions@);
            assert(new_actions@.subrange(0, na0.len() as int) =~= na0);
            assert forall|ft: Seq<crate::action::Action>|
                offer_tail_ok(sig0, actions@, ft) implies offer_tail_ok(
                sig0,
                acts0,
                new_actions@.skip(na0.len() as int) + ft,
            ) by {
                assert(new_actions@.skip(na0.len() as int)
                    =~= Seq::<crate::action::Action>::empty());
                assert(new_actions@.skip(na0.len() as int) + ft =~= ft);
            }
        }
        while actions.len() > 0
            invariant
                self.wf(),
                handler_frame(*old(self), *self, *old(ctx), *ctx),
                w.children == old(w).children,
                claim_sig(w.kind) == sig,
                kind_expanded(w.kind) == kind_expanded(old(w).kind),
                offer_kept(sig0, acts0) == kept@ + offer_kept(sig, actions@),
                new_actions@.len() >= na0.len(),
                new_actions@.subrange(0, na0.len() as int) == na0,
                forall|ft: Seq<crate::action::Action>|
                    offer_tail_ok(sig, actions@, ft) ==> offer_tail_ok(
                        sig0,
                        acts0,
                        new_actions@.skip(na0.len() as int) + ft,
                    ),
            decreases actions@.len(),
        {
            let ghost dm_pre = *self;
            let ghost cx_pre = *ctx;
            let ghost sig_pre = sig;
            let ghost acts_pre = actions@;
            let ghost kept_pre = kept@;
            let ghost na_pre = new_actions@;
            let a = actions.remove(0);
            proof {
                assert(acts_pre.drop_first() =~= actions@);
            }
            match widget_do_action(&mut w.kind, self, ctx, &a) {
                Ok((handled, acts, edits)) => {
                    let mut acts = acts;
                    let mut edits = edits;
                    new_actions.append(&mut acts);
                    edits_all.append(&mut edits);
                    if !handled {
                        kept.push(a);
                    }
                },
                Err(_) => {
                    // isolated: the failing pairing is dropped, the sweep
                    // goes on
                },
            }
            proof {
                lemma_handler_frame_trans(
                    *old(self),
                    dm_pre,
                    *self,
                    *old(ctx),
                    cx_pre,
                    *ctx,
                );
                sig = sig_step(sig_pre, a);
                if sig_claims(sig_pre, a) {
                    assert(kept@ == kept_pre);
                    assert(offer_kept(sig_pre, acts_pre) == offer_kept(sig, actions@));
                } else {
                    assert(kept@ =~= kept_pre + seq![a]);
                    assert(offer_kept(sig_pre, acts_pre) == seq![a] + offer_kept(sig, actions@));
                    assert(kept_pre + (seq![a] + offer_kept(sig, actions@)) =~= (kept_pre + seq![
                        a,
                    ]) + offer_kept(sig, actions@));
                }
                assert(new_actions@.subrange(0, na0.len() as int) =~= na0) by {
                    assert(forall|j: int|
                        0 <= j < na0.len() ==> na0[j] == na_pre[j] && na_pre[j]
                            == new_actions@[j]);
                }
                // the emitted tail grows by this offer's chunk
                let chunk = new_actions@.skip(na_pre.len() as int);
                assert(chunk_ok(sig_pre, a, chunk)) by {
                    if new_actions@.len() == na_pre.len() {
                        assert(chunk =~= Seq::<crate::action::Action>::empty());
                    }
                }
                let emitted_pre = na_pre.skip(na0.len() as int);
                let emitted_now = new_actions@.skip(na0.len() as int);
                assert(emitted_now =~= emitted_pre + chunk);
                assert forall|ft: Seq<crate::action::Action>|
                    offer_tail_ok(sig, actions@, ft) implies offer_tail_ok(
                    sig0,
                    acts0,
                    emitted_now + ft,
                ) by {
                    if sig_claims(sig_pre, a) {
                        lemma_offer_tail_step(sig_pre, a, actions@, chunk, ft);
                        assert(seq![a] + actions@ =~= acts_pre);
                        assert(offer_tail_ok(sig_pre, acts_pre, chunk + ft));
                        assert(emitted_pre + (chunk + ft) =~= emitted_now + ft);
                    } else {
                        assert(chunk =~= Seq::<crate::action::Action>::empty());
                        assert(chunk + ft =~= ft);
                        lemma_offer_tail_unclaimed(sig_pre, a, actions@, ft);
                        assert(seq![a] + actions@ =~= acts_pre);
                        assert(offer_tail_ok(sig_pre, acts_pre, ft));
                        assert(emitted_pre + ft =~= emitted_now + ft);
                    }
                }
            }
        }
        let ghost emitted1 = new_actions@.skip(na0.len() as int);
        proof {
            assert(offer_kept(sig, actions@) =~= Seq::<crate::action::Action>::empty());
            assert(kept@ =~= offer_kept(sig0, acts0));
            assert(offer_tail_ok(sig, actions@, Seq::empty()));
            assert(emitted1 + Seq::<crate::action::Action>::empty() =~= emitted1);
            assert(offer_tail_ok(sig0, acts0, emitted1));
        }
        let mut kept = kept;
        actions.append(&mut kept);
        proof {
            assert(actions@ =~= offer_kept(sig0, acts0));
            assert(sig0 == claim_sig(old(w).kind));
        }
        let ghost after_self = actions@;
        let ghost nb0 = new_actions@;
        let n = w.num_children();
        proof {
            assert(n == old(w).kids().len()) by {
                assert(w.children@.len() == old(w).children@.len());
            }
            assert forall|ft: Seq<crate::action::Action>|
                tree_tail_kids_ok(*old(w), actions@, ft, 0) implies tree_tail_kids_ok(
                *old(w),
                after_self,
                new_actions@.skip(nb0.len() as int) + ft,
                0,
            ) by {
                assert(new_actions@.skip(nb0.len() as int)
                    =~= Seq::<crate::action::Action>::empty());
                assert(new_actions@.skip(nb0.len() as int) + ft =~= ft);
            }
        }
        let mut i: usize = 0;
        while i < n
            invariant
                i <= n,
                n == old(w).kids().len(),
                self.wf(),
                handler_frame(*old(self), *self, *old(ctx), *ctx),
                w.children@.len() == old(w).children@.len(),
                forall|k: int|
                    i <= k < old(w).children@.len() ==> (#[trigger] w.children@[k]) == old(
                        w,
                    ).children@[k],
                tree_offer_kids(*old(w), actions@, i as int) == tree_offer(*old(w), acts0),
                new_actions@.len() >= nb0.len(),
                new_actions@.subrange(0, nb0.len() as int) == nb0,
                forall|ft: Seq<crate::action::Action>|
                    tree_tail_kids_ok(*old(w), actions@, ft, i as int) ==> tree_tail_kids_ok(
                        *old(w),
                        after_self,
                        new_actions@.skip(nb0.len() as int) + ft,
                        0,
                    ),
            decreases n - i,
        {
            let ghost dm_pre = *self;
            let ghost cx_pre = *ctx;
            let ghost na_pre = new_actions@;
            let ghost acts_pre = actions@;
            proof {
                assert(w.children@[i as int] == old(w).children@[i as int]);
                assert(old(w).kids()[i as int] == old(w).children@[i as int]);
            }
            self.sweep(&mut w.children[i], ctx, actions, new_actions);
            proof {
                lemma_handler_frame_trans(
                    *old(self),
                    dm_pre,
                    *self,
                    *old(ctx),
                    cx_pre,
                    *ctx,
                );
                assert(actions@ == tree_offer(old(w).kids()[i as int], acts_pre));
                assert(new_actions@.subrange(0, nb0.len() as int) =~= nb0) by {
                    assert(forall|j: int|
                        0 <= j < nb0.len() ==> nb0[j] == na_pre[j] && na_pre[j]
                            == new_actions@[j]);
                }
                let e = new_actions@.skip(na_pre.len() as int);
                assert(tree_tail_ok(old(w).kids()[i as int], acts_pre, e));
                let emitted_pre = na_pre.skip(nb0.len() as int);
                let emitted_now = new_actions@.skip(nb0.len() as int);
                assert(emitted_now =~= emitted_pre + e);
                assert forall|ft: Seq<crate::action::Action>|
                    tree_tail_kids_ok(*old(w), actions@, ft, i as int + 1) implies
                    tree_tail_kids_ok(*old(w), after_self, emitted_now + ft, 0) by {
                    lemma_kids_tail_step(*old(w), acts_pre, e, ft, i as int);
                    assert(tree_tail_kids_ok(*old(w), acts_pre, e + ft, i as int));
                    assert(emitted_pre + (e + ft) =~= emitted_now + ft);
                }
            }
            i = i + 1;
        }
        let ghost emitted2 = new_actions@.skip(nb0.len() as int);
        proof {
            assert(tree_offer_kids(*old(w), actions@, n as int) == actions@);
            assert(tree_tail_kids_ok(*old(w), actions@, Seq::empty(), n as int));
            assert(emitted2 + Seq::<crate::action::Action>::empty() =~= emitted2);
            assert(tree_tail_kids_ok(*old(w), after_self, emitted2, 0));
            // the whole subtree's tail: the widget's own chunks, then the
            // children's
            let total = new_actions@.skip(na0.len() as int);
            assert(total =~= emitted1 + emitted2);
            assert(total.take(emitted1.len() as int) =~= emitted1);
            assert(total.skip(emitted1.len() as int) =~= emitted2);
            assert(0 <= emitted1.len() <= total.len() && offer_tail_ok(
                claim_sig(old(w).kind),
                acts0,
                total.take(emitted1.len() as int),
            ) && tree_tail_kids_ok(
                *old(w),
                offer_kept(claim_sig(old(w).kind), acts0),
                total.skip(emitted1.len() as int),
                0,
            ));
            assert(tree_tail_ok(*old(w), acts0, total));
        }
        let ghost cx_pre2 = *ctx;
        apply_edits(w, ctx, edits_all);
        proof {
            assert(old(ctx).ops@.is_prefix_of(ctx.ops@)) by {
                assert(forall|k: int|
                    0 <= k < old(ctx).ops@.len() ==> old(ctx).ops@[k] == cx_pre2.ops@[k]
                        && cx_pre2.ops@[k] == ctx.ops@[k]);
            }
        }
    }

    /// One dispatch sweep: offers every pending action, in pre-order, to
    /// every widget; a consumed action leaves the pending list, the
    /// follow-ups its handler emits are appended after the sweep in
    /// offer order, and a failing handler only costs that one action,
    /// emitting nothing.
    pub fn do_actions(
        &mut self,
        root: &mut Widget,
        ctx: &mut crate::context::Context,
        actions: &mut Vec<crate::action::Action>,
    ) -> (r: Result<(), ErrorKind>)
        requires
            old(self).wf(),
        ensures
            r is Ok,
            handler_frame(*old(self), *final(self), *old(ctx), *final(ctx)),
            final(actions)@.len() >= tree_offer(*old(root), old(actions)@).len(),
            final(actions)@.subrange(0, tree_offer(*old(root), old(actions)@).len() as int)
                == tree_offer(*old(root), old(actions)@),
            tree_tail_ok(
                *old(root),
                old(actions)@,
                final(actions)@.skip(tree_offer(*old(root), old(actions)@).len() as int),
            ),
    {
        let mut new_actions: Vec<crate::action::Action> = Vec::new();
        let ghost acts0 = actions@;
        self.sweep(root, ctx, actions, &mut new_actions);
        proof {
            assert(new_actions@.skip(0) =~= new_actions@);
            assert(tree_tail_ok(*old(root), acts0, new_actions@));
        }
        let ghost kept = actions@;
        let ghost emitted = new_actions@;
        actions.append(&mut new_actions);
        proof {
            assert(actions@.subrange(0, kept.len() as int) =~= kept);
            assert(actions@.skip(kept.len() as int) =~= emitted);
        }
        Ok(())
    }
}

/// Every tree has the same shape as itself.
pub proof fn lemma_same_shape_refl(w: Widget)
    ensures
        same_shape(w, w),
    decreases w,
{
    assert forall|i: int| 0 <= i < w.children@.len() implies same_shape(
        #[trigger] w.children@[i],
        w.children@[i],
    ) by {
        lemma_same_shape_refl(w.children@[i]);
    }
}

/// Appending a window with a brand-new id makes it findable.
pub proof fn lemma_lookup_append_fresh(s: Seq<Window>, w: Window)
    requires
        forall|i: int| 0 <= i < s.len() ==> (#[trigger] s[i].id) != w.id,
    ensures
        lookup(s.push(w), w.id) == Some(w),
    decreases s.len(),
{
    if s.len() == 0 {
        assert(s.push(w)[0] == w);
    } else {
        assert(s.push(w)[0] == s[0]);
        assert(s.push(w).skip(1) =~= s.skip(1).push(w));
        assert(forall|i: int| 0 <= i < s.skip(1).len() ==> (#[trigger] s.skip(1)[i].id) != w.id);
        lemma_lookup_append_fresh(s.skip(1), w);
    }
}

/// Whether a lookup succeeds depends only on the ids.
pub proof fn lemma_lookup_some_ids(a: Seq<Window>, b: Seq<Window>, id: WindowId)
    requires
        b.len() == a.len(),
        forall|i: int| 0 <= i < a.len() ==> (#[trigger] b[i].id) == a[i].id,
        lookup(a, id) is Some,
    ensures
        lookup(b, id) is Some,
    decreases a.len(),
{
    if a.len() == 0 {
    } else {
        assert(b[0].id == a[0].id);
        if a[0].id != id {
            assert forall|i: int| 0 <= i < a.skip(1).len() implies (#[trigger] b.skip(1)[i].id)
                == a.skip(1)[i].id by {
                assert(b[i + 1].id == a[i + 1].id);
            }
            lemma_lookup_some_ids(a.skip(1), b.skip(1), id);
        }
    }
}

/// A sequence is a prefix of itself.
pub proof fn lemma_prefix_refl<T>(s: Seq<T>)
    ensures
        s.is_prefix_of(s),
{
    assert(s.subrange(0, s.len() as int) =~= s);
}

/// A sequence is a prefix of itself extended by one element.
pub proof fn lemma_prefix_push<T>(s: Seq<T>, x: T)
    ensures
        s.is_prefix_of(s.push(x)),
{
    assert(s.push(x).subrange(0, s.len() as int) =~= s);
}

/// A successful lookup has an index witness.
pub proof fn lemma_lookup_witness(s: Seq<Window>, id: WindowId)
    requires
        lookup(s, id) is Some,
    ensures
        exists|i: int| 0 <= i < s.len() && (#[trigger] s[i].id) == id && Some(s[i]) == lookup(s, id),
    decreases s.len(),
{
    if s.len() == 0 {
    } else if s[0].id == id {
        assert(0 <= 0 < s.len() && s[0].id == id && Some(s[0]) == lookup(s, id));
    } else {
        lemma_lookup_witness(s.skip(1), id);
        let j = choose|j: int|
            0 <= j < s.skip(1).len() && (#[trigger] s.skip(1)[j].id) == id && Some(s.skip(1)[j])
                == lookup(s.skip(1), id);
        assert(s[j + 1].id == id && Some(s[j + 1]) == lookup(s, id));
    }
}

} // verus!
