use crate::lvm::VolumeGroup;
use crate::usb::UsbGadget;
use crate::wifi::WifiManager;
use vstd::prelude::*;

verus! {

/// The filesystem a freshly created drive is initialized with.
#[derive(Debug, Clone, Copy, PartialEq, Eq)]
pub enum FormatKind {
    Windows,
    MacOs,
    Linux,
    Universal,
}

/// Work only the host can perform, queued by action handlers in the order
/// they decided it; the runtime drains and performs the queue after each
/// dispatch sweep.
#[derive(Debug)]
pub enum HostOp {
    CreateVolume { name: String, size: u64 },
    SnapshotVolume { name: String },
    DeleteVolume { name: String },
    FormatVolume { path: String, format: FormatKind, label: String },
    DetachInternal { loopback_path: String, part_mount_paths: Vec<String> },
    FlipDisplay,
}

/// What attaching a drive internally found on the host: the loopback
/// device used, the partitions that mounted, and the optical images
/// discovered on them.
#[derive(Debug, Clone)]
pub struct MountDiscovery {
    pub loopback_path: String,
    pub part_mount_paths: Vec<String>,
    pub iso_paths: Vec<String>,
}

/// The persisted per-drive flags.
#[derive(Debug, Clone, Copy, PartialEq, Eq)]
pub struct DriveFlags {
    pub readonly: bool,
    pub removable: bool,
}

/// The persisted flags of every drive that has any; a drive that does not
/// appear is writable and removable.
#[derive(Debug)]
pub struct PersistentFlags {
    pub names: Vec<String>,
    pub flags: Vec<DriveFlags>,
}

impl PersistentFlags {
    pub open spec fn wf(&self) -> bool {
        self.names@.len() == self.flags@.len()
    }

    /// The flags stored under `name`, or the defaults.
    pub open spec fn spec_get(&self, name: Seq<char>) -> DriveFlags {
        if exists|i: int| 0 <= i < self.names@.len() && #[trigger] self.names@[i]@ == name {
            self.flags@[choose|i: int|
                0 <= i < self.names@.len() && #[trigger] self.names@[i]@ == name]
        } else {
            DriveFlags { readonly: false, removable: true }
        }
    }

    /// An empty flag store.
    pub fn new() -> (r: PersistentFlags)
        ensures
            r.names@.len() == 0,
            r.wf(),
    {
        PersistentFlags { names: Vec::new(), flags: Vec::new() }
    }

    /// The flags stored under `name`, or the defaults.
    pub fn get(&self, name: &str) -> (r: DriveFlags)
        requires
            self.wf(),
            forall|i: int, j: int|
                0 <= i < j < self.names@.len() ==> #[trigger] self.names@[i]@ != #[trigger] self.names@[j]@,
        ensures
            r == self.spec_get(name@),
    {
        let mut i: usize = 0;
        while i < self.names.len()
            invariant
                i <= self.names@.len(),
                self.wf(),
                forall|a: int, b: int|
                    0 <= a < b < self.names@.len() ==> #[trigger] self.names@[a]@
                        != #[trigger] self.names@[b]@,
                forall|k: int| 0 <= k < i ==> (#[trigger] self.names@[k]@) != name@,
            decreases self.names@.len() - i,
        {
            if crate::utils::str_eq(self.names[i].as_str(), name) {
                proof {
                    let w = choose|k: int|
                        0 <= k < self.names@.len() && #[trigger] self.names@[k]@ == name@;
                    assert(self.names@[i as int]@ == name@);
                    if w < i {
                        assert(self.names@[w]@ != self.names@[i as int]@);
                    } else if i < w {
                        assert(self.names@[i as int]@ != self.names@[w]@);
                    }
                }
                return self.flags[i];
            }
            i = i + 1;
        }
        DriveFlags { readonly: false, removable: true }
    }
}

impl Context {
    /// The invariants the engine relies on: the flag store is coherent
    /// and holds each drive at most once.
    pub open spec fn wf(&self) -> bool {
        &&& self.persist.wf()
        &&& forall|i: int, j: int|
            0 <= i < j < self.persist.names@.len() ==> #[trigger] self.persist.names@[i]@
                != #[trigger] self.persist.names@[j]@
    }
}

impl PersistentFlags {
    /// With distinct names, the flags stored at an index are what the
    /// store answers for that index's name.
    pub proof fn lemma_get_at(&self, i: int)
        requires
            self.wf(),
            self.distinct(),
            0 <= i < self.names@.len(),
        ensures
            self.spec_get(self.names@[i]@) == self.flags@[i],
    {
        let nm = self.names@[i]@;
        assert(self.names@[i]@ == nm);
        let w = choose|k: int| 0 <= k < self.names@.len() && #[trigger] self.names@[k]@ == nm;
        if w < i {
            assert(self.names@[w]@ != self.names@[i]@);
        } else if i < w {
            assert(self.names@[i]@ != self.names@[w]@);
        }
    }

    /// A name the store does not hold answers the defaults.
    pub proof fn lemma_get_absent(&self, nm: Seq<char>)
        requires
            forall|k: int| 0 <= k < self.names@.len() ==> (#[trigger] self.names@[k]@) != nm,
        ensures
            self.spec_get(nm) == (DriveFlags { readonly: false, removable: true }),
    {
    }

    /// Whether the store is coherent and holds each drive at most once.
    pub fn check(&self) -> (r: bool)
        ensures
            r == (self.wf() && self.distinct()),
    {
        if self.names.len() != self.flags.len() {
            return false;
        }
        let n = self.names.len();
        let mut i: usize = 0;
        while i < n
            invariant
                i <= n,
                n == self.names@.len(),
                forall|a: int, b: int|
                    0 <= a < b < i ==> #[trigger] self.names@[a]@ != #[trigger] self.names@[b]@,
            decreases n - i,
        {
            let mut j: usize = 0;
            while j < i
                invariant
                    j <= i < n,
                    n == self.names@.len(),
                    forall|a: int, b: int|
                        0 <= a < b < i ==> #[trigger] self.names@[a]@ != #[trigger] self.names@[b]@,
                    forall|a: int| 0 <= a < j ==> #[trigger] self.names@[a]@ != self.names@[i as int]@,
                decreases i - j,
            {
                if crate::utils::str_eq(self.names[j].as_str(), self.names[i].as_str()) {
                    return false;
                }
                j = j + 1;
            }
            proof {
                assert forall|a: int, b: int|
                    0 <= a < b < i + 1 implies #[trigger] self.names@[a]@
                    != #[trigger] self.names@[b]@ by {
                    if b == i {
                        assert(self.names@[a]@ != self.names@[i as int]@);
                    }
                }
            }
            i = i + 1;
        }
        true
    }

    /// Distinct drive names.
    pub open spec fn distinct(&self) -> bool {
        forall|i: int, j: int|
            0 <= i < j < self.names@.len() ==> #[trigger] self.names@[i]@ != #[trigger] self.names@[j]@
    }

    /// Flips the stored read-only flag of `name`, creating the entry
    /// from the defaults when there is none; every other drive's flags
    /// are unchanged.
    pub fn toggle_readonly(&mut self, name: &str)
        requires
            old(self).wf(),
            old(self).distinct(),
        ensures
            final(self).wf(),
            final(self).distinct(),
            final(self).spec_get(name@).readonly == !old(self).spec_get(name@).readonly,
            final(self).spec_get(name@).removable == old(self).spec_get(name@).removable,
            forall|other: Seq<char>|
                other != name@ ==> final(self).spec_get(other) == old(self).spec_get(other),
    {
        let n = self.names.len();
        let mut i: usize = 0;
        while i < n
            invariant
                i <= n,
                n == old(self).names@.len(),
                *self == *old(self),
                old(self).wf(),
                old(self).distinct(),
                forall|k: int| 0 <= k < i ==> (#[trigger] self.names@[k]@) != name@,
            decreases n - i,
        {
            if crate::utils::str_eq(self.names[i].as_str(), name) {
                let f = self.flags[i];
                self.flags[i] = DriveFlags { readonly: !f.readonly, removable: f.removable };
                proof {
                    lemma_toggle_found(*old(self), *self, i as int, name@);
                }
                return ;
            }
            i = i + 1;
        }
        self.names.push(name.to_owned());
        self.flags.push(DriveFlags { readonly: true, removable: true });
        proof {
            assert forall|a: int, b: int|
                0 <= a < b < self.names@.len() implies #[trigger] self.names@[a]@
                != #[trigger] self.names@[b]@ by {
                if b == self.names@.len() - 1 {
                    assert(self.names@[a] == old(self).names@[a]);
                }
            }
            assert(self.names@.subrange(0, old(self).names@.len() as int) =~= old(self).names@);
            assert(self.flags@.subrange(0, old(self).flags@.len() as int) =~= old(self).flags@);
            lemma_toggle_appended(*old(self), *self, name@);
        }
    }

    /// Flips the stored removable flag of `name`, creating the entry
    /// from the defaults when there is none; every other drive's flags
    /// are unchanged.
    pub fn toggle_removable(&mut self, name: &str)
        requires
            old(self).wf(),
            old(self).distinct(),
        ensures
            final(self).wf(),
            final(self).distinct(),
            final(self).spec_get(name@).removable == !old(self).spec_get(name@).removable,
            final(self).spec_get(name@).readonly == old(self).spec_get(name@).readonly,
            forall|other: Seq<char>|
                other != name@ ==> final(self).spec_get(other) == old(self).spec_get(other),
    {
        let n = self.names.len();
        let mut i: usize = 0;
        while i < n
            invariant
                i <= n,
                n == old(self).names@.len(),
                *self == *old(self),
                old(self).wf(),
                old(self).distinct(),
                forall|k: int| 0 <= k < i ==> (#[trigger] self.names@[k]@) != name@,
            decreases n - i,
        {
            if crate::utils::str_eq(self.names[i].as_str(), name) {
                let f = self.flags[i];
                self.flags[i] = DriveFlags { readonly: f.readonly, removable: !f.removable };
                proof {
                    lemma_toggle_found(*old(self), *self, i as int, name@);
                }
                return ;
            }
            i = i + 1;
        }
        self.names.push(name.to_owned());
        self.flags.push(DriveFlags { readonly: false, removable: false });
        proof {
            assert forall|a: int, b: int|
                0 <= a < b < self.names@.len() implies #[trigger] self.names@[a]@
                != #[trigger] self.names@[b]@ by {
                if b == self.names@.len() - 1 {
                    assert(self.names@[a] == old(self).names@[a]);
                }
            }
            assert(self.names@.subrange(0, old(self).names@.len() as int) =~= old(self).names@);
            assert(self.flags@.subrange(0, old(self).flags@.len() as int) =~= old(self).flags@);
            lemma_toggle_appended(*old(self), *self, name@);
        }
    }
}

/// Updating the flags at the index that holds `nm` changes exactly that
/// name's answer.
pub proof fn lemma_toggle_found(a: PersistentFlags, b: PersistentFlags, i: int, nm: Seq<char>)
    requires
        a.wf(),
        a.distinct(),
        0 <= i < a.names@.len(),
        a.names@[i]@ == nm,
        b.names == a.names,
        b.flags@ == a.flags@.update(i, b.flags@[i]),
        b.flags@.len() == a.flags@.len(),
    ensures
        b.spec_get(nm) == b.flags@[i],
        a.spec_get(nm) == a.flags@[i],
        forall|other: Seq<char>| other != nm ==> b.spec_get(other) == a.spec_get(other),
{
    a.lemma_get_at(i);
    b.lemma_get_at(i);
    assert forall|other: Seq<char>| other != nm implies b.spec_get(other) == a.spec_get(other) by {
        if exists|k: int| 0 <= k < a.names@.len() && #[trigger] a.names@[k]@ == other {
            let k = choose|k: int| 0 <= k < a.names@.len() && #[trigger] a.names@[k]@ == other;
            assert(k != i);
            a.lemma_get_at(k);
            b.lemma_get_at(k);
            assert(b.flags@[k] == a.flags@[k]);
        } else {
            a.lemma_get_absent(other);
            b.lemma_get_absent(other);
        }
    }
}

/// Appending a brand-new name answers its stored flags and leaves every
/// other name's answer alone.
pub proof fn lemma_toggle_appended(a: PersistentFlags, b: PersistentFlags, nm: Seq<char>)
    requires
        a.wf(),
        a.distinct(),
        forall|k: int| 0 <= k < a.names@.len() ==> (#[trigger] a.names@[k]@) != nm,
        b.names@.len() == a.names@.len() + 1,
        b.flags@.len() == a.flags@.len() + 1,
        b.names@.subrange(0, a.names@.len() as int) == a.names@,
        b.flags@.subrange(0, a.flags@.len() as int) == a.flags@,
        b.names@.last()@ == nm,
        b.distinct(),
        b.wf(),
    ensures
        a.spec_get(nm) == (DriveFlags { readonly: false, removable: true }),
        b.spec_get(nm) == b.flags@.last(),
        forall|other: Seq<char>| other != nm ==> b.spec_get(other) == a.spec_get(other),
{
    a.lemma_get_absent(nm);
    let last = a.names@.len() as int;
    assert(b.names@[last]@ == nm);
    b.lemma_get_at(last);
    assert forall|other: Seq<char>| other != nm implies b.spec_get(other) == a.spec_get(other) by {
        if exists|k: int| 0 <= k < a.names@.len() && #[trigger] a.names@[k]@ == other {
            let k = choose|k: int| 0 <= k < a.names@.len() && #[trigger] a.names@[k]@ == other;
            assert(b.names@[k] == a.names@[k]);
            a.lemma_get_at(k);
            b.lemma_get_at(k);
            assert(b.flags@[k] == a.flags@[k]);
        } else {
            assert forall|k: int| 0 <= k < b.names@.len() implies (#[trigger] b.names@[k]@)
                != other by {
                if k < last {
                    assert(b.names@[k] == a.names@[k]);
                }
            }
            a.lemma_get_absent(other);
            b.lemma_get_absent(other);
        }
    }
}

/// The context the main loop threads through the engine: the models of
/// the host services the widgets decide over, the persisted flags, the
/// discovery the runtime offers for an internal attach, and the queue of
/// host work the decisions produced.
#[derive(Debug)]
pub struct Context {
    pub usb: UsbGadget,
    pub vg: VolumeGroup,
    pub wifi: WifiManager,
    pub persist: PersistentFlags,
    pub discovery: Option<MountDiscovery>,
    pub ops: Vec<HostOp>,
}

} // verus!
