use crate::error::ErrorKind;
use vstd::prelude::*;

verus! {

/// Identity strings the USB gadget presents to the host.
#[derive(Clone, Debug)]
pub struct GadgetConfig {
    pub vendor_id: String,
    pub product_id: String,
    pub device_bcd: String,
    pub usb_bcd: String,
    pub serial_number: String,
    pub manufacturer: String,
    pub product: String,
    pub max_power: String,
    pub configuration: String,
}

/// The handle an exported backing file is identified by; ids are assigned
/// once and never reused while the gadget lives.
#[derive(Debug)]
pub struct StorageID(pub u64);

/// One exported backing file.
#[derive(Clone, Debug)]
pub struct Export {
    pub id: u64,
    pub path: String,
    pub cdrom: bool,
}

/// The mass-storage gadget as the engine decides it: which backing files
/// are exported under which ids.  The runtime reconciles the host's
/// gadget configuration with `exports` after each decision.
#[derive(Debug)]
pub struct UsbGadget {
    pub config: GadgetConfig,
    pub root: String,
    pub current_id: u64,
    pub exports: Vec<Export>,
}

/// `s` without the export carrying `id`, order kept.
pub open spec fn without_id(s: Seq<Export>, id: u64) -> Seq<Export>
    decreases s.len(),
{
    if s.len() == 0 {
        Seq::empty()
    } else {
        without_id(s.drop_last(), id) + (if s.last().id == id {
            Seq::<Export>::empty()
        } else {
            seq![s.last()]
        })
    }
}

impl UsbGadget {
    /// A gadget with no exports and ids starting at zero; the runtime
    /// writes the identity strings out and waits for the device controller
    /// before first use.
    pub fn new(root: &str, config: GadgetConfig) -> (r: UsbGadget)
        ensures
            r.root@ == root@,
            r.config == config,
            r.current_id == 0,
            r.exports@.len() == 0,
    {
        UsbGadget { config, root: root.to_owned(), current_id: 0, exports: Vec::new() }
    }

    /// The next never-used storage id.
    pub fn new_storage_id(&mut self) -> (r: StorageID)
        requires
            old(self).current_id < u64::MAX,
        ensures
            r.0 == old(self).current_id,
            final(self).current_id == old(self).current_id + 1,
            final(self).exports == old(self).exports,
            final(self).config == old(self).config,
            final(self).root == old(self).root,
    {
        let id = StorageID(self.current_id);
        self.current_id = self.current_id + 1;
        id
    }

    /// Decides an export of `path` under a fresh id; `cdrom` marks it as a
    /// read-only optical image.  Fails only when the id space is used up.
    pub fn export_file(&mut self, path: &str, cdrom: bool) -> (r: Result<StorageID, ErrorKind>)
        ensures
            r is Ok <==> old(self).current_id < u64::MAX,
            r matches Ok(id) ==> id.0 == old(self).current_id && final(self).current_id == old(
                self,
            ).current_id + 1 && final(self).exports@.len() == old(self).exports@.len() + 1
                && final(self).exports@.subrange(0, old(self).exports@.len() as int) == old(
                self,
            ).exports@ && final(self).exports@.last().id == id.0
                && final(self).exports@.last().path@ == path@
                && final(self).exports@.last().cdrom == cdrom,
            r is Err ==> *final(self) == *old(self),
            final(self).config == old(self).config,
            final(self).root == old(self).root,
    {
        if self.current_id == u64::MAX {
            return Err(ErrorKind::Msg("storage id space exhausted".to_owned()));
        }
        let id = self.new_storage_id();
        let record = Export { id: id.0, path: path.to_owned(), cdrom };
        proof {
            assert(record.path@ == path@);
        }
        self.exports.push(record);
        Ok(id)
    }

    /// Removes the export carrying `id`; the runtime detaches it.
    pub fn unexport_file(&mut self, id: &StorageID) -> (r: Result<(), ErrorKind>)
        ensures
            r is Ok,
            final(self).exports@ == without_id(old(self).exports@, id.0),
            final(self).current_id == old(self).current_id,
            final(self).config == old(self).config,
            final(self).root == old(self).root,
    {
        let ghost src = self.exports@;
        let mut kept: Vec<Export> = Vec::new();
        let mut i: usize = 0;
        while i < self.exports.len()
            invariant
                i <= self.exports@.len(),
                self.exports@ == src,
                kept@ == without_id(src.subrange(0, i as int), id.0),
            decreases self.exports@.len() - i,
        {
            proof {
                assert(src.subrange(0, (i + 1) as int).drop_last() =~= src.subrange(0, i as int));
                assert(src.subrange(0, (i + 1) as int).last() == src[i as int]);
            }
            if self.exports[i].id != id.0 {
                let e = Export {
                    id: self.exports[i].id,
                    path: self.exports[i].path.clone(),
                    cdrom: self.exports[i].cdrom,
                };
                proof {
                    assert(e == src[i as int]);
                }
                kept.push(e);
            }
            i = i + 1;
        }
        proof {
            assert(src.subrange(0, src.len() as int) =~= src);
        }
        self.exports = kept;
        Ok(())
    }
}

} // verus!
