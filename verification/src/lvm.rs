use crate::error::ErrorKind;
use vstd::prelude::*;
use vstd::string::StringExecFns;

verus! {

/// One logical volume: its name, its device path and its size in bytes.
#[derive(Clone, Debug)]
pub struct LogicalVolume {
    pub name: String,
    pub path: String,
    pub size: u64,
}

/// The summary a volume group reports about itself.
#[derive(Clone, Debug)]
pub struct VolumeGroupReport {
    pub vg_name: String,
    pub vg_attr: String,
    pub vg_extent_size: u64,
    pub pv_count: u32,
    pub lv_count: u32,
    pub snap_count: u32,
    pub vg_size: u64,
    pub vg_free: u64,
    pub vg_uuid: String,
    pub vg_profile: String,
}

/// The volume group the drives live in.  The runtime fills `size`, `free`
/// and `volumes` from the host's volume manager at startup; the engine's
/// create, snapshot and delete operations keep `volumes` in step with the
/// state changes they decide.
#[derive(Clone, Debug)]
pub struct VolumeGroup {
    pub name: String,
    pub path: String,
    pub size: u64,
    pub free: u64,
    pub volumes: Vec<LogicalVolume>,
}

/// `s` without the entries named `name`, order kept.
pub open spec fn without_name(s: Seq<LogicalVolume>, name: Seq<char>) -> Seq<LogicalVolume>
    decreases s.len(),
{
    if s.len() == 0 {
        Seq::empty()
    } else {
        without_name(s.drop_last(), name) + (if s.last().name@ == name {
            Seq::<LogicalVolume>::empty()
        } else {
            seq![s.last()]
        })
    }
}

/// Whether some entry of `s` is named `name`.
pub open spec fn has_name(s: Seq<LogicalVolume>, name: Seq<char>) -> bool {
    exists|i: int| 0 <= i < s.len() && #[trigger] s[i].name@ == name
}

/// The suffix of `s` after its last `/`, or all of `s` when it has none.
pub open spec fn file_name_of(s: Seq<char>) -> Seq<char>
    decreases s.len(),
{
    if s.len() == 0 {
        s
    } else if s.last() == '/' {
        Seq::empty()
    } else {
        file_name_of(s.drop_last()).push(s.last())
    }
}

fn clone_volume(v: &LogicalVolume) -> (r: LogicalVolume)
    ensures
        r == *v,
{
    LogicalVolume { name: v.name.clone(), path: v.path.clone(), size: v.size }
}

impl VolumeGroup {
    /// A volume group named after the last component of its device path.
    /// The path must have a non-empty component after its last slash; a
    /// path ending in a slash is refused, stricter than a resolver that
    /// would step back over it.
    pub fn from_path(path: &str) -> (r: Result<VolumeGroup, ErrorKind>)
        ensures
            r is Ok <==> file_name_of(path@).len() > 0,
            r matches Ok(vg) ==> vg.name@ == file_name_of(path@) && vg.path@ == path@ && vg.size
                == 0 && vg.free == 0 && vg.volumes@.len() == 0,
    {
        let n = path.unicode_len();
        let mut start: usize = 0;
        let mut i: usize = 0;
        while i < n
            invariant
                i <= n,
                n == path@.len(),
                start <= i,
                file_name_of(path@.subrange(0, i as int)) == path@.subrange(start as int, i as int),
            decreases n - i,
        {
            let c = path.get_char(i);
            proof {
                assert(path@.subrange(0, (i + 1) as int).drop_last() =~= path@.subrange(
                    0,
                    i as int,
                ));
                assert(path@.subrange(0, (i + 1) as int).last() == path@[i as int]);
            }
            if c == '/' {
                start = i + 1;
                proof {
                    assert(path@.subrange(start as int, (i + 1) as int) =~= Seq::<char>::empty());
                }
            } else {
                proof {
                    assert(path@.subrange(start as int, (i + 1) as int) =~= path@.subrange(
                        start as int,
                        i as int,
                    ).push(path@[i as int]));
                }
            }
            i = i + 1;
        }
        proof {
            assert(path@.subrange(0, n as int) =~= path@);
        }
        if start == n {
            Err(ErrorKind::Msg("volume group path has no file name".to_owned()))
        } else {
            let name = path.substring_char(start, n);
            Ok(
                VolumeGroup {
                    name: name.to_owned(),
                    path: path.to_owned(),
                    size: 0,
                    free: 0,
                    volumes: Vec::new(),
                },
            )
        }
    }

    /// The group's current summary, assembled from its model fields.
    pub fn report(&self) -> (r: VolumeGroupReport)
        requires
            self.volumes@.len() <= u32::MAX,
        ensures
            r.vg_name@ == self.name@,
            r.vg_size == self.size,
            r.vg_free == self.free,
            r.lv_count == self.volumes@.len(),
    {
        VolumeGroupReport {
            vg_name: self.name.clone(),
            vg_attr: String::new(),
            vg_extent_size: 0,
            pv_count: 1,
            lv_count: self.volumes.len() as u32,
            snap_count: 0,
            vg_size: self.size,
            vg_free: self.free,
            vg_uuid: String::new(),
            vg_profile: String::new(),
        }
    }

    /// A copy of the whole group model: the same name, path, sizes and
    /// volumes.
    pub fn clone_model(&self) -> (r: VolumeGroup)
        ensures
            r.name == self.name,
            r.path == self.path,
            r.size == self.size,
            r.free == self.free,
            r.volumes@ == self.volumes@,
    {
        let volumes = self.volumes();
        VolumeGroup {
            name: self.name.clone(),
            path: self.path.clone(),
            size: self.size,
            free: self.free,
            volumes,
        }
    }

    /// A copy of the volumes the group holds.
    pub fn volumes(&self) -> (r: Vec<LogicalVolume>)
        ensures
            r@ == self.volumes@,
    {
        let mut out: Vec<LogicalVolume> = Vec::new();
        let mut i: usize = 0;
        while i < self.volumes.len()
            invariant
                i <= self.volumes@.len(),
                out@ =~= self.volumes@.subrange(0, i as int),
            decreases self.volumes@.len() - i,
        {
            let v = clone_volume(&self.volumes[i]);
            out.push(v);
            proof {
                assert(out@ =~= self.volumes@.subrange(0, (i + 1) as int));
            }
            i = i + 1;
        }
        proof {
            assert(out@ =~= self.volumes@);
        }
        out
    }

    /// Decides a new volume: it is named `name`, lives under the group's
    /// path and is recorded at the end of the volume list.  The runtime
    /// performs the actual creation.
    pub fn create_volume(&mut self, name: &str, size: u64) -> (r: Result<LogicalVolume, ErrorKind>)
        ensures
            r is Ok,
            r matches Ok(v) ==> v.name@ == name@ && v.path@ == old(self).path@ + seq!['/'] + name@
                && v.size == size && final(self).volumes@ == old(self).volumes@.push(v),
            final(self).name == old(self).name,
            final(self).path == old(self).path,
            final(self).size == old(self).size,
            final(self).free == old(self).free,
    {
        proof {
            reveal_strlit("/");
        }
        let mut path = self.path.clone();
        path.append("/");
        path.append(name);
        let v = LogicalVolume { name: name.to_owned(), path, size };
        let recorded = clone_volume(&v);
        self.volumes.push(recorded);
        Ok(v)
    }

    /// Decides a snapshot of the volume named `name`: a volume of the same
    /// size named `name` plus a backup suffix, recorded at the end of the
    /// list.  Fails exactly when no volume has that name.
    pub fn snapshot_volume(&mut self, name: &str) -> (r: Result<LogicalVolume, ErrorKind>)
        ensures
            r is Ok <==> has_name(old(self).volumes@, name@),
            r matches Ok(v) ==> v.name@ == name@ + "-backup"@ && v.path@ == old(self).path@
                + seq!['/'] + name@ + "-backup"@ && final(self).volumes@ == old(
                self,
            ).volumes@.push(v),
            r is Err ==> final(self).volumes@ == old(self).volumes@,
            final(self).name == old(self).name,
            final(self).path == old(self).path,
            final(self).size == old(self).size,
            final(self).free == old(self).free,
    {
        proof {
            reveal_strlit("/");
        }
        let mut found: Option<u64> = None;
        let mut i: usize = 0;
        while i < self.volumes.len()
            invariant
                i <= self.volumes@.len(),
                match found {
                    Some(sz) => exists|k: int|
                        0 <= k < i && #[trigger] self.volumes@[k].name@ == name@
                            && self.volumes@[k].size == sz,
                    None => forall|k: int| 0 <= k < i ==> (#[trigger] self.volumes@[k].name@)
                        != name@,
                },
            decreases self.volumes@.len() - i,
        {
            if found.is_none() {
                if crate::utils::str_eq(self.volumes[i].name.as_str(), name) {
                    found = Some(self.volumes[i].size);
                }
            }
            i = i + 1;
        }
        match found {
            None => Err(ErrorKind::Msg("unable to find volume to snapshot".to_owned())),
            Some(sz) => {
                let mut snap_name = name.to_owned();
                snap_name.append("-backup");
                let mut path = self.path.clone();
                path.append("/");
                path.append(name);
                path.append("-backup");
                let v = LogicalVolume { name: snap_name, path, size: sz };
                let recorded = clone_volume(&v);
                self.volumes.push(recorded);
                Ok(v)
            },
        }
    }

    /// Removes every record of a volume named `name`; the runtime performs
    /// the actual removal.
    pub fn delete_volume(&mut self, name: &str) -> (r: Result<(), ErrorKind>)
        ensures
            r is Ok,
            final(self).volumes@ == without_name(old(self).volumes@, name@),
            final(self).name == old(self).name,
            final(self).path == old(self).path,
            final(self).size == old(self).size,
            final(self).free == old(self).free,
    {
        let ghost src = self.volumes@;
        let mut kept: Vec<LogicalVolume> = Vec::new();
        let mut i: usize = 0;
        while i < self.volumes.len()
            invariant
                i <= self.volumes@.len(),
                self.volumes@ == src,
                kept@ == without_name(src.subrange(0, i as int), name@),
            decreases self.volumes@.len() - i,
        {
            proof {
                assert(src.subrange(0, (i + 1) as int).drop_last() =~= src.subrange(0, i as int));
                assert(src.subrange(0, (i + 1) as int).last() == src[i as int]);
            }
            if !crate::utils::str_eq(self.volumes[i].name.as_str(), name) {
                let v = clone_volume(&self.volumes[i]);
                kept.push(v);
            }
            i = i + 1;
        }
        proof {
            assert(src.subrange(0, src.len() as int) =~= src);
        }
        self.volumes = kept;
        Ok(())
    }
}

/// One row of the host's logical-volume report, as plain values.
#[derive(Debug, Clone)]
pub struct VolumeRow {
    pub lv_name: String,
    pub vg_name: String,
    pub lv_attr: String,
    pub lv_size: String,
}

/// One row of the host's group report, as plain values.
#[derive(Debug, Clone)]
pub struct GroupRow {
    pub vg_name: String,
    pub vg_size: String,
    pub vg_free: String,
}

/// Whether an attribute column marks the thin pool itself.
pub open spec fn thin_pool_row(attr: Seq<char>) -> bool {
    attr.len() > 0 && attr[0] == 't'
}

/// Whether a report row belongs to this group's drive list: it bears the
/// group's name and is not the thin pool.
pub open spec fn row_selected(row: VolumeRow, vg: Seq<char>) -> bool {
    row.vg_name@ == vg && !thin_pool_row(row.lv_attr@)
}

/// The rows of the report that belong to this group's drive list, in
/// order.
pub open spec fn selected_rows(rows: Seq<VolumeRow>, vg: Seq<char>) -> Seq<VolumeRow>
    decreases rows.len(),
{
    if rows.len() == 0 {
        Seq::empty()
    } else {
        selected_rows(rows.drop_last(), vg) + (if row_selected(rows.last(), vg) {
            seq![rows.last()]
        } else {
            Seq::<VolumeRow>::empty()
        })
    }
}

/// The last report row bearing the group's name, if any.
pub open spec fn last_group_row(rows: Seq<GroupRow>, vg: Seq<char>) -> Option<GroupRow>
    decreases rows.len(),
{
    if rows.len() == 0 {
        None
    } else if rows.last().vg_name@ == vg {
        Some(rows.last())
    } else {
        last_group_row(rows.drop_last(), vg)
    }
}

impl VolumeGroup {
    /// Fills the drive list from the host's volume report: this group's
    /// rows that are not the thin pool itself, in order, each mapped to
    /// its name, its device path under the group, and its parsed size.
    pub fn load_volumes(&mut self, rows: &Vec<VolumeRow>)
        ensures
            final(self).name == old(self).name,
            final(self).path == old(self).path,
            final(self).size == old(self).size,
            final(self).free == old(self).free,
            volumes_loaded(
                final(self).volumes@,
                old(self).path@,
                selected_rows(rows@, old(self).name@),
            ),
    {
        let out = build_volumes(&self.path, &self.name, rows);
        self.volumes = out;
    }

    /// Takes the group's capacity from the host's group report: the last
    /// row bearing the group's name decides the size and the free bytes;
    /// without one, nothing changes.
    pub fn set_capacity(&mut self, rows: &Vec<GroupRow>)
        ensures
            final(self).name == old(self).name,
            final(self).path == old(self).path,
            final(self).volumes == old(self).volumes,
            (match last_group_row(rows@, old(self).name@) {
                Some(row) => final(self).size == byte_value(row.vg_size@) && final(self).free
                    == byte_value(row.vg_free@),
                None => final(self).size == old(self).size && final(self).free == old(self).free,
            }),
    {
        let ghost vgname = self.name@;
        let n = rows.len();
        let mut i: usize = 0;
        while i < n
            invariant
                i <= n,
                n == rows@.len(),
                self.name == old(self).name,
                self.path == old(self).path,
                self.volumes == old(self).volumes,
                vgname == old(self).name@,
                (match last_group_row(rows@.subrange(0, i as int), vgname) {
                    Some(row) => self.size == byte_value(row.vg_size@) && self.free == byte_value(
                        row.vg_free@,
                    ),
                    None => self.size == old(self).size && self.free == old(self).free,
                }),
            decreases n - i,
        {
            proof {
                assert(rows@.subrange(0, (i + 1) as int).drop_last() =~= rows@.subrange(
                    0,
                    i as int,
                ));
                assert(rows@.subrange(0, (i + 1) as int).last() == rows@[i as int]);
            }
            let row = &rows[i];
            if crate::utils::str_eq(row.vg_name.as_str(), self.name.as_str()) {
                self.size = parse_bytes(row.vg_size.as_str());
                self.free = parse_bytes(row.vg_free.as_str());
            }
            i = i + 1;
        }
        proof {
            assert(rows@.subrange(0, n as int) =~= rows@);
        }
    }
}

/// The built drive records match the selected report rows, entry for
/// entry: same name, the device path under the group, and the parsed
/// size.
pub open spec fn volumes_loaded(
    vols: Seq<LogicalVolume>,
    path: Seq<char>,
    sel: Seq<VolumeRow>,
) -> bool {
    &&& vols.len() == sel.len()
    &&& forall|i: int|
        0 <= i < sel.len() ==> {
            &&& (#[trigger] vols[i].name@) == sel[i].lv_name@
            &&& vols[i].path@ == path + seq!['/'] + sel[i].lv_name@
            &&& vols[i].size == byte_value(sel[i].lv_size@)
        }
}

/// Builds the drive records the host's volume report describes for one
/// group: its non-pool rows in order, named, pathed under the group and
/// sized.
fn build_volumes(path: &String, name: &String, rows: &Vec<VolumeRow>) -> (out: Vec<LogicalVolume>)
    ensures
        volumes_loaded(out@, path@, selected_rows(rows@, name@)),
{
    let ghost vgname = name@;
    let mut out: Vec<LogicalVolume> = Vec::new();
    let mut i: usize = 0;
    while i < rows.len()
        invariant
            i <= rows@.len(),
            vgname == name@,
            volumes_loaded(out@, path@, selected_rows(rows@.subrange(0, i as int), vgname)),
        decreases rows@.len() - i,
    {
        proof {
            reveal_strlit("/");
            assert(rows@.subrange(0, (i + 1) as int).drop_last() =~= rows@.subrange(0, i as int));
            assert(rows@.subrange(0, (i + 1) as int).last() == rows@[i as int]);
            let pre = rows@.subrange(0, i as int);
            let cur = rows@.subrange(0, (i + 1) as int);
            if row_selected(rows@[i as int], vgname) {
                assert(selected_rows(cur, vgname) =~= selected_rows(pre, vgname) + seq![
                    rows@[i as int],
                ]);
            } else {
                assert(selected_rows(cur, vgname) =~= selected_rows(pre, vgname));
            }
        }
        let row = &rows[i];
        let same_group = crate::utils::str_eq(row.vg_name.as_str(), name.as_str());
        let attr_len = row.lv_attr.as_str().unicode_len();
        let thin = if attr_len > 0 {
            row.lv_attr.as_str().get_char(0) == 't'
        } else {
            false
        };
        if same_group && !thin {
            proof {
                assert(row_selected(rows@[i as int], vgname));
            }
            let mut vpath = path.clone();
            vpath.append("/");
            vpath.append(row.lv_name.as_str());
            let size = parse_bytes(row.lv_size.as_str());
            let v = LogicalVolume { name: row.lv_name.clone(), path: vpath, size };
            proof {
                reveal_strlit("/");
                assert(v.path@ == path@ + seq!['/'] + rows@[i as int].lv_name@);
            }
            out.push(v);
            proof {
                let pre_sel = selected_rows(rows@.subrange(0, i as int), vgname);
                let cur_sel = selected_rows(rows@.subrange(0, (i + 1) as int), vgname);
                assert(cur_sel == pre_sel + seq![rows@[i as int]]);
                assert forall|k: int| 0 <= k < cur_sel.len() implies {
                    &&& (#[trigger] out@[k].name@) == cur_sel[k].lv_name@
                    &&& out@[k].path@ == path@ + seq!['/'] + cur_sel[k].lv_name@
                    &&& out@[k].size == byte_value(cur_sel[k].lv_size@)
                } by {
                    if k < pre_sel.len() {
                        assert(cur_sel[k] == pre_sel[k]);
                        assert(out@[k] == out@.drop_last()[k]);
                    } else {
                        assert(cur_sel[k] == rows@[i as int]);
                        assert(out@[k] == v);
                    }
                }
                assert(volumes_loaded(out@, path@, cur_sel));
            }
        } else {
            proof {
                assert(!row_selected(rows@[i as int], vgname));
                let pre_sel = selected_rows(rows@.subrange(0, i as int), vgname);
                let cur_sel = selected_rows(rows@.subrange(0, (i + 1) as int), vgname);
                assert(cur_sel == pre_sel);
                assert(volumes_loaded(out@, path@, cur_sel));
            }
        }
        i = i + 1;
    }
    proof {
        assert(rows@.subrange(0, rows@.len() as int) =~= rows@);
        assert(selected_rows(rows@.subrange(0, rows@.len() as int), vgname) == selected_rows(
            rows@,
            name@,
        ));
        assert(volumes_loaded(out@, path@, selected_rows(rows@, name@)));
    }
    out
}

/// The numeric value of one decimal digit character.
pub open spec fn dec_char_val(c: char) -> Option<nat> {
    if c == '0' {
        Some(0 as nat)
    } else if c == '1' {
        Some(1 as nat)
    } else if c == '2' {
        Some(2 as nat)
    } else if c == '3' {
        Some(3 as nat)
    } else if c == '4' {
        Some(4 as nat)
    } else if c == '5' {
        Some(5 as nat)
    } else if c == '6' {
        Some(6 as nat)
    } else if c == '7' {
        Some(7 as nat)
    } else if c == '8' {
        Some(8 as nat)
    } else if c == '9' {
        Some(9 as nat)
    } else {
        None
    }
}

/// The value of a non-empty all-digit text; `None` otherwise.
pub open spec fn digits_val(s: Seq<char>) -> Option<int>
    decreases s.len(),
{
    if s.len() == 0 {
        None
    } else if s.len() == 1 {
        match dec_char_val(s[0]) {
            Some(d) => Some(d as int),
            None => None,
        }
    } else {
        match (digits_val(s.drop_last()), dec_char_val(s.last())) {
            (Some(v), Some(d)) => Some(v * 10 + d),
            _ => None,
        }
    }
}

/// A number's value is never negative.
pub proof fn lemma_digits_nonneg(s: Seq<char>)
    requires
        digits_val(s) is Some,
    ensures
        digits_val(s)->0 >= 0,
    decreases s.len(),
{
    if s.len() > 1 {
        lemma_digits_nonneg(s.drop_last());
    }
}

/// A parsed number only grows as digits are appended.
pub proof fn lemma_digits_grow(s: Seq<char>, j: int)
    requires
        1 <= j <= s.len(),
        digits_val(s) is Some,
        digits_val(s.subrange(0, j)) is Some,
    ensures
        digits_val(s)->0 >= digits_val(s.subrange(0, j))->0,
    decreases s.len() - j,
{
    if j == s.len() {
        assert(s.subrange(0, j) =~= s);
    } else {
        let t = s.drop_last();
        assert(digits_val(t) is Some);
        assert(t.subrange(0, j) =~= s.subrange(0, j));
        lemma_digits_grow(t, j);
        lemma_digits_nonneg(t);
        assert(digits_val(s)->0 == digits_val(t)->0 * 10 + dec_char_val(s.last())->0);
    }
}

/// A text with a non-digit character has no value.
pub proof fn lemma_digits_bad(s: Seq<char>, j: int)
    requires
        0 <= j < s.len(),
        dec_char_val(s[j]) is None,
    ensures
        digits_val(s) is None,
    decreases s.len(),
{
    if s.len() > 1 && j < s.len() - 1 {
        assert(s.drop_last()[j] == s[j]);
        lemma_digits_bad(s.drop_last(), j);
    }
}

/// The byte count a volume report column names: the decimal value of the
/// text with its unit letter trimmed from either end, or zero when the
/// text is not a number or does not fit the machine.
pub open spec fn byte_value(s: Seq<char>) -> int {
    match digits_val(trim_unit(s)) {
        Some(v) => if v <= u64::MAX {
            v
        } else {
            0
        },
        None => 0,
    }
}

/// The text with every leading and trailing unit letter removed.
pub open spec fn trim_unit(s: Seq<char>) -> Seq<char>
    decreases s.len(),
{
    if s.len() > 0 && s[0] == 'B' {
        trim_unit(s.drop_first())
    } else if s.len() > 0 && s.last() == 'B' {
        trim_unit(s.drop_last())
    } else {
        s
    }
}

fn char_digit(c: char) -> (r: Option<u64>)
    ensures
        (match r {
            Some(d) => dec_char_val(c) == Some(d as nat),
            None => dec_char_val(c) is None,
        }),
{
    match c {
        '0' => Some(0),
        '1' => Some(1),
        '2' => Some(2),
        '3' => Some(3),
        '4' => Some(4),
        '5' => Some(5),
        '6' => Some(6),
        '7' => Some(7),
        '8' => Some(8),
        '9' => Some(9),
        _ => None,
    }
}

/// Parses a byte count of a volume report: the decimal value of the text
/// with the unit letter trimmed, or zero when it is malformed or does
/// not fit.
pub fn parse_bytes(text: &str) -> (r: u64)
    ensures
        r == byte_value(text@),
{
    let n = text.unicode_len();
    proof {
        assert(text@.subrange(0, n as int) =~= text@);
    }
    let mut start: usize = 0;
    let mut end: usize = n;
    while start < end && text.get_char(start) == 'B'
        invariant
            start <= end <= n,
            n == text@.len(),
            trim_unit(text@) == trim_unit(text@.subrange(start as int, end as int)),
        decreases end - start,
    {
        proof {
            assert(text@.subrange(start as int, end as int).drop_first() =~= text@.subrange(
                start as int + 1,
                end as int,
            ));
        }
        start = start + 1;
    }
    while start < end && text.get_char(end - 1) == 'B'
        invariant
            start <= end <= n,
            n == text@.len(),
            trim_unit(text@) == trim_unit(text@.subrange(start as int, end as int)),
            start < end ==> text@[start as int] != 'B',
        decreases end - start,
    {
        proof {
            assert(text@.subrange(start as int, end as int).drop_last() =~= text@.subrange(
                start as int,
                end as int - 1,
            ));
        }
        end = end - 1;
    }
    let ghost trimmed = text@.subrange(start as int, end as int);
    proof {
        assert(trim_unit(trimmed) == trimmed);
        assert(trim_unit(text@) == trimmed);
    }
    if start == end {
        return 0;
    }
    let mut acc: u64 = 0;
    let mut j: usize = start;
    while j < end
        invariant
            start <= j <= end <= n,
            n == text@.len(),
            start < end,
            trimmed == text@.subrange(start as int, end as int),
            trim_unit(text@) == trimmed,
            j > start ==> digits_val(text@.subrange(start as int, j as int)) == Some(acc as int),
            j == start ==> acc == 0,
        decreases end - j,
    {
        let c = text.get_char(j);
        let d = match char_digit(c) {
            Some(d) => d,
            None => {
                proof {
                    assert(trimmed[j - start] == text@[j as int]);
                    lemma_digits_bad(trimmed, j - start);
                }
                return 0;
            },
        };
        let wide: u128 = acc as u128 * 10 + d as u128;
        if wide > u64::MAX as u128 {
            proof {
                let pre = text@.subrange(start as int, j as int);
                let cur = text@.subrange(start as int, j as int + 1);
                assert(cur.drop_last() =~= pre);
                assert(cur.last() == text@[j as int]);
                if j == start {
                    assert(false);
                }
                assert(digits_val(cur) == Some(wide as int));
                assert(cur =~= trimmed.subrange(0, j as int + 1 - start as int));
                if digits_val(trimmed) is Some {
                    lemma_digits_grow(trimmed, j as int + 1 - start as int);
                }
            }
            return 0;
        }
        proof {
            let pre = text@.subrange(start as int, j as int);
            let cur = text@.subrange(start as int, j as int + 1);
            assert(cur.drop_last() =~= pre);
            assert(cur.last() == text@[j as int]);
        }
        acc = wide as u64;
        j = j + 1;
    }
    proof {
        assert(text@.subrange(start as int, end as int) =~= trimmed);
    }
    acc
}

} // verus!
