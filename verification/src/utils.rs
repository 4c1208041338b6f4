use vstd::prelude::*;
use vstd::string::StringExecFns;

verus! {

/// The character for one decimal digit.
pub open spec fn dec_digit(d: nat) -> char {
    if d == 0 {
        '0'
    } else if d == 1 {
        '1'
    } else if d == 2 {
        '2'
    } else if d == 3 {
        '3'
    } else if d == 4 {
        '4'
    } else if d == 5 {
        '5'
    } else if d == 6 {
        '6'
    } else if d == 7 {
        '7'
    } else if d == 8 {
        '8'
    } else {
        '9'
    }
}

/// The usual decimal rendering of a number, most significant digit first,
/// with no leading zeros (a lone zero for zero itself).
pub open spec fn dec_seq(n: nat) -> Seq<char>
    decreases n,
{
    if n < 10 {
        seq![dec_digit(n)]
    } else {
        dec_seq(n / 10) + seq![dec_digit(n % 10)]
    }
}

/// The one-character decimal rendering of a digit.
pub fn digit_str(d: u64) -> (s: &'static str)
    requires
        d < 10,
    ensures
        s@ == seq![dec_digit(d as nat)],
{
    proof {
        reveal_strlit("0");
        reveal_strlit("1");
        reveal_strlit("2");
        reveal_strlit("3");
        reveal_strlit("4");
        reveal_strlit("5");
        reveal_strlit("6");
        reveal_strlit("7");
        reveal_strlit("8");
        reveal_strlit("9");
    }
    match d {
        0 => "0",
        1 => "1",
        2 => "2",
        3 => "3",
        4 => "4",
        5 => "5",
        6 => "6",
        7 => "7",
        8 => "8",
        _ => "9",
    }
}

/// Character-wise string comparison.
pub fn str_eq(a: &str, b: &str) -> (r: bool)
    ensures
        r == (a@ == b@),
{
    let s1 = a.to_owned();
    let s2 = b.to_owned();
    s1 == s2
}

/// The last path component: the suffix after the last slash.  Empty when
/// the path ends in a slash.
pub fn file_name(path: &str) -> (r: String)
    ensures
        r@ == crate::lvm::file_name_of(path@),
{
    let n = path.unicode_len();
    let mut start: usize = 0;
    let mut i: usize = 0;
    while i < n
        invariant
            i <= n,
            n == path@.len(),
            start <= i,
            crate::lvm::file_name_of(path@.subrange(0, i as int)) == path@.subrange(
                start as int,
                i as int,
            ),
        decreases n - i,
    {
        let c = path.get_char(i);
        proof {
            assert(path@.subrange(0, (i + 1) as int).drop_last() =~= path@.subrange(0, i as int));
            assert(path@.subrange(0, (i + 1) as int).last() == path@[i as int]);
        }
        if c == '/' {
            start = i + 1;
            proof {
                assert(path@.subrange(start as int, (i + 1) as int) =~= Seq::<char>::empty());
            }
        } else {
            proof {
                assert(path@.subrange(start as int, (i + 1) as int) =~= path@.subrange(
                    start as int,
                    i as int,
                ).push(path@[i as int]));
            }
        }
        i = i + 1;
    }
    proof {
        assert(path@.subrange(0, n as int) =~= path@);
    }
    let name = path.substring_char(start, n);
    name.to_owned()
}

/// Renders a number in decimal.
pub fn u64_to_dec(n: u64) -> (s: String)
    ensures
        s@ == dec_seq(n as nat),
    decreases n,
{
    if n < 10 {
        digit_str(n).to_owned()
    } else {
        let mut s = u64_to_dec(n / 10);
        s.append(digit_str(n % 10));
        s
    }
}

/// The name of the numbered drive.
pub open spec fn drive_name(k: nat) -> Seq<char> {
    "Drive"@ + dec_seq(k)
}

/// Builds the name of the numbered drive.
pub fn drive_name_exec(k: u64) -> (r: String)
    ensures
        r@ == drive_name(k as nat),
{
    let mut s = "Drive".to_owned();
    let num = u64_to_dec(k);
    s.append(num.as_str());
    s
}

/// The smallest drive number, starting at one, whose name no volume of
/// the group carries; at most one more than the number of volumes is
/// tried, so the search fails only when every one of those candidates is
/// taken.
pub fn next_available_drive_name(vg: &crate::lvm::VolumeGroup) -> (r: Result<
    String,
    crate::error::ErrorKind,
>)
    requires
        vg.volumes@.len() < u64::MAX - 1,
    ensures
        r matches Ok(s) ==> exists|k: nat|
            {
                &&& 1 <= k <= vg.volumes@.len() + 1
                &&& s@ == drive_name(k)
                &&& !crate::lvm::has_name(vg.volumes@, #[trigger] drive_name(k))
                &&& forall|m: nat|
                    1 <= m < k ==> crate::lvm::has_name(vg.volumes@, #[trigger] drive_name(m))
            },
        r is Err ==> forall|k: nat|
            1 <= k <= vg.volumes@.len() + 1 ==> crate::lvm::has_name(vg.volumes@, #[trigger] drive_name(k)),
{
    let volumes = vg.volumes();
    let n = volumes.len();
    let mut num: u64 = 1;
    while num <= n as u64 + 1
        invariant
            1 <= num <= vg.volumes@.len() + 2,
            n == vg.volumes@.len(),
            volumes@ == vg.volumes@,
            n < u64::MAX - 1,
            forall|k: nat|
                1 <= k < num ==> crate::lvm::has_name(vg.volumes@, #[trigger] drive_name(k)),
        decreases n as u64 + 2 - num,
    {
        let candidate = drive_name_exec(num);
        let mut used = false;
        let mut i: usize = 0;
        while i < volumes.len()
            invariant
                i <= volumes@.len(),
                volumes@ == vg.volumes@,
                candidate@ == drive_name(num as nat),
                used ==> crate::lvm::has_name(vg.volumes@, candidate@),
                !used ==> forall|j: int|
                    0 <= j < i ==> (#[trigger] vg.volumes@[j].name@) != candidate@,
            decreases volumes@.len() - i,
        {
            if str_eq(volumes[i].name.as_str(), candidate.as_str()) {
                used = true;
            }
            i = i + 1;
        }
        if !used {
            proof {
                assert(!crate::lvm::has_name(vg.volumes@, candidate@));
                assert(1 <= num as nat <= vg.volumes@.len() + 1 && candidate@ == drive_name(
                    num as nat,
                ) && !crate::lvm::has_name(vg.volumes@, drive_name(num as nat)) && forall|m: nat|
                    1 <= m < num as nat ==> crate::lvm::has_name(
                        vg.volumes@,
                        #[trigger] drive_name(m),
                    ));
            }
            return Ok(candidate);
        }
        num = num + 1;
    }
    Err(crate::error::ErrorKind::Msg("failed to find valid drive number".to_owned()))
}

/// The display name `name` translates to: the configured override for
/// the first entry whose name (or backup-suffixed name) matches, or
/// `name` itself.
pub open spec fn translate_spec(
    drives: Seq<crate::config::DriveRenameConfig>,
    name: Seq<char>,
) -> Seq<char>
    decreases drives.len(),
{
    if drives.len() == 0 {
        name
    } else if drives[0].name@ == name {
        drives[0].newname@
    } else if drives[0].name@ + "-backup"@ == name {
        drives[0].newname@ + "-backup"@
    } else {
        translate_spec(drives.skip(1), name)
    }
}

/// Applies the configured display-name overrides to a drive name; a
/// configuration with no overrides leaves every name as it is.
pub fn translate_drive_name(name: &str, config: &crate::config::Config) -> (r: String)
    ensures
        (match config.drive {
            Some(drives) => r@ == translate_spec(drives@, name@),
            None => r@ == name@,
        }),
{
    proof {
        reveal_strlit("-backup");
    }
    match &config.drive {
        None => name.to_owned(),
        Some(drives) => {
            proof {
                assert(drives@.skip(0) =~= drives@);
            }
            let mut i: usize = 0;
            while i < drives.len()
                invariant
                    i <= drives@.len(),
                    (config.drive matches Some(dd) && dd == *drives),
                    translate_spec(drives@, name@) == translate_spec(
                        drives@.skip(i as int),
                        name@,
                    ),
                decreases drives@.len() - i,
            {
                proof {
                    assert(drives@.skip(i as int)[0] == drives@[i as int]);
                    assert(drives@.skip(i as int).skip(1) =~= drives@.skip(i as int + 1));
                }
                if str_eq(drives[i].name.as_str(), name) {
                    return drives[i].newname.clone();
                }
                let mut backup = drives[i].name.clone();
                backup.append("-backup");
                if str_eq(backup.as_str(), name) {
                    let mut out = drives[i].newname.clone();
                    out.append("-backup");
                    return out;
                }
                i = i + 1;
            }
            proof {
                assert(drives@.skip(drives@.len() as int)
                    =~= Seq::<crate::config::DriveRenameConfig>::empty());
            }
            name.to_owned()
        },
    }
}

} // verus!

