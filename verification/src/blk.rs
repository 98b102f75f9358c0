//! The block-topology resolver: classify a block identifier and enumerate
//! the ownership chain (partition, SCSI disk, multipath map, LVM volume)
//! with stable identifiers, over a `Sysfs` snapshot.

use vstd::prelude::*;

use crate::error::{BlkErrKind, PeripetyError, err_matches};
use crate::strutil::{
    basename, basename_of, concat2, concat3, find_prefix_entry, first_with_prefix,
    is_digit, is_prefix, starts_with, str_eq, substr,
};
use crate::sysfs::Sysfs;
use crate::transport::{get_transport_id, tid_of_pairs, transport_info_spec};
use crate::wwid::{pretty_wwid, pretty_wwid_spec};

verus! {

broadcast use vstd::std_specs::vec::group_vec_axioms;

/// How many links of holders, slaves and symlinks a resolution may follow.
/// Real device stacks are a handful of layers deep; the resolver reports
/// `InternalBug` rather than follow a longer (necessarily cyclic) chain.
pub const RESOLVE_DEPTH: u64 = 32;

/// What a block device is.
#[derive(Clone, Copy, Debug, PartialEq, Eq, Structural)]
pub enum BlkType {
    Unknown,
    Other,
    Scsi,
    Dm,
    DmMultipath,
    DmLvm,
    Partition,
}

impl BlkType {
    /// The human-readable name of the type.
    pub fn display_name(&self) -> (r: &'static str)
        ensures
            r@ == self.spec_display_name(),
    {
        match self {
            BlkType::Unknown => "Unknown",
            BlkType::Other => "Other",
            BlkType::Scsi => "SCSI",
            BlkType::Dm => "Device Mapper",
            BlkType::DmMultipath => "Device Mapper Multipath",
            BlkType::DmLvm => "Device Mapper LVM",
            BlkType::Partition => "Partition",
        }
    }

    pub open spec fn spec_display_name(&self) -> Seq<char> {
        match self {
            BlkType::Unknown => "Unknown"@,
            BlkType::Other => "Other"@,
            BlkType::Scsi => "SCSI"@,
            BlkType::Dm => "Device Mapper"@,
            BlkType::DmMultipath => "Device Mapper Multipath"@,
            BlkType::DmLvm => "Device Mapper LVM"@,
            BlkType::Partition => "Partition"@,
        }
    }
}

/// One ancestor in the ownership chain of a block device. Owners form a
/// flat sequence, already flattened depth-first, so an owner carries no
/// owners of its own.
pub struct BlkOwner {
    pub wwid: String,
    pub blk_type: BlkType,
    pub blk_path: String,
    pub preferred_blk_path: String,
    pub uuid: Option<String>,
    pub mount_point: Option<String>,
    pub transport_id: String,
}

/// The enriched description of one block device.
pub struct BlkInfo {
    pub wwid: String,
    pub blk_type: BlkType,
    pub blk_path: String,
    pub preferred_blk_path: String,
    pub uuid: Option<String>,
    pub mount_point: Option<String>,
    pub transport_id: String,
    pub owners: Vec<BlkOwner>,
}

/// The mathematical shape of one owner.
#[verifier::ext_equal]
pub ghost struct OwnerV {
    pub wwid: Seq<char>,
    pub blk_type: BlkType,
    pub blk_path: Seq<char>,
    pub preferred_blk_path: Seq<char>,
    pub uuid: Option<Seq<char>>,
    pub mount_point: Option<Seq<char>>,
    pub transport_id: Seq<char>,
}

/// The mathematical shape of a `BlkInfo`.
#[verifier::ext_equal]
pub ghost struct BlkInfoV {
    pub wwid: Seq<char>,
    pub blk_type: BlkType,
    pub blk_path: Seq<char>,
    pub preferred_blk_path: Seq<char>,
    pub uuid: Option<Seq<char>>,
    pub mount_point: Option<Seq<char>>,
    pub transport_id: Seq<char>,
    pub owners: Seq<OwnerV>,
}

impl View for BlkOwner {
    type V = OwnerV;

    open spec fn view(&self) -> OwnerV {
        OwnerV {
            wwid: self.wwid@,
            blk_type: self.blk_type,
            blk_path: self.blk_path@,
            preferred_blk_path: self.preferred_blk_path@,
            uuid: match self.uuid {
                Some(u) => Some(u@),
                None => None,
            },
            mount_point: match self.mount_point {
                Some(m) => Some(m@),
                None => None,
            },
            transport_id: self.transport_id@,
        }
    }
}

pub open spec fn owners_view(os: Seq<BlkOwner>) -> Seq<OwnerV> {
    os.map_values(|o: BlkOwner| o.view())
}

impl View for BlkInfo {
    type V = BlkInfoV;

    open spec fn view(&self) -> BlkInfoV {
        BlkInfoV {
            wwid: self.wwid@,
            blk_type: self.blk_type,
            blk_path: self.blk_path@,
            preferred_blk_path: self.preferred_blk_path@,
            uuid: match self.uuid {
                Some(u) => Some(u@),
                None => None,
            },
            mount_point: match self.mount_point {
                Some(m) => Some(m@),
                None => None,
            },
            transport_id: self.transport_id@,
            owners: owners_view(self.owners@),
        }
    }
}

impl BlkInfoV {
    /// This device as one owner entry of a deeper device.
    pub open spec fn as_owner(self) -> OwnerV {
        OwnerV {
            wwid: self.wwid,
            blk_type: self.blk_type,
            blk_path: self.blk_path,
            preferred_blk_path: self.preferred_blk_path,
            uuid: self.uuid,
            mount_point: self.mount_point,
            transport_id: self.transport_id,
        }
    }
}

pub open spec fn is_lower(c: char) -> bool {
    'a' <= c && c <= 'z'
}

/// A whole SCSI disk kernel name: `sd` followed by letters.
pub open spec fn is_sd_name(s: Seq<char>) -> bool {
    s.len() >= 3 && s[0] == 's' && s[1] == 'd' && forall|i: int|
        2 <= i < s.len() ==> is_lower(#[trigger] s[i])
}

/// Where the trailing run of digits starts; `s.len()` when there is none.
pub open spec fn digits_start(s: Seq<char>) -> int
    decreases s.len(),
{
    if s.len() > 0 && is_digit(s.last()) {
        digits_start(s.drop_last())
    } else {
        s.len() as int
    }
}

/// A SCSI partition kernel name: a whole-disk name followed by digits.
pub open spec fn is_sd_part_name(s: Seq<char>) -> bool {
    digits_start(s) < s.len() && is_sd_name(s.subrange(0, digits_start(s)))
}

pub open spec fn count_char(s: Seq<char>, c: char) -> int
    decreases s.len(),
{
    if s.len() == 0 {
        0
    } else {
        count_char(s.drop_last(), c) + if s.last() == c {
            1int
        } else {
            0int
        }
    }
}

/// `n + 1` non-empty decimal groups separated by `n` colons.
pub open spec fn is_colon_digits(s: Seq<char>, n: int) -> bool {
    s.len() > 0 && count_char(s, ':') == n && s[0] != ':' && s.last() != ':' && (forall|
        i: int,
    |
        0 <= i < s.len() ==> is_digit(#[trigger] s[i]) || s[i] == ':') && (forall|i: int|
        0 <= i < s.len() - 1 ==> !(#[trigger] s[i] == ':' && s[i + 1] == ':'))
}

/// A SCSI `H:C:T:L` id.
pub open spec fn is_scsi_id(s: Seq<char>) -> bool {
    is_colon_digits(s, 3)
}

/// A `major:minor` pair.
pub open spec fn is_major_minor(s: Seq<char>) -> bool {
    is_colon_digits(s, 1)
}

pub open spec fn starts_dm_dash(s: Seq<char>) -> bool {
    s.len() >= 3 && s[0] == 'd' && s[1] == 'm' && s[2] == '-'
}

fn check_sd_name(s: &str) -> (r: bool)
    ensures
        r == is_sd_name(s@),
{
    let n: usize = s.unicode_len();
    if n < 3 || s.get_char(0) != 's' || s.get_char(1) != 'd' {
        return false;
    }
    let mut i: usize = 2;
    while i < n
        invariant
            2 <= i <= n,
            n == s@.len(),
            forall|j: int| 2 <= j < i ==> is_lower(#[trigger] s@[j]),
        decreases n - i,
    {
        let c = s.get_char(i);
        if c < 'a' || c > 'z' {
            return false;
        }
        i += 1;
    }
    true
}

/// A run of trailing digits does not move where the run starts.
proof fn lemma_digits_cut(s: Seq<char>, e: int)
    requires
        0 <= e <= s.len(),
        forall|j: int| e <= j < s.len() ==> is_digit(#[trigger] s[j]),
    ensures
        digits_start(s) == digits_start(s.subrange(0, e)),
    decreases s.len() - e,
{
    if e < s.len() {
        assert(is_digit(s.last()));
        assert(s.drop_last() =~= s.subrange(0, s.len() - 1));
        lemma_digits_cut(s.subrange(0, s.len() - 1), e);
        assert(s.subrange(0, s.len() - 1).subrange(0, e) =~= s.subrange(0, e));
    } else {
        assert(s.subrange(0, e) =~= s);
    }
}

fn check_digits_start(s: &str) -> (r: usize)
    ensures
        r as int == digits_start(s@),
        r <= s@.len(),
{
    let n: usize = s.unicode_len();
    let mut e: usize = n;
    while e > 0 && '0' <= s.get_char(e - 1) && s.get_char(e - 1) <= '9'
        invariant
            0 <= e <= n,
            n == s@.len(),
            forall|j: int| e <= j < n ==> is_digit(#[trigger] s@[j]),
        decreases e,
    {
        e -= 1;
    }
    proof {
        lemma_digits_cut(s@, e as int);
        if e > 0 {
            assert(s@.subrange(0, e as int).last() == s@[e - 1]);
        }
        assert(digits_start(s@.subrange(0, e as int)) == e as int);
    }
    e
}

fn check_colon_digits(s: &str, n_colon: u64) -> (r: bool)
    ensures
        r == is_colon_digits(s@, n_colon as int),
{
    let n: usize = s.unicode_len();
    if n == 0 {
        return false;
    }
    if s.get_char(0) == ':' || s.get_char(n - 1) == ':' {
        return false;
    }
    let mut cnt: u64 = 0;
    let mut i: usize = 0;
    proof {
        assert(s@.subrange(0, 0) =~= Seq::<char>::empty());
    }
    while i < n
        invariant
            0 <= i <= n,
            n == s@.len(),
            cnt <= i,
            cnt as int == count_char(s@.subrange(0, i as int), ':'),
            forall|j: int| 0 <= j < i ==> is_digit(#[trigger] s@[j]) || s@[j] == ':',
            forall|j: int| 0 <= j < i - 1 ==> !(#[trigger] s@[j] == ':' && s@[j + 1]
                == ':'),
        decreases n - i,
    {
        let c = s.get_char(i);
        if !(('0' <= c && c <= '9') || c == ':') {
            return false;
        }
        if c == ':' {
            if i > 0 && s.get_char(i - 1) == ':' {
                return false;
            }
            cnt += 1;
        }
        i += 1;
        proof {
            assert(s@.subrange(0, i as int).drop_last() =~= s@.subrange(0, i as int - 1));
            assert(s@.subrange(0, i as int).last() == s@[i - 1]);
        }
    }
    proof {
        assert(s@.subrange(0, n as int) =~= s@);
    }
    cnt == n_colon
}

fn check_starts_dm_dash(s: &str) -> (r: bool)
    ensures
        r == starts_dm_dash(s@),
{
    let n: usize = s.unicode_len();
    n >= 3 && s.get_char(0) == 'd' && s.get_char(1) == 'm' && s.get_char(2) == '-'
}

/// The first `dm-*` holder of a whole disk, if one exists.
pub open spec fn holder_dm_spec(fs: Sysfs, blk: Seq<char>) -> Option<Seq<char>> {
    match fs.dir_at("/sys/block/"@ + blk + "/holders"@) {
        None => None,
        Some(es) => first_with_prefix(es, "dm-"@),
    }
}

pub fn get_holder_dm_name(fs: &Sysfs, blk: &str) -> (r: Option<String>)
    ensures
        match r {
            Some(d) => holder_dm_spec(*fs, blk@) == Some(d@),
            None => holder_dm_spec(*fs, blk@) is None,
        },
{
    let p = concat3("/sys/block/", blk, "/holders");
    match fs.read_dir(p.as_str()) {
        Err(_) => None,
        Ok(es) => match find_prefix_entry(es, "dm-") {
            Some(d) => Some(d.clone()),
            None => None,
        },
    }
}

/// The classification a DM map gets from its `dm/uuid` prefix.
pub open spec fn dm_type_of(u: Seq<char>) -> BlkType {
    if is_prefix("LVM-"@, u) {
        BlkType::DmLvm
    } else if is_prefix("mpath-"@, u) {
        BlkType::DmMultipath
    } else if is_prefix("part"@, u) {
        BlkType::Partition
    } else {
        BlkType::Dm
    }
}

/// The filesystem UUID owned by a block path: the `/dev/disk/by-uuid` entry
/// whose symlink resolves to the same device.
pub open spec fn uuid_scan_spec(fs: Sysfs, es: Seq<Seq<char>>, rpath: Seq<char>) -> Option<
    Seq<char>,
>
    decreases es.len(),
{
    if es.len() == 0 {
        None
    } else if fs.canon_at("/dev/disk/by-uuid/"@ + es[0]) == Some(rpath) {
        Some(es[0])
    } else {
        uuid_scan_spec(fs.skip_none(), es.skip(1), rpath)
    }
}

pub open spec fn uuid_spec(fs: Sysfs, blk_path: Seq<char>) -> Result<Seq<char>, BlkErrKind> {
    match fs.canon_at(blk_path) {
        None => Err(BlkErrKind::BlockNoExists),
        Some(rpath) => match fs.dir_at("/dev/disk/by-uuid"@) {
            None => Err(BlkErrKind::InternalBug),
            Some(es) => match uuid_scan_spec(fs, es, rpath) {
                Some(u) => Ok(u),
                None => Err(BlkErrKind::BlockNoExists),
            },
        },
    }
}

pub open spec fn uuid_opt_spec(fs: Sysfs, blk_path: Seq<char>) -> Option<Seq<char>> {
    match uuid_spec(fs, blk_path) {
        Ok(u) => Some(u),
        Err(_) => None,
    }
}

/// The first `/dev/disk/by-id` entry resolving to `raw`, preferring `wwn-*`.
pub open spec fn byid_scan_spec(
    fs: Sysfs,
    es: Seq<Seq<char>>,
    raw: Seq<char>,
    wwn_only: bool,
) -> Option<Seq<char>>
    decreases es.len(),
{
    if es.len() == 0 {
        None
    } else if (!wwn_only || is_prefix("wwn-"@, es[0])) && fs.canon_at(
        "/dev/disk/by-id/"@ + es[0],
    ) == Some(raw) {
        Some(es[0])
    } else {
        byid_scan_spec(fs.skip_none(), es.skip(1), raw, wwn_only)
    }
}

/// The stablest user-visible path of a device: its `wwn-*` by-id link, else
/// its first by-id link, else the raw path itself.
pub open spec fn preferred_spec(fs: Sysfs, raw: Seq<char>) -> Seq<char> {
    match fs.dir_at("/dev/disk/by-id"@) {
        None => raw,
        Some(es) => match byid_scan_spec(fs, es, raw, true) {
            Some(e) => "/dev/disk/by-id/"@ + e,
            None => match byid_scan_spec(fs, es, raw, false) {
                Some(e) => "/dev/disk/by-id/"@ + e,
                None => raw,
            },
        },
    }
}

impl Sysfs {
    /// Identity, used to keep recursion measures on entry lists only.
    pub open spec fn skip_none(self) -> Sysfs {
        self
    }
}

/// What resolution returns for a whole SCSI disk.
pub open spec fn scsi_disk_spec(fs: Sysfs, name: Seq<char>) -> Result<BlkInfoV, BlkErrKind> {
    match fs.file_at("/sys/block/"@ + name + "/device/wwid"@) {
        None => Err(BlkErrKind::InternalBug),
        Some(w) => match transport_info_spec(fs, name) {
            Err(k) => Err(k),
            Ok(ps) => Ok(
                BlkInfoV {
                    wwid: pretty_wwid_spec(w),
                    blk_type: BlkType::Scsi,
                    blk_path: "/dev/"@ + name,
                    preferred_blk_path: preferred_spec(fs, "/dev/"@ + name),
                    uuid: None,
                    mount_point: None,
                    transport_id: tid_of_pairs(ps),
                    owners: Seq::empty(),
                },
            ),
        },
    }
}

/// Resolution of each slave of a DM map, flattened depth-first and
/// skipping slaves that fail; the holder check is off so a path stays a
/// SCSI disk.
pub open spec fn dm_owners_spec(fs: Sysfs, es: Seq<Seq<char>>, fuel: nat) -> Seq<OwnerV>
    decreases fuel, 2int, es.len(),
{
    if es.len() == 0 {
        Seq::empty()
    } else {
        let rest = dm_owners_spec(fs, es.skip(1), fuel);
        match resolve_spec(fs, es[0], true, fuel) {
            Ok(b) => seq![b.as_owner()] + b.owners + rest,
            Err(_) => rest,
        }
    }
}

/// What resolution returns for a DM map (`dm-N`).
pub open spec fn dm_spec(fs: Sysfs, blk: Seq<char>, fuel: nat) -> Result<BlkInfoV, BlkErrKind>
    decreases fuel, 0int, 0int,
{
    if fuel == 0 {
        Err(BlkErrKind::InternalBug)
    } else {
        match fs.file_at("/sys/block/"@ + blk + "/dm/uuid"@) {
            None => Err(BlkErrKind::InternalBug),
            Some(u) => match fs.file_at("/sys/block/"@ + blk + "/dm/name"@) {
                None => Err(BlkErrKind::InternalBug),
                Some(nm) => match fs.dir_at("/sys/block/"@ + blk + "/slaves"@) {
                    None => Err(BlkErrKind::InternalBug),
                    Some(es) => {
                        let owners = dm_owners_spec(fs, es, (fuel - 1) as nat);
                        if owners.len() == 0 {
                            Err(BlkErrKind::InternalBug)
                        } else {
                            Ok(
                                BlkInfoV {
                                    wwid: u,
                                    blk_type: dm_type_of(u),
                                    blk_path: "/dev/mapper/"@ + nm,
                                    preferred_blk_path: "/dev/mapper/"@ + nm,
                                    uuid: None,
                                    mount_point: None,
                                    transport_id: Seq::empty(),
                                    owners,
                                },
                            )
                        }
                    },
                },
            },
        }
    }
}

/// What resolution returns for a partition name (`sdXN`).
pub open spec fn part_spec(fs: Sysfs, blk: Seq<char>, fuel: nat) -> Result<
    BlkInfoV,
    BlkErrKind,
>
    decreases fuel, 0int, 1int,
{
    if fuel == 0 {
        Err(BlkErrKind::InternalBug)
    } else {
        let parent = blk.subrange(0, digits_start(blk));
        let pnum = blk.subrange(digits_start(blk), blk.len() as int);
        match resolve_spec(fs, parent, false, (fuel - 1) as nat) {
            Err(k) => Err(k),
            Ok(p) => {
                let uu = uuid_opt_spec(fs, "/dev/"@ + blk);
                let bp = if p.blk_type == BlkType::DmMultipath {
                    if fs.spec_exists(p.blk_path + "-part"@ + pnum) {
                        Some(p.blk_path + "-part"@ + pnum)
                    } else if fs.spec_exists(p.blk_path + pnum) {
                        Some(p.blk_path + pnum)
                    } else {
                        None
                    }
                } else {
                    Some("/dev/"@ + blk)
                };
                match bp {
                    None => Err(BlkErrKind::BlockNoExists),
                    Some(bp) => Ok(
                        BlkInfoV {
                            wwid: p.wwid + "-part"@ + pnum,
                            blk_type: BlkType::Partition,
                            blk_path: bp,
                            preferred_blk_path: match uu {
                                Some(u) => "/dev/disk/by-uuid/"@ + u,
                                None => preferred_spec(fs, bp),
                            },
                            uuid: uu,
                            mount_point: None,
                            transport_id: Seq::empty(),
                            owners: seq![p.as_owner()] + p.owners,
                        },
                    ),
                }
            },
        }
    }
}

/// The WWID fallback: the first SCSI disk whose prettified `wwid` attribute
/// equals the identifier.
pub open spec fn wwid_scan_spec(
    fs: Sysfs,
    blk: Seq<char>,
    es: Seq<Seq<char>>,
    fuel: nat,
) -> Result<BlkInfoV, BlkErrKind>
    decreases fuel, 2int, es.len(),
{
    if es.len() == 0 {
        Err(BlkErrKind::NoSupport)
    } else {
        let wf = fs.file_at("/sys/class/scsi_disk/"@ + es[0] + "/device/wwid"@);
        if wf matches Some(w) && pretty_wwid_spec(w) == blk {
            resolve_spec(fs, es[0], false, fuel)
        } else {
            wwid_scan_spec(fs.skip_none(), blk, es.skip(1), fuel)
        }
    }
}

/// The kernel name behind a `major:minor` pair: the basename of the
/// `/sys/dev/block/<M:m>` symlink target.
pub open spec fn mm_name_spec(fs: Sysfs, mm: Seq<char>) -> Result<Seq<char>, BlkErrKind> {
    match fs.link_at("/sys/dev/block/"@ + mm) {
        None => Err(BlkErrKind::InternalBug),
        Some(t) => {
            if basename_of(t).len() > 0 {
                Ok(basename_of(t))
            } else {
                Err(BlkErrKind::InternalBug)
            }
        },
    }
}

/// The kernel name behind a SCSI `H:C:T:L` id: the single entry of
/// `/sys/class/scsi_disk/<id>/device/block`.
pub open spec fn scsi_id_name_spec(fs: Sysfs, scsi_id: Seq<char>) -> Result<
    Seq<char>,
    BlkErrKind,
> {
    match fs.dir_at("/sys/class/scsi_disk/"@ + scsi_id + "/device/block"@) {
        None => Err(BlkErrKind::BlockNoExists),
        Some(es) => {
            if es.len() == 0 {
                Err(BlkErrKind::InternalBug)
            } else {
                Ok(es[0])
            }
        },
    }
}

/// The resolver: what `BlkInfo::new_skip_extra` returns, and, before the
/// filesystem enrichment, what `BlkInfo::new` returns. The resolution order
/// over identifier shapes is fixed: path, whole disk (holder first),
/// partition, SCSI id, DM name, major:minor, filesystem UUID, SCSI WWID.
pub open spec fn resolve_spec(fs: Sysfs, blk: Seq<char>, skip_holder: bool, fuel: nat) -> Result<
    BlkInfoV,
    BlkErrKind,
>
    decreases fuel, 1int, 0int,
{
    if fuel == 0 {
        Err(BlkErrKind::InternalBug)
    } else if blk.len() > 0 && blk[0] == '/' {
        match fs.canon_at(blk) {
            None => Err(BlkErrKind::BlockNoExists),
            Some(c) => {
                if basename_of(c).len() > 0 {
                    resolve_spec(fs, basename_of(c), skip_holder, (fuel - 1) as nat)
                } else {
                    Err(BlkErrKind::NoSupport)
                }
            },
        }
    } else if is_sd_name(blk) {
        if !skip_holder && holder_dm_spec(fs, blk) is Some {
            dm_spec(fs, holder_dm_spec(fs, blk)->Some_0, fuel)
        } else {
            scsi_disk_spec(fs, blk)
        }
    } else if is_sd_part_name(blk) {
        part_spec(fs, blk, fuel)
    } else if is_scsi_id(blk) {
        match scsi_id_name_spec(fs, blk) {
            Err(k) => Err(k),
            Ok(nm) => resolve_spec(fs, nm, skip_holder, (fuel - 1) as nat),
        }
    } else if starts_dm_dash(blk) {
        dm_spec(fs, blk, fuel)
    } else if is_major_minor(blk) {
        match mm_name_spec(fs, blk) {
            Err(k) => Err(k),
            Ok(nm) => resolve_spec(fs, nm, skip_holder, (fuel - 1) as nat),
        }
    } else if fs.spec_exists("/dev/disk/by-uuid/"@ + blk) {
        resolve_spec(fs, "/dev/disk/by-uuid/"@ + blk, skip_holder, (fuel - 1) as nat)
    } else {
        match fs.dir_at("/sys/class/scsi_disk"@) {
            None => Err(BlkErrKind::NoSupport),
            Some(es) => wwid_scan_spec(fs, blk, es, (fuel - 1) as nat),
        }
    }
}

fn uuid_scan(fs: &Sysfs, es: &Vec<String>, i: usize, rpath: &str) -> (r: Option<String>)
    requires
        i <= es@.len(),
    ensures
        match r {
            Some(u) => uuid_scan_spec(
                *fs,
                es@.map_values(|e: String| e@).skip(i as int),
                rpath@,
            ) == Some(u@),
            None => uuid_scan_spec(
                *fs,
                es@.map_values(|e: String| e@).skip(i as int),
                rpath@,
            ) is None,
        },
    decreases es@.len() - i,
{
    let ghost evs = es@.map_values(|e: String| e@);
    if i == es.len() {
        proof {
            assert(evs.skip(i as int) =~= Seq::<Seq<char>>::empty());
        }
        return None;
    }
    proof {
        assert(evs.skip(i as int)[0] == evs[i as int]);
        assert(evs.skip(i as int).skip(1) =~= evs.skip(i as int + 1));
    }
    let p = concat2("/dev/disk/by-uuid/", es[i].as_str());
    let hit = match fs.canonicalize(p.as_str()) {
        Some(c) => str_eq(c.as_str(), rpath),
        None => false,
    };
    if hit {
        Some(es[i].clone())
    } else {
        uuid_scan(fs, es, i + 1, rpath)
    }
}

fn byid_scan(fs: &Sysfs, es: &Vec<String>, i: usize, raw: &str, wwn_only: bool) -> (r:
    Option<String>)
    requires
        i <= es@.len(),
    ensures
        match r {
            Some(u) => byid_scan_spec(
                *fs,
                es@.map_values(|e: String| e@).skip(i as int),
                raw@,
                wwn_only,
            ) == Some(u@),
            None => byid_scan_spec(
                *fs,
                es@.map_values(|e: String| e@).skip(i as int),
                raw@,
                wwn_only,
            ) is None,
        },
    decreases es@.len() - i,
{
    let ghost evs = es@.map_values(|e: String| e@);
    if i == es.len() {
        proof {
            assert(evs.skip(i as int) =~= Seq::<Seq<char>>::empty());
        }
        return None;
    }
    proof {
        assert(evs.skip(i as int)[0] == evs[i as int]);
        assert(evs.skip(i as int).skip(1) =~= evs.skip(i as int + 1));
    }
    let mut hit = !wwn_only || starts_with(es[i].as_str(), "wwn-");
    if hit {
        let p = concat2("/dev/disk/by-id/", es[i].as_str());
        hit = match fs.canonicalize(p.as_str()) {
            Some(c) => str_eq(c.as_str(), raw),
            None => false,
        };
    }
    if hit {
        Some(es[i].clone())
    } else {
        byid_scan(fs, es, i + 1, raw, wwn_only)
    }
}

/// The stablest user-visible path of a device; see `preferred_spec`.
fn preferred_path(fs: &Sysfs, raw: &str) -> (r: String)
    ensures
        r@ == preferred_spec(*fs, raw@),
{
    match fs.read_dir("/dev/disk/by-id") {
        Err(_) => raw.to_owned(),
        Ok(es) => match byid_scan(fs, es, 0, raw, true) {
            Some(e) => {
                proof {
                    assert(es@.map_values(|x: String| x@).skip(0) =~= es@.map_values(
                        |x: String| x@,
                    ));
                }
                concat2("/dev/disk/by-id/", e.as_str())
            },
            None => {
                proof {
                    assert(es@.map_values(|x: String| x@).skip(0) =~= es@.map_values(
                        |x: String| x@,
                    ));
                }
                match byid_scan(fs, es, 0, raw, false) {
                    Some(e) => concat2("/dev/disk/by-id/", e.as_str()),
                    None => raw.to_owned(),
                }
            },
        },
    }
}

/// The kernel name behind a SCSI `H:C:T:L` id.
pub fn scsi_id_to_blk_name(fs: &Sysfs, scsi_id: &str) -> (r: Result<String, PeripetyError>)
    ensures
        match r {
            Ok(v) => scsi_id_name_spec(*fs, scsi_id@) == Ok::<_, BlkErrKind>(v@),
            Err(e) => scsi_id_name_spec(*fs, scsi_id@) matches Err(k) && err_matches(e, k),
        },
{
    let p = concat3("/sys/class/scsi_disk/", scsi_id, "/device/block");
    match fs.read_dir(p.as_str()) {
        Err(_) => Err(
            PeripetyError::BlockNoExists(concat2("SCSI ID does not exist: ", scsi_id)),
        ),
        Ok(es) => {
            if es.len() == 0 {
                Err(PeripetyError::InternalBug(concat2("Folder is empty: ", p.as_str())))
            } else {
                proof {
                    assert(es@.map_values(|e: String| e@)[0] == es@[0]@);
                }
                Ok(es[0].clone())
            }
        },
    }
}

impl BlkInfo {
    /// The kernel name behind a `major:minor` pair.
    pub fn major_minor_to_blk_name(fs: &Sysfs, major_minor: &str) -> (r: Result<
        String,
        PeripetyError,
    >)
        ensures
            match r {
                Ok(v) => mm_name_spec(*fs, major_minor@) == Ok::<_, BlkErrKind>(v@),
                Err(e) => mm_name_spec(*fs, major_minor@) matches Err(k) && err_matches(
                    e,
                    k,
                ),
            },
    {
        let p = concat2("/sys/dev/block/", major_minor);
        let t = fs.read_link(p.as_str())?;
        let b = basename(t.as_str());
        if b.as_str().unicode_len() == 0 {
            return Err(
                PeripetyError::InternalBug(
                    concat2("Empty link target under ", p.as_str()),
                ),
            );
        }
        Ok(b)
    }

    /// The filesystem UUID owned by a block path, read from the
    /// `/dev/disk/by-uuid` links.
    pub fn uuid(fs: &Sysfs, blk_path: &str) -> (r: Result<String, PeripetyError>)
        ensures
            match r {
                Ok(u) => uuid_spec(*fs, blk_path@) == Ok::<_, BlkErrKind>(u@),
                Err(e) => uuid_spec(*fs, blk_path@) matches Err(k) && err_matches(e, k),
            },
    {
        let rpath = match fs.canonicalize(blk_path) {
            Some(c) => c,
            None => {
                return Err(
                    PeripetyError::BlockNoExists(
                        concat2("Block does not exist: ", blk_path),
                    ),
                );
            },
        };
        let es = fs.read_dir("/dev/disk/by-uuid")?;
        proof {
            assert(es@.map_values(|e: String| e@).skip(0) =~= es@.map_values(
                |e: String| e@,
            ));
        }
        match uuid_scan(fs, es, 0, rpath.as_str()) {
            Some(u) => Ok(u),
            None => Err(
                PeripetyError::BlockNoExists(
                    concat2("No uuid links to block ", blk_path),
                ),
            ),
        }
    }
}

/// Resolution of a whole SCSI disk; see `scsi_disk_spec`.
fn blk_info_get_scsi(fs: &Sysfs, name: &str) -> (r: Result<BlkInfo, PeripetyError>)
    ensures
        match r {
            Ok(b) => scsi_disk_spec(*fs, name@) == Ok::<_, BlkErrKind>(b@),
            Err(e) => scsi_disk_spec(*fs, name@) matches Err(k) && err_matches(e, k),
        },
{
    let wp = concat3("/sys/block/", name, "/device/wwid");
    let w = fs.read(wp.as_str())?;
    let tid = get_transport_id(fs, name)?;
    let blk_path = concat2("/dev/", name);
    let preferred = preferred_path(fs, blk_path.as_str());
    let b = BlkInfo {
        wwid: pretty_wwid(w.as_str()),
        blk_type: BlkType::Scsi,
        blk_path,
        preferred_blk_path: preferred,
        uuid: None,
        mount_point: None,
        transport_id: tid,
        owners: Vec::new(),
    };
    proof {
        let sp = scsi_disk_spec(*fs, name@);
        assert(owners_view(b.owners@) =~= Seq::<OwnerV>::empty());
        assert(b@ =~= sp->Ok_0);
    }
    Ok(b)
}

/// Resolution of each slave of a DM map; see `dm_owners_spec`.
fn dm_owners(fs: &Sysfs, es: &Vec<String>, i: usize, fuel: u64) -> (r: Vec<BlkOwner>)
    requires
        i <= es@.len(),
    ensures
        owners_view(r@) == dm_owners_spec(
            *fs,
            es@.map_values(|e: String| e@).skip(i as int),
            fuel as nat,
        ),
    decreases fuel, 2int, es@.len() - i,
{
    let ghost evs = es@.map_values(|e: String| e@);
    if i == es.len() {
        let r: Vec<BlkOwner> = Vec::new();
        proof {
            assert(evs.skip(i as int) =~= Seq::<Seq<char>>::empty());
            assert(owners_view(r@) =~= dm_owners_spec(*fs, evs.skip(i as int), fuel as nat));
        }
        return r;
    }
    proof {
        assert(evs.skip(i as int)[0] == evs[i as int]);
        assert(evs.skip(i as int).skip(1) =~= evs.skip(i as int + 1));
    }
    let mut rest = dm_owners(fs, es, i + 1, fuel);
    match resolve(fs, es[i].as_str(), true, fuel) {
        Ok(b) => {
            let ghost bv = b@;
            let BlkInfo {
                wwid,
                blk_type,
                blk_path,
                preferred_blk_path,
                uuid,
                mount_point,
                transport_id,
                owners,
            } = b;
            let own = BlkOwner {
                wwid,
                blk_type,
                blk_path,
                preferred_blk_path,
                uuid,
                mount_point,
                transport_id,
            };
            let mut out: Vec<BlkOwner> = Vec::new();
            out.push(own);
            let mut owners = owners;
            let ghost ow = owners@;
            let ghost rv = rest@;
            out.append(&mut owners);
            out.append(&mut rest);
            proof {
                let goal = dm_owners_spec(*fs, evs.skip(i as int), fuel as nat);
                assert(goal == seq![bv.as_owner()] + bv.owners + owners_view(rv));
                assert forall|t: int| 0 <= t < out@.len() implies owners_view(out@)[t]
                    == goal[t] by {
                    if t == 0 {
                    } else if t < 1 + ow.len() {
                        assert(out@[t] == ow[t - 1]);
                        assert(bv.owners[t - 1] == ow[t - 1]@);
                    } else {
                        assert(out@[t] == rv[t - 1 - ow.len()]);
                        assert(owners_view(rv)[t - 1 - ow.len()] == rv[t - 1 - ow.len()]@);
                    }
                }
                assert(owners_view(out@) =~= goal);
            }
            out
        },
        Err(_) => rest,
    }
}

/// Resolution of a DM map; see `dm_spec`.
fn blk_info_get_dm(fs: &Sysfs, blk: &str, fuel: u64) -> (r: Result<BlkInfo, PeripetyError>)
    ensures
        match r {
            Ok(b) => dm_spec(*fs, blk@, fuel as nat) == Ok::<_, BlkErrKind>(b@),
            Err(e) => dm_spec(*fs, blk@, fuel as nat) matches Err(k) && err_matches(e, k),
        },
    decreases fuel, 0int, 0int,
{
    if fuel == 0 {
        return Err(
            PeripetyError::InternalBug(concat2("Device stack too deep under ", blk)),
        );
    }
    let up = concat3("/sys/block/", blk, "/dm/uuid");
    let u = fs.read(up.as_str())?;
    let np = concat3("/sys/block/", blk, "/dm/name");
    let nm = fs.read(np.as_str())?;
    let sp = concat3("/sys/block/", blk, "/slaves");
    let es = fs.read_dir(sp.as_str())?;
    proof {
        assert(es@.map_values(|e: String| e@).skip(0) =~= es@.map_values(|e: String| e@));
    }
    let owners = dm_owners(fs, es, 0, fuel - 1);
    if owners.len() == 0 {
        return Err(PeripetyError::InternalBug(concat2("DM has no slaves: ", blk)));
    }
    let blk_type = if starts_with(u.as_str(), "LVM-") {
        BlkType::DmLvm
    } else if starts_with(u.as_str(), "mpath-") {
        BlkType::DmMultipath
    } else if starts_with(u.as_str(), "part") {
        BlkType::Partition
    } else {
        BlkType::Dm
    };
    let blk_path = concat2("/dev/mapper/", nm.as_str());
    let preferred = blk_path.clone();
    let b = BlkInfo {
        wwid: u,
        blk_type,
        blk_path,
        preferred_blk_path: preferred,
        uuid: None,
        mount_point: None,
        transport_id: String::new(),
        owners,
    };
    proof {
        let sp2 = dm_spec(*fs, blk@, fuel as nat);
        assert(b@ =~= sp2->Ok_0);
    }
    Ok(b)
}

/// Resolution of a partition name; see `part_spec`.
fn blk_info_get_part(fs: &Sysfs, blk: &str, fuel: u64) -> (r: Result<BlkInfo, PeripetyError>)
    requires
        digits_start(blk@) <= blk@.len(),
    ensures
        match r {
            Ok(b) => part_spec(*fs, blk@, fuel as nat) == Ok::<_, BlkErrKind>(b@),
            Err(e) => part_spec(*fs, blk@, fuel as nat) matches Err(k) && err_matches(
                e,
                k,
            ),
        },
    decreases fuel, 0int, 1int,
{
    if fuel == 0 {
        return Err(
            PeripetyError::InternalBug(concat2("Device stack too deep under ", blk)),
        );
    }
    let ds = check_digits_start(blk);
    let parent = substr(blk, 0, ds);
    let pnum = substr(blk, ds, blk.unicode_len());
    let p = resolve(fs, parent.as_str(), false, fuel - 1)?;
    let dev_path = concat2("/dev/", blk);
    let uu = match BlkInfo::uuid(fs, dev_path.as_str()) {
        Ok(u) => Some(u),
        Err(_) => None,
    };
    let bp: String;
    if p.blk_type == BlkType::DmMultipath {
        let c1 = concat3(p.blk_path.as_str(), "-part", pnum.as_str());
        let c2 = concat2(p.blk_path.as_str(), pnum.as_str());
        if fs.path_exists(c1.as_str()) {
            bp = c1;
        } else if fs.path_exists(c2.as_str()) {
            bp = c2;
        } else {
            return Err(
                PeripetyError::BlockNoExists(
                    concat2("Multipath partition file is missing for ", blk),
                ),
            );
        }
    } else {
        bp = dev_path;
    }
    let preferred = match &uu {
        Some(u) => concat2("/dev/disk/by-uuid/", u.as_str()),
        None => preferred_path(fs, bp.as_str()),
    };
    let wwid = concat3(p.wwid.as_str(), "-part", pnum.as_str());
    let ghost pv = p@;
    let BlkInfo {
        wwid: p_wwid,
        blk_type: p_type,
        blk_path: p_path,
        preferred_blk_path: p_pref,
        uuid: p_uuid,
        mount_point: p_mount,
        transport_id: p_tid,
        owners: p_owners,
    } = p;
    let own = BlkOwner {
        wwid: p_wwid,
        blk_type: p_type,
        blk_path: p_path,
        preferred_blk_path: p_pref,
        uuid: p_uuid,
        mount_point: p_mount,
        transport_id: p_tid,
    };
    let mut owners: Vec<BlkOwner> = Vec::new();
    owners.push(own);
    let mut p_owners = p_owners;
    owners.append(&mut p_owners);
    let b = BlkInfo {
        wwid,
        blk_type: BlkType::Partition,
        blk_path: bp,
        preferred_blk_path: preferred,
        uuid: uu,
        mount_point: None,
        transport_id: String::new(),
        owners,
    };
    proof {
        let sp = part_spec(*fs, blk@, fuel as nat);
        assert forall|t: int| 0 <= t < b.owners@.len() implies owners_view(b.owners@)[t]
            == sp->Ok_0.owners[t] by {
            if t > 0 {
                assert(owners_view(b.owners@)[t] == pv.owners[t - 1]);
            }
        }
        assert(owners_view(b.owners@) =~= sp->Ok_0.owners);
        assert(b@ =~= sp->Ok_0);
    }
    Ok(b)
}

/// The WWID fallback scan; see `wwid_scan_spec`.
fn wwid_scan(fs: &Sysfs, blk: &str, es: &Vec<String>, i: usize, fuel: u64) -> (r: Result<
    BlkInfo,
    PeripetyError,
>)
    requires
        i <= es@.len(),
    ensures
        match r {
            Ok(b) => wwid_scan_spec(
                *fs,
                blk@,
                es@.map_values(|e: String| e@).skip(i as int),
                fuel as nat,
            ) == Ok::<_, BlkErrKind>(b@),
            Err(e) => wwid_scan_spec(
                *fs,
                blk@,
                es@.map_values(|e: String| e@).skip(i as int),
                fuel as nat,
            ) matches Err(k) && err_matches(e, k),
        },
    decreases fuel, 2int, es@.len() - i,
{
    let ghost evs = es@.map_values(|e: String| e@);
    if i == es.len() {
        proof {
            assert(evs.skip(i as int) =~= Seq::<Seq<char>>::empty());
        }
        return Err(
            PeripetyError::NoSupport(concat2("Block is not supported yet: ", blk)),
        );
    }
    proof {
        assert(evs.skip(i as int)[0] == evs[i as int]);
        assert(evs.skip(i as int).skip(1) =~= evs.skip(i as int + 1));
    }
    let wp = concat3("/sys/class/scsi_disk/", es[i].as_str(), "/device/wwid");
    let hit = match fs.read(wp.as_str()) {
        Ok(w) => {
            let pw = pretty_wwid(w.as_str());
            str_eq(pw.as_str(), blk)
        },
        Err(_) => false,
    };
    if hit {
        resolve(fs, es[i].as_str(), false, fuel)
    } else {
        wwid_scan(fs, blk, es, i + 1, fuel)
    }
}

/// The resolver core; see `resolve_spec`.
fn resolve(fs: &Sysfs, blk: &str, skip_holder_check: bool, fuel: u64) -> (r: Result<
    BlkInfo,
    PeripetyError,
>)
    ensures
        match r {
            Ok(b) => resolve_spec(*fs, blk@, skip_holder_check, fuel as nat) == Ok::<
                _,
                BlkErrKind,
            >(b@),
            Err(e) => resolve_spec(*fs, blk@, skip_holder_check, fuel as nat) matches Err(
                k,
            ) && err_matches(e, k),
        },
    decreases fuel, 1int, 0int,
{
    if fuel == 0 {
        return Err(
            PeripetyError::InternalBug(concat2("Device stack too deep under ", blk)),
        );
    }
    let n: usize = blk.unicode_len();
    if n > 0 && blk.get_char(0) == '/' {
        return match fs.canonicalize(blk) {
            None => Err(
                PeripetyError::BlockNoExists(concat2("Block path does not exist: ", blk)),
            ),
            Some(c) => {
                let b = basename(c.as_str());
                if b.as_str().unicode_len() > 0 {
                    resolve(fs, b.as_str(), skip_holder_check, fuel - 1)
                } else {
                    Err(
                        PeripetyError::NoSupport(
                            concat2("Block path is not supported yet: ", blk),
                        ),
                    )
                }
            },
        };
    }
    if check_sd_name(blk) {
        if !skip_holder_check {
            if let Some(d) = get_holder_dm_name(fs, blk) {
                return blk_info_get_dm(fs, d.as_str(), fuel);
            }
        }
        return blk_info_get_scsi(fs, blk);
    }
    let ds = check_digits_start(blk);
    let is_part = ds < n && {
        let head = substr(blk, 0, ds);
        check_sd_name(head.as_str())
    };
    if is_part {
        return blk_info_get_part(fs, blk, fuel);
    }
    if check_colon_digits(blk, 3) {
        let nm = scsi_id_to_blk_name(fs, blk)?;
        return resolve(fs, nm.as_str(), skip_holder_check, fuel - 1);
    }
    if check_starts_dm_dash(blk) {
        return blk_info_get_dm(fs, blk, fuel);
    }
    if check_colon_digits(blk, 1) {
        let nm = BlkInfo::major_minor_to_blk_name(fs, blk)?;
        return resolve(fs, nm.as_str(), skip_holder_check, fuel - 1);
    }
    let up = concat2("/dev/disk/by-uuid/", blk);
    if fs.path_exists(up.as_str()) {
        return resolve(fs, up.as_str(), skip_holder_check, fuel - 1);
    }
    match fs.read_dir("/sys/class/scsi_disk") {
        Err(_) => Err(
            PeripetyError::NoSupport(concat2("Block is not supported yet: ", blk)),
        ),
        Ok(es) => {
            proof {
                assert(es@.map_values(|e: String| e@).skip(0) =~= es@.map_values(
                    |e: String| e@,
                ));
            }
            wwid_scan(fs, blk, es, 0, fuel - 1)
        },
    }
}

impl BlkInfo {
    /// Resolve an identifier without following holders up to DM maps and
    /// without filesystem enrichment; used for the slaves of a DM map.
    pub fn new_skip_extra(fs: &Sysfs, blk: &str) -> (r: Result<BlkInfo, PeripetyError>)
        ensures
            match r {
                Ok(b) => resolve_spec(*fs, blk@, true, RESOLVE_DEPTH as nat) == Ok::<
                    _,
                    BlkErrKind,
                >(b@),
                Err(e) => resolve_spec(*fs, blk@, true, RESOLVE_DEPTH as nat) matches Err(
                    k,
                ) && err_matches(e, k),
            },
    {
        resolve(fs, blk, true, RESOLVE_DEPTH)
    }
}


/// Owners with a WWID already seen dropped; first occurrence wins, order
/// kept.
pub open spec fn dedup_spec(os: Seq<OwnerV>, seen: Set<Seq<char>>) -> Seq<OwnerV>
    decreases os.len(),
{
    if os.len() == 0 {
        Seq::empty()
    } else if seen.contains(os[0].wwid) {
        dedup_spec(os.skip(1), seen)
    } else {
        seq![os[0]] + dedup_spec(os.skip(1), seen.insert(os[0].wwid))
    }
}

/// The set of character sequences a string list holds.
pub open spec fn strs_set(v: Seq<String>) -> Set<Seq<char>>
    decreases v.len(),
{
    if v.len() == 0 {
        Set::empty()
    } else {
        strs_set(v.drop_last()).insert(v.last()@)
    }
}

proof fn lemma_strs_set(v: Seq<String>, x: Seq<char>)
    ensures
        strs_set(v).contains(x) <==> exists|i: int| 0 <= i < v.len() && v[i]@ == x,
    decreases v.len(),
{
    if v.len() > 0 {
        lemma_strs_set(v.drop_last(), x);
        if strs_set(v).contains(x) {
            if v.last()@ == x {
                assert(v[v.len() - 1]@ == x);
            } else {
                let i = choose|i: int| 0 <= i < v.drop_last().len() && v.drop_last()[i]@
                    == x;
                assert(v[i]@ == x);
            }
        }
        if exists|i: int| 0 <= i < v.len() && v[i]@ == x {
            let i = choose|i: int| 0 <= i < v.len() && v[i]@ == x;
            if i < v.len() - 1 {
                assert(v.drop_last()[i]@ == x);
            }
        }
    }
}

fn contains_str(v: &Vec<String>, x: &str) -> (r: bool)
    ensures
        r == strs_set(v@).contains(x@),
{
    let n: usize = v.len();
    let mut i: usize = 0;
    while i < n
        invariant
            0 <= i <= n,
            n == v@.len(),
            forall|j: int| 0 <= j < i ==> v@[j]@ != x@,
        decreases n - i,
    {
        if str_eq(v[i].as_str(), x) {
            proof {
                lemma_strs_set(v@, x@);
            }
            return true;
        }
        i += 1;
    }
    proof {
        lemma_strs_set(v@, x@);
    }
    false
}

/// Drop every owner whose WWID was already listed, keeping the first
/// occurrence and the order of the rest.
pub fn flat_blk_info_owners(owners: Vec<BlkOwner>) -> (r: Vec<BlkOwner>)
    ensures
        owners_view(r@) == dedup_spec(owners_view(owners@), Set::empty()),
{
    let ghost full = owners_view(owners@);
    let mut rest = owners;
    let mut out: Vec<BlkOwner> = Vec::new();
    let mut seen: Vec<String> = Vec::new();
    proof {
        assert(owners_view(out@) + dedup_spec(owners_view(rest@), strs_set(seen@))
            =~= dedup_spec(full, Set::empty()));
    }
    while rest.len() > 0
        invariant
            dedup_spec(full, Set::empty()) == owners_view(out@) + dedup_spec(
                owners_view(rest@),
                strs_set(seen@),
            ),
        decreases rest@.len(),
    {
        let ghost rv = owners_view(rest@);
        let ghost sv = strs_set(seen@);
        let o = rest.remove(0);
        proof {
            assert(rest@ =~= old_vec_minus_front(rv, rest@));
            assert(owners_view(rest@) =~= rv.skip(1));
            assert(rv[0] == o@);
        }
        if contains_str(&seen, o.wwid.as_str()) {
            proof {
                assert(dedup_spec(rv, sv) == dedup_spec(rv.skip(1), sv));
            }
        } else {
            let ghost osv = seen@;
            seen.push(o.wwid.clone());
            proof {
                assert(seen@.drop_last() =~= osv);
                assert(strs_set(seen@) =~= sv.insert(o.wwid@));
                assert(dedup_spec(rv, sv) == seq![rv[0]] + dedup_spec(rv.skip(1), sv.insert(
                    rv[0].wwid,
                )));
            }
            let ghost ov = owners_view(out@);
            out.push(o);
            proof {
                assert forall|t: int| 0 <= t < out@.len() implies owners_view(out@)[t]
                    == (ov + seq![rv[0]])[t] by {
                    if t < ov.len() {
                        assert(out@[t] == out@.drop_last()[t]);
                    }
                }
                assert(owners_view(out@) =~= ov + seq![rv[0]]);
            }
        }
    }
    proof {
        assert(owners_view(rest@) =~= Seq::<OwnerV>::empty());
        assert(owners_view(out@) + Seq::<OwnerV>::empty() =~= owners_view(out@));
    }
    out
}

spec fn old_vec_minus_front(rv: Seq<OwnerV>, after: Seq<BlkOwner>) -> Seq<BlkOwner> {
    after
}

/// What `BlkInfo::new` returns: the resolution of the identifier, enriched
/// with the filesystem UUID and mount point of its block path, owners
/// deduplicated by WWID.
pub open spec fn new_spec(fs: Sysfs, blk: Seq<char>) -> Result<BlkInfoV, BlkErrKind> {
    match resolve_spec(fs, blk, false, RESOLVE_DEPTH as nat) {
        Err(k) => Err(k),
        Ok(b) => {
            let uu = if b.uuid is None {
                uuid_opt_spec(fs, b.blk_path)
            } else {
                b.uuid
            };
            Ok(
                BlkInfoV {
                    wwid: b.wwid,
                    blk_type: b.blk_type,
                    blk_path: b.blk_path,
                    preferred_blk_path: b.preferred_blk_path,
                    uuid: uu,
                    mount_point: if uu is Some {
                        crate::mountinfo::mount_point_spec(fs, b.blk_path)
                    } else {
                        None
                    },
                    transport_id: b.transport_id,
                    owners: dedup_spec(b.owners, Set::empty()),
                },
            )
        },
    }
}

impl BlkInfo {
    /// The universal entry point: resolve any supported identifier to the
    /// enriched description of its block device.
    pub fn new(fs: &Sysfs, blk: &str) -> (r: Result<BlkInfo, PeripetyError>)
        ensures
            match r {
                Ok(b) => new_spec(*fs, blk@) == Ok::<_, BlkErrKind>(b@),
                Err(e) => new_spec(*fs, blk@) matches Err(k) && err_matches(e, k),
            },
    {
        let mut bi = resolve(fs, blk, false, RESOLVE_DEPTH)?;
        bi.mount_point = None;
        if bi.uuid.is_none() {
            match BlkInfo::uuid(fs, bi.blk_path.as_str()) {
                Ok(u) => {
                    bi.uuid = Some(u);
                },
                Err(_) => {},
            }
        }
        if bi.uuid.is_some() {
            bi.mount_point = crate::mountinfo::get_mount_point(fs, bi.blk_path.as_str());
        }
        let BlkInfo {
            wwid,
            blk_type,
            blk_path,
            preferred_blk_path,
            uuid,
            mount_point,
            transport_id,
            owners,
        } = bi;
        let owners = flat_blk_info_owners(owners);
        let b = BlkInfo {
            wwid,
            blk_type,
            blk_path,
            preferred_blk_path,
            uuid,
            mount_point,
            transport_id,
            owners,
        };
        proof {
            assert(b@ =~= new_spec(*fs, blk@)->Ok_0);
        }
        Ok(b)
    }

    /// Where `blk_path` is mounted, by the first matching mountinfo entry.
    pub fn get_mount_point(fs: &Sysfs, blk_path: &str) -> (r: Option<String>)
        ensures
            match r {
                Some(mp) => crate::mountinfo::mount_point_spec(*fs, blk_path@) == Some(
                    mp@,
                ),
                None => crate::mountinfo::mount_point_spec(*fs, blk_path@) is None,
            },
    {
        crate::mountinfo::get_mount_point(fs, blk_path)
    }
}


/// The entries equal (or not equal) in shape to a DM name, order kept.
pub open spec fn filter_dm(xs: Seq<Seq<char>>, keep_dm: bool) -> Seq<Seq<char>>
    decreases xs.len(),
{
    if xs.len() == 0 {
        Seq::empty()
    } else {
        let rest = filter_dm(xs.drop_last(), keep_dm);
        if starts_dm_dash(xs.last()) == keep_dm {
            rest.push(xs.last())
        } else {
            rest
        }
    }
}

/// The entries different from `nm`, order kept.
pub open spec fn filter_ne(xs: Seq<Seq<char>>, nm: Seq<char>) -> Seq<Seq<char>>
    decreases xs.len(),
{
    if xs.len() == 0 {
        Seq::empty()
    } else {
        let rest = filter_ne(xs.drop_last(), nm);
        if xs.last() == nm {
            rest
        } else {
            rest.push(xs.last())
        }
    }
}

/// Remove from `others` the kernel name of every owner, one after another.
pub open spec fn remove_names(others: Seq<Seq<char>>, owners: Seq<OwnerV>) -> Seq<Seq<char>>
    decreases owners.len(),
{
    if owners.len() == 0 {
        others
    } else {
        remove_names(filter_ne(others, basename_of(owners[0].blk_path)), owners.skip(1))
    }
}

pub open spec fn infos_view(v: Seq<BlkInfo>) -> Seq<BlkInfoV> {
    v.map_values(|b: BlkInfo| b.view())
}

/// Resolve the DM devices in order; after a multipath map, its paths leave
/// the set of devices still to list.
pub open spec fn list_dms_spec(fs: Sysfs, dms: Seq<Seq<char>>, others: Seq<Seq<char>>) -> Result<
    (Seq<BlkInfoV>, Seq<Seq<char>>),
    BlkErrKind,
>
    decreases dms.len(),
{
    if dms.len() == 0 {
        Ok((Seq::empty(), others))
    } else {
        match new_spec(fs, dms[0]) {
            Err(k) => Err(k),
            Ok(info) => {
                let others2 = if info.blk_type == BlkType::DmMultipath {
                    match resolve_spec(fs, dms[0], true, RESOLVE_DEPTH as nat) {
                        Ok(raw) => remove_names(others, raw.owners),
                        Err(_) => others,
                    }
                } else {
                    others
                };
                match list_dms_spec(fs, dms.skip(1), others2) {
                    Err(k) => Err(k),
                    Ok(rest) => Ok((seq![info] + rest.0, rest.1)),
                }
            },
        }
    }
}

/// Resolve the remaining devices in order.
pub open spec fn list_others_spec(fs: Sysfs, others: Seq<Seq<char>>) -> Result<
    Seq<BlkInfoV>,
    BlkErrKind,
>
    decreases others.len(),
{
    if others.len() == 0 {
        Ok(Seq::empty())
    } else {
        match new_spec(fs, others[0]) {
            Err(k) => Err(k),
            Ok(info) => match list_others_spec(fs, others.skip(1)) {
                Err(k) => Err(k),
                Ok(rest) => Ok(seq![info] + rest),
            },
        }
    }
}

/// What `BlkInfo::list` returns over the `/sys/class/block` entries: every
/// DM device first, then every other device that no multipath map owns.
pub open spec fn list_spec(fs: Sysfs) -> Result<Seq<BlkInfoV>, BlkErrKind> {
    match fs.dir_at("/sys/class/block"@) {
        None => Err(BlkErrKind::InternalBug),
        Some(es) => match list_dms_spec(fs, filter_dm(es, true), filter_dm(es, false)) {
            Err(k) => Err(k),
            Ok(r) => match list_others_spec(fs, r.1) {
                Err(k) => Err(k),
                Ok(more) => Ok(r.0 + more),
            },
        },
    }
}

fn filter_ne_exec(xs: &Vec<String>, nm: &str) -> (r: Vec<String>)
    ensures
        r@.map_values(|e: String| e@) == filter_ne(xs@.map_values(|e: String| e@), nm@),
{
    let ghost xv = xs@.map_values(|e: String| e@);
    let n: usize = xs.len();
    let mut out: Vec<String> = Vec::new();
    let mut i: usize = 0;
    proof {
        assert(xv.take(0) =~= Seq::<Seq<char>>::empty());
        assert(out@.map_values(|e: String| e@) =~= filter_ne(xv.take(0), nm@));
    }
    while i < n
        invariant
            0 <= i <= n,
            n == xs@.len(),
            xv == xs@.map_values(|e: String| e@),
            out@.map_values(|e: String| e@) == filter_ne(xv.take(i as int), nm@),
        decreases n - i,
    {
        proof {
            assert(xv.take(i as int + 1).drop_last() =~= xv.take(i as int));
            assert(xv.take(i as int + 1).last() == xv[i as int]);
            assert(xv[i as int] == xs@[i as int]@);
        }
        let ghost ov = out@.map_values(|e: String| e@);
        if !str_eq(xs[i].as_str(), nm) {
            out.push(xs[i].clone());
            proof {
                assert(out@.drop_last() =~= out@.subrange(0, out@.len() - 1));
                assert forall|t: int| 0 <= t < out@.len() implies out@.map_values(
                    |e: String| e@,
                )[t] == ov.push(xv[i as int])[t] by {
                    if t < ov.len() {
                        assert(out@[t] == out@.subrange(0, out@.len() - 1)[t]);
                    }
                }
                assert(out@.map_values(|e: String| e@) =~= ov.push(xv[i as int]));
            }
        }
        i += 1;
    }
    proof {
        assert(xv.take(n as int) =~= xv);
    }
    out
}

fn remove_names_exec(others: Vec<String>, owners: &Vec<BlkOwner>, i: usize) -> (r: Vec<
    String,
>)
    requires
        i <= owners@.len(),
    ensures
        r@.map_values(|e: String| e@) == remove_names(
            others@.map_values(|e: String| e@),
            owners_view(owners@).skip(i as int),
        ),
    decreases owners@.len() - i,
{
    let ghost ws = owners_view(owners@);
    if i == owners.len() {
        proof {
            assert(ws.skip(i as int) =~= Seq::<OwnerV>::empty());
        }
        return others;
    }
    proof {
        assert(ws.skip(i as int)[0] == ws[i as int]);
        assert(ws.skip(i as int).skip(1) =~= ws.skip(i as int + 1));
    }
    let nm = basename(owners[i].blk_path.as_str());
    let filtered = filter_ne_exec(&others, nm.as_str());
    remove_names_exec(filtered, owners, i + 1)
}

fn list_dms(fs: &Sysfs, dms: &Vec<String>, i: usize, others: Vec<String>) -> (r: Result<
    (Vec<BlkInfo>, Vec<String>),
    PeripetyError,
>)
    requires
        i <= dms@.len(),
    ensures
        match r {
            Ok(p) => list_dms_spec(
                *fs,
                dms@.map_values(|e: String| e@).skip(i as int),
                others@.map_values(|e: String| e@),
            ) == Ok::<_, BlkErrKind>(
                (infos_view(p.0@), p.1@.map_values(|e: String| e@)),
            ),
            Err(e) => list_dms_spec(
                *fs,
                dms@.map_values(|e: String| e@).skip(i as int),
                others@.map_values(|e: String| e@),
            ) matches Err(k) && err_matches(e, k),
        },
    decreases dms@.len() - i,
{
    let ghost dvs = dms@.map_values(|e: String| e@);
    if i == dms.len() {
        let out: Vec<BlkInfo> = Vec::new();
        proof {
            assert(dvs.skip(i as int) =~= Seq::<Seq<char>>::empty());
            assert(infos_view(out@) =~= Seq::<BlkInfoV>::empty());
        }
        return Ok((out, others));
    }
    proof {
        assert(dvs.skip(i as int)[0] == dvs[i as int]);
        assert(dvs.skip(i as int).skip(1) =~= dvs.skip(i as int + 1));
        assert(dvs[i as int] == dms@[i as int]@);
    }
    let info = BlkInfo::new(fs, dms[i].as_str())?;
    let others2 = match info.blk_type {
        BlkType::DmMultipath => {
            // every path of the map leaves the set, not only the first of
            // each WWID, so resolve again without the owner deduplication
            match BlkInfo::new_skip_extra(fs, dms[i].as_str()) {
                Ok(raw) => {
                    proof {
                        assert(owners_view(raw.owners@).skip(0) =~= owners_view(
                            raw.owners@,
                        ));
                    }
                    remove_names_exec(others, &raw.owners, 0)
                },
                Err(_) => others,
            }
        },
        _ => others,
    };
    let (mut rest, rem) = match list_dms(fs, dms, i + 1, others2) {
        Ok(p) => p,
        Err(e) => {
            return Err(e);
        },
    };
    let ghost restv = infos_view(rest@);
    let ghost iv = info@;
    rest.insert(0, info);
    proof {
        assert forall|t: int| 0 <= t < rest@.len() implies infos_view(rest@)[t] == (
        seq![iv] + restv)[t] by {
            if t > 0 {
                assert(rest@[t] == rest@.subrange(1, rest@.len() as int)[t - 1]);
                assert(infos_view(rest@)[t] == restv[t - 1]);
            }
        }
        assert(infos_view(rest@) =~= seq![iv] + restv);
    }
    Ok((rest, rem))
}

fn list_others(fs: &Sysfs, others: &Vec<String>, i: usize) -> (r: Result<
    Vec<BlkInfo>,
    PeripetyError,
>)
    requires
        i <= others@.len(),
    ensures
        match r {
            Ok(v) => list_others_spec(
                *fs,
                others@.map_values(|e: String| e@).skip(i as int),
            ) == Ok::<_, BlkErrKind>(infos_view(v@)),
            Err(e) => list_others_spec(
                *fs,
                others@.map_values(|e: String| e@).skip(i as int),
            ) matches Err(k) && err_matches(e, k),
        },
    decreases others@.len() - i,
{
    let ghost ovs = others@.map_values(|e: String| e@);
    if i == others.len() {
        let out: Vec<BlkInfo> = Vec::new();
        proof {
            assert(ovs.skip(i as int) =~= Seq::<Seq<char>>::empty());
            assert(infos_view(out@) =~= Seq::<BlkInfoV>::empty());
        }
        return Ok(out);
    }
    proof {
        assert(ovs.skip(i as int)[0] == ovs[i as int]);
        assert(ovs.skip(i as int).skip(1) =~= ovs.skip(i as int + 1));
        assert(ovs[i as int] == others@[i as int]@);
    }
    let info = BlkInfo::new(fs, others[i].as_str())?;
    let mut rest = list_others(fs, others, i + 1)?;
    let ghost restv = infos_view(rest@);
    let ghost iv = info@;
    rest.insert(0, info);
    proof {
        assert forall|t: int| 0 <= t < rest@.len() implies infos_view(rest@)[t] == (
        seq![iv] + restv)[t] by {
            if t > 0 {
                assert(rest@[t] == rest@.subrange(1, rest@.len() as int)[t - 1]);
                assert(infos_view(rest@)[t] == restv[t - 1]);
            }
        }
        assert(infos_view(rest@) =~= seq![iv] + restv);
    }
    Ok(rest)
}

impl BlkInfo {
    /// Every block device of the snapshot: DM devices first, then the
    /// devices that no multipath map owns.
    pub fn list(fs: &Sysfs) -> (r: Result<Vec<BlkInfo>, PeripetyError>)
        ensures
            match r {
                Ok(v) => list_spec(*fs) == Ok::<_, BlkErrKind>(infos_view(v@)),
                Err(e) => list_spec(*fs) matches Err(k) && err_matches(e, k),
            },
    {
        let es = fs.read_dir("/sys/class/block")?;
        let ghost evs = es@.map_values(|e: String| e@);
        let n: usize = es.len();
        let mut dms: Vec<String> = Vec::new();
        let mut others: Vec<String> = Vec::new();
        let mut i: usize = 0;
        proof {
            assert(evs.take(0) =~= Seq::<Seq<char>>::empty());
            assert(dms@.map_values(|e: String| e@) =~= filter_dm(evs.take(0), true));
            assert(others@.map_values(|e: String| e@) =~= filter_dm(evs.take(0), false));
        }
        while i < n
            invariant
                0 <= i <= n,
                n == es@.len(),
                evs == es@.map_values(|e: String| e@),
                dms@.map_values(|e: String| e@) == filter_dm(evs.take(i as int), true),
                others@.map_values(|e: String| e@) == filter_dm(evs.take(i as int), false),
            decreases n - i,
        {
            proof {
                assert(evs.take(i as int + 1).drop_last() =~= evs.take(i as int));
                assert(evs.take(i as int + 1).last() == evs[i as int]);
                assert(evs[i as int] == es@[i as int]@);
            }
            let ghost dv = dms@.map_values(|e: String| e@);
            let ghost ov = others@.map_values(|e: String| e@);
            if check_starts_dm_dash(es[i].as_str()) {
                dms.push(es[i].clone());
                proof {
                    assert forall|t: int| 0 <= t < dms@.len() implies dms@.map_values(
                        |e: String| e@,
                    )[t] == dv.push(evs[i as int])[t] by {
                        if t < dv.len() {
                            assert(dms@[t] == dms@.subrange(0, dms@.len() - 1)[t]);
                        }
                    }
                    assert(dms@.map_values(|e: String| e@) =~= dv.push(evs[i as int]));
                }
            } else {
                others.push(es[i].clone());
                proof {
                    assert forall|t: int| 0 <= t < others@.len() implies others@.map_values(
                        |e: String| e@,
                    )[t] == ov.push(evs[i as int])[t] by {
                        if t < ov.len() {
                            assert(others@[t] == others@.subrange(0, others@.len() - 1)[t]);
                        }
                    }
                    assert(others@.map_values(|e: String| e@) =~= ov.push(evs[i as int]));
                }
            }
            i += 1;
        }
        proof {
            assert(evs.take(n as int) =~= evs);
            assert(dms@.map_values(|e: String| e@).skip(0) =~= dms@.map_values(
                |e: String| e@,
            ));
        }
        let (mut out, rem) = match list_dms(fs, &dms, 0, others) {
            Ok(p) => p,
            Err(e) => {
                return Err(e);
            },
        };
        proof {
            assert(rem@.map_values(|e: String| e@).skip(0) =~= rem@.map_values(
                |e: String| e@,
            ));
        }
        let mut more = list_others(fs, &rem, 0)?;
        let ghost outv = infos_view(out@);
        let ghost morev = infos_view(more@);
        out.append(&mut more);
        proof {
            assert forall|t: int| 0 <= t < out@.len() implies infos_view(out@)[t] == (outv
                + morev)[t] by {}
            assert(infos_view(out@) =~= outv + morev);
        }
        Ok(out)
    }
}


proof fn lemma_dedup_distinct(os: Seq<OwnerV>, seen: Set<Seq<char>>)
    ensures
        forall|i: int, j: int|
            0 <= i < j < dedup_spec(os, seen).len() ==> #[trigger] dedup_spec(os, seen)[i].wwid
                != #[trigger] dedup_spec(os, seen)[j].wwid,
        forall|i: int|
            0 <= i < dedup_spec(os, seen).len() ==> !seen.contains(
                #[trigger] dedup_spec(os, seen)[i].wwid,
            ),
    decreases os.len(),
{
    if os.len() > 0 {
        if seen.contains(os[0].wwid) {
            lemma_dedup_distinct(os.skip(1), seen);
        } else {
            lemma_dedup_distinct(os.skip(1), seen.insert(os[0].wwid));
            let d = dedup_spec(os, seen);
            let rest = dedup_spec(os.skip(1), seen.insert(os[0].wwid));
            assert forall|i: int, j: int| 0 <= i < j < d.len() implies d[i].wwid
                != d[j].wwid by {
                if i == 0 {
                    assert(d[j] == rest[j - 1]);
                    assert(!seen.insert(os[0].wwid).contains(rest[j - 1].wwid));
                } else {
                    assert(d[i] == rest[i - 1]);
                    assert(d[j] == rest[j - 1]);
                }
            }
            assert forall|i: int| 0 <= i < d.len() implies !seen.contains(d[i].wwid) by {
                if i > 0 {
                    assert(d[i] == rest[i - 1]);
                    assert(!seen.insert(os[0].wwid).contains(rest[i - 1].wwid));
                }
            }
        }
    }
}

/// Owner non-duplication: a description from `BlkInfo::new` never lists
/// two owners with the same WWID.
pub proof fn owners_wwids_distinct(fs: Sysfs, blk: Seq<char>)
    ensures
        new_spec(fs, blk) matches Ok(b) ==> forall|i: int, j: int|
            0 <= i < j < b.owners.len() ==> #[trigger] b.owners[i].wwid
                != #[trigger] b.owners[j].wwid,
{
    if new_spec(fs, blk) matches Ok(b) {
        let r = resolve_spec(fs, blk, false, RESOLVE_DEPTH as nat);
        lemma_dedup_distinct(r->Ok_0.owners, Set::empty());
    }
}

/// Multipath slave type: when every slave listed under a DM map is a plain
/// SCSI disk name, as it is for a multipath map, every owner of the
/// resolved map is of type `Scsi`.
pub proof fn multipath_owners_are_scsi(fs: Sysfs, dm: Seq<char>, fuel: nat)
    requires
        fs.dir_at("/sys/block/"@ + dm + "/slaves"@) matches Some(es) ==> forall|i: int|
            0 <= i < es.len() ==> is_sd_name(#[trigger] es[i]),
    ensures
        dm_spec(fs, dm, fuel) matches Ok(b) ==> forall|i: int|
            0 <= i < b.owners.len() ==> #[trigger] b.owners[i].blk_type == BlkType::Scsi,
{
    if dm_spec(fs, dm, fuel) matches Ok(b) {
        let es = fs.dir_at("/sys/block/"@ + dm + "/slaves"@)->Some_0;
        lemma_sd_owners_scsi(fs, es, (fuel - 1) as nat);
    }
}

proof fn lemma_sd_owners_scsi(fs: Sysfs, es: Seq<Seq<char>>, fuel: nat)
    requires
        forall|i: int| 0 <= i < es.len() ==> is_sd_name(#[trigger] es[i]),
    ensures
        forall|i: int|
            0 <= i < dm_owners_spec(fs, es, fuel).len() ==> #[trigger] dm_owners_spec(
                fs,
                es,
                fuel,
            )[i].blk_type == BlkType::Scsi,
    decreases es.len(),
{
    if es.len() > 0 {
        assert(forall|i: int| 0 <= i < es.skip(1).len() ==> is_sd_name(
            #[trigger] es.skip(1)[i],
        ));
        lemma_sd_owners_scsi(fs, es.skip(1), fuel);
        let d = dm_owners_spec(fs, es, fuel);
        let rest = dm_owners_spec(fs, es.skip(1), fuel);
        assert(is_sd_name(es[0]));
        match resolve_spec(fs, es[0], true, fuel) {
            Ok(b) => {
                if fuel > 0 {
                    assert(es[0][0] == 's');
                    assert(b == scsi_disk_spec(fs, es[0])->Ok_0);
                    assert(b.blk_type == BlkType::Scsi);
                    assert(b.owners.len() == 0);
                    assert forall|i: int| 0 <= i < d.len() implies d[i].blk_type
                        == BlkType::Scsi by {
                        if i == 0 {
                        } else {
                            assert(d[i] == rest[i - 1]);
                        }
                    }
                }
            },
            Err(_) => {},
        }
    }
}

/// Partition WWID suffix: a partition name resolves to the WWID of its
/// parent whole disk with `-partN` appended, and the parent stands first
/// among its owners.
pub proof fn partition_wwid_suffix(fs: Sysfs, blk: Seq<char>, skip_holder: bool, fuel: nat)
    requires
        is_sd_part_name(blk),
        blk[0] == 's',
    ensures
        resolve_spec(fs, blk, skip_holder, fuel) matches Ok(r) ==> {
            let parent = blk.subrange(0, digits_start(blk));
            let pnum = blk.subrange(digits_start(blk), blk.len() as int);
            &&& resolve_spec(fs, parent, false, (fuel - 1) as nat) matches Ok(p)
            &&& r.wwid == resolve_spec(fs, parent, false, (fuel - 1) as nat)->Ok_0.wwid
                + "-part"@ + pnum
            &&& r.blk_type == BlkType::Partition
            &&& r.owners.len() > 0
            &&& r.owners[0] == resolve_spec(fs, parent, false, (fuel - 1) as nat)->Ok_0.as_owner()
        },
{
    if resolve_spec(fs, blk, skip_holder, fuel) matches Ok(r) {
        assert(!is_sd_name(blk)) by {
            if is_sd_name(blk) {
                assert(is_digit(blk.last()));
                assert(is_lower(blk[blk.len() - 1]));
            }
        }
        assert(resolve_spec(fs, blk, skip_holder, fuel) == part_spec(fs, blk, fuel));
    }
}

/// Resolution priority: a whole-disk name with a DM holder resolves to the
/// DM device; with the holder check disabled it resolves to the SCSI disk
/// itself, whose type is `Scsi`.
pub proof fn holder_priority(fs: Sysfs, blk: Seq<char>, fuel: nat)
    requires
        is_sd_name(blk),
        fuel > 0,
    ensures
        holder_dm_spec(fs, blk) matches Some(d) ==> resolve_spec(fs, blk, false, fuel)
            == dm_spec(fs, d, fuel),
        resolve_spec(fs, blk, true, fuel) == scsi_disk_spec(fs, blk),
        scsi_disk_spec(fs, blk) matches Ok(b) ==> b.blk_type == BlkType::Scsi,
        holder_dm_spec(fs, blk) matches Some(d) ==> (dm_spec(fs, d, fuel) matches Ok(b)
            ==> b.blk_type != BlkType::Scsi),
{
    assert(blk[0] == 's');
}


proof fn lemma_digits_start_bounds(s: Seq<char>)
    ensures
        0 <= digits_start(s) <= s.len(),
    decreases s.len(),
{
    if s.len() > 0 && is_digit(s.last()) {
        lemma_digits_start_bounds(s.drop_last());
    }
}

proof fn lemma_dedup_subset(os: Seq<OwnerV>, seen: Set<Seq<char>>)
    ensures
        forall|i: int|
            0 <= i < dedup_spec(os, seen).len() ==> exists|j: int|
                0 <= j < os.len() && os[j] == #[trigger] dedup_spec(os, seen)[i],
    decreases os.len(),
{
    if os.len() > 0 {
        if seen.contains(os[0].wwid) {
            lemma_dedup_subset(os.skip(1), seen);
            assert forall|i: int| 0 <= i < dedup_spec(os, seen).len() implies exists|
                j: int,
            | 0 <= j < os.len() && os[j] == #[trigger] dedup_spec(os, seen)[i] by {
                let rest = dedup_spec(os.skip(1), seen);
                let j = choose|j: int| 0 <= j < os.skip(1).len() && os.skip(1)[j]
                    == rest[i];
                assert(os[j + 1] == rest[i]);
            }
        } else {
            lemma_dedup_subset(os.skip(1), seen.insert(os[0].wwid));
            assert forall|i: int| 0 <= i < dedup_spec(os, seen).len() implies exists|
                j: int,
            | 0 <= j < os.len() && os[j] == #[trigger] dedup_spec(os, seen)[i] by {
                if i > 0 {
                    let rest = dedup_spec(os.skip(1), seen.insert(os[0].wwid));
                    let j = choose|j: int| 0 <= j < os.skip(1).len() && os.skip(1)[j]
                        == rest[i - 1];
                    assert(os[j + 1] == dedup_spec(os, seen)[i]);
                }
            }
        }
    }
}

/// Multipath slave type, at the public entry point: when every slave the
/// device tree lists under a DM name is a plain SCSI disk name, every
/// owner of the device `BlkInfo::new` resolves for it is of type `Scsi`.
pub proof fn new_multipath_owners_are_scsi(fs: Sysfs, blk: Seq<char>)
    requires
        starts_dm_dash(blk),
        fs.dir_at("/sys/block/"@ + blk + "/slaves"@) matches Some(es) ==> forall|i: int|
            0 <= i < es.len() ==> is_sd_name(#[trigger] es[i]),
    ensures
        new_spec(fs, blk) matches Ok(b) ==> forall|i: int|
            0 <= i < b.owners.len() ==> #[trigger] b.owners[i].blk_type == BlkType::Scsi,
{
    if new_spec(fs, blk) is Ok {
        let b = new_spec(fs, blk)->Ok_0;
        assert(blk[0] == 'd');
        assert(!is_sd_name(blk));
        assert(!is_sd_part_name(blk)) by {
            if is_sd_part_name(blk) {
                lemma_digits_start_bounds(blk);
                assert(blk.subrange(0, digits_start(blk))[0] == 's');
            }
        }
        assert(!is_scsi_id(blk)) by {
            if is_scsi_id(blk) {
                assert(is_digit(blk[0]) || blk[0] == ':');
            }
        }
        let r = resolve_spec(fs, blk, false, RESOLVE_DEPTH as nat);
        assert(r == dm_spec(fs, blk, RESOLVE_DEPTH as nat));
        multipath_owners_are_scsi(fs, blk, RESOLVE_DEPTH as nat);
        lemma_dedup_subset(r->Ok_0.owners, Set::empty());
        assert forall|i: int| 0 <= i < b.owners.len() implies #[trigger] b.owners[i].blk_type
            == BlkType::Scsi by {
            let j = choose|j: int|
                0 <= j < r->Ok_0.owners.len() && r->Ok_0.owners[j] == b.owners[i];
        }
    }
}

} // verus!
