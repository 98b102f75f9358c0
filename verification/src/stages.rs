//! The parser stages: subsystem-specific enrichment of raw events. Each
//! stage is a pure function from the sysfs picture and an event to the
//! enriched event, or nothing when the event is dropped.

use vstd::prelude::*;

use crate::blk::{
    mm_name_spec, new_spec, resolve_spec, BlkInfo, BlkType, RESOLVE_DEPTH,
};
use crate::event::{StorageEvent, StorageEventV, StorageSubSystem};
use crate::strutil::{
    assoc_get, assoc_sq, basename, basename_of, concat2, concat3, is_prefix, pairs_view,
    starts_with, str_eq, substr,
};
use crate::sysfs::Sysfs;
use crate::transport::{get_scsi_transport_info, transport_info_spec};

verus! {

/// Whether a stage consumes fresh kernel events, re-offered enriched
/// events, or both.
#[derive(Clone, Copy, Debug, PartialEq, Eq, Structural)]
pub enum EventType {
    Raw,
    Synthetic,
}

/// What one stage declares to the orchestrator: its name and which events
/// it wishes to receive.
pub struct ParserInfo {
    pub name: String,
    pub filter_event_type: Vec<EventType>,
    pub filter_event_subsys: Option<Vec<StorageSubSystem>>,
}

/// Whether a stage wants an event of the given class and subsystem.
pub open spec fn stage_wants_spec(
    p: ParserInfo,
    class: EventType,
    sub: StorageSubSystem,
) -> bool {
    p.filter_event_type@.contains(class) && (match p.filter_event_subsys {
        None => true,
        Some(ss) => ss@.contains(sub),
    })
}

pub fn stage_wants(p: &ParserInfo, class: EventType, sub: StorageSubSystem) -> (r: bool)
    ensures
        r == stage_wants_spec(*p, class, sub),
{
    let mut has_class = false;
    let n: usize = p.filter_event_type.len();
    let mut i: usize = 0;
    while i < n
        invariant
            0 <= i <= n,
            n == p.filter_event_type@.len(),
            has_class == exists|j: int|
                0 <= j < i && p.filter_event_type@[j] == class,
        decreases n - i,
    {
        if p.filter_event_type[i] == class {
            has_class = true;
        }
        i += 1;
    }
    if !has_class {
        return false;
    }
    match &p.filter_event_subsys {
        None => true,
        Some(ss) => {
            let m: usize = ss.len();
            let mut k: usize = 0;
            while k < m
                invariant
                    0 <= k <= m,
                    m == ss@.len(),
                    p.filter_event_type@.contains(class),
                    p.filter_event_subsys matches Some(ss2) && ss2@ == ss@,
                    forall|j: int| 0 <= j < k ==> ss@[j] != sub,
                decreases m - k,
            {
                if ss[k] == sub {
                    return true;
                }
                k += 1;
            }
            false
        },
    }
}

/// The multipath stage's declaration.
pub fn mpath_parser_info() -> (r: ParserInfo)
    ensures
        r.name@ == "mpath"@,
        r.filter_event_type@ =~= seq![EventType::Raw],
        r.filter_event_subsys matches Some(ss) && ss@ =~= seq![StorageSubSystem::Multipath],
{
    let mut t: Vec<EventType> = Vec::new();
    t.push(EventType::Raw);
    let mut s: Vec<StorageSubSystem> = Vec::new();
    s.push(StorageSubSystem::Multipath);
    ParserInfo { name: "mpath".to_owned(), filter_event_type: t, filter_event_subsys: Some(s) }
}

/// The SCSI stage's declaration.
pub fn scsi_parser_info() -> (r: ParserInfo)
    ensures
        r.name@ == "scsi"@,
        r.filter_event_type@ =~= seq![EventType::Raw],
        r.filter_event_subsys matches Some(ss) && ss@ =~= seq![StorageSubSystem::Scsi],
{
    let mut t: Vec<EventType> = Vec::new();
    t.push(EventType::Raw);
    let mut s: Vec<StorageSubSystem> = Vec::new();
    s.push(StorageSubSystem::Scsi);
    ParserInfo { name: "scsi".to_owned(), filter_event_type: t, filter_event_subsys: Some(s) }
}

/// The filesystem stage's declaration.
pub fn fs_parser_info() -> (r: ParserInfo)
    ensures
        r.name@ == "fs"@,
        r.filter_event_type@ =~= seq![EventType::Raw],
        r.filter_event_subsys matches Some(ss) && ss@ =~= seq![
            StorageSubSystem::FsExt4,
            StorageSubSystem::FsXfs,
            StorageSubSystem::FsJbd2,
        ],
{
    let mut t: Vec<EventType> = Vec::new();
    t.push(EventType::Raw);
    let mut s: Vec<StorageSubSystem> = Vec::new();
    s.push(StorageSubSystem::FsExt4);
    s.push(StorageSubSystem::FsXfs);
    s.push(StorageSubSystem::FsJbd2);
    ParserInfo { name: "fs".to_owned(), filter_event_type: t, filter_event_subsys: Some(s) }
}

/// Replace the first pair keyed `k`, or append one.
pub open spec fn ext_set_spec(
    ext: Seq<(Seq<char>, Seq<char>)>,
    k: Seq<char>,
    v: Seq<char>,
) -> Seq<(Seq<char>, Seq<char>)>
    decreases ext.len(),
{
    if ext.len() == 0 {
        seq![(k, v)]
    } else if ext[0].0 == k {
        seq![(k, v)] + ext.skip(1)
    } else {
        seq![ext[0]] + ext_set_spec(ext.skip(1), k, v)
    }
}

fn ext_set_from(ext: &Vec<(String, String)>, i: usize, k: &str, v: &str) -> (r: Vec<
    (String, String),
>)
    requires
        i <= ext@.len(),
    ensures
        pairs_view(r@) == ext_set_spec(pairs_view(ext@).skip(i as int), k@, v@),
    decreases ext@.len() - i,
{
    let ghost evs = pairs_view(ext@);
    if i == ext.len() {
        let mut out: Vec<(String, String)> = Vec::new();
        out.push((k.to_owned(), v.to_owned()));
        proof {
            assert(evs.skip(i as int) =~= Seq::<(Seq<char>, Seq<char>)>::empty());
            assert(pairs_view(out@) =~= ext_set_spec(evs.skip(i as int), k@, v@));
        }
        return out;
    }
    proof {
        assert(evs.skip(i as int)[0] == evs[i as int]);
        assert(evs.skip(i as int).skip(1) =~= evs.skip(i as int + 1));
    }
    if str_eq(ext[i].0.as_str(), k) {
        let mut out: Vec<(String, String)> = Vec::new();
        out.push((k.to_owned(), v.to_owned()));
        let mut j: usize = i + 1;
        let n: usize = ext.len();
        while j < n
            invariant
                i + 1 <= j <= n,
                n == ext@.len(),
                evs == pairs_view(ext@),
                out@.len() == j - i,
                pairs_view(out@) =~= seq![(k@, v@)] + evs.subrange(i as int + 1, j as int),
            decreases n - j,
        {
            let ghost ov = pairs_view(out@);
            let pk = ext[j].0.clone();
            let pv = ext[j].1.clone();
            out.push((pk, pv));
            j += 1;
            proof {
                assert forall|t: int| 0 <= t < out@.len() implies pairs_view(out@)[t]
                    == ov.push(evs[j - 1])[t] by {
                    if t < ov.len() {
                        assert(out@[t] == out@.drop_last()[t]);
                    }
                }
                assert(pairs_view(out@) =~= ov.push(evs[j - 1]));
                assert(pairs_view(out@) =~= seq![(k@, v@)] + evs.subrange(
                    i as int + 1,
                    j as int,
                ));
            }
        }
        proof {
            assert(evs.subrange(i as int + 1, n as int) =~= evs.skip(i as int + 1));
            assert(pairs_view(out@) =~= ext_set_spec(evs.skip(i as int), k@, v@));
        }
        out
    } else {
        let mut rest = ext_set_from(ext, i + 1, k, v);
        let hk = ext[i].0.clone();
        let hv = ext[i].1.clone();
        rest.insert(0, (hk, hv));
        proof {
            let ghost rv = ext_set_spec(evs.skip(i as int + 1), k@, v@);
            assert forall|t: int| 0 <= t < rest@.len() implies pairs_view(rest@)[t] == (
            seq![evs[i as int]] + rv)[t] by {
                if t > 0 {
                    assert(rest@[t] == rest@.subrange(1, rest@.len() as int)[t - 1]);
                    assert(pairs_view(rest@)[t] == rv[t - 1]);
                }
            }
            assert(pairs_view(rest@) =~= seq![evs[i as int]] + rv);
        }
        rest
    }
}

/// Replace or append one extension pair.
pub fn ext_set(ext: &Vec<(String, String)>, k: &str, v: &str) -> (r: Vec<(String, String)>)
    ensures
        pairs_view(r@) == ext_set_spec(pairs_view(ext@), k@, v@),
{
    proof {
        assert(pairs_view(ext@).skip(0) =~= pairs_view(ext@));
    }
    ext_set_from(ext, 0, k, v)
}

/// The SCSI sense-key promotion: `Medium Error` and `Hardware Error`
/// sense keys rename the event type.
pub open spec fn promoted_event_type(e: StorageEventV) -> Seq<char> {
    if e.event_type == "SCSI_SENSE_KEY"@ {
        match assoc_sq(e.extension, "sense_key"@) {
            Some(sk) => {
                if sk == "Medium Error"@ {
                    "SCSI_MEDIUM_ERROR"@
                } else if sk == "Hardware Error"@ {
                    "SCSI_HARDWARE_ERROR"@
                } else {
                    e.event_type
                }
            },
            None => e.event_type,
        }
    } else {
        e.event_type
    }
}

/// What the SCSI stage emits: host-only events and unresolvable paths are
/// dropped; otherwise the event keeps its SCSI disk (the holder check is
/// off), possibly with a promoted event type.
pub open spec fn scsi_parse_spec(fs: Sysfs, e: StorageEventV) -> Option<StorageEventV> {
    if is_prefix("+scsi:host"@, e.kdev) {
        None
    } else {
        let kdev = if is_prefix("+scsi:"@, e.kdev) {
            e.kdev.skip(6)
        } else {
            e.kdev
        };
        match resolve_spec(fs, kdev, true, RESOLVE_DEPTH as nat) {
            Err(_) => None,
            Ok(b) => Some(
                StorageEventV {
                    hostname: e.hostname,
                    severity: e.severity,
                    sub_system: e.sub_system,
                    timestamp: e.timestamp,
                    event_id: e.event_id,
                    event_type: promoted_event_type(e),
                    blk_info: b,
                    kdev: e.kdev,
                    msg: e.raw_msg + ", wwid: '"@ + b.wwid + "'"@,
                    raw_msg: e.raw_msg,
                    extension: e.extension,
                },
            ),
        }
    }
}

/// The SCSI stage; see `scsi_parse_spec`.
pub fn scsi_parse_event(fs: &Sysfs, event: &StorageEvent) -> (r: Option<StorageEvent>)
    ensures
        match r {
            Some(out) => scsi_parse_spec(*fs, event@) == Some(out@),
            None => scsi_parse_spec(*fs, event@) is None,
        },
{
    if starts_with(event.kdev.as_str(), "+scsi:host") {
        return None;
    }
    let kdev = if starts_with(event.kdev.as_str(), "+scsi:") {
        proof {
            reveal_strlit("+scsi:");
        }
        substr(event.kdev.as_str(), 6, event.kdev.as_str().unicode_len())
    } else {
        event.kdev.clone()
    };
    let b = match BlkInfo::new_skip_extra(fs, kdev.as_str()) {
        Ok(b) => b,
        Err(_) => {
            return None;
        },
    };
    let mut event_type = event.event_type.clone();
    if str_eq(event.event_type.as_str(), "SCSI_SENSE_KEY") {
        if let Some(sk) = assoc_get(&event.extension, "sense_key") {
            if str_eq(sk.as_str(), "Medium Error") {
                event_type = "SCSI_MEDIUM_ERROR".to_owned();
            } else if str_eq(sk.as_str(), "Hardware Error") {
                event_type = "SCSI_HARDWARE_ERROR".to_owned();
            }
        }
    }
    let mut msg = event.raw_msg.clone();
    msg.append(", wwid: '");
    msg.append(b.wwid.as_str());
    msg.append("'");
    let out = StorageEvent {
        hostname: event.hostname.clone(),
        severity: event.severity,
        sub_system: event.sub_system,
        timestamp: event.timestamp.clone(),
        event_id: event.event_id.clone(),
        event_type,
        blk_info: b,
        kdev: event.kdev.clone(),
        msg,
        raw_msg: event.raw_msg.clone(),
        extension: dup_pairs(&event.extension),
    };
    proof {
        assert(out@ =~= scsi_parse_spec(*fs, event@)->Some_0);
    }
    Some(out)
}

/// Copies of a pair list.
pub fn dup_pairs(ps: &Vec<(String, String)>) -> (r: Vec<(String, String)>)
    ensures
        pairs_view(r@) == pairs_view(ps@),
{
    let mut out: Vec<(String, String)> = Vec::new();
    crate::transport::extend_pairs(&mut out, ps);
    proof {
        assert(pairs_view(out@) =~= pairs_view(ps@));
    }
    out
}

/// The ext4 mount data-mode capture brought to a fixed vocabulary.
pub open spec fn normalize_data_mode(dm: Seq<char>) -> Seq<char> {
    if dm == " journalled data mode"@ {
        "journalled"@
    } else if dm == " ordered data mode"@ {
        "ordered"@
    } else if dm == " writeback data mode"@ {
        "writeback"@
    } else if dm == "out journal"@ {
        "no_journal"@
    } else {
        "unknown"@
    }
}

fn normalize_data_mode_exec(dm: &str) -> (r: &'static str)
    ensures
        r@ == normalize_data_mode(dm@),
{
    if str_eq(dm, " journalled data mode") {
        "journalled"
    } else if str_eq(dm, " ordered data mode") {
        "ordered"
    } else if str_eq(dm, " writeback data mode") {
        "writeback"
    } else if str_eq(dm, "out journal") {
        "no_journal"
    } else {
        "unknown"
    }
}

/// `", key: 'value'"` for every pair, in order.
pub open spec fn pairs_msg(ext: Seq<(Seq<char>, Seq<char>)>) -> Seq<char>
    decreases ext.len(),
{
    if ext.len() == 0 {
        Seq::empty()
    } else {
        pairs_msg(ext.drop_last()) + ", "@ + ext.last().0 + ": '"@ + ext.last().1 + "'"@
    }
}

fn append_pairs_msg(msg: &mut String, ext: &Vec<(String, String)>)
    ensures
        final(msg)@ == old(msg)@ + pairs_msg(pairs_view(ext@)),
{
    let ghost evs = pairs_view(ext@);
    let n: usize = ext.len();
    let mut i: usize = 0;
    proof {
        assert(evs.take(0) =~= Seq::<(Seq<char>, Seq<char>)>::empty());
        assert(msg@ + pairs_msg(evs.take(0)) =~= msg@);
    }
    while i < n
        invariant
            0 <= i <= n,
            n == ext@.len(),
            evs == pairs_view(ext@),
            msg@ == old(msg)@ + pairs_msg(evs.take(i as int)),
        decreases n - i,
    {
        proof {
            assert(evs.take(i as int + 1).drop_last() =~= evs.take(i as int));
            assert(evs.take(i as int + 1).last() == evs[i as int]);
        }
        msg.append(", ");
        msg.append(ext[i].0.as_str());
        msg.append(": '");
        msg.append(ext[i].1.as_str());
        msg.append("'");
        i += 1;
        proof {
            assert(msg@ =~= old(msg)@ + pairs_msg(evs.take(i as int)));
        }
    }
    proof {
        assert(evs.take(n as int) =~= evs);
    }
}

/// What the filesystem stage emits: the event is dropped without a
/// filesystem UUID; otherwise it gains the resolved device, the UUID and
/// mount point in its extension, a normalized ext4 data mode, and a
/// message listing every extension pair.
pub open spec fn fs_parse_spec(fs: Sysfs, e: StorageEventV) -> Option<StorageEventV> {
    match new_spec(fs, e.kdev) {
        Err(_) => None,
        Ok(b) => match b.uuid {
            None => None,
            Some(u) => {
                let msg0 = e.raw_msg + ", blk_wwid: '"@ + b.wwid + "', blk_path: '"@
                    + b.blk_path + "'"@;
                let ext1 = match b.mount_point {
                    Some(mp) => ext_set_spec(e.extension, "mount_point"@, mp),
                    None => e.extension,
                };
                let ext2 = ext_set_spec(ext1, "uuid"@, u);
                let ext3 = if e.sub_system == StorageSubSystem::FsExt4 && e.event_type
                    == "FS_MOUNTED"@ {
                    match assoc_sq(ext2, "data_mode"@) {
                        Some(dm) => ext_set_spec(
                            ext2,
                            "data_mode"@,
                            normalize_data_mode(dm),
                        ),
                        None => ext2,
                    }
                } else {
                    ext2
                };
                Some(
                    StorageEventV {
                        hostname: e.hostname,
                        severity: e.severity,
                        sub_system: e.sub_system,
                        timestamp: e.timestamp,
                        event_id: e.event_id,
                        event_type: e.event_type,
                        blk_info: b,
                        kdev: e.kdev,
                        msg: msg0 + pairs_msg(ext3),
                        raw_msg: e.raw_msg,
                        extension: ext3,
                    },
                )
            },
        },
    }
}

/// The filesystem stage; see `fs_parse_spec`.
pub fn fs_parse_event(fs: &Sysfs, event: &StorageEvent) -> (r: Option<StorageEvent>)
    ensures
        match r {
            Some(out) => fs_parse_spec(*fs, event@) == Some(out@),
            None => fs_parse_spec(*fs, event@) is None,
        },
{
    let b = match BlkInfo::new(fs, event.kdev.as_str()) {
        Ok(b) => b,
        Err(_) => {
            return None;
        },
    };
    let u = match &b.uuid {
        Some(u) => u.clone(),
        None => {
            return None;
        },
    };
    let mut msg = event.raw_msg.clone();
    msg.append(", blk_wwid: '");
    msg.append(b.wwid.as_str());
    msg.append("', blk_path: '");
    msg.append(b.blk_path.as_str());
    msg.append("'");
    let ext1 = match &b.mount_point {
        Some(mp) => ext_set(&event.extension, "mount_point", mp.as_str()),
        None => dup_pairs(&event.extension),
    };
    let ext2 = ext_set(&ext1, "uuid", u.as_str());
    let mut ext3 = ext2;
    if event.sub_system == StorageSubSystem::FsExt4 && str_eq(
        event.event_type.as_str(),
        "FS_MOUNTED",
    ) {
        let dm_norm = match assoc_get(&ext3, "data_mode") {
            Some(dm) => Some(normalize_data_mode_exec(dm.as_str()).to_owned()),
            None => None,
        };
        if let Some(nv) = dm_norm {
            ext3 = ext_set(&ext3, "data_mode", nv.as_str());
        }
    }
    append_pairs_msg(&mut msg, &ext3);
    let out = StorageEvent {
        hostname: event.hostname.clone(),
        severity: event.severity,
        sub_system: event.sub_system,
        timestamp: event.timestamp.clone(),
        event_id: event.event_id.clone(),
        event_type: event.event_type.clone(),
        blk_info: b,
        kdev: event.kdev.clone(),
        msg,
        raw_msg: event.raw_msg.clone(),
        extension: ext3,
    };
    proof {
        assert(out@ =~= fs_parse_spec(*fs, event@)->Some_0);
    }
    Some(out)
}

/// The multipath map holding a path device: the first holder's DM name
/// and its WWID with the `mpath-` prefix stripped.
pub open spec fn mpath_info_spec(fs: Sysfs, kdev: Seq<char>) -> Option<
    (Seq<char>, Seq<char>),
> {
    match fs.dir_at("/sys/dev/block/"@ + kdev + "/holders"@) {
        None => None,
        Some(es) => {
            if es.len() == 0 {
                None
            } else {
                let base = "/sys/dev/block/"@ + kdev + "/holders/"@ + es[0];
                match fs.file_at(base + "/dm/uuid"@) {
                    None => None,
                    Some(u) => {
                        if is_prefix("mpath-"@, u) {
                            match fs.file_at(base + "/dm/name"@) {
                                None => None,
                                Some(nm) => Some((nm, u.skip(6))),
                            }
                        } else {
                            None
                        }
                    },
                }
            }
        },
    }
}

/// See `mpath_info_spec`.
pub fn get_mpath_info_from_blk(fs: &Sysfs, major_minor: &str) -> (r: Option<
    (String, String),
>)
    ensures
        match r {
            Some(p) => mpath_info_spec(*fs, major_minor@) == Some((p.0@, p.1@)),
            None => mpath_info_spec(*fs, major_minor@) is None,
        },
{
    let hd = concat3("/sys/dev/block/", major_minor, "/holders");
    let es = match fs.read_dir(hd.as_str()) {
        Ok(es) => es,
        Err(_) => {
            return None;
        },
    };
    if es.len() == 0 {
        return None;
    }
    proof {
        assert(es@.map_values(|e: String| e@)[0] == es@[0]@);
    }
    let base = concat3(hd.as_str(), "/", es[0].as_str());
    proof {
        reveal_strlit("/sys/dev/block/");
        reveal_strlit("/holders");
        reveal_strlit("/holders/");
        reveal_strlit("/");
        assert(base@ =~= "/sys/dev/block/"@ + major_minor@ + "/holders/"@ + es@[0]@);
    }
    let up = concat2(base.as_str(), "/dm/uuid");
    let u = match fs.read(up.as_str()) {
        Ok(u) => u,
        Err(_) => {
            return None;
        },
    };
    if !starts_with(u.as_str(), "mpath-") {
        return None;
    }
    let np = concat2(base.as_str(), "/dm/name");
    let nm = match fs.read(np.as_str()) {
        Ok(nm) => nm,
        Err(_) => {
            return None;
        },
    };
    proof {
        reveal_strlit("mpath-");
    }
    let wwid = substr(u.as_str(), 6, u.as_str().unicode_len());
    proof {
        assert(wwid@ =~= u@.skip(6));
    }
    Some((nm, wwid))
}

/// `", key=value"` for every transport pair, in order.
pub open spec fn trans_msg(ps: Seq<(Seq<char>, Seq<char>)>) -> Seq<char>
    decreases ps.len(),
{
    if ps.len() == 0 {
        Seq::empty()
    } else {
        trans_msg(ps.drop_last()) + ", "@ + ps.last().0 + "="@ + ps.last().1
    }
}

/// Each transport pair written into the extension, in order.
pub open spec fn merge_pairs(
    ext: Seq<(Seq<char>, Seq<char>)>,
    ps: Seq<(Seq<char>, Seq<char>)>,
) -> Seq<(Seq<char>, Seq<char>)>
    decreases ps.len(),
{
    if ps.len() == 0 {
        ext
    } else {
        merge_pairs(ext_set_spec(ext, ps[0].0, ps[0].1), ps.skip(1))
    }
}

/// What the multipath stage emits for a path-failure or reinstatement
/// event: the event attaches to the multipath map that holds the path,
/// gains the path's transport coordinates when the path is a SCSI disk,
/// and records the failing `major:minor` pair.
pub open spec fn mpath_parse_spec(fs: Sysfs, e: StorageEventV) -> Option<StorageEventV> {
    if !(e.event_type == "DM_MPATH_PATH_FAILED"@ || e.event_type
        == "DM_MPATH_PATH_REINSTATED"@) {
        None
    } else {
        match mpath_info_spec(fs, e.kdev) {
            None => None,
            Some(info) => {
                let dev_path = "/dev/mapper/"@ + info.0;
                match mm_name_spec(fs, e.kdev) {
                    Err(_) => None,
                    Ok(path_blk_name) => match fs.canon_at(dev_path) {
                        None => None,
                        Some(c) => {
                            if basename_of(c).len() == 0 {
                                None
                            } else {
                                match new_spec(fs, basename_of(c)) {
                                    Err(_) => None,
                                    Ok(bi) => {
                                        let msg0 = e.raw_msg + " mpath_wwid: "@ + info.1
                                            + ", path_blk_name: "@ + path_blk_name;
                                        let trans = mpath_trans_pairs(fs, path_blk_name);
                                        let ext1 = merge_pairs(e.extension, trans);
                                        let ext2 = ext_set_spec(
                                            ext1,
                                            "blk_major_minor"@,
                                            e.kdev,
                                        );
                                        Some(
                                            StorageEventV {
                                                hostname: e.hostname,
                                                severity: e.severity,
                                                sub_system: e.sub_system,
                                                timestamp: e.timestamp,
                                                event_id: e.event_id,
                                                event_type: e.event_type,
                                                blk_info: bi,
                                                kdev: e.kdev,
                                                msg: msg0 + trans_msg(trans),
                                                raw_msg: e.raw_msg,
                                                extension: ext2,
                                            },
                                        )
                                    },
                                }
                            }
                        },
                    },
                }
            },
        }
    }
}

/// The transport pairs merged for a path device: present exactly when the
/// path resolves (holder check off) to a SCSI disk and its transport
/// information reads cleanly; empty otherwise.
pub open spec fn mpath_trans_pairs(fs: Sysfs, path_blk_name: Seq<char>) -> Seq<
    (Seq<char>, Seq<char>),
> {
    match resolve_spec(fs, path_blk_name, true, RESOLVE_DEPTH as nat) {
        Ok(p) => {
            if p.blk_type == BlkType::Scsi {
                match transport_info_spec(fs, path_blk_name) {
                    Ok(ps) => ps,
                    Err(_) => Seq::empty(),
                }
            } else {
                Seq::empty()
            }
        },
        Err(_) => Seq::empty(),
    }
}

/// The multipath stage; see `mpath_parse_spec`.
pub fn mpath_parse_event(fs: &Sysfs, event: &StorageEvent) -> (r: Option<StorageEvent>)
    ensures
        match r {
            Some(out) => mpath_parse_spec(*fs, event@) == Some(out@),
            None => mpath_parse_spec(*fs, event@) is None,
        },
{
    if !(str_eq(event.event_type.as_str(), "DM_MPATH_PATH_FAILED") || str_eq(
        event.event_type.as_str(),
        "DM_MPATH_PATH_REINSTATED",
    )) {
        return None;
    }
    let (name, wwid) = match get_mpath_info_from_blk(fs, event.kdev.as_str()) {
        Some(p) => p,
        None => {
            return None;
        },
    };
    let dev_path = concat2("/dev/mapper/", name.as_str());
    let path_blk_name = match BlkInfo::major_minor_to_blk_name(fs, event.kdev.as_str()) {
        Ok(n) => n,
        Err(_) => {
            return None;
        },
    };
    let c = match fs.canonicalize(dev_path.as_str()) {
        Some(c) => c,
        None => {
            return None;
        },
    };
    let dm_name = basename(c.as_str());
    if dm_name.as_str().unicode_len() == 0 {
        return None;
    }
    let bi = match BlkInfo::new(fs, dm_name.as_str()) {
        Ok(b) => b,
        Err(_) => {
            return None;
        },
    };
    let mut msg = event.raw_msg.clone();
    msg.append(" mpath_wwid: ");
    msg.append(wwid.as_str());
    msg.append(", path_blk_name: ");
    msg.append(path_blk_name.as_str());
    let trans: Vec<(String, String)> = match BlkInfo::new_skip_extra(
        fs,
        path_blk_name.as_str(),
    ) {
        Ok(p) => {
            if p.blk_type == BlkType::Scsi {
                match get_scsi_transport_info(fs, path_blk_name.as_str()) {
                    Ok(ps) => ps,
                    Err(_) => Vec::new(),
                }
            } else {
                Vec::new()
            }
        },
        Err(_) => Vec::new(),
    };
    proof {
        assert(pairs_view(trans@) =~= mpath_trans_pairs(*fs, path_blk_name@));
    }
    let mut ext1 = dup_pairs(&event.extension);
    let ghost msg_base = msg@;
    let ghost tv = pairs_view(trans@);
    let n: usize = trans.len();
    let mut i: usize = 0;
    proof {
        assert(tv.skip(0) =~= tv);
        assert(tv.take(0) =~= Seq::<(Seq<char>, Seq<char>)>::empty());
        assert(msg_base + trans_msg(tv.take(0)) =~= msg_base);
    }
    while i < n
        invariant
            0 <= i <= n,
            n == trans@.len(),
            tv == pairs_view(trans@),
            msg@ == msg_base + trans_msg(tv.take(i as int)),
            merge_pairs(pairs_view(ext1@), tv.skip(i as int)) == merge_pairs(
                pairs_view(event.extension@),
                tv,
            ),
        decreases n - i,
    {
        proof {
            assert(tv.skip(i as int)[0] == tv[i as int]);
            assert(tv.skip(i as int).skip(1) =~= tv.skip(i as int + 1));
            assert(tv.take(i as int + 1).drop_last() =~= tv.take(i as int));
            assert(tv.take(i as int + 1).last() == tv[i as int]);
        }
        msg.append(", ");
        msg.append(trans[i].0.as_str());
        msg.append("=");
        msg.append(trans[i].1.as_str());
        ext1 = ext_set(&ext1, trans[i].0.as_str(), trans[i].1.as_str());
        i += 1;
        proof {
            assert(msg@ =~= msg_base + trans_msg(tv.take(i as int)));
        }
    }
    proof {
        assert(tv.skip(n as int) =~= Seq::<(Seq<char>, Seq<char>)>::empty());
        assert(tv.take(n as int) =~= tv);
    }
    let ext2 = ext_set(&ext1, "blk_major_minor", event.kdev.as_str());
    let out = StorageEvent {
        hostname: event.hostname.clone(),
        severity: event.severity,
        sub_system: event.sub_system,
        timestamp: event.timestamp.clone(),
        event_id: event.event_id.clone(),
        event_type: event.event_type.clone(),
        blk_info: bi,
        kdev: event.kdev.clone(),
        msg,
        raw_msg: event.raw_msg.clone(),
        extension: ext2,
    };
    proof {
        assert(out@.msg =~= mpath_parse_spec(*fs, event@)->Some_0.msg);
        assert(out@ =~= mpath_parse_spec(*fs, event@)->Some_0);
    }
    Some(out)
}

} // verus!
