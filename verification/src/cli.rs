//! The query CLI's evaluation logic: which events a set of options
//! selects, how a block argument finds its device, and the plain-text
//! rendering of a device description.

use vstd::prelude::*;

use crate::blk::{list_spec, new_spec, BlkInfo, BlkInfoV, OwnerV, infos_view};
use crate::error::{BlkErrKind, PeripetyError, err_matches};
use crate::event::{LogSeverity, StorageEvent, StorageEventV, StorageSubSystem};
use crate::strutil::{last_idx, rfind_idx, starts_with, str_eq, substr};
use crate::sysfs::Sysfs;

verus! {

/// The options a query or monitor invocation carries.
pub struct CliOpt {
    pub severity: Option<LogSeverity>,
    pub sub_systems: Option<Vec<StorageSubSystem>>,
    pub event_types: Option<Vec<String>>,
    pub since: Option<u64>,
    pub blk_info: Option<BlkInfo>,
    pub is_json: bool,
    pub need_notify: bool,
}

#[verifier::ext_equal]
pub ghost struct CliOptV {
    pub severity: Option<LogSeverity>,
    pub sub_systems: Option<Seq<StorageSubSystem>>,
    pub event_types: Option<Seq<Seq<char>>>,
    pub since: Option<u64>,
    pub blk_info: Option<BlkInfoV>,
    pub is_json: bool,
    pub need_notify: bool,
}

impl View for CliOpt {
    type V = CliOptV;

    open spec fn view(&self) -> CliOptV {
        CliOptV {
            severity: self.severity,
            sub_systems: match self.sub_systems {
                Some(ss) => Some(ss@),
                None => None,
            },
            event_types: match self.event_types {
                Some(ts) => Some(ts@.map_values(|t: String| t@)),
                None => None,
            },
            since: self.since,
            blk_info: match self.blk_info {
                Some(b) => Some(b@),
                None => None,
            },
            is_json: self.is_json,
            need_notify: self.need_notify,
        }
    }
}

/// Whether the options select an event: severity at least as severe as
/// asked, subsystem and event type among those listed, and, with a block
/// argument, the event's device equal to it or to one of its owners.
pub open spec fn cli_matches_spec(opt: CliOptV, e: StorageEventV) -> bool {
    (match opt.severity {
        Some(l) => e.severity.spec_u8() <= l.spec_u8(),
        None => true,
    }) && (match opt.sub_systems {
        Some(ss) => ss.len() == 0 || ss.contains(e.sub_system),
        None => true,
    }) && (match opt.event_types {
        Some(ts) => ts.len() == 0 || ts.contains(e.event_type),
        None => true,
    }) && (match opt.blk_info {
        Some(b) => e.blk_info.wwid == b.wwid || exists|i: int|
            #![trigger b.owners[i]]
            0 <= i < b.owners.len() && b.owners[i].wwid == e.blk_info.wwid,
        None => true,
    })
}

/// Evaluate the options against one event; see `cli_matches_spec`.
pub fn handle_event(event: &StorageEvent, cli_opt: &CliOpt) -> (r: bool)
    ensures
        r == cli_matches_spec(cli_opt@, event@),
{
    let mut is_match = true;
    match &cli_opt.severity {
        Some(l) => {
            if !(event.severity.to_u8() <= l.to_u8()) {
                is_match = false;
            }
        },
        None => {},
    }
    match &cli_opt.sub_systems {
        Some(subs) => {
            let n: usize = subs.len();
            if n > 0 {
                let mut found = false;
                let mut i: usize = 0;
                while i < n
                    invariant
                        0 <= i <= n,
                        n == subs@.len(),
                        found == exists|j: int| 0 <= j < i && subs@[j] == event.sub_system,
                    decreases n - i,
                {
                    if subs[i] == event.sub_system {
                        found = true;
                    }
                    i += 1;
                }
                if !found {
                    is_match = false;
                }
            }
        },
        None => {},
    }
    match &cli_opt.event_types {
        Some(ets) => {
            let n: usize = ets.len();
            if n > 0 {
                let ghost tvs = ets@.map_values(|t: String| t@);
                let mut found = false;
                let mut i: usize = 0;
                while i < n
                    invariant
                        0 <= i <= n,
                        n == ets@.len(),
                        tvs == ets@.map_values(|t: String| t@),
                        found == exists|j: int| 0 <= j < i && tvs[j] == event.event_type@,
                    decreases n - i,
                {
                    proof {
                        assert(tvs[i as int] == ets@[i as int]@);
                    }
                    if str_eq(ets[i].as_str(), event.event_type.as_str()) {
                        found = true;
                    }
                    i += 1;
                }
                if !found {
                    is_match = false;
                }
            }
        },
        None => {},
    }
    match &cli_opt.blk_info {
        Some(b) => {
            let mut blk_hit = str_eq(event.blk_info.wwid.as_str(), b.wwid.as_str());
            let n: usize = b.owners.len();
            let mut i: usize = 0;
            while i < n
                invariant
                    0 <= i <= n,
                    n == b.owners@.len(),
                    blk_hit == (event.blk_info.wwid@ == b.wwid@ || exists|j: int|
                        0 <= j < i && b.owners@[j].wwid@ == event.blk_info.wwid@),
                decreases n - i,
            {
                if str_eq(b.owners[i].wwid.as_str(), event.blk_info.wwid.as_str()) {
                    blk_hit = true;
                }
                i += 1;
            }
            if !blk_hit {
                is_match = false;
            }
            proof {
                let bv = cli_opt@.blk_info->Some_0;
                assert forall|j: int| 0 <= j < n implies (#[trigger] bv.owners[j]).wwid
                    == b.owners@[j].wwid@ by {
                    assert(bv.owners[j] == b.owners@[j]@);
                }
                if blk_hit && event.blk_info.wwid@ != b.wwid@ {
                    let j = choose|j: int|
                        0 <= j < n && b.owners@[j].wwid@ == event.blk_info.wwid@;
                    assert(bv.owners[j].wwid == event@.blk_info.wwid);
                }
                if !blk_hit {
                    assert forall|j: int| 0 <= j < bv.owners.len() implies (
                    #[trigger] bv.owners[j]).wwid != event@.blk_info.wwid by {}
                }
            }
        },
        None => {},
    }
    is_match
}

/// Whether a user string names this device: its WWID or its mount point.
pub open spec fn is_match_spec(blk: Seq<char>, wwid: Seq<char>, mp: Option<Seq<char>>) -> bool {
    wwid == blk || mp == Some(blk)
}

pub fn is_match(blk: &str, info: &BlkInfo) -> (r: bool)
    ensures
        r == is_match_spec(blk@, info@.wwid, info@.mount_point),
{
    if str_eq(info.wwid.as_str(), blk) {
        return true;
    }
    match &info.mount_point {
        Some(m) => str_eq(m.as_str(), blk),
        None => false,
    }
}

fn owner_is_match(blk: &str, o_wwid: &str, o_mp: &Option<String>) -> (r: bool)
    ensures
        r == is_match_spec(
            blk@,
            o_wwid@,
            match o_mp {
                Some(m) => Some(m@),
                None => None,
            },
        ),
{
    if str_eq(o_wwid, blk) {
        return true;
    }
    match o_mp {
        Some(m) => str_eq(m.as_str(), blk),
        None => false,
    }
}

/// Whether the listed device, or one of its owners, answers to `blk`.
pub open spec fn info_answers(blk: Seq<char>, b: BlkInfoV) -> bool {
    is_match_spec(blk, b.wwid, b.mount_point) || exists|i: int|
        #![trigger b.owners[i]]
        0 <= i < b.owners.len() && is_match_spec(
            blk,
            b.owners[i].wwid,
            b.owners[i].mount_point,
        )
}

/// The first listed device answering to `blk`.
pub open spec fn find_in_list(blk: Seq<char>, infos: Seq<BlkInfoV>) -> Option<BlkInfoV>
    decreases infos.len(),
{
    if infos.len() == 0 {
        None
    } else if info_answers(blk, infos[0]) {
        Some(infos[0])
    } else {
        find_in_list(blk, infos.skip(1))
    }
}

/// What `get_blk_info` resolves a CLI block argument to: a `/dev` path
/// goes through the resolver, anything else searches the listed devices
/// and their owners; `BlockNoExists` when nothing answers.
pub open spec fn get_blk_info_spec(fs: Sysfs, blk: Seq<char>) -> Result<BlkInfoV, BlkErrKind> {
    if crate::strutil::is_prefix("/dev"@, blk) {
        new_spec(fs, blk)
    } else {
        match list_spec(fs) {
            Err(k) => Err(k),
            Ok(infos) => match find_in_list(blk, infos) {
                Some(b) => Ok(b),
                None => Err(BlkErrKind::BlockNoExists),
            },
        }
    }
}

fn info_answers_exec(blk: &str, info: &BlkInfo) -> (r: bool)
    ensures
        r == info_answers(blk@, info@),
{
    if is_match(blk, info) {
        return true;
    }
    let n: usize = info.owners.len();
    let mut i: usize = 0;
    while i < n
        invariant
            0 <= i <= n,
            n == info.owners@.len(),
            forall|j: int|
                0 <= j < i ==> !is_match_spec(
                    blk@,
                    (#[trigger] info@.owners[j]).wwid,
                    info@.owners[j].mount_point,
                ),
        decreases n - i,
    {
        proof {
            assert(info@.owners[i as int] == info.owners@[i as int]@);
        }
        if owner_is_match(blk, info.owners[i].wwid.as_str(), &info.owners[i].mount_point) {
            return true;
        }
        i += 1;
    }
    proof {
        if info_answers(blk@, info@) {
            assert(is_match_spec(blk@, info@.wwid, info@.mount_point));
        }
    }
    false
}

fn find_in_list_exec(blk: &str, infos: Vec<BlkInfo>, i: usize) -> (r: Option<BlkInfo>)
    requires
        i <= infos@.len(),
    ensures
        match r {
            Some(b) => find_in_list(blk@, infos_view(infos@).skip(i as int)) == Some(b@),
            None => find_in_list(blk@, infos_view(infos@).skip(i as int)) is None,
        },
    decreases infos@.len() - i,
{
    let ghost ivs = infos_view(infos@);
    if i == infos.len() {
        proof {
            assert(ivs.skip(i as int) =~= Seq::<BlkInfoV>::empty());
        }
        return None;
    }
    proof {
        assert(ivs.skip(i as int)[0] == ivs[i as int]);
        assert(ivs.skip(i as int).skip(1) =~= ivs.skip(i as int + 1));
        assert(ivs[i as int] == infos@[i as int]@);
    }
    if info_answers_exec(blk, &infos[i]) {
        let mut infos = infos;
        let b = infos.remove(i);
        Some(b)
    } else {
        find_in_list_exec(blk, infos, i + 1)
    }
}

/// Resolve a CLI block argument; see `get_blk_info_spec`.
pub fn get_blk_info(fs: &Sysfs, blk: &str) -> (r: Result<BlkInfo, PeripetyError>)
    ensures
        match r {
            Ok(b) => get_blk_info_spec(*fs, blk@) == Ok::<_, BlkErrKind>(b@),
            Err(e) => get_blk_info_spec(*fs, blk@) matches Err(k) && err_matches(e, k),
        },
{
    if starts_with(blk, "/dev") {
        BlkInfo::new(fs, blk)
    } else {
        let infos = BlkInfo::list(fs)?;
        proof {
            assert(infos_view(infos@).skip(0) =~= infos_view(infos@));
        }
        match find_in_list_exec(blk, infos, 0) {
            Some(b) => Ok(b),
            None => Err(
                PeripetyError::BlockNoExists("Specified block not found".to_owned()),
            ),
        }
    }
}

/// `prefix`, the device's kernel name, its WWID and its mount point on one
/// line; nothing when the block path has no directory part.
pub open spec fn simple_line(
    prefix: Seq<char>,
    bp: Seq<char>,
    wwid: Seq<char>,
    mp: Option<Seq<char>>,
) -> Seq<char> {
    if last_idx(bp, '/') == -1 {
        Seq::empty()
    } else {
        let name = bp.subrange(last_idx(bp, '/') + 1, bp.len() as int);
        match mp {
            Some(m) => prefix + name + " : "@ + wwid + " : "@ + m + "\n"@,
            None => prefix + name + " : "@ + wwid + "\n"@,
        }
    }
}

/// One aligned `label : value` line.
pub open spec fn dline(prefix: Seq<char>, label: Seq<char>, value: Seq<char>) -> Seq<char> {
    prefix + label + value + "\n"@
}

/// The detailed block: one aligned line per field.
pub open spec fn detail_block(
    prefix: Seq<char>,
    bp: Seq<char>,
    pref: Seq<char>,
    ty: Seq<char>,
    wwid: Seq<char>,
    tid: Seq<char>,
    uuid: Option<Seq<char>>,
    mp: Option<Seq<char>>,
) -> Seq<char> {
    dline(prefix, "blk_path     : "@, bp) + dline(prefix, "preferred    : "@, pref)
        + dline(prefix, "blk_type     : "@, ty) + dline(prefix, "wwid         : "@, wwid)
        + dline(prefix, "transport_id : "@, tid) + dline(
        prefix,
        "uuid         : "@,
        match uuid {
            Some(u) => u,
            None => Seq::empty(),
        },
    ) + dline(
        prefix,
        "mount_point  : "@,
        match mp {
            Some(m) => m,
            None => Seq::empty(),
        },
    )
}

pub open spec fn owner_text(o: OwnerV, is_simple: bool, prefix: Seq<char>) -> Seq<char> {
    if is_simple {
        simple_line(prefix, o.blk_path, o.wwid, o.mount_point)
    } else {
        detail_block(
            prefix,
            o.blk_path,
            o.preferred_blk_path,
            o.blk_type.spec_display_name(),
            o.wwid,
            o.transport_id,
            o.uuid,
            o.mount_point,
        ) + "\n"@
    }
}

pub open spec fn owners_text(os: Seq<OwnerV>, is_simple: bool, prefix: Seq<char>) -> Seq<
    char,
>
    decreases os.len(),
{
    if os.len() == 0 {
        Seq::empty()
    } else {
        owners_text(os.drop_last(), is_simple, prefix) + owner_text(
            os.last(),
            is_simple,
            prefix,
        )
    }
}

/// The full plain-text rendering of a device: the device itself, then,
/// at top level, each owner indented by two spaces.
pub open spec fn to_stdout_spec(b: BlkInfoV, is_simple: bool, prefix: Seq<char>) -> Seq<
    char,
> {
    (if is_simple {
        simple_line(prefix, b.blk_path, b.wwid, b.mount_point)
    } else {
        detail_block(
            prefix,
            b.blk_path,
            b.preferred_blk_path,
            b.blk_type.spec_display_name(),
            b.wwid,
            b.transport_id,
            b.uuid,
            b.mount_point,
        )
    }) + (if prefix == Seq::<char>::empty() && b.owners.len() > 0 {
        (if !is_simple {
            prefix + "owners       :\n"@
        } else {
            Seq::empty()
        }) + owners_text(b.owners, is_simple, prefix + "  "@)
    } else {
        Seq::empty()
    })
}

fn push_simple_line(
    out: &mut String,
    prefix: &str,
    bp: &str,
    wwid: &str,
    mp: &Option<String>,
)
    ensures
        final(out)@ == old(out)@ + simple_line(
            prefix@,
            bp@,
            wwid@,
            match mp {
                Some(m) => Some(m@),
                None => None,
            },
        ),
{
    let li = match rfind_idx(bp, '/') {
        Some(i) => i,
        None => {
            proof {
                assert(final(out)@ =~= old(out)@ + simple_line(
                    prefix@,
                    bp@,
                    wwid@,
                    match mp {
                        Some(m) => Some(m@),
                        None => None,
                    },
                ));
            }
            return;
        },
    };
    let n: usize = bp.unicode_len();
    proof {
        assert(li < n);
    }
    let name = substr(bp, li + 1, n);
    out.append(prefix);
    out.append(name.as_str());
    out.append(" : ");
    out.append(wwid);
    match mp {
        Some(m) => {
            out.append(" : ");
            out.append(m.as_str());
        },
        None => {},
    }
    out.append("\n");
    proof {
        assert(final(out)@ =~= old(out)@ + simple_line(
            prefix@,
            bp@,
            wwid@,
            match mp {
                Some(m) => Some(m@),
                None => None,
            },
        ));
    }
}

fn push_dline(out: &mut String, prefix: &str, label: &str, value: &str)
    ensures
        final(out)@ == old(out)@ + dline(prefix@, label@, value@),
{
    out.append(prefix);
    out.append(label);
    out.append(value);
    out.append("\n");
    proof {
        assert(final(out)@ =~= old(out)@ + dline(prefix@, label@, value@));
    }
}

fn push_detail_block(
    out: &mut String,
    prefix: &str,
    bp: &str,
    pref: &str,
    ty: &str,
    wwid: &str,
    tid: &str,
    uuid: &Option<String>,
    mp: &Option<String>,
)
    ensures
        final(out)@ == old(out)@ + detail_block(
            prefix@,
            bp@,
            pref@,
            ty@,
            wwid@,
            tid@,
            match uuid {
                Some(u) => Some(u@),
                None => None,
            },
            match mp {
                Some(m) => Some(m@),
                None => None,
            },
        ),
{
    push_dline(out, prefix, "blk_path     : ", bp);
    push_dline(out, prefix, "preferred    : ", pref);
    push_dline(out, prefix, "blk_type     : ", ty);
    push_dline(out, prefix, "wwid         : ", wwid);
    push_dline(out, prefix, "transport_id : ", tid);
    match uuid {
        Some(u) => push_dline(out, prefix, "uuid         : ", u.as_str()),
        None => push_dline(out, prefix, "uuid         : ", ""),
    }
    match mp {
        Some(m) => push_dline(out, prefix, "mount_point  : ", m.as_str()),
        None => push_dline(out, prefix, "mount_point  : ", ""),
    }
    proof {
        reveal_strlit("");
        assert(final(out)@ =~= old(out)@ + detail_block(
            prefix@,
            bp@,
            pref@,
            ty@,
            wwid@,
            tid@,
            match uuid {
                Some(u) => Some(u@),
                None => None,
            },
            match mp {
                Some(m) => Some(m@),
                None => None,
            },
        ));
    }
}

/// Render a device description as plain text; see `to_stdout_spec`. The
/// name keeps the daemon CLI's vocabulary: the caller sends the text to
/// standard output.
pub fn to_stdout_blk_info(i: &BlkInfo, is_simple: bool, prefix: &str) -> (r: String)
    ensures
        r@ == to_stdout_spec(i@, is_simple, prefix@),
{
    let mut out = String::new();
    if is_simple {
        push_simple_line(
            &mut out,
            prefix,
            i.blk_path.as_str(),
            i.wwid.as_str(),
            &i.mount_point,
        );
    } else {
        push_detail_block(
            &mut out,
            prefix,
            i.blk_path.as_str(),
            i.preferred_blk_path.as_str(),
            i.blk_type.display_name(),
            i.wwid.as_str(),
            i.transport_id.as_str(),
            &i.uuid,
            &i.mount_point,
        );
    }
    let pn: usize = prefix.unicode_len();
    if pn == 0 && i.owners.len() > 0 {
        proof {
            assert(prefix@ =~= Seq::<char>::empty());
        }
        if !is_simple {
            out.append(prefix);
            out.append("owners       :\n");
        }
        let sub_prefix = crate::strutil::concat2(prefix, "  ");
        let ghost os = i@.owners;
        let ghost base = out@;
        let n: usize = i.owners.len();
        let mut k: usize = 0;
        proof {
            assert(os.take(0) =~= Seq::<OwnerV>::empty());
            assert(base + owners_text(os.take(0), is_simple, sub_prefix@) =~= base);
        }
        while k < n
            invariant
                0 <= k <= n,
                n == i.owners@.len(),
                os == i@.owners,
                sub_prefix@ == prefix@ + "  "@,
                out@ == base + owners_text(os.take(k as int), is_simple, sub_prefix@),
            decreases n - k,
        {
            proof {
                assert(os.take(k as int + 1).drop_last() =~= os.take(k as int));
                assert(os.take(k as int + 1).last() == os[k as int]);
                assert(os[k as int] == i.owners@[k as int]@);
            }
            if is_simple {
                push_simple_line(
                    &mut out,
                    sub_prefix.as_str(),
                    i.owners[k].blk_path.as_str(),
                    i.owners[k].wwid.as_str(),
                    &i.owners[k].mount_point,
                );
            } else {
                push_detail_block(
                    &mut out,
                    sub_prefix.as_str(),
                    i.owners[k].blk_path.as_str(),
                    i.owners[k].preferred_blk_path.as_str(),
                    i.owners[k].blk_type.display_name(),
                    i.owners[k].wwid.as_str(),
                    i.owners[k].transport_id.as_str(),
                    &i.owners[k].uuid,
                    &i.owners[k].mount_point,
                );
                out.append("\n");
            }
            k += 1;
            proof {
                assert(out@ =~= base + owners_text(os.take(k as int), is_simple, sub_prefix@));
            }
        }
        proof {
            assert(os.take(n as int) =~= os);
            assert(out@ =~= to_stdout_spec(i@, is_simple, prefix@));
        }
    } else {
        proof {
            if pn == 0 {
                assert(prefix@ =~= Seq::<char>::empty());
            }
            assert(out@ =~= to_stdout_spec(i@, is_simple, prefix@));
        }
    }
    out
}

} // verus!
