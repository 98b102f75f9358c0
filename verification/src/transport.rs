//! SAN transport coordinates of a SCSI disk: iSCSI session endpoint or FC
//! port names, read from `/sys/class/{iscsi_*,fc_*}`.

use vstd::prelude::*;

use crate::error::{BlkErrKind, PeripetyError, err_matches};
use crate::strutil::{
    basename, basename_of, concat2, concat3, find_idx, find_sub, find_prefix_entry,
    first_idx, first_with_prefix, index_of_sub, is_prefix, last_idx,
    lemma_first_with_prefix, pairs_view, rfind_idx, assoc_sq, assoc_get, substr,
};
use crate::sysfs::Sysfs;

verus! {

pub open spec fn is_iscsi_host_spec(fs: Sysfs, host_id: Seq<char>) -> bool {
    fs.spec_exists("/sys/class/iscsi_host/host"@ + host_id)
}

pub open spec fn is_fc_host_spec(fs: Sysfs, host_id: Seq<char>) -> bool {
    fs.spec_exists("/sys/class/fc_host/host"@ + host_id)
}

pub fn is_iscsi_host(fs: &Sysfs, host_id: &str) -> (r: bool)
    ensures
        r == is_iscsi_host_spec(*fs, host_id@),
{
    let p = concat2("/sys/class/iscsi_host/host", host_id);
    fs.path_exists(p.as_str())
}

pub fn is_fc_host(fs: &Sysfs, host_id: &str) -> (r: bool)
    ensures
        r == is_fc_host_spec(*fs, host_id@),
{
    let p = concat2("/sys/class/fc_host/host", host_id);
    fs.path_exists(p.as_str())
}

/// The SCSI host part of an `H:C:T:L` id: everything before the first `:`.
pub open spec fn scsi_host_id_spec(scsi_id: Seq<char>) -> Option<Seq<char>> {
    if first_idx(scsi_id, ':') == -1 {
        None
    } else {
        Some(scsi_id.subrange(0, first_idx(scsi_id, ':')))
    }
}

pub fn scsi_host_id_of_scsi_id(scsi_id: &str) -> (r: Option<String>)
    ensures
        match r {
            Some(h) => scsi_host_id_spec(scsi_id@) == Some(h@),
            None => scsi_host_id_spec(scsi_id@) is None,
        },
{
    match find_idx(scsi_id, ':') {
        Some(i) => Some(substr(scsi_id, 0, i)),
        None => None,
    }
}

/// The `H:C:T:L` id of a SCSI disk: the basename of the target of the
/// `/sys/block/<name>/device` symlink.
pub open spec fn scsi_id_of_disk_spec(fs: Sysfs, name: Seq<char>) -> Result<
    Seq<char>,
    BlkErrKind,
> {
    match fs.link_at("/sys/block/"@ + name + "/device"@) {
        None => Err(BlkErrKind::InternalBug),
        Some(t) => {
            if basename_of(t).len() == 0 {
                Err(BlkErrKind::InternalBug)
            } else {
                Ok(basename_of(t))
            }
        },
    }
}

pub fn scsi_id_of_disk(fs: &Sysfs, sd_name: &str) -> (r: Result<String, PeripetyError>)
    ensures
        match r {
            Ok(v) => scsi_id_of_disk_spec(*fs, sd_name@) == Ok::<_, BlkErrKind>(v@),
            Err(e) => scsi_id_of_disk_spec(*fs, sd_name@) matches Err(k) && err_matches(
                e,
                k,
            ),
        },
{
    let p = concat3("/sys/block/", sd_name, "/device");
    let t = fs.read_link(p.as_str())?;
    let b = basename(t.as_str());
    if b.as_str().unicode_len() == 0 {
        return Err(
            PeripetyError::InternalBug(
                concat2("Failed to query scsi_id of disk ", sd_name),
            ),
        );
    }
    Ok(b)
}

/// The path of the `/sys` device directory that an iSCSI host link points
/// into: the part from `devices/` up to `/iscsi_host/`, under `/sys/`.
pub open spec fn iscsi_dev_path(p: Seq<char>) -> Option<Seq<char>> {
    if index_of_sub(p, "devices/"@) == -1 || index_of_sub(p, "/iscsi_host/"@) == -1
        || index_of_sub(p, "devices/"@) >= index_of_sub(p, "/iscsi_host/"@) {
        None
    } else {
        Some(
            "/sys/"@ + p.subrange(
                index_of_sub(p, "devices/"@),
                index_of_sub(p, "/iscsi_host/"@),
            ),
        )
    }
}

/// The iSCSI session id serving a SCSI host: the digits after `session` in
/// the host's device directory.
pub open spec fn iscsi_session_id_spec(fs: Sysfs, host_id: Seq<char>) -> Result<
    Seq<char>,
    BlkErrKind,
> {
    match fs.link_at("/sys/class/iscsi_host/host"@ + host_id) {
        None => Err(BlkErrKind::InternalBug),
        Some(p) => match iscsi_dev_path(p) {
            None => Err(BlkErrKind::InternalBug),
            Some(dp) => match fs.dir_at(dp) {
                None => Err(BlkErrKind::InternalBug),
                Some(es) => match first_with_prefix(es, "session"@) {
                    Some(e) => Ok(e.skip(7)),
                    None => Err(BlkErrKind::InternalBug),
                },
            },
        },
    }
}

pub fn iscsi_session_id_of_host(fs: &Sysfs, host_id: &str) -> (r: Result<
    String,
    PeripetyError,
>)
    ensures
        match r {
            Ok(v) => iscsi_session_id_spec(*fs, host_id@) == Ok::<_, BlkErrKind>(v@),
            Err(e) => iscsi_session_id_spec(*fs, host_id@) matches Err(k) && err_matches(
                e,
                k,
            ),
        },
{
    let hp = concat2("/sys/class/iscsi_host/host", host_id);
    let p = fs.read_link(hp.as_str())?;
    let ps = p.as_str();
    let i = find_sub(ps, "devices/");
    let j = find_sub(ps, "/iscsi_host/");
    let (i, j) = match (i, j) {
        (Some(i), Some(j)) if i < j => (i, j),
        _ => {
            return Err(
                PeripetyError::InternalBug(
                    concat2("Failed to parse iscsi_host link ", ps),
                ),
            );
        },
    };
    let mid = substr(ps, i, j);
    let dp = concat2("/sys/", mid.as_str());
    let es = fs.read_dir(dp.as_str())?;
    match find_prefix_entry(es, "session") {
        Some(e) => {
            proof {
                assert(is_prefix("session"@, e@)) by {
                    lemma_first_with_prefix(es@.map_values(|x: String| x@), "session"@);
                }
                reveal_strlit("session");
            }
            let sid = substr(e.as_str(), 7, e.as_str().unicode_len());
            proof {
                assert(sid@ =~= e@.skip(7));
            }
            Ok(sid)
        },
        None => Err(
            PeripetyError::InternalBug(
                concat2("Failed to find session id of host ", host_id),
            ),
        ),
    }
}

/// The iSCSI endpoint of a host, as ordered key/value pairs.
pub open spec fn iscsi_info_spec(fs: Sysfs, host_id: Seq<char>) -> Result<
    Seq<(Seq<char>, Seq<char>)>,
    BlkErrKind,
> {
    match iscsi_session_id_spec(fs, host_id) {
        Err(k) => Err(k),
        Ok(sid) => {
            let sdir = "/sys/class/iscsi_session/session"@ + sid;
            let cdir = "/sys/class/iscsi_connection/connection"@ + sid + ":0"@;
            if !fs.spec_exists(sdir) {
                Err(BlkErrKind::InternalBug)
            } else if !fs.spec_exists(cdir) {
                Err(BlkErrKind::InternalBug)
            } else {
                match (fs.file_at(cdir + "/address"@), fs.file_at(cdir + "/port"@),
                fs.file_at(sdir + "/tpgt"@), fs.file_at(sdir + "/targetname"@),
                fs.file_at(sdir + "/ifacename"@)) {
                    (
                        Some(addr),
                        Some(port),
                        Some(tpgt),
                        Some(tname),
                        Some(iname),
                    ) => Ok(
                        seq![
                            ("address"@, addr),
                            ("port"@, port),
                            ("tpgt"@, tpgt),
                            ("target_name"@, tname),
                            ("iface_name"@, iname),
                        ],
                    ),
                    _ => Err(BlkErrKind::InternalBug),
                }
            }
        },
    }
}

pub fn get_iscsi_info(fs: &Sysfs, host_id: &str) -> (r: Result<
    Vec<(String, String)>,
    PeripetyError,
>)
    ensures
        match r {
            Ok(v) => iscsi_info_spec(*fs, host_id@) == Ok::<_, BlkErrKind>(pairs_view(v@)),
            Err(e) => iscsi_info_spec(*fs, host_id@) matches Err(k) && err_matches(e, k),
        },
{
    let sid = iscsi_session_id_of_host(fs, host_id)?;
    let sdir = concat2("/sys/class/iscsi_session/session", sid.as_str());
    let cdir = concat3("/sys/class/iscsi_connection/connection", sid.as_str(), ":0");
    if !fs.path_exists(sdir.as_str()) {
        return Err(
            PeripetyError::InternalBug(
                concat2("iSCSI Session dir does not exist: ", sdir.as_str()),
            ),
        );
    }
    if !fs.path_exists(cdir.as_str()) {
        return Err(
            PeripetyError::InternalBug(
                concat2("iSCSI connection dir does not exist: ", cdir.as_str()),
            ),
        );
    }
    let addr = fs.read(concat2(cdir.as_str(), "/address").as_str())?;
    let port = fs.read(concat2(cdir.as_str(), "/port").as_str())?;
    let tpgt = fs.read(concat2(sdir.as_str(), "/tpgt").as_str())?;
    let tname = fs.read(concat2(sdir.as_str(), "/targetname").as_str())?;
    let iname = fs.read(concat2(sdir.as_str(), "/ifacename").as_str())?;
    let mut out: Vec<(String, String)> = Vec::new();
    out.push(("address".to_owned(), addr));
    out.push(("port".to_owned(), port));
    out.push(("tpgt".to_owned(), tpgt));
    out.push(("target_name".to_owned(), tname));
    out.push(("iface_name".to_owned(), iname));
    proof {
        let spec_r = iscsi_info_spec(*fs, host_id@);
        assert(pairs_view(out@) =~= spec_r->Ok_0);
    }
    Ok(out)
}

/// The FC endpoint of a host/target pair, as ordered key/value pairs.
pub open spec fn fc_info_spec(fs: Sysfs, host_id: Seq<char>, scsi_id: Seq<char>) -> Result<
    Seq<(Seq<char>, Seq<char>)>,
    BlkErrKind,
> {
    if last_idx(scsi_id, ':') == -1 {
        Err(BlkErrKind::InternalBug)
    } else {
        let target_id = scsi_id.subrange(0, last_idx(scsi_id, ':'));
        let tdir = "/sys/class/fc_transport/target"@ + target_id;
        let hdir = "/sys/class/fc_host/host"@ + host_id;
        if !fs.spec_exists(hdir) {
            Err(BlkErrKind::InternalBug)
        } else if !fs.spec_exists(tdir) {
            Err(BlkErrKind::InternalBug)
        } else {
            match (fs.file_at(tdir + "/port_name"@), fs.file_at(hdir + "/port_name"@),
            fs.file_at(hdir + "/speed"@), fs.file_at(hdir + "/port_state"@)) {
                (Some(twwpn), Some(hwwpn), Some(speed), Some(pstate)) => Ok(
                    seq![
                        ("target_wwpn"@, twwpn),
                        ("host_wwpn"@, hwwpn),
                        ("speed"@, speed),
                        ("port_state"@, pstate),
                    ],
                ),
                _ => Err(BlkErrKind::InternalBug),
            }
        }
    }
}

pub fn get_fc_info(fs: &Sysfs, host_id: &str, scsi_id: &str) -> (r: Result<
    Vec<(String, String)>,
    PeripetyError,
>)
    ensures
        match r {
            Ok(v) => fc_info_spec(*fs, host_id@, scsi_id@) == Ok::<_, BlkErrKind>(
                pairs_view(v@),
            ),
            Err(e) => fc_info_spec(*fs, host_id@, scsi_id@) matches Err(k) && err_matches(
                e,
                k,
            ),
        },
{
    let li = match rfind_idx(scsi_id, ':') {
        Some(i) => i,
        None => {
            return Err(
                PeripetyError::InternalBug(concat2("Got invalid scsi_id ", scsi_id)),
            );
        },
    };
    let target_id = substr(scsi_id, 0, li);
    let tdir = concat2("/sys/class/fc_transport/target", target_id.as_str());
    let hdir = concat2("/sys/class/fc_host/host", host_id);
    if !fs.path_exists(hdir.as_str()) {
        return Err(
            PeripetyError::InternalBug(
                concat2("FC host dir does not exist: ", hdir.as_str()),
            ),
        );
    }
    if !fs.path_exists(tdir.as_str()) {
        return Err(
            PeripetyError::InternalBug(
                concat2("FC transport dir does not exist: ", tdir.as_str()),
            ),
        );
    }
    let twwpn = fs.read(concat2(tdir.as_str(), "/port_name").as_str())?;
    let hwwpn = fs.read(concat2(hdir.as_str(), "/port_name").as_str())?;
    let speed = fs.read(concat2(hdir.as_str(), "/speed").as_str())?;
    let pstate = fs.read(concat2(hdir.as_str(), "/port_state").as_str())?;
    let mut out: Vec<(String, String)> = Vec::new();
    out.push(("target_wwpn".to_owned(), twwpn));
    out.push(("host_wwpn".to_owned(), hwwpn));
    out.push(("speed".to_owned(), speed));
    out.push(("port_state".to_owned(), pstate));
    proof {
        let spec_r = fc_info_spec(*fs, host_id@, scsi_id@);
        assert(pairs_view(out@) =~= spec_r->Ok_0);
    }
    Ok(out)
}

/// Everything known of the transport of a SCSI disk: the driver name, the
/// transport kind, and its endpoint coordinates.
pub open spec fn transport_info_spec(fs: Sysfs, name: Seq<char>) -> Result<
    Seq<(Seq<char>, Seq<char>)>,
    BlkErrKind,
> {
    match scsi_id_of_disk_spec(fs, name) {
        Err(k) => Err(k),
        Ok(scsi_id) => match scsi_host_id_spec(scsi_id) {
            None => Err(BlkErrKind::InternalBug),
            Some(host_id) => match fs.file_at(
                "/sys/class/scsi_host/host"@ + host_id + "/proc_name"@,
            ) {
                None => Err(BlkErrKind::InternalBug),
                Some(driver) => {
                    let head = seq![("driver_name"@, driver)];
                    if is_iscsi_host_spec(fs, host_id) {
                        match iscsi_info_spec(fs, host_id) {
                            Err(k) => Err(k),
                            Ok(ps) => Ok(head + seq![("transport"@, "iSCSI"@)] + ps),
                        }
                    } else if is_fc_host_spec(fs, host_id) {
                        match fc_info_spec(fs, host_id, scsi_id) {
                            Err(k) => Err(k),
                            Ok(ps) => Ok(head + seq![("transport"@, "FC"@)] + ps),
                        }
                    } else {
                        Ok(head)
                    }
                },
            },
        },
    }
}

pub fn get_scsi_transport_info(fs: &Sysfs, sd_name: &str) -> (r: Result<
    Vec<(String, String)>,
    PeripetyError,
>)
    ensures
        match r {
            Ok(v) => transport_info_spec(*fs, sd_name@) == Ok::<_, BlkErrKind>(
                pairs_view(v@),
            ),
            Err(e) => transport_info_spec(*fs, sd_name@) matches Err(k) && err_matches(
                e,
                k,
            ),
        },
{
    let scsi_id = scsi_id_of_disk(fs, sd_name)?;
    let host_id = match scsi_host_id_of_scsi_id(scsi_id.as_str()) {
        Some(h) => h,
        None => {
            return Err(
                PeripetyError::InternalBug(
                    concat2("Failed to query scsi_host_id of disk ", sd_name),
                ),
            );
        },
    };
    let pp = concat3("/sys/class/scsi_host/host", host_id.as_str(), "/proc_name");
    let driver = fs.read(pp.as_str())?;
    let mut out: Vec<(String, String)> = Vec::new();
    out.push(("driver_name".to_owned(), driver));
    if is_iscsi_host(fs, host_id.as_str()) {
        out.push(("transport".to_owned(), "iSCSI".to_owned()));
        let ps = get_iscsi_info(fs, host_id.as_str())?;
        extend_pairs(&mut out, &ps);
        proof {
            let spec_r = transport_info_spec(*fs, sd_name@);
            assert(pairs_view(out@) =~= spec_r->Ok_0);
        }
        Ok(out)
    } else if is_fc_host(fs, host_id.as_str()) {
        out.push(("transport".to_owned(), "FC".to_owned()));
        let ps = get_fc_info(fs, host_id.as_str(), scsi_id.as_str())?;
        extend_pairs(&mut out, &ps);
        proof {
            let spec_r = transport_info_spec(*fs, sd_name@);
            assert(pairs_view(out@) =~= spec_r->Ok_0);
        }
        Ok(out)
    } else {
        proof {
            let spec_r = transport_info_spec(*fs, sd_name@);
            assert(pairs_view(out@) =~= spec_r->Ok_0);
        }
        Ok(out)
    }
}

/// Append copies of every pair of `ps` to `out`.
pub fn extend_pairs(out: &mut Vec<(String, String)>, ps: &Vec<(String, String)>)
    ensures
        pairs_view(final(out)@) == pairs_view(old(out)@) + pairs_view(ps@),
        final(out)@.len() == old(out)@.len() + ps@.len(),
{
    let n: usize = ps.len();
    let mut k: usize = 0;
    while k < n
        invariant
            0 <= k <= n,
            n == ps@.len(),
            out@.len() == old(out)@.len() + k,
            pairs_view(out@) =~= pairs_view(old(out)@) + pairs_view(ps@).take(k as int),
        decreases n - k,
    {
        let ghost prev = out@;
        let pk = ps[k].0.clone();
        let pv = ps[k].1.clone();
        proof {
            assert((pk@, pv@) == pairs_view(ps@)[k as int]);
        }
        out.push((pk, pv));
        k += 1;
        proof {
            assert(out@.drop_last() == prev);
            let ghost rhs = pairs_view(old(out)@) + pairs_view(ps@).take(k as int);
            assert(pairs_view(out@).len() == rhs.len());
            assert(pairs_view(out@).last() == rhs.last());
            assert forall|t: int| 0 <= t < rhs.len() - 1 implies pairs_view(out@)[t]
                == rhs[t] by {
                assert(out@[t] == prev[t]);
                assert(pairs_view(prev)[t] == rhs[t]);
            }
            assert(pairs_view(out@) =~= rhs);
        }
    }
    proof {
        assert(pairs_view(ps@).take(n as int) =~= pairs_view(ps@));
        assert(pairs_view(final(out)@) =~= pairs_view(old(out)@) + pairs_view(ps@));
    }
}

/// Value for `k` among `ps`, or the empty string.
pub open spec fn assoc_or_empty(ps: Seq<(Seq<char>, Seq<char>)>, k: Seq<char>) -> Seq<
    char,
> {
    match assoc_sq(ps, k) {
        Some(v) => v,
        None => Seq::empty(),
    }
}

/// The `transport_id` string condensed from the transport pairs: the iSCSI
/// endpoint as `address,port,tpgt,target,iface`, the FC endpoint as
/// `host_wwpn,target_wwpn`, empty otherwise.
pub open spec fn tid_of_pairs(ps: Seq<(Seq<char>, Seq<char>)>) -> Seq<char> {
    match assoc_sq(ps, "transport"@) {
        None => Seq::empty(),
        Some(t) => {
            if t == "iSCSI"@ {
                assoc_or_empty(ps, "address"@) + ","@ + assoc_or_empty(ps, "port"@)
                    + ","@ + assoc_or_empty(ps, "tpgt"@) + ","@ + assoc_or_empty(
                    ps,
                    "target_name"@,
                ) + ","@ + assoc_or_empty(ps, "iface_name"@)
            } else if t == "FC"@ {
                assoc_or_empty(ps, "host_wwpn"@) + ","@ + assoc_or_empty(
                    ps,
                    "target_wwpn"@,
                )
            } else {
                Seq::empty()
            }
        },
    }
}

fn get_or_empty(ps: &Vec<(String, String)>, k: &str) -> (r: String)
    ensures
        r@ == assoc_or_empty(pairs_view(ps@), k@),
{
    match assoc_get(ps, k) {
        Some(v) => v.clone(),
        None => String::new(),
    }
}

pub fn get_transport_id(fs: &Sysfs, sd_name: &str) -> (r: Result<String, PeripetyError>)
    ensures
        match r {
            Ok(v) => transport_info_spec(*fs, sd_name@) matches Ok(ps) && v@
                == tid_of_pairs(ps),
            Err(e) => transport_info_spec(*fs, sd_name@) matches Err(k) && err_matches(
                e,
                k,
            ),
        },
{
    let info = get_scsi_transport_info(fs, sd_name)?;
    match assoc_get(&info, "transport") {
        None => Ok(String::new()),
        Some(t) => {
            if crate::strutil::str_eq(t.as_str(), "iSCSI") {
                let mut s = get_or_empty(&info, "address");
                s.append(",");
                s.append(get_or_empty(&info, "port").as_str());
                s.append(",");
                s.append(get_or_empty(&info, "tpgt").as_str());
                s.append(",");
                s.append(get_or_empty(&info, "target_name").as_str());
                s.append(",");
                s.append(get_or_empty(&info, "iface_name").as_str());
                Ok(s)
            } else if crate::strutil::str_eq(t.as_str(), "FC") {
                let mut s = get_or_empty(&info, "host_wwpn");
                s.append(",");
                s.append(get_or_empty(&info, "target_wwpn").as_str());
                Ok(s)
            } else {
                Ok(String::new())
            }
        },
    }
}

} // verus!
