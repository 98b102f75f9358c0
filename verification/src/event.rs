//! Storage events: the enriched records the daemon emits, and the
//! structured fields each one contributes to the journal.

use vstd::prelude::*;

use crate::blk::{BlkInfo, BlkInfoV, BlkType, OwnerV};
use crate::error::PeripetyError;
use crate::strutil::{concat2, pairs_view, str_eq, to_upper_ascii, upper_seq, push_u64, u64_dec_str};

verus! {

/// Syslog severity, least value most severe.
#[derive(Clone, Copy, Debug, PartialEq, Eq, Structural)]
pub enum LogSeverity {
    Emergency,
    Alert,
    Ctritical,
    Error,
    Warning,
    Notice,
    Info,
    Debug,
    Unknown,
}

impl LogSeverity {
    pub open spec fn spec_u8(&self) -> u8 {
        match self {
            LogSeverity::Emergency => 0,
            LogSeverity::Alert => 1,
            LogSeverity::Ctritical => 2,
            LogSeverity::Error => 3,
            LogSeverity::Warning => 4,
            LogSeverity::Notice => 5,
            LogSeverity::Info => 6,
            LogSeverity::Debug => 7,
            LogSeverity::Unknown => 255,
        }
    }

    /// The syslog number of this severity.
    pub fn to_u8(&self) -> (r: u8)
        ensures
            r == self.spec_u8(),
    {
        match self {
            LogSeverity::Emergency => 0,
            LogSeverity::Alert => 1,
            LogSeverity::Ctritical => 2,
            LogSeverity::Error => 3,
            LogSeverity::Warning => 4,
            LogSeverity::Notice => 5,
            LogSeverity::Info => 6,
            LogSeverity::Debug => 7,
            LogSeverity::Unknown => 255,
        }
    }

    pub open spec fn spec_from_u8(v: u8) -> LogSeverity {
        if v == 0 {
            LogSeverity::Emergency
        } else if v == 1 {
            LogSeverity::Alert
        } else if v == 2 {
            LogSeverity::Ctritical
        } else if v == 3 {
            LogSeverity::Error
        } else if v == 4 {
            LogSeverity::Warning
        } else if v == 5 {
            LogSeverity::Notice
        } else if v == 6 {
            LogSeverity::Info
        } else if v == 7 {
            LogSeverity::Debug
        } else {
            LogSeverity::Unknown
        }
    }

    /// The severity of a syslog number.
    pub fn from_u8(v: u8) -> (r: LogSeverity)
        ensures
            r == LogSeverity::spec_from_u8(v),
    {
        if v == 0 {
            LogSeverity::Emergency
        } else if v == 1 {
            LogSeverity::Alert
        } else if v == 2 {
            LogSeverity::Ctritical
        } else if v == 3 {
            LogSeverity::Error
        } else if v == 4 {
            LogSeverity::Warning
        } else if v == 5 {
            LogSeverity::Notice
        } else if v == 6 {
            LogSeverity::Info
        } else if v == 7 {
            LogSeverity::Debug
        } else {
            LogSeverity::Unknown
        }
    }

    /// The severity a user-supplied string names, compared after ASCII
    /// upper-casing. A plain `Notice` is only reachable as `5`: the
    /// mixed-case arm can never equal an upper-cased string.
    pub open spec fn spec_from_str(s: Seq<char>) -> Option<LogSeverity> {
        let u = upper_seq(s);
        if u == "0"@ || u == "EMERGENCY"@ {
            Some(LogSeverity::Emergency)
        } else if u == "1"@ || u == "ALERT"@ {
            Some(LogSeverity::Alert)
        } else if u == "2"@ || u == "CRITICAL"@ {
            Some(LogSeverity::Ctritical)
        } else if u == "3"@ || u == "ERROR"@ {
            Some(LogSeverity::Error)
        } else if u == "4"@ || u == "WARNING"@ {
            Some(LogSeverity::Warning)
        } else if u == "5"@ || u == "Notice"@ {
            Some(LogSeverity::Notice)
        } else if u == "6"@ || u == "INFO"@ {
            Some(LogSeverity::Info)
        } else if u == "7"@ || u == "DEBUG"@ {
            Some(LogSeverity::Debug)
        } else {
            None
        }
    }

    /// Parse a severity; `LogSeverityParseError` exactly on strings that
    /// name none.
    pub fn from_str(s: &str) -> (r: Result<LogSeverity, PeripetyError>)
        ensures
            match r {
                Ok(v) => LogSeverity::spec_from_str(s@) == Some(v),
                Err(e) => LogSeverity::spec_from_str(s@) is None && e
                    is LogSeverityParseError,
            },
    {
        let u = to_upper_ascii(s);
        let us = u.as_str();
        if str_eq(us, "0") || str_eq(us, "EMERGENCY") {
            Ok(LogSeverity::Emergency)
        } else if str_eq(us, "1") || str_eq(us, "ALERT") {
            Ok(LogSeverity::Alert)
        } else if str_eq(us, "2") || str_eq(us, "CRITICAL") {
            Ok(LogSeverity::Ctritical)
        } else if str_eq(us, "3") || str_eq(us, "ERROR") {
            Ok(LogSeverity::Error)
        } else if str_eq(us, "4") || str_eq(us, "WARNING") {
            Ok(LogSeverity::Warning)
        } else if str_eq(us, "5") || str_eq(us, "Notice") {
            Ok(LogSeverity::Notice)
        } else if str_eq(us, "6") || str_eq(us, "INFO") {
            Ok(LogSeverity::Info)
        } else if str_eq(us, "7") || str_eq(us, "DEBUG") {
            Ok(LogSeverity::Debug)
        } else {
            Err(
                PeripetyError::LogSeverityParseError(
                    concat2("Invalid severity string ", s),
                ),
            )
        }
    }
}

/// The storage subsystem an event belongs to.
#[derive(Clone, Copy, Debug, PartialEq, Eq, Structural)]
pub enum StorageSubSystem {
    Unknown,
    Other,
    Scsi,
    DmDirtyLog,
    LvmThin,
    Multipath,
    FsExt4,
    FsJbd2,
    FsXfs,
    Nvme,
    Peripety,
}

impl StorageSubSystem {
    pub open spec fn spec_from_str(s: Seq<char>) -> Option<StorageSubSystem> {
        let u = upper_seq(s);
        if u == "SCSI"@ {
            Some(StorageSubSystem::Scsi)
        } else if u == "DM-DIRTYLOG"@ {
            Some(StorageSubSystem::DmDirtyLog)
        } else if u == "LVM-THINPROVISIONING"@ {
            Some(StorageSubSystem::LvmThin)
        } else if u == "MULTIPATH"@ {
            Some(StorageSubSystem::Multipath)
        } else if u == "EXT4"@ {
            Some(StorageSubSystem::FsExt4)
        } else if u == "XFS"@ {
            Some(StorageSubSystem::FsXfs)
        } else if u == "NVME"@ {
            Some(StorageSubSystem::Nvme)
        } else if u == "JBD2"@ {
            Some(StorageSubSystem::FsJbd2)
        } else if u == "PERIPETY"@ {
            Some(StorageSubSystem::Peripety)
        } else {
            None
        }
    }

    /// Parse a subsystem name, case-insensitively;
    /// `StorageSubSystemParseError` exactly on unknown names.
    pub fn from_str(s: &str) -> (r: Result<StorageSubSystem, PeripetyError>)
        ensures
            match r {
                Ok(v) => StorageSubSystem::spec_from_str(s@) == Some(v),
                Err(e) => StorageSubSystem::spec_from_str(s@) is None && e
                    is StorageSubSystemParseError,
            },
    {
        let u = to_upper_ascii(s);
        let us = u.as_str();
        if str_eq(us, "SCSI") {
            Ok(StorageSubSystem::Scsi)
        } else if str_eq(us, "DM-DIRTYLOG") {
            Ok(StorageSubSystem::DmDirtyLog)
        } else if str_eq(us, "LVM-THINPROVISIONING") {
            Ok(StorageSubSystem::LvmThin)
        } else if str_eq(us, "MULTIPATH") {
            Ok(StorageSubSystem::Multipath)
        } else if str_eq(us, "EXT4") {
            Ok(StorageSubSystem::FsExt4)
        } else if str_eq(us, "XFS") {
            Ok(StorageSubSystem::FsXfs)
        } else if str_eq(us, "NVME") {
            Ok(StorageSubSystem::Nvme)
        } else if str_eq(us, "JBD2") {
            Ok(StorageSubSystem::FsJbd2)
        } else if str_eq(us, "PERIPETY") {
            Ok(StorageSubSystem::Peripety)
        } else {
            Err(
                PeripetyError::StorageSubSystemParseError(
                    concat2("Invalid StorageSubSystem string ", s),
                ),
            )
        }
    }

    pub open spec fn spec_display_name(&self) -> Seq<char> {
        match self {
            StorageSubSystem::Unknown => "Unknown"@,
            StorageSubSystem::Other => "Other"@,
            StorageSubSystem::Scsi => "SCSI"@,
            StorageSubSystem::DmDirtyLog => "DM-DirtyLog"@,
            StorageSubSystem::LvmThin => "LVM-ThinProvisioning"@,
            StorageSubSystem::Multipath => "Multipath"@,
            StorageSubSystem::FsExt4 => "ext4"@,
            StorageSubSystem::FsJbd2 => "jbd2"@,
            StorageSubSystem::FsXfs => "xfs"@,
            StorageSubSystem::Nvme => "NVMe"@,
            StorageSubSystem::Peripety => "Peripety"@,
        }
    }

    /// The display name of the subsystem.
    pub fn display_name(&self) -> (r: &'static str)
        ensures
            r@ == self.spec_display_name(),
    {
        match self {
            StorageSubSystem::Unknown => "Unknown",
            StorageSubSystem::Other => "Other",
            StorageSubSystem::Scsi => "SCSI",
            StorageSubSystem::DmDirtyLog => "DM-DirtyLog",
            StorageSubSystem::LvmThin => "LVM-ThinProvisioning",
            StorageSubSystem::Multipath => "Multipath",
            StorageSubSystem::FsExt4 => "ext4",
            StorageSubSystem::FsJbd2 => "jbd2",
            StorageSubSystem::FsXfs => "xfs",
            StorageSubSystem::Nvme => "NVMe",
            StorageSubSystem::Peripety => "Peripety",
        }
    }
}

/// The enriched record of one kernel storage event.
pub struct StorageEvent {
    pub hostname: String,
    pub severity: LogSeverity,
    pub sub_system: StorageSubSystem,
    pub timestamp: String,
    pub event_id: String,
    pub event_type: String,
    pub blk_info: BlkInfo,
    pub kdev: String,
    pub msg: String,
    pub raw_msg: String,
    pub extension: Vec<(String, String)>,
}

#[verifier::ext_equal]
pub ghost struct StorageEventV {
    pub hostname: Seq<char>,
    pub severity: LogSeverity,
    pub sub_system: StorageSubSystem,
    pub timestamp: Seq<char>,
    pub event_id: Seq<char>,
    pub event_type: Seq<char>,
    pub blk_info: BlkInfoV,
    pub kdev: Seq<char>,
    pub msg: Seq<char>,
    pub raw_msg: Seq<char>,
    pub extension: Seq<(Seq<char>, Seq<char>)>,
}

impl View for StorageEvent {
    type V = StorageEventV;

    open spec fn view(&self) -> StorageEventV {
        StorageEventV {
            hostname: self.hostname@,
            severity: self.severity,
            sub_system: self.sub_system,
            timestamp: self.timestamp@,
            event_id: self.event_id@,
            event_type: self.event_type@,
            blk_info: self.blk_info@,
            kdev: self.kdev@,
            msg: self.msg@,
            raw_msg: self.raw_msg@,
            extension: pairs_view(self.extension@),
        }
    }
}

impl Default for BlkInfo {
    /// An unknown, empty block description.
    fn default() -> (r: BlkInfo)
        ensures
            r.wwid@ == Seq::<char>::empty(),
            r.blk_type == BlkType::Unknown,
            r.blk_path@ == Seq::<char>::empty(),
            r.preferred_blk_path@ == Seq::<char>::empty(),
            r.uuid is None,
            r.mount_point is None,
            r.transport_id@ == Seq::<char>::empty(),
            r.owners@.len() == 0,
    {
        BlkInfo {
            wwid: String::new(),
            blk_type: BlkType::Unknown,
            blk_path: String::new(),
            preferred_blk_path: String::new(),
            uuid: None,
            mount_point: None,
            transport_id: String::new(),
            owners: Vec::new(),
        }
    }
}

impl Default for StorageEvent {
    /// An empty event of unknown severity and subsystem.
    fn default() -> (r: StorageEvent)
        ensures
            r.hostname@ == Seq::<char>::empty(),
            r.severity == LogSeverity::Unknown,
            r.sub_system == StorageSubSystem::Unknown,
            r.timestamp@ == Seq::<char>::empty(),
            r.event_id@ == Seq::<char>::empty(),
            r.event_type@ == Seq::<char>::empty(),
            r.kdev@ == Seq::<char>::empty(),
            r.msg@ == Seq::<char>::empty(),
            r.raw_msg@ == Seq::<char>::empty(),
            r.extension@.len() == 0,
            r.blk_info.blk_type == BlkType::Unknown,
    {
        StorageEvent {
            hostname: String::new(),
            severity: LogSeverity::Unknown,
            sub_system: StorageSubSystem::Unknown,
            timestamp: String::new(),
            event_id: String::new(),
            event_type: String::new(),
            blk_info: Default::default(),
            kdev: String::new(),
            msg: String::new(),
            raw_msg: String::new(),
            extension: Vec::new(),
        }
    }
}

/// The `OWNERS_WWIDS`/`OWNERS_PATHS` pairs, one of each per owner.
pub open spec fn owner_fields(os: Seq<OwnerV>) -> Seq<(Seq<char>, Seq<char>)>
    decreases os.len(),
{
    if os.len() == 0 {
        Seq::empty()
    } else {
        owner_fields(os.drop_last()) + seq![
            ("OWNERS_WWIDS"@, os.last().wwid),
            ("OWNERS_PATHS"@, os.last().blk_path),
        ]
    }
}

/// One `EXT_<UPPERKEY>` field per extension pair.
pub open spec fn ext_fields(ext: Seq<(Seq<char>, Seq<char>)>) -> Seq<(Seq<char>, Seq<char>)>
    decreases ext.len(),
{
    if ext.len() == 0 {
        Seq::empty()
    } else {
        ext_fields(ext.drop_last()) + seq![
            ("EXT_"@ + upper_seq(ext.last().0), ext.last().1),
        ]
    }
}

/// The full journal field list of one event: identification, severity,
/// message, device and owner identifiers, extensions, and the serialized
/// event under `JSON`.
pub open spec fn journal_fields_spec(e: StorageEventV, json: Seq<char>) -> Seq<
    (Seq<char>, Seq<char>),
> {
    seq![("IS_PERIPETY"@, "TRUE"@), ("PRIORITY"@, u64_dec_str(e.severity.spec_u8() as u64))]
        + (if e.msg.len() > 0 {
        seq![("MESSAGE"@, e.msg)]
    } else {
        Seq::empty()
    }) + seq![("DEV_WWID"@, e.blk_info.wwid), ("DEV_PATH"@, e.blk_info.blk_path)]
        + owner_fields(e.blk_info.owners) + ext_fields(e.extension) + seq![
        ("EVENT_TYPE"@, e.event_type),
        ("EVENT_ID"@, e.event_id),
        ("SUB_SYSTEM"@, e.sub_system.spec_display_name()),
        ("JSON"@, json),
    ]
}

/// Build the journal fields of `event`, with `json` its serialized form.
pub fn event_journal_fields(event: &StorageEvent, json: &str) -> (r: Vec<(String, String)>)
    ensures
        pairs_view(r@) == journal_fields_spec(event@, json@),
{
    let mut out: Vec<(String, String)> = Vec::new();
    out.push(("IS_PERIPETY".to_owned(), "TRUE".to_owned()));
    let mut prio = String::new();
    push_u64(&mut prio, event.severity.to_u8() as u64);
    out.push(("PRIORITY".to_owned(), prio));
    if event.msg.as_str().unicode_len() > 0 {
        out.push(("MESSAGE".to_owned(), event.msg.clone()));
    }
    out.push(("DEV_WWID".to_owned(), event.blk_info.wwid.clone()));
    out.push(("DEV_PATH".to_owned(), event.blk_info.blk_path.clone()));
    let ghost head = pairs_view(out@);
    let n: usize = event.blk_info.owners.len();
    let mut i: usize = 0;
    proof {
        assert(owner_fields(event@.blk_info.owners.take(0)) =~= Seq::<
            (Seq<char>, Seq<char>),
        >::empty());
        assert(pairs_view(out@) =~= head + owner_fields(event@.blk_info.owners.take(0)));
    }
    while i < n
        invariant
            0 <= i <= n,
            n == event.blk_info.owners@.len(),
            head == pairs_view(out@).take(head.len() as int),
            pairs_view(out@) == head + owner_fields(event@.blk_info.owners.take(i as int)),
        decreases n - i,
    {
        let ghost pv = pairs_view(out@);
        let ghost os = event@.blk_info.owners;
        proof {
            assert(os.take(i as int + 1).drop_last() =~= os.take(i as int));
            assert(os.take(i as int + 1).last() == os[i as int]);
            assert(os[i as int] == event.blk_info.owners@[i as int]@);
        }
        let w = event.blk_info.owners[i].wwid.clone();
        let p = event.blk_info.owners[i].blk_path.clone();
        out.push(("OWNERS_WWIDS".to_owned(), w));
        out.push(("OWNERS_PATHS".to_owned(), p));
        i += 1;
        proof {
            assert forall|t: int| 0 <= t < out@.len() implies pairs_view(out@)[t] == (pv
                + seq![
                ("OWNERS_WWIDS"@, os[i - 1].wwid),
                ("OWNERS_PATHS"@, os[i - 1].blk_path),
            ])[t] by {
                if t < pv.len() {
                    assert(out@[t] == out@.subrange(0, out@.len() - 2)[t]);
                }
            }
            assert(pairs_view(out@) =~= head + owner_fields(os.take(i as int)));
        }
    }
    proof {
        assert(event@.blk_info.owners.take(n as int) =~= event@.blk_info.owners);
    }
    let ghost head2 = pairs_view(out@);
    let en: usize = event.extension.len();
    let mut j: usize = 0;
    proof {
        assert(ext_fields(event@.extension.take(0)) =~= Seq::<(Seq<char>, Seq<char>)>::empty());
        assert(pairs_view(out@) =~= head2 + ext_fields(event@.extension.take(0)));
    }
    while j < en
        invariant
            0 <= j <= en,
            en == event.extension@.len(),
            head2 == pairs_view(out@).take(head2.len() as int),
            pairs_view(out@) == head2 + ext_fields(event@.extension.take(j as int)),
        decreases en - j,
    {
        let ghost pv = pairs_view(out@);
        let ghost ex = event@.extension;
        proof {
            assert(ex.take(j as int + 1).drop_last() =~= ex.take(j as int));
            assert(ex.take(j as int + 1).last() == ex[j as int]);
            assert(ex[j as int] == (event.extension@[j as int].0@, event.extension@[
                j as int].1@));
        }
        let uk = to_upper_ascii(event.extension[j].0.as_str());
        let key = concat2("EXT_", uk.as_str());
        let val = event.extension[j].1.clone();
        out.push((key, val));
        j += 1;
        proof {
            assert forall|t: int| 0 <= t < out@.len() implies pairs_view(out@)[t] == (pv
                + seq![("EXT_"@ + upper_seq(ex[j - 1].0), ex[j - 1].1)])[t] by {
                if t < pv.len() {
                    assert(out@[t] == out@.subrange(0, out@.len() - 1)[t]);
                }
            }
            assert(pairs_view(out@) =~= head2 + ext_fields(ex.take(j as int)));
        }
    }
    proof {
        assert(event@.extension.take(en as int) =~= event@.extension);
    }
    let ghost before_tail = pairs_view(out@);
    out.push(("EVENT_TYPE".to_owned(), event.event_type.clone()));
    out.push(("EVENT_ID".to_owned(), event.event_id.clone()));
    out.push(("SUB_SYSTEM".to_owned(), event.sub_system.display_name().to_owned()));
    out.push(("JSON".to_owned(), json.to_owned()));
    proof {
        let goal = journal_fields_spec(event@, json@);
        assert forall|t: int| 0 <= t < out@.len() implies pairs_view(out@)[t]
            == goal[t] by {
            if t < before_tail.len() {
                assert(out@[t] == out@.subrange(0, out@.len() - 4)[t]);
                assert(pairs_view(out@)[t] == before_tail[t]);
            }
        }
        assert(pairs_view(out@) =~= goal);
    }
    out
}


/// The message of the startup topology dump for one device.
pub open spec fn dump_msg_spec(b: BlkInfoV) -> Seq<char> {
    match b.mount_point {
        Some(mp) => "Found block '"@ + b.blk_path + "' '"@ + b.wwid + "' mounted at '"@
            + mp + "'"@,
        None => "Found block '"@ + b.blk_path + "' '"@ + b.wwid + "'"@,
    }
}

/// The informational event that announces one block device at startup,
/// when the topology dump is switched on.
pub fn dump_blk_info_event(
    blk_info: BlkInfo,
    hostname: &str,
    timestamp: String,
    event_id: String,
) -> (r: StorageEvent)
    ensures
        r@.hostname == hostname@,
        r@.severity == LogSeverity::Info,
        r@.sub_system == StorageSubSystem::Peripety,
        r@.timestamp == timestamp@,
        r@.event_id == event_id@,
        r@.event_type == "PERIPETY_BLK_INFO"@,
        r@.msg == dump_msg_spec(blk_info@),
        r@.raw_msg == r@.msg,
        r@.blk_info == blk_info@,
        r@.kdev == Seq::<char>::empty(),
        r@.extension == Seq::<(Seq<char>, Seq<char>)>::empty(),
{
    let mut msg = String::new();
    msg.append("Found block '");
    msg.append(blk_info.blk_path.as_str());
    msg.append("' '");
    msg.append(blk_info.wwid.as_str());
    msg.append("'");
    match &blk_info.mount_point {
        Some(mp) => {
            let mut m2 = String::new();
            m2.append("Found block '");
            m2.append(blk_info.blk_path.as_str());
            m2.append("' '");
            m2.append(blk_info.wwid.as_str());
            m2.append("' mounted at '");
            m2.append(mp.as_str());
            m2.append("'");
            msg = m2;
        },
        None => {},
    }
    let raw_msg = msg.clone();
    let r = StorageEvent {
        hostname: hostname.to_owned(),
        severity: LogSeverity::Info,
        sub_system: StorageSubSystem::Peripety,
        timestamp,
        event_id,
        event_type: "PERIPETY_BLK_INFO".to_owned(),
        blk_info,
        kdev: String::new(),
        msg,
        raw_msg,
        extension: Vec::new(),
    };
    proof {
        assert(pairs_view(r.extension@) =~= Seq::<(Seq<char>, Seq<char>)>::empty());
        assert(r@.msg =~= dump_msg_spec(r.blk_info@));
    }
    r
}

} // verus!
