//! The regex classification catalog: ordered entries that turn a kernel
//! line into a raw storage event. The first matching entry wins.

use vstd::prelude::*;

use crate::blk::{BlkInfoV, BlkType};
use crate::error::PeripetyError;
use crate::event::{LogSeverity, StorageEvent, StorageEventV, StorageSubSystem};
use crate::kmsg::{Kmsg, KmsgV};
use crate::regexes::{regex_captures, regex_match, regex_new, regex_pattern};
use crate::strutil::{assoc_get, concat2, is_prefix, pairs_view, starts_with, str_eq, upper_seq};

verus! {

/// One catalog entry: an optional cheap prefix filter, the compiled regex,
/// and the classification it assigns.
pub struct RegexConf {
    pub starts_with: Option<String>,
    pub regex: regex::Regex,
    pub sub_system: StorageSubSystem,
    pub event_type: String,
}

/// A catalog entry as written down, before compilation.
pub struct RegexConfStr<'a> {
    pub starts_with: Option<&'a str>,
    pub regex: &'a str,
    pub sub_system: &'a str,
    pub event_type: &'a str,
}

impl<'a> RegexConfStr<'a> {
    /// Compile the entry. `ConfError` when the regex does not compile or
    /// the subsystem name is unknown.
    pub fn to_regex_conf(&self) -> (r: Result<RegexConf, PeripetyError>)
        ensures
            r is Ok <==> (crate::regexes::pattern_compiles(self.regex@)
                && StorageSubSystem::spec_from_str(self.sub_system@) is Some),
            match r {
                Ok(c) => {
                    &&& regex_pattern(c.regex) == self.regex@
                    &&& StorageSubSystem::spec_from_str(self.sub_system@) == Some(
                        c.sub_system,
                    )
                    &&& c.event_type@ == self.event_type@
                    &&& (match (c.starts_with, self.starts_with) {
                        (Some(a), Some(b)) => a@ == b@,
                        (None, None) => true,
                        _ => false,
                    })
                },
                Err(e) => e is ConfError,
            },
    {
        let regex = match regex_new(self.regex) {
            Ok(re) => re,
            Err(msg) => {
                return Err(
                    PeripetyError::ConfError(concat2("Invalid regex: ", msg.as_str())),
                );
            },
        };
        let sub_system = match StorageSubSystem::from_str(self.sub_system) {
            Ok(s) => s,
            Err(e) => {
                return Err(
                    PeripetyError::ConfError(
                        concat2("Invalid sub_system: ", e.msg().as_str()),
                    ),
                );
            },
        };
        let starts_with_owned = match self.starts_with {
            Some(p) => Some(p.to_owned()),
            None => None,
        };
        Ok(
            RegexConf {
                starts_with: starts_with_owned,
                regex,
                sub_system,
                event_type: self.event_type.to_owned(),
            },
        )
    }
}

/// Whether one catalog entry accepts a message: its prefix filter, when it
/// has one, is a prefix of the message, and its regex matches.
pub open spec fn entry_matches(c: RegexConf, msg: Seq<char>) -> bool {
    (match c.starts_with {
        Some(p) => is_prefix(p@, msg),
        None => true,
    }) && regex_match(regex_pattern(c.regex), msg)
}

/// The index of the first accepting entry, or `-1`.
pub open spec fn first_match_idx(catalog: Seq<RegexConf>, msg: Seq<char>) -> int
    decreases catalog.len(),
{
    if catalog.len() == 0 {
        -1
    } else if entry_matches(catalog[0], msg) {
        0
    } else if first_match_idx(catalog.skip(1), msg) == -1 {
        -1
    } else {
        first_match_idx(catalog.skip(1), msg) + 1
    }
}

pub proof fn lemma_first_match_idx(catalog: Seq<RegexConf>, msg: Seq<char>)
    ensures
        first_match_idx(catalog, msg) == -1 ==> forall|j: int|
            0 <= j < catalog.len() ==> !entry_matches(#[trigger] catalog[j], msg),
        first_match_idx(catalog, msg) != -1 ==> 0 <= first_match_idx(catalog, msg)
            < catalog.len() && entry_matches(catalog[first_match_idx(catalog, msg)], msg)
            && forall|j: int|
            0 <= j < first_match_idx(catalog, msg) ==> !entry_matches(
                #[trigger] catalog[j],
                msg,
            ),
    decreases catalog.len(),
{
    if catalog.len() > 0 && !entry_matches(catalog[0], msg) {
        lemma_first_match_idx(catalog.skip(1), msg);
        let fi = first_match_idx(catalog.skip(1), msg);
        assert forall|j: int| 1 <= j < catalog.len() && (fi == -1 || j < fi + 1) implies
            !entry_matches(catalog[j], msg) by {
            assert(catalog.skip(1)[j - 1] == catalog[j]);
        }
        if fi != -1 {
            assert(catalog.skip(1)[fi] == catalog[fi + 1]);
        }
    }
}

/// Regex first-match: when two catalog entries both accept a line, the
/// classification comes from the earlier one — the chosen index is never
/// past any accepting entry.
pub proof fn first_match_is_earliest(catalog: Seq<RegexConf>, msg: Seq<char>, i: int)
    requires
        0 <= i < catalog.len(),
        entry_matches(catalog[i], msg),
    ensures
        0 <= first_match_idx(catalog, msg) <= i,
{
    lemma_first_match_idx(catalog, msg);
    let fi = first_match_idx(catalog, msg);
    if fi == -1 || fi > i {
        assert(!entry_matches(catalog[i], msg));
    }
}

/// The extension pairs: every named capture except `kdev`.
pub open spec fn ext_of_caps(caps: Seq<(Seq<char>, Seq<char>)>) -> Seq<
    (Seq<char>, Seq<char>),
>
    decreases caps.len(),
{
    if caps.len() == 0 {
        Seq::empty()
    } else {
        let rest = ext_of_caps(caps.drop_last());
        if caps.last().0 == "kdev"@ {
            rest
        } else {
            rest.push(caps.last())
        }
    }
}

pub open spec fn empty_blk_v() -> BlkInfoV {
    BlkInfoV {
        wwid: Seq::empty(),
        blk_type: BlkType::Unknown,
        blk_path: Seq::empty(),
        preferred_blk_path: Seq::empty(),
        uuid: None,
        mount_point: None,
        transport_id: Seq::empty(),
        owners: Seq::empty(),
    }
}

/// The raw event a frame classifies to: the first accepting entry names
/// the subsystem and event type; the `kdev` capture is kept apart and the
/// remaining captures form the extension.
pub open spec fn raw_event_spec(
    catalog: Seq<RegexConf>,
    k: KmsgV,
    hostname: Seq<char>,
    timestamp: Seq<char>,
    event_id: Seq<char>,
) -> Option<StorageEventV> {
    let i = first_match_idx(catalog, k.msg);
    if i == -1 {
        None
    } else {
        let c = catalog[i];
        let caps = crate::regexes::regex_caps(regex_pattern(c.regex), k.msg);
        Some(
            StorageEventV {
                hostname: hostname,
                severity: LogSeverity::spec_from_u8(k.severity),
                sub_system: c.sub_system,
                timestamp: timestamp,
                event_id: event_id,
                event_type: c.event_type@,
                blk_info: empty_blk_v(),
                kdev: crate::transport::assoc_or_empty(caps, "kdev"@),
                msg: Seq::empty(),
                raw_msg: k.msg,
                extension: ext_of_caps(caps),
            },
        )
    }
}

fn ext_of_caps_exec(caps: &Vec<(String, String)>) -> (r: Vec<(String, String)>)
    ensures
        pairs_view(r@) == ext_of_caps(pairs_view(caps@)),
{
    let ghost cv = pairs_view(caps@);
    let n: usize = caps.len();
    let mut out: Vec<(String, String)> = Vec::new();
    let mut i: usize = 0;
    proof {
        assert(cv.take(0) =~= Seq::<(Seq<char>, Seq<char>)>::empty());
        assert(pairs_view(out@) =~= ext_of_caps(cv.take(0)));
    }
    while i < n
        invariant
            0 <= i <= n,
            n == caps@.len(),
            cv == pairs_view(caps@),
            pairs_view(out@) == ext_of_caps(cv.take(i as int)),
        decreases n - i,
    {
        proof {
            assert(cv.take(i as int + 1).drop_last() =~= cv.take(i as int));
            assert(cv.take(i as int + 1).last() == cv[i as int]);
        }
        let ghost ov = pairs_view(out@);
        if !str_eq(caps[i].0.as_str(), "kdev") {
            let k = caps[i].0.clone();
            let v = caps[i].1.clone();
            out.push((k, v));
            proof {
                assert forall|t: int| 0 <= t < out@.len() implies pairs_view(out@)[t]
                    == ov.push(cv[i as int])[t] by {
                    if t < ov.len() {
                        assert(out@[t] == out@.subrange(0, out@.len() - 1)[t]);
                    }
                }
                assert(pairs_view(out@) =~= ov.push(cv[i as int]));
            }
        }
        i += 1;
    }
    proof {
        assert(cv.take(n as int) =~= cv);
    }
    out
}

/// Classify one parsed frame against the catalog; see `raw_event_spec`.
pub fn kmsg_to_storage_event(
    catalog: &Vec<RegexConf>,
    k: &Kmsg,
    hostname: &str,
    timestamp: String,
    event_id: String,
) -> (r: Option<StorageEvent>)
    ensures
        match r {
            Some(e) => raw_event_spec(catalog@, k@, hostname@, timestamp@, event_id@)
                == Some(e@),
            None => raw_event_spec(catalog@, k@, hostname@, timestamp@, event_id@)
                is None,
        },
{
    let n: usize = catalog.len();
    let mut i: usize = 0;
    while i < n
        invariant
            0 <= i <= n,
            n == catalog@.len(),
            forall|j: int| 0 <= j < i ==> !entry_matches(#[trigger] catalog@[j], k@.msg),
        decreases n - i,
    {
        let prefix_ok = match &catalog[i].starts_with {
            Some(p) => starts_with(k.msg.as_str(), p.as_str()),
            None => true,
        };
        if prefix_ok {
            if let Some(caps) = regex_captures(&catalog[i].regex, k.msg.as_str()) {
                proof {
                    assert(entry_matches(catalog@[i as int], k@.msg));
                    lemma_first_match_idx(catalog@, k@.msg);
                    let fi = first_match_idx(catalog@, k@.msg);
                    assert(fi == i as int) by {
                        if fi == -1 || fi > i as int {
                            assert(!entry_matches(catalog@[i as int], k@.msg));
                        }
                    }
                }
                let kdev = match assoc_get(&caps, "kdev") {
                    Some(v) => v.clone(),
                    None => String::new(),
                };
                let extension = ext_of_caps_exec(&caps);
                let e = StorageEvent {
                    hostname: hostname.to_owned(),
                    severity: LogSeverity::from_u8(k.severity),
                    sub_system: catalog[i].sub_system,
                    timestamp,
                    event_id,
                    event_type: catalog[i].event_type.clone(),
                    blk_info: Default::default(),
                    kdev,
                    msg: String::new(),
                    raw_msg: k.msg.clone(),
                    extension,
                };
                proof {
                    assert(crate::blk::owners_view(e.blk_info.owners@) =~= Seq::<
                        crate::blk::OwnerV,
                    >::empty());
                    assert(e@.blk_info =~= empty_blk_v());
                    assert(e@ =~= raw_event_spec(
                        catalog@,
                        k@,
                        hostname@,
                        timestamp@,
                        event_id@,
                    )->Some_0);
                }
                return Some(e);
            }
        }
        i += 1;
    }
    proof {
        lemma_first_match_idx(catalog@, k@.msg);
        let fi = first_match_idx(catalog@, k@.msg);
        if fi != -1 {
            assert(!entry_matches(catalog@[fi], k@.msg));
        }
    }
    None
}

/// The built-in catalog as written down: for each entry its prefix
/// filter, pattern, subsystem name and event type, in priority order.
pub open spec fn builtin_strs_spec() -> Seq<(Option<Seq<char>>, Seq<char>, Seq<char>, Seq<char>)> {
    seq![
        (Some("device-mapper: multipath:"@), r"(?x)
                ^device-mapper:\s
                multipath:\ Failing\ path\s
                (?P<kdev>\d+:\d+).$
                "@, "multipath"@, "DM_MPATH_PATH_FAILED"@),
        (Some("device-mapper: multipath:"@), r"(?x)
                ^device-mapper:\s
                multipath:\ Reinstating\ path\s
                (?P<kdev>\d+:\d+).$
                "@, "multipath"@, "DM_MPATH_PATH_REINSTATED"@),
        (Some("device-mapper: dirty region log:"@), r"(?x)
                ^device-mapper:\s
                dirty\ region\ log:\s
                (?P<kdev>\d+:\d+):\ Failed\ to\ read\ header\ on\ dirty\s
                region\ log\ device$
                "@, "DM-DirtyLog"@, "DM_DIRTY_LOG_READ_FAILED"@),
        (Some("device-mapper: dirty region log:"@), r"(?x)
                ^device-mapper:\s
                dirty\ region\ log:\s
                (?P<kdev>\d+:\d+):\ Failed\ to\ write\ header\ on\ dirty\s
                region\ log\ device$
                "@, "DM-DirtyLog"@, "DM_DIRTY_LOG_WRITE_FAILED"@),
        (Some("sd "@), r"(?x)
                ^sd\ \d+:\d+:\d+:\d+:\s
                \[(?P<kdev>sd[a-z]+)\]\s
                Unaligned\ partial\ completion\s
                \(resid=(?P<resid>\d+),\ sector_sz=(?P<sector_sz>\d+)\)$
                "@, "SCSI"@, "SCSI_UNALIGNED_PARTIAL_COMPLETION"@),
        (Some("sd "@), r"(?x)
                ^sd\ \d+:\d+:\d+:\d+:\s
                \[(?P<kdev>sd[a-z]+)\]\s
                Spinning\ up\ disk...$
                "@, "SCSI"@, "SCSI_SPINNING_UP_DISK"@),
        (Some("sd "@), r"(?x)
                ^sd\ \d+:\d+:\d+:\d+:\s
                \[(?P<kdev>sd[a-z]+)\]\s
                tag\#\d+\ Sense\ Key\ :\ (?P<sense_key>[^\[\]]+)\s
                \[(?P<is_deferred>(?:deferred)|(?:current))\]
                "@, "SCSI"@, "SCSI_SENSE_KEY"@),
        (Some("sd "@), r"(?x)
                ^sd\ \d+:\d+:\d+:\d+:\s
                \[(?P<kdev>sd[a-z]+)\]\s
                tag\#\d+\ Add\.\ Sense:\ (?P<asc>.+)$
                "@, "SCSI"@, "SCSI_ADDITIONAL_SENSE_CODE"@),
        (Some("sd "@), r"(?x)
                ^sd\ \d+:\d+:\d+:\d+:\s
                \[(?P<kdev>sd[a-z]+)\]\s
                Medium\ access\ timeout\ failure\.\ Offlining\ disk!$
                "@, "SCSI"@, "SCSI_MEDIUM_ACCESS_TIMEOUT_OFFLINEING_DISK"@),
        (Some("EXT4-fs "@), r"(?x)
                ^EXT4-fs\s
                \((?P<kdev>[^\s\)]+)\):\s
                mounted\ filesystem\ with(?P<data_mode>.+).\s
                Opts:\ (?P<opts>.+)$
                "@, "ext4"@, "FS_MOUNTED"@),
        (Some("EXT4-fs "@), r"(?x)
                ^EXT4-fs\s
                \((?P<kdev>[^\s\)]+)\):\s
                Remounting\ filesystem\ read-only$
                "@, "ext4"@, "FS_REMOUNT_READ_ONLY"@),
        (Some("EXT4-fs (device "@), r"(?x)
                ^EXT4-fs\s
                \(device\ (?P<kdev>[^\s\)]+)\):\s
                panic forced after error
                "@, "ext4"@, "FS_PANIC"@),
        (Some("EXT4-fs error (device "@), r"(?x)
                ^EXT4-fs\ error\s
                \(device\ (?P<kdev>[^\s\)]+)\):\s
                "@, "ext4"@, "FS_ERROR"@),
        (Some("XFS "@), r"(?x)
                ^XFS \s
                \((?P<kdev>[^\s\)]+)\):\s
                Ending\ clean\ mount"@, "xfs"@, "FS_MOUNTED"@),
        (Some("XFS "@), r"(?x)
                ^XFS\s
                \((?P<kdev>[^\s\)]+)\):\s
                Unmounting\ Filesystem$"@, "xfs"@, "FS_UNMOUNTED"@),
        (Some("XFS "@), r"(?x)
                ^XFS \s
                \((?P<kdev>[^\s\)]+)\):\s
                writeback\ error\ on\ sector"@, "xfs"@, "FS_IO_ERROR"@),
        (Some("EXT4-fs "@), r"(?x)
                ^EXT4-fs\s
                warning\ \(device\s
                (?P<kdev>[^\s\)]+)\):\s
                ext4_end_bio:[0-9]+:\ I/O\ error
                "@, "ext4"@, "FS_IO_ERROR"@),
        (Some("JBD2: "@), r"(?x)
                ^JBD2:\s
                Detected\ IO\ errors\ while\ flushing\ file\ data\ on\s
                (?P<kdev>[^\s]+)-[0-9]+$
                "@, "jbd2"@, "FS_IO_ERROR"@),
    ]
}

/// The views of one written-down entry.
pub open spec fn str_entry_view<'a>(c: RegexConfStr<'a>) -> (
    Option<Seq<char>>,
    Seq<char>,
    Seq<char>,
    Seq<char>,
) {
    (
        (match c.starts_with {
            Some(p) => Some(p@),
            None => None,
        }),
        c.regex@,
        c.sub_system@,
        c.event_type@,
    )
}

/// Whether one compiled entry carries exactly the written-down entry.
pub open spec fn conf_matches_entry(
    c: RegexConf,
    e: (Option<Seq<char>>, Seq<char>, Seq<char>, Seq<char>),
) -> bool {
    &&& (match c.starts_with {
        Some(p) => e.0 == Some(p@),
        None => e.0 is None,
    })
    &&& regex_pattern(c.regex) == e.1
    &&& StorageSubSystem::spec_from_str(e.2) == Some(c.sub_system)
    &&& c.event_type@ == e.3
}

/// The built-in catalog entries, in priority order; exactly the entries
/// of `builtin_strs_spec`.
#[verifier::rlimit(100)]
pub fn build_in_regex_conf_strs() -> (r: Vec<RegexConfStr<'static>>)
    ensures
        r@.len() == builtin_strs_spec().len(),
        forall|i: int|
            0 <= i < r@.len() ==> str_entry_view(#[trigger] r@[i]) == builtin_strs_spec()[i],
{
    let mut v: Vec<RegexConfStr<'static>> = Vec::new();
    v.push(
        RegexConfStr {
            starts_with: Some("device-mapper: multipath:"),
            regex: r"(?x)
                ^device-mapper:\s
                multipath:\ Failing\ path\s
                (?P<kdev>\d+:\d+).$
                ",
            sub_system: "multipath",
            event_type: "DM_MPATH_PATH_FAILED",
        },
    );
    v.push(
        RegexConfStr {
            starts_with: Some("device-mapper: multipath:"),
            regex: r"(?x)
                ^device-mapper:\s
                multipath:\ Reinstating\ path\s
                (?P<kdev>\d+:\d+).$
                ",
            sub_system: "multipath",
            event_type: "DM_MPATH_PATH_REINSTATED",
        },
    );
    v.push(
        RegexConfStr {
            starts_with: Some("device-mapper: dirty region log:"),
            regex: r"(?x)
                ^device-mapper:\s
                dirty\ region\ log:\s
                (?P<kdev>\d+:\d+):\ Failed\ to\ read\ header\ on\ dirty\s
                region\ log\ device$
                ",
            sub_system: "DM-DirtyLog",
            event_type: "DM_DIRTY_LOG_READ_FAILED",
        },
    );
    v.push(
        RegexConfStr {
            starts_with: Some("device-mapper: dirty region log:"),
            regex: r"(?x)
                ^device-mapper:\s
                dirty\ region\ log:\s
                (?P<kdev>\d+:\d+):\ Failed\ to\ write\ header\ on\ dirty\s
                region\ log\ device$
                ",
            sub_system: "DM-DirtyLog",
            event_type: "DM_DIRTY_LOG_WRITE_FAILED",
        },
    );
    v.push(
        RegexConfStr {
            starts_with: Some("sd "),
            regex: r"(?x)
                ^sd\ \d+:\d+:\d+:\d+:\s
                \[(?P<kdev>sd[a-z]+)\]\s
                Unaligned\ partial\ completion\s
                \(resid=(?P<resid>\d+),\ sector_sz=(?P<sector_sz>\d+)\)$
                ",
            sub_system: "SCSI",
            event_type: "SCSI_UNALIGNED_PARTIAL_COMPLETION",
        },
    );
    v.push(
        RegexConfStr {
            starts_with: Some("sd "),
            regex: r"(?x)
                ^sd\ \d+:\d+:\d+:\d+:\s
                \[(?P<kdev>sd[a-z]+)\]\s
                Spinning\ up\ disk...$
                ",
            sub_system: "SCSI",
            event_type: "SCSI_SPINNING_UP_DISK",
        },
    );
    v.push(
        RegexConfStr {
            starts_with: Some("sd "),
            regex: r"(?x)
                ^sd\ \d+:\d+:\d+:\d+:\s
                \[(?P<kdev>sd[a-z]+)\]\s
                tag\#\d+\ Sense\ Key\ :\ (?P<sense_key>[^\[\]]+)\s
                \[(?P<is_deferred>(?:deferred)|(?:current))\]
                ",
            sub_system: "SCSI",
            event_type: "SCSI_SENSE_KEY",
        },
    );
    v.push(
        RegexConfStr {
            starts_with: Some("sd "),
            regex: r"(?x)
                ^sd\ \d+:\d+:\d+:\d+:\s
                \[(?P<kdev>sd[a-z]+)\]\s
                tag\#\d+\ Add\.\ Sense:\ (?P<asc>.+)$
                ",
            sub_system: "SCSI",
            event_type: "SCSI_ADDITIONAL_SENSE_CODE",
        },
    );
    v.push(
        RegexConfStr {
            starts_with: Some("sd "),
            regex: r"(?x)
                ^sd\ \d+:\d+:\d+:\d+:\s
                \[(?P<kdev>sd[a-z]+)\]\s
                Medium\ access\ timeout\ failure\.\ Offlining\ disk!$
                ",
            sub_system: "SCSI",
            event_type: "SCSI_MEDIUM_ACCESS_TIMEOUT_OFFLINEING_DISK",
        },
    );
    v.push(
        RegexConfStr {
            starts_with: Some("EXT4-fs "),
            regex: r"(?x)
                ^EXT4-fs\s
                \((?P<kdev>[^\s\)]+)\):\s
                mounted\ filesystem\ with(?P<data_mode>.+).\s
                Opts:\ (?P<opts>.+)$
                ",
            sub_system: "ext4",
            event_type: "FS_MOUNTED",
        },
    );
    v.push(
        RegexConfStr {
            starts_with: Some("EXT4-fs "),
            regex: r"(?x)
                ^EXT4-fs\s
                \((?P<kdev>[^\s\)]+)\):\s
                Remounting\ filesystem\ read-only$
                ",
            sub_system: "ext4",
            event_type: "FS_REMOUNT_READ_ONLY",
        },
    );
    v.push(
        RegexConfStr {
            starts_with: Some("EXT4-fs (device "),
            regex: r"(?x)
                ^EXT4-fs\s
                \(device\ (?P<kdev>[^\s\)]+)\):\s
                panic forced after error
                ",
            sub_system: "ext4",
            event_type: "FS_PANIC",
        },
    );
    v.push(
        RegexConfStr {
            starts_with: Some("EXT4-fs error (device "),
            regex: r"(?x)
                ^EXT4-fs\ error\s
                \(device\ (?P<kdev>[^\s\)]+)\):\s
                ",
            sub_system: "ext4",
            event_type: "FS_ERROR",
        },
    );
    v.push(
        RegexConfStr {
            starts_with: Some("XFS "),
            regex: r"(?x)
                ^XFS \s
                \((?P<kdev>[^\s\)]+)\):\s
                Ending\ clean\ mount",
            sub_system: "xfs",
            event_type: "FS_MOUNTED",
        },
    );
    v.push(
        RegexConfStr {
            starts_with: Some("XFS "),
            regex: r"(?x)
                ^XFS\s
                \((?P<kdev>[^\s\)]+)\):\s
                Unmounting\ Filesystem$",
            sub_system: "xfs",
            event_type: "FS_UNMOUNTED",
        },
    );
    v.push(
        RegexConfStr {
            starts_with: Some("XFS "),
            regex: r"(?x)
                ^XFS \s
                \((?P<kdev>[^\s\)]+)\):\s
                writeback\ error\ on\ sector",
            sub_system: "xfs",
            event_type: "FS_IO_ERROR",
        },
    );
    v.push(
        RegexConfStr {
            starts_with: Some("EXT4-fs "),
            regex: r"(?x)
                ^EXT4-fs\s
                warning\ \(device\s
                (?P<kdev>[^\s\)]+)\):\s
                ext4_end_bio:[0-9]+:\ I/O\ error
                ",
            sub_system: "ext4",
            event_type: "FS_IO_ERROR",
        },
    );
    v.push(
        RegexConfStr {
            starts_with: Some("JBD2: "),
            regex: r"(?x)
                ^JBD2:\s
                Detected\ IO\ errors\ while\ flushing\ file\ data\ on\s
                (?P<kdev>[^\s]+)-[0-9]+$
                ",
            sub_system: "jbd2",
            event_type: "FS_IO_ERROR",
        },
    );
    proof {
        assert forall|i: int|
            0 <= i < v@.len() implies str_entry_view(#[trigger] v@[i])
            == builtin_strs_spec()[i] by {
                if i == 0 {
                    assert(str_entry_view(v@[0]) == builtin_strs_spec()[0]);
                } else if i == 1 {
                    assert(str_entry_view(v@[1]) == builtin_strs_spec()[1]);
                } else if i == 2 {
                    assert(str_entry_view(v@[2]) == builtin_strs_spec()[2]);
                } else if i == 3 {
                    assert(str_entry_view(v@[3]) == builtin_strs_spec()[3]);
                } else if i == 4 {
                    assert(str_entry_view(v@[4]) == builtin_strs_spec()[4]);
                } else if i == 5 {
                    assert(str_entry_view(v@[5]) == builtin_strs_spec()[5]);
                } else if i == 6 {
                    assert(str_entry_view(v@[6]) == builtin_strs_spec()[6]);
                } else if i == 7 {
                    assert(str_entry_view(v@[7]) == builtin_strs_spec()[7]);
                } else if i == 8 {
                    assert(str_entry_view(v@[8]) == builtin_strs_spec()[8]);
                } else if i == 9 {
                    assert(str_entry_view(v@[9]) == builtin_strs_spec()[9]);
                } else if i == 10 {
                    assert(str_entry_view(v@[10]) == builtin_strs_spec()[10]);
                } else if i == 11 {
                    assert(str_entry_view(v@[11]) == builtin_strs_spec()[11]);
                } else if i == 12 {
                    assert(str_entry_view(v@[12]) == builtin_strs_spec()[12]);
                } else if i == 13 {
                    assert(str_entry_view(v@[13]) == builtin_strs_spec()[13]);
                } else if i == 14 {
                    assert(str_entry_view(v@[14]) == builtin_strs_spec()[14]);
                } else if i == 15 {
                    assert(str_entry_view(v@[15]) == builtin_strs_spec()[15]);
                } else if i == 16 {
                    assert(str_entry_view(v@[16]) == builtin_strs_spec()[16]);
                } else if i == 17 {
                    assert(str_entry_view(v@[17]) == builtin_strs_spec()[17]);
                }
        }
    }
    v
}

/// Every subsystem name the built-in catalog uses parses.
proof fn lemma_builtin_subsystems_parse()
    ensures
        StorageSubSystem::spec_from_str("multipath"@) == Some(StorageSubSystem::Multipath),
        StorageSubSystem::spec_from_str("DM-DirtyLog"@) == Some(
            StorageSubSystem::DmDirtyLog,
        ),
        StorageSubSystem::spec_from_str("SCSI"@) == Some(StorageSubSystem::Scsi),
        StorageSubSystem::spec_from_str("ext4"@) == Some(StorageSubSystem::FsExt4),
        StorageSubSystem::spec_from_str("xfs"@) == Some(StorageSubSystem::FsXfs),
        StorageSubSystem::spec_from_str("jbd2"@) == Some(StorageSubSystem::FsJbd2),
{
    reveal_strlit("DM-DIRTYLOG");
    reveal_strlit("DM-DirtyLog");
    reveal_strlit("EXT4");
    reveal_strlit("JBD2");
    reveal_strlit("LVM-THINPROVISIONING");
    reveal_strlit("MULTIPATH");
    reveal_strlit("NVME");
    reveal_strlit("PERIPETY");
    reveal_strlit("SCSI");
    reveal_strlit("XFS");
    reveal_strlit("ext4");
    reveal_strlit("jbd2");
    reveal_strlit("multipath");
    reveal_strlit("xfs");
    assert(upper_seq("multipath"@) =~= "MULTIPATH"@);
    assert(upper_seq("DM-DirtyLog"@) =~= "DM-DIRTYLOG"@);
    assert(upper_seq("SCSI"@) =~= "SCSI"@);
    assert(upper_seq("ext4"@) =~= "EXT4"@);
    assert(upper_seq("xfs"@) =~= "XFS"@);
    assert(upper_seq("jbd2"@) =~= "JBD2"@);
    assert("EXT4"@ != "SCSI"@) by {
        assert("EXT4"@[0] != "SCSI"@[0]);
    }
    assert("JBD2"@ != "SCSI"@) by {
        assert("JBD2"@[0] != "SCSI"@[0]);
    }
    assert("JBD2"@ != "EXT4"@) by {
        assert("JBD2"@[0] != "EXT4"@[0]);
    }
    assert("JBD2"@ != "NVME"@) by {
        assert("JBD2"@[0] != "NVME"@[0]);
    }
}

/// Compile the built-in catalog: on success, exactly the built-in
/// entries in order; success exactly when every built-in pattern
/// compiles (every built-in subsystem name is known good). A failure is
/// a developer bug and surfaces as `ConfError`.
#[verifier::rlimit(100)]
pub fn build_in_regex_confs() -> (r: Result<Vec<RegexConf>, PeripetyError>)
    ensures
        r matches Ok(cs) ==> cs@.len() == builtin_strs_spec().len() && forall|i: int|
            0 <= i < cs@.len() ==> conf_matches_entry(
                #[trigger] cs@[i],
                builtin_strs_spec()[i],
            ),
        r is Ok <==> (forall|i: int|
            0 <= i < builtin_strs_spec().len() ==> crate::regexes::pattern_compiles(
                #[trigger] builtin_strs_spec()[i].1,
            )),
        r matches Err(e) ==> e is ConfError,
{
    let strs = build_in_regex_conf_strs();
    proof {
        lemma_builtin_subsystems_parse();
        assert forall|i: int|
            0 <= i < builtin_strs_spec().len() implies StorageSubSystem::spec_from_str(
            (#[trigger] builtin_strs_spec()[i]).2,
        ) is Some by {
                if i == 0 {
                    assert(builtin_strs_spec()[0].2 == "multipath"@);
                } else if i == 1 {
                    assert(builtin_strs_spec()[1].2 == "multipath"@);
                } else if i == 2 {
                    assert(builtin_strs_spec()[2].2 == "DM-DirtyLog"@);
                } else if i == 3 {
                    assert(builtin_strs_spec()[3].2 == "DM-DirtyLog"@);
                } else if i == 4 {
                    assert(builtin_strs_spec()[4].2 == "SCSI"@);
                } else if i == 5 {
                    assert(builtin_strs_spec()[5].2 == "SCSI"@);
                } else if i == 6 {
                    assert(builtin_strs_spec()[6].2 == "SCSI"@);
                } else if i == 7 {
                    assert(builtin_strs_spec()[7].2 == "SCSI"@);
                } else if i == 8 {
                    assert(builtin_strs_spec()[8].2 == "SCSI"@);
                } else if i == 9 {
                    assert(builtin_strs_spec()[9].2 == "ext4"@);
                } else if i == 10 {
                    assert(builtin_strs_spec()[10].2 == "ext4"@);
                } else if i == 11 {
                    assert(builtin_strs_spec()[11].2 == "ext4"@);
                } else if i == 12 {
                    assert(builtin_strs_spec()[12].2 == "ext4"@);
                } else if i == 13 {
                    assert(builtin_strs_spec()[13].2 == "xfs"@);
                } else if i == 14 {
                    assert(builtin_strs_spec()[14].2 == "xfs"@);
                } else if i == 15 {
                    assert(builtin_strs_spec()[15].2 == "xfs"@);
                } else if i == 16 {
                    assert(builtin_strs_spec()[16].2 == "ext4"@);
                } else if i == 17 {
                    assert(builtin_strs_spec()[17].2 == "jbd2"@);
                }
        }
    }
    let mut out: Vec<RegexConf> = Vec::new();
    let n: usize = strs.len();
    let mut i: usize = 0;
    while i < n
        invariant
            0 <= i <= n,
            n == strs@.len(),
            n == builtin_strs_spec().len(),
            forall|j: int|
                0 <= j < n ==> str_entry_view(#[trigger] strs@[j]) == builtin_strs_spec()[j],
            forall|j: int|
                0 <= j < n ==> StorageSubSystem::spec_from_str(
                    (#[trigger] builtin_strs_spec()[j]).2,
                ) is Some,
            out@.len() == i,
            forall|j: int|
                0 <= j < i ==> conf_matches_entry(
                    #[trigger] out@[j],
                    builtin_strs_spec()[j],
                ),
            forall|j: int|
                0 <= j < i ==> crate::regexes::pattern_compiles(
                    (#[trigger] builtin_strs_spec()[j]).1,
                ),
        decreases n - i,
    {
        let c = match strs[i].to_regex_conf() {
            Ok(c) => c,
            Err(e) => {
                proof {
                    assert(!crate::regexes::pattern_compiles(
                        builtin_strs_spec()[i as int].1,
                    ));
                }
                return Err(e);
            },
        };
        let ghost prev = out@;
        out.push(c);
        i += 1;
        proof {
            assert forall|j: int| 0 <= j < i implies conf_matches_entry(
                #[trigger] out@[j],
                builtin_strs_spec()[j],
            ) by {
                if j < i - 1 {
                    assert(out@[j] == prev[j]);
                }
            }
        }
    }
    Ok(out)
}

} // verus!
