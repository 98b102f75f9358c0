//! Filter evaluation, the query/monitor session plans, the `--since`
//! formats, severity and subsystem parsing, and the text renderings.

use peripety::blk::{BlkInfo, BlkType};
use peripety::cli::{handle_event, is_match, to_stdout_blk_info, CliOpt};
use peripety::error::PeripetyError;
use peripety::event::{LogSeverity, StorageEvent, StorageSubSystem};
use peripety::filter::{
    event_passes_extra_filters, parse_since, DateTimeParts, JournalAction, SincePattern,
    StorageEventFilter, StorageEventFilterType, StorageEventIter,
};

fn s(x: &str) -> String {
    x.to_string()
}

fn event_with_severity(sev: LogSeverity) -> StorageEvent {
    let mut e: StorageEvent = Default::default();
    e.severity = sev;
    e.sub_system = StorageSubSystem::Scsi;
    e.event_type = s("SCSI_MEDIUM_ERROR");
    e
}

#[test]
fn severity_filter_keeps_severe_events() {
    let filters = vec![StorageEventFilter {
        filter_type: StorageEventFilterType::Severity,
        value: s("Warning"),
    }];
    for sev in [
        LogSeverity::Emergency,
        LogSeverity::Alert,
        LogSeverity::Ctritical,
        LogSeverity::Error,
        LogSeverity::Warning,
    ] {
        assert!(event_passes_extra_filters(&event_with_severity(sev), &filters));
    }
    for sev in [LogSeverity::Notice, LogSeverity::Info, LogSeverity::Debug] {
        assert!(!event_passes_extra_filters(&event_with_severity(sev), &filters));
    }
}

#[test]
fn wwid_filter_matches_owners() {
    let mut e = event_with_severity(LogSeverity::Error);
    e.blk_info.wwid = s("mpath-123");
    e.blk_info.owners.push(peripety::blk::BlkOwner {
        wwid: s("naa.5000-abcd"),
        blk_type: BlkType::Scsi,
        blk_path: s("/dev/sda"),
        preferred_blk_path: s("/dev/sda"),
        uuid: None,
        mount_point: None,
        transport_id: s(""),
    });
    let f = |v: &str| {
        vec![StorageEventFilter { filter_type: StorageEventFilterType::Wwid, value: s(v) }]
    };
    assert!(event_passes_extra_filters(&e, &f("mpath-123")));
    assert!(event_passes_extra_filters(&e, &f("naa.5000-abcd")));
    assert!(!event_passes_extra_filters(&e, &f("naa.other")));
}

#[test]
fn cli_options_select_events() {
    let e = event_with_severity(LogSeverity::Error);
    let mut opt = CliOpt {
        severity: Some(LogSeverity::Warning),
        sub_systems: Some(vec![StorageSubSystem::Scsi]),
        event_types: Some(vec![s("SCSI_MEDIUM_ERROR")]),
        since: None,
        blk_info: None,
        is_json: false,
        need_notify: false,
    };
    assert!(handle_event(&e, &opt));
    opt.sub_systems = Some(vec![StorageSubSystem::FsXfs]);
    assert!(!handle_event(&e, &opt));
    opt.sub_systems = None;
    opt.severity = Some(LogSeverity::Emergency);
    assert!(!handle_event(&e, &opt));
}

#[test]
fn query_plan_seeks_head() {
    let it = StorageEvent::query(None).unwrap();
    assert!(matches!(&it.actions[0], JournalAction::AddMatch(m) if m == "IS_PERIPETY=TRUE"));
    assert!(matches!(it.actions.last().unwrap(), JournalAction::SeekHead));
}

#[test]
fn monitor_plan_records_filters() {
    let filters = vec![
        StorageEventFilter { filter_type: StorageEventFilterType::EventType, value: s("FS_MOUNTED") },
        StorageEventFilter { filter_type: StorageEventFilterType::Severity, value: s("Warning") },
    ];
    let it = StorageEvent::monitor(Some(&filters)).unwrap();
    assert!(matches!(&it.actions[1], JournalAction::AddMatch(m) if m == "EVENT_TYPE=FS_MOUNTED"));
    assert!(matches!(it.actions.last().unwrap(), JournalAction::SeekTail));
    assert_eq!(it.extra_filters.len(), 1);
    assert!(matches!(it.extra_filters[0].filter_type, StorageEventFilterType::Severity));
}

#[test]
fn apply_filter_event_id() {
    let mut it = StorageEventIter::new();
    it.apply_filter(&StorageEventFilter {
        filter_type: StorageEventFilterType::EventId,
        value: s("abc"),
    })
    .unwrap();
    assert!(matches!(&it.actions[1], JournalAction::AddMatch(m) if m == "EVENT_ID=abc"));
}

#[test]
fn since_formats() {
    assert_eq!(parse_since("today").unwrap(), SincePattern::Today);
    assert_eq!(parse_since("YESTERDAY").unwrap(), SincePattern::Yesterday);
    assert_eq!(
        parse_since("2018-05-21").unwrap(),
        SincePattern::At(DateTimeParts { year: 2018, month: 5, day: 21, hour: 0, minute: 0, second: 0 })
    );
    assert_eq!(
        parse_since("2012-10-30 18:17:16").unwrap(),
        SincePattern::At(DateTimeParts { year: 2012, month: 10, day: 30, hour: 18, minute: 17, second: 16 })
    );
    let e = parse_since("the other day").unwrap_err();
    assert!(matches!(e, PeripetyError::InvalidArgument(_)));
    assert!(parse_since("2012-10-30 18:17").is_err());
}

#[test]
fn severity_parsing() {
    assert_eq!(LogSeverity::from_str("warning").unwrap(), LogSeverity::Warning);
    assert_eq!(LogSeverity::from_str("4").unwrap(), LogSeverity::Warning);
    assert_eq!(LogSeverity::from_str("EMERGENCY").unwrap(), LogSeverity::Emergency);
    assert_eq!(LogSeverity::from_str("5").unwrap(), LogSeverity::Notice);
    // the word form of Notice never matches: the comparison table holds a
    // mixed-case entry that upper-cased input cannot equal
    assert!(matches!(
        LogSeverity::from_str("notice").unwrap_err(),
        PeripetyError::LogSeverityParseError(_)
    ));
    assert!(LogSeverity::from_str("loud").is_err());
}

#[test]
fn subsystem_parsing_and_names() {
    assert_eq!(StorageSubSystem::from_str("scsi").unwrap(), StorageSubSystem::Scsi);
    assert_eq!(StorageSubSystem::from_str("EXT4").unwrap(), StorageSubSystem::FsExt4);
    assert_eq!(StorageSubSystem::from_str("jbd2").unwrap(), StorageSubSystem::FsJbd2);
    assert_eq!(
        StorageSubSystem::from_str("DM-DirtyLog").unwrap(),
        StorageSubSystem::DmDirtyLog
    );
    assert!(matches!(
        StorageSubSystem::from_str("tape").unwrap_err(),
        PeripetyError::StorageSubSystemParseError(_)
    ));
    assert_eq!(StorageSubSystem::FsExt4.display_name(), "ext4");
    assert_eq!(StorageSubSystem::Scsi.display_name(), "SCSI");
}

#[test]
fn severity_u8_round_trip() {
    for v in 0u8..8u8 {
        assert_eq!(LogSeverity::from_u8(v).to_u8(), v);
    }
    assert_eq!(LogSeverity::from_u8(200), LogSeverity::Unknown);
}

#[test]
fn is_match_on_wwid_or_mount_point() {
    let mut b: BlkInfo = Default::default();
    b.wwid = s("naa.5000-abcd");
    b.mount_point = Some(s("/mnt/data"));
    assert!(is_match("naa.5000-abcd", &b));
    assert!(is_match("/mnt/data", &b));
    assert!(!is_match("/mnt/other", &b));
}

#[test]
fn simple_text_rendering() {
    let mut b: BlkInfo = Default::default();
    b.wwid = s("naa.5000-abcd");
    b.blk_type = BlkType::Scsi;
    b.blk_path = s("/dev/sda");
    b.preferred_blk_path = s("/dev/disk/by-id/wwn-0x5000abcd");
    b.mount_point = Some(s("/mnt/data"));
    let text = to_stdout_blk_info(&b, true, "");
    assert_eq!(text, "sda : naa.5000-abcd : /mnt/data\n");
    let detail = to_stdout_blk_info(&b, false, "");
    assert!(detail.contains("blk_path     : /dev/sda\n"));
    assert!(detail.contains("blk_type     : SCSI\n"));
    assert!(detail.contains("wwid         : naa.5000-abcd\n"));
}

#[test]
fn event_id_is_uuid_shaped() {
    let id = peripety::stamp::new_event_id();
    assert_eq!(id.len(), 36);
    assert_eq!(id.chars().filter(|c| *c == '-').count(), 4);
}

#[test]
fn mountinfo_unescapes_octal() {
    let mut fs = peripety::sysfs::Sysfs::new();
    fs.add_file(
        s("/proc/self/mountinfo"),
        s("36 35 8:1 / /mnt/with\\040space rw shared:1 - ext4 /dev/sda1 rw"),
    );
    let mp = BlkInfo::get_mount_point(&fs, "/dev/sda1").unwrap();
    assert_eq!(mp, "/mnt/with space");
    assert!(BlkInfo::get_mount_point(&fs, "/dev/sdb1").is_none());
}

#[test]
fn since_yesterday_is_before_now() {
    let y = peripety::filter::since_str_to_jourald_timestamp("yesterday").unwrap();
    let t = peripety::filter::since_str_to_jourald_timestamp("today").unwrap();
    assert!(y < t);
    assert!(peripety::filter::since_str_to_jourald_timestamp("not a time").is_err());
}

#[test]
fn timestamp_is_rfc3339_with_micros() {
    let ts = peripety::stamp::now_rfc3339_micros();
    assert!(ts.contains('T'));
    assert!(ts.contains('.'));
    assert!(ts.len() >= 26);
}

#[test]
fn detailed_rendering_lists_owners() {
    let mut b: BlkInfo = Default::default();
    b.wwid = s("mpath-3600");
    b.blk_type = BlkType::DmMultipath;
    b.blk_path = s("/dev/mapper/mpatha");
    b.preferred_blk_path = s("/dev/mapper/mpatha");
    b.owners.push(peripety::blk::BlkOwner {
        wwid: s("naa.6001-1111"),
        blk_type: BlkType::Scsi,
        blk_path: s("/dev/sdb"),
        preferred_blk_path: s("/dev/sdb"),
        uuid: None,
        mount_point: None,
        transport_id: s(""),
    });
    let text = to_stdout_blk_info(&b, false, "");
    assert!(text.contains("owners       :\n"));
    assert!(text.contains("  wwid         : naa.6001-1111\n"));
    let simple = to_stdout_blk_info(&b, true, "");
    assert_eq!(simple, "mpatha : mpath-3600\n  sdb : naa.6001-1111\n");
}

#[test]
fn monitor_plan_with_since_seeks_realtime() {
    let filters = vec![
        StorageEventFilter { filter_type: StorageEventFilterType::Since, value: s("2018-05-21") },
        StorageEventFilter { filter_type: StorageEventFilterType::SubSystem, value: s("SCSI") },
    ];
    let it = StorageEvent::monitor(Some(&filters)).unwrap();
    assert_eq!(it.actions.len(), 4);
    assert!(matches!(&it.actions[0], JournalAction::AddMatch(m) if m == "IS_PERIPETY=TRUE"));
    assert!(matches!(it.actions[1], JournalAction::SeekRealtimeUsec(_)));
    assert!(matches!(&it.actions[2], JournalAction::AddMatch(m) if m == "SUB_SYSTEM=SCSI"));
    assert!(matches!(it.actions[3], JournalAction::SeekTail));
    assert!(it.extra_filters.is_empty());
}

#[test]
fn effective_config_defaults() {
    let all_unset = peripety::conf::ConfMain {
        save_to_journald: None,
        notify_stdout: None,
        dump_blk_info_at_start: None,
    };
    assert_eq!(all_unset.effective(), (true, false, true));
    let set = peripety::conf::ConfMain {
        save_to_journald: Some(false),
        notify_stdout: Some(true),
        dump_blk_info_at_start: Some(false),
    };
    assert_eq!(set.effective(), (false, true, false));
}

#[test]
fn dump_event_announces_device() {
    let mut b: BlkInfo = Default::default();
    b.wwid = s("naa.5000-abcd");
    b.blk_type = BlkType::Scsi;
    b.blk_path = s("/dev/sda");
    b.mount_point = Some(s("/mnt/data"));
    let e = peripety::event::dump_blk_info_event(b, "host1", s("t0"), s("id0"));
    assert_eq!(e.severity, LogSeverity::Info);
    assert_eq!(e.sub_system, StorageSubSystem::Peripety);
    assert_eq!(e.event_type, "PERIPETY_BLK_INFO");
    assert_eq!(e.msg, "Found block '/dev/sda' 'naa.5000-abcd' mounted at '/mnt/data'");
    assert_eq!(e.raw_msg, e.msg);

    let mut b2: BlkInfo = Default::default();
    b2.wwid = s("naa.6001-1111");
    b2.blk_path = s("/dev/sdb");
    let e2 = peripety::event::dump_blk_info_event(b2, "host1", s("t0"), s("id1"));
    assert_eq!(e2.msg, "Found block '/dev/sdb' 'naa.6001-1111'");
}
