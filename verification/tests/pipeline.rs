//! End-to-end pipeline behaviour: kmsg frames through the catalog, the
//! parser stages over fixture trees, and the journal field contract.

use peripety::blk::BlkType;
use peripety::catalog::{build_in_regex_confs, kmsg_to_storage_event, RegexConfStr};
use peripety::event::{event_journal_fields, LogSeverity, StorageSubSystem};
use peripety::kmsg::gen_kmsg;
use peripety::stages::{fs_parse_event, mpath_parse_event, scsi_parse_event};
use peripety::sysfs::Sysfs;
use peripety::wwid::pretty_wwid;

fn s(x: &str) -> String {
    x.to_string()
}

fn sv(xs: &[&str]) -> Vec<String> {
    xs.iter().map(|x| x.to_string()).collect()
}

fn get<'a>(ps: &'a [(String, String)], k: &str) -> Option<&'a str> {
    ps.iter().find(|p| p.0 == k).map(|p| p.1.as_str())
}

fn classify(msg: &str) -> Option<peripety::event::StorageEvent> {
    let catalog = build_in_regex_confs().unwrap();
    let frame = format!("6,1000,12345,-;{}\n SUBSYSTEM=block\n", msg);
    let k = gen_kmsg(&frame)?;
    kmsg_to_storage_event(&catalog, &k, "host1", s("2018-05-21T10:00:00.000000+00:00"), s("id-1"))
}

#[test]
fn wwid_prettify_examples() {
    assert_eq!(pretty_wwid("  naa.5000 \t abcd \0\0\0"), "naa.5000-abcd");
    assert_eq!(pretty_wwid("plain"), "plain");
    assert_eq!(pretty_wwid("a  b"), "a-b");
    // idempotence on an awkward value
    let once = pretty_wwid(" x \0y\0 ");
    let twice = pretty_wwid(&once);
    assert_eq!(once, twice);
}

#[test]
fn kmsg_frame_parses() {
    let frame = "6,1001,5151,-;sd 4:0:0:1: [sdc] tag#0 Sense Key : Medium Error [current]\n SUBSYSTEM=scsi\n DEVICE=+scsi:4:0:0:1\n";
    let k = gen_kmsg(frame).unwrap();
    assert_eq!(k.severity, 6);
    assert_eq!(k.facility, 0);
    assert_eq!(k.sequence, 1001);
    assert_eq!(k.monotonic_us, 5151);
    assert_eq!(k.flag, '-');
    assert_eq!(k.msg, "sd 4:0:0:1: [sdc] tag#0 Sense Key : Medium Error [current]");
    assert_eq!(get(&k.dict, "SUBSYSTEM"), Some("scsi"));
    assert_eq!(get(&k.dict, "DEVICE"), Some("+scsi:4:0:0:1"));
}

#[test]
fn kmsg_non_kernel_facility_dropped() {
    // 30 = facility 3, severity 6
    assert!(gen_kmsg("30,1,2,-;daemon says hello\n").is_none());
}

#[test]
fn kmsg_short_prefix_skipped() {
    assert!(gen_kmsg("6,1001;no flag field\n").is_none());
}

#[test]
fn classify_multipath_failing_path() {
    let e = classify("device-mapper: multipath: Failing path 8:16.").unwrap();
    assert_eq!(e.sub_system, StorageSubSystem::Multipath);
    assert_eq!(e.event_type, "DM_MPATH_PATH_FAILED");
    assert_eq!(e.kdev, "8:16");
    assert_eq!(e.severity, LogSeverity::Info);
    assert_eq!(e.raw_msg, "device-mapper: multipath: Failing path 8:16.");
}

#[test]
fn classify_sense_key() {
    let e = classify("sd 4:0:0:1: [sdc] tag#0 Sense Key : Medium Error [current]").unwrap();
    assert_eq!(e.sub_system, StorageSubSystem::Scsi);
    assert_eq!(e.event_type, "SCSI_SENSE_KEY");
    assert_eq!(e.kdev, "sdc");
    assert_eq!(get(&e.extension, "sense_key"), Some("Medium Error"));
}

#[test]
fn classify_ext4_mounted() {
    let e = classify("EXT4-fs (dm-2): mounted filesystem with ordered data mode. Opts: (null)")
        .unwrap();
    assert_eq!(e.sub_system, StorageSubSystem::FsExt4);
    assert_eq!(e.event_type, "FS_MOUNTED");
    assert_eq!(e.kdev, "dm-2");
    assert_eq!(get(&e.extension, "data_mode"), Some(" ordered data mode"));
}

#[test]
fn classify_unmatched_line() {
    assert!(classify("usb 1-1: new high-speed USB device").is_none());
}

#[test]
fn first_matching_entry_wins() {
    // two entries accept the same line; the classification is the first's
    let a = RegexConfStr {
        starts_with: None,
        regex: r"^hello (?P<kdev>\w+)$",
        sub_system: "SCSI",
        event_type: "FIRST",
    };
    let b = RegexConfStr {
        starts_with: None,
        regex: r"^hello (?P<kdev>\w+)$",
        sub_system: "SCSI",
        event_type: "SECOND",
    };
    let catalog = vec![a.to_regex_conf().unwrap(), b.to_regex_conf().unwrap()];
    let k = gen_kmsg("4,7,8,-;hello sda\n").unwrap();
    let e = kmsg_to_storage_event(&catalog, &k, "h", s("t"), s("i")).unwrap();
    assert_eq!(e.event_type, "FIRST");
    assert_eq!(e.kdev, "sda");
}

#[test]
fn bad_user_regex_is_conf_error() {
    let c = RegexConfStr {
        starts_with: None,
        regex: r"([unclosed",
        sub_system: "SCSI",
        event_type: "X",
    };
    match c.to_regex_conf() {
        Ok(_) => panic!("invalid regex compiled"),
        Err(e) => assert!(matches!(e, peripety::error::PeripetyError::ConfError(_))),
    }
}

fn scsi_fixture() -> Sysfs {
    let mut fs = Sysfs::new();
    fs.add_dir(s("/sys/block/sdc/holders"), sv(&[]));
    fs.add_file(s("/sys/block/sdc/device/wwid"), s("naa.9999 cccc"));
    fs.add_file(s("/sys/class/scsi_host/host4/proc_name"), s("mpt3sas"));
    fs.add_link(s("/sys/block/sdc/device"), s("../../4:0:0:1"));
    fs.add_canon(s("/dev/sdc"), s("/dev/sdc"));
    fs
}

#[test]
fn scsi_stage_promotes_medium_error() {
    let fs = scsi_fixture();
    let raw = classify("sd 4:0:0:1: [sdc] tag#0 Sense Key : Medium Error [current]").unwrap();
    let e = scsi_parse_event(&fs, &raw).unwrap();
    assert_eq!(e.event_type, "SCSI_MEDIUM_ERROR");
    assert_eq!(e.blk_info.blk_type, BlkType::Scsi);
    assert_eq!(e.blk_info.wwid, "naa.9999-cccc");
    assert!(e.msg.contains("wwid: 'naa.9999-cccc'"));
}

#[test]
fn scsi_stage_drops_host_only_events() {
    let fs = scsi_fixture();
    let mut raw = classify("sd 4:0:0:1: [sdc] tag#0 Sense Key : Medium Error [current]").unwrap();
    raw.kdev = s("+scsi:host4");
    assert!(scsi_parse_event(&fs, &raw).is_none());
}

fn fs_fixture() -> Sysfs {
    let mut fs = Sysfs::new();
    fs.add_file(s("/sys/block/dm-2/dm/uuid"), s("LVM-aaaabbbb"));
    fs.add_file(s("/sys/block/dm-2/dm/name"), s("vg0-lv0"));
    fs.add_dir(s("/sys/block/dm-2/slaves"), sv(&["sdd"]));
    fs.add_dir(s("/sys/block/sdd/holders"), sv(&["dm-2"]));
    fs.add_file(s("/sys/block/sdd/device/wwid"), s("naa.4444 dddd"));
    fs.add_file(s("/sys/class/scsi_host/host3/proc_name"), s("ahci"));
    fs.add_link(s("/sys/block/sdd/device"), s("../../3:0:0:0"));
    fs.add_dir(s("/dev/disk/by-uuid"), sv(&["ed3a77aa"]));
    fs.add_canon(s("/dev/mapper/vg0-lv0"), s("/dev/mapper/vg0-lv0"));
    fs.add_canon(s("/dev/disk/by-uuid/ed3a77aa"), s("/dev/mapper/vg0-lv0"));
    fs.add_canon(s("/dev/sdd"), s("/dev/sdd"));
    fs.add_canon(s("/dev/sdd1"), s("/dev/sdd1"));
    fs.add_file(
        s("/proc/self/mountinfo"),
        s("40 35 253:2 / /srv rw,relatime shared:2 - ext4 /dev/mapper/vg0-lv0 rw"),
    );
    fs
}

#[test]
fn fs_stage_enriches_mounted_event() {
    let fs = fs_fixture();
    let raw = classify("EXT4-fs (dm-2): mounted filesystem with ordered data mode. Opts: (null)")
        .unwrap();
    let e = fs_parse_event(&fs, &raw).unwrap();
    assert_eq!(get(&e.extension, "data_mode"), Some("ordered"));
    assert_eq!(get(&e.extension, "uuid"), Some("ed3a77aa"));
    assert_eq!(get(&e.extension, "mount_point"), Some("/srv"));
    assert!(e.msg.contains("blk_wwid: 'LVM-aaaabbbb'"));
}

#[test]
fn fs_stage_drops_event_without_uuid() {
    let fs = fs_fixture();
    // sdd1 exists but no by-uuid link resolves to it
    let raw = classify("XFS (sdd1): writeback error on sector 123456").unwrap();
    assert_eq!(raw.event_type, "FS_IO_ERROR");
    assert!(fs_parse_event(&fs, &raw).is_none());
}

fn mpath_fixture() -> Sysfs {
    let mut fs = Sysfs::new();
    fs.add_dir(s("/sys/dev/block/8:16/holders"), sv(&["dm-0"]));
    fs.add_file(s("/sys/dev/block/8:16/holders/dm-0/dm/uuid"), s("mpath-360014051"));
    fs.add_file(s("/sys/dev/block/8:16/holders/dm-0/dm/name"), s("mpatha"));
    fs.add_link(s("/sys/dev/block/8:16"), s("../../block/sdb"));
    fs.add_canon(s("/dev/mapper/mpatha"), s("/dev/dm-0"));
    fs.add_file(s("/sys/block/dm-0/dm/uuid"), s("mpath-360014051"));
    fs.add_file(s("/sys/block/dm-0/dm/name"), s("mpatha"));
    fs.add_dir(s("/sys/block/dm-0/slaves"), sv(&["sdb"]));
    fs.add_dir(s("/sys/block/sdb/holders"), sv(&["dm-0"]));
    fs.add_file(s("/sys/block/sdb/device/wwid"), s("naa.6001 1111"));
    fs.add_file(s("/sys/class/scsi_host/host1/proc_name"), s("qla2xxx"));
    fs.add_link(s("/sys/block/sdb/device"), s("../../1:0:0:1"));
    fs.add_canon(s("/dev/sdb"), s("/dev/sdb"));
    fs
}

#[test]
fn mpath_stage_attaches_map() {
    let fs = mpath_fixture();
    let raw = classify("device-mapper: multipath: Failing path 8:16.").unwrap();
    let e = mpath_parse_event(&fs, &raw).unwrap();
    assert_eq!(e.blk_info.blk_type, BlkType::DmMultipath);
    assert_eq!(e.blk_info.wwid, "mpath-360014051");
    assert_eq!(get(&e.extension, "blk_major_minor"), Some("8:16"));
    assert!(e.msg.contains("mpath_wwid: 360014051"));
    assert!(e.msg.contains("path_blk_name: sdb"));
}

#[test]
fn mpath_stage_ignores_other_event_types() {
    let fs = mpath_fixture();
    let mut raw = classify("device-mapper: multipath: Failing path 8:16.").unwrap();
    raw.event_type = s("SOMETHING_ELSE");
    assert!(mpath_parse_event(&fs, &raw).is_none());
}

#[test]
fn journal_fields_layout() {
    let fs = scsi_fixture();
    let raw = classify("sd 4:0:0:1: [sdc] tag#0 Sense Key : Medium Error [current]").unwrap();
    let e = scsi_parse_event(&fs, &raw).unwrap();
    let fields = event_journal_fields(&e, "{\"json\":1}");
    assert_eq!(fields[0], (s("IS_PERIPETY"), s("TRUE")));
    assert_eq!(fields[1], (s("PRIORITY"), s("6")));
    assert_eq!(get(&fields, "DEV_WWID"), Some("naa.9999-cccc"));
    assert_eq!(get(&fields, "DEV_PATH"), Some("/dev/sdc"));
    assert_eq!(get(&fields, "EVENT_TYPE"), Some("SCSI_MEDIUM_ERROR"));
    assert_eq!(get(&fields, "SUB_SYSTEM"), Some("SCSI"));
    assert_eq!(get(&fields, "EXT_SENSE_KEY"), Some("Medium Error"));
    assert_eq!(get(&fields, "JSON"), Some("{\"json\":1}"));
    assert_eq!(fields.last().unwrap().0, "JSON");
}

#[test]
fn builtin_catalog_holds_every_entry() {
    let strs = peripety::catalog::build_in_regex_conf_strs();
    let confs = build_in_regex_confs().unwrap();
    assert_eq!(strs.len(), 18);
    assert_eq!(confs.len(), 18);
    let expected = [
        "DM_MPATH_PATH_FAILED",
        "DM_MPATH_PATH_REINSTATED",
        "DM_DIRTY_LOG_READ_FAILED",
        "DM_DIRTY_LOG_WRITE_FAILED",
        "SCSI_UNALIGNED_PARTIAL_COMPLETION",
        "SCSI_SPINNING_UP_DISK",
        "SCSI_SENSE_KEY",
        "SCSI_ADDITIONAL_SENSE_CODE",
        "SCSI_MEDIUM_ACCESS_TIMEOUT_OFFLINEING_DISK",
        "FS_MOUNTED",
        "FS_REMOUNT_READ_ONLY",
        "FS_PANIC",
        "FS_ERROR",
        "FS_MOUNTED",
        "FS_UNMOUNTED",
        "FS_IO_ERROR",
        "FS_IO_ERROR",
        "FS_IO_ERROR",
    ];
    for (i, et) in expected.iter().enumerate() {
        assert_eq!(strs[i].event_type, *et);
        assert_eq!(confs[i].event_type, *et);
        assert_eq!(confs[i].regex.as_str(), strs[i].regex);
    }
}

#[test]
fn unknown_subsystem_is_conf_error() {
    let c = peripety::conf::ConfRegex {
        regex: s(r"^x (?P<kdev>\\w+)$"),
        event_type: s("X"),
        starts_with: None,
        sub_system: s("floppy"),
    };
    match c.to_regex_conf() {
        Ok(_) => panic!("unknown subsystem accepted"),
        Err(e) => assert!(matches!(e, peripety::error::PeripetyError::ConfError(_))),
    }
}
