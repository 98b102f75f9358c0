//! Resolver behaviour over a fixture device tree: one plain SCSI disk
//! `sda` with a partition, and a multipath map `mpatha` over `sdb`/`sdc`.

use peripety::blk::{BlkInfo, BlkType};
use peripety::error::PeripetyError;
use peripety::sysfs::Sysfs;

fn s(x: &str) -> String {
    x.to_string()
}

fn sv(xs: &[&str]) -> Vec<String> {
    xs.iter().map(|x| x.to_string()).collect()
}

pub fn fixture() -> Sysfs {
    let mut fs = Sysfs::new();
    fs.add_dir(s("/sys/class/block"), sv(&["dm-0", "sda", "sdb", "sdc"]));
    fs.add_dir(s("/sys/block/sda/holders"), sv(&[]));
    fs.add_dir(s("/sys/block/sdb/holders"), sv(&["dm-0"]));
    fs.add_dir(s("/sys/block/sdc/holders"), sv(&["dm-0"]));
    fs.add_dir(s("/sys/block/dm-0/slaves"), sv(&["sdb", "sdc"]));
    fs.add_dir(s("/dev/disk/by-id"), sv(&["wwn-0x5000abcd"]));
    fs.add_dir(s("/dev/disk/by-uuid"), sv(&["ed3a1b02"]));
    fs.add_dir(s("/sys/class/scsi_disk"), sv(&["0:0:0:0", "1:0:0:1", "2:0:0:1"]));
    fs.add_dir(s("/sys/class/scsi_disk/0:0:0:0/device/block"), sv(&["sda"]));
    fs.add_dir(s("/sys/class/scsi_disk/1:0:0:1/device/block"), sv(&["sdb"]));
    fs.add_dir(s("/sys/class/scsi_disk/2:0:0:1/device/block"), sv(&["sdc"]));

    fs.add_file(s("/sys/block/sda/device/wwid"), s("naa.5000 abcd"));
    fs.add_file(s("/sys/block/sdb/device/wwid"), s("naa.6001 1111"));
    fs.add_file(s("/sys/block/sdc/device/wwid"), s("naa.6001 1111"));
    fs.add_file(s("/sys/class/scsi_disk/0:0:0:0/device/wwid"), s("naa.5000 abcd"));
    fs.add_file(s("/sys/class/scsi_disk/1:0:0:1/device/wwid"), s("naa.6001 1111"));
    fs.add_file(s("/sys/class/scsi_disk/2:0:0:1/device/wwid"), s("naa.6001 1111"));
    fs.add_file(s("/sys/block/dm-0/dm/uuid"), s("mpath-3600140511111"));
    fs.add_file(s("/sys/block/dm-0/dm/name"), s("mpatha"));
    fs.add_file(s("/sys/class/scsi_host/host0/proc_name"), s("ahci"));
    fs.add_file(s("/sys/class/scsi_host/host1/proc_name"), s("qla2xxx"));
    fs.add_file(s("/sys/class/scsi_host/host2/proc_name"), s("qla2xxx"));
    fs.add_file(
        s("/proc/self/mountinfo"),
        s("36 35 253:0 / /mnt/data rw,relatime shared:1 - ext4 /dev/mapper/mpatha rw"),
    );

    fs.add_link(s("/sys/block/sda/device"), s("../../0:0:0:0"));
    fs.add_link(s("/sys/block/sdb/device"), s("../../1:0:0:1"));
    fs.add_link(s("/sys/block/sdc/device"), s("../../2:0:0:1"));
    fs.add_link(s("/sys/dev/block/8:16"), s("../../block/sdb"));

    fs.add_canon(s("/dev/sda"), s("/dev/sda"));
    fs.add_canon(s("/dev/sda1"), s("/dev/sda1"));
    fs.add_canon(s("/dev/sdb"), s("/dev/sdb"));
    fs.add_canon(s("/dev/sdc"), s("/dev/sdc"));
    fs.add_canon(s("/dev/mapper/mpatha"), s("/dev/dm-0"));
    fs.add_canon(s("/dev/disk/by-id/wwn-0x5000abcd"), s("/dev/sda"));
    fs.add_canon(s("/dev/disk/by-uuid/ed3a1b02"), s("/dev/dm-0"));
    fs
}

#[test]
fn plain_scsi_disk() {
    let fs = fixture();
    let b = BlkInfo::new(&fs, "sda").unwrap();
    assert_eq!(b.blk_type, BlkType::Scsi);
    assert_eq!(b.wwid, "naa.5000-abcd");
    assert_eq!(b.blk_path, "/dev/sda");
    assert_eq!(b.preferred_blk_path, "/dev/disk/by-id/wwn-0x5000abcd");
    assert_eq!(b.transport_id, "");
    assert!(b.owners.is_empty());
}

#[test]
fn holder_promotes_to_multipath() {
    let fs = fixture();
    let b = BlkInfo::new(&fs, "sdb").unwrap();
    assert_eq!(b.blk_type, BlkType::DmMultipath);
    assert_eq!(b.wwid, "mpath-3600140511111");
    assert_eq!(b.blk_path, "/dev/mapper/mpatha");
}

#[test]
fn skip_holder_stays_scsi() {
    let fs = fixture();
    let b = BlkInfo::new_skip_extra(&fs, "sdb").unwrap();
    assert_eq!(b.blk_type, BlkType::Scsi);
    assert_eq!(b.wwid, "naa.6001-1111");
    assert_eq!(b.blk_path, "/dev/sdb");
}

#[test]
fn multipath_owners_all_scsi_no_dup() {
    let fs = fixture();
    let b = BlkInfo::new(&fs, "dm-0").unwrap();
    assert_eq!(b.blk_type, BlkType::DmMultipath);
    for o in &b.owners {
        assert_eq!(o.blk_type, BlkType::Scsi);
    }
    // both paths share one WWID, so deduplication leaves exactly one owner
    assert_eq!(b.owners.len(), 1);
    assert_eq!(b.owners[0].wwid, "naa.6001-1111");
}

#[test]
fn partition_wwid_suffix() {
    let fs = fixture();
    let b = BlkInfo::new(&fs, "sda1").unwrap();
    assert_eq!(b.blk_type, BlkType::Partition);
    assert_eq!(b.wwid, "naa.5000-abcd-part1");
    assert_eq!(b.blk_path, "/dev/sda1");
    assert_eq!(b.owners[0].wwid, "naa.5000-abcd");
}

#[test]
fn identifier_round_trip() {
    let fs = fixture();
    let by_wwid = BlkInfo::new(&fs, "naa.5000-abcd").unwrap();
    let by_path = BlkInfo::new(&fs, "/dev/sda").unwrap();
    assert_eq!(by_wwid.blk_path, by_path.blk_path);
    assert_eq!(by_wwid.wwid, by_path.wwid);
    assert_eq!(by_wwid.blk_type, by_path.blk_type);
    let wwids_a: Vec<&String> = by_wwid.owners.iter().map(|o| &o.wwid).collect();
    let wwids_b: Vec<&String> = by_path.owners.iter().map(|o| &o.wwid).collect();
    assert_eq!(wwids_a, wwids_b);
}

#[test]
fn major_minor_resolves_through_link() {
    let fs = fixture();
    let b = BlkInfo::new(&fs, "8:16").unwrap();
    // 8:16 is sdb, which the multipath map holds
    assert_eq!(b.blk_type, BlkType::DmMultipath);
}

#[test]
fn scsi_id_resolves_to_disk() {
    let fs = fixture();
    let b = BlkInfo::new(&fs, "0:0:0:0").unwrap();
    assert_eq!(b.blk_path, "/dev/sda");
}

#[test]
fn by_uuid_and_mount_point() {
    let fs = fixture();
    let b = BlkInfo::new(&fs, "ed3a1b02").unwrap();
    assert_eq!(b.blk_path, "/dev/mapper/mpatha");
    assert_eq!(b.uuid.as_deref(), Some("ed3a1b02"));
    assert_eq!(b.mount_point.as_deref(), Some("/mnt/data"));
}

#[test]
fn unknown_identifier_is_no_support() {
    let fs = fixture();
    match BlkInfo::new(&fs, "floppy9") {
        Ok(_) => panic!("resolved an unknown identifier"),
        Err(e) => assert!(matches!(e, PeripetyError::NoSupport(_))),
    }
}

#[test]
fn missing_path_is_block_no_exists() {
    let fs = fixture();
    match BlkInfo::new(&fs, "/dev/nosuch") {
        Ok(_) => panic!("resolved a missing path"),
        Err(e) => assert!(matches!(e, PeripetyError::BlockNoExists(_))),
    }
}

#[test]
fn dm_without_slaves_is_internal_bug() {
    let mut fs = Sysfs::new();
    fs.add_file(s("/sys/block/dm-9/dm/uuid"), s("mpath-xyz"));
    fs.add_file(s("/sys/block/dm-9/dm/name"), s("mpathz"));
    match BlkInfo::new(&fs, "dm-9") {
        Ok(_) => panic!("resolved a DM without slaves"),
        Err(e) => assert!(matches!(e, PeripetyError::InternalBug(_))),
    }
}

#[test]
fn list_returns_map_and_free_disk() {
    let fs = fixture();
    let infos = BlkInfo::list(&fs).unwrap();
    // the multipath map subsumes sdb and sdc; sda stays on its own
    assert_eq!(infos.len(), 2);
    assert_eq!(infos[0].blk_type, BlkType::DmMultipath);
    assert_eq!(infos[0].wwid, "mpath-3600140511111");
    assert_eq!(infos[1].blk_type, BlkType::Scsi);
    assert_eq!(infos[1].wwid, "naa.5000-abcd");
}

#[test]
fn iscsi_transport_id() {
    let mut fs = fixture();
    fs.add_dir(s("/sys/devices/platform/host5"), sv(&["power", "session2"]));
    fs.add_file(s("/sys/class/scsi_host/host5/proc_name"), s("iscsi_tcp"));
    fs.add_file(s("/sys/block/sde/device/wwid"), s("naa.7777 eeee"));
    fs.add_link(s("/sys/block/sde/device"), s("../../5:0:0:1"));
    fs.add_link(
        s("/sys/class/iscsi_host/host5"),
        s("../../devices/platform/host5/iscsi_host/host5"),
    );
    fs.add_canon(s("/sys/class/iscsi_host/host5"), s("/sys/devices/platform/host5"));
    fs.add_canon(
        s("/sys/class/iscsi_session/session2"),
        s("/sys/devices/platform/host5/session2"),
    );
    fs.add_canon(
        s("/sys/class/iscsi_connection/connection2:0"),
        s("/sys/devices/platform/host5/session2/connection2:0"),
    );
    fs.add_file(s("/sys/class/iscsi_connection/connection2:0/address"), s("10.0.0.9"));
    fs.add_file(s("/sys/class/iscsi_connection/connection2:0/port"), s("3260"));
    fs.add_file(s("/sys/class/iscsi_session/session2/tpgt"), s("1"));
    fs.add_file(
        s("/sys/class/iscsi_session/session2/targetname"),
        s("iqn.2003-01.org:target1"),
    );
    fs.add_file(s("/sys/class/iscsi_session/session2/ifacename"), s("default"));
    fs.add_dir(s("/sys/block/sde/holders"), sv(&[]));
    fs.add_canon(s("/dev/sde"), s("/dev/sde"));

    let tid = peripety::transport::get_transport_id(&fs, "sde").unwrap();
    assert_eq!(tid, "10.0.0.9,3260,1,iqn.2003-01.org:target1,default");

    let b = BlkInfo::new(&fs, "sde").unwrap();
    assert_eq!(b.transport_id, "10.0.0.9,3260,1,iqn.2003-01.org:target1,default");
}
