use ftpkit::datetime::MlstDateTime;
use ftpkit::listing::{LongListEntry, ftp_to_list, list_to_ftp};
use ftpkit::mlst::parse_mlst_line;
use ftpkit::perms::MlstFilePermissions;
use ftpkit::types::FtpItemType;

#[test]
fn entry_to_long_listing_broadcasts_one_permission_mask() {
    let item = parse_mlst_line("type=file;size=9;modify=20230101120000;perm=rwl; f.txt").unwrap();
    let e = ftp_to_list(item);
    assert_eq!(e.name, "f.txt");
    assert!(!e.is_dir);
    assert_eq!(e.size, 9);
    assert_eq!(e.modified.year, 2023);
    // read 4, write 2, list 1, identically for owner, group and other
    assert_eq!(e.owner_pex, 7);
    assert_eq!(e.group_pex, 7);
    assert_eq!(e.other_pex, 7);
}

#[test]
fn entry_to_long_listing_defaults() {
    let item = parse_mlst_line("type=dir; sub").unwrap();
    let e = ftp_to_list(item);
    assert!(e.is_dir);
    assert_eq!(e.size, 0);
    // the Unix epoch stands in for a missing modified time
    assert_eq!(
        e.modified,
        MlstDateTime { year: 1970, month: 1, day: 1, hour: 0, minute: 0, second: 0, millisecond: 0 }
    );
    assert_eq!(e.owner_pex, 0);
}

#[test]
fn round_trip_preserves_flag_size_time_and_broadcasts_permissions() {
    // read=true, write=false, list=true
    let item = parse_mlst_line(
        "type=file;size=1234;modify=20230101120000;perm=rl; data.bin",
    )
    .unwrap();
    let back = list_to_ftp(&ftp_to_list(item.clone()));
    // the directory flag, size and modified time survive exactly
    assert_eq!(back.ty.is_dir(), item.ty.is_dir());
    assert_eq!(back.size, item.size);
    assert_eq!(back.modified, item.modified);
    // the recovered permission set carries read/write/list again
    let p = back.perm.clone().unwrap();
    assert!(p.read && !p.write && p.list);
    // ... and the reconstructed mode has identical owner/group/other
    // bits: the broadcast artifact, expected rather than a bug
    let m = back.unix_mode.unwrap();
    assert_eq!(m % 8, (m / 8) % 8);
    assert_eq!(m % 8, (m / 64) % 8);
    assert_eq!(m % 8, 5); // r-x worth 4 + 1
}

#[test]
fn round_trip_drops_what_the_long_listing_cannot_carry() {
    let item = parse_mlst_line(
        "type=file;size=1;modify=20230101120000;unique=u1;lang=en;charset=utf-8;x-a=b; f",
    )
    .unwrap();
    let back = list_to_ftp(&ftp_to_list(item));
    assert!(back.unique.is_none());
    assert!(back.lang.is_none());
    assert!(back.charset.is_none());
    assert!(back.media_type.is_none());
    assert!(back.created.is_none());
    assert!(back.others.is_none());
}

#[test]
fn long_listing_to_entry_special_cases_dot_names() {
    let mk = |name: &str, is_dir: bool| LongListEntry {
        name: name.to_string(),
        is_dir,
        size: 0,
        modified: MlstDateTime {
            year: 2023,
            month: 6,
            day: 1,
            hour: 0,
            minute: 0,
            second: 0,
            millisecond: 0,
        },
        uid: Some(1000),
        gid: Some(100),
        owner_pex: 6,
        group_pex: 4,
        other_pex: 0,
    };
    assert_eq!(list_to_ftp(&mk(".", true)).ty, FtpItemType::CurrentDir);
    assert_eq!(list_to_ftp(&mk("..", true)).ty, FtpItemType::ParentDir);
    assert_eq!(list_to_ftp(&mk("x", true)).ty, FtpItemType::Dir);
    // the names only matter for directories
    assert_eq!(list_to_ftp(&mk(".", false)).ty, FtpItemType::File);

    let it = list_to_ftp(&mk("x", false));
    // owner bits rw- become read/write/list
    let p = it.perm.clone().unwrap();
    assert!(p.read && p.write && !p.list);
    assert_eq!(p, MlstFilePermissions { read: true, write: true, ..Default::default() });
    // mode packs other|group|owner, 3 bits each
    assert_eq!(it.unix_mode, Some(0 * 64 + 4 * 8 + 6));
    assert_eq!(it.unix_owner, Some(1000));
    assert_eq!(it.unix_group, Some(100));
}
