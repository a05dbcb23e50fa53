use ftpkit::ParseError;
use ftpkit::datetime::{MlstDateTime, parse_mlst_date};
use ftpkit::mlst::{MlstFact, parse_mlst_feat, parse_mlst_line};
use ftpkit::perms::MlstFilePermissions;
use ftpkit::types::FtpItemType;

fn dt(year: i32, month: u8, day: u8, hour: u8, minute: u8, second: u8, ms: u16) -> MlstDateTime {
    MlstDateTime { year, month, day, hour, minute, second, millisecond: ms }
}

#[test]
fn date_fields_come_from_the_fixed_offsets() {
    assert_eq!(parse_mlst_date("20230101120000"), Some(dt(2023, 1, 1, 12, 0, 0, 0)));
    assert_eq!(parse_mlst_date("19991231235959"), Some(dt(1999, 12, 31, 23, 59, 59, 0)));
    assert_eq!(parse_mlst_date("20230405060708.123"), Some(dt(2023, 4, 5, 6, 7, 8, 123)));
}

#[test]
fn date_rejects_wrong_lengths_and_non_digits() {
    assert_eq!(parse_mlst_date(""), None);
    assert_eq!(parse_mlst_date("2023010112000"), None); // 13 characters
    assert_eq!(parse_mlst_date("202301011200000"), None); // 15 characters
    assert_eq!(parse_mlst_date("2023010112000x"), None);
    assert_eq!(parse_mlst_date("20230101120000.12x"), None);
    assert_eq!(parse_mlst_date("20230101120000x123"), None); // wrong separator
    assert_eq!(parse_mlst_date("20230101120000.1234"), None);
}

#[test]
fn date_rejects_invalid_calendar_values() {
    assert_eq!(parse_mlst_date("20231301120000"), None); // month 13
    assert_eq!(parse_mlst_date("20230001120000"), None); // month 0
    assert_eq!(parse_mlst_date("20230132120000"), None); // January 32nd
    assert_eq!(parse_mlst_date("20230229120000"), None); // 2023 is no leap year
    assert_eq!(parse_mlst_date("20240229120000"), Some(dt(2024, 2, 29, 12, 0, 0, 0)));
    assert_eq!(parse_mlst_date("19000229120000"), None); // century, not leap
    assert_eq!(parse_mlst_date("20000229120000"), Some(dt(2000, 2, 29, 12, 0, 0, 0)));
    assert_eq!(parse_mlst_date("20230101240000"), None); // hour 24
    assert_eq!(parse_mlst_date("20230101126000"), None); // minute 60
    assert_eq!(parse_mlst_date("20230101120060"), None); // second 60
}

#[test]
fn perm_letters_set_exactly_their_flags() {
    let p = MlstFilePermissions::parse("adfr").unwrap();
    assert!(p.append && p.delete && p.rename && p.read);
    assert!(!p.create && !p.enter && !p.list && !p.mkdir && !p.purge && !p.write);

    let q = MlstFilePermissions::parse("celmpw").unwrap();
    assert!(q.create && q.enter && q.list && q.mkdir && q.purge && q.write);
    assert!(!q.append && !q.delete && !q.rename && !q.read);
}

#[test]
fn perm_parsing_ignores_case_order_and_repeats() {
    let p = MlstFilePermissions::parse("ADFR").unwrap();
    assert!(p.append && p.delete && p.rename && p.read);
    let q = MlstFilePermissions::parse("rfda").unwrap();
    assert_eq!(p, q);
    let r = MlstFilePermissions::parse("rrrrw").unwrap();
    assert!(r.read && r.write && !r.append);
}

#[test]
fn perm_empty_is_all_false_and_unknown_letters_fail() {
    let p = MlstFilePermissions::parse("").unwrap();
    assert_eq!(p, MlstFilePermissions::default());
    assert_eq!(MlstFilePermissions::parse("rx"), Err(ParseError::SyntaxError));
    assert_eq!(MlstFilePermissions::parse("z"), Err(ParseError::SyntaxError));
    assert_eq!(MlstFilePermissions::parse("r w"), Err(ParseError::SyntaxError));
}

#[test]
fn as_pex_packs_read_write_list() {
    let mut p = MlstFilePermissions::default();
    assert_eq!(p.as_pex(), 0);
    p.read = true;
    assert_eq!(p.as_pex(), 4);
    p.read = false;
    p.write = true;
    assert_eq!(p.as_pex(), 2);
    p.write = false;
    p.list = true;
    assert_eq!(p.as_pex(), 1);
    p.read = true;
    p.write = true;
    assert_eq!(p.as_pex(), 7);
    // the other seven flags never contribute
    p = MlstFilePermissions::parse("acdefmp").unwrap();
    assert_eq!(p.as_pex(), 0);
}

#[test]
fn fact_line_with_size_and_modify() {
    let item = parse_mlst_line("type=file;size=1234;modify=20230101120000; report.txt").unwrap();
    assert_eq!(item.name, "report.txt");
    assert_eq!(item.ty, FtpItemType::File);
    assert_eq!(item.size, Some(1234));
    assert_eq!(item.modified, Some(dt(2023, 1, 1, 12, 0, 0, 0)));
    assert!(item.created.is_none());
    assert!(item.unique.is_none());
    assert!(item.perm.is_none());
    assert!(item.lang.is_none());
    assert!(item.media_type.is_none());
    assert!(item.charset.is_none());
    assert!(item.unix_owner.is_none());
    assert!(item.unix_ownername.is_none());
    assert!(item.unix_group.is_none());
    assert!(item.unix_groupname.is_none());
    assert!(item.unix_mode.is_none());
    assert!(item.others.is_none());
}

#[test]
fn fact_line_pseudo_entries() {
    let cur = parse_mlst_line("type=cdir; .").unwrap();
    assert_eq!(cur.ty, FtpItemType::CurrentDir);
    assert_eq!(cur.name, ".");
    let par = parse_mlst_line("type=pdir; ..").unwrap();
    assert_eq!(par.ty, FtpItemType::ParentDir);
    assert_eq!(par.name, "..");
    let dir = parse_mlst_line("type=dir; sub").unwrap();
    assert_eq!(dir.ty, FtpItemType::Dir);
    assert!(dir.ty.is_dir());
    assert!(!parse_mlst_line("type=file; f").unwrap().ty.is_dir());
}

#[test]
fn fact_line_missing_type_is_a_syntax_error() {
    assert!(matches!(
        parse_mlst_line("size=1234;modify=20230101120000; report.txt"),
        Err(ParseError::SyntaxError)
    ));
    assert!(matches!(parse_mlst_line("size=5; x"), Err(ParseError::SyntaxError)));
    assert!(matches!(parse_mlst_line(" name-only"), Err(ParseError::SyntaxError)));
}

#[test]
fn fact_line_grammar_errors() {
    // a space after a non-empty fact name
    assert!(matches!(parse_mlst_line("type =file; f"), Err(ParseError::SyntaxError)));
    // a semicolon while reading a name
    assert!(matches!(parse_mlst_line("type;=file; f"), Err(ParseError::SyntaxError)));
    // a second equals sign inside a value
    assert!(matches!(parse_mlst_line("type=fi=le; f"), Err(ParseError::SyntaxError)));
    // a space inside a value
    assert!(matches!(parse_mlst_line("type=fi le; f"), Err(ParseError::SyntaxError)));
    // an empty name before '=' dispatched at ';'
    assert!(matches!(parse_mlst_line("=file; f"), Err(ParseError::SyntaxError)));
    // an empty filename
    assert!(matches!(parse_mlst_line("type=file; "), Err(ParseError::SyntaxError)));
    assert!(matches!(parse_mlst_line("type=file;"), Err(ParseError::SyntaxError)));
    assert!(matches!(parse_mlst_line(""), Err(ParseError::SyntaxError)));
    // an unknown type value
    assert!(matches!(parse_mlst_line("type=link; f"), Err(ParseError::SyntaxError)));
}

#[test]
fn fact_line_bad_size_and_bad_dates() {
    assert!(matches!(parse_mlst_line("type=file;size=abc; f"), Err(ParseError::BadSize)));
    assert!(matches!(parse_mlst_line("type=file;size=; f"), Err(ParseError::BadSize)));
    assert!(matches!(
        parse_mlst_line("type=file;size=99999999999999999999999999; f"),
        Err(ParseError::BadSize)
    ));
    assert!(matches!(parse_mlst_line("type=file;modify=2023; f"), Err(ParseError::InvalidDate)));
    assert!(matches!(
        parse_mlst_line("type=file;create=20231301120000; f"),
        Err(ParseError::InvalidDate)
    ));
    // the first failing fact decides the error, left to right
    assert!(matches!(parse_mlst_line("size=abc;type=link; f"), Err(ParseError::BadSize)));
}

#[test]
fn fact_line_unix_facts() {
    let item = parse_mlst_line(
        "type=file;unix.mode=0755;unix.owner=1000;unix.group=100;unix.ownername=joe;unix.groupname=users; prog",
    )
    .unwrap();
    assert_eq!(item.unix_mode, Some(0o755));
    assert_eq!(item.unix_owner, Some(1000));
    assert_eq!(item.unix_group, Some(100));
    assert_eq!(item.unix_ownername.as_deref(), Some("joe"));
    assert_eq!(item.unix_groupname.as_deref(), Some("users"));
    assert!(matches!(parse_mlst_line("type=file;unix.mode=778; f"), Err(ParseError::SyntaxError)));
    assert!(matches!(
        parse_mlst_line("type=file;unix.owner=9999999999; f"),
        Err(ParseError::SyntaxError)
    ));
}

#[test]
fn fact_line_verbatim_and_unrecognized_facts() {
    let item = parse_mlst_line(
        "Type=file;UNIQUE=ab12;Perm=rw;lang=en;media-type=text/plain;charset=utf-8;x-extra=1;x-extra=2;other=v; data.txt",
    )
    .unwrap();
    assert_eq!(item.unique.as_deref(), Some("ab12"));
    assert_eq!(item.lang.as_deref(), Some("en"));
    assert_eq!(item.media_type.as_deref(), Some("text/plain"));
    assert_eq!(item.charset.as_deref(), Some("utf-8"));
    let p = item.perm.clone().unwrap();
    assert!(p.read && p.write && !p.list);
    // the later occurrence of an unrecognized fact wins
    assert_eq!(item.get_other("x-extra").map(String::as_str), Some("2"));
    assert_eq!(item.get_other("other").map(String::as_str), Some("v"));
    assert_eq!(item.get_other("absent"), None);
}

#[test]
fn fact_line_filename_takes_anything() {
    let item = parse_mlst_line("type=file; weird name=with;semis").unwrap();
    assert_eq!(item.name, "weird name=with;semis");
    // zero facts: a leading space ends fact parsing at once
    let bare = parse_mlst_line(" plain.txt");
    assert_eq!(bare.unwrap_err(), ParseError::SyntaxError); // still no type fact
}

#[test]
fn feat_fact_list_parsing() {
    let v = parse_mlst_feat("type*;size;");
    assert_eq!(v.len(), 2);
    assert!(matches!(v[0], (MlstFact::Ty, true)));
    assert!(matches!(v[1], (MlstFact::Size, false)));

    let w = parse_mlst_feat(" modify ; UNIX.mode* ;;perm");
    assert_eq!(w.len(), 3);
    assert!(matches!(w[0], (MlstFact::Modify, false)));
    assert!(matches!(w[1], (MlstFact::UnixMode, true)));
    assert!(matches!(w[2], (MlstFact::Perm, false)));

    let x = parse_mlst_feat("x-vendor;");
    assert_eq!(x.len(), 1);
    match &x[0] {
        (MlstFact::Other(name), false) => assert_eq!(name, "x-vendor"),
        other => panic!("unexpected fact: {other:?}"),
    }

    assert!(parse_mlst_feat("").is_empty());
    assert!(parse_mlst_feat(" ; ; ").is_empty());
}
