use ftpkit::client::{FtpClient, FtpClientListMode, FtpClientSettings, parse_mlsd_listing,
    parse_list_listing, fold_listing};
use ftpkit::mlst::parse_mlst_line;
use ftpkit::retry::{AttemptPhase, CmdAction, CmdEvent, CmdMachine};
use ftpkit::ParseError;
use ftpkit::types::FtpItemType;

fn settings(use_feat: bool, list_mode: Option<FtpClientListMode>) -> FtpClientSettings {
    FtpClientSettings {
        addr: "ftp.example.test:21".to_string(),
        login: "user".to_string(),
        password: "SECRET-REDACTED".to_string(),
        remote_dir: None,
        use_feat,
        use_passive_mode: true,
        list_mode,
        use_secure: false,
        sni: None,
    }
}

#[test]
fn retry_once_then_success() {
    // first attempt on a live connection fails recoverably; the one
    // reconnect happens; the retried command succeeds
    let mut m = CmdMachine::start(true);
    assert_eq!(m.next_action(), CmdAction::Execute);
    m.step(CmdEvent::ExecFailed { recoverable: true });
    assert_eq!(m.next_action(), CmdAction::Reconnect);
    m.step(CmdEvent::ReconnectOk);
    assert_eq!(m.next_action(), CmdAction::Execute);
    m.step(CmdEvent::ExecOk);
    assert_eq!(m.next_action(), CmdAction::ReturnSuccess);
}

#[test]
fn second_failure_is_returned_verbatim() {
    let mut m = CmdMachine::start(true);
    m.step(CmdEvent::ExecFailed { recoverable: true });
    m.step(CmdEvent::ReconnectOk);
    // the retried command fails again, even recoverably: no further
    // reconnect is attempted
    m.step(CmdEvent::ExecFailed { recoverable: true });
    assert_eq!(m.next_action(), CmdAction::ReturnCommandError);
}

#[test]
fn unrecoverable_first_failure_is_final() {
    let mut m = CmdMachine::start(true);
    m.step(CmdEvent::ExecFailed { recoverable: false });
    assert_eq!(m.next_action(), CmdAction::ReturnCommandError);
}

#[test]
fn starting_disconnected_counts_as_the_one_reconnect() {
    let mut m = CmdMachine::start(false);
    assert_eq!(m.next_action(), CmdAction::Reconnect);
    m.step(CmdEvent::ReconnectOk);
    // this attempt is already the one after a reconnect
    m.step(CmdEvent::ExecFailed { recoverable: true });
    assert_eq!(m.next_action(), CmdAction::ReturnCommandError);
}

#[test]
fn reconnect_failure_surfaces_as_connect_error() {
    let mut m = CmdMachine::start(false);
    m.step(CmdEvent::ReconnectFailed);
    assert_eq!(m.next_action(), CmdAction::ReturnConnectError);
}

#[test]
fn feature_negotiation_runs_at_most_once() {
    let mut c = FtpClient::new(settings(true, None));
    assert!(!c.is_connected());
    assert!(c.needs_feat());

    // first reconnect: FEAT is wanted, runs, and is cached
    c.reconnect_begin();
    assert!(c.needs_feat());
    let lines = vec!["CLNT".to_string(), "UTF8".to_string()];
    c.apply_feat(&lines);
    c.reconnect_done();
    assert!(c.is_connected());
    assert!(!c.needs_feat());
    assert!(c.features().clnt);
    assert!(c.features().utf8);

    // arbitrarily many later reconnects never ask for FEAT again
    for _ in 0..5 {
        c.reconnect_begin();
        assert!(!c.is_connected());
        assert!(!c.needs_feat());
        c.reconnect_done();
    }
    assert!(c.features().clnt);

    // a failed reconnect keeps the cache too
    c.reconnect_begin();
    c.reconnect_failed();
    assert!(!c.is_connected());
    assert!(!c.needs_feat());
    assert!(c.features().utf8);
}

#[test]
fn feature_negotiation_skipped_when_not_configured() {
    let mut c = FtpClient::new(settings(false, None));
    c.reconnect_begin();
    assert!(!c.needs_feat());
    c.reconnect_done();
    assert!(!c.features().clnt);
}

#[test]
fn list_mode_defaults_to_list_and_caches_a_configured_choice() {
    let mut c = FtpClient::new(settings(true, None));
    assert_eq!(c.get_list_mode(), FtpClientListMode::List);
    assert_eq!(c.get_list_mode(), FtpClientListMode::List);

    let mut d = FtpClient::new(settings(true, Some(FtpClientListMode::Mlsd)));
    assert_eq!(d.get_list_mode(), FtpClientListMode::Mlsd);
    assert_eq!(d.get_list_mode(), FtpClientListMode::Mlsd);
}

#[test]
fn attempt_phases_are_distinct() {
    assert_ne!(AttemptPhase::FirstAttempt, AttemptPhase::AfterReconnect);
}

#[test]
fn mlsd_listing_routes_pseudo_entries() {
    let lines = vec![
        "type=cdir; .".to_string(),
        "type=pdir; ..".to_string(),
        "type=file;size=1; a".to_string(),
        "type=dir; sub".to_string(),
        "type=file;size=2; b".to_string(),
    ];
    let l = parse_mlsd_listing(&lines).unwrap();
    assert_eq!(l.current.as_ref().unwrap().ty, FtpItemType::CurrentDir);
    assert_eq!(l.parent.as_ref().unwrap().ty, FtpItemType::ParentDir);
    assert_eq!(l.items.len(), 3);
    assert_eq!(l.items[0].name, "a");
    assert_eq!(l.items[1].name, "sub");
    assert_eq!(l.items[2].name, "b");
}

#[test]
fn mlsd_listing_fails_fast_on_one_bad_line() {
    let lines = vec![
        "type=file;size=1; a".to_string(),
        "type=file;size=zz; bad".to_string(),
        "type=file;size=2; b".to_string(),
    ];
    assert!(matches!(parse_mlsd_listing(&lines), Err(ParseError::BadSize)));
}

#[test]
fn fold_listing_keeps_order_and_duplicates() {
    let items = vec![
        parse_mlst_line("type=file; x").unwrap(),
        parse_mlst_line("type=file; x").unwrap(),
        parse_mlst_line("type=cdir; .").unwrap(),
    ];
    let l = fold_listing(items);
    assert_eq!(l.items.len(), 2);
    assert_eq!(l.items[0].name, "x");
    assert_eq!(l.items[1].name, "x");
    assert!(l.current.is_some());
    assert!(l.parent.is_none());
}

#[test]
fn list_listing_parses_posix_lines() {
    let lines = vec![
        "drwxr-xr-x 2 user group 4096 Nov 5 13:46 sub".to_string(),
        "-rw-r--r-- 1 user group 1234 Nov 5 13:46 example.txt".to_string(),
    ];
    let l = parse_list_listing(&lines).unwrap();
    assert_eq!(l.items.len(), 2);
    assert_eq!(l.items[0].name, "sub");
    assert_eq!(l.items[0].ty, FtpItemType::Dir);
    assert_eq!(l.items[1].name, "example.txt");
    assert_eq!(l.items[1].ty, FtpItemType::File);
    assert_eq!(l.items[1].size, Some(1234));
    let p = l.items[1].perm.clone().unwrap();
    assert!(p.read && p.write && !p.list);
    // owner rw- (6), group r-- (4), other r-- (4), packed other|group|owner
    assert_eq!(l.items[1].unix_mode, Some(4 * 64 + 4 * 8 + 6));
}

#[test]
fn list_listing_rejects_unparsable_lines() {
    let lines = vec!["type=unknown-kind; x".to_string()];
    assert!(matches!(parse_list_listing(&lines), Err(ParseError::SyntaxError)));
}

#[test]
fn list_listing_accepts_fact_format_lines() {
    // a line in the machine-listing fact format also goes through the
    // long-listing parser's fallback
    let lines = vec!["type=file;size=42;unix.mode=0755; safe.txt".to_string()];
    let l = parse_list_listing(&lines).unwrap();
    assert_eq!(l.items.len(), 1);
    assert_eq!(l.items[0].name, "safe.txt");
    assert_eq!(l.items[0].size, Some(42));
    let p = l.items[0].perm.clone().unwrap();
    assert!(p.read && p.write && p.list); // owner mask 7
}

#[test]
fn list_listing_survives_far_future_timestamps() {
    // a fact-format modify value whose signed year reaches chrono's far
    // edge: the local-time reading clamps to the epoch instead of
    // failing on the offset addition
    let lines = vec!["type=file;modify=+262142 1231235959; far".to_string()];
    let l = parse_list_listing(&lines).unwrap();
    assert_eq!(l.items.len(), 1);
    assert_eq!(l.items[0].name, "far");
    assert!(l.items[0].modified.is_some());
}

#[test]
fn list_listing_rejects_short_non_ascii_mode_values() {
    // a 3- or 4-byte unix.mode value holding a non-ASCII character is
    // rejected up front instead of reaching the outside parser
    let lines = vec![format!("type=file;unix.mode=5{}; x", '\u{e9}')];
    assert!(matches!(parse_list_listing(&lines), Err(ParseError::SyntaxError)));
    let more = vec![format!("type=file;unix.mode={}{}; y", '\u{e9}', '\u{e9}')];
    assert!(matches!(parse_list_listing(&more), Err(ParseError::SyntaxError)));
    // a long or pure-ASCII value is no hazard: the parser rejects or
    // reads it itself
    let long = vec![format!("type=file;unix.mode=07555{}; z", '\u{e9}')];
    assert!(matches!(parse_list_listing(&long), Err(ParseError::SyntaxError)));
}
