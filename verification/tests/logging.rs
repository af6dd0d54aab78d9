use kiosk::logging::{
    check_log_file, filter_directive, open_log_sink, settle_log_file, SinkError, SinkStat,
    LOG_FILE_MODE,
};

const REGULAR: u32 = 0o100000;

fn stat(mode: u32) -> SinkStat {
    SinkStat { mode, links: 1, uid: 1000 }
}

fn open(stat: SinkStat, tightened: bool) -> Result<(), SinkError> {
    open_log_sink(&b"/tmp/k.log".to_vec(), &stat, 1000, || tightened)
}

#[test]
fn rust_log_overrides_the_verbose_count() {
    assert_eq!(filter_directive(Some("kiosk_rs=trace"), 0), "kiosk_rs=trace");
    // Even at -vvv, an explicit RUST_LOG wins outright.
    assert_eq!(filter_directive(Some("kiosk_rs=warn"), 3), "kiosk_rs=warn");
}

#[test]
fn an_absent_or_blank_rust_log_falls_back_to_the_verbose_count() {
    assert_eq!(filter_directive(None, 0), "kiosk=info,warn");
    assert_eq!(filter_directive(None, 1), "kiosk=debug,info");
    assert_eq!(filter_directive(Some(""), 2), "kiosk=trace,debug");
    assert_eq!(filter_directive(Some("   "), 3), "trace");
}

#[test]
fn a_pre_created_log_file_is_tightened() {
    assert_eq!(LOG_FILE_MODE, 0o600);
    for mode in [0o666, 0o600, 0o644] {
        let touched = std::cell::Cell::new(0);
        let found = stat(REGULAR | mode);
        let admitted = open_log_sink(&b"/tmp/k.log".to_vec(), &found, 1000, || {
            touched.set(touched.get() + 1);
            true
        });
        assert!(admitted.is_ok());
        assert_eq!(touched.get(), 1, "{mode:o}");
    }
}

#[test]
fn a_log_path_need_not_be_text() {
    let path = b"/tmp/\xff.log".to_vec();
    let err = open_log_sink(&path, &stat(0o010600), 1000, || true).unwrap_err();
    assert_eq!(err.message(), "log file /tmp/\u{fffd}.log is not a regular file");
    match err {
        SinkError::NotRegular { path: named } => assert_eq!(named, path),
        other => panic!("{other:?}"),
    }
}

#[test]
fn a_log_file_that_cannot_be_tightened_must_be_private_already() {
    assert!(open(stat(REGULAR | 0o600), false).is_ok());
    assert!(open(stat(REGULAR | 0o700), false).is_ok());
    for mode in [0o640, 0o604, 0o666, 0o601] {
        let err = open(stat(REGULAR | mode), false).unwrap_err();
        assert!(matches!(err, SinkError::NotRestricted));
        assert_eq!(err.message(), "failed to restrict the log file's permissions");
    }
}

#[test]
fn a_hard_linked_log_file_is_refused() {
    let err = open(SinkStat { links: 2, ..stat(REGULAR | 0o600) }, true).unwrap_err();
    assert!(matches!(err, SinkError::HardLinked { .. }));
    assert!(err.message().contains("hard link"));
    assert_eq!(
        err.message(),
        "log file /tmp/k.log has 2 hard links; refusing to write a log another path can read"
    );
}

#[test]
fn a_non_regular_log_path_is_refused() {
    // Pipe, character device, directory, block device, link, socket, nothing known.
    for kind in [0o010000, 0o020000, 0o040000, 0o060000, 0o120000, 0o140000, 0, 0o110000] {
        let err = open(stat(kind | 0o600), true).unwrap_err();
        assert!(matches!(err, SinkError::NotRegular { .. }), "{kind:o}");
        assert!(err.message().contains("regular file"));
        assert_eq!(err.message(), "log file /tmp/k.log is not a regular file");
    }
}

#[test]
fn a_log_file_of_somebody_else_is_refused() {
    let err = open(SinkStat { uid: 0, ..stat(REGULAR | 0o600) }, true).unwrap_err();
    assert!(matches!(err, SinkError::ForeignOwner { .. }));
    assert_eq!(
        err.message(),
        "log file /tmp/k.log is owned by uid 0, not 1000; \
         refusing to write a log its owner can re-open"
    );
}

#[test]
fn a_refused_log_file_is_left_alone() {
    for bad in [
        stat(0o020600),
        SinkStat { links: 2, ..stat(REGULAR) },
        SinkStat { uid: 7, ..stat(REGULAR) },
    ] {
        let touched = std::cell::Cell::new(false);
        let refused = open_log_sink(&b"/tmp/k.log".to_vec(), &bad, 1000, || {
            touched.set(true);
            true
        });
        assert!(refused.is_err());
        assert!(!touched.get());
    }
}

#[test]
fn a_log_file_is_checked_before_it_is_tightened() {
    let check = |stat: SinkStat| check_log_file(&b"/tmp/k.log".to_vec(), &stat, 1000);
    // The permissions are no concern of the check: they are narrowed afterwards.
    assert!(check(stat(REGULAR | 0o666)).is_ok());
    assert!(check(stat(REGULAR | 0o600)).is_ok());
    assert!(check(SinkStat { links: 0, ..stat(REGULAR) }).is_ok());
    assert!(matches!(check(stat(0o010600)), Err(SinkError::NotRegular { .. })));
    let err = check(SinkStat { links: 3, ..stat(REGULAR) }).unwrap_err();
    assert!(matches!(err, SinkError::HardLinked { links: 3, .. }));
    let err = check(SinkStat { uid: 0, ..stat(REGULAR) }).unwrap_err();
    assert!(matches!(err, SinkError::ForeignOwner { owner: 0, user: 1000, .. }));
    // What is wrong first is what is reported.
    let err = check(SinkStat { mode: 0o020666, links: 2, uid: 0 }).unwrap_err();
    assert!(matches!(err, SinkError::NotRegular { .. }));
    let err = check(SinkStat { mode: REGULAR, links: 2, uid: 0 }).unwrap_err();
    assert!(matches!(err, SinkError::HardLinked { .. }));
}

#[test]
fn a_checked_log_file_is_settled_by_what_became_of_its_mode() {
    assert!(settle_log_file(&stat(REGULAR | 0o666), true).is_ok());
    assert!(settle_log_file(&stat(REGULAR | 0o600), false).is_ok());
    let err = settle_log_file(&stat(REGULAR | 0o620), false).unwrap_err();
    assert!(matches!(err, SinkError::NotRestricted));
}
