use serial_port::com::{com_open_plan, overlapped_next, TransferAction, TransferEvent};
use serial_port::open::{open_call, Backend, OpenAction, OpenError, OpenSession, OsCall};
use serial_port::transfer::transfer_count;
use serial_port::text::{decimal_chars, parse_u8_digits};
use serial_port::tty::{baud_rate_translate, tty_open_plan, BaudRate};

#[test]
fn supported_bauds_translate() {
    assert_eq!(baud_rate_translate(9600), Some(BaudRate::B9600));
    assert_eq!(baud_rate_translate(115200), Some(BaudRate::B115200));
    assert_eq!(baud_rate_translate(230400), Some(BaudRate::B230400));
    assert_eq!(baud_rate_translate(460800), Some(BaudRate::B460800));
}

#[test]
fn unsupported_bauds_are_refused() {
    assert_eq!(baud_rate_translate(0), None);
    assert_eq!(baud_rate_translate(19200), None);
    assert_eq!(baud_rate_translate(u32::MAX), None);
}

#[test]
fn tty_plan_for_supported_baud() {
    let plan = tty_open_plan("platform-serial8250-port0", 115200, 1000).unwrap();
    assert_eq!(plan.path, "/dev/serial/by-path/platform-serial8250-port0");
    assert_eq!(plan.settings.speed, BaudRate::B115200);
    assert!(plan.settings.char_size_8);
    assert!(plan.settings.receiver_enabled);
    assert!(plan.settings.local_line);
    assert_eq!(plan.settings.min_chars, 0);
    assert_eq!(plan.settings.read_timeout_ds, 10);
}

#[test]
fn tty_plan_for_every_supported_baud() {
    for baud in [9600u32, 115200, 230400, 460800] {
        assert!(tty_open_plan("p", baud, 100).is_ok());
    }
}

#[test]
fn tty_plan_refuses_unsupported_baud() {
    let err = tty_open_plan("p", 57600, 100).unwrap_err();
    assert_eq!(err, OpenError::UnsupportedBaud { baud: 57600 });
}

#[test]
fn tty_timeout_in_deciseconds() {
    assert_eq!(tty_open_plan("p", 9600, 0).unwrap().settings.read_timeout_ds, 0);
    assert_eq!(tty_open_plan("p", 9600, 99).unwrap().settings.read_timeout_ds, 0);
    assert_eq!(tty_open_plan("p", 9600, 250).unwrap().settings.read_timeout_ds, 2);
    assert_eq!(tty_open_plan("p", 9600, 25500).unwrap().settings.read_timeout_ds, 255);
    assert_eq!(tty_open_plan("p", 9600, 25600).unwrap().settings.read_timeout_ds, 255);
    assert_eq!(tty_open_plan("p", 9600, u32::MAX).unwrap().settings.read_timeout_ds, 255);
}

#[test]
fn com_plan_path_and_settings() {
    let plan = com_open_plan(7, 57600, 300);
    assert_eq!(plan.path, "\\\\.\\COM7");
    assert_eq!(plan.settings.baud, 57600);
    assert_eq!(plan.settings.byte_size, 8);
    assert_eq!(plan.settings.read_interval_timeout, 5);
    assert_eq!(plan.settings.read_total_timeout_constant, 300);
    assert_eq!(com_open_plan(0, 9600, 0).path, "\\\\.\\COM0");
    assert_eq!(com_open_plan(255, 9600, 0).path, "\\\\.\\COM255");
    assert_eq!(com_open_plan(42, 9600, 0).path, "\\\\.\\COM42");
}

#[test]
fn decimal_spelling() {
    assert_eq!(decimal_chars(0), vec!['0']);
    assert_eq!(decimal_chars(9), vec!['9']);
    assert_eq!(decimal_chars(10), vec!['1', '0']);
    assert_eq!(decimal_chars(105), vec!['1', '0', '5']);
    assert_eq!(decimal_chars(255), vec!['2', '5', '5']);
}

#[test]
fn digit_runs() {
    let d: Vec<char> = "x0255)".chars().collect();
    assert_eq!(parse_u8_digits(&d, 1, 5), Some(255));
    assert_eq!(parse_u8_digits(&d, 1, 1), None);
    assert_eq!(parse_u8_digits(&d, 0, 5), None);
    let big: Vec<char> = "256".chars().collect();
    assert_eq!(parse_u8_digits(&big, 0, 3), None);
    let long: Vec<char> = "99999999999".chars().collect();
    assert_eq!(parse_u8_digits(&long, 0, 11), None);
}

#[test]
fn tty_session_all_calls_succeed() {
    let (mut s, first) = OpenSession::new(Backend::Tty);
    assert_eq!(first, OpenAction::Call(OsCall::Open));
    let expected = [
        OsCall::Flock,
        OsCall::Fcntl,
        OsCall::Tcgetattr,
        OsCall::Cfsetspeed,
        OsCall::Tcsetattr,
    ];
    for call in expected {
        assert_eq!(s.step(Ok(())), OpenAction::Call(call));
    }
    assert_eq!(s.step(Ok(())), OpenAction::Ready);
    assert_eq!(s.step(Ok(())), OpenAction::Ready);
}

#[test]
fn tty_session_lock_failure_releases() {
    let (mut s, _) = OpenSession::new(Backend::Tty);
    assert_eq!(s.step(Ok(())), OpenAction::Call(OsCall::Flock));
    assert_eq!(
        s.step(Err(11)),
        OpenAction::Abort { error: OpenError::Os { call: OsCall::Flock, code: 11 }, release: true }
    );
}

#[test]
fn session_open_failure_has_nothing_to_release() {
    let (mut s, _) = OpenSession::new(Backend::Tty);
    assert_eq!(
        s.step(Err(2)),
        OpenAction::Abort { error: OpenError::Os { call: OsCall::Open, code: 2 }, release: false }
    );
    let (mut c, first) = OpenSession::new(Backend::Com);
    assert_eq!(first, OpenAction::Call(OsCall::CreateFileA));
    assert_eq!(
        c.step(Err(5)),
        OpenAction::Abort { error: OpenError::Os { call: OsCall::CreateFileA, code: 5 }, release: false }
    );
}

#[test]
fn com_session_timeouts_failure() {
    let (mut s, _) = OpenSession::new(Backend::Com);
    assert_eq!(s.step(Ok(())), OpenAction::Call(OsCall::SetCommState));
    assert_eq!(s.step(Ok(())), OpenAction::Call(OsCall::SetCommTimeouts));
    assert_eq!(
        s.step(Err(87)),
        OpenAction::Abort { error: OpenError::Os { call: OsCall::SetCommTimeouts, code: 87 }, release: true }
    );
}

#[test]
fn open_call_sequences() {
    assert_eq!(open_call(Backend::Tty, 5), Some(OsCall::Tcsetattr));
    assert_eq!(open_call(Backend::Tty, 6), None);
    assert_eq!(open_call(Backend::Com, 1), Some(OsCall::SetCommState));
    assert_eq!(open_call(Backend::Com, 3), None);
}

#[test]
fn overlapped_steps() {
    let done = TransferEvent::Issued { completed: true, pending: false };
    assert_eq!(overlapped_next(done, 64, 12), TransferAction::Finish(Some(12)));
    let pending = TransferEvent::Issued { completed: false, pending: true };
    assert_eq!(overlapped_next(pending, 64, 0), TransferAction::Wait);
    let failed = TransferEvent::Issued { completed: false, pending: false };
    assert_eq!(overlapped_next(failed, 64, 0), TransferAction::Finish(None));
    assert_eq!(overlapped_next(TransferEvent::Waited { signalled: true }, 64, 0), TransferAction::Fetch);
    assert_eq!(overlapped_next(TransferEvent::Waited { signalled: false }, 64, 0), TransferAction::Finish(None));
    assert_eq!(overlapped_next(TransferEvent::Fetched { ok: true }, 64, 5), TransferAction::Finish(Some(5)));
    assert_eq!(overlapped_next(TransferEvent::Fetched { ok: false }, 64, 5), TransferAction::Finish(None));
}

#[test]
fn overlapped_read_timeout_is_empty() {
    // Pending, signalled, then a successful query that moved no byte.
    assert_eq!(
        overlapped_next(TransferEvent::Issued { completed: false, pending: true }, 64, 0),
        TransferAction::Wait
    );
    assert_eq!(overlapped_next(TransferEvent::Waited { signalled: true }, 64, 0), TransferAction::Fetch);
    assert_eq!(overlapped_next(TransferEvent::Fetched { ok: true }, 64, 0), TransferAction::Finish(None));
    let at_once = TransferEvent::Issued { completed: true, pending: false };
    assert_eq!(overlapped_next(at_once, 64, 0), TransferAction::Finish(None));
}

#[test]
fn overlapped_empty_buffer_moves_zero() {
    let at_once = TransferEvent::Issued { completed: true, pending: false };
    assert_eq!(overlapped_next(at_once, 0, 0), TransferAction::Finish(Some(0)));
}

#[test]
fn transfer_counts() {
    assert_eq!(transfer_count(64, 0), None);
    assert_eq!(transfer_count(64, 64), Some(64));
    assert_eq!(transfer_count(64, 1), Some(1));
    assert_eq!(transfer_count(0, 0), Some(0));
}
