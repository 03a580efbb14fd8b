use system_properties::error::PropertyWatcherError;
use system_properties::store::PropertyHandle;
use system_properties::store::RawProperty;
use system_properties::store::ReadReport;
use system_properties::store::StoreReply;
use system_properties::store::StoreRequest;
use system_properties::store::Timespec;
use system_properties::watcher::PropertyWatcher;
use system_properties::watcher::Step;

const SECOND: u128 = 1_000_000_000;
const HANDLE: PropertyHandle = PropertyHandle { token: 0x7f00 };

fn holding(value: &str) -> StoreReply {
    StoreReply::Read(ReadReport::Called(RawProperty {
        name: Some(b"sys.state".to_vec()),
        value: Some(value.as_bytes().to_vec()),
    }))
}

fn request(step: Step) -> StoreRequest {
    match step {
        Step::Call(request) => request,
        other => panic!("no request but {:?}", other),
    }
}

fn resolved() -> PropertyWatcher {
    let mut w = PropertyWatcher::new("sys.state").unwrap();
    assert_eq!(request(w.read()), StoreRequest::Find);
    assert_eq!(
        request(w.resume(StoreReply::Found(Some(HANDLE)), 0)),
        StoreRequest::Read(HANDLE)
    );
    assert!(matches!(w.resume(holding("booting"), 0), Step::Value { .. }));
    w
}

#[test]
fn new_watcher_has_seen_nothing() {
    let w = PropertyWatcher::new("keystore.boot_level").unwrap();
    assert_eq!(w.name(), "keystore.boot_level");
    assert_eq!(w.serial(), 0);
    assert_eq!(w.handle(), None);
}

#[test]
fn new_refuses_a_name_with_nul() {
    assert!(matches!(PropertyWatcher::new("bad\0name"), Err(PropertyWatcherError::BadNameError)));
    assert!(matches!(PropertyWatcher::new("\0"), Err(PropertyWatcherError::BadNameError)));
    assert!(PropertyWatcher::new("").is_ok());
}

#[test]
fn read_finds_then_reads() {
    let mut w = PropertyWatcher::new("sys.state").unwrap();
    assert_eq!(request(w.read()), StoreRequest::Find);
    assert!(w.awaits(&StoreReply::Found(None)));
    assert!(!w.awaits(&holding("x")));
    let step = w.resume(StoreReply::Found(Some(HANDLE)), 0);
    assert_eq!(request(step), StoreRequest::Read(HANDLE));
    assert_eq!(w.handle(), Some(HANDLE));
    match w.resume(holding("running"), 0) {
        Step::Value { name, value } => {
            assert_eq!(name, "sys.state");
            assert_eq!(value, "running");
        }
        other => panic!("unexpected {:?}", other),
    }
    assert_eq!(w.serial(), 0);
}

#[test]
fn read_of_an_absent_property() {
    let mut w = PropertyWatcher::new("sys.state").unwrap();
    assert_eq!(request(w.read()), StoreRequest::Find);
    assert!(matches!(
        w.resume(StoreReply::Found(None), 0),
        Step::Done(Err(PropertyWatcherError::SystemPropertyAbsent))
    ));
    assert_eq!(w.handle(), None);
    // The next read asks the store again.
    assert_eq!(request(w.read()), StoreRequest::Find);
}

#[test]
fn read_uses_the_handle_it_has() {
    let mut w = resolved();
    assert_eq!(request(w.read()), StoreRequest::Read(HANDLE));
    assert!(matches!(w.resume(holding(""), 0), Step::Value { .. }));
    assert_eq!(request(w.read()), StoreRequest::Read(HANDLE));
}

#[test]
fn read_errors() {
    let mut w = resolved();
    let _ = w.read();
    assert!(matches!(
        w.resume(StoreReply::Read(ReadReport::NotCalled), 0),
        Step::Done(Err(PropertyWatcherError::ReadCallbackNotCalled))
    ));
    let _ = w.read();
    let missing = ReadReport::Called(RawProperty { name: Some(b"sys.state".to_vec()), value: None });
    assert!(matches!(
        w.resume(StoreReply::Read(missing), 0),
        Step::Done(Err(PropertyWatcherError::MissingCString))
    ));
    let _ = w.read();
    let bad = ReadReport::Called(RawProperty {
        name: Some(b"sys.state".to_vec()),
        value: Some(vec![0xF8]),
    });
    assert!(matches!(
        w.resume(StoreReply::Read(bad), 0),
        Step::Done(Err(PropertyWatcherError::BadCString))
    ));
}

#[test]
fn wait_passes_the_last_serial_and_keeps_the_new_one() {
    let mut w = resolved();
    let step = w.wait(None, 10);
    assert_eq!(
        request(step),
        StoreRequest::Wait { handle: Some(HANDLE), serial: 0, timeout: None }
    );
    assert!(w.awaits(&StoreReply::Waited { serial: 1, changed: true }));
    assert!(matches!(
        w.resume(StoreReply::Waited { serial: 6, changed: true }, 20),
        Step::Done(Ok(()))
    ));
    assert_eq!(w.serial(), 6);
    assert_ne!(w.serial(), 0);
    let step = w.wait(None, 30);
    assert_eq!(
        request(step),
        StoreRequest::Wait { handle: Some(HANDLE), serial: 6, timeout: None }
    );
    assert!(matches!(
        w.resume(StoreReply::Waited { serial: 8, changed: true }, 40),
        Step::Done(Ok(()))
    ));
    assert_eq!(w.serial(), 8);
}

#[test]
fn wait_that_times_out_keeps_the_serial() {
    let mut w = resolved();
    let _ = w.wait(None, 0);
    let _ = w.resume(StoreReply::Waited { serial: 4, changed: true }, 1);
    let step = w.wait(Some(2 * SECOND), 100);
    assert_eq!(
        request(step),
        StoreRequest::Wait {
            handle: Some(HANDLE),
            serial: 4,
            timeout: Some(Timespec { tv_sec: 2, tv_nsec: 0 }),
        }
    );
    assert!(matches!(
        w.resume(StoreReply::Waited { serial: 4, changed: false }, 100 + 2 * SECOND),
        Step::Done(Err(PropertyWatcherError::WaitFailed))
    ));
    assert_eq!(w.serial(), 4);
    assert_eq!(w.handle(), Some(HANDLE));
}

#[test]
fn wait_for_creation_watches_the_global_serial() {
    let mut w = PropertyWatcher::new("sys.state").unwrap();
    assert_eq!(request(w.wait(Some(5 * SECOND), 1_000)), StoreRequest::Find);
    let step = w.resume(StoreReply::Found(None), 1_000);
    assert_eq!(
        request(step),
        StoreRequest::Wait {
            handle: None,
            serial: 0,
            timeout: Some(Timespec { tv_sec: 5, tv_nsec: 0 }),
        }
    );
    // Some other property changed: look again, then wait from the serial seen.
    let step = w.resume(StoreReply::Waited { serial: 41, changed: true }, 1_000 + SECOND);
    assert_eq!(request(step), StoreRequest::Find);
    let step = w.resume(StoreReply::Found(None), 1_000 + SECOND);
    assert_eq!(
        request(step),
        StoreRequest::Wait {
            handle: None,
            serial: 41,
            timeout: Some(Timespec { tv_sec: 4, tv_nsec: 0 }),
        }
    );
    let step = w.resume(StoreReply::Waited { serial: 42, changed: true }, 1_000 + 3 * SECOND + 7);
    assert_eq!(request(step), StoreRequest::Find);
    assert!(matches!(w.resume(StoreReply::Found(Some(HANDLE)), 0), Step::Done(Ok(()))));
    // Creation records no serial.
    assert_eq!(w.serial(), 0);
    assert_eq!(w.handle(), Some(HANDLE));
    // The next wait is on the property itself.
    assert_eq!(
        request(w.wait(None, 0)),
        StoreRequest::Wait { handle: Some(HANDLE), serial: 0, timeout: None }
    );
}

#[test]
fn wait_for_creation_times_out() {
    let mut w = PropertyWatcher::new("sys.state").unwrap();
    let _ = w.wait(Some(SECOND), 0);
    let _ = w.resume(StoreReply::Found(None), 0);
    assert!(matches!(
        w.resume(StoreReply::Waited { serial: 0, changed: false }, SECOND),
        Step::Done(Err(PropertyWatcherError::WaitFailed))
    ));
    assert_eq!(w.handle(), None);
}

#[test]
fn retries_share_one_deadline() {
    let mut w = PropertyWatcher::new("sys.state").unwrap();
    let _ = w.wait_for_value("done", Some(10 * SECOND), 50);
    let step = w.resume(StoreReply::Found(None), 50 + 9 * SECOND);
    assert_eq!(
        request(step),
        StoreRequest::Wait {
            handle: None,
            serial: 0,
            timeout: Some(Timespec { tv_sec: 1, tv_nsec: 0 }),
        }
    );
    let _ = w.resume(StoreReply::Waited { serial: 3, changed: true }, 50 + 10 * SECOND - 5);
    let step = w.resume(StoreReply::Found(None), 50 + 10 * SECOND - 5);
    assert_eq!(
        request(step),
        StoreRequest::Wait {
            handle: None,
            serial: 3,
            timeout: Some(Timespec { tv_sec: 0, tv_nsec: 5 }),
        }
    );
    let _ = w.resume(StoreReply::Waited { serial: 4, changed: true }, 50 + 20 * SECOND);
    let step = w.resume(StoreReply::Found(None), 50 + 20 * SECOND);
    assert_eq!(
        request(step),
        StoreRequest::Wait {
            handle: None,
            serial: 4,
            timeout: Some(Timespec { tv_sec: 0, tv_nsec: 0 }),
        }
    );
}

#[test]
fn wait_for_value_already_there() {
    let mut w = resolved();
    let step = w.wait_for_value("running", Some(SECOND), 0);
    assert_eq!(request(step), StoreRequest::Read(HANDLE));
    assert!(matches!(w.resume(holding("running"), 1), Step::Done(Ok(()))));
    assert_eq!(w.serial(), 0);
}

#[test]
fn wait_for_value_reads_after_each_change() {
    let mut w = PropertyWatcher::new("sys.state").unwrap();
    assert_eq!(request(w.wait_for_value("running", None, 0)), StoreRequest::Find);
    assert_eq!(
        request(w.resume(StoreReply::Found(Some(HANDLE)), 1)),
        StoreRequest::Read(HANDLE)
    );
    assert_eq!(
        request(w.resume(holding("booting"), 2)),
        StoreRequest::Wait { handle: Some(HANDLE), serial: 0, timeout: None }
    );
    assert_eq!(
        request(w.resume(StoreReply::Waited { serial: 2, changed: true }, 3)),
        StoreRequest::Read(HANDLE)
    );
    assert_eq!(
        request(w.resume(holding("starting"), 4)),
        StoreRequest::Wait { handle: Some(HANDLE), serial: 2, timeout: None }
    );
    assert_eq!(
        request(w.resume(StoreReply::Waited { serial: 3, changed: true }, 5)),
        StoreRequest::Read(HANDLE)
    );
    assert!(matches!(w.resume(holding("running"), 6), Step::Done(Ok(()))));
    assert_eq!(w.serial(), 3);
}

#[test]
fn wait_for_value_times_out() {
    let mut w = resolved();
    let _ = w.wait_for_value("running", Some(3 * SECOND), 0);
    let step = w.resume(holding("booting"), SECOND);
    assert_eq!(
        request(step),
        StoreRequest::Wait {
            handle: Some(HANDLE),
            serial: 0,
            timeout: Some(Timespec { tv_sec: 2, tv_nsec: 0 }),
        }
    );
    assert!(matches!(
        w.resume(StoreReply::Waited { serial: 0, changed: false }, 3 * SECOND),
        Step::Done(Err(PropertyWatcherError::WaitFailed))
    ));
}

#[test]
fn wait_for_value_passes_read_errors_on() {
    let mut w = resolved();
    let _ = w.wait_for_value("running", None, 0);
    assert!(matches!(
        w.resume(StoreReply::Read(ReadReport::NotCalled), 0),
        Step::Done(Err(PropertyWatcherError::ReadCallbackNotCalled))
    ));
    let _ = w.wait_for_value("running", None, 0);
    let bad = ReadReport::Called(RawProperty { name: Some(b"n".to_vec()), value: Some(vec![0xFF]) });
    assert!(matches!(
        w.resume(StoreReply::Read(bad), 0),
        Step::Done(Err(PropertyWatcherError::BadCString))
    ));
}

#[test]
fn wait_for_empty_value() {
    let mut w = resolved();
    let _ = w.wait_for_value("", None, 0);
    assert!(matches!(w.resume(holding(""), 0), Step::Done(Ok(()))));
    let _ = w.wait_for_value("", None, 0);
    assert!(matches!(w.resume(holding(" "), 0), Step::Call(StoreRequest::Wait { .. })));
}
