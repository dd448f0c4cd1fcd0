use devtoggle::identifier::{fetch_capacity, identifier_matches};
use devtoggle::request::{change_request, parse_action, DesiredState};
use devtoggle::session::{Action, DeviceError, Event, Session};

struct Stub {
    open_ok: bool,
    ids: Vec<Option<Vec<u16>>>,
    stage_ok: bool,
    commit_ok: bool,
}

fn wide(s: &str) -> Vec<u16> {
    s.encode_utf16().collect()
}

fn answer(stub: &Stub, action: Action) -> Event {
    match action {
        Action::OpenSet => Event::Opened { ok: stub.open_ok },
        Action::EnumEntry { index } => {
            if (index as usize) < stub.ids.len() {
                Event::EntryFound
            } else {
                Event::NoMoreEntries
            }
        }
        Action::QueryIdSize { index } => Event::IdSize {
            reported: stub.ids[index as usize].as_ref().map(|id| id.len() as u32),
        },
        Action::FetchId { index, capacity } => Event::IdFetched {
            buffer: stub.ids[index as usize].as_ref().map(|id| {
                let mut b = id.clone();
                b.resize(capacity as usize, 0);
                b
            }),
        },
        Action::Stage { .. } => Event::Staged { ok: stub.stage_ok },
        Action::Commit { .. } => Event::Committed { ok: stub.commit_ok },
        Action::CloseSet => Event::Closed,
        Action::Finish { .. } => Event::Closed,
    }
}

fn execute(stub: &Stub, target: &str, desired: DesiredState) -> (Result<(), DeviceError>, Vec<Action>) {
    let (mut session, mut action) = Session::start(wide(target), desired);
    let mut log = Vec::new();
    loop {
        log.push(action);
        if let Action::Finish { outcome } = action {
            assert_eq!(session.outcome(), Some(outcome));
            return (outcome, log);
        }
        assert!(log.len() < 10_000);
        action = session.step(answer(stub, action));
    }
}

fn count(log: &[Action], pick: fn(&Action) -> bool) -> usize {
    log.iter().filter(|a| pick(a)).count()
}

fn is_stage(a: &Action) -> bool {
    matches!(a, Action::Stage { .. })
}

fn is_commit(a: &Action) -> bool {
    matches!(a, Action::Commit { .. })
}

fn is_close(a: &Action) -> bool {
    matches!(a, Action::CloseSet)
}

fn stages(log: &[Action]) -> Vec<(u32, u32, u32, u32, u32)> {
    log.iter()
        .filter_map(|a| match a {
            Action::Stage { index, request } => Some((
                *index,
                request.install_function,
                request.state_change,
                request.scope,
                request.hw_profile,
            )),
            _ => None,
        })
        .collect()
}

fn present(ids: &[&str]) -> Vec<Option<Vec<u16>>> {
    ids.iter().map(|s| Some(wide(s))).collect()
}

const USB: &str = "USB\\VID_1234&PID_5678\\6&abc";

#[test]
fn disable_present_device_stages_once_globally() {
    let stub = Stub {
        open_ok: true,
        ids: present(&["ROOT\\SYSTEM\\0000", USB, "PCI\\VEN_8086&DEV_1234\\3&11"]),
        stage_ok: true,
        commit_ok: true,
    };
    let (outcome, log) = execute(&stub, USB, DesiredState::Disable);
    assert_eq!(outcome, Ok(()));
    assert_eq!(stages(&log), vec![(1, 0x12, 2, 1, 0)]);
    assert_eq!(count(&log, is_commit), 1);
    assert_eq!(count(&log, is_close), 1);
}

#[test]
fn unrecognized_action_token_is_rejected() {
    assert_eq!(parse_action(b"/frobnicate"), None);
    assert_eq!(parse_action(b"/Disable"), None);
    assert_eq!(parse_action(b"/disable "), None);
    assert_eq!(parse_action(b""), None);
    assert_eq!(parse_action(b"/disable"), Some(DesiredState::Disable));
    assert_eq!(parse_action(b"/enable"), Some(DesiredState::Enable));
}

#[test]
fn empty_device_set_is_not_found_and_released_once() {
    let stub = Stub { open_ok: true, ids: vec![], stage_ok: true, commit_ok: true };
    let (outcome, log) = execute(&stub, USB, DesiredState::Enable);
    assert_eq!(outcome, Err(DeviceError::DeviceNotFound));
    assert_eq!(count(&log, is_close), 1);
    assert_eq!(count(&log, is_stage), 0);
}

#[test]
fn repeated_requests_on_present_device_succeed() {
    let stub = Stub { open_ok: true, ids: present(&[USB]), stage_ok: true, commit_ok: true };
    for desired in [DesiredState::Disable, DesiredState::Enable, DesiredState::Enable, DesiredState::Disable] {
        let (outcome, log) = execute(&stub, USB, desired);
        assert_eq!(outcome, Ok(()));
        let code = if desired == DesiredState::Enable { 1 } else { 2 };
        assert_eq!(stages(&log), vec![(0, 0x12, code, 1, 0)]);
    }
}

#[test]
fn absent_device_submits_nothing() {
    let stub = Stub {
        open_ok: true,
        ids: present(&["ROOT\\SYSTEM\\0000", "usb\\vid_1234&pid_5678\\6&abc"]),
        stage_ok: true,
        commit_ok: true,
    };
    let (outcome, log) = execute(&stub, USB, DesiredState::Disable);
    assert_eq!(outcome, Err(DeviceError::DeviceNotFound));
    assert_eq!(count(&log, is_stage), 0);
    assert_eq!(count(&log, is_commit), 0);
    assert_eq!(count(&log, is_close), 1);
}

#[test]
fn duplicate_identifier_acts_on_first_only() {
    let stub = Stub {
        open_ok: true,
        ids: present(&["ROOT\\A", USB, "ROOT\\B", USB, "ROOT\\C"]),
        stage_ok: true,
        commit_ok: true,
    };
    let (outcome, log) = execute(&stub, USB, DesiredState::Disable);
    assert_eq!(outcome, Ok(()));
    assert_eq!(stages(&log), vec![(1, 0x12, 2, 1, 0)]);
    for a in &log {
        if let Action::EnumEntry { index } = a {
            assert!(*index <= 1);
        }
    }
}

#[test]
fn unresolved_entry_is_skipped() {
    let mut ids = present(&["ROOT\\A"]);
    ids.push(None);
    ids.push(Some(wide(USB)));
    let stub = Stub { open_ok: true, ids, stage_ok: true, commit_ok: true };
    let (outcome, log) = execute(&stub, USB, DesiredState::Enable);
    assert_eq!(outcome, Ok(()));
    assert_eq!(stages(&log), vec![(2, 0x12, 1, 1, 0)]);
}

#[test]
fn failed_stage_is_never_committed() {
    let stub = Stub { open_ok: true, ids: present(&[USB]), stage_ok: false, commit_ok: true };
    let (outcome, log) = execute(&stub, USB, DesiredState::Disable);
    assert_eq!(outcome, Err(DeviceError::StageFailed));
    assert_eq!(count(&log, is_stage), 1);
    assert_eq!(count(&log, is_commit), 0);
    assert_eq!(count(&log, is_close), 1);
}

#[test]
fn failed_commit_is_reported_and_set_released() {
    let stub = Stub { open_ok: true, ids: present(&[USB]), stage_ok: true, commit_ok: false };
    let (outcome, log) = execute(&stub, USB, DesiredState::Disable);
    assert_eq!(outcome, Err(DeviceError::CommitFailed));
    assert_eq!(count(&log, is_commit), 1);
    assert_eq!(count(&log, is_close), 1);
}

#[test]
fn unavailable_registry_is_never_released() {
    let stub = Stub { open_ok: false, ids: present(&[USB]), stage_ok: true, commit_ok: true };
    let (outcome, log) = execute(&stub, USB, DesiredState::Disable);
    assert_eq!(outcome, Err(DeviceError::RegistryUnavailable));
    assert_eq!(log.len(), 2);
    assert_eq!(count(&log, is_close), 0);
}

#[test]
fn failed_size_query_skips_entry() {
    let (mut session, first) = Session::start(wide(USB), DesiredState::Disable);
    assert!(matches!(first, Action::OpenSet));
    assert!(matches!(session.step(Event::Opened { ok: true }), Action::EnumEntry { index: 0 }));
    assert!(matches!(session.step(Event::EntryFound), Action::QueryIdSize { index: 0 }));
    assert!(matches!(session.step(Event::IdSize { reported: None }), Action::EnumEntry { index: 1 }));
}

#[test]
fn fetch_buffer_has_terminator_headroom() {
    let (mut session, _) = Session::start(wide(USB), DesiredState::Disable);
    session.step(Event::Opened { ok: true });
    session.step(Event::EntryFound);
    let action = session.step(Event::IdSize { reported: Some(27) });
    assert!(matches!(action, Action::FetchId { index: 0, capacity: 28 }));
}

#[test]
fn unanswered_event_repeats_pending_action() {
    let (mut session, _) = Session::start(wide(USB), DesiredState::Disable);
    assert!(matches!(session.step(Event::Closed), Action::OpenSet));
    session.step(Event::Opened { ok: true });
    assert!(matches!(session.step(Event::Staged { ok: true }), Action::EnumEntry { index: 0 }));
    assert_eq!(session.outcome(), None);
}

#[test]
fn unterminated_buffer_does_not_match() {
    let target = wide("ABC");
    assert!(identifier_matches(&wide("ABC\0"), 3, &target));
    assert!(!identifier_matches(&wide("ABC"), 3, &target));
    assert!(!identifier_matches(&wide("ABCD"), 3, &target));
    assert!(!identifier_matches(&wide("ABC\0\0"), 3, &target));
    assert!(!identifier_matches(&wide("abc\0"), 3, &target));
    assert!(!identifier_matches(&wide("AB\0"), 2, &target));
}

#[test]
fn capacity_adds_one_unit() {
    assert_eq!(fetch_capacity(0), Some(1));
    assert_eq!(fetch_capacity(27), Some(28));
    assert_eq!(fetch_capacity(u32::MAX - 1), Some(u32::MAX));
    assert_eq!(fetch_capacity(u32::MAX), None);
}

#[test]
fn change_request_fields() {
    let r = change_request(DesiredState::Enable);
    assert_eq!((r.install_function, r.state_change, r.scope, r.hw_profile), (0x12, 1, 1, 0));
    let r = change_request(DesiredState::Disable);
    assert_eq!((r.install_function, r.state_change, r.scope, r.hw_profile), (0x12, 2, 1, 0));
    assert_eq!(DesiredState::Disable.code(), 2);
}
