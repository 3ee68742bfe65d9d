use codex_titlebar_meter::locale::AppLocale;
use codex_titlebar_meter::model::{UsageSnapshot, UsageStatus};
use codex_titlebar_meter::worker::{
    codex_package_candidates, WorkerAction, WorkerEvent, WorkerState, COOLDOWN_POLL_MS,
    IDLE_POLL_MS,
};

fn poll(codex_active: bool, retry_elapsed: bool) -> WorkerEvent {
    WorkerEvent::Poll { codex_active, retry_elapsed }
}

#[test]
fn worker_waits_for_codex_then_starts_a_session() {
    let mut state = WorkerState::WaitingForCodex;
    assert_eq!(state.on_event(poll(false, false)), WorkerAction::Sleep(IDLE_POLL_MS));
    assert_eq!(state, WorkerState::WaitingForCodex);
    assert_eq!(
        state.on_event(poll(true, false)),
        WorkerAction::StartSession(UsageSnapshot::connecting())
    );
    assert_eq!(state, WorkerState::Reading);
}

#[test]
fn failed_session_publishes_retry_status_while_codex_is_active() {
    let mut state = WorkerState::Reading;
    let action = state.on_event(WorkerEvent::SessionEnded { failed: true, codex_active: true });
    let expected = UsageSnapshot::error(AppLocale::Chinese.status_text(UsageStatus::Retrying));
    assert_eq!(action, WorkerAction::Publish(expected));
    assert_eq!(state, WorkerState::CoolingDown);

    let mut gone = WorkerState::Reading;
    assert_eq!(
        gone.on_event(WorkerEvent::SessionEnded { failed: true, codex_active: false }),
        WorkerAction::Proceed
    );
    let mut fine = WorkerState::Reading;
    assert_eq!(
        fine.on_event(WorkerEvent::SessionEnded { failed: false, codex_active: true }),
        WorkerAction::Proceed
    );
    assert_eq!(fine, WorkerState::CoolingDown);
}

#[test]
fn cooldown_lasts_while_codex_is_active_and_the_delay_runs() {
    let mut state = WorkerState::CoolingDown;
    assert_eq!(state.on_event(poll(true, false)), WorkerAction::Sleep(COOLDOWN_POLL_MS));
    assert_eq!(state, WorkerState::CoolingDown);
    assert_eq!(state.on_event(poll(true, true)), WorkerAction::Proceed);
    assert_eq!(state, WorkerState::WaitingForCodex);
    let mut closed = WorkerState::CoolingDown;
    assert_eq!(closed.on_event(poll(false, false)), WorkerAction::Proceed);
    assert_eq!(closed, WorkerState::WaitingForCodex);
}

#[test]
fn unexpected_events_change_nothing() {
    let mut state = WorkerState::WaitingForCodex;
    assert_eq!(
        state.on_event(WorkerEvent::SessionEnded { failed: true, codex_active: true }),
        WorkerAction::Proceed
    );
    assert_eq!(state, WorkerState::WaitingForCodex);
    let mut reading = WorkerState::Reading;
    assert_eq!(reading.on_event(poll(true, true)), WorkerAction::Proceed);
    assert_eq!(reading, WorkerState::Reading);
}

#[test]
fn codex_packages_are_tried_in_descending_name_order() {
    let names: Vec<String> = [
        "Microsoft.Paint_11.0",
        "OpenAI.Codex_26.1.0.0_x64__abc",
        "OpenAI.Codex_26.10.0.0_x64__abc",
        "OpenAI.Codex",
        "OpenAI.Codex_25.9.0.0_x64__abc",
        "openai.codex_99",
    ]
    .iter()
    .map(|s| s.to_string())
    .collect();
    assert_eq!(
        codex_package_candidates(&names),
        vec![
            "OpenAI.Codex_26.10.0.0_x64__abc".to_string(),
            "OpenAI.Codex_26.1.0.0_x64__abc".to_string(),
            "OpenAI.Codex_25.9.0.0_x64__abc".to_string(),
        ]
    );
    assert!(codex_package_candidates(&Vec::new()).is_empty());
}

#[test]
fn a_run_publishes_only_while_codex_is_active() {
    let mut state = WorkerState::WaitingForCodex;
    let events = [
        poll(false, false),
        poll(true, false),
        WorkerEvent::SessionEnded { failed: true, codex_active: false },
        poll(false, false),
        poll(false, false),
        poll(true, false),
        WorkerEvent::SessionEnded { failed: true, codex_active: true },
        poll(true, false),
        poll(true, true),
    ];
    let mut published = Vec::new();
    for event in events {
        let active = match event {
            WorkerEvent::Poll { codex_active, .. } => codex_active,
            WorkerEvent::SessionEnded { codex_active, .. } => codex_active,
        };
        match state.on_event(event) {
            WorkerAction::StartSession(s) | WorkerAction::Publish(s) => {
                assert!(active);
                published.push(s);
            }
            _ => {}
        }
    }
    assert_eq!(published.len(), 3);
    assert_eq!(published[0], UsageSnapshot::connecting());
    assert_eq!(published[1], UsageSnapshot::connecting());
    assert_eq!(state, WorkerState::WaitingForCodex);
}
