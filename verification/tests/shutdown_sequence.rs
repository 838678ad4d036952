use rental_ledger::dispatch::{dispatch, Command, Reply};
use rental_ledger::ledger::Ledger;
use rental_ledger::persist::{decode, encode};
use rental_ledger::shutdown::{Action, Coordinator, Event, Phase};

#[test]
fn a_new_coordinator_is_running() {
    let coordinator = Coordinator::new();
    assert_eq!(coordinator.phase(), Phase::Running);
    assert_eq!(coordinator.in_flight(), 0);
}

#[test]
fn commands_are_admitted_while_running() {
    let mut coordinator = Coordinator::new();
    assert_eq!(coordinator.step(Event::Arrival), Action::Admit);
    assert_eq!(coordinator.step(Event::Arrival), Action::Admit);
    assert_eq!(coordinator.in_flight(), 2);
    assert_eq!(coordinator.step(Event::Completion), Action::Proceed);
    assert_eq!(coordinator.in_flight(), 1);
    assert_eq!(coordinator.phase(), Phase::Running);
}

#[test]
fn a_completion_with_nothing_in_flight_changes_nothing() {
    let mut coordinator = Coordinator::new();
    assert_eq!(coordinator.step(Event::Completion), Action::Proceed);
    assert_eq!(coordinator.in_flight(), 0);
    assert_eq!(coordinator.phase(), Phase::Running);
}

#[test]
fn the_signal_starts_draining_and_stops_admission() {
    let mut coordinator = Coordinator::new();
    assert_eq!(coordinator.step(Event::Arrival), Action::Admit);
    assert_eq!(coordinator.step(Event::Signal), Action::StopIntake);
    assert_eq!(coordinator.phase(), Phase::Draining);
    assert_eq!(coordinator.step(Event::Arrival), Action::Refuse);
    assert_eq!(coordinator.in_flight(), 1);
}

#[test]
fn the_flush_waits_for_commands_in_flight() {
    let mut coordinator = Coordinator::new();
    coordinator.step(Event::Arrival);
    coordinator.step(Event::Arrival);
    coordinator.step(Event::Signal);
    assert_eq!(coordinator.step(Event::DrainCheck), Action::Wait);
    assert_eq!(coordinator.step(Event::Completion), Action::Proceed);
    assert_eq!(coordinator.step(Event::DrainCheck), Action::Wait);
    assert_eq!(coordinator.phase(), Phase::Draining);
    assert_eq!(coordinator.step(Event::Completion), Action::Proceed);
    assert_eq!(coordinator.step(Event::DrainCheck), Action::Flush);
    assert_eq!(coordinator.phase(), Phase::Flushing);
}

#[test]
fn the_process_exits_when_the_save_has_ended() {
    let mut well = Coordinator::new();
    well.step(Event::Signal);
    well.step(Event::DrainCheck);
    assert_eq!(well.step(Event::Saved), Action::Exit);
    assert_eq!(well.phase(), Phase::Terminated);

    let mut badly = Coordinator::new();
    badly.step(Event::Signal);
    badly.step(Event::DrainCheck);
    assert_eq!(badly.step(Event::SaveFailed), Action::ReportFailureAndExit);
    assert_eq!(badly.phase(), Phase::Terminated);
}

#[test]
fn events_out_of_turn_change_nothing() {
    let mut coordinator = Coordinator::new();
    assert_eq!(coordinator.step(Event::DrainCheck), Action::Proceed);
    assert_eq!(coordinator.step(Event::Saved), Action::Proceed);
    assert_eq!(coordinator.step(Event::SaveFailed), Action::Proceed);
    assert_eq!(coordinator.phase(), Phase::Running);
    coordinator.step(Event::Signal);
    assert_eq!(coordinator.step(Event::Signal), Action::Proceed);
    assert_eq!(coordinator.step(Event::Saved), Action::Proceed);
    assert_eq!(coordinator.phase(), Phase::Draining);
    coordinator.step(Event::DrainCheck);
    assert_eq!(coordinator.step(Event::DrainCheck), Action::Proceed);
    assert_eq!(coordinator.step(Event::Signal), Action::Proceed);
    assert_eq!(coordinator.phase(), Phase::Flushing);
}

#[test]
fn terminated_is_final() {
    let mut coordinator = Coordinator::new();
    coordinator.step(Event::Signal);
    coordinator.step(Event::DrainCheck);
    coordinator.step(Event::Saved);
    for event in [
        Event::Arrival,
        Event::Completion,
        Event::Signal,
        Event::DrainCheck,
        Event::Saved,
        Event::SaveFailed,
    ] {
        let action = coordinator.step(event);
        assert!(action == Action::Proceed || action == Action::Refuse);
        assert_eq!(coordinator.phase(), Phase::Terminated);
        assert_eq!(coordinator.in_flight(), 0);
    }
}

#[test]
fn a_borrow_before_shutdown_is_in_the_saved_text() {
    let mut ledger = Ledger::new();
    let mut coordinator = Coordinator::new();
    let mut durable = encode(&ledger).unwrap();

    assert_eq!(coordinator.step(Event::Arrival), Action::Admit);
    let reply = dispatch(&mut ledger, Command::Borrow, "u", &vec!["x".to_string()]);
    assert_eq!(reply, Reply::Added);
    assert_eq!(coordinator.step(Event::Completion), Action::Proceed);

    assert_eq!(coordinator.step(Event::Signal), Action::StopIntake);
    assert_eq!(coordinator.step(Event::Arrival), Action::Refuse);
    assert_eq!(coordinator.step(Event::DrainCheck), Action::Flush);
    let outcome = match encode(&ledger) {
        Ok(text) => {
            durable = text;
            Event::Saved
        }
        Err(_) => Event::SaveFailed,
    };
    assert_eq!(coordinator.step(outcome), Action::Exit);

    let reopened = decode(&durable).unwrap();
    assert_eq!(reopened.list("u").unwrap().last(), Some(&"x".to_string()));
    assert!(durable.contains("\"x\""));
}
