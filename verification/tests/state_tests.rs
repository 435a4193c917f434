use cgrep::state::advance;
use cgrep::state::RunEvent;
use cgrep::state::RunState;

#[test]
fn a_run_passes_through_its_phases_in_order() {
    let s = RunState::Discovering;
    let s = advance(s, RunEvent::SubmittedAll);
    assert_eq!(s, RunState::Scanning);
    let s = advance(s, RunEvent::QueueDrained);
    assert_eq!(s, RunState::Draining);
    let s = advance(s, RunEvent::WorkersJoined);
    assert_eq!(s, RunState::Done);
}

#[test]
fn out_of_turn_events_change_nothing() {
    assert_eq!(advance(RunState::Discovering, RunEvent::QueueDrained), RunState::Discovering);
    assert_eq!(advance(RunState::Discovering, RunEvent::WorkersJoined), RunState::Discovering);
    assert_eq!(advance(RunState::Scanning, RunEvent::SubmittedAll), RunState::Scanning);
    assert_eq!(advance(RunState::Draining, RunEvent::SubmittedAll), RunState::Draining);
}

#[test]
fn done_is_terminal() {
    assert_eq!(advance(RunState::Done, RunEvent::SubmittedAll), RunState::Done);
    assert_eq!(advance(RunState::Done, RunEvent::QueueDrained), RunState::Done);
    assert_eq!(advance(RunState::Done, RunEvent::WorkersJoined), RunState::Done);
}
