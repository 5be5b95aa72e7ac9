//! Lid and tablet-mode switches behind the EC.

use coachz_drivers::mkbp::{
    EcCommand, QueryError, EC_CMD_MKBP_INFO, EC_MKBP_INFO_CURRENT, EC_MKBP_INFO_SUPPORTED,
};
use coachz_drivers::mkbp_switch::{
    parse_switch_event, parse_switch_mask, query_switch_mask, PostureState, StateOutcome,
    SwitchTracker, EC_MKBP_EVENT_SWITCH, EC_MKBP_LID_OPEN, EC_MKBP_TABLET_MODE, REQUIRED_SWITCHES,
};

use std::collections::VecDeque;
use std::cell::RefCell;


#[derive(Clone, Copy, Debug, Eq, PartialEq)]
struct MockError;

struct MockEc {
    responses: RefCell<VecDeque<Result<Vec<u8>, MockError>>>,
    calls: RefCell<Vec<(u16, u8, Vec<u8>)>>,
}

impl MockEc {
    fn new(responses: impl IntoIterator<Item = Result<Vec<u8>, MockError>>) -> Self {
        Self {
            responses: RefCell::new(responses.into_iter().collect()),
            calls: RefCell::new(Vec::new()),
        }
    }
}

impl EcCommand for MockEc {
    type Error = MockError;

    fn command(
        &self,
        command: u16,
        version: u8,
        payload: &[u8],
    ) -> Result<Vec<u8>, Self::Error> {
        self.calls
            .borrow_mut()
            .push((command, version, payload.to_vec()));
        self.responses
            .borrow_mut()
            .pop_front()
            .expect("mock response exhausted")
    }
}

#[test]
fn parses_exact_little_endian_switch_mask() {
    assert_eq!(
        parse_switch_mask(&[0x03, 0x02, 0x01, 0x80]),
        Ok(0x8001_0203)
    );
    assert_eq!(
        parse_switch_mask(&[0x03, 0x02, 0x01]),
        Err(QueryError::MalformedResponse)
    );
    assert_eq!(
        parse_switch_mask(&[0x03, 0x02, 0x01, 0x00, 0xff]),
        Err(QueryError::MalformedResponse)
    );
}

#[test]
fn queries_supported_and_current_with_mkbp_switch_payload() {
    let ec = MockEc::new([Ok(vec![3, 0, 0, 0]), Ok(vec![2, 0, 0, 0])]);
    assert_eq!(
        query_switch_mask(&ec, EC_MKBP_INFO_SUPPORTED),
        Ok(REQUIRED_SWITCHES)
    );
    assert_eq!(query_switch_mask(&ec, EC_MKBP_INFO_CURRENT), Ok(2));
    assert_eq!(
        ec.calls.into_inner(),
        vec![
            (
                EC_CMD_MKBP_INFO,
                0,
                vec![EC_MKBP_INFO_SUPPORTED, EC_MKBP_EVENT_SWITCH]
            ),
            (
                EC_CMD_MKBP_INFO,
                0,
                vec![EC_MKBP_INFO_CURRENT, EC_MKBP_EVENT_SWITCH]
            ),
        ]
    );
}

#[test]
fn inverts_ec_lid_open_but_not_tablet_mode() {
    assert_eq!(
        PostureState::from_ec_switches(EC_MKBP_LID_OPEN),
        PostureState {
            lid_closed: false,
            tablet_mode: false,
        }
    );
    assert_eq!(
        PostureState::from_ec_switches(EC_MKBP_TABLET_MODE),
        PostureState {
            lid_closed: true,
            tablet_mode: true,
        }
    );
}

#[test]
fn unchanged_events_do_not_produce_changes() {
    let posture = PostureState::from_ec_switches(REQUIRED_SWITCHES);
    let mut tracker = SwitchTracker::default();
    assert_eq!(tracker.accept(posture), StateOutcome::Snapshot(posture));
    assert_eq!(tracker.accept(posture), StateOutcome::Unchanged);
}

#[test]
fn switch_events_parse_and_unrelated_events_are_ignored() {
    let initial = PostureState::from_ec_switches(EC_MKBP_LID_OPEN);
    assert_eq!(
        parse_switch_event(EC_MKBP_EVENT_SWITCH, &EC_MKBP_LID_OPEN.to_le_bytes()),
        Ok(Some(initial))
    );
    assert_eq!(parse_switch_event(1, &[0, 0, 0, 0]), Ok(None));
    assert_eq!(
        parse_switch_event(EC_MKBP_EVENT_SWITCH, &[0, 0, 0]),
        Err(QueryError::MalformedResponse)
    );
}

#[test]
fn changed_event_reports_previous_and_current_state() {
    let initial = PostureState::from_ec_switches(EC_MKBP_LID_OPEN);
    let changed = PostureState::from_ec_switches(EC_MKBP_TABLET_MODE);
    let mut tracker = SwitchTracker::default();
    assert_eq!(tracker.accept(initial), StateOutcome::Snapshot(initial));
    assert_eq!(
        tracker.accept(changed),
        StateOutcome::Changed {
            previous: initial,
            current: changed,
        }
    );
}

#[test]
fn query_surfaces_transport_errors_without_parsing() {
    let ec = MockEc::new([Err(MockError)]);
    assert_eq!(
        query_switch_mask(&ec, EC_MKBP_INFO_CURRENT),
        Err(QueryError::Transport(MockError))
    );
}
