//! Power and volume buttons behind the EC.

use coachz_drivers::mkbp::{EcCommand, QueryError, EC_CMD_MKBP_INFO, EC_MKBP_INFO_SUPPORTED};
use coachz_drivers::mkbp_button::{
    frame_for_outcome, known_supported_buttons, parse_button_event, query_supported_buttons, Button,
    ButtonFrame, ButtonTracker, KeyTransition, EC_MKBP_EVENT_BUTTON, EC_MKBP_POWER_BUTTON,
    EC_MKBP_VOL_DOWN, EC_MKBP_VOL_UP,
};

use std::cell::RefCell;

#[derive(Default)]
struct FakeEc {
    requests: RefCell<Vec<(u16, u8, Vec<u8>)>>,
    response: Vec<u8>,
}

impl EcCommand for FakeEc {
    type Error = ();

    fn command(
        &self,
        command: u16,
        version: u8,
        payload: &[u8],
    ) -> Result<Vec<u8>, Self::Error> {
        self.requests
            .borrow_mut()
            .push((command, version, payload.into()));
        Ok(self.response.clone())
    }
}

#[test]
fn parses_exact_little_endian_button_payload() {
    assert_eq!(
        parse_button_event(EC_MKBP_EVENT_BUTTON, &[0x05, 0, 0, 0]),
        Ok(Some(EC_MKBP_POWER_BUTTON | EC_MKBP_VOL_DOWN))
    );
    assert_eq!(
        parse_button_event(EC_MKBP_EVENT_BUTTON, &[0; 3]),
        Err(QueryError::MalformedResponse)
    );
    assert_eq!(
        parse_button_event(EC_MKBP_EVENT_BUTTON, &[0; 5]),
        Err(QueryError::MalformedResponse)
    );
}

#[test]
fn supported_query_uses_mkbp_info_v0_button_payload() {
    let ec = FakeEc {
        response: (EC_MKBP_POWER_BUTTON | EC_MKBP_VOL_UP)
            .to_le_bytes()
            .to_vec(),
        ..Default::default()
    };
    assert_eq!(
        query_supported_buttons(&ec),
        Ok(EC_MKBP_POWER_BUTTON | EC_MKBP_VOL_UP)
    );
    assert_eq!(
        ec.requests.into_inner(),
        vec![(
            EC_CMD_MKBP_INFO,
            0,
            vec![EC_MKBP_INFO_SUPPORTED, EC_MKBP_EVENT_BUTTON],
        )]
    );
}

#[test]
fn first_authoritative_event_reports_known_supported_state_once() {
    let supported = known_supported_buttons(u32::MAX);
    let mut tracker = ButtonTracker::default();
    let frame = frame_for_outcome(
        tracker.accept(EC_MKBP_POWER_BUTTON | EC_MKBP_VOL_DOWN),
        supported,
    );
    assert_eq!(
        frame,
        Some(ButtonFrame {
            transitions: vec![
                KeyTransition {
                    button: Button::Power,
                    pressed: true,
                },
                KeyTransition {
                    button: Button::VolumeUp,
                    pressed: false,
                },
                KeyTransition {
                    button: Button::VolumeDown,
                    pressed: true,
                },
            ],
            syn_report: true,
        })
    );
}

#[test]
fn later_events_emit_only_pressed_and_released_transitions() {
    let supported = known_supported_buttons(u32::MAX);
    let mut tracker = ButtonTracker::default();
    let _ = tracker.accept(EC_MKBP_POWER_BUTTON | EC_MKBP_VOL_DOWN);
    assert_eq!(
        frame_for_outcome(tracker.accept(EC_MKBP_VOL_UP | EC_MKBP_VOL_DOWN), supported),
        Some(ButtonFrame {
            transitions: vec![
                KeyTransition {
                    button: Button::Power,
                    pressed: false,
                },
                KeyTransition {
                    button: Button::VolumeUp,
                    pressed: true,
                },
            ],
            syn_report: true,
        })
    );
    assert_eq!(
        frame_for_outcome(tracker.accept(EC_MKBP_VOL_UP | EC_MKBP_VOL_DOWN), supported),
        None
    );
}

#[test]
fn ignores_unrelated_events_and_unknown_supported_bits() {
    assert_eq!(parse_button_event(4, &[0; 4]), Ok(None));
    assert_eq!(known_supported_buttons(1 << 31), 0);
    assert_eq!(
        known_supported_buttons(EC_MKBP_VOL_UP | (1 << 31)),
        EC_MKBP_VOL_UP
    );
}
