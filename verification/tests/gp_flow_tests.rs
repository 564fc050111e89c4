use sorahk::gp_flow::GpFrame;
use sorahk::gp_flow::GpFrameActions;
use sorahk::gp_flow::GpPhase;
use sorahk::gp_flow::gp_frame_step;
use sorahk::gp_flow::kb_capture_step;
use sorahk::gp_flow::quick_listen_step;

fn frame(phase: GpPhase) -> GpFrame {
    GpFrame {
        phase,
        calibrating_flag: false,
        on_gamepad_page: true,
        capturing: false,
        focused: true,
        live_pad: true,
        live_state: true,
        pad_pressed_slot: Some(3),
    }
}

#[test]
fn a_fresh_press_selects_its_slot() {
    let a = gp_frame_step(frame(GpPhase::Idle));
    assert_eq!(
        a,
        GpFrameActions {
            set_calibrating: None,
            leave_page: false,
            cancel_capture: false,
            select_slot: Some(3),
            keep_live_state: true,
            reset_live_state: false,
        }
    );
}

#[test]
fn waiting_phases_keep_the_selection() {
    for p in [GpPhase::AwaitKb, GpPhase::AwaitPad, GpPhase::ConfirmCapture, GpPhase::ConfirmDelete] {
        assert_eq!(gp_frame_step(frame(p)).select_slot, None);
    }
    let cal = gp_frame_step(frame(GpPhase::Calibrate));
    assert_eq!(cal.select_slot, None);
    assert_eq!(cal.set_calibrating, Some(true), "the flag follows the calibration phase");
    let mut unfocused = frame(GpPhase::Selected);
    unfocused.focused = false;
    assert_eq!(gp_frame_step(unfocused).select_slot, None, "no pick without the focus");
}

#[test]
fn leaving_the_page_cancels_a_capture() {
    let mut f = frame(GpPhase::AwaitKb);
    f.on_gamepad_page = false;
    f.capturing = true;
    f.calibrating_flag = true;
    let a = gp_frame_step(f);
    assert!(a.leave_page && a.cancel_capture);
    assert_eq!(a.set_calibrating, Some(false));
    assert_eq!(a.select_slot, None);
}

#[test]
fn no_gamepad_forgets_the_live_state() {
    let mut f = frame(GpPhase::Idle);
    f.live_pad = false;
    let a = gp_frame_step(f);
    assert!(a.reset_live_state && !a.keep_live_state);
    assert_eq!(a.select_slot, None);
}

#[test]
fn quick_listen_picks_once() {
    assert_eq!(quick_listen_step(true, true, false, Some(5)), (Some(5), false));
    assert_eq!(quick_listen_step(true, true, true, Some(5)), (None, true), "busy");
    assert_eq!(quick_listen_step(false, true, false, Some(5)), (None, false));
    assert_eq!(quick_listen_step(true, true, false, None), (None, true));
}

#[test]
fn keyboard_capture_completes_on_release() {
    let initial = vec![0x10];
    let (keys, done) = kb_capture_step(&vec![], &initial, &vec![0x10, 0x41, 0x01]);
    assert_eq!(keys, vec![0x41], "held before and mouse buttons are not captured");
    assert!(!done);
    let (keys, done) = kb_capture_step(&keys, &initial, &vec![0x41, 0x42]);
    assert_eq!(keys, vec![0x41, 0x42]);
    assert!(!done);
    let (keys, done) = kb_capture_step(&keys, &initial, &vec![0x42]);
    assert_eq!(keys, vec![0x41, 0x42]);
    assert!(done, "A was let go");
    let (keys, _) = kb_capture_step(&vec![0x02, 0x41, 0x41], &initial, &vec![0x41]);
    assert_eq!(keys, vec![0x41], "each key once, mouse dropped");
}
