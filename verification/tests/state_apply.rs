//! The configuration state machine: edits, validation error counting,
//! the deterministic apply plan, the apply protocol, and its partial
//! failure behaviour.
use gpower_tweaks::pci::classify_pci;
use gpower_tweaks::pci::RawPciDevice;
use gpower_tweaks::state::Action;
use gpower_tweaks::state::ApplyProgress;
use gpower_tweaks::state::State;
use gpower_tweaks::state::WriteOp;
use gpower_tweaks::usb::classify_usb;
use gpower_tweaks::usb::RawUsbDevice;
use gpower_tweaks::usb::UsbDevice;

use std::collections::HashMap;

fn usb_device(id: u32, path: &str) -> UsbDevice {
    let raw = RawUsbDevice {
        id,
        char_device_path: path.to_string(),
        id_vendor: None,
        id_product: None,
        product: None,
        manufacturer: None,
        b_device_class: None,
        b_device_subclass: None,
        b_device_protocol: None,
        power_control: Some("on\n".to_string()),
        autosuspend_delay_ms: Some("0\n".to_string()),
        interfaces: Vec::new(),
    };
    classify_usb(&raw, None).unwrap()
}

fn two_device_state() -> State {
    let a = usb_device(1, "/sys/dev/char/189:0");
    let b = usb_device(2, "/sys/dev/char/189:1");
    State::new(vec![a, b], Vec::new())
}

#[test]
fn a_fresh_state_is_unchanged_and_error_free() {
    let st = two_device_state();
    assert!(!st.changed);
    assert_eq!(st.errors, 0);
    assert_eq!(st.summary_counts(), (0, 2, 0, 0));
}

#[test]
fn an_edit_marks_the_state_changed() {
    let mut st = two_device_state();
    st.process_action(Action::SetUsbAutoSuspend(1, true));
    assert!(st.changed);
    assert!(st.usb_devices[0].can_autosuspend());
    assert!(!st.usb_devices[1].can_autosuspend());
    assert_eq!(st.summary_counts(), (1, 2, 0, 0));
}

#[test]
fn an_invalid_delay_raises_the_error_count_and_a_correction_clears_it() {
    let mut st = two_device_state();
    st.process_action(Action::SetUsbAutoSuspendDelay(1, "bogus".to_string()));
    assert_eq!(st.errors, 1);
    assert!(st.changed);
    assert_eq!(
        st.usb_devices[0].delay_error.as_deref(),
        Some("not a valid delay: bogus")
    );
    st.process_action(Action::SetUsbAutoSuspendDelay(1, "5 minutes".to_string()));
    assert_eq!(st.errors, 0);
    assert_eq!(st.usb_devices[0].delay(), 300_000);
    assert_eq!(st.usb_devices[0].delay_error, None);
}

#[test]
fn repeating_an_invalid_delay_does_not_double_count() {
    let mut st = two_device_state();
    st.process_action(Action::SetUsbAutoSuspendDelay(1, "bogus".to_string()));
    st.process_action(Action::SetUsbAutoSuspendDelay(1, "junk".to_string()));
    assert_eq!(st.errors, 1);
    st.process_action(Action::SetUsbAutoSuspendDelay(2, "junk".to_string()));
    assert_eq!(st.errors, 2);
}

#[test]
fn an_edit_to_an_unknown_id_touches_nothing() {
    let mut st = two_device_state();
    st.process_action(Action::SetUsbAutoSuspend(99, true));
    assert!(!st.usb_devices[0].can_autosuspend());
    assert!(!st.usb_devices[1].can_autosuspend());
    assert!(st.changed);
}

#[test]
fn refresh_discards_edits_and_resets_the_flags() {
    let mut st = two_device_state();
    st.process_action(Action::SetUsbAutoSuspendDelay(1, "bogus".to_string()));
    st.refresh(vec![usb_device(7, "/sys/dev/char/189:7")], Vec::new());
    assert!(!st.changed);
    assert_eq!(st.errors, 0);
    assert_eq!(st.usb_devices.len(), 1);
    assert_eq!(st.usb_devices[0].get_id(), 7);
}

#[test]
fn the_plan_writes_control_then_delay_per_device() {
    let mut st = two_device_state();
    st.process_action(Action::SetUsbAutoSuspend(1, true));
    st.process_action(Action::SetUsbAutoSuspendDelay(1, "5 minutes".to_string()));
    let plan = st.plan();
    assert_eq!(plan.len(), 2);
    assert_eq!(plan[0].label, "/sys/dev/char/189:0");
    assert_eq!(plan[0].control.path, "/sys/dev/char/189:0/power/control");
    assert_eq!(plan[0].control.content, "auto");
    assert_eq!(plan[0].delay.path, "/sys/dev/char/189:0/power/autosuspend_delay_ms");
    assert_eq!(plan[0].delay.content, "300000");
    assert_eq!(plan[1].control.content, "on");
    assert_eq!(plan[1].delay.content, "0");
}

/// Runs the apply protocol against a fake writer: `fails` maps a path to
/// the message its write fails with; every performed write lands in the
/// returned map.
fn run_apply(
    st: &State,
    fails: &HashMap<String, String>,
) -> (HashMap<String, String>, ApplyProgress) {
    let mut written: HashMap<String, String> = HashMap::new();
    let mut progress = ApplyProgress::new(st.plan());
    while !progress.done() {
        let op: WriteOp = progress.current();
        let outcome = match fails.get(&op.path) {
            Some(msg) => Err(msg.clone()),
            None => {
                written.insert(op.path.clone(), op.content.clone());
                Ok(())
            },
        };
        progress.report(outcome);
    }
    (written, progress)
}

#[test]
fn a_clean_apply_writes_every_file_and_resets_the_state() {
    let mut st = two_device_state();
    st.process_action(Action::SetUsbAutoSuspend(1, true));
    let (written, progress) = run_apply(&st, &HashMap::new());
    assert!(progress.error().is_none());
    assert_eq!(written.len(), 4);
    assert_eq!(written["/sys/dev/char/189:0/power/control"], "auto");
    assert_eq!(written["/sys/dev/char/189:1/power/control"], "on");
    st.finish_apply(true);
    assert!(!st.changed);
    assert_eq!(st.errors, 0);
}

#[test]
fn applying_twice_performs_the_same_writes_again() {
    let mut st = two_device_state();
    st.process_action(Action::SetUsbAutoSuspendDelay(2, "20 seconds".to_string()));
    let first_plan = st.plan();
    let (first, _) = run_apply(&st, &HashMap::new());
    st.finish_apply(true);
    let second_plan = st.plan();
    let (second, progress) = run_apply(&st, &HashMap::new());
    st.finish_apply(true);
    assert_eq!(first_plan.len(), second_plan.len());
    for (p, q) in first_plan.iter().zip(second_plan.iter()) {
        assert_eq!(p.label, q.label);
        assert_eq!(p.control.path, q.control.path);
        assert_eq!(p.control.content, q.control.content);
        assert_eq!(p.delay.path, q.delay.path);
        assert_eq!(p.delay.content, q.delay.content);
    }
    assert_eq!(first, second);
    assert!(progress.error().is_none());
}

#[test]
fn a_failed_control_write_skips_that_devices_delay_but_not_later_devices() {
    let mut st = two_device_state();
    st.process_action(Action::SetUsbAutoSuspend(1, true));
    let mut fails = HashMap::new();
    fails.insert(
        "/sys/dev/char/189:1/power/control".to_string(),
        "permission denied".to_string(),
    );
    let (written, progress) = run_apply(&st, &fails);
    // device A's two writes persisted and stay persisted
    assert_eq!(written["/sys/dev/char/189:0/power/control"], "auto");
    assert_eq!(written["/sys/dev/char/189:0/power/autosuspend_delay_ms"], "0");
    // device B's delay write was skipped after its control write failed
    assert!(!written.contains_key("/sys/dev/char/189:1/power/control"));
    assert!(!written.contains_key("/sys/dev/char/189:1/power/autosuspend_delay_ms"));
    // the reported error names device B and the failing file
    let err = progress.error().as_ref().unwrap();
    assert_eq!(err.device, "/sys/dev/char/189:1");
    assert_eq!(err.path, "/sys/dev/char/189:1/power/control");
    assert_eq!(err.message, "permission denied");
    // the failed apply leaves the bookkeeping un-reset for a retry
    st.finish_apply(false);
    assert!(st.changed);
}

#[test]
fn the_first_of_several_failures_is_the_one_reported() {
    let st = two_device_state();
    let mut fails = HashMap::new();
    fails.insert(
        "/sys/dev/char/189:0/power/autosuspend_delay_ms".to_string(),
        "first".to_string(),
    );
    fails.insert(
        "/sys/dev/char/189:1/power/control".to_string(),
        "second".to_string(),
    );
    let (_, progress) = run_apply(&st, &fails);
    let err = progress.error().as_ref().unwrap();
    assert_eq!(err.device, "/sys/dev/char/189:0");
    assert_eq!(err.message, "first");
}

#[test]
fn pci_edits_dispatch_by_bus_id() {
    let raw = RawPciDevice {
        id: "0000:00:02.0".to_string(),
        device_path: "/sys/bus/pci/devices/0000:00:02.0".to_string(),
        vendor: None,
        device: None,
        class: None,
        power_control: Some("on\n".to_string()),
        autosuspend_delay_ms: Some("0\n".to_string()),
    };
    let dev = classify_pci(&raw, None).unwrap();
    let mut st = State::new(Vec::new(), vec![dev]);
    st.process_action(Action::SetPciAutoSuspend("0000:00:02.0".to_string(), true));
    st.process_action(Action::SetPciAutoSuspendDelay(
        "0000:00:02.0".to_string(),
        "1 second".to_string(),
    ));
    assert!(st.pci_devices[0].can_autosuspend());
    assert_eq!(st.pci_devices[0].delay(), 1_000);
    assert_eq!(st.errors, 0);
    let plan = st.plan();
    assert_eq!(plan[0].label, "0000:00:02.0");
    assert_eq!(
        plan[0].control.path,
        "/sys/bus/pci/devices/0000:00:02.0/power/control"
    );
}

#[test]
fn wakeup_is_recorded_on_the_device() {
    let mut d = usb_device(1, "/sys/dev/char/189:0");
    assert_eq!(d.allow_wakeup(), None);
    assert!(d.set_allow_wakeup(true).is_ok());
    assert_eq!(d.allow_wakeup(), Some(true));
}
