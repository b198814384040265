use esda_controller::esda_controls::{
    get_controller_state, update_controller_state, ControllerState, InputReadError, InputSample,
    Sampler, DEBOUNCE_THRESHOLD,
};

fn sample(x: u16, y: u16, estop: bool, auto: bool) -> Result<InputSample, InputReadError> {
    Ok(InputSample { x_axis: x, y_axis: y, estop_active: estop, autonomous_active: auto })
}

#[test]
fn starts_zeroed() {
    let s = Sampler::new();
    assert_eq!(
        get_controller_state(&s),
        ControllerState { x_axis: 0, y_axis: 0, estop_latched: false, autonomous_toggle: false }
    );
    assert_eq!(s.debounce_count(), 0);
    assert_eq!(DEBOUNCE_THRESHOLD, 3);
}

#[test]
fn axes_are_committed_and_forwarded() {
    let mut s = Sampler::new();
    let out = update_controller_state(&mut s, sample(128, 7, false, false));
    let expected =
        ControllerState { x_axis: 128, y_axis: 7, estop_latched: false, autonomous_toggle: false };
    assert_eq!(out, Some(expected));
    assert_eq!(get_controller_state(&s), expected);
}

#[test]
fn unchanged_sample_is_not_forwarded() {
    let mut s = Sampler::new();
    assert_eq!(update_controller_state(&mut s, sample(0, 0, false, false)), None);
    assert!(update_controller_state(&mut s, sample(5, 0, false, false)).is_some());
    assert_eq!(update_controller_state(&mut s, sample(5, 0, false, false)), None);
    assert_eq!(update_controller_state(&mut s, sample(5, 0, false, false)), None);
}

#[test]
fn two_identical_samples_forward_once() {
    let mut s = Sampler::new();
    let mut forwarded = 0;
    for _ in 0..2 {
        if update_controller_state(&mut s, sample(300, 4095, true, false)).is_some() {
            forwarded += 1;
        }
    }
    assert_eq!(forwarded, 1);
}

#[test]
fn each_field_alone_counts_as_a_change() {
    let mut s = Sampler::new();
    assert!(update_controller_state(&mut s, sample(1, 0, false, false)).is_some());
    assert!(update_controller_state(&mut s, sample(1, 1, false, false)).is_some());
    assert!(update_controller_state(&mut s, sample(1, 1, true, false)).is_some());
    assert_eq!(update_controller_state(&mut s, sample(1, 1, false, true)), None);
    assert_eq!(update_controller_state(&mut s, sample(1, 1, false, true)), None);
    let out = update_controller_state(&mut s, sample(1, 1, false, true));
    assert_eq!(
        out,
        Some(ControllerState { x_axis: 1, y_axis: 1, estop_latched: true, autonomous_toggle: true })
    );
}

#[test]
fn three_active_observations_toggle_once() {
    let mut s = Sampler::new();
    assert_eq!(update_controller_state(&mut s, sample(0, 0, false, true)), None);
    assert_eq!(s.debounce_count(), 1);
    assert!(!get_controller_state(&s).autonomous_toggle);
    assert_eq!(update_controller_state(&mut s, sample(0, 0, false, true)), None);
    assert_eq!(s.debounce_count(), 2);
    assert!(!get_controller_state(&s).autonomous_toggle);
    let out = update_controller_state(&mut s, sample(0, 0, false, true));
    assert_eq!(s.debounce_count(), 0);
    assert!(get_controller_state(&s).autonomous_toggle);
    assert_eq!(
        out,
        Some(ControllerState { x_axis: 0, y_axis: 0, estop_latched: false, autonomous_toggle: true })
    );
}

#[test]
fn six_active_observations_toggle_back() {
    let mut s = Sampler::new();
    let mut flips = 0;
    for _ in 0..6 {
        let before = get_controller_state(&s).autonomous_toggle;
        update_controller_state(&mut s, sample(0, 0, false, true));
        if get_controller_state(&s).autonomous_toggle != before {
            flips += 1;
        }
    }
    assert_eq!(flips, 2);
    assert!(!get_controller_state(&s).autonomous_toggle);
    assert_eq!(s.debounce_count(), 0);
}

#[test]
fn single_active_observation_does_not_toggle() {
    let mut s = Sampler::new();
    update_controller_state(&mut s, sample(0, 0, false, true));
    for _ in 0..10 {
        update_controller_state(&mut s, sample(0, 0, false, false));
    }
    assert!(!get_controller_state(&s).autonomous_toggle);
    assert_eq!(s.debounce_count(), 1);
}

#[test]
fn estop_trips_on_first_observation() {
    let mut s = Sampler::new();
    let out = update_controller_state(&mut s, sample(0, 0, true, false));
    assert_eq!(
        out,
        Some(ControllerState { x_axis: 0, y_axis: 0, estop_latched: true, autonomous_toggle: false })
    );
    assert!(get_controller_state(&s).estop_latched);
}

#[test]
fn estop_never_unlatches() {
    let mut s = Sampler::new();
    update_controller_state(&mut s, sample(0, 0, true, false));
    let later = [
        sample(0, 0, false, false),
        sample(10, 20, false, true),
        Err(InputReadError),
        sample(10, 20, false, true),
        sample(10, 20, false, true),
        sample(0, 0, true, false),
        sample(0, 0, false, false),
    ];
    for reading in later {
        let out = update_controller_state(&mut s, reading);
        assert!(get_controller_state(&s).estop_latched);
        if let Some(snapshot) = out {
            assert!(snapshot.estop_latched);
        }
    }
}

#[test]
fn failed_read_commits_nothing() {
    let mut s = Sampler::new();
    update_controller_state(&mut s, sample(9, 8, false, true));
    let state = get_controller_state(&s);
    let count = s.debounce_count();
    assert_eq!(update_controller_state(&mut s, Err(InputReadError)), None);
    assert_eq!(get_controller_state(&s), state);
    assert_eq!(s.debounce_count(), count);
    // The next good tick goes on from the last committed value.
    assert_eq!(update_controller_state(&mut s, sample(9, 8, false, false)), None);
}

#[test]
fn forwarded_snapshot_is_the_committed_state() {
    let mut s = Sampler::new();
    let readings = [
        sample(1, 2, false, true),
        sample(1, 2, false, true),
        sample(3, 2, true, true),
        sample(3, 2, false, false),
        sample(4095, 4095, false, false),
    ];
    for reading in readings {
        let before = get_controller_state(&s);
        let out = update_controller_state(&mut s, reading);
        let after = get_controller_state(&s);
        assert_eq!(out.is_some(), before != after);
        if let Some(snapshot) = out {
            assert_eq!(snapshot, after);
        }
    }
}
