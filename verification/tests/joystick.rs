use rover_control::joystick::{Joystick, RemoteCommand, CALIBRATION_SAMPLES, DEFAULT_ZERO};

#[test]
fn new_stick_assumes_middle_centre() {
    let js = Joystick::new();
    assert_eq!(js.zero_point(), (DEFAULT_ZERO, DEFAULT_ZERO));
    assert_eq!(js.zero_point(), (127, 127));
}

#[test]
fn full_deflection_reads_hundred() {
    let js = Joystick::new();
    assert_eq!(js.process_axis(255, 127), 100);
    assert_eq!(js.process_axis(0, 127), -100);
}

#[test]
fn deadzone_reads_zero() {
    let js = Joystick::new();
    assert_eq!(js.process_axis(127, 127), 0);
    assert_eq!(js.process_axis(131, 127), 0);
    assert_eq!(js.process_axis(123, 127), 0);
}

#[test]
fn just_outside_deadzone_truncates_towards_zero() {
    let js = Joystick::new();
    // 5 * 100 / 128 = 3.9 and -5 * 100 / 127 = -3.9
    assert_eq!(js.process_axis(132, 127), 3);
    assert_eq!(js.process_axis(122, 127), -3);
}

#[test]
fn scaling_uses_travel_of_each_side() {
    let js = Joystick::new();
    // 73 * 100 / 128 = 57.03, -67 * 100 / 127 = -52.76
    assert_eq!(js.process_axis(200, 127), 57);
    assert_eq!(js.process_axis(60, 127), -52);
    // centre at the low end: only the upper side has travel
    assert_eq!(js.process_axis(10, 0), 3);
    assert_eq!(js.process_axis(0, 3), 0);
}

#[test]
fn no_travel_reads_zero() {
    let js = Joystick::new();
    assert_eq!(js.process_axis(260, 255), 0);
    assert_eq!(js.process_axis(300, 255), 0);
}

#[test]
fn out_of_range_readings_clamp() {
    let js = Joystick::new();
    assert_eq!(js.process_axis(1000, 250), 100);
    assert_eq!(js.process_axis(65535, 0), 100);
    // a centre beyond the 8-bit range leaves negative travel above it
    assert_eq!(js.process_axis(310, 300), -22);
}

#[test]
fn monotonic_on_concrete_sweep() {
    let js = Joystick::new();
    let mut last = js.process_axis(0, 127);
    for raw in 1u16..=255 {
        let v = js.process_axis(raw, 127);
        assert!(v >= last);
        assert!(v >= -100 && v <= 100);
        last = v;
    }
}

#[test]
fn read_uses_both_centres() {
    let js = Joystick::new();
    assert_eq!(js.read(255, 0), RemoteCommand { x: 100, y: -100 });
    assert_eq!(js.read(127, 129), RemoteCommand { x: 0, y: 0 });
}

#[test]
fn calibration_takes_mean_rounded_down() {
    let mut js = Joystick::new();
    let mut samples = Vec::new();
    for i in 0..CALIBRATION_SAMPLES {
        if i % 2 == 0 {
            samples.push((120u16, 130u16));
        } else {
            samples.push((121u16, 133u16));
        }
    }
    js.calibrate(&samples);
    assert_eq!(js.zero_point(), (120, 131));
    assert_eq!(js.read(120, 131), RemoteCommand { x: 0, y: 0 });
    // 135 - 120 = 15 over 135 of travel
    assert_eq!(js.process_axis(135, 120), 11);
}

#[test]
fn calibration_of_constant_samples_gives_that_sample() {
    let mut js = Joystick::new();
    let samples = vec![(65535u16, 0u16); 32];
    js.calibrate(&samples);
    assert_eq!(js.zero_point(), (65535, 0));
}

#[test]
fn calibrated_centre_lies_within_samples() {
    let mut js = Joystick::new();
    let samples: Vec<(u16, u16)> = (0..32u16).map(|i| (100 + i * 3, 255 - i)).collect();
    js.calibrate(&samples);
    let (zx, zy) = js.zero_point();
    // x: 100 + 3 * 15.5 = 146.5, y: 255 - 15.5 = 239.5
    assert_eq!((zx, zy), (146, 239));
    assert!(zx >= 100 && zx <= 193);
    assert!(zy >= 224 && zy <= 255);
}
