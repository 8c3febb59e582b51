use rover_control::package::{JoystickCoords, RadioPackage};
use rover_control::remote::{outgoing_package, DisplayState};

fn coords_line(x: i8, y: i8) -> String {
    let mut buf: heapless::String<32> = heapless::String::new();
    DisplayState { tx_status: true, joy_x: x, joy_y: y }.write_coords(&mut buf);
    buf.as_str().to_string()
}

#[test]
fn centred_stick_sends_nothing() {
    assert_eq!(outgoing_package(0, 0), None);
}

#[test]
fn deflected_stick_sends_coords() {
    assert_eq!(outgoing_package(0, -1), Some(RadioPackage::Coords(JoystickCoords { x: 0, y: -1 })));
    assert_eq!(outgoing_package(100, 0), Some(RadioPackage::Coords(JoystickCoords { x: 100, y: 0 })));
}

#[test]
fn coords_line_formats_decimal() {
    assert_eq!(coords_line(0, 0), "0 : 0");
    assert_eq!(coords_line(5, -7), "5 : -7");
    assert_eq!(coords_line(10, -100), "10 : -100");
    assert_eq!(coords_line(-128, 127), "-128 : 127");
}

#[test]
fn coords_line_matches_std_formatting() {
    for x in [-128i8, -99, -10, -9, -1, 0, 1, 9, 10, 99, 100, 127] {
        for y in [-128i8, -50, 0, 7, 127] {
            assert_eq!(coords_line(x, y), format!("{} : {}", x, y));
        }
    }
}

#[test]
fn coords_line_replaces_old_text() {
    let mut buf: heapless::String<32> = heapless::String::new();
    buf.push_str("left over text from before").unwrap();
    DisplayState { tx_status: false, joy_x: 3, joy_y: 4 }.write_coords(&mut buf);
    assert_eq!(buf.as_str(), "3 : 4");
}

#[test]
fn status_line() {
    assert_eq!(DisplayState { tx_status: true, joy_x: 0, joy_y: 0 }.status_text(), "OK");
    assert_eq!(DisplayState { tx_status: false, joy_x: 0, joy_y: 0 }.status_text(), "ERROR");
}
