use stp_home::request_handler::{
    device_list, get_device, parse_command, respond, room_list, update_device, Command, Request,
};
use stp_home::smart_device::Device;
use stp_home::smart_home::Home;

fn answer(home: &mut Home, request: &str) -> String {
    let mut req = Request::new(request);
    respond(home, &mut req)
}

#[test]
fn room_list_on_seeded_home() {
    let mut home = Home::restore();
    assert_eq!("Ok///R", answer(&mut home, "room list"));
}

#[test]
fn room_list_is_idempotent() {
    let mut home = Home::restore();
    let first = answer(&mut home, "room list");
    let second = answer(&mut home, "room list");
    let third = answer(&mut home, "room list");
    assert_eq!(first, second);
    assert_eq!(first, third);
}

#[test]
fn room_list_on_empty_home_is_a_bare_ok() {
    let mut home = Home::new("empty");
    assert_eq!("Ok", answer(&mut home, "room list"));
}

#[test]
fn device_list_names_the_devices() {
    let mut home = Home::restore();
    assert_eq!("Ok///S///T", answer(&mut home, "device list///R"));
}

#[test]
fn device_list_of_missing_room_is_an_error() {
    let mut home = Home::restore();
    assert_eq!(
        "Err///Room 'NoSuchRoom' not found.",
        answer(&mut home, "device list///NoSuchRoom")
    );
}

#[test]
fn get_device_serializes_the_socket() {
    let mut home = Home::restore();
    assert_eq!("Ok///socket///off///0///220", answer(&mut home, "get device///R///S"));
}

#[test]
fn get_device_serializes_the_thermometer() {
    let mut home = Home::restore();
    assert_eq!("Ok///thermometer///20", answer(&mut home, "get device///R///T"));
}

#[test]
fn get_device_not_found_names_the_missing_path() {
    let mut home = Home::restore();
    assert_eq!(
        "Err///Device 'S' not found in room 'NoRoom'.",
        answer(&mut home, "get device///NoRoom///S")
    );
    assert_eq!(
        "Err///Device 'Missing' not found in room 'R'.",
        answer(&mut home, "get device///R///Missing")
    );
}

#[test]
fn update_then_get_returns_the_fields_sent() {
    let mut home = Home::restore();
    assert_eq!("Ok", answer(&mut home, "update device///R///S///socket///on///5///220"));
    assert_eq!("Ok///socket///on///5///220", answer(&mut home, "get device///R///S"));
}

#[test]
fn update_accepts_fractional_values() {
    let mut home = Home::restore();
    assert_eq!("Ok", answer(&mut home, "update device///R///S///socket///on///5.5///220"));
    assert_eq!("Ok///socket///on///5.5///220", answer(&mut home, "get device///R///S"));
}

#[test]
fn update_of_missing_device_is_an_error() {
    let mut home = Home::restore();
    assert_eq!(
        "Err///Device 'X' not found in room 'R'.",
        answer(&mut home, "update device///R///X///socket///on///5///220")
    );
}

#[test]
fn update_with_wrong_type_tag_is_rejected() {
    let mut home = Home::restore();
    assert_eq!(
        "Err///Device type mismatch.",
        answer(&mut home, "update device///R///S///thermometer///21")
    );
    assert_eq!("Ok///socket///off///0///220", answer(&mut home, "get device///R///S"));
}

#[test]
fn malformed_numeric_field_leaves_the_attribute_unchanged() {
    let mut home = Home::restore();
    assert_eq!("Ok", answer(&mut home, "update device///R///S///socket///on///bogus///231"));
    assert_eq!("Ok///socket///on///0///231", answer(&mut home, "get device///R///S"));
    assert_eq!("Ok", answer(&mut home, "update device///R///T///thermometer///warm"));
    assert_eq!("Ok///thermometer///20", answer(&mut home, "get device///R///T"));
}

#[test]
fn update_accepts_exponent_and_special_number_text() {
    let mut home = Home::restore();
    assert_eq!("Ok", answer(&mut home, "update device///R///S///socket///off///1e3///-2.5E-1"));
    assert_eq!("Ok///socket///off///1e3///-2.5E-1", answer(&mut home, "get device///R///S"));
    assert_eq!("Ok", answer(&mut home, "update device///R///T///thermometer///inf"));
    assert_eq!("Ok///thermometer///inf", answer(&mut home, "get device///R///T"));
}

#[test]
fn unknown_command_is_a_bad_command() {
    let mut home = Home::restore();
    assert_eq!("Err///Bad command", answer(&mut home, "frobnicate"));
    assert_eq!("Err///Bad command", answer(&mut home, ""));
}

#[test]
fn fields_are_trimmed_before_dispatch() {
    let mut home = Home::restore();
    assert_eq!("Ok///S///T", answer(&mut home, "  device list  ///  R  "));
}

#[test]
fn reading_commands_do_not_change_the_registry() {
    let mut home = Home::restore();
    answer(&mut home, "room list");
    answer(&mut home, "device list///R");
    answer(&mut home, "get device///R///S");
    answer(&mut home, "frobnicate");
    assert_eq!("Ok///socket///off///0///220", answer(&mut home, "get device///R///S"));
}

#[test]
fn request_proceed_trims_and_exhausts() {
    let mut req = Request::new(" a ///b///");
    assert_eq!("a", req.proceed());
    assert_eq!("b", req.proceed());
    assert_eq!("", req.proceed());
    assert_eq!("", req.proceed());
}

#[test]
fn parse_command_reads_the_typed_command() {
    let mut req = Request::new("get device///R///S");
    match parse_command(&mut req) {
        Command::GetDevice { room, device } => {
            assert_eq!("R", room);
            assert_eq!("S", device);
        },
        _ => panic!("expected a get-device command"),
    }
    let mut req = Request::new("room list");
    assert!(matches!(parse_command(&mut req), Command::RoomList));
    let mut req = Request::new("device list///R");
    assert!(matches!(parse_command(&mut req), Command::DeviceList { .. }));
    let mut req = Request::new("update device///R///S///socket///on///5///220");
    assert!(matches!(parse_command(&mut req), Command::UpdateDevice { .. }));
    let mut req = Request::new("frobnicate");
    assert!(matches!(parse_command(&mut req), Command::Bad));
}

#[test]
fn per_command_handlers_match_the_dispatcher() {
    let mut home = Home::restore();
    assert_eq!("Ok///R", room_list(&home));
    assert_eq!("Ok///S///T", device_list(&home, "R"));
    assert_eq!("Ok///socket///off///0///220", get_device(&home, "R", "S"));
    let mut tail = Request::new("socket///on///7///231");
    assert_eq!("Ok", update_device(&mut home, "R", "S", &mut tail));
    assert_eq!("Ok///socket///on///7///231", get_device(&home, "R", "S"));
}

#[test]
fn update_device_command_keeps_other_devices() {
    let mut home = Home::restore();
    home.add_room("R2");
    home.add_device("R2", "S", Device::new_socket());
    answer(&mut home, "update device///R///S///socket///on///5///110");
    assert_eq!("Ok///socket///off///0///220", answer(&mut home, "get device///R2///S"));
    assert_eq!("Ok///thermometer///20", answer(&mut home, "get device///R///T"));
}
