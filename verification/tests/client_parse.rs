use stp_home::client::{
    device_from_ok_response, device_from_stp_response, device_list_request, get_device_request,
    list_from_stp_response, room_list_request, update_device_request, HomeError,
};
use stp_home::smart_device::{Device, Socket, Thermometer};

#[test]
fn request_builders_compose_the_wire_text() {
    assert_eq!("room list", room_list_request());
    assert_eq!("device list///R", device_list_request("R"));
    assert_eq!("get device///R///S", get_device_request("R", "S"));
    let device = Device::Socket(Socket::new("220", "5", true));
    assert_eq!(
        "update device///R///S///socket///on///5///220",
        update_device_request("R", "S", &device)
    );
}

#[test]
fn list_response_ok_returns_the_names() {
    let names = list_from_stp_response("Ok///R1///R2").unwrap();
    assert_eq!(vec!["R1", "R2"], names);
    let empty: Vec<String> = list_from_stp_response("Ok").unwrap();
    assert!(empty.is_empty());
}

#[test]
fn list_response_err_carries_the_message() {
    let e = list_from_stp_response("Err///Room 'X' not found.");
    assert_eq!(Err(HomeError::ResponseErr("Room 'X' not found.".to_string())), e);
}

#[test]
fn list_response_err_joins_message_fields_with_spaces() {
    let e = list_from_stp_response("Err///one///two");
    assert_eq!(Err(HomeError::ResponseErr("one two".to_string())), e);
}

#[test]
fn list_response_without_status_is_bad() {
    assert_eq!(Err(HomeError::BadResponse), list_from_stp_response("nonsense"));
    assert_eq!(Err(HomeError::BadResponse), list_from_stp_response(""));
}

#[test]
fn device_response_ok_socket() {
    let d = device_from_stp_response("Ok///socket///on///5///220").unwrap();
    assert_eq!(Device::Socket(Socket::new("220", "5", true)), d);
}

#[test]
fn device_response_ok_thermometer() {
    let d = device_from_stp_response("Ok///thermometer///21.5").unwrap();
    assert_eq!(Device::Thermometer(Thermometer::new("21.5")), d);
}

#[test]
fn device_response_err_carries_the_message() {
    let e = device_from_stp_response("Err///Device 'S' not found in room 'R'.");
    assert_eq!(
        Err(HomeError::ResponseErr("Device 'S' not found in room 'R'.".to_string())),
        e
    );
}

#[test]
fn unknown_tag_reads_as_unknown_device() {
    let fields = vec!["teapot".to_string(), "on".to_string()];
    assert_eq!(Device::Unknown, device_from_ok_response(&fields));
}

#[test]
fn unreadable_voltage_reads_as_unknown_device() {
    let fields = vec![
        "socket".to_string(),
        "on".to_string(),
        "5".to_string(),
        "lots".to_string(),
    ];
    assert_eq!(Device::Unknown, device_from_ok_response(&fields));
}

#[test]
fn unreadable_current_defaults_to_zero() {
    let fields = vec![
        "socket".to_string(),
        "off".to_string(),
        "much".to_string(),
        "220".to_string(),
    ];
    assert_eq!(Device::Socket(Socket::new("220", "0", false)), device_from_ok_response(&fields));
}

#[test]
fn unreadable_temperature_reads_as_unknown_device() {
    let fields = vec!["thermometer".to_string(), "warm".to_string()];
    assert_eq!(Device::Unknown, device_from_ok_response(&fields));
}

#[test]
fn error_messages_read_as_text() {
    assert_eq!("Bad response.", HomeError::BadResponse.message());
    assert_eq!(
        "Error in response: no luck.",
        HomeError::ResponseErr("no luck".to_string()).message()
    );
}
