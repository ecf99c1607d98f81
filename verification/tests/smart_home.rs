use stp_home::smart_device::Device;
use stp_home::smart_home::Home;
use stp_home::smart_room::Room;

#[test]
fn test_home() {
    let home = Home::new("Home");
    assert_eq!("Home", home.name);
    assert!(home.room_list().is_empty());
    assert!(home.room_names_list().is_empty());
}

#[test]
fn test_add_rooms() {
    let mut home = Home::new("Home with rooms");
    assert!(home.add_room("R1").is_some());
    assert!(home.add_room("R2").is_some());
    assert!(home.add_room("R1").is_none());
}

#[test]
fn test_room_list() {
    let mut home = Home::new("Home with rooms");
    home.add_room("R1");
    home.add_room("R2");
    let rooms: Vec<Room> = home.room_list();
    assert!(rooms.contains(&home.get_room_by_name("R1").unwrap()));
    assert!(rooms.contains(&home.get_room_by_name("R2").unwrap()));
    let room_names: Vec<String> = home.room_names_list();
    assert!(room_names.contains(&String::from("R1")));
    assert!(room_names.contains(&String::from("R2")));
}

#[test]
fn test_remove_room() {
    let mut home = Home::new("Home to delete");
    assert!(home.add_room("R1").is_some());
    assert!(home.add_room("R2").is_some());
    assert!(home.remove_room("R1").is_some());
    assert!(home.remove_room("R2").is_some());
    assert!(home.remove_room("R3").is_none());
    assert!(home.remove_room("R2").is_none());
    assert!(home.remove_room("R1").is_none());
    assert!(home.room_names_list().is_empty());
    assert!(home.room_list().is_empty());
}

#[test]
fn test_add_device() {
    let mut home = Home::new("Home for devices");
    assert!(home.add_room("R1").is_some());
    assert!(home.add_room("R2").is_some());
    assert!(home.add_device("R1", "S1", Device::new_socket()).is_some());
    assert!(home.add_device("R1", "S2", Device::new_socket()).is_some());
    assert!(home.add_device("R1", "T", Device::new_thermometer()).is_some());
    assert!(home.add_device("R1", "S1", Device::new_thermometer()).is_none());
    assert!(home.add_device("R2", "S1", Device::new_socket()).is_some());
    assert!(home.add_device("R2", "T1", Device::new_thermometer()).is_some());
    assert!(home.add_device("R2", "T1", Device::new_socket()).is_none());
    assert_eq!(Device::new_socket(), home.get_device_by_path("R1", "S1").unwrap());
    assert_eq!(Device::new_socket(), home.get_device_by_path("R1", "S2").unwrap());
    assert_eq!(Device::new_thermometer(), home.get_device_by_path("R1", "T").unwrap());
    assert_eq!(Device::new_socket(), home.get_device_by_path("R2", "S1").unwrap());
    assert!(home.get_device_by_path("R1", "T1").is_none());
    assert!(home.get_device_by_path("R1", "No device").is_none());
    assert!(home.get_device_by_path("R2", "T").is_none());
}

#[test]
fn smart_home_test_remove_device() {
    let mut home = Home::new("Home for devices");
    assert!(home.add_room("R1").is_some());
    assert!(home.add_room("R2").is_some());
    assert!(home.add_device("R1", "S1", Device::new_socket()).is_some());
    assert!(home.add_device("R1", "S2", Device::new_socket()).is_some());
    assert!(home.add_device("R1", "T", Device::new_thermometer()).is_some());
    assert!(home.add_device("R1", "S1", Device::new_thermometer()).is_none());
    assert_eq!(3, home.device_names_list("R1").unwrap().len());
    assert!(home.add_device("R2", "S1", Device::new_socket()).is_some());
    assert!(home.add_device("R2", "T1", Device::new_thermometer()).is_some());
    assert_eq!(2, home.device_names_list("R2").unwrap().len());
    assert!(home.remove_device("R1", "No device").is_none());
    assert!(home.remove_device("R1", "S1").is_some());
    assert!(home.remove_device("R1", "S2").is_some());
    assert!(home.remove_device("R1", "T1").is_none());
    assert!(home.remove_device("R1", "T").is_some());
    assert!(home.device_names_list("R1").unwrap().is_empty());
    assert!(home.remove_device("R2", "S1").is_some());
    assert!(home.remove_device("R2", "T1").is_some());
    assert!(home.device_names_list("R2").unwrap().is_empty());
}

#[test]
fn restore_seeds_one_room() {
    let home = Home::restore();
    assert_eq!(vec!["R"], home.room_names_list());
    assert_eq!(vec!["S", "T"], home.device_names_list("R").unwrap());
    assert_eq!(Device::new_socket(), home.get_device_by_path("R", "S").unwrap());
    assert_eq!(Device::new_thermometer(), home.get_device_by_path("R", "T").unwrap());
}

#[test]
fn report_lists_rooms_and_devices() {
    let home = Home::restore();
    let expected = "General report about For home_server:\n\tIn room 'R'\n\t\t[\"socket\", \"off\", \"0\", \"220\"]\n\t\t[\"thermometer\", \"20\"]";
    assert_eq!(expected, home.report());
}

#[test]
fn report_of_empty_home_is_the_header() {
    let home = Home::new("Bare");
    assert_eq!("General report about Bare:", home.report());
}
