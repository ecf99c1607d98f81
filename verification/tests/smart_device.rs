use stp_home::smart_device::{Device, DeviceInfo, Socket, Thermometer};

#[test]
fn test_socket() {
    let device = Device::new_socket();
    if let Device::Socket(mut socket) = device {
        assert_eq!("220", socket.get_voltage());
        assert_eq!("0", socket.get_current());
        assert!(!socket.is_on());
        let power = socket.get_current().parse::<f64>().unwrap()
            * socket.get_voltage().parse::<f64>().unwrap();
        assert_eq!(0_f64, power);
        socket.set_voltage("225");
        socket.set_current("3");
        socket.switch(true);
        assert_eq!("225", socket.get_voltage());
        assert_eq!("3", socket.get_current());
        assert!(socket.is_on());
        let power = socket.get_current().parse::<f64>().unwrap()
            * socket.get_voltage().parse::<f64>().unwrap();
        assert!((power - 675_f64).abs() < 1e-6);
    } else {
        panic!("Device::new_socket gives unexpected result.");
    }
}

#[test]
fn test_thermometer() {
    let device = Device::new_thermometer();
    if let Device::Thermometer(thermometer) = device {
        assert_eq!("20", thermometer.get_temperature());
        let thermometer = thermometer.temperature("25");
        assert_eq!("25", thermometer.get_temperature());
    } else {
        panic!("Device::new_thermometer gives unexpected result.");
    }
}

#[test]
fn socket_device_info_fields() {
    let socket = Socket::new("220", "5.5", true);
    let info = socket.device_info();
    assert_eq!(vec!["socket", "on", "5.5", "220"], info);
    let device = Device::Socket(Socket::new("110", "0", false));
    assert_eq!(vec!["socket", "off", "0", "110"], device.device_info());
}

#[test]
fn thermometer_device_info_fields() {
    let device = Device::Thermometer(Thermometer::new("21.5"));
    assert_eq!(vec!["thermometer", "21.5"], device.device_info());
}

#[test]
fn unknown_device_info_fields() {
    assert_eq!(vec!["Unknown device."], Device::Unknown.device_info());
}

#[test]
fn device_report_placeholder() {
    assert_eq!("Device...", Device::new_socket().report());
}
