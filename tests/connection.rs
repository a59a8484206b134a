use firmata::client::Resync;
use firmata::connection::Connection;
use firmata::errors::Error;
use firmata::protocol::{FirmataMsg, PinMode};

fn open() -> Connection<Vec<u8>> {
    match Connection::new(Vec::new()) {
        Ok(conn) => conn,
        Err(e) => panic!("{:?}", e),
    }
}

#[test]
fn open_connection_yields_commands() {
    let conn = open();
    assert!(conn.board().is_some());
    assert!(conn.conn().is_some());
    assert_eq!(conn.set_pin_mode(3, PinMode::PWM), Ok(vec![0xF0, 0xF4, 3, 0x03, 0xF7]));
    assert_eq!(conn.digital_port_write(1, 0x81), Ok(vec![0x91, 0x01, 0x01]));
    assert_eq!(conn.analog_report(0, true), Ok(vec![0xC0, 1]));
    assert_eq!(conn.analog_report(16, true), Err(Error::InvalidArgument));
    assert_eq!(conn.query_firmware(), Ok(vec![0xF0, 0x79, 0xF7]));
    assert_eq!(conn.capabilities(), Ok(vec![0xF0, 0x6B, 0xF7]));
    assert_eq!(conn.resync(), Ok(Resync::Reset));
    assert!(conn.read().is_ok());
}

#[test]
fn open_connection_folds_messages() {
    let mut conn = open();
    assert_eq!(conn.update(FirmataMsg::AnalogRead { pin: 2, value: 33 }), Ok(()));
    assert_eq!(conn.board().unwrap().pins.len(), 1);
    if let Some(port) = conn.conn_mut() {
        port.push(7);
    }
    assert_eq!(conn.conn(), Some(&vec![7]));
    assert_eq!(conn.board().unwrap().pins.len(), 1);
}

#[test]
fn closed_connection_refuses_everything() {
    let mut conn = open();
    conn.close();
    assert!(conn.board().is_none());
    assert!(conn.conn().is_none());
    assert!(conn.conn_mut().is_none());
    assert_eq!(conn.set_pin_mode(3, PinMode::PWM), Err(Error::ConnectionClosed));
    assert_eq!(conn.digital_port_write(1, 0), Err(Error::ConnectionClosed));
    assert_eq!(conn.analog_report(16, true), Err(Error::ConnectionClosed));
    assert_eq!(conn.query_firmware(), Err(Error::ConnectionClosed));
    assert_eq!(conn.capabilities(), Err(Error::ConnectionClosed));
    assert_eq!(conn.resync(), Err(Error::ConnectionClosed));
    assert!(matches!(conn.read(), Err(Error::ConnectionClosed)));
    assert_eq!(conn.update(FirmataMsg::CapabilityQuery), Err(Error::ConnectionClosed));
}
