use smarthome::Device;
use smarthome::GetDataError;
use smarthome::Room;
use smarthome::SmartHouse;
use smarthome::SmartSocket;
use smarthome::SmartThermometer;

fn socket(name: &str) -> Device {
    Device::Socket(SmartSocket {
        name: name.to_string(),
    })
}

fn thermometer(name: &str) -> Device {
    Device::Thermometer(SmartThermometer {
        name: name.to_string(),
    })
}

#[test]
fn report_exact_text() {
    let house = SmartHouse::new(
        "KHAMBELOV".to_string(),
        vec![vec![
            socket("SMART_SOCKET_1"),
            socket("SMART_SOCKET_2"),
            thermometer("SMART_THERMO_1"),
        ]],
    );
    assert_eq!(
        house.create_report(),
        "KHAMBELOV_HOUSE_1_ROOM has devices: SMART_SOCKET_1, SMART_SOCKET_2, SMART_THERMO_1\n"
    );
}

#[test]
fn empty_house_has_no_rooms_and_no_devices() {
    let house = SmartHouse::new("TestOwner".to_string(), vec![]);
    assert_eq!(house.get_rooms().len(), 0);
    assert_eq!(
        house.get_device("X".to_string(), "Y".to_string()).err(),
        Some(GetDataError::RoomNotFound)
    );
    assert_eq!(house.create_report(), "");
}

#[test]
fn remove_device_twice() {
    let mut room = Room::new("R".to_string(), vec![socket("Test_Device")]);
    let removed = room.remove_device("Test_Device".to_string());
    assert!(removed.is_some());
    assert_eq!(removed.unwrap().get_name(), "Test_Device");
    assert_eq!(room.get_devices().len(), 0);
    let removed_again = room.remove_device("Test_Device".to_string());
    assert!(removed_again.is_none());
    assert_eq!(room.get_devices().len(), 0);
}

#[test]
fn room_names_follow_pattern() {
    let house = SmartHouse::new("OWNER".to_string(), vec![vec![], vec![socket("S")]]);
    let rooms = house.get_rooms();
    assert_eq!(rooms.len(), 2);
    assert_eq!(rooms[0].get_name(), "OWNER_HOUSE_1_ROOM");
    assert_eq!(rooms[1].get_name(), "OWNER_HOUSE_2_ROOM");
}

#[test]
fn room_names_with_two_digit_index() {
    let lists: Vec<Vec<Device>> = (0..12).map(|_| Vec::new()).collect();
    let house = SmartHouse::new("O".to_string(), lists);
    let rooms = house.get_rooms();
    assert_eq!(rooms.len(), 12);
    assert_eq!(rooms[9].get_name(), "O_HOUSE_10_ROOM");
    assert_eq!(rooms[11].get_name(), "O_HOUSE_12_ROOM");
}

#[test]
fn empty_room_report_line() {
    let house = SmartHouse::new("A".to_string(), vec![vec![]]);
    assert_eq!(house.create_report(), "A_HOUSE_1_ROOM has devices: \n");
}

#[test]
fn report_lists_rooms_in_creation_order() {
    let house = SmartHouse::new(
        "B".to_string(),
        vec![vec![socket("S1")], vec![thermometer("T1"), socket("S2")]],
    );
    assert_eq!(
        house.create_report(),
        "B_HOUSE_1_ROOM has devices: S1\nB_HOUSE_2_ROOM has devices: T1, S2\n"
    );
}

#[test]
fn add_room_starts_empty() {
    let mut house = SmartHouse::new("C".to_string(), vec![vec![socket("S")]]);
    assert_eq!(house.get_rooms().len(), 1);
    house.add_room();
    assert_eq!(house.get_rooms().len(), 2);
    assert_eq!(house.get_rooms()[1].get_name(), "C_HOUSE_2_ROOM");
    assert_eq!(house.get_rooms()[1].get_devices().len(), 0);
}

#[test]
fn add_room_after_removal_can_repeat_a_name() {
    let mut house = SmartHouse::new("D".to_string(), vec![vec![], vec![]]);
    let removed = house.remove_room("D_HOUSE_1_ROOM".to_string());
    assert!(removed.is_some());
    house.add_room();
    let rooms = house.get_rooms();
    assert_eq!(rooms.len(), 2);
    assert_eq!(rooms[0].get_name(), "D_HOUSE_2_ROOM");
    assert_eq!(rooms[1].get_name(), "D_HOUSE_2_ROOM");
}

#[test]
fn remove_device_takes_first_match_only() {
    let mut room = Room::new(
        "R".to_string(),
        vec![socket("DUP"), thermometer("DUP"), socket("OTHER")],
    );
    let removed = room.remove_device("DUP".to_string());
    assert!(matches!(removed, Some(Device::Socket(_))));
    let devices = room.get_devices();
    assert_eq!(devices.len(), 2);
    assert!(matches!(devices[0], Device::Thermometer(_)));
    assert_eq!(devices[0].get_name(), "DUP");
    assert_eq!(devices[1].get_name(), "OTHER");
}

#[test]
fn remove_absent_device_leaves_room_unchanged() {
    let mut room = Room::new("R".to_string(), vec![socket("A"), socket("B")]);
    assert!(room.remove_device("C".to_string()).is_none());
    let devices = room.get_devices();
    assert_eq!(devices.len(), 2);
    assert_eq!(devices[0].get_name(), "A");
    assert_eq!(devices[1].get_name(), "B");
}

#[test]
fn add_device_appends_at_end() {
    let mut room = Room::new("R".to_string(), vec![socket("A")]);
    room.add_device(thermometer("B"));
    let devices = room.get_devices();
    assert_eq!(devices.len(), 2);
    assert_eq!(devices[0].get_name(), "A");
    assert_eq!(devices[1].get_name(), "B");
}

#[test]
fn remove_absent_room_leaves_house_unchanged() {
    let mut house = SmartHouse::new("E".to_string(), vec![vec![]]);
    assert!(house.remove_room("E_HOUSE_9_ROOM".to_string()).is_none());
    assert_eq!(house.get_rooms().len(), 1);
    assert_eq!(house.get_rooms()[0].get_name(), "E_HOUSE_1_ROOM");
}

#[test]
fn get_device_ok_for_present_device() {
    let house = SmartHouse::new(
        "F".to_string(),
        vec![vec![socket("S1"), thermometer("T1")]],
    );
    let device = house
        .get_device("F_HOUSE_1_ROOM".to_string(), "T1".to_string())
        .unwrap();
    assert_eq!(device.get_name(), "T1");
    assert!(matches!(device, Device::Thermometer(_)));
}

#[test]
fn house_keeps_initial_devices_in_order() {
    let house = SmartHouse::new(
        "G".to_string(),
        vec![vec![socket("A"), socket("B")], vec![thermometer("C")]],
    );
    let rooms = house.get_rooms();
    assert_eq!(rooms[0].get_devices().len(), 2);
    assert_eq!(rooms[0].get_devices()[0].get_name(), "A");
    assert_eq!(rooms[0].get_devices()[1].get_name(), "B");
    assert_eq!(rooms[1].get_devices().len(), 1);
    assert_eq!(rooms[1].get_devices()[0].get_name(), "C");
}
