pub mod devices;
pub mod names;
pub mod smart_house;

pub use devices::Device;
pub use devices::SmartSocket;
pub use devices::SmartThermometer;
pub use smart_house::GetDataError;
pub use smart_house::Room;
pub use smart_house::SmartHouse;
