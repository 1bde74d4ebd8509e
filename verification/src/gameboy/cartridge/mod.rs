pub mod header;
pub mod mbc;
pub mod mbc0;
pub mod mbc1;
pub mod mbc3;
pub mod controller;

pub use controller::Cartridge;
pub use header::CartridgeHeader;
pub use mbc::MBC;
pub use mbc0::MBC0;
pub use mbc1::MBC1;
pub use mbc3::MBC3;
