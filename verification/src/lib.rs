use vstd::prelude::*;

pub mod api;
pub mod battery;
pub mod decode;
pub mod device;
pub mod duration;
pub mod error;
pub mod flap;
pub mod hub;
pub mod json;
pub mod login;
pub mod numfmt;
pub mod pet;
pub mod shared;
pub mod timestamp;
pub mod voltage;

pub use api::{classify_fetch_status, parse_devices_body, parse_pets_body};
pub use decode::{decode_devices, decode_pets, encode_devices, encode_pets, DeviceRecord, PetRecord};
pub use device::{render_devices, Device};
pub use error::Error;
pub use flap::Flap;
pub use hub::Hub;
pub use login::{classify_login, login_request_body, login_response, Config};
pub use pet::{position_duration, Pet};
pub use shared::Information;
