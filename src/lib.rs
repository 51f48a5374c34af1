//! Two small stateless utilities: the decimal rendering of a checked sum,
//! and random version-4 UUIDs together with their canonical text form.

pub mod error;
pub mod identifier;
pub mod sum;

pub use error::Error;
pub use sum::sum_as_string;
pub use identifier::{random_uuid_v4, uuid_v4_from_entropy, Uuid};
