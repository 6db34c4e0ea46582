//! The structural records of the format, one module each.

pub mod campaign;
pub mod campaign_save;
pub mod entity_file;
pub mod esh;
pub mod saveh;
pub mod sgd;
pub mod ssg;
pub mod world;
pub mod world_zone;
pub mod zar;
