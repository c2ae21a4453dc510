pub mod bond;
pub mod curve;
pub mod errors;
