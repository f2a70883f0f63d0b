pub mod access;
pub mod cli;
pub mod listing;
pub mod location;
pub mod request;
pub mod scan;
pub mod schema;
pub mod types;

pub use location::ensure_folder_location;
