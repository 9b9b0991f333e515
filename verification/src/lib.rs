pub mod addresses;
pub mod errors;
pub mod ident;
pub mod laws;
pub mod records;
pub mod store;
