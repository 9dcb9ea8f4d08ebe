pub mod application;
pub mod scan;
