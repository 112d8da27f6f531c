//! The request orchestrators: what each operation of the service decides
//! between its calls to the storage adaptor.

pub mod event;
pub mod person;
pub mod stats;
pub mod tasks;
