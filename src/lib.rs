//! Enable or disable one device, found among all devices that the system
//! knows by its exact identifier.
//!
//! The library holds the whole decision logic of a lookup: which action
//! comes next, when an entry is skipped, when the change is staged,
//! committed and the device set released. The platform calls themselves are
//! performed by the caller, which feeds each answer back as an event.
pub mod identifier;
pub mod request;
pub mod run;
pub mod session;
