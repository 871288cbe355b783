//! What holds of the operations of this library, whatever the input. The laws speak of results
//! and inputs directly, so that each of them ties down an operation on its own.
pub mod brightness;
pub mod control;
pub mod desktop;
pub mod detection;
pub mod session;
pub mod spelling;
pub mod theme;
pub mod wmi;
pub mod worker;
