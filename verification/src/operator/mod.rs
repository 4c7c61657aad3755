//! What each side of a borrowed device does with what it gets.
pub mod borrow;
pub mod borrow_laws;
pub mod device;
pub mod keep_laws;
pub mod laws;
pub mod lend;
pub mod lend_laws;
pub mod lend_recv;
pub mod loop_laws;
pub mod loops;
pub mod recv;
pub mod stats;
pub mod transfers;
