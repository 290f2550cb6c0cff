pub mod microsoft;
pub mod requests;
