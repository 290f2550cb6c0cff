pub mod error;
pub mod hash;
pub mod info;
pub mod progress;
pub mod scan;
pub mod updater;
