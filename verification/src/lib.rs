pub mod builds;
pub mod character;
pub mod effect;
pub mod fixed;
pub mod gear;
pub mod memory;
pub mod optimize;
pub mod stats;
pub mod vary;
