//! Everything that concerns the hypervisor itself.

pub mod command;
pub mod controller;
pub mod detector;
pub mod qmp;

pub use command::{
    Accelerator, DisplayConfig, DriveConfig, MachineType, NetdevConfig, Options, QemuCommand,
};
pub use controller::{QemuController, VMLifecycle};
pub use detector::detect;
