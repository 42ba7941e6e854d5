//! Driver logic for a virtio-net PCI device.

pub mod queue;
pub mod regs;
pub mod hal;
pub mod net;
pub mod pci;
pub mod bring_up;
