pub mod text;
pub mod pci_ids;
pub mod sysfs;
pub mod gpu;
pub mod cuda;
pub mod egl;
