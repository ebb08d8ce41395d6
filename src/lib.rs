//! Verified core of a minimal initramfs: boot configuration, block-device
//! table, mount planning, the boot state machine, module loading
//! decisions, archive packing and image layout.
pub mod text;
pub mod blk;
pub mod conf;
pub mod order;
pub mod mounts;
pub mod archive;
pub mod image;
pub mod boot;
pub mod kmod;
pub mod analyser;
