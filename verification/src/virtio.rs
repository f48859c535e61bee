//! VirtIO 1.0 block-device attachment: device matching, the capability-list
//! walk, and the initialization handshake, each as a decision on the values
//! the surrounding kernel reads from configuration space.

use vstd::prelude::*;

use crate::pci::PciDevice;

verus! {

/// Vendor id of every VirtIO device.
pub const VIRTIO_VENDOR: u16 = 0x1af4;

/// First modern (VirtIO 1.0+) device id.
pub const VIRTIO_MODERN_MIN: u16 = 0x1040;

/// Capability types found in a VirtIO device's PCI capability list.
pub const VIRTIO_PCI_CAP_COMMON_CFG: u8 = 1;

/// Device-status bits of the initialization handshake.
pub const STATUS_ACKNOWLEDGE: u8 = 1;

pub const STATUS_DRIVER: u8 = 2;

pub const STATUS_DRIVER_OK: u8 = 4;

pub const STATUS_FEATURES_OK: u8 = 8;

pub const STATUS_FAILED: u8 = 128;

/// A VirtIO block device the driver has attached to: the virtual address
/// of its mapped common-configuration structure.
pub struct VirtioBlock {
    pub common_cfg: u64,
}

impl VirtioBlock {
    /// Attach to a device whose common configuration is mapped at the
    /// given virtual address.
    pub fn new(common_cfg: u64) -> (d: VirtioBlock)
        ensures
            d.common_cfg == common_cfg,
    {
        VirtioBlock { common_cfg }
    }
}

/// Whether this PCI function is a modern VirtIO device the driver handles.
pub fn is_modern_virtio(dev: &PciDevice) -> (r: bool)
    ensures
        r == (dev.vendor_id == VIRTIO_VENDOR && dev.device_id >= VIRTIO_MODERN_MIN),
{
    dev.vendor_id == VIRTIO_VENDOR && dev.device_id >= VIRTIO_MODERN_MIN
}

/// One step of the capability-list walk, from the capability's type byte
/// and next pointer.
pub enum CapWalk {
    Found,
    Next(u8),
    End,
}

/// The common-configuration capability ends the walk; otherwise follow the
/// next pointer until it is zero.
pub fn capability_step(cfg_type: u8, next: u8) -> (r: CapWalk)
    ensures
        cfg_type == VIRTIO_PCI_CAP_COMMON_CFG ==> r == CapWalk::Found,
        cfg_type != VIRTIO_PCI_CAP_COMMON_CFG && next != 0 ==> r == CapWalk::Next(next),
        cfg_type != VIRTIO_PCI_CAP_COMMON_CFG && next == 0 ==> r == CapWalk::End,
{
    if cfg_type == VIRTIO_PCI_CAP_COMMON_CFG {
        CapWalk::Found
    } else if next != 0 {
        CapWalk::Next(next)
    } else {
        CapWalk::End
    }
}

/// Each handshake step writes the status read back with one more bit set:
/// ACKNOWLEDGE, then DRIVER, then FEATURES_OK, and finally DRIVER_OK.
pub fn handshake_set(status: u8, bit: u8) -> (r: u8)
    ensures
        r == status | bit,
{
    status | bit
}

/// After writing FEATURES_OK, the device must still advertise it; a device
/// that cleared the bit rejected the features and the driver refuses to
/// attach.
pub fn features_accepted(status: u8) -> (r: bool)
    ensures
        r == (status & STATUS_FEATURES_OK != 0),
{
    status & STATUS_FEATURES_OK != 0
}

} // verus!
