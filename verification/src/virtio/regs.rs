//! virtio-pci register layouts and constants.

use vstd::prelude::*;

verus! {

// ---- device status bits ----
pub const STATUS_ACKNOWLEDGE: u8 = 1;
pub const STATUS_DRIVER: u8 = 2;
pub const STATUS_DRIVER_OK: u8 = 4;
pub const STATUS_FEATURES_OK: u8 = 8;
pub const STATUS_DEVICE_NEEDS_RESET: u8 = 64;
pub const STATUS_FAILED: u8 = 128;

// ---- feature bits ----
pub const VIRTIO_NET_F_CSUM: u64 = 0x1;
pub const VIRTIO_NET_F_GUEST_CSUM: u64 = 0x2;
pub const VIRTIO_NET_F_MAC: u64 = 0x20;
pub const VIRTIO_NET_F_HOST_TSO4: u64 = 0x800;
pub const VIRTIO_NET_F_HOST_TSO6: u64 = 0x1000;
pub const VIRTIO_NET_F_MRG_RXBUF: u64 = 0x8000;
pub const VIRTIO_NET_F_STATUS: u64 = 0x1_0000;
pub const VIRTIO_NET_F_CTRL_VQ: u64 = 0x2_0000;
pub const VIRTIO_NET_F_MQ: u64 = 0x40_0000;
pub const VIRTIO_F_EVENT_IDX: u64 = 0x2000_0000;
pub const VIRTIO_F_VERSION_1: u64 = 0x1_0000_0000;
pub const VIRTIO_F_RING_PACKED: u64 = 0x4_0000_0000;

/// The feature set this driver negotiates: modern virtio, the MAC and
/// status fields, mergeable RX buffers, the control queue, multiqueue and
/// event-index notification suppression. Checksum and segmentation
/// offloads are not negotiated.
pub const DRIVER_FEATURES: u64 = VIRTIO_F_VERSION_1 | VIRTIO_NET_F_MAC | VIRTIO_NET_F_STATUS
    | VIRTIO_NET_F_MRG_RXBUF | VIRTIO_NET_F_CTRL_VQ | VIRTIO_NET_F_MQ | VIRTIO_F_EVENT_IDX;

/// MSI-X "no vector": this driver polls and never takes interrupts.
pub const NO_VECTOR: u16 = 0xFFFF;

/// Layout of the common configuration structure.
#[derive(Clone, Copy, Debug, PartialEq, Eq, Structural)]
pub struct CommonCfg {
    pub device_feature_select: u32,
    pub device_feature: u32,
    pub driver_feature_select: u32,
    pub driver_feature: u32,
    pub msix_config: u16,
    pub num_queues: u16,
    pub device_status: u8,
    pub config_generation: u8,
    pub queue_select: u16,
    pub queue_size: u16,
    pub queue_msix_vector: u16,
    pub queue_enable: u16,
    pub queue_notify_off: u16,
    pub queue_desc: u64,
    pub queue_avail: u64,
    pub queue_used: u64,
}

/// Handle on a mapped common configuration structure, by its address.
/// Each 64-bit feature word is accessed as two 32-bit halves selected through
/// `device_feature_select` / `driver_feature_select`.
#[derive(Clone, Copy, Debug, PartialEq, Eq, Structural)]
pub struct Common(pub u64);

impl Common {
    /// Assembles the 64-bit device feature word from the halves read with
    /// select 0 (`lo`) and select 1 (`hi`).
    pub fn device_features(&self, lo: u32, hi: u32) -> (r: u64)
        ensures
            r == lo + hi * 0x1_0000_0000,
            r as u32 == lo,
            (r >> 32) as u32 == hi,
    {
        let r = (lo as u64) | ((hi as u64) << 32);
        assert(r == lo + hi * 0x1_0000_0000 && r as u32 == lo && (r >> 32) as u32 == hi) by (bit_vector)
            requires
                r == (lo as u64) | ((hi as u64) << 32),
        ;
        r
    }

    /// Splits a 64-bit driver feature word into the halves written with
    /// select 0 and select 1.
    pub fn set_driver_features(&self, features: u64) -> (r: (u32, u32))
        ensures
            features == r.0 + r.1 * 0x1_0000_0000,
    {
        let lo = features as u32;
        let hi = (features >> 32) as u32;
        assert(features == lo + hi * 0x1_0000_0000) by (bit_vector)
            requires
                lo == features as u32,
                hi == (features >> 32) as u32,
        ;
        (lo, hi)
    }
}

/// Splitting a feature word for the driver registers and assembling it
/// from the device registers are inverse: both use the same halves.
pub proof fn lemma_feature_halves(features: u64, lo: u32, hi: u32)
    requires
        features == lo + hi * 0x1_0000_0000,
    ensures
        lo == features as u32,
        hi == (features >> 32) as u32,
{
    assert(lo == features as u32 && hi == (features >> 32) as u32) by (bit_vector)
        requires
            features == lo + hi * 0x1_0000_0000,
    ;
}

/// Layout of `virtio_net_config`.
#[derive(Clone, Copy, Debug)]
pub struct NetConfig {
    pub mac: [u8; 6],
    pub status: u16,
    pub max_virtqueue_pairs: u16,
    pub mtu: u16,
}

/// The virtio-net packet header.
#[derive(Clone, Copy, Debug, PartialEq, Eq, Structural)]
pub struct NetHdr {
    pub flags: u8,
    pub gso_type: u8,
    pub hdr_len: u16,
    pub gso_size: u16,
    pub csum_start: u16,
    pub csum_offset: u16,
    pub num_buffers: u16,
}

/// Size in bytes of `NetHdr`.
pub const NET_HDR_LEN: usize = 12;

/// The header put in front of every transmitted packet: no offloads, one buffer.
pub open spec fn spec_net_hdr() -> NetHdr {
    NetHdr { flags: 0, gso_type: 0, hdr_len: 0, gso_size: 0, csum_start: 0, csum_offset: 0, num_buffers: 1 }
}

/// The header put in front of every transmitted packet.
pub fn net_hdr() -> (h: NetHdr)
    ensures
        h == spec_net_hdr(),
{
    NetHdr { flags: 0, gso_type: 0, hdr_len: 0, gso_size: 0, csum_start: 0, csum_offset: 0, num_buffers: 1 }
}

// ---- control virtqueue ----
pub const VIRTIO_NET_CTRL_MQ: u8 = 4;
pub const VIRTIO_NET_CTRL_MQ_VQ_PAIRS_SET: u8 = 0;

#[derive(Clone, Copy, Debug, PartialEq, Eq, Structural)]
pub struct CtrlHdr {
    pub class: u8,
    pub cmd: u8,
}

#[derive(Clone, Copy, Debug, PartialEq, Eq, Structural)]
pub struct CtrlMq {
    pub virtqueue_pairs: u16,
}

} // verus!
