//! PCI configuration space (ECAM) addressing and virtio-pci capability
//! discovery.
//!
//! Configuration space is read by the caller; the functions here decode it.
//! A function's configuration space is the 4 KiB ECAM window of that function,
//! given as a byte slice in little-endian order, as the CPU reads it.

use vstd::prelude::*;

verus! {

pub const VIRTIO_VENDOR_ID: u16 = 0x1AF4;

/// Transitional virtio-net-pci (legacy + modern).
pub const VIRTIO_NET_DEVICE_ID_TRANSITIONAL: u16 = 0x1000;

/// Modern-only virtio-net-pci.
pub const VIRTIO_NET_DEVICE_ID_MODERN: u16 = 0x1041;

/// Size of one function's ECAM configuration window.
pub const CONFIG_SPACE_BYTES: usize = 4096;

pub const PCI_CAP_ID_VNDR: u8 = 0x09;
pub const PCI_STATUS_CAP_LIST: u16 = 0x10;

pub const VIRTIO_PCI_CAP_COMMON_CFG: u8 = 1;
pub const VIRTIO_PCI_CAP_NOTIFY_CFG: u8 = 2;
pub const VIRTIO_PCI_CAP_ISR_CFG: u8 = 3;
pub const VIRTIO_PCI_CAP_DEVICE_CFG: u8 = 4;

/// Offsets of the standard header registers used here.
pub const PCI_VENDOR_ID: u16 = 0x00;
pub const PCI_DEVICE_ID: u16 = 0x02;
pub const PCI_STATUS: u16 = 0x06;
pub const PCI_HEADER_TYPE: u16 = 0x0E;
pub const PCI_BAR0: u16 = 0x10;
pub const PCI_CAP_PTR: u16 = 0x34;

/// A function "vendor" that reads as all ones is absent.
pub const PCI_VENDOR_NONE: u16 = 0xFFFF;

/// Bus / device / function address of a PCI function.
#[derive(Clone, Copy, Debug, PartialEq, Eq, Structural)]
pub struct Bdf {
    pub bus: u8,
    pub device: u8,
    pub function: u8,
}

/// Offset of register `offset` of function `bdf` within the ECAM region.
pub open spec fn config_offset(bdf: Bdf, offset: u16) -> int {
    bdf.bus * 0x10_0000 + bdf.device * 0x8000 + bdf.function * 0x1000 + offset
}

/// Raw ECAM configuration-space accessor for a mapped ECAM region.
#[derive(Clone, Copy, Debug, PartialEq, Eq, Structural)]
pub struct Ecam {
    pub base: u64,
}

/// Size in bytes of the whole ECAM region: 256 buses of 32 devices of 8 functions.
pub const MMCONFIG_SIZE: u64 = 0x1000_0000;

impl Ecam {
    /// An accessor for the ECAM region mapped at virtual address `base`.
    pub fn new(base: u64) -> (e: Self)
        ensures
            e.base == base,
    {
        Ecam { base }
    }

    /// Address of register `offset` of function `bdf`.
    pub fn addr(&self, bdf: Bdf, offset: u16) -> (r: u64)
        requires
            bdf.device < 32,
            bdf.function < 8,
            offset < 0x1000,
            self.base + MMCONFIG_SIZE <= u64::MAX,
        ensures
            r == self.base + config_offset(bdf, offset),
    {
        let bus = bdf.bus as u64;
        let dev = bdf.device as u64;
        let func = bdf.function as u64;
        let off = offset as u64;
        let idx = (bus << 20) | (dev << 15) | (func << 12) | off;
        assert(idx == bus * 0x10_0000 + dev * 0x8000 + func * 0x1000 + off && idx < 0x1000_0000) by (bit_vector)
            requires
                bus < 256,
                dev < 32,
                func < 8,
                off < 0x1000,
                idx == (bus << 20) | (dev << 15) | (func << 12) | off,
        ;
        self.base + idx
    }
}

/// Whether a header-type register marks a multi-function device.
pub open spec fn is_multi_function(header_type: u8) -> bool {
    header_type & 0x80 != 0
}

/// How many functions of a device on bus 0 to probe: all eight when
/// function 0 is present and multi-function, otherwise only function 0.
/// `header_type` is function 0's header-type register; it is only consulted
/// when `vendor0` shows function 0 present.
pub fn functions_to_probe(vendor0: u16, header_type: u8) -> (r: u8)
    ensures
        r == (if vendor0 != PCI_VENDOR_NONE && is_multi_function(header_type) { 8u8 } else { 1u8 }),
{
    if vendor0 != PCI_VENDOR_NONE && header_type & 0x80 != 0 {
        8
    } else {
        1
    }
}

/// A function whose vendor register reads `vendor` exists.
pub fn function_present(vendor: u16) -> (r: bool)
    ensures
        r == (vendor != PCI_VENDOR_NONE),
{
    vendor != PCI_VENDOR_NONE
}

/// A (vendor, device) pair identifies a virtio-net NIC.
pub open spec fn is_virtio_net(vendor: u16, device: u16) -> bool {
    vendor == VIRTIO_VENDOR_ID && (device == VIRTIO_NET_DEVICE_ID_TRANSITIONAL || device
        == VIRTIO_NET_DEVICE_ID_MODERN)
}

/// The last virtio-net NIC in an enumeration, if any.
pub open spec fn last_virtio_net(devices: Seq<(Bdf, u16, u16)>) -> Option<Bdf>
    decreases devices.len(),
{
    if devices.len() == 0 {
        None
    } else {
        let d = devices.last();
        if is_virtio_net(d.1, d.2) {
            Some(d.0)
        } else {
            last_virtio_net(devices.drop_last())
        }
    }
}

/// Picks the virtio-net NIC from the enumerated functions of bus 0, given
/// as (address, vendor, device); when several match, the last one wins.
pub fn pci_scan(devices: &[(Bdf, u16, u16)]) -> (r: Option<Bdf>)
    ensures
        r == last_virtio_net(devices@),
{
    let mut found: Option<Bdf> = None;
    let mut i: usize = 0;
    while i < devices.len()
        invariant
            i <= devices@.len(),
            found == last_virtio_net(devices@.take(i as int)),
        decreases devices@.len() - i,
    {
        let (bdf, vendor, device) = devices[i];
        proof {
            assert(devices@.take(i + 1).drop_last() =~= devices@.take(i as int));
            assert(devices@.take(i + 1).last() == devices@[i as int]);
        }
        if vendor == VIRTIO_VENDOR_ID && (device == VIRTIO_NET_DEVICE_ID_TRANSITIONAL || device
            == VIRTIO_NET_DEVICE_ID_MODERN) {
            found = Some(bdf);
        }
        i = i + 1;
    }
    proof {
        assert(devices@.take(devices@.len() as int) =~= devices@);
    }
    found
}

// ---- little-endian register reads from a configuration-space snapshot ----

pub open spec fn le16(cfg: Seq<u8>, off: int) -> int {
    cfg[off] + cfg[off + 1] * 0x100
}

pub open spec fn le32(cfg: Seq<u8>, off: int) -> int {
    cfg[off] + cfg[off + 1] * 0x100 + cfg[off + 2] * 0x1_0000 + cfg[off + 3] * 0x100_0000
}

pub fn read16(cfg: &[u8], off: usize) -> (r: u16)
    requires
        off + 2 <= cfg@.len(),
    ensures
        r == le16(cfg@, off as int),
{
    let a = cfg[off] as u16;
    let b = cfg[off + 1] as u16;
    let r = a | (b << 8);
    assert(r == a + b * 0x100) by (bit_vector)
        requires
            a < 0x100,
            b < 0x100,
            r == a | (b << 8),
    ;
    r
}

pub fn read32(cfg: &[u8], off: usize) -> (r: u32)
    requires
        off + 4 <= cfg@.len(),
    ensures
        r == le32(cfg@, off as int),
{
    let a = cfg[off] as u32;
    let b = cfg[off + 1] as u32;
    let c = cfg[off + 2] as u32;
    let d = cfg[off + 3] as u32;
    let r = a | (b << 8) | (c << 16) | (d << 24);
    assert(r == a + b * 0x100 + c * 0x1_0000 + d * 0x100_0000) by (bit_vector)
        requires
            a < 0x100,
            b < 0x100,
            c < 0x100,
            d < 0x100,
            r == a | (b << 8) | (c << 16) | (d << 24),
    ;
    r
}

// ---- virtio vendor capabilities ----

/// A virtio-pci capability: a window of `length` bytes at `offset` within BAR `bar`.
#[derive(Clone, Copy, Debug, PartialEq, Eq, Structural)]
pub struct RawCap {
    pub bar: u8,
    pub offset: u32,
    pub length: u32,
    pub notify_off_multiplier: u32,
}

/// The four capabilities a modern virtio-pci device must expose.
#[derive(Clone, Copy, Debug, PartialEq, Eq, Structural)]
pub struct VirtioCapabilities {
    pub common: RawCap,
    pub notify: RawCap,
    pub isr: RawCap,
    pub device_cfg: RawCap,
}

/// The capabilities found so far while walking the list.
#[derive(Clone, Copy, Debug, PartialEq, Eq, Structural)]
pub struct CapsFound {
    pub common: Option<RawCap>,
    pub notify: Option<RawCap>,
    pub isr: Option<RawCap>,
    pub device_cfg: Option<RawCap>,
}

/// Why a function cannot be driven as a virtio-pci device.
#[derive(Clone, Copy, Debug, PartialEq, Eq, Structural)]
pub enum CapError {
    /// The status register does not announce a capability list.
    NoCapabilityList,
    /// The capability list does not end within 256 entries.
    CapabilityLoop,
    MissingCommonCfg,
    MissingNotifyCfg,
    MissingIsrCfg,
    MissingDeviceCfg,
    /// A capability lives in an I/O-space BAR.
    IoSpaceBar,
    /// A capability has zero length.
    ZeroLength,
    /// A capability's window does not fit in the address space.
    AddressOverflow,
}

/// The capability whose header starts at `ptr`.
pub open spec fn cap_at(cfg: Seq<u8>, ptr: int) -> RawCap {
    RawCap {
        bar: cfg[ptr + 4],
        offset: le32(cfg, ptr + 8) as u32,
        length: le32(cfg, ptr + 12) as u32,
        notify_off_multiplier: if cfg[ptr + 3] == VIRTIO_PCI_CAP_NOTIFY_CFG {
            le32(cfg, ptr + 16) as u32
        } else {
            0
        },
    }
}

/// Records the capability at `ptr` if it is a virtio vendor capability of a
/// known type; a later capability of a type replaces an earlier one.
pub open spec fn record_cap(cfg: Seq<u8>, ptr: int, found: CapsFound) -> CapsFound {
    if cfg[ptr] != PCI_CAP_ID_VNDR {
        found
    } else {
        let c = cap_at(cfg, ptr);
        let t = cfg[ptr + 3];
        if t == VIRTIO_PCI_CAP_COMMON_CFG {
            CapsFound { common: Some(c), ..found }
        } else if t == VIRTIO_PCI_CAP_NOTIFY_CFG {
            CapsFound { notify: Some(c), ..found }
        } else if t == VIRTIO_PCI_CAP_ISR_CFG {
            CapsFound { isr: Some(c), ..found }
        } else if t == VIRTIO_PCI_CAP_DEVICE_CFG {
            CapsFound { device_cfg: Some(c), ..found }
        } else {
            found
        }
    }
}

/// Follows the capability list from `ptr` for at most `fuel` entries;
/// `None` when the list has not ended by then.
pub open spec fn walk_caps(cfg: Seq<u8>, ptr: u8, fuel: nat, found: CapsFound) -> Option<CapsFound>
    decreases fuel,
{
    if ptr == 0 {
        Some(found)
    } else if fuel == 0 {
        None
    } else {
        walk_caps(cfg, cfg[ptr + 1], (fuel - 1) as nat, record_cap(cfg, ptr as int, found))
    }
}

pub open spec fn no_caps() -> CapsFound {
    CapsFound { common: None, notify: None, isr: None, device_cfg: None }
}

/// The result of capability discovery on configuration space `cfg`.
pub open spec fn discover_spec(cfg: Seq<u8>) -> Result<VirtioCapabilities, CapError> {
    if (le16(cfg, PCI_STATUS as int) as u16) & PCI_STATUS_CAP_LIST == 0 {
        Err(CapError::NoCapabilityList)
    } else {
        match walk_caps(cfg, cfg[PCI_CAP_PTR as int], 256, no_caps()) {
            None => Err(CapError::CapabilityLoop),
            Some(f) => if f.common is None {
                Err(CapError::MissingCommonCfg)
            } else if f.notify is None {
                Err(CapError::MissingNotifyCfg)
            } else if f.isr is None {
                Err(CapError::MissingIsrCfg)
            } else if f.device_cfg is None {
                Err(CapError::MissingDeviceCfg)
            } else {
                Ok(
                    VirtioCapabilities {
                        common: f.common->0,
                        notify: f.notify->0,
                        isr: f.isr->0,
                        device_cfg: f.device_cfg->0,
                    },
                )
            },
        }
    }
}

/// `cfg` and `cfg2` agree on what a capability at `p` says: its first 20
/// bytes (header, BAR, offset, length, notify multiplier), leaving out the
/// capability-length byte `p + 2`.
pub open spec fn same_cap_fields(cfg: Seq<u8>, cfg2: Seq<u8>, p: int) -> bool {
    forall|j: int| 0 <= j < 20 && j != 2 ==> #[trigger] cfg[p + j] == cfg2[p + j]
}

/// `cfg` and `cfg2` agree, in the sense of `same_cap_fields`, on each of the
/// first `fuel` capabilities of the list that starts at `ptr` in `cfg`.
pub open spec fn same_cap_list(cfg: Seq<u8>, cfg2: Seq<u8>, ptr: u8, fuel: nat) -> bool
    decreases fuel,
{
    if ptr == 0 || fuel == 0 {
        true
    } else {
        same_cap_fields(cfg, cfg2, ptr as int) && same_cap_list(cfg, cfg2, cfg[ptr + 1], (fuel - 1) as nat)
    }
}

/// Every virtio vendor capability of a known type is recorded, whatever
/// its capability-length byte says: the common, notify, ISR or device
/// capability becomes the one in BAR `cfg[p + 4]` at the little-endian
/// offset and length of bytes `p + 8` and `p + 12`, and the others found so
/// far stay.
pub proof fn lemma_known_cap_recorded(cfg: Seq<u8>, p: int, found: CapsFound)
    requires
        0 <= p,
        p + 20 <= cfg.len(),
        cfg[p] == PCI_CAP_ID_VNDR,
        1 <= cfg[p + 3] <= 4,
    ensures
        ({
            let r = record_cap(cfg, p, found);
            let t = cfg[p + 3];
            let c = if t == 1 { r.common } else if t == 2 { r.notify } else if t == 3 { r.isr } else { r.device_cfg };
            &&& c is Some
            &&& c->0.bar == cfg[p + 4]
            &&& c->0.offset == le32(cfg, p + 8)
            &&& c->0.length == le32(cfg, p + 12)
            &&& t != 1 ==> r.common == found.common
            &&& t != 2 ==> r.notify == found.notify
            &&& t != 3 ==> r.isr == found.isr
            &&& t != 4 ==> r.device_cfg == found.device_cfg
        }),
{
    assert(0 <= le32(cfg, p + 8) < 0x1_0000_0000);
    assert(0 <= le32(cfg, p + 12) < 0x1_0000_0000);
}

/// Recording a capability does not read its capability-length byte.
pub proof fn lemma_record_cap_ignores_cap_len(cfg: Seq<u8>, cfg2: Seq<u8>, p: int, found: CapsFound)
    requires
        0 <= p,
        p + 20 <= cfg.len(),
        cfg.len() == cfg2.len(),
        same_cap_fields(cfg, cfg2, p),
    ensures
        record_cap(cfg, p, found) == record_cap(cfg2, p, found),
{
    assert(cfg[p + 0] == cfg2[p + 0]);
    assert(cfg[p + 3] == cfg2[p + 3]);
    assert(cfg[p + 4] == cfg2[p + 4]);
    assert(cfg[p + 8] == cfg2[p + 8] && cfg[p + 9] == cfg2[p + 9] && cfg[p + 10] == cfg2[p + 10] && cfg[p + 11] == cfg2[p + 11]);
    assert(cfg[p + 12] == cfg2[p + 12] && cfg[p + 13] == cfg2[p + 13] && cfg[p + 14] == cfg2[p + 14] && cfg[p + 15] == cfg2[p + 15]);
    assert(cfg[p + 16] == cfg2[p + 16] && cfg[p + 17] == cfg2[p + 17] && cfg[p + 18] == cfg2[p + 18] && cfg[p + 19] == cfg2[p + 19]);
    assert(le32(cfg, p + 8) == le32(cfg2, p + 8));
    assert(le32(cfg, p + 12) == le32(cfg2, p + 12));
    assert(le32(cfg, p + 16) == le32(cfg2, p + 16));
}

/// Walking the capability list does not read the capability-length bytes.
pub proof fn lemma_walk_ignores_cap_len(cfg: Seq<u8>, cfg2: Seq<u8>, ptr: u8, fuel: nat, found: CapsFound)
    requires
        cfg.len() == CONFIG_SPACE_BYTES,
        cfg2.len() == CONFIG_SPACE_BYTES,
        same_cap_list(cfg, cfg2, ptr, fuel),
    ensures
        walk_caps(cfg, ptr, fuel, found) == walk_caps(cfg2, ptr, fuel, found),
    decreases fuel,
{
    if ptr != 0 && fuel != 0 {
        assert(cfg[ptr + 1] == cfg2[ptr + 1]);
        lemma_record_cap_ignores_cap_len(cfg, cfg2, ptr as int, found);
        lemma_walk_ignores_cap_len(cfg, cfg2, cfg[ptr + 1], (fuel - 1) as nat, record_cap(cfg, ptr as int, found));
    }
}

/// Discovery does not depend on the capability-length byte of any
/// capability: two configuration spaces that agree on the status register,
/// the capability pointer and everything else the capabilities of the list
/// say give the same result. A notify capability of 20 bytes, as devices
/// lay it out, is found like one of 16.
pub proof fn lemma_discover_ignores_cap_len(cfg: Seq<u8>, cfg2: Seq<u8>)
    requires
        cfg.len() == CONFIG_SPACE_BYTES,
        cfg2.len() == CONFIG_SPACE_BYTES,
        cfg[PCI_STATUS as int] == cfg2[PCI_STATUS as int],
        cfg[PCI_STATUS + 1] == cfg2[PCI_STATUS + 1],
        cfg[PCI_CAP_PTR as int] == cfg2[PCI_CAP_PTR as int],
        same_cap_list(cfg, cfg2, cfg[PCI_CAP_PTR as int], 256),
    ensures
        discover_spec(cfg) == discover_spec(cfg2),
{
    lemma_walk_ignores_cap_len(cfg, cfg2, cfg[PCI_CAP_PTR as int], 256, no_caps());
}

fn record_cap_exec(cfg: &[u8], ptr: u8, found: CapsFound) -> (r: CapsFound)
    requires
        cfg@.len() == CONFIG_SPACE_BYTES,
    ensures
        r == record_cap(cfg@, ptr as int, found),
{
    let p = ptr as usize;
    if cfg[p] != PCI_CAP_ID_VNDR {
        return found;
    }
    let cfg_type = cfg[p + 3];
    let bar = cfg[p + 4];
    let offset = read32(cfg, p + 8);
    let length = read32(cfg, p + 12);
    let notify_off_multiplier = if cfg_type == VIRTIO_PCI_CAP_NOTIFY_CFG {
        read32(cfg, p + 16)
    } else {
        0
    };
    let c = RawCap { bar, offset, length, notify_off_multiplier };
    if cfg_type == VIRTIO_PCI_CAP_COMMON_CFG {
        CapsFound { common: Some(c), ..found }
    } else if cfg_type == VIRTIO_PCI_CAP_NOTIFY_CFG {
        CapsFound { notify: Some(c), ..found }
    } else if cfg_type == VIRTIO_PCI_CAP_ISR_CFG {
        CapsFound { isr: Some(c), ..found }
    } else if cfg_type == VIRTIO_PCI_CAP_DEVICE_CFG {
        CapsFound { device_cfg: Some(c), ..found }
    } else {
        found
    }
}

impl VirtioCapabilities {
    /// Finds the common, notify, ISR and device configuration capabilities by
    /// walking the capability list of configuration space `cfg`.
    pub fn discover(cfg: &[u8]) -> (r: Result<VirtioCapabilities, CapError>)
        requires
            cfg@.len() == CONFIG_SPACE_BYTES,
        ensures
            r == discover_spec(cfg@),
    {
        let status = read16(cfg, PCI_STATUS as usize);
        if status & PCI_STATUS_CAP_LIST == 0 {
            return Err(CapError::NoCapabilityList);
        }
        let mut found = CapsFound { common: None, notify: None, isr: None, device_cfg: None };
        let mut ptr: u8 = cfg[PCI_CAP_PTR as usize];
        let mut fuel: u16 = 256;
        while ptr != 0
            invariant
                cfg@.len() == CONFIG_SPACE_BYTES,
                fuel <= 256,
                (le16(cfg@, PCI_STATUS as int) as u16) & PCI_STATUS_CAP_LIST != 0,
                walk_caps(cfg@, ptr, fuel as nat, found) == walk_caps(
                    cfg@,
                    cfg@[PCI_CAP_PTR as int],
                    256,
                    no_caps(),
                ),
            decreases fuel,
        {
            if fuel == 0 {
                assert(walk_caps(cfg@, ptr, 0, found) is None);
                return Err(CapError::CapabilityLoop);
            }
            let next = cfg[ptr as usize + 1];
            found = record_cap_exec(cfg, ptr, found);
            ptr = next;
            fuel = fuel - 1;
        }
        match (found.common, found.notify, found.isr, found.device_cfg) {
            (None, _, _, _) => Err(CapError::MissingCommonCfg),
            (_, None, _, _) => Err(CapError::MissingNotifyCfg),
            (_, _, None, _) => Err(CapError::MissingIsrCfg),
            (_, _, _, None) => Err(CapError::MissingDeviceCfg),
            (Some(common), Some(notify), Some(isr), Some(device_cfg)) => Ok(
                VirtioCapabilities { common, notify, isr, device_cfg },
            ),
        }
    }
}

// ---- base address registers ----

/// A memory BAR with bits 2:1 equal to 2 is the low half of a 64-bit BAR.
pub open spec fn bar_is_64_spec(low: u32) -> bool {
    (low >> 1u32) & 3 == 2
}

/// Whether a BAR register value describes a 64-bit BAR.
pub fn bar_is_64(low: u32) -> (r: bool)
    ensures
        r == bar_is_64_spec(low),
{
    (low >> 1) & 0x3 == 0x2
}

/// Offset of BAR `bar_index`'s register.
pub open spec fn bar_reg(bar_index: u8) -> int {
    PCI_BAR0 + bar_index * 4
}

/// The physical base address BAR `bar_index` describes: the low register
/// with its flag bits cleared, extended by the following register for a
/// 64-bit BAR. I/O-space BARs are refused.
pub open spec fn bar_base_spec(cfg: Seq<u8>, bar_index: u8) -> Result<u64, CapError> {
    let low = le32(cfg, bar_reg(bar_index)) as u32;
    if low & 1 != 0 {
        Err(CapError::IoSpaceBar)
    } else if bar_is_64_spec(low) {
        Ok(((low & 0xFFFF_FFF0) as u64 | ((le32(cfg, bar_reg(bar_index) + 4) as u32 as u64) << 32u64)) as u64)
    } else {
        Ok((low & 0xFFFF_FFF0) as u64)
    }
}

/// Physical base address of BAR `bar_index` (32- or 64-bit).
pub fn bar_base(cfg: &[u8], bar_index: u8) -> (r: Result<u64, CapError>)
    requires
        cfg@.len() == CONFIG_SPACE_BYTES,
    ensures
        r == bar_base_spec(cfg@, bar_index),
{
    let off = PCI_BAR0 as usize + bar_index as usize * 4;
    let low = read32(cfg, off);
    if low & 0x1 != 0 {
        return Err(CapError::IoSpaceBar);
    }
    let base_low = (low & !0xFu32) as u64;
    assert(low & !0xFu32 == low & 0xFFFF_FFF0) by (bit_vector);
    if bar_is_64(low) {
        let high = read32(cfg, off + 4);
        Ok(base_low | ((high as u64) << 32))
    } else {
        Ok(base_low)
    }
}

/// Size of a BAR from the standard write-all-ones probe: `orig_low` is the
/// BAR register before probing, `mask_low` and `mask_high` are the values
/// read back from the low and (for a 64-bit BAR) high registers after
/// writing all ones.
pub fn bar_size(orig_low: u32, mask_low: u32, mask_high: u32) -> (r: u64)
    ensures
        bar_is_64_spec(orig_low) ==> r == (0x1_0000_0000_0000_0000 - ((mask_low & 0xFFFF_FFF0) + mask_high
            * 0x1_0000_0000)) % 0x1_0000_0000_0000_0000,
        !bar_is_64_spec(orig_low) ==> r == 0x1_0000_0000 - (mask_low & 0xFFFF_FFF0),
{
    let m_low = mask_low & !0xFu32;
    assert(mask_low & !0xFu32 == mask_low & 0xFFFF_FFF0) by (bit_vector);
    if bar_is_64(orig_low) {
        let mask = (m_low as u64) | ((mask_high as u64) << 32);
        assert(mask == m_low + mask_high * 0x1_0000_0000) by (bit_vector)
            requires
                mask == (m_low as u64) | ((mask_high as u64) << 32),
        ;
        let r = (!mask).wrapping_add(1);
        assert(r == (0x1_0000_0000_0000_0000 - mask) % 0x1_0000_0000_0000_0000) by (bit_vector)
            requires
                r == (!mask).wrapping_add(1),
        ;
        r
    } else {
        let r = ((!m_low) as u64).wrapping_add(1);
        assert(r == 0x1_0000_0000 - m_low) by (bit_vector)
            requires
                r == ((!m_low) as u64).wrapping_add(1),
        ;
        r
    }
}

/// Where capability `cap` lives: the BAR's base plus the capability's offset,
/// and its length. Capabilities in I/O-space BARs and empty ones are refused.
pub fn cap_window(cfg: &[u8], cap: &RawCap) -> (r: Result<(u64, u32), CapError>)
    requires
        cfg@.len() == CONFIG_SPACE_BYTES,
    ensures
        r == (match bar_base_spec(cfg@, cap.bar) {
            Err(e) => Err(e),
            Ok(base) => if base + cap.offset > u64::MAX {
                Err(CapError::AddressOverflow)
            } else if cap.length == 0 {
                Err(CapError::ZeroLength)
            } else {
                Ok(((base + cap.offset) as u64, cap.length))
            },
        }),
{
    let base = bar_base(cfg, cap.bar)?;
    if base > u64::MAX - cap.offset as u64 {
        return Err(CapError::AddressOverflow);
    }
    if cap.length == 0 {
        return Err(CapError::ZeroLength);
    }
    Ok((base + cap.offset as u64, cap.length))
}

} // verus!
