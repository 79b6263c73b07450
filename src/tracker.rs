use vstd::prelude::*;

verus! {

/// The health of one tracker as the server sees it.
#[derive(Clone, Copy, Debug, PartialEq, Eq, Structural)]
pub enum TrackerStatus {
    Healthy,
    Error,
    Off,
    TimedOut,
}

/// Three single-precision components, each held as its IEEE-754 bit pattern.
#[derive(Clone, Copy, Debug, PartialEq, Eq, Structural)]
pub struct Vec3Bits {
    pub x: u32,
    pub y: u32,
    pub z: u32,
}

/// A quaternion whose four single-precision components are held as IEEE-754 bit patterns.
#[derive(Clone, Copy, Debug, PartialEq, Eq, Structural)]
pub struct QuatBits {
    pub x: u32,
    pub y: u32,
    pub z: u32,
    pub w: u32,
}

/// Bit pattern of the single-precision value 1.0.
pub const F32_ONE_BITS: u32 = 0x3f80_0000;

impl Vec3Bits {
    /// The zero vector.
    pub fn zero() -> (r: Vec3Bits)
        ensures
            r == (Vec3Bits { x: 0, y: 0, z: 0 }),
    {
        Vec3Bits { x: 0, y: 0, z: 0 }
    }
}

impl QuatBits {
    /// The identity rotation (0, 0, 0, 1).
    pub fn identity() -> (r: QuatBits)
        ensures
            r == (QuatBits { x: 0, y: 0, z: 0, w: F32_ONE_BITS }),
    {
        QuatBits { x: 0, y: 0, z: 0, w: F32_ONE_BITS }
    }
}

/// Motion data of a tracker: its orientation and its acceleration.
#[derive(Clone, Copy, Debug, PartialEq, Eq, Structural)]
pub struct TrackerData {
    pub orientation: QuatBits,
    pub acceleration: Vec3Bits,
}

impl TrackerData {
    /// Data of a tracker that has reported nothing yet: identity orientation, no acceleration.
    pub open spec fn rest() -> TrackerData {
        TrackerData {
            orientation: QuatBits { x: 0, y: 0, z: 0, w: F32_ONE_BITS },
            acceleration: Vec3Bits { x: 0, y: 0, z: 0 },
        }
    }

    pub fn at_rest() -> (r: TrackerData)
        ensures
            r == TrackerData::rest(),
    {
        TrackerData { orientation: QuatBits::identity(), acceleration: Vec3Bits::zero() }
    }
}

/// Identity and status of a tracker.
#[derive(Debug)]
pub struct TrackerInfo {
    pub index: usize,
    pub id: String,
    pub status: TrackerStatus,
}

impl TrackerInfo {
    /// An exact copy of this record.
    pub fn snapshot(&self) -> (r: TrackerInfo)
        ensures
            r == *self,
    {
        TrackerInfo { index: self.index, id: self.id.clone(), status: self.status }
    }
}

/// Settings a tracker is registered with.
#[derive(Debug)]
pub struct TrackerConfig {
    pub name: String,
}

impl TrackerConfig {
    pub fn with_name(name: String) -> (r: TrackerConfig)
        ensures
            r.name == name,
    {
        TrackerConfig { name }
    }
}

/// One tracker held by the registry.
#[derive(Debug)]
pub struct Tracker {
    pub info: TrackerInfo,
    pub data: TrackerData,
    pub config: TrackerConfig,
}

impl Tracker {
    /// A freshly registered tracker: status `Ok`, at rest.
    pub fn new(id: String, index: usize, config: TrackerConfig) -> (r: Tracker)
        ensures
            r.info == (TrackerInfo { index, id, status: TrackerStatus::Healthy }),
            r.data == TrackerData::rest(),
            r.config == config,
    {
        Tracker {
            info: TrackerInfo { index, id, status: TrackerStatus::Healthy },
            data: TrackerData::at_rest(),
            config,
        }
    }
}

} // verus!
