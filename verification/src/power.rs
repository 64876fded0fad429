use vstd::prelude::*;

use crate::error::MyError;

verus! {

/// Power preference passed across the C boundary when a pipeline is created.
/// `code` and `from_code` fix the stable integer encoding of each variant.
#[derive(Clone, Copy, Debug, PartialEq, Eq, Structural)]
pub enum CPowerPreference {
    NoPreference,
    LowPower,
    HighPerformance,
}

impl CPowerPreference {
    /// The integer each variant travels as at the C boundary.
    pub fn code(&self) -> (c: u8)
        ensures
            c == self.spec_code(),
    {
        match self {
            CPowerPreference::NoPreference => 0,
            CPowerPreference::LowPower => 1,
            CPowerPreference::HighPerformance => 2,
        }
    }

    pub open spec fn spec_code(self) -> u8 {
        match self {
            CPowerPreference::NoPreference => 0,
            CPowerPreference::LowPower => 1,
            CPowerPreference::HighPerformance => 2,
        }
    }

    /// Decodes the C-side integer; values outside the encoding are refused.
    pub fn from_code(c: u8) -> (r: Option<CPowerPreference>)
        ensures
            match r {
                Some(p) => p.spec_code() == c,
                None => c > 2,
            },
    {
        match c {
            0 => Some(CPowerPreference::NoPreference),
            1 => Some(CPowerPreference::LowPower),
            2 => Some(CPowerPreference::HighPerformance),
            _ => None,
        }
    }
}

/// The device type an adapter reports, in the terms the selection policy
/// ranks: a discrete GPU is preferred, then integrated, then virtual, then
/// CPU emulation, then anything else.
#[derive(Clone, Copy, Debug, PartialEq, Eq, Structural)]
pub enum AdapterKind {
    DiscreteGpu,
    IntegratedGpu,
    VirtualGpu,
    Cpu,
    Other,
}

impl AdapterKind {
    /// Lower ranks are preferred when selecting an adapter.
    pub fn rank(&self) -> (r: u32)
        ensures
            r == self.spec_rank(),
    {
        match self {
            AdapterKind::DiscreteGpu => 0,
            AdapterKind::IntegratedGpu => 1,
            AdapterKind::VirtualGpu => 2,
            AdapterKind::Cpu => 3,
            AdapterKind::Other => 4,
        }
    }

    pub open spec fn spec_rank(self) -> u32 {
        match self {
            AdapterKind::DiscreteGpu => 0,
            AdapterKind::IntegratedGpu => 1,
            AdapterKind::VirtualGpu => 2,
            AdapterKind::Cpu => 3,
            AdapterKind::Other => 4,
        }
    }
}

/// What the host layer learns about one enumerated adapter: its device type
/// and whether it exposes a compute-capable queue with the features the
/// stages need (16-bit storage access and 16-bit shader arithmetic).
#[derive(Clone, Copy, Debug, PartialEq, Eq, Structural)]
pub struct AdapterInfo {
    pub kind: AdapterKind,
    pub supports_compute: bool,
}

/// Picks which enumerated adapter to request a device from: the first
/// compute-capable adapter of minimal rank. Fails with `NoSuitableAdapter`
/// when no adapter supports the required compute features.
pub fn select_adapter(adapters: &Vec<AdapterInfo>) -> (r: Result<usize, MyError>)
    ensures
        match r {
            Ok(i) => {
                &&& i < adapters@.len()
                &&& adapters@[i as int].supports_compute
                &&& forall|j: int|
                    0 <= j < adapters@.len() && adapters@[j].supports_compute
                        ==> adapters@[i as int].kind.spec_rank() <= #[trigger] adapters@[j].kind.spec_rank()
                &&& forall|j: int|
                    0 <= j < i && adapters@[j].supports_compute
                        ==> adapters@[i as int].kind.spec_rank() < #[trigger] adapters@[j].kind.spec_rank()
            },
            Err(e) => {
                &&& e == MyError::NoSuitableAdapter
                &&& forall|j: int|
                    0 <= j < adapters@.len() ==> !(#[trigger] adapters@[j].supports_compute)
            },
        },
{
    let mut best: Option<usize> = None;
    let mut idx: usize = 0;
    while idx < adapters.len()
        invariant
            idx <= adapters@.len(),
            match best {
                Some(b) => {
                    &&& b < idx
                    &&& adapters@[b as int].supports_compute
                    &&& forall|j: int|
                        0 <= j < idx && adapters@[j].supports_compute
                            ==> adapters@[b as int].kind.spec_rank() <= #[trigger] adapters@[j].kind.spec_rank()
                    &&& forall|j: int|
                        0 <= j < b && adapters@[j].supports_compute
                            ==> adapters@[b as int].kind.spec_rank() < #[trigger] adapters@[j].kind.spec_rank()
                },
                None => forall|j: int|
                    0 <= j < idx ==> !(#[trigger] adapters@[j].supports_compute),
            },
        decreases adapters@.len() - idx,
    {
        let info = adapters[idx];
        if info.supports_compute {
            match best {
                Some(b) => {
                    let current = adapters[b];
                    if info.kind.rank() < current.kind.rank() {
                        best = Some(idx);
                    }
                },
                None => {
                    best = Some(idx);
                },
            }
        }
        idx = idx + 1;
    }
    match best {
        Some(b) => Ok(b),
        None => Err(MyError::NoSuitableAdapter),
    }
}

} // verus!
