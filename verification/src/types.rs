//! Value types of the intermediate representation.

use vstd::prelude::*;

verus! {

/// What a single lane of a value holds.
#[derive(Clone, Copy, Debug, PartialEq, Eq, Structural)]
pub enum LaneKind {
    Int,
    Float,
    Bool,
}

/// A scalar or vector value type: `lanes` lanes of `lane_bits` bits each.
#[derive(Clone, Copy, Debug, PartialEq, Eq, Structural)]
pub struct Type {
    pub kind: LaneKind,
    pub lane_bits: u8,
    pub lanes: u16,
}

/// The lane widths that a lane kind admits.
pub open spec fn lane_bits_ok(kind: LaneKind, bits: int) -> bool {
    match kind {
        LaneKind::Int => bits == 8 || bits == 16 || bits == 32 || bits == 64 || bits == 128,
        LaneKind::Float => bits == 32 || bits == 64,
        LaneKind::Bool => bits == 1 || bits == 8 || bits == 16 || bits == 32 || bits == 64,
    }
}

/// The lane counts of a type: the powers of two up to 256.
pub open spec fn lanes_ok(lanes: int) -> bool {
    lanes == 1 || lanes == 2 || lanes == 4 || lanes == 8 || lanes == 16 || lanes == 32
        || lanes == 64 || lanes == 128 || lanes == 256
}

impl Type {
    /// A type is well formed when its lane width suits its kind and its lane
    /// count is a power of two of at most 256.
    pub open spec fn wf(self) -> bool {
        lane_bits_ok(self.kind, self.lane_bits as int) && lanes_ok(self.lanes as int)
    }

    /// Whether the type is well formed.
    pub fn is_wf(self) -> (r: bool)
        ensures
            r == self.wf(),
    {
        let bits = self.lane_bits;
        let lanes = self.lanes;
        let bits_ok = match self.kind {
            LaneKind::Int => bits == 8 || bits == 16 || bits == 32 || bits == 64 || bits == 128,
            LaneKind::Float => bits == 32 || bits == 64,
            LaneKind::Bool => bits == 1 || bits == 8 || bits == 16 || bits == 32 || bits == 64,
        };
        bits_ok && (lanes == 1 || lanes == 2 || lanes == 4 || lanes == 8 || lanes == 16 || lanes
            == 32 || lanes == 64 || lanes == 128 || lanes == 256)
    }

    /// Total width in bits, as a mathematical integer.
    pub open spec fn spec_bits(self) -> int {
        self.lane_bits as int * self.lanes as int
    }

    /// Total width in bits.
    pub fn bits(self) -> (r: u16)
        requires
            self.wf(),
        ensures
            r as int == self.spec_bits(),
    {
        let lb: u16 = self.lane_bits as u16;
        assert(self.lane_bits as int * self.lanes as int <= 128 * 256) by (nonlinear_arith)
            requires
                self.lane_bits <= 128,
                self.lanes <= 256,
        ;
        lb * self.lanes
    }

    /// Whether the type has more than one lane.
    pub fn is_vector(self) -> (r: bool)
        ensures
            r == (self.lanes > 1),
    {
        self.lanes > 1
    }

    /// Whether the lanes are integers.
    pub fn is_int(self) -> (r: bool)
        ensures
            r == (self.kind == LaneKind::Int),
    {
        self.kind == LaneKind::Int
    }

    /// Whether the lanes are floating-point numbers.
    pub fn is_float(self) -> (r: bool)
        ensures
            r == (self.kind == LaneKind::Float),
    {
        self.kind == LaneKind::Float
    }

    /// Whether the lanes are booleans.
    pub fn is_bool(self) -> (r: bool)
        ensures
            r == (self.kind == LaneKind::Bool),
    {
        self.kind == LaneKind::Bool
    }

    /// The scalar integer type of the given width, where there is one.
    pub fn integer(bits: u16) -> (r: Option<Type>)
        ensures
            r == Self::spec_integer(bits),
    {
        if bits == 8 || bits == 16 || bits == 32 || bits == 64 || bits == 128 {
            Some(Type { kind: LaneKind::Int, lane_bits: bits as u8, lanes: 1 })
        } else {
            None
        }
    }

    /// The scalar integer type of the given width, where there is one.
    pub open spec fn spec_integer(bits: u16) -> Option<Type> {
        if lane_bits_ok(LaneKind::Int, bits as int) {
            Some(Type { kind: LaneKind::Int, lane_bits: bits as u8, lanes: 1 })
        } else {
            None
        }
    }

    /// Whether the type can be cut into two halves of the same kind: a vector
    /// always, a scalar when half its width is a lane width of its kind.
    pub open spec fn can_halve(self) -> bool {
        self.lanes > 1 || lane_bits_ok(self.kind, self.lane_bits as int / 2)
    }

    /// The type of one half of a value of this type: half the lanes of a
    /// vector, half the width of a scalar.
    pub open spec fn spec_half(self) -> Type {
        if self.lanes > 1 {
            Type { kind: self.kind, lane_bits: self.lane_bits, lanes: (self.lanes / 2) as u16 }
        } else {
            Type { kind: self.kind, lane_bits: (self.lane_bits / 2) as u8, lanes: 1 }
        }
    }

    /// The type of one half of a value of this type.
    pub fn half(self) -> (r: Type)
        requires
            self.wf(),
            self.can_halve(),
        ensures
            r == self.spec_half(),
            r.wf(),
            2 * r.spec_bits() == self.spec_bits(),
    {
        if self.lanes > 1 {
            let r = Type { kind: self.kind, lane_bits: self.lane_bits, lanes: self.lanes / 2 };
            assert(2 * (self.lane_bits as int * (self.lanes as int / 2)) == self.lane_bits as int
                * self.lanes as int) by (nonlinear_arith)
                requires
                    self.lanes as int % 2 == 0,
            ;
            r
        } else {
            Type { kind: self.kind, lane_bits: self.lane_bits / 2, lanes: 1 }
        }
    }
}

/// The 8-bit integer type.
pub fn int8() -> (r: Type)
    ensures
        r == (Type { kind: LaneKind::Int, lane_bits: 8, lanes: 1 }),
{
    Type { kind: LaneKind::Int, lane_bits: 8, lanes: 1 }
}

/// The 16-bit integer type.
pub fn int16() -> (r: Type)
    ensures
        r == (Type { kind: LaneKind::Int, lane_bits: 16, lanes: 1 }),
{
    Type { kind: LaneKind::Int, lane_bits: 16, lanes: 1 }
}

/// The 32-bit integer type.
pub fn int32() -> (r: Type)
    ensures
        r == (Type { kind: LaneKind::Int, lane_bits: 32, lanes: 1 }),
{
    Type { kind: LaneKind::Int, lane_bits: 32, lanes: 1 }
}

/// The 64-bit integer type.
pub fn int64() -> (r: Type)
    ensures
        r == (Type { kind: LaneKind::Int, lane_bits: 64, lanes: 1 }),
{
    Type { kind: LaneKind::Int, lane_bits: 64, lanes: 1 }
}

/// The 128-bit integer type.
pub fn int128() -> (r: Type)
    ensures
        r == (Type { kind: LaneKind::Int, lane_bits: 128, lanes: 1 }),
{
    Type { kind: LaneKind::Int, lane_bits: 128, lanes: 1 }
}

/// The single-precision floating-point type.
pub fn float32() -> (r: Type)
    ensures
        r == (Type { kind: LaneKind::Float, lane_bits: 32, lanes: 1 }),
{
    Type { kind: LaneKind::Float, lane_bits: 32, lanes: 1 }
}

/// The double-precision floating-point type.
pub fn float64() -> (r: Type)
    ensures
        r == (Type { kind: LaneKind::Float, lane_bits: 64, lanes: 1 }),
{
    Type { kind: LaneKind::Float, lane_bits: 64, lanes: 1 }
}

/// The one-bit boolean type.
pub fn bool1() -> (r: Type)
    ensures
        r == (Type { kind: LaneKind::Bool, lane_bits: 1, lanes: 1 }),
{
    Type { kind: LaneKind::Bool, lane_bits: 1, lanes: 1 }
}


/// The type of what has no type: it stands where an instruction has no
/// controlling type.
pub fn invalid() -> (r: Type)
    ensures
        r == (Type { kind: LaneKind::Int, lane_bits: 0, lanes: 0 }),
        !r.wf(),
{
    Type { kind: LaneKind::Int, lane_bits: 0, lanes: 0 }
}

} // verus!
