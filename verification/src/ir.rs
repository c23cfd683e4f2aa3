//! The parts of the intermediate representation that the backend reads and
//! writes: signatures, instructions and the instruction stream of a function.

use vstd::prelude::*;
use crate::registers::RegUnit;
use crate::types::Type;

verus! {

/// How a narrow integer argument wants to be widened to a full register.
#[derive(Clone, Copy, Debug, PartialEq, Eq, Structural)]
pub enum ArgumentExtension {
    /// No particular extension: the high bits are unspecified.
    NoExt,
    /// Zero-extend to a full register.
    Uext,
    /// Sign-extend to a full register.
    Sext,
}

/// The special role that an argument or return value may play.
#[derive(Clone, Copy, Debug, PartialEq, Eq, Structural)]
pub enum ArgumentPurpose {
    /// An ordinary value.
    Normal,
    /// The return address.
    Link,
    /// The caller's frame pointer.
    FramePointer,
    /// A register that the callee must preserve.
    CalleeSaved,
}

/// Where an argument or return value lives at a call.
#[derive(Clone, Copy, Debug, PartialEq, Eq, Structural)]
pub enum ArgumentLoc {
    /// Not decided yet.
    Unassigned,
    /// In the given register unit.
    Reg(RegUnit),
    /// On the stack, at the given byte offset.
    Stack(i32),
}

impl ArgumentExtension {
    /// Whether an extension is asked for.
    pub fn is_some(self) -> (r: bool)
        ensures
            r == (self != ArgumentExtension::NoExt),
    {
        match self {
            ArgumentExtension::NoExt => false,
            _ => true,
        }
    }
}

impl ArgumentLoc {
    /// Whether a register or a stack slot has been decided.
    pub fn is_assigned(self) -> (r: bool)
        ensures
            r == (self != ArgumentLoc::Unassigned),
    {
        match self {
            ArgumentLoc::Unassigned => false,
            _ => true,
        }
    }
}

/// One parameter or return value of a signature.
#[derive(Clone, Copy, Debug, PartialEq, Eq, Structural)]
pub struct AbiParam {
    pub value_type: Type,
    pub purpose: ArgumentPurpose,
    pub extension: ArgumentExtension,
    pub location: ArgumentLoc,
}

impl AbiParam {
    /// An ordinary parameter of the given type, with no extension and no
    /// location.
    pub fn new(value_type: Type) -> (r: AbiParam)
        ensures
            r == (AbiParam {
                value_type,
                purpose: ArgumentPurpose::Normal,
                extension: ArgumentExtension::NoExt,
                location: ArgumentLoc::Unassigned,
            }),
    {
        AbiParam {
            value_type,
            purpose: ArgumentPurpose::Normal,
            extension: ArgumentExtension::NoExt,
            location: ArgumentLoc::Unassigned,
        }
    }

    /// A parameter with a special purpose that lives in a fixed register.
    pub fn special_reg(value_type: Type, purpose: ArgumentPurpose, unit: RegUnit) -> (r: AbiParam)
        ensures
            r == (AbiParam {
                value_type,
                purpose,
                extension: ArgumentExtension::NoExt,
                location: ArgumentLoc::Reg(unit),
            }),
    {
        AbiParam {
            value_type,
            purpose,
            extension: ArgumentExtension::NoExt,
            location: ArgumentLoc::Reg(unit),
        }
    }

    /// The same parameter, to be zero-extended.
    pub fn uext(self) -> (r: AbiParam)
        ensures
            r == (AbiParam { extension: ArgumentExtension::Uext, ..self }),
    {
        AbiParam { extension: ArgumentExtension::Uext, ..self }
    }

    /// The same parameter, to be sign-extended.
    pub fn sext(self) -> (r: AbiParam)
        ensures
            r == (AbiParam { extension: ArgumentExtension::Sext, ..self }),
    {
        AbiParam { extension: ArgumentExtension::Sext, ..self }
    }
}

/// The parameters and return values of a function.
#[derive(Clone, Debug)]
pub struct Signature {
    pub params: Vec<AbiParam>,
    pub returns: Vec<AbiParam>,
}

impl Signature {
    /// A signature with no parameters and no return values.
    pub fn new() -> (r: Signature)
        ensures
            r.params@.len() == 0,
            r.returns@.len() == 0,
    {
        Signature { params: Vec::new(), returns: Vec::new() }
    }
}

/// A value of a function, by its number.
pub type Value = u32;

/// What an instruction does.
#[derive(Clone, Copy, Debug, PartialEq, Eq, Structural)]
pub enum Opcode {
    /// Do nothing.
    Nop,
    /// Add two integers.
    Iadd,
    /// Multiply two integers.
    Imul,
    /// Add a constant to an integer.
    IaddImm,
    /// Shift an integer left by a constant.
    IshlImm,
    /// Branch if an integer is below zero.
    BranchLtz,
    /// Branch if an integer is zero or above.
    BranchGez,
    /// Jump.
    Jump,
    /// Call a function and come back.
    Call,
}

/// An instruction: its opcode and its operands, in one of a few shapes.
#[derive(Clone, Copy, Debug, PartialEq, Eq, Structural)]
pub enum InstructionData {
    /// No operands.
    NullAry { opcode: Opcode },
    /// Two values.
    Binary { opcode: Opcode, lhs: Value, rhs: Value },
    /// A value and a constant.
    BinaryImm { opcode: Opcode, arg: Value, imm: i64 },
    /// A value and the distance to the branch target, in instructions.
    Branch { opcode: Opcode, arg: Value, offset: i64 },
    /// The distance to the jump target, in bytes.
    Jump { opcode: Opcode, offset: i64 },
    /// The number of the external name of the function that is called.
    Call { opcode: Opcode, func_ref: u32 },
}

impl InstructionData {
    /// The opcode of the instruction.
    pub open spec fn spec_opcode(self) -> Opcode {
        match self {
            InstructionData::NullAry { opcode } => opcode,
            InstructionData::Binary { opcode, .. } => opcode,
            InstructionData::BinaryImm { opcode, .. } => opcode,
            InstructionData::Branch { opcode, .. } => opcode,
            InstructionData::Jump { opcode, .. } => opcode,
            InstructionData::Call { opcode, .. } => opcode,
        }
    }

    /// The opcode of the instruction.
    pub fn opcode(&self) -> (r: Opcode)
        ensures
            r == self.spec_opcode(),
    {
        match self {
            InstructionData::NullAry { opcode } => *opcode,
            InstructionData::Binary { opcode, .. } => *opcode,
            InstructionData::BinaryImm { opcode, .. } => *opcode,
            InstructionData::Branch { opcode, .. } => *opcode,
            InstructionData::Jump { opcode, .. } => *opcode,
            InstructionData::Call { opcode, .. } => *opcode,
        }
    }

    /// Whether every value that the instruction reads has a number under
    /// `values`.
    pub open spec fn args_below(self, values: int) -> bool {
        match self {
            InstructionData::Binary { lhs, rhs, .. } => lhs < values && rhs < values,
            InstructionData::BinaryImm { arg, .. } => arg < values,
            InstructionData::Branch { arg, .. } => arg < values,
            _ => true,
        }
    }
}

/// A choice of machine instruction: the recipe that says how the word is laid
/// out, and the bits that the recipe puts into it.
#[derive(Clone, Copy, Debug, PartialEq, Eq, Structural)]
pub struct Encoding {
    pub recipe: u16,
    pub bits: u16,
}

impl Encoding {
    /// The encoding of a recipe and its bits.
    pub fn new(recipe: u16, bits: u16) -> (r: Encoding)
        ensures
            r == (Encoding { recipe, bits }),
    {
        Encoding { recipe, bits }
    }
}

/// An instruction in its place in a function: what it does, the value it
/// defines, and the encoding chosen for it.
#[derive(Clone, Copy, Debug, PartialEq, Eq, Structural)]
pub struct Inst {
    pub data: InstructionData,
    pub result: Option<Value>,
    pub encoding: Option<Encoding>,
}

/// A function under compilation: its signature, its values with their types
/// and registers, and its instructions in program order.
#[derive(Clone, Debug)]
pub struct Function {
    /// The function's own signature.
    pub signature: Signature,
    /// The type of each value.
    pub value_types: Vec<Type>,
    /// The register unit that holds each value.
    pub locations: Vec<RegUnit>,
    /// The instructions, in program order.
    pub insts: Vec<Inst>,
}

impl Function {
    /// Every value has a type and a register, and the instructions speak of
    /// values that exist.
    pub open spec fn wf(self) -> bool {
        &&& self.value_types@.len() == self.locations@.len()
        &&& self.value_types@.len() <= u32::MAX
        &&& forall|i: int|
            0 <= i < self.insts@.len() ==> {
                let inst = #[trigger] self.insts@[i];
                &&& inst.data.args_below(self.value_types@.len() as int)
                &&& (inst.result matches Some(v) ==> v < self.value_types@.len())
            }
    }

    /// Whether every value has a type and a register, and the instructions
    /// speak of values that exist.
    pub fn is_wf(&self) -> (r: bool)
        ensures
            r == self.wf(),
    {
        let values = self.value_types.len();
        if values != self.locations.len() || values > 0xffff_ffff {
            return false;
        }
        let mut i: usize = 0;
        while i < self.insts.len()
            invariant
                i <= self.insts@.len(),
                values == self.value_types@.len(),
                values == self.locations@.len(),
                values <= u32::MAX,
                forall|k: int|
                    0 <= k < i ==> {
                        let inst = #[trigger] self.insts@[k];
                        &&& inst.data.args_below(values as int)
                        &&& (inst.result matches Some(v) ==> v < values)
                    },
            decreases self.insts@.len() - i,
        {
            let inst = self.insts[i];
            let args_ok = match inst.data {
                InstructionData::Binary { lhs, rhs, .. } => (lhs as usize) < values && (
                rhs as usize) < values,
                InstructionData::BinaryImm { arg, .. } => (arg as usize) < values,
                InstructionData::Branch { arg, .. } => (arg as usize) < values,
                _ => true,
            };
            let result_ok = match inst.result {
                Some(v) => (v as usize) < values,
                None => true,
            };
            if !args_ok || !result_ok {
                return false;
            }
            i += 1;
        }
        true
    }

    /// A function with an empty signature, no values and no instructions.
    pub fn new() -> (r: Function)
        ensures
            r.wf(),
            r.value_types@.len() == 0,
            r.insts@.len() == 0,
            r.signature.params@.len() == 0,
            r.signature.returns@.len() == 0,
    {
        Function {
            signature: Signature::new(),
            value_types: Vec::new(),
            locations: Vec::new(),
            insts: Vec::new(),
        }
    }

    /// Adds a value of type `ty`, held in the register unit `unit`, and gives
    /// its number.
    pub fn make_value(&mut self, ty: Type, unit: RegUnit) -> (v: Value)
        requires
            old(self).wf(),
            old(self).value_types@.len() < u32::MAX,
        ensures
            final(self).wf(),
            v == old(self).value_types@.len(),
            final(self).value_types@ == old(self).value_types@.push(ty),
            final(self).locations@ == old(self).locations@.push(unit),
            final(self).insts@ == old(self).insts@,
            final(self).signature == old(self).signature,
    {
        let v = self.value_types.len() as u32;
        self.value_types.push(ty);
        self.locations.push(unit);
        v
    }

    /// Appends an instruction that defines `result`, without an encoding, and
    /// gives its position.
    pub fn append_inst(&mut self, data: InstructionData, result: Option<Value>) -> (at: usize)
        requires
            old(self).wf(),
            data.args_below(old(self).value_types@.len() as int),
            result matches Some(v) ==> v < old(self).value_types@.len(),
        ensures
            final(self).wf(),
            at == old(self).insts@.len(),
            final(self).insts@ == old(self).insts@.push((Inst { data, result, encoding: None })),
            final(self).value_types@ == old(self).value_types@,
            final(self).locations@ == old(self).locations@,
            final(self).signature == old(self).signature,
    {
        let at = self.insts.len();
        self.insts.push(Inst { data, result, encoding: None });
        at
    }
}

} // verus!
