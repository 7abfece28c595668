//! Coarse classes of opcodes. Routing goes by the class; record bodies are not looked at.

use vstd::prelude::*;

use crate::dispatch::DispatchError;
use crate::grammar::{op_in, opcode_of};
use crate::isa::IsaOpView;

verus! {

#[derive(Clone, Copy, Debug, PartialEq, Eq, Structural, Hash)]
pub enum OpcodeClass {
    /// Instructions that change the structure: serialised through the control pipeline.
    Control,
    /// A new value of a node. Coalesced under pressure: the last writer of a node wins.
    SetValue,
    /// Propagation from a node. May be shed under pressure.
    Propagate,
    /// A subscription: a light control instruction.
    Subscribe,
    /// A demand, on which its caller waits. Never shed.
    Demand,
    /// Stabilization, on the slow-lane budget.
    Stabilize,
    /// A session profile, verified before any data instruction.
    Profile,
    /// Other data instructions.
    Data,
    /// An opcode that is not known. The body is skipped by its length.
    Unknown,
}

/// The class of an opcode.
pub open spec fn class_of(opcode: u16) -> OpcodeClass {
    if opcode == 0x0003 {
        OpcodeClass::SetValue
    } else if opcode == 0x0004 {
        OpcodeClass::Propagate
    } else if opcode == 0x0005 {
        OpcodeClass::Subscribe
    } else if opcode == 0x0008 {
        OpcodeClass::Demand
    } else if opcode == 0x000A {
        OpcodeClass::Data
    } else if opcode == 0x000B {
        OpcodeClass::Stabilize
    } else if 0x0001 <= opcode <= 0x0012 {
        OpcodeClass::Control
    } else if opcode == 0x0100 {
        OpcodeClass::Profile
    } else {
        OpcodeClass::Unknown
    }
}

impl OpcodeClass {
    /// The class of the opcode in a record header.
    pub fn from_opcode(opcode: u16) -> (class: Self)
        ensures
            class == class_of(opcode),
    {
        match opcode {
            0x0001 | 0x0002 => Self::Control,
            0x0003 => Self::SetValue,
            0x0004 => Self::Propagate,
            0x0005 => Self::Subscribe,
            0x0006 | 0x0007 => Self::Control,
            0x0008 => Self::Demand,
            0x0009 => Self::Control,
            0x000A => Self::Data,
            0x000B => Self::Stabilize,
            0x000C..=0x0012 => Self::Control,
            0x0100 => Self::Profile,
            _ => Self::Unknown,
        }
    }

    /// Instructions of this class are serialised through the control pipeline.
    #[verifier::allow_in_spec]
    pub fn is_control_plane(self) -> bool
        returns
            (self == OpcodeClass::Control || self == OpcodeClass::Profile || self
                == OpcodeClass::Subscribe),
    {
        matches!(self, Self::Control | Self::Profile | Self::Subscribe)
    }
}

/// Exactly the instructions that have a payload form, and the session profile, have a class.
pub proof fn law_known_opcodes(opcode: u16)
    ensures
        class_of(opcode) != OpcodeClass::Unknown <==> (1 <= opcode <= 0x0012 || opcode == 0x0100),
        class_of(opcode) == OpcodeClass::Unknown ==> op_in(opcode, Seq::empty()) == Err::<
            IsaOpView,
            DispatchError,
        >(DispatchError::UnknownOpcode(opcode)),
{
}

/// Every instruction travels under an opcode of a known class other than the profile's.
pub proof fn law_instructions_have_a_class(op: IsaOpView)
    ensures
        class_of(opcode_of(op)) != OpcodeClass::Unknown,
        class_of(opcode_of(op)) != OpcodeClass::Profile,
{
}

} // verus!
