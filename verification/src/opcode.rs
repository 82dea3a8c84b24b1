//! Bytecode: the instruction set shared by the compiler and the virtual machine.
use vstd::prelude::*;

use crate::limits::MAX_JUMP_ADDR;

verus! {

/// Index into a procedure's constant table.
#[derive(Debug, Clone, Copy, PartialEq, Eq, Structural)]
pub struct ConstantId(pub u16);

impl ConstantId {
    pub fn new(value: u16) -> (id: Self)
        ensures
            id.0 == value,
    {
        Self(value)
    }

    pub fn as_inner(self) -> (value: u16)
        ensures
            value == self.0,
    {
        self.0
    }

    pub fn as_usize(self) -> (value: usize)
        ensures
            value == self.0,
    {
        self.0 as usize
    }
}

/// Slot of a local variable, relative to the start of its call frame on the
/// operand stack.  The absolute position is only known while the frame runs.
#[derive(Debug, Clone, Copy, PartialEq, Eq, Structural)]
pub struct LocalId(pub u8);

impl LocalId {
    pub fn new(value: u8) -> (id: Self)
        ensures
            id.0 == value,
    {
        Self(value)
    }

    pub fn as_inner(self) -> (value: u8)
        ensures
            value == self.0,
    {
        self.0
    }

    pub fn as_usize(self) -> (value: usize)
        ensures
            value == self.0,
    {
        self.0 as usize
    }
}

/// Index of an up-value in the up-value vector of a closure.
#[derive(Debug, Clone, Copy, PartialEq, Eq, Structural)]
pub struct UpValueId(pub u8);

impl UpValueId {
    pub fn new(value: u8) -> (id: Self)
        ensures
            id.0 == value,
    {
        Self(value)
    }

    pub fn as_inner(self) -> (value: u8)
        ensures
            value == self.0,
    {
        self.0
    }

    pub fn as_usize(self) -> (value: usize)
        ensures
            value == self.0,
    {
        self.0 as usize
    }
}

/// Index of a procedure prototype in the table of its environment.
#[derive(Debug, Clone, Copy, PartialEq, Eq, Structural)]
pub struct ProcId(pub u16);

impl ProcId {
    pub fn new(value: u16) -> (id: Self)
        ensures
            id.0 == value,
    {
        Self(value)
    }

    pub fn as_inner(self) -> (value: u16)
        ensures
            value == self.0,
    {
        self.0
    }

    pub fn as_usize(self) -> (value: usize)
        ensures
            value == self.0,
    {
        self.0 as usize
    }
}

/// Identifier of an interned name in a symbol table.
#[derive(Debug, Clone, Copy, PartialEq, Eq, Structural)]
pub struct SymbolId(pub u16);

impl SymbolId {
    pub fn new(value: u16) -> (id: Self)
        ensures
            id.0 == value,
    {
        Self(value)
    }

    pub fn as_inner(self) -> (value: u16)
        ensures
            value == self.0,
    {
        self.0
    }

    pub fn as_usize(self) -> (value: usize)
        ensures
            value == self.0,
    {
        self.0 as usize
    }
}

/// Absolute bytecode address of a jump, stored in three little-endian bytes.
#[derive(Debug, Clone, Copy, PartialEq, Eq, Structural)]
pub struct JumpAddr(pub u8, pub u8, pub u8);

impl JumpAddr {
    /// The instruction index this address denotes.
    pub open spec fn index(self) -> nat {
        (self.0 as nat) + 256 * (self.1 as nat) + 65536 * (self.2 as nat)
    }

    /// The encoding of an instruction index: its three low bytes.
    pub open spec fn encode(index: usize) -> JumpAddr {
        JumpAddr((index & 0xff) as u8, ((index >> 8) & 0xff) as u8, ((index >> 16) & 0xff) as u8)
    }

    /// Encode an instruction index.  The index has to fit in 24 bits.
    pub fn new(index: usize) -> (addr: JumpAddr)
        requires
            index < MAX_JUMP_ADDR,
        ensures
            addr == Self::encode(index),
            addr.index() == index,
    {
        let a: u8 = (index & 0xff) as u8;
        let b: u8 = ((index >> 8) & 0xff) as u8;
        let c: u8 = ((index >> 16) & 0xff) as u8;
        assert((index & 0xff) + 256 * ((index >> 8) & 0xff) + 65536 * ((index >> 16) & 0xff)
            == index) by (bit_vector)
            requires
                index < 0x100_0000,
        ;
        assert(index & 0xff < 256) by (bit_vector);
        assert((index >> 8) & 0xff < 256) by (bit_vector);
        assert((index >> 16) & 0xff < 256) by (bit_vector);
        JumpAddr(a, b, c)
    }

    /// Encode an instruction index if it fits in 24 bits.
    pub fn checked(index: usize) -> (addr: Option<JumpAddr>)
        ensures
            addr is Some <==> index < MAX_JUMP_ADDR,
            addr matches Some(a) ==> a == Self::encode(index) && a.index() == index,
    {
        if index < MAX_JUMP_ADDR {
            Some(JumpAddr::new(index))
        } else {
            None
        }
    }

    /// The jump to address 0.
    pub fn zero() -> (addr: JumpAddr)
        ensures
            addr == JumpAddr(0, 0, 0),
            addr.index() == 0,
    {
        JumpAddr(0, 0, 0)
    }

    /// Decode the instruction index.
    pub fn as_usize(&self) -> (index: usize)
        ensures
            index == self.index(),
            index < MAX_JUMP_ADDR,
    {
        let a: usize = self.0 as usize;
        let b: usize = self.1 as usize;
        let c: usize = self.2 as usize;
        a + 256 * b + 65536 * c
    }

    /// The three bytes of the encoding, least significant first.
    pub fn bytes(&self) -> (b: [u8; 3])
        ensures
            b@ == seq![self.0, self.1, self.2],
    {
        [self.0, self.1, self.2]
    }
}

/// Where a captured variable lives when a closure is instantiated.
///
/// A variable of the directly enclosing procedure is still a local of the
/// running frame.  A variable from further out has already been captured by
/// the running closure and is shared from its up-value vector.
#[derive(Debug, Clone, Copy, PartialEq, Eq, Structural)]
pub enum UpValueOrigin {
    /// The variable is a local of the frame that creates the closure.
    Parent(LocalId),
    /// The variable is an up-value of the closure that creates the closure.
    Outer(UpValueId),
}

impl UpValueOrigin {
    pub fn is_parent(&self) -> (b: bool)
        ensures
            b == (*self is Parent),
    {
        match self {
            UpValueOrigin::Parent(_) => true,
            UpValueOrigin::Outer(_) => false,
        }
    }

    pub fn is_outer(&self) -> (b: bool)
        ensures
            b == (*self is Outer),
    {
        match self {
            UpValueOrigin::Parent(_) => false,
            UpValueOrigin::Outer(_) => true,
        }
    }
}

/// One bytecode instruction.
#[derive(Debug, Clone, Copy, PartialEq, Eq, Structural)]
pub enum Op {
    /// Abort execution.
    Bail,
    /// Push the empty list.
    PushNil,
    /// Push the void value.
    PushVoid,
    PushTrue,
    PushFalse,
    /// Push a constant of the running procedure.
    PushConstant(ConstantId),
    /// Discard the top of the stack.
    Pop,
    /// Jump if the top of the stack is `#f`.  The tested value stays on the stack.
    JumpFalse(JumpAddr),
    /// Unconditional jump.
    Jump(JumpAddr),
    /// Return the top of the stack to the caller.
    Return,
    /// Push the value of a variable of the environment.
    LoadEnvVar(SymbolId),
    /// Copy the top of the stack into a variable of the environment.  Does not pop.
    StoreEnvVar(SymbolId),
    /// Push the value of an up-value of the running closure.
    LoadUpValue(UpValueId),
    /// Copy the top of the stack into an up-value of the running closure.  Does not pop.
    StoreUpValue(UpValueId),
    /// Push the value of a local variable of the running frame.
    LoadLocalVar(LocalId),
    /// Copy the top of the stack into a local variable.  Does not pop.
    StoreLocalVar(LocalId),
    /// Operand of a preceding `CreateClosure`: one captured variable.
    CaptureValue(UpValueOrigin),
    /// Instantiate a closure of a procedure prototype.  The instruction is
    /// followed by one `CaptureValue` per up-value of the prototype.
    CreateClosure(ProcId),
    /// Call the closure below the topmost `arity` values.
    CallClosure { arity: u8 },
    /// Call the native function or closure below the topmost `arity` values.
    CallNative { arity: u8 },
    /// End of the top-level program.
    End,
}

} // verus!
