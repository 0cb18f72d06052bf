use crate::security_context::{spec_permits, AccessType, RegisterAccess, SecurityContext};
use vstd::prelude::*;

verus! {

/// Error of a single register access.
#[derive(Debug, Clone, Copy, PartialEq, Eq, Structural)]
pub enum RegisterError {
    RegisterInvalidAccess,
}

/// A tagged register value. A 32-bit float is held as its IEEE-754 bit
/// pattern: the machine only ever moves it around and checks its tag.
#[derive(Debug, Clone, Copy, PartialEq, Eq, Structural)]
pub enum RegisterValue {
    I16(i16),
    I32(i32),
    I64(i64),
    F32(u32),
}

/// The closed set of register identifiers.
#[derive(Debug, Clone, Copy, PartialEq, Eq, Hash, Structural)]
pub enum Registers {
    R1,
    R2,
    R3,
    R4,
    R5,
    R6,
    R7,
    R8,
    AC,
    FL,
}

/// Number of registers in the machine.
pub const REGISTER_COUNT: u8 = 10;

impl Registers {
    /// Position of the identifier in the register bank and in the binary encoding.
    pub open spec fn spec_index(self) -> u8 {
        match self {
            Registers::R1 => 0,
            Registers::R2 => 1,
            Registers::R3 => 2,
            Registers::R4 => 3,
            Registers::R5 => 4,
            Registers::R6 => 5,
            Registers::R7 => 6,
            Registers::R8 => 7,
            Registers::AC => 8,
            Registers::FL => 9,
        }
    }

    /// The identifier at a position, if the position is below `REGISTER_COUNT`.
    pub open spec fn spec_from_index(i: u8) -> Option<Registers> {
        if i == 0 {
            Some(Registers::R1)
        } else if i == 1 {
            Some(Registers::R2)
        } else if i == 2 {
            Some(Registers::R3)
        } else if i == 3 {
            Some(Registers::R4)
        } else if i == 4 {
            Some(Registers::R5)
        } else if i == 5 {
            Some(Registers::R6)
        } else if i == 6 {
            Some(Registers::R7)
        } else if i == 7 {
            Some(Registers::R8)
        } else if i == 8 {
            Some(Registers::AC)
        } else if i == 9 {
            Some(Registers::FL)
        } else {
            None
        }
    }

    /// The name of the register as the disassembler prints it.
    pub open spec fn spec_name(self) -> Seq<char> {
        match self {
            Registers::R1 => seq!['R', '1'],
            Registers::R2 => seq!['R', '2'],
            Registers::R3 => seq!['R', '3'],
            Registers::R4 => seq!['R', '4'],
            Registers::R5 => seq!['R', '5'],
            Registers::R6 => seq!['R', '6'],
            Registers::R7 => seq!['R', '7'],
            Registers::R8 => seq!['R', '8'],
            Registers::AC => seq!['A', 'C'],
            Registers::FL => seq!['F', 'L'],
        }
    }

    pub fn index(&self) -> (r: u8)
        ensures
            r == self.spec_index(),
            r < REGISTER_COUNT,
    {
        match self {
            Registers::R1 => 0,
            Registers::R2 => 1,
            Registers::R3 => 2,
            Registers::R4 => 3,
            Registers::R5 => 4,
            Registers::R6 => 5,
            Registers::R7 => 6,
            Registers::R8 => 7,
            Registers::AC => 8,
            Registers::FL => 9,
        }
    }

    pub fn from_index(i: u8) -> (r: Option<Registers>)
        ensures
            r == Registers::spec_from_index(i),
    {
        match i {
            0 => Some(Registers::R1),
            1 => Some(Registers::R2),
            2 => Some(Registers::R3),
            3 => Some(Registers::R4),
            4 => Some(Registers::R5),
            5 => Some(Registers::R6),
            6 => Some(Registers::R7),
            7 => Some(Registers::R8),
            8 => Some(Registers::AC),
            9 => Some(Registers::FL),
            _ => None,
        }
    }

    /// The register's name, such as `R1` or `AC`.
    pub fn to_string(&self) -> (r: String)
        ensures
            r@ == self.spec_name(),
    {
        let s = match self {
            Registers::R1 => "R1",
            Registers::R2 => "R2",
            Registers::R3 => "R3",
            Registers::R4 => "R4",
            Registers::R5 => "R5",
            Registers::R6 => "R6",
            Registers::R7 => "R7",
            Registers::R8 => "R8",
            Registers::AC => "AC",
            Registers::FL => "FL",
        };
        proof {
            reveal_strlit("R1");
            reveal_strlit("R2");
            reveal_strlit("R3");
            reveal_strlit("R4");
            reveal_strlit("R5");
            reveal_strlit("R6");
            reveal_strlit("R7");
            reveal_strlit("R8");
            reveal_strlit("AC");
            reveal_strlit("FL");
        }
        let r = String::from_str(s);
        assert(r@ =~= self.spec_name());
        r
    }
}

/// Index and identifier correspond one to one.
pub proof fn lemma_index_round_trip(id: Registers, i: u8)
    ensures
        Registers::spec_from_index(id.spec_index()) == Some(id),
        Registers::spec_from_index(i) is Some <==> i < REGISTER_COUNT,
        Registers::spec_from_index(i) is Some ==> Registers::spec_from_index(i)->0.spec_index()
            == i,
{
}

/// One storage cell of the machine: an identifier, access flags and a value.
#[derive(Debug, Clone, Copy, PartialEq, Eq, Structural)]
pub struct Register {
    pub register_id: Registers,
    access_flags: RegisterAccess,
    value: RegisterValue,
}

impl Register {
    /// The identifier of the register.
    pub closed spec fn id(self) -> Registers {
        self.register_id
    }

    /// The access flags of the register.
    pub closed spec fn flags(self) -> RegisterAccess {
        self.access_flags
    }

    /// The value that the register holds.
    pub closed spec fn val(self) -> RegisterValue {
        self.value
    }

    /// The register with its value replaced and all else kept.
    pub closed spec fn with_value(self, v: RegisterValue) -> Register {
        Register { value: v, ..self }
    }

    pub broadcast proof fn lemma_with_value(self, v: RegisterValue)
        ensures
            #[trigger] self.with_value(v).val() == v,
            self.with_value(v).flags() == self.flags(),
            self.with_value(v).id() == self.id(),
    {
    }

    pub fn id_of(&self) -> (r: Registers)
        ensures
            r == self.id(),
    {
        self.register_id
    }

    pub fn new(access: RegisterAccess, reg: Registers, reg_type: RegisterValue) -> (r: Self)
        ensures
            r.id() == reg,
            r.flags() == access,
            r.val() == reg_type,
    {
        Self { register_id: reg, access_flags: access, value: reg_type }
    }

    /// The value, if the flags grant a read under `security_context`.
    pub fn get_value(self, security_context: SecurityContext) -> (r: Result<
        RegisterValue,
        RegisterError,
    >)
        ensures
            spec_permits(self.flags(), security_context, AccessType::Read) ==> r == Ok::<
                RegisterValue,
                RegisterError,
            >(self.val()),
            !spec_permits(self.flags(), security_context, AccessType::Read) ==> r == Err::<
                RegisterValue,
                RegisterError,
            >(RegisterError::RegisterInvalidAccess),
    {
        if !self.validate_access(security_context, AccessType::Read) {
            return Err(RegisterError::RegisterInvalidAccess);
        }
        Ok(self.value)
    }

    /// A reference to the value, if the flags grant a read under `security_context`.
    pub fn get_value_ref(&self, security_context: SecurityContext) -> (r: Result<
        &RegisterValue,
        RegisterError,
    >)
        ensures
            spec_permits(self.flags(), security_context, AccessType::Read) ==> r is Ok && *r->Ok_0
                == self.val(),
            !spec_permits(self.flags(), security_context, AccessType::Read) ==> r is Err
                && r->Err_0 == RegisterError::RegisterInvalidAccess,
    {
        if !self.validate_access(security_context, AccessType::Read) {
            return Err(RegisterError::RegisterInvalidAccess);
        }
        Ok(&self.value)
    }

    /// Replaces the value, if the flags grant a write under `security_context`;
    /// otherwise the register is left as it was. The new value may carry
    /// another tag than the old one.
    pub fn set_value(&mut self, value: RegisterValue, security_context: SecurityContext) -> (r:
        Result<(), RegisterError>)
        ensures
            spec_permits(old(self).flags(), security_context, AccessType::Write) ==> r is Ok
                && *final(self) == old(self).with_value(value),
            !spec_permits(old(self).flags(), security_context, AccessType::Write) ==> r == Err::<
                (),
                RegisterError,
            >(RegisterError::RegisterInvalidAccess) && *final(self) == *old(self),
    {
        if !self.validate_access(security_context, AccessType::Write) {
            return Err(RegisterError::RegisterInvalidAccess);
        }
        self.value = value;
        Ok(())
    }

    fn validate_access(&self, security_context: SecurityContext, access_type: AccessType) -> (r:
        bool)
        ensures
            r == spec_permits(self.flags(), security_context, access_type),
    {
        self.access_flags.permits(security_context, access_type)
    }
}

} // verus!
