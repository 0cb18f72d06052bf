use crate::instructions::codec::{
    decode_instruction, lemma_encode_decode_instruction, spec_decode_instruction, DecodeError,
};
use crate::instructions::enums::Instruction;
use crate::instructions::implementations as ins_imps;
use crate::memory::{Memory, MemoryError};
use crate::registers::{Register, RegisterValue, Registers};
use crate::security_context::{
    lemma_read_only_denies_write, spec_permits, AccessFlags, AccessType, SecurityContext,
    FLAG_READ,
};
use vstd::prelude::*;

verus! {

/// Every way in which the CPU can fail.
#[derive(Debug, Clone, Copy, PartialEq, Eq, Structural)]
pub enum CpuError {
    /// `run` was called before a program region was selected.
    SequenceNotSet,
    /// No register of the bank carries the identifier.
    InvalidRegisterId,
    /// The register's flags deny the access under the context.
    RegisterAccessViolation,
    /// The register holds a value of another tag than the instruction needs.
    InvalidRegisterValueType,
    /// The memory region's flags deny the access under the context.
    MemoryAccessViolation,
    /// No memory region contains the address.
    OutOfBounds,
    /// The program holds a tag that is no supported opcode.
    UnknownOpcode,
    /// The program ends in the middle of an instruction.
    UnexpectedEndOfStream,
}

impl CpuError {
    /// The CPU error for a failed memory access.
    pub open spec fn spec_from_memory(e: MemoryError) -> CpuError {
        match e {
            MemoryError::MemoryAccessViolation => CpuError::MemoryAccessViolation,
            MemoryError::OutOfBounds => CpuError::OutOfBounds,
        }
    }

    /// The CPU error for a record that failed to decode.
    pub open spec fn spec_from_decode(e: DecodeError) -> CpuError {
        match e {
            DecodeError::UnknownOpcode => CpuError::UnknownOpcode,
            DecodeError::UnexpectedEndOfStream => CpuError::UnexpectedEndOfStream,
            DecodeError::InvalidRegisterId => CpuError::InvalidRegisterId,
        }
    }

    pub fn from_memory(e: MemoryError) -> (r: CpuError)
        ensures
            r == CpuError::spec_from_memory(e),
    {
        match e {
            MemoryError::MemoryAccessViolation => CpuError::MemoryAccessViolation,
            MemoryError::OutOfBounds => CpuError::OutOfBounds,
        }
    }

    pub fn from_decode(e: DecodeError) -> (r: CpuError)
        ensures
            r == CpuError::spec_from_decode(e),
    {
        match e {
            DecodeError::UnknownOpcode => CpuError::UnknownOpcode,
            DecodeError::UnexpectedEndOfStream => CpuError::UnexpectedEndOfStream,
            DecodeError::InvalidRegisterId => CpuError::InvalidRegisterId,
        }
    }
}

/// Position of the first register with identifier `id` at or after `k`, or -1.
pub open spec fn index_from(regs: Seq<Register>, id: Registers, k: int) -> int
    decreases regs.len() - k,
{
    if k < 0 || k >= regs.len() {
        -1
    } else if regs[k].id() == id {
        k
    } else {
        index_from(regs, id, k + 1)
    }
}

/// Position of the first register with identifier `id`, or -1.
pub open spec fn index_of(regs: Seq<Register>, id: Registers) -> int {
    index_from(regs, id, 0)
}

pub proof fn lemma_index_from(regs: Seq<Register>, id: Registers, k: int)
    requires
        0 <= k,
    ensures
        index_from(regs, id, k) == -1 || (k <= index_from(regs, id, k) < regs.len() && regs[index_from(regs, id, k)].id() == id),
        index_from(regs, id, k) == -1 <==> forall|j: int| k <= j < regs.len() ==> regs[j].id() != id,
    decreases regs.len() - k,
{
    if k < regs.len() {
        lemma_index_from(regs, id, k + 1);
    }
}

pub proof fn lemma_index_of(regs: Seq<Register>, id: Registers)
    ensures
        index_of(regs, id) == -1 || (0 <= index_of(regs, id) < regs.len() && regs[index_of(regs, id)].id() == id),
        index_of(regs, id) == -1 <==> forall|j: int| 0 <= j < regs.len() ==> regs[j].id() != id,
{
    lemma_index_from(regs, id, 0);
}

/// What reading register `id` under `ctx` gives.
pub open spec fn spec_get_value(
    regs: Seq<Register>,
    id: Registers,
    ctx: SecurityContext,
) -> Result<RegisterValue, CpuError> {
    let i = index_of(regs, id);
    if i < 0 {
        Err(CpuError::InvalidRegisterId)
    } else if !spec_permits(regs[i].flags(), ctx, AccessType::Read) {
        Err(CpuError::RegisterAccessViolation)
    } else {
        Ok(regs[i].val())
    }
}

/// The bank after writing `v` into register `id` under `ctx`, or the error.
pub open spec fn spec_set_value(
    regs: Seq<Register>,
    id: Registers,
    v: RegisterValue,
    ctx: SecurityContext,
) -> Result<Seq<Register>, CpuError> {
    let i = index_of(regs, id);
    if i < 0 {
        Err(CpuError::InvalidRegisterId)
    } else if !spec_permits(regs[i].flags(), ctx, AccessType::Write) {
        Err(CpuError::RegisterAccessViolation)
    } else {
        Ok(regs.update(i, regs[i].with_value(v)))
    }
}

proof fn lemma_fresh_bank_index(regs: Seq<Register>, id: Registers, k: int)
    requires
        regs.len() == 10,
        forall|j: int| 0 <= j < 10 ==> (#[trigger] regs[j]).id() == bank_id(j),
        0 <= k <= id.spec_index(),
    ensures
        index_from(regs, id, k) == id.spec_index(),
    decreases 10 - k,
{
    if k < id.spec_index() {
        assert(regs[k].id() == bank_id(k));
        lemma_fresh_bank_index(regs, id, k + 1);
    }
}

/// Every identifier has a register in the bank.
pub open spec fn bank_complete(regs: Seq<Register>) -> bool {
    forall|id: Registers| #[trigger] index_of(regs, id) >= 0
}

/// Identifiers of a freshly built bank, in order.
pub open spec fn bank_id(i: int) -> Registers {
    Registers::spec_from_index(i as u8)->0
}

/// The register bank of the CPU.
#[derive(Debug)]
pub struct RegisterCollection {
    pub registers: Vec<Register>,
}

impl RegisterCollection {
    /// Every identifier has a register in the bank.
    pub open spec fn wf(&self) -> bool {
        bank_complete(self.registers@)
    }

    /// A bank of the ten registers `R1`..`R8`, `AC`, `FL` in that order, each
    /// readable and writable by everyone and holding the 32-bit integer 0.
    pub fn new() -> (rc: Self)
        ensures
            rc.registers@.len() == 10,
            forall|i: int| 0 <= i < 10 ==> {
                &&& (#[trigger] rc.registers@[i]).id() == bank_id(i)
                &&& rc.registers@[i].flags() == AccessFlags::spec_read_write()
                &&& rc.registers@[i].val() == RegisterValue::I32(0)
            },
            rc.wf(),
            forall|id: Registers| #[trigger] index_of(rc.registers@, id) == id.spec_index(),
    {
        let mut rc = Self { registers: Vec::new() };
        rc.initialize_registers();
        rc
    }

    fn initialize_registers(&mut self)
        requires
            old(self).registers@.len() == 0,
        ensures
            final(self).registers@.len() == 10,
            forall|i: int| 0 <= i < 10 ==> {
                &&& (#[trigger] final(self).registers@[i]).id() == bank_id(i)
                &&& final(self).registers@[i].flags() == AccessFlags::spec_read_write()
                &&& final(self).registers@[i].val() == RegisterValue::I32(0)
            },
            final(self).wf(),
            forall|id: Registers| #[trigger] index_of(final(self).registers@, id) == id.spec_index(),
    {
        let mut i: u8 = 0;
        while i < 10
            invariant
                0 <= i <= 10,
                self.registers@.len() == i,
                forall|j: int| 0 <= j < i ==> {
                    &&& (#[trigger] self.registers@[j]).id() == bank_id(j)
                    &&& self.registers@[j].flags() == AccessFlags::spec_read_write()
                    &&& self.registers@[j].val() == RegisterValue::I32(0)
                },
            decreases 10 - i,
        {
            let id = Registers::from_index(i).unwrap();
            self.registers.push(Register::new(AccessFlags::read_write(), id, RegisterValue::I32(0)));
            i += 1;
        }
        assert forall|id: Registers| #[trigger] index_of(self.registers@, id) == id.spec_index() by {
            lemma_fresh_bank_index(self.registers@, id, 0);
        }
    }

    /// A reference to the value of register `id`, if `security_context` may read it.
    pub fn get_register_value_ref(
        &self,
        register_id: Registers,
        security_context: SecurityContext,
    ) -> (r: Result<&RegisterValue, CpuError>)
        ensures
            match spec_get_value(self.registers@, register_id, security_context) {
                Ok(v) => r is Ok && *r->Ok_0 == v,
                Err(e) => r is Err && r->Err_0 == e,
            },
    {
        match self.get_register_ref(register_id) {
            Err(e) => Err(e),
            Ok(r) => match r.get_value_ref(security_context) {
                Ok(val) => Ok(val),
                Err(_) => Err(CpuError::RegisterAccessViolation),
            },
        }
    }

    /// The value of register `id`, if `security_context` may read it.
    pub fn get_register_value(
        &self,
        register_id: Registers,
        security_context: SecurityContext,
    ) -> (r: Result<RegisterValue, CpuError>)
        ensures
            r == spec_get_value(self.registers@, register_id, security_context),
    {
        match self.get_register_ref(register_id) {
            Err(e) => Err(e),
            Ok(r) => match r.get_value(security_context) {
                Ok(val) => Ok(val),
                Err(_) => Err(CpuError::RegisterAccessViolation),
            },
        }
    }

    /// Writes `value` into register `id`, if `security_context` may write it;
    /// on failure the bank is left as it was.
    pub fn set_register_value(
        &mut self,
        register_id: Registers,
        value: RegisterValue,
        security_context: SecurityContext,
    ) -> (r: Result<(), CpuError>)
        ensures
            match spec_set_value(old(self).registers@, register_id, value, security_context) {
                Ok(s) => r is Ok && final(self).registers@ == s,
                Err(e) => r == Err::<(), CpuError>(e) && final(self).registers@ == old(self).registers@,
            },
    {
        let i = match self.find_register(register_id) {
            Err(e) => { return Err(e); },
            Ok(i) => i,
        };
        let mut reg = self.registers[i];
        match reg.set_value(value, security_context) {
            Ok(_) => {
                self.registers.set(i, reg);
                Ok(())
            },
            Err(_) => Err(CpuError::RegisterAccessViolation),
        }
    }

    /// Position of the first register with identifier `id`.
    fn find_register(&self, register_id: Registers) -> (r: Result<usize, CpuError>)
        ensures
            match r {
                Ok(i) => i as int == index_of(self.registers@, register_id) && i < self.registers@.len(),
                Err(e) => e == CpuError::InvalidRegisterId && index_of(self.registers@, register_id) == -1,
            },
    {
        let mut i: usize = 0;
        while i < self.registers.len()
            invariant
                0 <= i <= self.registers@.len(),
                index_of(self.registers@, register_id) == index_from(self.registers@, register_id, i as int),
            decreases self.registers@.len() - i,
        {
            if self.registers[i].id_of() == register_id {
                return Ok(i);
            }
            i += 1;
        }
        Err(CpuError::InvalidRegisterId)
    }

    /// The first register with identifier `id`.
    pub fn get_register_ref(&self, register_id: Registers) -> (r: Result<&Register, CpuError>)
        ensures
            index_of(self.registers@, register_id) >= 0 ==> r is Ok && *r->Ok_0 == self.registers@[index_of(self.registers@, register_id)],
            index_of(self.registers@, register_id) < 0 ==> r is Err
                && r->Err_0 == CpuError::InvalidRegisterId,
    {
        match self.find_register(register_id) {
            Ok(i) => Ok(&self.registers[i]),
            Err(e) => Err(e),
        }
    }

    /// A mutable reference to the first register with identifier `id`.
    pub fn get_register_mut_ref(
        &mut self,
        register_id: Registers,
    ) -> (r: Result<&mut Register, CpuError>)
        ensures
            index_of(old(self).registers@, register_id) >= 0 ==> r is Ok && *r->Ok_0 == old(self).registers@[index_of(old(self).registers@, register_id)]
                && final(self).registers@ == old(self).registers@.update(index_of(old(self).registers@, register_id), *final(r->Ok_0)),
            index_of(old(self).registers@, register_id) < 0 ==> r is Err
                && r->Err_0 == CpuError::InvalidRegisterId
                && *final(self) == *old(self),
    {
        match self.find_register(register_id) {
            Ok(i) => Ok(&mut self.registers[i]),
            Err(e) => Err(e),
        }
    }
}

/// Effect of `AddLitReg(imm, reg)` on a bank: the bank afterwards and what
/// the handler returns. The sum always goes to the accumulator `AC`.
pub open spec fn spec_add_lit_reg(
    regs: Seq<Register>,
    imm: i32,
    reg: Registers,
) -> (Seq<Register>, Result<bool, CpuError>) {
    match spec_get_value(regs, reg, SecurityContext::User) {
        Err(e) => (regs, Err(e)),
        Ok(RegisterValue::I32(x)) => match spec_set_value(regs, Registers::AC, RegisterValue::I32(imm.wrapping_add(x)), SecurityContext::User) {
            Ok(s) => (s, Ok(false)),
            Err(e) => (regs, Err(e)),
        },
        Ok(_) => (regs, Err(CpuError::InvalidRegisterValueType)),
    }
}

/// Effect of one instruction on a bank: the bank afterwards, and whether the
/// machine halts, or the error.
pub open spec fn spec_execute(
    regs: Seq<Register>,
    ins: Instruction,
) -> (Seq<Register>, Result<bool, CpuError>) {
    match ins {
        Instruction::NOP() => (regs, Ok(false)),
        Instruction::AddLitReg(lit, reg) => spec_add_lit_reg(regs, lit, reg),
        Instruction::HLT() => (regs, Ok(true)),
    }
}

/// The halted flag after a handler returned `r`: an error always halts.
pub open spec fn halts_after(r: Result<bool, CpuError>) -> bool {
    match r {
        Ok(b) => b,
        Err(_) => true,
    }
}

/// The `count` bytes from `addr` on, each read under `User`, or the error of
/// the first read that fails.
pub open spec fn spec_fetch(mem: Memory, addr: int, count: nat) -> Result<Seq<u8>, MemoryError>
    decreases count,
{
    if count == 0 {
        Ok(Seq::empty())
    } else {
        match spec_fetch(mem, addr, (count - 1) as nat) {
            Err(e) => Err(e),
            Ok(w) => match mem.spec_read(addr + count - 1, SecurityContext::User) {
                Ok(b) => Ok(w.push(b)),
                Err(e) => Err(e),
            },
        }
    }
}

/// Longest record of the instruction set, in bytes.
pub const MAX_RECORD_LEN: u32 = 7;

/// One fetch-decode-execute step at offset `ip` of a program of `len` bytes
/// at `start`: the bank afterwards, what the step returns, and the next offset.
pub open spec fn spec_step(
    regs: Seq<Register>,
    mem: Memory,
    start: int,
    len: int,
    ip: int,
) -> (Seq<Register>, Result<bool, CpuError>, int) {
    let count = if len - ip < MAX_RECORD_LEN { len - ip } else { MAX_RECORD_LEN as int };
    match spec_fetch(mem, start + ip, count as nat) {
        Err(e) => (regs, Err(CpuError::spec_from_memory(e)), ip),
        Ok(w) => match spec_decode_instruction(w) {
            Err(e) => (regs, Err(CpuError::spec_from_decode(e)), ip),
            Ok((ins, n)) => (spec_execute(regs, ins).0, spec_execute(regs, ins).1, ip + n),
        },
    }
}

/// Steps from offset `ip` until an instruction halts, one fails, or the
/// program ends: the bank afterwards, what `run` returns, and the final offset.
pub open spec fn spec_run(
    regs: Seq<Register>,
    mem: Memory,
    start: int,
    len: int,
    ip: int) -> (Seq<Register>, Result<bool,
    CpuError>, int,
)
    decreases len - ip,
{
    if ip >= len {
        (regs, Ok(true), ip)
    } else {
        let (regs2, res, ip2) = spec_step(regs, mem, start, len, ip);
        match res {
            Err(e) => (regs2, Err(e), ip2),
            Ok(true) => (regs2, Ok(true), ip2),
            Ok(false) => if ip < ip2 <= len {
                spec_run(regs2, mem, start, len, ip2)
            } else {
                (regs2, Ok(true), ip2)
            },
        }
    }
}

/// The virtual CPU: a register bank, the sequence id of the memory region
/// that holds the program (-1 while none is selected), the offset of the
/// next instruction in that region, and whether it has halted.
pub struct CPU {
    pub(crate) exec_mem_seq_id: i16,
    pub(crate) is_halted: bool,
    pub(crate) instruction_pointer: u32,
    pub registers: RegisterCollection,
}

impl CPU {
    pub open(crate) spec fn spec_seq_id(&self) -> i16 {
        self.exec_mem_seq_id
    }

    pub open(crate) spec fn halted(&self) -> bool {
        self.is_halted
    }

    pub open(crate) spec fn ip(&self) -> u32 {
        self.instruction_pointer
    }

    /// The register bank.
    pub open(crate) spec fn bank(&self) -> Seq<Register> {
        self.registers.registers@
    }

    /// Everything but the register bank.
    pub open spec fn control(&self) -> (i16, bool, u32) {
        (self.spec_seq_id(), self.halted(), self.ip())
    }

    /// A CPU with a fresh register bank, no program selected, not halted.
    pub fn new() -> (r: Self)
        ensures
            r.control() == (-1i16, false, 0u32),
            r.bank().len() == 10,
            forall|i: int| 0 <= i < 10 ==> {
                &&& (#[trigger] r.bank()[i]).id() == bank_id(i)
                &&& r.bank()[i].flags() == AccessFlags::spec_read_write()
                &&& r.bank()[i].val() == RegisterValue::I32(0)
            },
            bank_complete(r.bank()),
            forall|id: Registers| #[trigger] index_of(r.bank(), id) == id.spec_index(),
    {
        Self {
            exec_mem_seq_id: -1,
            is_halted: false,
            instruction_pointer: 0,
            registers: RegisterCollection::new(),
        }
    }

    /// Clears the halted flag and moves back to the start of the program.
    /// Registers and the selected program are kept; calling it twice is
    /// the same as calling it once.
    pub fn initialize(&mut self)
        ensures
            final(self).control() == (old(self).spec_seq_id(), false, 0u32),
            final(self).bank() == old(self).bank(),
    {
        self.is_halted = false;
        self.instruction_pointer = 0;
    }

    /// Selects the memory region with sequence id `seq_id` as the program,
    /// from its start, and clears the halted flag.
    pub fn set_exec_region(&mut self, seq_id: i16)
        ensures
            final(self).control() == (seq_id, false, 0u32),
            final(self).bank() == old(self).bank(),
    {
        self.exec_mem_seq_id = seq_id;
        self.is_halted = false;
        self.instruction_pointer = 0;
    }

    pub fn exec_mem_seq_id(&self) -> (r: i16)
        ensures
            r == self.spec_seq_id(),
    {
        self.exec_mem_seq_id
    }

    pub fn is_halted(&self) -> (r: bool)
        ensures
            r == self.halted(),
    {
        self.is_halted
    }

    pub fn instruction_pointer(&self) -> (r: u32)
        ensures
            r == self.ip(),
    {
        self.instruction_pointer
    }

    /// Executes one instruction through its handler. The CPU halts when the
    /// handler asks for it or fails; nothing else but the bank changes.
    pub fn execute(&mut self, ins: Instruction) -> (r: Result<bool, CpuError>)
        ensures
            (final(self).bank(), r) == spec_execute(old(self).bank(), ins),
            final(self).control() == (old(self).spec_seq_id(), halts_after(r), old(self).ip()),
    {
        let halt = match ins {
            Instruction::NOP() => Ok(false),
            Instruction::AddLitReg(lit, reg) => ins_imps::add_lit_reg(self, lit, reg),
            Instruction::HLT() => Ok(true),
        };
        // An error always halts the CPU.
        self.is_halted = match halt {
            Ok(b) => b,
            Err(_) => true,
        };
        halt
    }

    /// Executes the sample instruction `AddLitReg(123, R1)`.
    pub fn run_test(&mut self) -> (r: Result<bool, CpuError>)
        ensures
            (final(self).bank(), r) == spec_add_lit_reg(old(self).bank(), 123, Registers::R1),
            final(self).control() == (old(self).spec_seq_id(), halts_after(r), old(self).ip()),
    {
        let ins = Instruction::AddLitReg(123, Registers::R1);
        self.execute(ins)
    }

    /// Reads `count` bytes from `addr` on under `User`.
    fn fetch(memory: &Memory, addr: u32, count: u32) -> (r: Result<Vec<u8>, MemoryError>)
        requires
            memory.wf(),
            addr + count <= u32::MAX,
        ensures
            match spec_fetch(*memory, addr as int, count as nat) {
                Ok(w) => r is Ok && r->Ok_0@ == w,
                Err(e) => r == Err::<Vec<u8>, MemoryError>(e),
            },
    {
        let mut window: Vec<u8> = Vec::new();
        let mut k: u32 = 0;
        while k < count
            invariant
                k <= count,
                memory.wf(),
                addr + count <= u32::MAX,
                spec_fetch(*memory, addr as int, k as nat) == Ok::<Seq<u8>, MemoryError>(window@),
            decreases count - k,
        {
            match memory.read(addr + k, SecurityContext::User) {
                Err(e) => {
                    proof {
                        lemma_fetch_err(*memory, addr as int, (k + 1) as nat, count as nat);
                    }
                    return Err(e);
                },
                Ok(b) => {
                    window.push(b);
                },
            }
            k += 1;
        }
        Ok(window)
    }

    /// One fetch-decode-execute step at the current offset of a program of
    /// `len` bytes at `start`.
    fn step(&mut self, memory: &Memory, start: u32, len: u32) -> (r: Result<bool, CpuError>)
        requires
            memory.wf(),
            old(self).ip() < len,
            start + len <= u32::MAX,
        ensures
            (final(self).bank(), r, final(self).ip() as int) == spec_step(old(self).bank(), *memory, start as int, len as int, old(self).ip() as int),
            final(self).spec_seq_id() == old(self).spec_seq_id(),
            final(self).halted() == halts_after(r),
    {
        let left = len - self.instruction_pointer;
        let count = if left < MAX_RECORD_LEN { left } else { MAX_RECORD_LEN };
        let window = match CPU::fetch(memory, start + self.instruction_pointer, count) {
            Err(e) => {
                self.is_halted = true;
                return Err(CpuError::from_memory(e));
            },
            Ok(w) => w,
        };
        proof {
            assert(window@.skip(0) =~= window@);
        }
        match decode_instruction(&window, 0) {
            Err(e) => {
                self.is_halted = true;
                Err(CpuError::from_decode(e))
            },
            Ok((ins, n)) => {
                proof {
                    lemma_encode_decode_instruction(window@.skip(0));
                    lemma_fetch_len(*memory, start + old(self).ip(), count as nat);
                }
                let r = self.execute(ins);
                self.instruction_pointer = self.instruction_pointer + n as u32;
                r
            },
        }
    }

    /// Runs the selected program until it halts, fails or ends, and returns
    /// `Ok(true)` once halted. Fails with `SequenceNotSet`, changing
    /// nothing, while no program is selected; does nothing on a CPU that
    /// has already halted. Any other error halts the CPU and is returned.
    pub fn run(&mut self, memory: &Memory) -> (r: Result<bool, CpuError>)
        requires
            memory.wf(),
        ensures
            ({
                let seq_id = old(self).spec_seq_id();
                if seq_id < 0 {
                    r == Err::<bool, CpuError>(CpuError::SequenceNotSet) && *final(self) == *old(self)
                } else if old(self).halted() {
                    r == Ok::<bool, CpuError>(true) && *final(self) == *old(self)
                } else if seq_id >= memory.regions().len() {
                    &&& r == Err::<bool, CpuError>(CpuError::OutOfBounds)
                    &&& final(self).bank() == old(self).bank()
                    &&& final(self).control() == (seq_id, true, old(self).ip())
                } else {
                    let region = memory.regions()[seq_id as int];
                    let (regs, res, ip) = spec_run(
                        old(self).bank(),
                        *memory,
                        region.start as int,
                        region.end - region.start,
                        old(self).ip() as int,
                    );
                    &&& r == res
                    &&& final(self).bank() == regs
                    &&& final(self).spec_seq_id() == seq_id
                    &&& final(self).halted()
                    &&& final(self).ip() == ip
                }
            }),
    {
        if self.exec_mem_seq_id < 0 {
            return Err(CpuError::SequenceNotSet);
        }
        if self.is_halted {
            return Ok(true);
        }
        let idx = self.exec_mem_seq_id as usize;
        if idx >= memory.memory_regions().len() {
            self.is_halted = true;
            return Err(CpuError::OutOfBounds);
        }
        let start = memory.memory_regions()[idx].start;
        let len = memory.memory_regions()[idx].end - start;
        let ghost regs0 = self.registers.registers@;
        let ghost ip0 = self.instruction_pointer as int;
        let ghost goal = spec_run(regs0, *memory, start as int, len as int, ip0);
        loop
            invariant
                memory.wf(),
                start + len <= u32::MAX,
                !self.is_halted,
                self.exec_mem_seq_id == idx,
                old(self).spec_seq_id() == idx,
                !old(self).halted(),
                idx < memory.regions().len(),
                start == memory.regions()[idx as int].start,
                len == memory.regions()[idx as int].end - start,
                goal == spec_run(old(self).bank(), *memory, start as int, len as int, old(self).ip() as int),
                spec_run(self.registers.registers@, *memory, start as int, len as int, self.instruction_pointer as int) == goal,
            decreases len - self.instruction_pointer,
        {
            if self.instruction_pointer >= len {
                self.is_halted = true;
                return Ok(true);
            }
            let ip_before = self.instruction_pointer;
            let r = self.step(memory, start, len);
            match r {
                Err(e) => {
                    return Err(e);
                },
                Ok(true) => {
                    return Ok(true);
                },
                Ok(false) => {
                    if self.instruction_pointer <= ip_before || self.instruction_pointer > len {
                        self.is_halted = true;
                        return Ok(true);
                    }
                },
            }
        }
    }
}

proof fn lemma_index_from_same_ids(a: Seq<Register>, b: Seq<Register>, id: Registers, k: int)
    requires
        a.len() == b.len(),
        forall|j: int| 0 <= j < a.len() ==> (#[trigger] a[j]).id() == b[j].id(),
    ensures
        index_from(a, id, k) == index_from(b, id, k),
    decreases a.len() - k,
{
    if 0 <= k < a.len() {
        lemma_index_from_same_ids(a, b, id, k + 1);
    }
}

/// A bank that reads the 32-bit integer `x` from `reg` and lets `User`
/// write `AC` ends, after `AddLitReg(imm, reg)`, with `imm + x` (wrapping)
/// in `AC`, every other register as it was, and no request to halt.
pub proof fn lemma_add_lit_reg_sets_accumulator(
    regs: Seq<Register>,
    imm: i32,
    reg: Registers,
    x: i32,
)
    requires
        spec_get_value(regs, reg, SecurityContext::User) == Ok::<RegisterValue, CpuError>(RegisterValue::I32(x)),
        index_of(regs, Registers::AC) >= 0,
        spec_permits(regs[index_of(regs, Registers::AC)].flags(), SecurityContext::User, AccessType::Write),
    ensures
        spec_add_lit_reg(regs, imm, reg).1 == Ok::<bool, CpuError>(false),
        index_of(spec_add_lit_reg(regs, imm, reg).0, Registers::AC) == index_of(regs, Registers::AC),
        spec_add_lit_reg(regs, imm, reg).0[index_of(regs, Registers::AC)].val() == RegisterValue::I32(imm.wrapping_add(x)),
        spec_add_lit_reg(regs, imm, reg).0[index_of(regs, Registers::AC)].flags() == regs[index_of(regs, Registers::AC)].flags(),
        forall|j: int| 0 <= j < regs.len() && j != index_of(regs, Registers::AC) ==> #[trigger] spec_add_lit_reg(regs, imm, reg).0[j] == regs[j],
        spec_add_lit_reg(regs, imm, reg).0.len() == regs.len(),
{
    let i = index_of(regs, Registers::AC);
    lemma_index_of(regs, Registers::AC);
    let v = RegisterValue::I32(imm.wrapping_add(x));
    let after = regs.update(i, regs[i].with_value(v));
    regs[i].lemma_with_value(v);
    assert forall|j: int| 0 <= j < regs.len() implies (#[trigger] regs[j]).id() == after[j].id() by {
    }
    lemma_index_from_same_ids(regs, after, Registers::AC, 0);
}

/// `HLT` changes no register and always asks the CPU to halt.
pub proof fn lemma_halt_always_halts(regs: Seq<Register>)
    ensures
        spec_execute(regs, Instruction::HLT()) == (regs, Ok::<bool, CpuError>(true)),
        halts_after(spec_execute(regs, Instruction::HLT()).1),
{
}

/// `AddLitReg` on a register that holds anything but a 32-bit integer fails
/// with `InvalidRegisterValueType` and changes no register, `AC` included.
pub proof fn lemma_add_lit_reg_rejects_other_tags(
    regs: Seq<Register>,
    imm: i32,
    reg: Registers,
    v: RegisterValue,
)
    requires
        spec_get_value(regs, reg, SecurityContext::User) == Ok::<RegisterValue, CpuError>(v),
        !(v is I32),
    ensures
        spec_add_lit_reg(regs, imm, reg) == (regs, Err::<bool, CpuError>(CpuError::InvalidRegisterValueType)),
{
}

/// A register whose flags are public read alone refuses every write with
/// `RegisterAccessViolation`, whatever the context.
pub proof fn lemma_read_only_register_rejects_write(
    regs: Seq<Register>,
    id: Registers,
    v: RegisterValue,
    ctx: SecurityContext,
)
    requires
        index_of(regs, id) >= 0,
        regs[index_of(regs, id)].flags().bits == FLAG_READ,
    ensures
        spec_set_value(regs, id, v, ctx) == Err::<Seq<Register>, CpuError>(CpuError::RegisterAccessViolation),
{
    lemma_read_only_denies_write(regs[index_of(regs, id)].flags(), ctx);
}

/// On a complete bank no register lookup fails for want of the identifier.
pub proof fn lemma_complete_bank_finds_every_id(
    regs: Seq<Register>,
    id: Registers,
    v: RegisterValue,
    ctx: SecurityContext,
)
    requires
        bank_complete(regs),
    ensures
        spec_get_value(regs, id, ctx) != Err::<RegisterValue, CpuError>(CpuError::InvalidRegisterId),
        spec_set_value(regs, id, v, ctx) != Err::<Seq<Register>, CpuError>(CpuError::InvalidRegisterId),
{
    assert(index_of(regs, id) >= 0);
}

proof fn lemma_fetch_len(mem: Memory, addr: int, count: nat)
    requires
        spec_fetch(mem, addr, count) is Ok,
    ensures
        spec_fetch(mem, addr, count)->Ok_0.len() == count,
    decreases count,
{
    if count > 0 {
        lemma_fetch_len(mem, addr, (count - 1) as nat);
    }
}

proof fn lemma_fetch_err(mem: Memory, addr: int, k: nat, count: nat)
    requires
        1 <= k <= count,
        spec_fetch(mem, addr, k) is Err,
    ensures
        spec_fetch(mem, addr, count) == spec_fetch(mem, addr, k),
    decreases count - k,
{
    if k < count {
        lemma_fetch_err(mem, addr, k + 1, count);
    }
}

} // verus!
