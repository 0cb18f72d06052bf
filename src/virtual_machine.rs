use crate::cpu::{bank_complete, spec_add_lit_reg, spec_run, CpuError, CPU};
use crate::memory::{Memory, MemoryError, MemoryRegion};
use crate::registers::Registers;
use crate::security_context::{AccessFlags, FLAG_PRIVATE_WRITE, FLAG_READ};
use vstd::prelude::*;

verus! {

/// A CPU together with the memory that it runs programs from.
pub struct VirtualMachine {
    pub cpu: CPU,
    pub memory: Memory,
    /// Reserved for privilege transitions that no instruction performs yet.
    pub cpu_can_swap_regions: bool,
}

impl VirtualMachine {
    /// The machine's parts fit together.
    pub open spec fn wf(&self) -> bool {
        &&& self.memory.wf()
        &&& self.memory.regions().len() < 32767
    }

    /// A machine with a fresh CPU and `memory_size + 4 * stack_capacity`
    /// bytes of memory (see `Memory::new`). `cpu_can_swap_regions` is kept
    /// for privilege transitions that no instruction performs yet.
    pub fn new(memory_size: u32, stack_capacity: u32, cpu_can_swap_regions: bool) -> (v: Self)
        requires
            memory_size + 4 * stack_capacity <= u32::MAX,
        ensures
            v.wf(),
            v.cpu.control() == (-1i16, false, 0u32),
            bank_complete(v.cpu.bank()),
            v.memory.capacity() == memory_size + 4 * stack_capacity,
            v.memory.regions().len() == 2,
    {
        let mut v = Self {
            cpu: CPU::new(),
            memory: Memory::new(memory_size, stack_capacity),
            cpu_can_swap_regions,
        };
        v.initialize();
        v
    }

    /// Initializes the CPU (see `CPU::initialize`).
    pub fn initialize(&mut self)
        ensures
            final(self).cpu.control() == (old(self).cpu.spec_seq_id(), false, 0u32),
            final(self).cpu.bank() == old(self).cpu.bank(),
            final(self).memory == old(self).memory,
            final(self).cpu_can_swap_regions == old(self).cpu_can_swap_regions,
    {
        self.cpu.initialize();
    }

    /// Copies a program image to the start of memory, covers it with a new
    /// region named `Program` (read for everyone, write for the system
    /// only), and selects that region for the CPU. Returns the region's
    /// sequence id. Fails with `OutOfBounds`, changing nothing, unless the
    /// image is non-empty and fits before the stack.
    pub fn load_program(&mut self, program: &Vec<u8>) -> (r: Result<u32, MemoryError>)
        requires
            old(self).wf(),
        ensures
            final(self).wf() || final(self).memory.regions().len() == 32767,
            final(self).memory.wf(),
            final(self).cpu.bank() == old(self).cpu.bank(),
            0 < program@.len() <= old(self).memory.spec_stack_start() ==> {
                &&& r == Ok::<u32, MemoryError>(old(self).memory.regions().len() as u32)
                &&& final(self).memory.bytes().take(program@.len() as int) == program@
                &&& final(self).memory.regions() == old(self).memory.regions().push(
                    MemoryRegion {
                        start: 0,
                        end: program@.len() as u32,
                        access: AccessFlags { bits: FLAG_READ | FLAG_PRIVATE_WRITE },
                        seq_id: old(self).memory.regions().len() as u32,
                        name: final(self).memory.regions().last().name,
                    },
                )
                &&& final(self).memory.regions().last().name@ == seq!['P', 'r', 'o', 'g', 'r', 'a', 'm']
                &&& final(self).cpu.control() == (old(self).memory.regions().len() as i16, false, 0u32)
            },
            !(0 < program@.len() <= old(self).memory.spec_stack_start()) ==> {
                &&& r == Err::<u32, MemoryError>(MemoryError::OutOfBounds)
                &&& final(self).cpu.control() == old(self).cpu.control()
                &&& final(self).memory.regions() == old(self).memory.regions()
                &&& final(self).memory.bytes() == old(self).memory.bytes()
            },
    {
        let n = program.len();
        if n == 0 || n > self.memory.stack_start() as usize {
            return Err(MemoryError::OutOfBounds);
        }
        proof {
            reveal_strlit("Program");
        }
        let loaded = self.memory.load_image(0, program);
        assert(loaded is Ok);
        assert(self.memory.bytes().take(n as int) =~= program@);
        let access = AccessFlags::read().union(AccessFlags::private_write());
        let id = match self.memory.add_memory_region(0, n as u32, access, String::from_str("Program")) {
            Ok(id) => id,
            Err(e) => {
                return Err(e);
            },
        };
        self.cpu.set_exec_region(id as i16);
        Ok(id)
    }

    /// Runs the loaded program (see `CPU::run`).
    pub fn run(&mut self) -> (r: Result<bool, CpuError>)
        requires
            old(self).wf(),
        ensures
            final(self).wf(),
            final(self).memory == old(self).memory,
            old(self).cpu.spec_seq_id() < 0 ==> r == Err::<bool, CpuError>(CpuError::SequenceNotSet)
                && final(self).cpu == old(self).cpu,
            ({
                let seq_id = old(self).cpu.spec_seq_id();
                0 <= seq_id < old(self).memory.regions().len() && !old(self).cpu.halted()
            }) ==> {
                let region = old(self).memory.regions()[old(self).cpu.spec_seq_id() as int];
                let (regs, res, ip) = spec_run(
                    old(self).cpu.bank(),
                    old(self).memory,
                    region.start as int,
                    region.end - region.start,
                    old(self).cpu.ip() as int,
                );
                &&& r == res
                &&& final(self).cpu.bank() == regs
                &&& final(self).cpu.halted()
            },
    {
        self.cpu.run(&self.memory)
    }

    /// Executes the sample instruction `AddLitReg(123, R1)` (see `CPU::run_test`).
    pub fn run_test(&mut self) -> (r: Result<bool, CpuError>)
        ensures
            (final(self).cpu.bank(), r) == spec_add_lit_reg(old(self).cpu.bank(), 123, Registers::R1),
            final(self).memory == old(self).memory,
    {
        self.cpu.run_test()
    }
}

} // verus!
