//! A minimal emulator: loads bare text at address 0, and also carries out `LoadImmediate`.
use vstd::prelude::*;

use crate::assembler::Image;
use crate::emulator::cpu::reg_write;
pub use crate::emulator::cpu::Cpu;
use crate::emulator::memory::{byte_of, word_le};
pub use crate::emulator::memory::Memory;
use crate::emulator::{execute_spec, sign_extend, supported, wrap_add};
pub use crate::emulator::{ExecError, RunState};
use crate::instruction::{decode, decode_spec, Instruction};
use crate::register;

verus! {

/// What this emulator carries out: what the main emulator does, plus `LoadImmediate`.
pub open spec fn simple_supported(inst: Instruction, regs: Seq<u32>) -> bool {
    match inst {
        Instruction::LoadImmediate { rd, .. } => rd < 32,
        _ => supported(inst, regs),
    }
}

/// The register file after an instruction, and whether the machine keeps running;
/// `LoadImmediate` stores its 32-bit value as is.
pub open spec fn simple_execute_spec(inst: Instruction, regs: Seq<u32>) -> (Seq<u32>, RunState) {
    match inst {
        Instruction::LoadImmediate { rd, imm } => (reg_write(regs, rd as int, imm as u32), RunState::Running),
        _ => execute_spec(inst, regs),
    }
}

#[derive(Debug)]
pub struct Emulator {
    cpu: Cpu,
    memory: Memory,
}

impl Emulator {
    pub closed spec fn regs(&self) -> Seq<u32> {
        self.cpu.regs()
    }

    pub closed spec fn pc(&self) -> u32 {
        self.cpu.pc_value()
    }

    pub closed spec fn mem(&self, addr: u32) -> u8 {
        self.memory.byte(addr)
    }

    /// The word at the program counter.
    pub open spec fn fetched(&self) -> u32 {
        word_le(
            self.mem(self.pc()),
            self.mem((self.pc() + 1) as u32),
            self.mem((self.pc() + 2) as u32),
            self.mem((self.pc() + 3) as u32),
        )
    }

    /// The instruction at the program counter.
    pub open spec fn next_instruction(&self) -> Instruction {
        decode_spec(self.fetched())->0
    }

    /// `step` can run: the word at the program counter lies in memory, decodes, and is
    /// an instruction this emulator carries out.
    pub open spec fn can_step(&self) -> bool {
        &&& self.pc() <= u32::MAX - 3
        &&& decode_spec(self.fetched()) is Some
        &&& simple_supported(self.next_instruction(), self.regs())
    }

    pub proof fn lemma_register_count(&self)
        ensures
            self.regs().len() == 32,
    {
        self.cpu.lemma_register_count();
    }

    /// A fresh machine: registers, program counter and memory all zero.
    pub fn new() -> (emu: Self)
        ensures
            emu.regs() == Seq::new(32, |i: int| 0u32),
            emu.pc() == 0,
            forall|a: u32| emu.mem(a) == 0,
    {
        Emulator { cpu: Cpu::new(), memory: Memory::new() }
    }

    /// Copy the text words of an image to addresses 0, 4, 8, ...; nothing else changes.
    pub fn load(&mut self, img: &Image)
        requires
            img.text@.len() * 4 <= 0x1_0000_0000,
        ensures
            final(self).regs() == old(self).regs(),
            final(self).pc() == old(self).pc(),
            forall|a: u32| #[trigger]
                final(self).mem(a) == if a < 4 * img.text@.len() {
                    byte_of(img.text@[a as int / 4], a as int % 4)
                } else {
                    old(self).mem(a)
                },
    {
        let ghost before = *self;
        let n = img.text.len();
        let mut i: usize = 0;
        while i < n
            invariant
                n == img.text@.len(),
                i <= n,
                n * 4 <= 0x1_0000_0000,
                self.regs() == before.regs(),
                self.pc() == before.pc(),
                forall|a: u32| #[trigger]
                    self.mem(a) == if a < 4 * i {
                        byte_of(img.text@[a as int / 4], a as int % 4)
                    } else {
                        before.mem(a)
                    },
            decreases n - i,
        {
            let addr = (i as u32) * 4;
            let ghost prev = *self;
            self.memory.write_word(addr, img.text[i]);
            assert forall|a: u32|
                #![trigger self.mem(a)]
                self.mem(a) == if a < 4 * (i + 1) {
                    byte_of(img.text@[a as int / 4], a as int % 4)
                } else {
                    before.mem(a)
                } by {
                if addr <= a <= addr + 3 {
                    let k = a - addr;
                    assert(a == 4 * i + k);
                    assert(a as int / 4 == i && a as int % 4 == k) by (nonlinear_arith)
                        requires
                            a == 4 * i + k,
                            0 <= k < 4,
                    ;
                } else {
                    assert(self.mem(a) == prev.mem(a));
                }
            }
            i = i + 1;
        }
    }

    /// Fetch, decode and carry out the instruction at the program counter, which moves on
    /// by one word.
    pub fn step(&mut self) -> (r: Result<RunState, ExecError>)
        requires
            old(self).can_step(),
        ensures
            r == Ok::<RunState, ExecError>(
                simple_execute_spec(old(self).next_instruction(), old(self).regs()).1,
            ),
            final(self).regs() == simple_execute_spec(
                old(self).next_instruction(),
                old(self).regs(),
            ).0,
            final(self).pc() == wrap_add(old(self).pc(), 4),
            forall|a: u32| #[trigger] final(self).mem(a) == old(self).mem(a),
    {
        let pc = self.cpu.get_pc();
        let inst_raw = self.memory.read_word(pc);
        let inst = decode(inst_raw);
        self.cpu.set_pc(pc.wrapping_add(4));
        self.execute(inst)
    }

    /// The value of register `n`.
    pub fn register(&mut self, n: usize) -> (value: u32)
        requires
            n < 32,
        ensures
            value == old(self).regs()[n as int],
            *final(self) == *old(self),
    {
        self.cpu.read_register(n)
    }

    /// Carry out one instruction; the program counter is left alone.
    pub fn execute(&mut self, inst: Instruction) -> (r: Result<RunState, ExecError>)
        requires
            simple_supported(inst, old(self).regs()),
        ensures
            r == Ok::<RunState, ExecError>(simple_execute_spec(inst, old(self).regs()).1),
            final(self).regs() == simple_execute_spec(inst, old(self).regs()).0,
            final(self).pc() == old(self).pc(),
            forall|a: u32| #[trigger] final(self).mem(a) == old(self).mem(a),
    {
        proof {
            self.lemma_register_count();
        }
        let mut next_state = RunState::Running;
        match inst {
            Instruction::LoadImmediate { rd, imm } => self.cpu.write_register(rd, imm as u32),
            Instruction::Add { rd, rs, rt } => {
                let rs_val = self.cpu.read_register(rs);
                let rt_val = self.cpu.read_register(rt);
                let result = rs_val.wrapping_add(rt_val);
                self.cpu.write_register(rd, result);
            },
            Instruction::Addi { rt, rs, imm } => {
                let rs_val = self.cpu.read_register(rs);
                let ext = imm as u32;
                assert(ext == sign_extend(imm)) by (bit_vector)
                    requires
                        ext == imm as u32,
                ;
                let result = rs_val.wrapping_add(ext);
                self.cpu.write_register(rt, result);
            },
            Instruction::Syscall => {
                let v0 = self.cpu.read_register(register::V0);
                if v0 == 10 {
                    next_state = RunState::Halted;
                }
            },
            _ => {},
        }
        Ok(next_state)
    }

    /// Whether `execute` carries out `inst` in the current state.
    pub fn can_execute(&self, inst: &Instruction) -> (b: bool)
        ensures
            b == simple_supported(*inst, self.regs()),
    {
        proof {
            self.lemma_register_count();
        }
        match inst {
            Instruction::LoadImmediate { rd, .. } => *rd < 32,
            Instruction::Add { rd, rs, rt } => *rd < 32 && *rs < 32 && *rt < 32,
            Instruction::Addi { rt, rs, .. } => *rt < 32 && *rs < 32,
            Instruction::Syscall => self.cpu.read_register(register::V0) == 10,
            _ => false,
        }
    }

    pub fn cpu(&self) -> (cpu: &Cpu)
        ensures
            cpu.regs() == self.regs(),
            cpu.pc_value() == self.pc(),
    {
        &self.cpu
    }

    pub fn memory(&self) -> (memory: &Memory)
        ensures
            forall|a: u32| #[trigger] memory.byte(a) == self.mem(a),
    {
        &self.memory
    }
}

/// `LoadImmediate rd, imm` puts the full 32-bit two's complement pattern of `imm` into `rd`
/// (no bits are cut); every other register keeps its value (a write to register 0 is
/// dropped), and the machine keeps running.
pub proof fn lemma_load_immediate_full_word(rd: usize, imm: i32, regs: Seq<u32>)
    requires
        regs.len() == 32,
        rd < 32,
    ensures
        ({
            let (out, state) = simple_execute_spec(Instruction::LoadImmediate { rd, imm }, regs);
            &&& state == RunState::Running
            &&& out.len() == 32
            &&& rd != 0 ==> out[rd as int] as int == if imm >= 0 {
                imm as int
            } else {
                imm + 0x1_0000_0000
            }
            &&& forall|j: int| 0 <= j < 32 && (j != rd || rd == 0) ==> #[trigger] out[j] == regs[j]
        }),
{
    assert(imm >= 0 ==> (imm as u32) as int == imm as int) by (bit_vector);
    assert(imm < 0 ==> (imm as u32) as int == imm as int + 0x1_0000_0000) by (bit_vector);
}

/// On this emulator too, `add rd, rs, rt` puts into `rd` the sum, modulo 2^32, of `rs` and
/// `rt` as they were before the instruction, also when `rd` names one of the sources; every
/// other register keeps its value, and the machine keeps running.
pub proof fn lemma_simple_add_sums_sources(rd: usize, rs: usize, rt: usize, regs: Seq<u32>)
    requires
        regs.len() == 32,
        rd < 32,
        rs < 32,
        rt < 32,
    ensures
        ({
            let (out, state) = simple_execute_spec(Instruction::Add { rd, rs, rt }, regs);
            &&& state == RunState::Running
            &&& out.len() == 32
            &&& rd != 0 ==> out[rd as int] as int == (regs[rs as int] + regs[rt as int]) % 0x1_0000_0000
            &&& forall|j: int| 0 <= j < 32 && (j != rd || rd == 0) ==> #[trigger] out[j] == regs[j]
        }),
{
    crate::emulator::lemma_add_sums_sources(rd, rs, rt, regs);
}

/// On this emulator too, `addi rt, rs, imm` puts into `rt` the value of `rs` plus the signed
/// immediate, modulo 2^32; every other register keeps its value.
pub proof fn lemma_simple_addi_adds_immediate(rt: usize, rs: usize, imm: i16, regs: Seq<u32>)
    requires
        regs.len() == 32,
        rt < 32,
        rs < 32,
    ensures
        ({
            let (out, state) = simple_execute_spec(Instruction::Addi { rt, rs, imm }, regs);
            &&& state == RunState::Running
            &&& out.len() == 32
            &&& rt != 0 ==> out[rt as int] as int == (regs[rs as int] + imm) % 0x1_0000_0000
            &&& forall|j: int| 0 <= j < 32 && (j != rt || rt == 0) ==> #[trigger] out[j] == regs[j]
        }),
{
    crate::emulator::lemma_addi_adds_immediate(rt, rs, imm, regs);
}

/// On this emulator too, the exit syscall halts the machine and changes no register.
pub proof fn lemma_simple_exit_syscall_halts(regs: Seq<u32>)
    requires
        regs.len() == 32,
        regs[2] == 10,
    ensures
        simple_execute_spec(Instruction::Syscall, regs) == (regs, RunState::Halted),
{
}

} // verus!
