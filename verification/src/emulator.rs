//! The emulator: a CPU and a memory that run MIPS machine code.
use vstd::prelude::*;

pub mod cpu;
pub mod memory;

use crate::assembler::Image;
use crate::instruction::{decode, decode_spec, Instruction};
use crate::register;
use cpu::{reg_write, Cpu};
use memory::{byte_of, lemma_word_bytes_roundtrip, word_le, Memory};

verus! {

pub const TEXT_START: u32 = 0x0040_0000;
pub const DATA_START: u32 = 0x1000_0000;

#[derive(Debug, PartialEq, Eq, Structural)]
pub enum ExecError {
    UnknownInstruction,
}

#[derive(Debug, PartialEq, Eq, Structural)]
pub enum RunState {
    Running,
    /// Hit an exit syscall.
    Halted,
}

/// Two's complement addition of 32-bit words.
pub open spec fn wrap_add(a: u32, b: u32) -> u32 {
    ((a + b) % 0x1_0000_0000) as u32
}

/// A 16-bit immediate sign-extended to a 32-bit word.
pub open spec fn sign_extend(imm: i16) -> u32 {
    if imm >= 0 {
        imm as u32
    } else {
        (imm + 0x1_0000_0000) as u32
    }
}

/// The instructions the emulator carries out: `add`, `addi`, and the exit syscall
/// (`syscall` with 10 in `$v0`). Register operands must name one of the 32 registers.
pub open spec fn supported(inst: Instruction, regs: Seq<u32>) -> bool {
    match inst {
        Instruction::Add { rd, rs, rt } => rd < 32 && rs < 32 && rt < 32,
        Instruction::Addi { rt, rs, .. } => rt < 32 && rs < 32,
        Instruction::Syscall => regs[register::V0 as int] == 10,
        _ => false,
    }
}

/// The register file after a supported instruction, and whether the machine keeps running.
pub open spec fn execute_spec(inst: Instruction, regs: Seq<u32>) -> (Seq<u32>, RunState) {
    match inst {
        Instruction::Add { rd, rs, rt } => (
            reg_write(regs, rd as int, wrap_add(regs[rs as int], regs[rt as int])),
            RunState::Running,
        ),
        Instruction::Addi { rt, rs, imm } => (
            reg_write(regs, rt as int, wrap_add(regs[rs as int], sign_extend(imm))),
            RunState::Running,
        ),
        Instruction::Syscall => (regs, RunState::Halted),
        _ => (regs, RunState::Running),
    }
}

/// Memory contents after loading an image over `old`: data bytes sit every fourth address
/// from `DATA_START`, text words fill the addresses from `TEXT_START`, and the data segment
/// is written last.
pub open spec fn loaded_byte(old: u8, text: Seq<u32>, data: Seq<u8>, a: u32) -> u8 {
    if a >= DATA_START && (a - DATA_START) % 4 == 0 && (a - DATA_START) / 4 < data.len() {
        data[(a - DATA_START) / 4]
    } else if a >= TEXT_START && a - TEXT_START < 4 * text.len() {
        byte_of(text[(a - TEXT_START) / 4], (a - TEXT_START) % 4)
    } else {
        old
    }
}

#[derive(Debug)]
pub struct Emulator {
    cpu: Cpu,
    memory: Memory,
}

impl Default for Emulator {
    fn default() -> (emu: Self)
        ensures
            emu.regs() == Seq::new(32, |i: int| 0u32),
            emu.pc() == 0,
            forall|a: u32| emu.mem(a) == 0,
    {
        Self::new()
    }
}

impl Emulator {
    pub closed spec fn regs(&self) -> Seq<u32> {
        self.cpu.regs()
    }

    pub closed spec fn pc(&self) -> u32 {
        self.cpu.pc_value()
    }

    pub closed spec fn mem(&self, addr: u32) -> u8 {
        self.memory.byte(addr)
    }

    /// The word at the program counter.
    pub open spec fn fetched(&self) -> u32 {
        word_le(
            self.mem(self.pc()),
            self.mem((self.pc() + 1) as u32),
            self.mem((self.pc() + 2) as u32),
            self.mem((self.pc() + 3) as u32),
        )
    }

    /// The instruction at the program counter.
    pub open spec fn next_instruction(&self) -> Instruction {
        decode_spec(self.fetched())->0
    }

    /// `step` can run: the word at the program counter lies in memory, decodes, and is
    /// an instruction the emulator carries out.
    pub open spec fn can_step(&self) -> bool {
        &&& self.pc() <= u32::MAX - 3
        &&& decode_spec(self.fetched()) is Some
        &&& supported(self.next_instruction(), self.regs())
    }

    pub proof fn lemma_register_count(&self)
        ensures
            self.regs().len() == 32,
    {
        self.cpu.lemma_register_count();
    }

    /// A fresh machine: registers, program counter and memory all zero.
    pub fn new() -> (emu: Self)
        ensures
            emu.regs() == Seq::new(32, |i: int| 0u32),
            emu.pc() == 0,
            forall|a: u32| emu.mem(a) == 0,
    {
        Emulator { cpu: Cpu::new(), memory: Memory::new() }
    }

    /// Copy an image into memory and point the program counter at its entry.
    pub fn load(&mut self, img: &Image)
        requires
            img.text@.len() * 4 + TEXT_START <= 0x1_0000_0000,
            img.data@.len() == 0 || (img.data@.len() - 1) * 4 + DATA_START <= u32::MAX,
            TEXT_START + img.entry <= u32::MAX,
        ensures
            final(self).regs() == old(self).regs(),
            final(self).pc() == TEXT_START + img.entry,
            forall|a: u32| #[trigger]
                final(self).mem(a) == loaded_byte(old(self).mem(a), img.text@, img.data@, a),
    {
        let ghost before = *self;
        let n = img.text.len();
        let mut i: usize = 0;
        while i < n
            invariant
                n == img.text@.len(),
                i <= n,
                n * 4 + TEXT_START <= 0x1_0000_0000,
                self.regs() == before.regs(),
                self.pc() == before.pc(),
                forall|a: u32| #[trigger]
                    self.mem(a) == if TEXT_START <= a < TEXT_START + 4 * i {
                        byte_of(img.text@[(a - TEXT_START) / 4], (a - TEXT_START) % 4)
                    } else {
                        before.mem(a)
                    },
            decreases n - i,
        {
            let addr = (i as u32) * 4 + TEXT_START;
            let ghost prev = *self;
            self.memory.write_word(addr, img.text[i]);
            assert forall|a: u32|
                #![trigger self.mem(a)]
                self.mem(a) == if TEXT_START <= a < TEXT_START + 4 * (i + 1) {
                    byte_of(img.text@[(a - TEXT_START) / 4], (a - TEXT_START) % 4)
                } else {
                    before.mem(a)
                } by {
                if addr <= a <= addr + 3 {
                    let k = a - addr;
                    assert(a - TEXT_START == 4 * i + k);
                    assert((a - TEXT_START) / 4 == i && (a - TEXT_START) % 4 == k) by (nonlinear_arith)
                        requires
                            a - TEXT_START == 4 * i + k,
                            0 <= k < 4,
                    ;
                } else {
                    assert(self.mem(a) == prev.mem(a));
                }
            }
            i = i + 1;
        }
        let ghost after_text = *self;
        let m = img.data.len();
        let mut j: usize = 0;
        while j < m
            invariant
                m == img.data@.len(),
                j <= m,
                m == 0 || (m - 1) * 4 + DATA_START <= u32::MAX,
                self.regs() == before.regs(),
                self.pc() == before.pc(),
                forall|a: u32| #[trigger]
                    self.mem(a) == if a >= DATA_START && (a - DATA_START) % 4 == 0 && (a
                        - DATA_START) / 4 < j {
                        img.data@[(a - DATA_START) / 4]
                    } else {
                        after_text.mem(a)
                    },
            decreases m - j,
        {
            let addr = (j as u32) * 4 + DATA_START;
            let ghost prev = *self;
            self.memory.write_byte(addr, img.data[j]);
            assert forall|a: u32|
                #![trigger self.mem(a)]
                self.mem(a) == if a >= DATA_START && (a - DATA_START) % 4 == 0 && (a - DATA_START) / 4
                    < j + 1 {
                    img.data@[(a - DATA_START) / 4]
                } else {
                    after_text.mem(a)
                } by {
                if a == addr {
                    assert(a - DATA_START == 4 * j);
                    assert((a - DATA_START) / 4 == j && (a - DATA_START) % 4 == 0) by (nonlinear_arith)
                        requires
                            a - DATA_START == 4 * j,
                    ;
                } else {
                    assert(self.mem(a) == prev.mem(a));
                    if a >= DATA_START && (a - DATA_START) % 4 == 0 && (a - DATA_START) / 4 == j {
                        assert(a - DATA_START == 4 * j) by (nonlinear_arith)
                            requires
                                (a - DATA_START) % 4 == 0,
                                (a - DATA_START) / 4 == j,
                                a >= DATA_START,
                        ;
                    }
                }
            }
            j = j + 1;
        }
        let ghost after_data = *self;
        self.cpu.set_pc(TEXT_START + img.entry);
        assert forall|a: u32|
            #![trigger self.mem(a)]
            self.mem(a) == loaded_byte(before.mem(a), img.text@, img.data@, a) by {
            assert(self.mem(a) == after_data.mem(a));
            assert(after_text.mem(a) == if TEXT_START <= a < TEXT_START + 4 * n {
                byte_of(img.text@[(a - TEXT_START) / 4], (a - TEXT_START) % 4)
            } else {
                before.mem(a)
            });
        }
    }

    /// Fetch, decode and carry out the instruction at the program counter, which moves on
    /// by one word.
    pub fn step(&mut self) -> (r: Result<RunState, ExecError>)
        requires
            old(self).can_step(),
        ensures
            r == Ok::<RunState, ExecError>(
                execute_spec(old(self).next_instruction(), old(self).regs()).1,
            ),
            final(self).regs() == execute_spec(old(self).next_instruction(), old(self).regs()).0,
            final(self).pc() == wrap_add(old(self).pc(), 4),
            forall|a: u32| #[trigger] final(self).mem(a) == old(self).mem(a),
    {
        let pc = self.cpu.get_pc();
        let inst_raw = self.memory.read_word(pc);
        let inst = decode(inst_raw);
        self.cpu.set_pc(pc.wrapping_add(4));
        self.execute(inst)
    }

    /// The value of register `n`.
    pub fn register(&mut self, n: usize) -> (value: u32)
        requires
            n < 32,
        ensures
            value == old(self).regs()[n as int],
            *final(self) == *old(self),
    {
        self.cpu.read_register(n)
    }

    /// Whether `execute` carries out `inst` in the current state.
    pub fn can_execute(&self, inst: &Instruction) -> (b: bool)
        ensures
            b == supported(*inst, self.regs()),
    {
        proof {
            self.lemma_register_count();
        }
        match inst {
            Instruction::Add { rd, rs, rt } => *rd < 32 && *rs < 32 && *rt < 32,
            Instruction::Addi { rt, rs, .. } => *rt < 32 && *rs < 32,
            Instruction::Syscall => self.cpu.read_register(register::V0) == 10,
            _ => false,
        }
    }

    /// Carry out one instruction; the program counter is left alone.
    pub fn execute(&mut self, inst: Instruction) -> (r: Result<RunState, ExecError>)
        requires
            supported(inst, old(self).regs()),
        ensures
            r == Ok::<RunState, ExecError>(execute_spec(inst, old(self).regs()).1),
            final(self).regs() == execute_spec(inst, old(self).regs()).0,
            final(self).pc() == old(self).pc(),
            forall|a: u32| #[trigger] final(self).mem(a) == old(self).mem(a),
    {
        proof {
            self.lemma_register_count();
        }
        let mut next_state = RunState::Running;
        match inst {
            Instruction::Add { rd, rs, rt } => {
                let rs_val = self.cpu.read_register(rs);
                let rt_val = self.cpu.read_register(rt);
                let result = rs_val.wrapping_add(rt_val);
                self.cpu.write_register(rd, result);
            },
            Instruction::Addi { rt, rs, imm } => {
                let rs_val = self.cpu.read_register(rs);
                let ext = imm as u32;
                assert(ext == sign_extend(imm)) by (bit_vector)
                    requires
                        ext == imm as u32,
                ;
                let result = rs_val.wrapping_add(ext);
                self.cpu.write_register(rt, result);
            },
            Instruction::Syscall => {
                let v0 = self.cpu.read_register(register::V0);
                if v0 == 10 {
                    next_state = RunState::Halted;
                }
            },
            _ => {},
        }
        Ok(next_state)
    }

    pub fn cpu(&self) -> (cpu: &Cpu)
        ensures
            cpu.regs() == self.regs(),
            cpu.pc_value() == self.pc(),
    {
        &self.cpu
    }

    pub fn memory(&self) -> (memory: &Memory)
        ensures
            forall|a: u32| #[trigger] memory.byte(a) == self.mem(a),
    {
        &self.memory
    }
}

/// Carrying out an instruction keeps the register file at 32 registers and register 0
/// at its value (zero, from `new`).
pub proof fn lemma_execute_keeps_zero_register(inst: Instruction, regs: Seq<u32>)
    requires
        regs.len() == 32,
        supported(inst, regs),
    ensures
        execute_spec(inst, regs).0.len() == 32,
        execute_spec(inst, regs).0[0] == regs[0],
{
}

/// `li rd, v` (an `addi` from register 0) leaves `v`, sign-extended, in `rd`.
pub proof fn lemma_li_loads_immediate(rd: usize, v: i16, regs: Seq<u32>)
    requires
        regs.len() == 32,
        regs[0] == 0,
        0 < rd < 32,
    ensures
        execute_spec(Instruction::Addi { rt: rd, rs: register::ZERO, imm: v }, regs).0[rd as int]
            == sign_extend(v),
        v >= 0 ==> sign_extend(v) == v,
{
}

/// After a load, the word at `TEXT_START + 4 * k` is text word `k`, as long as the text
/// segment ends below `DATA_START`.
pub proof fn lemma_load_then_fetch(before: Emulator, after: Emulator, img: Image, k: int)
    requires
        forall|a: u32| #[trigger]
            after.mem(a) == loaded_byte(before.mem(a), img.text@, img.data@, a),
        TEXT_START + 4 * img.text@.len() <= DATA_START,
        0 <= k < img.text@.len(),
    ensures
        word_le(
            after.mem((TEXT_START + 4 * k) as u32),
            after.mem((TEXT_START + 4 * k + 1) as u32),
            after.mem((TEXT_START + 4 * k + 2) as u32),
            after.mem((TEXT_START + 4 * k + 3) as u32),
        ) == img.text@[k],
{
    let w = img.text@[k];
    assert forall|j: int| 0 <= j < 4 implies #[trigger] after.mem((TEXT_START + 4 * k + j) as u32)
        == byte_of(w, j) by {
        let a = (TEXT_START + 4 * k + j) as u32;
        assert(a - TEXT_START == 4 * k + j);
        assert((a - TEXT_START) / 4 == k && (a - TEXT_START) % 4 == j) by (nonlinear_arith)
            requires
                a - TEXT_START == 4 * k + j,
                0 <= j < 4,
        ;
        assert(after.mem(a) == loaded_byte(before.mem(a), img.text@, img.data@, a));
    }
    assert(after.mem((TEXT_START + 4 * k + 0) as u32) == byte_of(w, 0));
    assert(after.mem((TEXT_START + 4 * k + 1) as u32) == byte_of(w, 1));
    assert(after.mem((TEXT_START + 4 * k + 2) as u32) == byte_of(w, 2));
    assert(after.mem((TEXT_START + 4 * k + 3) as u32) == byte_of(w, 3));
    lemma_word_bytes_roundtrip(w);
}

/// `add rd, rs, rt` puts into `rd` the sum, modulo 2^32, of `rs` and `rt` as they were
/// before the instruction, also when `rd` names one of the sources; every other register
/// keeps its value (a write to register 0 is dropped), and the machine keeps running.
pub proof fn lemma_add_sums_sources(rd: usize, rs: usize, rt: usize, regs: Seq<u32>)
    requires
        regs.len() == 32,
        rd < 32,
        rs < 32,
        rt < 32,
    ensures
        ({
            let (out, state) = execute_spec(Instruction::Add { rd, rs, rt }, regs);
            &&& state == RunState::Running
            &&& out.len() == 32
            &&& rd != 0 ==> out[rd as int] as int == (regs[rs as int] + regs[rt as int]) % 0x1_0000_0000
            &&& forall|j: int| 0 <= j < 32 && (j != rd || rd == 0) ==> #[trigger] out[j] == regs[j]
        }),
{
}

/// `addi rt, rs, imm` puts into `rt` the value of `rs` before the instruction plus the
/// signed immediate, modulo 2^32; every other register keeps its value (a write to
/// register 0 is dropped), and the machine keeps running.
pub proof fn lemma_addi_adds_immediate(rt: usize, rs: usize, imm: i16, regs: Seq<u32>)
    requires
        regs.len() == 32,
        rt < 32,
        rs < 32,
    ensures
        ({
            let (out, state) = execute_spec(Instruction::Addi { rt, rs, imm }, regs);
            &&& state == RunState::Running
            &&& out.len() == 32
            &&& rt != 0 ==> out[rt as int] as int == (regs[rs as int] + imm) % 0x1_0000_0000
            &&& forall|j: int| 0 <= j < 32 && (j != rt || rt == 0) ==> #[trigger] out[j] == regs[j]
        }),
{
    let a = regs[rs as int] as int;
    if imm < 0 {
        assert((a + (imm + 0x1_0000_0000)) % 0x1_0000_0000 == (a + imm) % 0x1_0000_0000) by {
            vstd::arithmetic::div_mod::lemma_mod_add_multiples_vanish(a + imm, 0x1_0000_0000);
        }
    }
}

/// The exit syscall (`$v0` = 10) halts the machine and changes no register.
pub proof fn lemma_exit_syscall_halts(regs: Seq<u32>)
    requires
        regs.len() == 32,
        regs[2] == 10,
    ensures
        execute_spec(Instruction::Syscall, regs) == (regs, RunState::Halted),
{
}

/// After a load, data byte `k` sits at `DATA_START + 4 * k`, and the three bytes after it
/// keep what they held before (as long as the text segment ends below `DATA_START`).
pub proof fn lemma_load_places_data(before: Emulator, after: Emulator, img: Image, k: int, j: int)
    requires
        forall|a: u32| #[trigger]
            after.mem(a) == loaded_byte(before.mem(a), img.text@, img.data@, a),
        TEXT_START + 4 * img.text@.len() <= DATA_START,
        0 <= k < img.data@.len(),
        DATA_START + 4 * k + 3 <= u32::MAX,
        1 <= j <= 3,
    ensures
        after.mem((DATA_START + 4 * k) as u32) == img.data@[k],
        after.mem((DATA_START + 4 * k + j) as u32) == before.mem((DATA_START + 4 * k + j) as u32),
{
    let a0 = (DATA_START + 4 * k) as u32;
    let aj = (DATA_START + 4 * k + j) as u32;
    assert((a0 - DATA_START) % 4 == 0 && (a0 - DATA_START) / 4 == k) by (nonlinear_arith)
        requires
            a0 - DATA_START == 4 * k,
    ;
    assert((aj - DATA_START) % 4 == j) by (nonlinear_arith)
        requires
            aj - DATA_START == 4 * k + j,
            1 <= j <= 3,
            k >= 0,
    ;
    assert(after.mem(a0) == loaded_byte(before.mem(a0), img.text@, img.data@, a0));
    assert(after.mem(aj) == loaded_byte(before.mem(aj), img.text@, img.data@, aj));
}

} // verus!
