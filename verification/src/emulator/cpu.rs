//! The register file and program counter.
use vstd::prelude::*;

use crate::register::{reg_name, NAMES};
use crate::text::{push_char, push_str};

verus! {

/// Register file after writing `value` to register `reg`: register 0 is hardwired to zero,
/// so a write to it changes nothing.
pub open spec fn reg_write(regs: Seq<u32>, reg: int, value: u32) -> Seq<u32> {
    if reg == 0 {
        regs
    } else {
        regs.update(reg, value)
    }
}

/// Register file after a sequence of writes, applied in order.
pub open spec fn reg_write_all(regs: Seq<u32>, writes: Seq<(int, u32)>) -> Seq<u32>
    decreases writes.len(),
{
    if writes.len() == 0 {
        regs
    } else {
        let last = writes.last();
        reg_write(reg_write_all(regs, writes.drop_last()), last.0, last.1)
    }
}

#[derive(Debug, PartialEq)]
pub struct Cpu {
    registers: [u32; 32],
    pub pc: u32,
}

impl Cpu {
    /// The 32 general purpose registers, by number.
    pub closed spec fn regs(&self) -> Seq<u32> {
        self.registers@
    }

    /// The program counter.
    pub closed spec fn pc_value(&self) -> u32 {
        self.pc
    }

    /// There are always 32 registers.
    pub proof fn lemma_register_count(&self)
        ensures
            self.regs().len() == 32,
    {
    }

    /// All registers and the program counter start at zero.
    pub fn new() -> (cpu: Self)
        ensures
            cpu.regs() == Seq::new(32, |i: int| 0u32),
            cpu.pc_value() == 0,
    {
        let cpu = Cpu { registers: [0u32; 32], pc: 0 };
        assert(cpu.regs() =~= Seq::new(32, |i: int| 0u32));
        cpu
    }

    pub fn read_register(&self, reg: usize) -> (value: u32)
        requires
            reg < 32,
        ensures
            value == self.regs()[reg as int],
    {
        self.registers[reg]
    }

    /// Write a register; writes to register 0 are ignored.
    pub fn write_register(&mut self, reg: usize, value: u32)
        requires
            reg < 32,
        ensures
            final(self).regs() == reg_write(old(self).regs(), reg as int, value),
            final(self).pc_value() == old(self).pc_value(),
    {
        if reg != 0 {
            self.registers[reg] = value;
        }
    }

    /// The state listing: register names and values, four to a line.
    pub fn to_string(&self) -> (s: String)
        ensures
            s@ == cpu_text(self.regs()),
    {
        let mut s = String::new();
        push_str(&mut s, "CPU State:\n");
        let ghost header = s@;
        let mut i: usize = 0;
        while i < 32
            invariant
                i <= 32,
                self.regs().len() == 32,
                header == "CPU State:\n"@,
                s@ == header + register_cells(self.regs(), i as int),
            decreases 32 - i,
        {
            let ghost before = s@;
            push_char(&mut s, '$');
            let name = NAMES[i];
            push_str(&mut s, name);
            let len = name.unicode_len();
            if len < 4 {
                push_spaces(&mut s, 4 - len);
            } else {
                push_spaces(&mut s, 0);
            }
            push_char(&mut s, ':');
            push_char(&mut s, ' ');
            let digits = decimal_chars(self.registers[i]);
            push_spaces(&mut s, 11 - digits.len());
            let mut k: usize = 0;
            let ghost mid = s@;
            while k < digits.len()
                invariant
                    k <= digits@.len(),
                    s@ == mid + digits@.take(k as int),
                decreases digits@.len() - k,
            {
                push_char(&mut s, digits[k]);
                k = k + 1;
                assert(s@ =~= mid + digits@.take(k as int));
            }
            assert(digits@.take(digits@.len() as int) =~= digits@);
            if i % 4 == 3 {
                push_char(&mut s, '\n');
            } else {
                push_spaces(&mut s, 4);
            }
            proof {
                assert(s@ =~= before + register_cell(i as int, self.regs()[i as int]));
                assert(register_cells(self.regs(), i + 1) == register_cells(self.regs(), i as int)
                    + register_cell(i as int, self.regs()[i as int]));
            }
            i = i + 1;
        }
        s
    }

    pub fn get_pc(&self) -> (pc: u32)
        ensures
            pc == self.pc_value(),
    {
        self.pc
    }

    pub fn set_pc(&mut self, pc: u32)
        ensures
            final(self).pc_value() == pc,
            final(self).regs() == old(self).regs(),
    {
        self.pc = pc;
    }
}

/// The decimal digit `d` as a character.
pub open spec fn digit_char(d: nat) -> char {
    ((48 + d) as u8) as char
}

/// The decimal numeral of `n`, without leading zeros.
pub open spec fn decimal(n: nat) -> Seq<char>
    decreases n,
{
    if n < 10 {
        seq![digit_char(n)]
    } else {
        decimal(n / 10).push(digit_char(n % 10))
    }
}

pub open spec fn spaces(n: int) -> Seq<char> {
    Seq::new(if n > 0 {
        n as nat
    } else {
        0
    }, |i: int| ' ')
}

/// One register in the state listing: `$`, the name left-aligned in 4 columns, `: `, the value
/// right-aligned in 11 columns, then a line break after every fourth register and a gap of
/// four spaces otherwise.
pub open spec fn register_cell(i: int, value: u32) -> Seq<char> {
    let name = reg_name(i);
    let num = decimal(value as nat);
    seq!['$'] + name + spaces(4 - name.len()) + seq![':', ' '] + spaces(11 - num.len()) + num + if i
        % 4 == 3 {
        seq!['\n']
    } else {
        spaces(4)
    }
}

/// The cells of the first `n` registers.
pub open spec fn register_cells(regs: Seq<u32>, n: int) -> Seq<char>
    decreases n,
{
    if n <= 0 {
        Seq::empty()
    } else {
        register_cells(regs, n - 1) + register_cell(n - 1, regs[n - 1])
    }
}

/// The state listing: a `CPU State:` line, then the registers four to a line.
pub open spec fn cpu_text(regs: Seq<u32>) -> Seq<char> {
    "CPU State:\n"@ + register_cells(regs, 32)
}

fn decimal_chars(n: u32) -> (v: Vec<char>)
    ensures
        v@ == decimal(n as nat),
        1 <= v@.len() <= 10,
        n < 10 ==> v@.len() <= 1,
        n < 100 ==> v@.len() <= 2,
        n < 1000 ==> v@.len() <= 3,
        n < 10000 ==> v@.len() <= 4,
        n < 100000 ==> v@.len() <= 5,
        n < 1000000 ==> v@.len() <= 6,
        n < 10000000 ==> v@.len() <= 7,
        n < 100000000 ==> v@.len() <= 8,
        n < 1000000000 ==> v@.len() <= 9,
    decreases n,
{
    if n < 10 {
        let c = (48u8 + n as u8) as char;
        let mut v = Vec::new();
        v.push(c);
        assert(v@ =~= decimal(n as nat));
        v
    } else {
        let mut v = decimal_chars(n / 10);
        let d = n % 10;
        let c = (48u8 + d as u8) as char;
        v.push(c);
        v
    }
}

fn push_spaces(s: &mut String, n: usize)
    ensures
        final(s)@ == old(s)@ + spaces(n as int),
{
    let mut k: usize = 0;
    while k < n
        invariant
            k <= n,
            s@ == old(s)@ + spaces(k as int),
        decreases n - k,
    {
        push_char(s, ' ');
        k = k + 1;
        assert(s@ =~= old(s)@ + spaces(k as int));
    }
}

/// Register 0 reads as zero whatever sequence of writes the register file has seen,
/// provided it started at zero.
pub proof fn lemma_zero_register_hardwired(regs: Seq<u32>, writes: Seq<(int, u32)>)
    requires
        regs.len() == 32,
        regs[0] == 0,
        forall|i: int| 0 <= i < writes.len() ==> 0 <= #[trigger] writes[i].0 < 32,
    ensures
        reg_write_all(regs, writes).len() == 32,
        reg_write_all(regs, writes)[0] == 0,
    decreases writes.len(),
{
    if writes.len() > 0 {
        let prefix = writes.drop_last();
        assert forall|i: int| 0 <= i < prefix.len() implies 0 <= #[trigger] prefix[i].0 < 32 by {
            assert(prefix[i] == writes[i]);
        }
        lemma_zero_register_hardwired(regs, prefix);
        assert(0 <= writes[writes.len() - 1].0 < 32);
    }
}

/// A read after a write to a nonzero register gives the written value; every other register
/// keeps its value.
pub proof fn lemma_read_after_write(regs: Seq<u32>, reg: int, value: u32, other: int)
    requires
        regs.len() == 32,
        0 <= reg < 32,
        0 <= other < 32,
        other != reg,
    ensures
        reg != 0 ==> reg_write(regs, reg, value)[reg] == value,
        reg_write(regs, reg, value)[other] == regs[other],
        reg_write(regs, reg, value).len() == 32,
{
}

} // verus!
