//! Canonical mapping between MIPS register names and their indices.
use vstd::prelude::*;

use crate::text::{
    chars_of, digits_capped, range_eq_str, trim, trim_range, uint_literal,
};

verus! {

/// Register names indexed by register number.
pub const NAMES: [&'static str; 32] = [
    "zero", "at", "v0", "v1", "a0", "a1", "a2", "a3", "t0", "t1", "t2", "t3", "t4", "t5", "t6",
    "t7", "s0", "s1", "s2", "s3", "s4", "s5", "s6", "s7", "t8", "t9", "k0", "k1", "gp", "sp", "fp",
    "ra",
];

pub const ZERO: usize = 0;
pub const AT: usize = 1;
pub const V0: usize = 2;
pub const V1: usize = 3;
pub const A0: usize = 4;
pub const A1: usize = 5;
pub const A2: usize = 6;
pub const A3: usize = 7;
pub const T0: usize = 8;
pub const T1: usize = 9;
pub const T2: usize = 10;
pub const T3: usize = 11;
pub const T4: usize = 12;
pub const T5: usize = 13;
pub const T6: usize = 14;
pub const T7: usize = 15;
pub const S0: usize = 16;
pub const S1: usize = 17;
pub const S2: usize = 18;
pub const S3: usize = 19;
pub const S4: usize = 20;
pub const S5: usize = 21;
pub const S6: usize = 22;
pub const S7: usize = 23;
pub const T8: usize = 24;
pub const T9: usize = 25;
pub const K0: usize = 26;
pub const K1: usize = 27;
pub const GP: usize = 28;
pub const SP: usize = 29;
pub const FP: usize = 30;
pub const RA: usize = 31;

/// The name of register `i` (without the `$`).
pub open spec fn reg_name(i: int) -> Seq<char> {
    NAMES@[i]@
}

/// The first register at or after `i` whose name is `name`.
pub open spec fn first_name_index(name: Seq<char>, i: int) -> Option<usize>
    decreases 32 - i,
{
    if i < 0 || i >= 32 {
        None
    } else if reg_name(i) == name {
        Some(i as usize)
    } else {
        first_name_index(name, i + 1)
    }
}

/// Register index for a name: `s8` is an alias of `fp`, otherwise the position in `NAMES`.
pub open spec fn spec_name_to_index(name: Seq<char>) -> Option<usize> {
    if name == "s8"@ {
        Some(FP)
    } else {
        first_name_index(name, 0)
    }
}

/// Register index for the name `a[lo..hi]`.
pub fn name_index_range(a: &[char], lo: usize, hi: usize) -> (r: Option<usize>)
    requires
        lo <= hi <= a@.len(),
    ensures
        r == spec_name_to_index(a@.subrange(lo as int, hi as int)),
{
    if range_eq_str(a, lo, hi, "s8") {
        return Some(FP);
    }
    let mut i: usize = 0;
    while i < 32
        invariant
            i <= 32,
            lo <= hi <= a@.len(),
            a@.subrange(lo as int, hi as int) != "s8"@,
            spec_name_to_index(a@.subrange(lo as int, hi as int)) == first_name_index(
                a@.subrange(lo as int, hi as int),
                i as int,
            ),
        decreases 32 - i,
    {
        if range_eq_str(a, lo, hi, NAMES[i]) {
            return Some(i);
        }
        i = i + 1;
    }
    None
}

/// Look up a register index by name (leading `$` already stripped),
/// accepting the `s8` alias for `fp` (30).
pub fn name_to_index(name: &str) -> (r: Option<usize>)
    ensures
        r == spec_name_to_index(name@),
{
    let v = chars_of(name);
    let n = v.len();
    assert(v@.subrange(0, n as int) =~= v@);
    name_index_range(v.as_slice(), 0, n)
}

/// A register operand: `$` then a register number below 32 (as `str::parse` reads numbers)
/// or a register name, surrounding whitespace ignored.
pub open spec fn register_spec(arg: Seq<char>) -> Option<usize> {
    let t = trim(arg);
    if t.len() > 0 && t[0] == '$' {
        let name = t.drop_first();
        match uint_literal(name) {
            Some(n) => if n < 32 {
                Some(n as usize)
            } else {
                None
            },
            None => spec_name_to_index(name),
        }
    } else {
        None
    }
}

/// Read the register operand `a[lo..hi]`.
pub fn parse_register(a: &[char], lo: usize, hi: usize) -> (r: Option<usize>)
    requires
        lo <= hi <= a@.len(),
    ensures
        r == register_spec(a@.subrange(lo as int, hi as int)),
{
    let (l, h) = trim_range(a, lo, hi);
    if h > l && a[l] == '$' {
        let s = l + 1;
        let ghost name = a@.subrange(s as int, h as int);
        assert(name =~= a@.subrange(l as int, h as int).drop_first());
        let d = if h > s && a[s] == '+' {
            s + 1
        } else {
            s
        };
        assert(h > s && a@[s as int] == '+' ==> a@.subrange(d as int, h as int) =~= name.drop_first());
        assert(!(h > s && a@[s as int] == '+') ==> a@.subrange(d as int, h as int) =~= name);
        match digits_capped(a, d, h, 32) {
            Some(v) => if v < 32 {
                Some(v as usize)
            } else {
                None
            },
            None => name_index_range(a, s, h),
        }
    } else {
        None
    }
}

proof fn lemma_names_spelled()
    ensures
        reg_name(0) == seq!['z', 'e', 'r', 'o'],
        reg_name(1) == seq!['a', 't'],
        reg_name(2) == seq!['v', '0'],
        reg_name(3) == seq!['v', '1'],
        reg_name(4) == seq!['a', '0'],
        reg_name(5) == seq!['a', '1'],
        reg_name(6) == seq!['a', '2'],
        reg_name(7) == seq!['a', '3'],
        reg_name(8) == seq!['t', '0'],
        reg_name(9) == seq!['t', '1'],
        reg_name(10) == seq!['t', '2'],
        reg_name(11) == seq!['t', '3'],
        reg_name(12) == seq!['t', '4'],
        reg_name(13) == seq!['t', '5'],
        reg_name(14) == seq!['t', '6'],
        reg_name(15) == seq!['t', '7'],
        reg_name(16) == seq!['s', '0'],
        reg_name(17) == seq!['s', '1'],
        reg_name(18) == seq!['s', '2'],
        reg_name(19) == seq!['s', '3'],
        reg_name(20) == seq!['s', '4'],
        reg_name(21) == seq!['s', '5'],
        reg_name(22) == seq!['s', '6'],
        reg_name(23) == seq!['s', '7'],
        reg_name(24) == seq!['t', '8'],
        reg_name(25) == seq!['t', '9'],
        reg_name(26) == seq!['k', '0'],
        reg_name(27) == seq!['k', '1'],
        reg_name(28) == seq!['g', 'p'],
        reg_name(29) == seq!['s', 'p'],
        reg_name(30) == seq!['f', 'p'],
        reg_name(31) == seq!['r', 'a'],
        "s8"@ == seq!['s', '8'],
{
    reveal_strlit("zero");
    reveal_strlit("at");
    reveal_strlit("v0");
    reveal_strlit("v1");
    reveal_strlit("a0");
    reveal_strlit("a1");
    reveal_strlit("a2");
    reveal_strlit("a3");
    reveal_strlit("t0");
    reveal_strlit("t1");
    reveal_strlit("t2");
    reveal_strlit("t3");
    reveal_strlit("t4");
    reveal_strlit("t5");
    reveal_strlit("t6");
    reveal_strlit("t7");
    reveal_strlit("s0");
    reveal_strlit("s1");
    reveal_strlit("s2");
    reveal_strlit("s3");
    reveal_strlit("s4");
    reveal_strlit("s5");
    reveal_strlit("s6");
    reveal_strlit("s7");
    reveal_strlit("t8");
    reveal_strlit("t9");
    reveal_strlit("k0");
    reveal_strlit("k1");
    reveal_strlit("gp");
    reveal_strlit("sp");
    reveal_strlit("fp");
    reveal_strlit("ra");
    reveal_strlit("s8");
    assert(reg_name(0) =~= seq!['z', 'e', 'r', 'o']);
    assert(reg_name(1) =~= seq!['a', 't']);
    assert(reg_name(2) =~= seq!['v', '0']);
    assert(reg_name(3) =~= seq!['v', '1']);
    assert(reg_name(4) =~= seq!['a', '0']);
    assert(reg_name(5) =~= seq!['a', '1']);
    assert(reg_name(6) =~= seq!['a', '2']);
    assert(reg_name(7) =~= seq!['a', '3']);
    assert(reg_name(8) =~= seq!['t', '0']);
    assert(reg_name(9) =~= seq!['t', '1']);
    assert(reg_name(10) =~= seq!['t', '2']);
    assert(reg_name(11) =~= seq!['t', '3']);
    assert(reg_name(12) =~= seq!['t', '4']);
    assert(reg_name(13) =~= seq!['t', '5']);
    assert(reg_name(14) =~= seq!['t', '6']);
    assert(reg_name(15) =~= seq!['t', '7']);
    assert(reg_name(16) =~= seq!['s', '0']);
    assert(reg_name(17) =~= seq!['s', '1']);
    assert(reg_name(18) =~= seq!['s', '2']);
    assert(reg_name(19) =~= seq!['s', '3']);
    assert(reg_name(20) =~= seq!['s', '4']);
    assert(reg_name(21) =~= seq!['s', '5']);
    assert(reg_name(22) =~= seq!['s', '6']);
    assert(reg_name(23) =~= seq!['s', '7']);
    assert(reg_name(24) =~= seq!['t', '8']);
    assert(reg_name(25) =~= seq!['t', '9']);
    assert(reg_name(26) =~= seq!['k', '0']);
    assert(reg_name(27) =~= seq!['k', '1']);
    assert(reg_name(28) =~= seq!['g', 'p']);
    assert(reg_name(29) =~= seq!['s', 'p']);
    assert(reg_name(30) =~= seq!['f', 'p']);
    assert(reg_name(31) =~= seq!['r', 'a']);
    assert("s8"@ =~= seq!['s', '8']);
}

/// A name key that tells the names apart: its length and first two characters.
spec fn name_key(s: Seq<char>) -> (int, char, char) {
    (s.len() as int, s[0], s[1])
}

proof fn lemma_first_index_from(i: int, j: int)
    requires
        0 <= j <= i < 32,
        forall|k: int| 0 <= k < 32 ==> #[trigger] reg_name(k).len() >= 2,
        forall|k: int| 0 <= k < 32 && k != i ==> name_key(#[trigger] reg_name(k)) != name_key(reg_name(i)),
    ensures
        first_name_index(reg_name(i), j) == Some(i as usize),
    decreases i - j,
{
    if j < i {
        assert(name_key(reg_name(j)) != name_key(reg_name(i)));
        lemma_first_index_from(i, j + 1);
    }
}

/// Looking up the name of register `i` gives `i` back: no two entries of `NAMES` are alike,
/// and `s8` is not one of them.
pub proof fn lemma_name_to_index_of_name(i: int)
    requires
        0 <= i < 32,
    ensures
        spec_name_to_index(reg_name(i)) == Some(i as usize),
{
    lemma_names_spelled();
    assert(forall|k: int| 0 <= k < 32 ==> #[trigger] reg_name(k).len() >= 2);
    assert(forall|k: int| 0 <= k < 32 && k != i ==> name_key(#[trigger] reg_name(k)) != name_key(reg_name(i)));
    assert(name_key(reg_name(i)) != name_key(seq!['s', '8']));
    lemma_first_index_from(i, 0);
}

} // verus!
