//! Character-level helpers shared by the assembler front ends.
use vstd::prelude::*;

verus! {

/// The characters of `s`, one per element.
pub fn chars_of(s: &str) -> (v: Vec<char>)
    ensures
        v@ == s@,
{
    broadcast use vstd::string::group_string_axioms;

    let mut v: Vec<char> = Vec::new();
    for c in it: s.chars()
        invariant
            v@ == it.seq().take(it.index()),
    {
        v.push(c);
        assert(v@ =~= it.seq().take(it.index() + 1));
    }
    assert(v@ =~= s@);
    v
}

/// Whether `a[lo..hi]` spells out exactly the string `s`.
pub fn range_eq_str(a: &[char], lo: usize, hi: usize, s: &str) -> (r: bool)
    requires
        lo <= hi <= a@.len(),
    ensures
        r == (a@.subrange(lo as int, hi as int) == s@),
{
    let n = s.unicode_len();
    if hi - lo != n {
        return false;
    }
    let mut i: usize = 0;
    while i < n
        invariant
            n == s@.len(),
            hi - lo == n,
            lo <= hi <= a@.len(),
            i <= n,
            forall|j: int| 0 <= j < i ==> a@[lo + j] == s@[j],
        decreases n - i,
    {
        if a[lo + i] != s.get_char(i) {
            assert(a@.subrange(lo as int, hi as int)[i as int] != s@[i as int]);
            return false;
        }
        i = i + 1;
    }
    assert(a@.subrange(lo as int, hi as int) =~= s@);
    true
}

/// `String::push`: appends one character.
#[verifier::external_body]
pub(crate) fn push_char(s: &mut String, c: char)
    ensures
        final(s)@ == old(s)@.push(c),
{
    s.push(c);
}

/// Append the characters of `t` to `s`.
pub fn push_str(s: &mut String, t: &str)
    ensures
        final(s)@ == old(s)@ + t@,
{
    let v = chars_of(t);
    let n = v.len();
    let mut k: usize = 0;
    while k < n
        invariant
            n == t@.len(),
            v@ == t@,
            k <= n,
            s@ == old(s)@ + t@.take(k as int),
        decreases n - k,
    {
        push_char(s, v[k]);
        k = k + 1;
        assert(s@ =~= old(s)@ + t@.take(k as int));
    }
    assert(t@.take(n as int) =~= t@);
}

/// A new string holding the characters `a[lo..hi]`.
pub fn string_from_range(a: &[char], lo: usize, hi: usize) -> (s: String)
    requires
        lo <= hi <= a@.len(),
    ensures
        s@ == a@.subrange(lo as int, hi as int),
{
    let mut s = String::new();
    let mut k = lo;
    while k < hi
        invariant
            lo <= k <= hi <= a@.len(),
            s@ == a@.subrange(lo as int, k as int),
        decreases hi - k,
    {
        push_char(&mut s, a[k]);
        k = k + 1;
        assert(s@ =~= a@.subrange(lo as int, k as int));
    }
    s
}

// ---------------------------------------------------------------------------
// Whitespace and trimming.

/// Unicode `White_Space`, the set `char::is_whitespace` and `str::trim` go by.
pub open spec fn is_ws(c: char) -> bool {
    let u = c as u32;
    ||| u == 0x20
    ||| 0x09 <= u <= 0x0d
    ||| u == 0x85
    ||| u == 0xa0
    ||| u == 0x1680
    ||| 0x2000 <= u <= 0x200a
    ||| u == 0x2028
    ||| u == 0x2029
    ||| u == 0x202f
    ||| u == 0x205f
    ||| u == 0x3000
}

pub fn is_whitespace(c: char) -> (r: bool)
    ensures
        r == is_ws(c),
{
    let u = c as u32;
    u == 0x20 || (0x09 <= u && u <= 0x0d) || u == 0x85 || u == 0xa0 || u == 0x1680 || (0x2000 <= u
        && u <= 0x200a) || u == 0x2028 || u == 0x2029 || u == 0x202f || u == 0x205f || u == 0x3000
}

/// `s` without its leading whitespace.
pub open spec fn trim_start(s: Seq<char>) -> Seq<char>
    decreases s.len(),
{
    if s.len() > 0 && is_ws(s[0]) {
        trim_start(s.drop_first())
    } else {
        s
    }
}

/// `s` without its trailing whitespace.
pub open spec fn trim_end(s: Seq<char>) -> Seq<char>
    decreases s.len(),
{
    if s.len() > 0 && is_ws(s.last()) {
        trim_end(s.drop_last())
    } else {
        s
    }
}

/// `s` without leading and trailing whitespace.
pub open spec fn trim(s: Seq<char>) -> Seq<char> {
    trim_end(trim_start(s))
}

/// Every character of `s` is whitespace.
pub open spec fn all_ws(s: Seq<char>) -> bool {
    forall|i: int| 0 <= i < s.len() ==> is_ws(#[trigger] s[i])
}

proof fn lemma_trim_start_skips(w: Seq<char>, s: Seq<char>)
    requires
        all_ws(w),
    ensures
        trim_start(w + s) == trim_start(s),
    decreases w.len(),
{
    if w.len() == 0 {
        assert(w + s =~= s);
    } else {
        assert(is_ws((w + s)[0]));
        assert((w + s).drop_first() =~= w.drop_first() + s);
        lemma_trim_start_skips(w.drop_first(), s);
    }
}

proof fn lemma_trim_end_skips(s: Seq<char>, w: Seq<char>)
    requires
        all_ws(w),
    ensures
        trim_end(s + w) == trim_end(s),
    decreases w.len(),
{
    if w.len() == 0 {
        assert(s + w =~= s);
    } else {
        assert(is_ws((s + w).last()));
        assert((s + w).drop_last() =~= s + w.drop_last());
        lemma_trim_end_skips(s, w.drop_last());
    }
}

proof fn lemma_trim_start_append(s: Seq<char>, w: Seq<char>)
    requires
        all_ws(w),
    ensures
        trim_start(s + w) == trim_start(s) + w || (trim_start(s).len() == 0 && trim_start(s + w).len()
            == 0),
    decreases s.len(),
{
    if s.len() == 0 {
        assert(s + w =~= w);
        assert(w + Seq::<char>::empty() =~= w);
        lemma_trim_start_skips(w, Seq::empty());
    } else if is_ws(s[0]) {
        assert((s + w)[0] == s[0]);
        assert((s + w).drop_first() =~= s.drop_first() + w);
        lemma_trim_start_append(s.drop_first(), w);
    } else {
        assert((s + w)[0] == s[0]);
    }
}

/// Trimming ignores whitespace padding: `pre + s + post` trims to what `s` trims to when
/// `pre` and `post` are whitespace.
pub proof fn lemma_trim_ignores_padding(pre: Seq<char>, s: Seq<char>, post: Seq<char>)
    requires
        all_ws(pre),
        all_ws(post),
    ensures
        trim(pre + s + post) == trim(s),
{
    assert(pre + s + post =~= pre + (s + post));
    lemma_trim_start_skips(pre, s + post);
    lemma_trim_start_append(s, post);
    if trim_start(s + post) == trim_start(s) + post {
        lemma_trim_end_skips(trim_start(s), post);
    } else {
        assert(trim_start(s + post) =~= trim_start(s));
    }
}

/// The bounds of `a[lo..hi]` with whitespace trimmed from both ends.
pub fn trim_range(a: &[char], lo: usize, hi: usize) -> (r: (usize, usize))
    requires
        lo <= hi <= a@.len(),
    ensures
        lo <= r.0 <= r.1 <= hi,
        a@.subrange(r.0 as int, r.1 as int) == trim(a@.subrange(lo as int, hi as int)),
{
    let mut l = lo;
    while l < hi && is_whitespace(a[l])
        invariant
            lo <= l <= hi <= a@.len(),
            trim_start(a@.subrange(lo as int, hi as int)) == trim_start(
                a@.subrange(l as int, hi as int),
            ),
        decreases hi - l,
    {
        assert(a@.subrange(l as int, hi as int).drop_first() =~= a@.subrange(
            l + 1,
            hi as int,
        ));
        l = l + 1;
    }
    assert(trim_start(a@.subrange(l as int, hi as int)) == a@.subrange(l as int, hi as int));
    let mut h = hi;
    while h > l && is_whitespace(a[h - 1])
        invariant
            lo <= l <= h <= hi <= a@.len(),
            trim_end(a@.subrange(l as int, hi as int)) == trim_end(a@.subrange(l as int, h as int)),
        decreases h - l,
    {
        assert(a@.subrange(l as int, h as int).drop_last() =~= a@.subrange(l as int, h - 1));
        h = h - 1;
    }
    (l, h)
}

// ---------------------------------------------------------------------------
// Splitting.

/// Index of the first whitespace character of `s` at or after `i`, or `s.len()`.
pub open spec fn ws_index(s: Seq<char>, i: int) -> int
    decreases s.len() - i,
{
    if i < 0 || i >= s.len() {
        s.len() as int
    } else if is_ws(s[i]) {
        i
    } else {
        ws_index(s, i + 1)
    }
}

/// The part of `s` before its first whitespace character (all of `s` if there is none).
pub open spec fn head_word(s: Seq<char>) -> Seq<char> {
    s.take(ws_index(s, 0))
}

/// The part of `s` after its first whitespace character (empty if there is none).
pub open spec fn after_head_word(s: Seq<char>) -> Seq<char> {
    if ws_index(s, 0) < s.len() {
        s.skip(ws_index(s, 0) + 1)
    } else {
        Seq::empty()
    }
}

/// First whitespace position in `a[lo..hi]`, or `hi`.
pub fn find_whitespace(a: &[char], lo: usize, hi: usize) -> (k: usize)
    requires
        lo <= hi <= a@.len(),
    ensures
        lo <= k <= hi,
        k - lo == ws_index(a@.subrange(lo as int, hi as int), 0),
{
    let ghost s = a@.subrange(lo as int, hi as int);
    let mut k = lo;
    while k < hi && !is_whitespace(a[k])
        invariant
            lo <= k <= hi <= a@.len(),
            s == a@.subrange(lo as int, hi as int),
            ws_index(s, 0) == ws_index(s, k - lo),
        decreases hi - k,
    {
        k = k + 1;
    }
    k
}

/// The pieces of `s` between occurrences of `sep`, as `str::split` gives them: one more
/// piece than there are separators, empty pieces included.
pub open spec fn split_on(s: Seq<char>, sep: char) -> Seq<Seq<char>>
    decreases s.len(),
{
    if s.len() == 0 {
        seq![Seq::empty()]
    } else {
        let init = split_on(s.drop_last(), sep);
        if s.last() == sep {
            init.push(Seq::empty())
        } else {
            init.update(init.len() - 1, init.last().push(s.last()))
        }
    }
}

/// The trimmed pieces, leaving out those that are blank.
pub open spec fn nonblank_trimmed(pieces: Seq<Seq<char>>) -> Seq<Seq<char>>
    decreases pieces.len(),
{
    if pieces.len() == 0 {
        Seq::empty()
    } else {
        let prev = nonblank_trimmed(pieces.drop_last());
        let t = trim(pieces.last());
        if t.len() == 0 {
            prev
        } else {
            prev.push(t)
        }
    }
}

/// Comma-separated operands: each piece trimmed, blank pieces dropped.
pub open spec fn operands(s: Seq<char>) -> Seq<Seq<char>> {
    nonblank_trimmed(split_on(s, ','))
}

/// Bounds of the operands of `a[lo..hi]`.
pub fn operand_ranges(a: &[char], lo: usize, hi: usize) -> (r: Vec<(usize, usize)>)
    requires
        lo <= hi <= a@.len(),
    ensures
        r@.len() == operands(a@.subrange(lo as int, hi as int)).len(),
        forall|j: int|
            0 <= j < r@.len() ==> lo <= (#[trigger] r@[j]).0 <= r@[j].1 <= hi && a@.subrange(
                r@[j].0 as int,
                r@[j].1 as int,
            ) == operands(a@.subrange(lo as int, hi as int))[j],
{
    let mut r: Vec<(usize, usize)> = Vec::new();
    let ghost mut pieces: Seq<Seq<char>> = Seq::empty();
    let mut start = lo;
    let mut k = lo;
    assert(a@.subrange(lo as int, lo as int) =~= Seq::<char>::empty());
    assert(split_on(Seq::<char>::empty(), ',') =~= pieces.push(Seq::<char>::empty()));
    while k < hi
        invariant
            lo <= start <= k <= hi <= a@.len(),
            split_on(a@.subrange(lo as int, k as int), ',') == pieces.push(
                a@.subrange(start as int, k as int),
            ),
            r@.len() == nonblank_trimmed(pieces).len(),
            forall|j: int|
                0 <= j < r@.len() ==> lo <= (#[trigger] r@[j]).0 <= r@[j].1 <= hi
                    && a@.subrange(r@[j].0 as int, r@[j].1 as int) == nonblank_trimmed(pieces)[j],
        decreases hi - k,
    {
        let ghost prefix = a@.subrange(lo as int, k + 1);
        assert(prefix.drop_last() =~= a@.subrange(lo as int, k as int));
        assert(prefix.last() == a@[k as int]);
        if a[k] == ',' {
            let (l, h) = trim_range(a, start, k);
            proof {
                let p = a@.subrange(start as int, k as int);
                assert(nonblank_trimmed(pieces.push(p)) == if trim(p).len() == 0 {
                    nonblank_trimmed(pieces)
                } else {
                    nonblank_trimmed(pieces).push(trim(p))
                }) by {
                    assert(pieces.push(p).drop_last() =~= pieces);
                }
            }
            if h > l {
                r.push((l, h));
            }
            proof {
                pieces = pieces.push(a@.subrange(start as int, k as int));
            }
            start = k + 1;
            assert(a@.subrange(start as int, k + 1) =~= Seq::<char>::empty());
        } else {
            assert(a@.subrange(start as int, k + 1) =~= a@.subrange(start as int, k as int).push(
                a@[k as int],
            ));
        }
        k = k + 1;
    }
    let (l, h) = trim_range(a, start, hi);
    proof {
        let p = a@.subrange(start as int, hi as int);
        assert(a@.subrange(lo as int, k as int) =~= a@.subrange(lo as int, hi as int));
        assert(nonblank_trimmed(pieces.push(p)) == if trim(p).len() == 0 {
            nonblank_trimmed(pieces)
        } else {
            nonblank_trimmed(pieces).push(trim(p))
        }) by {
            assert(pieces.push(p).drop_last() =~= pieces);
        }
    }
    if h > l {
        r.push((l, h));
    }
    r
}

// ---------------------------------------------------------------------------
// Numbers.

pub open spec fn is_digit(c: char) -> bool {
    '0' <= c && c <= '9'
}

pub open spec fn all_digits(s: Seq<char>) -> bool {
    forall|i: int| 0 <= i < s.len() ==> is_digit(#[trigger] s[i])
}

/// The number a string of decimal digits spells.
pub open spec fn digits_value(s: Seq<char>) -> nat
    decreases s.len(),
{
    if s.len() == 0 {
        0
    } else {
        digits_value(s.drop_last()) * 10 + (s.last() as nat - '0' as nat) as nat
    }
}

/// What `str::parse` accepts for an unsigned integer: an optional `+`, then one or more
/// decimal digits. The value is not bounded here.
pub open spec fn uint_literal(s: Seq<char>) -> Option<nat> {
    let d = if s.len() > 0 && s[0] == '+' {
        s.drop_first()
    } else {
        s
    };
    if d.len() > 0 && all_digits(d) {
        Some(digits_value(d))
    } else {
        None
    }
}

/// What `str::parse` accepts for a signed integer: an optional `+` or `-`, then one or
/// more decimal digits. The value is not bounded here.
pub open spec fn int_literal(s: Seq<char>) -> Option<int> {
    if s.len() > 0 && s[0] == '-' {
        let d = s.drop_first();
        if d.len() > 0 && all_digits(d) {
            Some(-digits_value(d))
        } else {
            None
        }
    } else {
        match uint_literal(s) {
            Some(v) => Some(v as int),
            None => None,
        }
    }
}

/// The decimal value of `a[lo..hi]`, capped at `cap`, when it is one or more digits.
pub fn digits_capped(a: &[char], lo: usize, hi: usize, cap: u64) -> (r: Option<u64>)
    requires
        lo <= hi <= a@.len(),
        0 < cap <= 0x1_0000_0000,
    ensures
        r == if hi > lo && all_digits(a@.subrange(lo as int, hi as int)) {
            Some(
                if digits_value(a@.subrange(lo as int, hi as int)) < cap {
                    digits_value(a@.subrange(lo as int, hi as int)) as u64
                } else {
                    cap
                },
            )
        } else {
            None::<u64>
        },
{
    if hi == lo {
        return None;
    }
    let mut acc: u64 = 0;
    let mut k = lo;
    while k < hi
        invariant
            lo <= k <= hi <= a@.len(),
            0 < cap <= 0x1_0000_0000,
            all_digits(a@.subrange(lo as int, k as int)),
            acc == if digits_value(a@.subrange(lo as int, k as int)) < cap {
                digits_value(a@.subrange(lo as int, k as int))
            } else {
                cap as nat
            },
        decreases hi - k,
    {
        let c = a[k];
        if !('0' <= c && c <= '9') {
            assert(!all_digits(a@.subrange(lo as int, hi as int))) by {
                assert(a@.subrange(lo as int, hi as int)[k - lo] == c);
            }
            return None;
        }
        let d = (c as u32 - '0' as u32) as u64;
        let ghost prev = a@.subrange(lo as int, k as int);
        let ghost next = a@.subrange(lo as int, k + 1);
        assert(next.drop_last() =~= prev);
        assert(digits_value(next) == digits_value(prev) * 10 + d);
        if acc < cap {
            let v = acc * 10 + d;
            acc = if v < cap {
                v
            } else {
                cap
            };
        }
        k = k + 1;
        assert forall|i: int| 0 <= i < next.len() implies is_digit(#[trigger] next[i]) by {
            if i < prev.len() {
                assert(next[i] == prev[i]);
            }
        }
    }
    Some(acc)
}

/// `str::parse::<i32>` of `a[lo..hi]`.
pub fn parse_i32(a: &[char], lo: usize, hi: usize) -> (r: Option<i32>)
    requires
        lo <= hi <= a@.len(),
    ensures
        r == match int_literal(a@.subrange(lo as int, hi as int)) {
            Some(v) => if i32::MIN <= v <= i32::MAX {
                Some(v as i32)
            } else {
                None::<i32>
            },
            None => None::<i32>,
        },
{
    let ghost s = a@.subrange(lo as int, hi as int);
    let neg = hi > lo && a[lo] == '-';
    let plus = hi > lo && a[lo] == '+';
    let d = if neg || plus {
        lo + 1
    } else {
        lo
    };
    assert(neg || plus ==> a@.subrange(d as int, hi as int) =~= s.drop_first());
    assert(!(neg || plus) ==> a@.subrange(d as int, hi as int) =~= s);
    match digits_capped(a, d, hi, 0x8000_0001) {
        None => None,
        Some(v) => {
            if neg {
                if v <= 0x8000_0000 {
                    Some((0 - (v as i64)) as i32)
                } else {
                    None
                }
            } else {
                if v <= 0x7fff_ffff {
                    Some(v as i32)
                } else {
                    None
                }
            }
        },
    }
}

/// `str::trim` followed by `str::parse::<i32>`, the way an immediate operand is read.
pub open spec fn immediate_spec(arg: Seq<char>) -> Option<i32> {
    match int_literal(trim(arg)) {
        Some(v) => if i32::MIN <= v <= i32::MAX {
            Some(v as i32)
        } else {
            None
        },
        None => None,
    }
}

pub fn parse_immediate(a: &[char], lo: usize, hi: usize) -> (r: Option<i32>)
    requires
        lo <= hi <= a@.len(),
    ensures
        r == immediate_spec(a@.subrange(lo as int, hi as int)),
{
    let (l, h) = trim_range(a, lo, hi);
    parse_i32(a, l, h)
}

} // verus!
