//! Human-readable byte counts: the value in the largest binary unit that fits.
use vstd::prelude::*;
use vstd::string::{StrSliceExecFns, StringExecFns};

verus! {

/// Sizes above 1024 of the largest unit are shown by this marker alone.
pub const SIZE_LIMIT: u64 = 0x4_0000_0000_0000;

pub open spec fn digit_char(d: nat) -> char {
    seq!['0', '1', '2', '3', '4', '5', '6', '7', '8', '9'][d as int]
}

/// The decimal digits of `n`, most significant first, with no leading zero.
pub open spec fn decimal(n: nat) -> Seq<char>
    decreases n,
{
    if n < 10 {
        seq![digit_char(n)]
    } else {
        decimal(n / 10).push(digit_char(n % 10))
    }
}

/// 1024 to the power `i`.
pub open spec fn unit_factor(i: nat) -> nat
    decreases i,
{
    if i == 0 { 1 } else { 1024 * unit_factor((i - 1) as nat) }
}

/// The suffix of unit `i`: none, k, M, G, T.
pub open spec fn unit_suffix(i: nat) -> Seq<char> {
    if i == 0 {
        seq![]
    } else {
        seq![seq!['k', 'M', 'G', 'T'][i - 1]]
    }
}

/// The largest unit (of five) whose factor does not exceed `size`; unit 0 for 0.
pub open spec fn size_unit(size: nat) -> nat {
    if size >= unit_factor(4) {
        4
    } else if size >= unit_factor(3) {
        3
    } else if size >= unit_factor(2) {
        2
    } else if size >= unit_factor(1) {
        1
    } else {
        0
    }
}

/// The text shown for a size in bytes: whole units of the largest unit that
/// fits, or `-` beyond 1024 of the largest unit.
pub open spec fn size_text(size: nat) -> Seq<char> {
    if size > SIZE_LIMIT {
        seq!['-']
    } else {
        decimal(size / unit_factor(size_unit(size))) + unit_suffix(size_unit(size))
    }
}

proof fn lemma_unit_factors()
    ensures
        unit_factor(0) == 1,
        unit_factor(1) == 1024,
        unit_factor(2) == 1024 * 1024,
        unit_factor(3) == 1024 * 1024 * 1024,
        unit_factor(4) == 1024 * 1024 * 1024 * 1024,
        unit_factor(5) == SIZE_LIMIT,
{
    reveal_with_fuel(unit_factor, 6);
}

/// The unit shown is the largest whose factor does not exceed the size: a size
/// at a unit's factor is shown in that unit, one below it in the unit before;
/// only sizes beyond 1024 of the largest unit show the marker.
pub proof fn lemma_size_unit_bounds(size: nat)
    ensures
        size_text(size) == seq!['-'] <==> size > SIZE_LIMIT,
        size_unit(size) <= 4,
        size_unit(size) > 0 ==> unit_factor(size_unit(size)) <= size,
        size_unit(size) < 4 ==> size < unit_factor(size_unit(size) + 1),
        size <= SIZE_LIMIT ==> size_text(size) == decimal(size / unit_factor(size_unit(size)))
            + unit_suffix(size_unit(size)),
{
    lemma_unit_factors();
    reveal_with_fuel(unit_factor, 6);
    if size <= SIZE_LIMIT {
        let t = decimal(size / unit_factor(size_unit(size))) + unit_suffix(size_unit(size));
        let d = decimal(size / unit_factor(size_unit(size)));
        lemma_decimal_digits(size / unit_factor(size_unit(size)));
        assert(t[0] == d[0]);
    }
}

proof fn lemma_decimal_digits(n: nat)
    ensures
        decimal(n).len() >= 1,
        decimal(n)[0] != '-',
    decreases n,
{
    if n >= 10 {
        lemma_decimal_digits(n / 10);
    }
}

/// Appends the decimal digits of `n`.
pub fn push_decimal(s: &mut String, n: u64)
    ensures
        final(s)@ == old(s)@ + decimal(n as nat),
    decreases n,
{
    if n >= 10 {
        push_decimal(s, n / 10);
    }
    let d: usize = (n % 10) as usize;
    let digits = "0123456789";
    proof {
        reveal_strlit("0123456789");
    }
    let one = digits.substring_char(d, d + 1);
    s.append(one);
    proof {
        assert(one@ =~= seq![digit_char(d as nat)]);
        if n >= 10 {
            assert(s@ =~= old(s)@ + decimal(n as nat));
        } else {
            assert(s@ =~= old(s)@ + decimal(n as nat));
        }
    }
}

/// Formats a byte count as whole units of the largest binary unit whose factor
/// does not exceed it (`0`, `1023`, `1k`, `1M`), or `-` when it is too large.
pub fn format_size(size: u64) -> (r: String)
    ensures
        r@ == size_text(size as nat),
{
    proof {
        lemma_unit_factors();
    }
    if size > SIZE_LIMIT {
        let r = String::from_str("-");
        proof {
            reveal_strlit("-");
        }
        assert(r@ =~= seq!['-']);
        return r;
    }
    let unit: u64 = if size >= 0x100_0000_0000 {
        4
    } else if size >= 0x4000_0000 {
        3
    } else if size >= 0x10_0000 {
        2
    } else if size >= 0x400 {
        1
    } else {
        0
    };
    assert(unit == size_unit(size as nat));
    let value: u64 = size >> (10 * unit);
    assert(value as nat == size as nat / unit_factor(unit as nat)) by {
        assert(size >> 0u64 == size) by (bit_vector);
        assert(size >> 10u64 == size / 0x400) by (bit_vector);
        assert(size >> 20u64 == size / 0x10_0000) by (bit_vector);
        assert(size >> 30u64 == size / 0x4000_0000) by (bit_vector);
        assert(size >> 40u64 == size / 0x100_0000_0000) by (bit_vector);
    }
    let mut r = String::new();
    push_decimal(&mut r, value);
    let suffixes = "kMGT";
    proof {
        reveal_strlit("kMGT");
    }
    if unit > 0 {
        let u: usize = unit as usize;
        r.append(suffixes.substring_char(u - 1, u));
    }
    assert(r@ =~= size_text(size as nat));
    r
}

} // verus!
