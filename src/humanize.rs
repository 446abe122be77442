//! Human readable byte sizes: a value in the largest fitting binary unit,
//! printed with two decimals.

use vstd::prelude::*;
use vstd::string::*;

verus! {

/// The unit names, from bytes upwards in steps of 1024.
pub open spec fn unit_name(k: nat) -> Seq<char> {
    if k == 0 {
        seq!['B']
    } else if k == 1 {
        seq!['K', 'B']
    } else if k == 2 {
        seq!['M', 'B']
    } else if k == 3 {
        seq!['G', 'B']
    } else if k == 4 {
        seq!['T', 'B']
    } else if k == 5 {
        seq!['P', 'B']
    } else if k == 6 {
        seq!['E', 'B']
    } else if k == 7 {
        seq!['Z', 'B']
    } else {
        seq!['Y', 'B']
    }
}

/// `1024` to the power `k`.
pub open spec fn pow1024(k: nat) -> nat
    decreases k,
{
    if k == 0 {
        1
    } else {
        1024 * pow1024((k - 1) as nat)
    }
}

/// The unit used for `size`: the first `k` from `from` on at which the value
/// in that unit is below 1024 (the last unit takes whatever is left).
pub open spec fn unit_from(size: nat, from: nat) -> nat
    decreases 8 - from,
{
    if from >= 8 || size < pow1024(from + 1) {
        from
    } else {
        unit_from(size, from + 1)
    }
}

pub open spec fn unit_index(size: nat) -> nat {
    unit_from(size, 0)
}

/// `num / den` rounded to the nearest integer, ties to the even neighbour.
pub open spec fn round_half_even(num: nat, den: nat) -> nat
    recommends
        den > 0,
{
    let q = num / den;
    let r = num % den;
    if 2 * r > den || (2 * r == den && q % 2 == 1) {
        q + 1
    } else {
        q
    }
}

/// The value of `size` in unit `k`, in hundredths, rounded.
pub open spec fn hundredths(size: nat, k: nat) -> nat {
    round_half_even(size * 100, pow1024(k))
}

pub open spec fn digit_char(d: nat) -> char {
    if d == 0 {
        '0'
    } else if d == 1 {
        '1'
    } else if d == 2 {
        '2'
    } else if d == 3 {
        '3'
    } else if d == 4 {
        '4'
    } else if d == 5 {
        '5'
    } else if d == 6 {
        '6'
    } else if d == 7 {
        '7'
    } else if d == 8 {
        '8'
    } else {
        '9'
    }
}

/// The decimal digits of `n`, without leading zeros.
pub open spec fn decimal(n: nat) -> Seq<char>
    decreases n,
{
    if n < 10 {
        seq![digit_char(n)]
    } else {
        decimal(n / 10).push(digit_char(n % 10))
    }
}

/// `size` bytes as text: the value in its unit with two decimals, a space,
/// and the unit's name.
pub open spec fn humanized(size: nat) -> Seq<char> {
    let k = unit_index(size);
    let h = hundredths(size, k);
    decimal(h / 100) + seq!['.', digit_char((h % 100) / 10), digit_char(h % 10), ' '] + unit_name(k)
}

fn push_digit(s: &mut String, d: u128)
    requires
        d < 10,
    ensures
        final(s)@ == old(s)@.push(digit_char(d as nat)),
{
    proof {
        reveal_strlit("0");
        reveal_strlit("1");
        reveal_strlit("2");
        reveal_strlit("3");
        reveal_strlit("4");
        reveal_strlit("5");
        reveal_strlit("6");
        reveal_strlit("7");
        reveal_strlit("8");
        reveal_strlit("9");
    }
    if d == 0 {
        s.append("0");
    } else if d == 1 {
        s.append("1");
    } else if d == 2 {
        s.append("2");
    } else if d == 3 {
        s.append("3");
    } else if d == 4 {
        s.append("4");
    } else if d == 5 {
        s.append("5");
    } else if d == 6 {
        s.append("6");
    } else if d == 7 {
        s.append("7");
    } else if d == 8 {
        s.append("8");
    } else {
        s.append("9");
    }
}

/// Appends the decimal digits of `n` to `s`.
pub fn push_decimal(s: &mut String, n: u128)
    ensures
        final(s)@ == old(s)@ + decimal(n as nat),
    decreases n,
{
    if n < 10 {
        push_digit(s, n);
        assert(final(s)@ =~= old(s)@ + decimal(n as nat));
    } else {
        push_decimal(s, n / 10);
        push_digit(s, n % 10);
        assert(final(s)@ =~= old(s)@ + decimal(n as nat));
    }
}

fn unit_str(k: usize) -> (r: &'static str)
    requires
        k <= 8,
    ensures
        r@ == unit_name(k as nat),
{
    proof {
        reveal_strlit("B");
        reveal_strlit("KB");
        reveal_strlit("MB");
        reveal_strlit("GB");
        reveal_strlit("TB");
        reveal_strlit("PB");
        reveal_strlit("EB");
        reveal_strlit("ZB");
        reveal_strlit("YB");
    }
    if k == 0 {
        "B"
    } else if k == 1 {
        "KB"
    } else if k == 2 {
        "MB"
    } else if k == 3 {
        "GB"
    } else if k == 4 {
        "TB"
    } else if k == 5 {
        "PB"
    } else if k == 6 {
        "EB"
    } else if k == 7 {
        "ZB"
    } else {
        "YB"
    }
}

proof fn lemma_pow1024_upto_six(k: nat)
    requires
        k <= 6,
    ensures
        pow1024(k) <= 0x1000000000000000,
        k == 6 ==> pow1024(k) == 0x1000000000000000,
{
    reveal_with_fuel(pow1024, 7);
    assert(k == 0 || k == 1 || k == 2 || k == 3 || k == 4 || k == 5 || k == 6);
}

/// Formats a number of bytes in the largest binary unit (steps of 1024) in
/// which its value is below 1024, with two decimals: `1536` gives `1.50 KB`.
pub fn humanize_bytes(size: u64) -> (r: String)
    ensures
        r@ == humanized(size as nat),
{
    let mut k: usize = 0;
    let mut den: u128 = 1;
    let sz = size as u128;
    proof {
        lemma_pow1024_upto_six(0);
    }
    while sz >= den * 1024
        invariant
            den <= 0x1000000000000000,
            k <= 6,
            den as nat == pow1024(k as nat),
            unit_index(size as nat) == unit_from(size as nat, k as nat),
            sz == size,
        decreases 6 - k,
    {
        proof {
            lemma_pow1024_upto_six(k as nat);
        }
        den = den * 1024;
        k = k + 1;
        proof {
            lemma_pow1024_upto_six(k as nat);
        }
    }
    assert(unit_index(size as nat) == k);
    let num: u128 = sz * 100;
    let q: u128 = num / den;
    let rem: u128 = num % den;
    let h: u128 = if 2 * rem > den || (2 * rem == den && q % 2 == 1) {
        q + 1
    } else {
        q
    };
    assert(h as nat == hundredths(size as nat, k as nat));
    let mut s = String::new();
    push_decimal(&mut s, h / 100);
    proof {
        reveal_strlit(".");
        reveal_strlit(" ");
    }
    s.append(".");
    push_digit(&mut s, (h % 100) / 10);
    push_digit(&mut s, h % 10);
    s.append(" ");
    s.append(unit_str(k));
    assert(s@ =~= humanized(size as nat));
    s
}

} // verus!
