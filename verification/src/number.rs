//! Unsigned integer parsing (std's `from_str_radix` rules) and decimal printing.
use vstd::prelude::*;

verus! {

/// Why a text is not an unsigned integer (the kinds of std's `ParseIntError`).
#[derive(Clone, Copy, Debug, PartialEq, Eq, Structural)]
pub enum IntErrorKind {
    /// The text is empty.
    Empty,
    /// A character is not a digit of the radix (or the text is a lone sign).
    InvalidDigit,
    /// The value is larger than the target type holds.
    PosOverflow,
}

/// Value of `c` as a digit of `radix` (std `char::to_digit`), or `-1`.
pub open spec fn digit_value(c: char, radix: nat) -> int {
    let d: int = if '0' <= c <= '9' {
        (c as u32) - ('0' as u32)
    } else if 'a' <= c <= 'z' {
        (c as u32) - ('a' as u32) + 10
    } else if 'A' <= c <= 'Z' {
        (c as u32) - ('A' as u32) + 10
    } else {
        -1
    };
    if 0 <= d < radix {
        d
    } else {
        -1
    }
}

/// Reads the digits `t[i..]` onto `acc`, left to right; a bad digit or a value
/// above `max` stops the reading with the matching error.
pub open spec fn parse_digits(t: Seq<char>, i: int, acc: nat, radix: nat, max: nat) -> Result<
    nat,
    IntErrorKind,
>
    decreases t.len() - i,
{
    if i < 0 || i >= t.len() {
        Ok(acc)
    } else {
        let d = digit_value(t[i], radix);
        if d < 0 {
            Err(IntErrorKind::InvalidDigit)
        } else if acc * radix + d > max {
            Err(IntErrorKind::PosOverflow)
        } else {
            parse_digits(t, i + 1, (acc * radix + d) as nat, radix, max)
        }
    }
}

/// The result of std's `from_str_radix` for an unsigned type whose largest value is `max`.
pub open spec fn parse_unsigned_spec(t: Seq<char>, radix: nat, max: nat) -> Result<
    nat,
    IntErrorKind,
> {
    if t.len() == 0 {
        Err(IntErrorKind::Empty)
    } else if t.len() == 1 && (t[0] == '+' || t[0] == '-') {
        Err(IntErrorKind::InvalidDigit)
    } else if t[0] == '+' {
        parse_digits(t, 1, 0, radix, max)
    } else {
        parse_digits(t, 0, 0, radix, max)
    }
}

fn digit_of(c: char, radix: u32) -> (d: Option<u32>)
    requires
        2 <= radix <= 36,
    ensures
        match d {
            Some(x) => x == digit_value(c, radix as nat) && x < radix,
            None => digit_value(c, radix as nat) == -1,
        },
{
    let d: u32 = if '0' <= c && c <= '9' {
        (c as u32) - ('0' as u32)
    } else if 'a' <= c && c <= 'z' {
        (c as u32) - ('a' as u32) + 10
    } else if 'A' <= c && c <= 'Z' {
        (c as u32) - ('A' as u32) + 10
    } else {
        return None;
    };
    if d < radix {
        Some(d)
    } else {
        None
    }
}

/// Parses `v[lo..hi]` as an unsigned integer of `radix` no larger than `max`.
pub fn parse_unsigned(v: &Vec<char>, lo: usize, hi: usize, radix: u32, max: u64) -> (r: Result<
    u64,
    IntErrorKind,
>)
    requires
        lo <= hi <= v.len(),
        2 <= radix <= 36,
    ensures
        match r {
            Ok(n) => parse_unsigned_spec(v@.subrange(lo as int, hi as int), radix as nat, max as nat)
                == Ok::<nat, IntErrorKind>(n as nat),
            Err(e) => parse_unsigned_spec(v@.subrange(lo as int, hi as int), radix as nat, max as nat)
                == Err::<nat, IntErrorKind>(e),
        },
{
    let ghost t = v@.subrange(lo as int, hi as int);
    if lo == hi {
        return Err(IntErrorKind::Empty);
    }
    if hi - lo == 1 && (v[lo] == '+' || v[lo] == '-') {
        return Err(IntErrorKind::InvalidDigit);
    }
    let start = if v[lo] == '+' {
        lo + 1
    } else {
        lo
    };
    let mut i = start;
    let mut acc: u64 = 0;
    assert(parse_unsigned_spec(t, radix as nat, max as nat) == parse_digits(
        t,
        (start - lo) as int,
        0,
        radix as nat,
        max as nat,
    ));
    while i < hi
        invariant
            lo <= start <= i <= hi <= v.len(),
            2 <= radix <= 36,
            t == v@.subrange(lo as int, hi as int),
            acc <= max,
            parse_unsigned_spec(t, radix as nat, max as nat) == parse_digits(
                t,
                (i - lo) as int,
                acc as nat,
                radix as nat,
                max as nat,
            ),
        decreases hi - i,
    {
        let c = v[i];
        assert(t[(i - lo) as int] == c);
        match digit_of(c, radix) {
            None => {
                return Err(IntErrorKind::InvalidDigit);
            },
            Some(d) => {
                assert((acc as u128) * (radix as u128) <= 36 * 0xffff_ffff_ffff_ffffu128)
                    by (nonlinear_arith)
                    requires
                        acc <= 0xffff_ffff_ffff_ffffu64,
                        radix <= 36,
                ;
                let next: u128 = (acc as u128) * (radix as u128) + (d as u128);
                if next > max as u128 {
                    return Err(IntErrorKind::PosOverflow);
                }
                acc = next as u64;
            },
        }
        i += 1;
    }
    Ok(acc)
}

/// The decimal digit character of `d < 10`.
pub open spec fn digit_char(d: nat) -> char {
    ((d + 48) as u32) as char
}

/// The decimal representation of `n`, without leading zeros.
pub open spec fn decimal(n: nat) -> Seq<char>
    decreases n,
{
    if n < 10 {
        seq![digit_char(n)]
    } else {
        decimal(n / 10).push(digit_char(n % 10))
    }
}

/// `decimal(n)` padded on the left with zeros to at least `width` characters
/// (what the format spec `{:0>width}` prints).
pub open spec fn zero_padded(n: nat, width: nat) -> Seq<char> {
    if decimal(n).len() < width {
        Seq::new((width - decimal(n).len()) as nat, |i: int| '0') + decimal(n)
    } else {
        decimal(n)
    }
}

/// Appends the decimal representation of `n` to `out`.
pub fn push_decimal(out: &mut Vec<char>, n: u64)
    ensures
        final(out)@ == old(out)@ + decimal(n as nat),
    decreases n,
{
    if n >= 10 {
        push_decimal(out, n / 10);
    }
    let d = (n % 10) as u32;
    let c = ((d + 48) as u8) as char;
    out.push(c);
    assert(final(out)@ =~= old(out)@ + decimal(n as nat)) by {
        if n >= 10 {
            assert(decimal(n as nat) == decimal((n / 10) as nat).push(digit_char((n % 10) as nat)));
        }
    }
}

/// Appends `n` to `out` padded with zeros to at least `width` characters.
pub fn push_zero_padded(out: &mut Vec<char>, n: u64, width: usize)
    ensures
        final(out)@ == old(out)@ + zero_padded(n as nat, width as nat),
{
    let mut digits: Vec<char> = Vec::new();
    push_decimal(&mut digits, n);
    assert(digits@ =~= decimal(n as nat));
    let mut k: usize = digits.len();
    let ghost base = out@;
    while k < width
        invariant
            digits@ == decimal(n as nat),
            digits.len() <= k,
            k <= width || k == digits.len(),
            out@ == base + Seq::new((k - digits.len()) as nat, |i: int| '0'),
        decreases width - k,
    {
        out.push('0');
        k += 1;
        assert(out@ =~= base + Seq::new((k - digits.len()) as nat, |i: int| '0'));
    }
    let ghost pad = out@;
    let mut j: usize = 0;
    while j < digits.len()
        invariant
            j <= digits.len(),
            out@ == pad + digits@.take(j as int),
        decreases digits.len() - j,
    {
        out.push(digits[j]);
        j += 1;
        assert(out@ =~= pad + digits@.take(j as int));
    }
    assert(digits@.take(digits.len() as int) =~= digits@);
    assert(out@ =~= base + zero_padded(n as nat, width as nat));
}


proof fn lemma_parse_push(t: Seq<char>, c: char, i: int, acc: nat, radix: nat, max: nat)
    requires
        0 <= i <= t.len(),
    ensures
        parse_digits(t.push(c), i, acc, radix, max) == (match parse_digits(t, i, acc, radix, max) {
            Ok(a) => parse_digits(seq![c], 0, a, radix, max),
            Err(e) => Err(e),
        }),
    decreases t.len() - i,
{
    if i < t.len() {
        assert(t.push(c)[i] == t[i]);
        let d = digit_value(t[i], radix);
        if d >= 0 && acc * radix + d <= max {
            lemma_parse_push(t, c, i + 1, (acc * radix + d) as nat, radix, max);
        }
    } else {
        assert(t.push(c)[i] == c);
        assert(seq![c][0] == c);
        let d = digit_value(c, radix);
        if d >= 0 && acc * radix + d <= max {
            let next = (acc * radix + d) as nat;
            assert(parse_digits(t.push(c), i + 1, next, radix, max) == Ok::<nat, IntErrorKind>(next));
            assert(parse_digits(seq![c], 1, next, radix, max) == Ok::<nat, IntErrorKind>(next));
        }
    }
}

proof fn lemma_decimal_digits(n: nat)
    ensures
        decimal(n).len() >= 1,
        decimal(n)[0] != '+' && decimal(n)[0] != '-',
        forall|k: int| 0 <= k < decimal(n).len() ==> '0' <= #[trigger] decimal(n)[k] <= '9',
    decreases n,
{
    if n >= 10 {
        lemma_decimal_digits(n / 10);
        assert(decimal(n)[0] == decimal(n / 10)[0]);
        assert forall|k: int| 0 <= k < decimal(n).len() implies '0' <= #[trigger] decimal(n)[k] <= '9' by {
            if k < decimal(n / 10).len() {
                assert(decimal(n)[k] == decimal(n / 10)[k]);
            }
        }
    }
}

proof fn lemma_parse_decimal(n: nat, max: nat)
    requires
        n <= max,
    ensures
        parse_digits(decimal(n), 0, 0, 10, max) == Ok::<nat, IntErrorKind>(n),
    decreases n,
{
    if n < 10 {
        assert(digit_value(digit_char(n), 10) == n);
        assert(parse_digits(decimal(n), 1, n, 10, max) == Ok::<nat, IntErrorKind>(n));
    } else {
        lemma_parse_decimal(n / 10, max);
        let c = digit_char(n % 10);
        lemma_parse_push(decimal(n / 10), c, 0, 0, 10, max);
        assert(digit_value(c, 10) == n % 10);
        assert((n / 10) * 10 + n % 10 == n);
        assert(parse_digits(seq![c], 1, n, 10, max) == Ok::<nat, IntErrorKind>(n));
    }
}

/// Reading back a printed number gives the number: the decimal text of any
/// `n <= max` parses to `n`.
pub proof fn law_parse_printed(n: nat, max: nat)
    requires
        n <= max,
    ensures
        parse_unsigned_spec(decimal(n), 10, max) == Ok::<nat, IntErrorKind>(n),
{
    lemma_decimal_digits(n);
    lemma_parse_decimal(n, max);
    if decimal(n).len() == 1 {
        assert('0' <= decimal(n)[0] <= '9');
    }
}

} // verus!
