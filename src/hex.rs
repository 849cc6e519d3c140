use vstd::prelude::*;

verus! {

/// Why a string is not a number.
#[derive(Clone, Copy, Debug, PartialEq, Eq, Structural)]
pub enum IntErrorKind {
    /// The string is empty.
    Empty,
    /// A character is not a digit.
    InvalidDigit,
    /// The number is larger than the largest value allowed.
    PosOverflow,
}

impl IntErrorKind {
    pub fn to_string(&self) -> (r: String)
        ensures
            r@ == int_error_message(*self),
    {
        match self {
            IntErrorKind::Empty => String::from_str("cannot parse integer from empty string"),
            IntErrorKind::InvalidDigit => String::from_str("invalid digit found in string"),
            IntErrorKind::PosOverflow => String::from_str("number too large to fit in target type"),
        }
    }
}

pub open spec fn int_error_message(k: IntErrorKind) -> Seq<char> {
    match k {
        IntErrorKind::Empty => "cannot parse integer from empty string"@,
        IntErrorKind::InvalidDigit => "invalid digit found in string"@,
        IntErrorKind::PosOverflow => "number too large to fit in target type"@,
    }
}

/// The value of a hexadecimal digit, of either case.
pub open spec fn hex_digit(c: char) -> Option<nat> {
    let v = c as u32;
    if 48 <= v && v <= 57 {
        Some((v - 48) as nat)
    } else if 97 <= v && v <= 102 {
        Some((v - 87) as nat)
    } else if 65 <= v && v <= 70 {
        Some((v - 55) as nat)
    } else {
        None
    }
}

/// Reads `d` as hexadecimal digits from the left, failing at the first
/// character that is no digit or the first prefix whose value exceeds `max`.
pub open spec fn hex_scan(d: Seq<char>, max: nat) -> Result<nat, IntErrorKind>
    decreases d.len(),
{
    if d.len() == 0 {
        Ok(0)
    } else {
        match hex_scan(d.drop_last(), max) {
            Err(e) => Err(e),
            Ok(v) => match hex_digit(d.last()) {
                None => Err(IntErrorKind::InvalidDigit),
                Some(x) => if v * 16 + x > max {
                    Err(IntErrorKind::PosOverflow)
                } else {
                    Ok(v * 16 + x)
                },
            },
        }
    }
}

/// An unsigned hexadecimal number no larger than `max`, with an optional
/// leading `+`.
pub open spec fn parse_hex_spec(s: Seq<char>, max: nat) -> Result<nat, IntErrorKind> {
    if s.len() == 0 {
        Err(IntErrorKind::Empty)
    } else if (s[0] == '+' || s[0] == '-') && s.len() == 1 {
        Err(IntErrorKind::InvalidDigit)
    } else if s[0] == '+' {
        hex_scan(s.drop_first(), max)
    } else {
        hex_scan(s, max)
    }
}

fn hex_digit_of(c: char) -> (r: Option<u8>)
    ensures
        match hex_digit(c) {
            Some(x) => r == Some(x as u8),
            None => r is None,
        },
{
    let v = c as u32;
    if 48 <= v && v <= 57 {
        Some((v - 48) as u8)
    } else if 97 <= v && v <= 102 {
        Some((v - 87) as u8)
    } else if 65 <= v && v <= 70 {
        Some((v - 55) as u8)
    } else {
        None
    }
}

/// Parses `s` as an unsigned hexadecimal number no larger than `max`.
pub fn parse_hex(s: &Vec<char>, max: u128) -> (r: Result<u128, IntErrorKind>)
    ensures
        match parse_hex_spec(s@, max as nat) {
            Ok(v) => r == Ok::<u128, IntErrorKind>(v as u128),
            Err(e) => r == Err::<u128, IntErrorKind>(e),
        },
{
    if s.len() == 0 {
        return Err(IntErrorKind::Empty);
    }
    if (s[0] == '+' || s[0] == '-') && s.len() == 1 {
        return Err(IntErrorKind::InvalidDigit);
    }
    let start: usize = if s[0] == '+' {
        1
    } else {
        0
    };
    let ghost digits = s@.subrange(start as int, s@.len() as int);
    assert(s[0] == '+' ==> digits == s@.drop_first());
    assert(s[0] != '+' ==> digits == s@);
    assert(parse_hex_spec(s@, max as nat) == hex_scan(digits, max as nat));
    let mut v: u128 = 0;
    let mut i: usize = start;
    while i < s.len()
        invariant
            start <= i <= s.len(),
            digits == s@.subrange(start as int, s@.len() as int),
            parse_hex_spec(s@, max as nat) == hex_scan(digits, max as nat),
            hex_scan(s@.subrange(start as int, i as int), max as nat) == Ok::<
                nat,
                IntErrorKind,
            >(v as nat),
        decreases s.len() - i,
    {
        let ghost prefix = s@.subrange(start as int, i + 1);
        assert(prefix.drop_last() == s@.subrange(start as int, i as int));
        assert(prefix.last() == s@[i as int]);
        match hex_digit_of(s[i]) {
            None => {
                assert(hex_scan(prefix, max as nat) == Err::<nat, IntErrorKind>(
                    IntErrorKind::InvalidDigit,
                ));
                proof {
                    assert(digits.take(prefix.len() as int) == prefix);
                    lemma_scan_error_sticks(digits, prefix.len(), max as nat);
                }
                return Err(IntErrorKind::InvalidDigit);
            },
            Some(x) => {
                if x as u128 > max || v > (max - x as u128) / 16 {
                    assert(v as nat * 16 + x as nat > max as nat) by (nonlinear_arith)
                        requires
                            x as nat > max as nat || v as nat > (max as nat - x as nat) / 16,
                    ;
                    assert(hex_scan(prefix, max as nat) == Err::<nat, IntErrorKind>(
                        IntErrorKind::PosOverflow,
                    ));
                    proof {
                        assert(digits.take(prefix.len() as int) == prefix);
                        lemma_scan_error_sticks(digits, prefix.len(), max as nat);
                    }
                    return Err(IntErrorKind::PosOverflow);
                }
                assert(v as nat * 16 + x as nat <= max as nat) by (nonlinear_arith)
                    requires
                        v as nat <= (max as nat - x as nat) / 16,
                        x as nat <= max as nat,
                ;
                v = v * 16 + x as u128;
            },
        }
        i += 1;
    }
    assert(s@.subrange(start as int, s@.len() as int) == digits);
    Ok(v)
}

/// Once a prefix of `d` fails to read, `d` fails the same way.
proof fn lemma_scan_error_sticks(d: Seq<char>, n: nat, max: nat)
    requires
        n <= d.len(),
        hex_scan(d.take(n as int), max) is Err,
    ensures
        hex_scan(d, max) == hex_scan(d.take(n as int), max),
    decreases d.len() - n,
{
    if n < d.len() {
        let next = d.take(n + 1 as int);
        assert(next.drop_last() == d.take(n as int));
        lemma_scan_error_sticks(d, (n + 1) as nat, max);
    } else {
        assert(d.take(n as int) == d);
    }
}

} // verus!
