use vstd::prelude::*;
use vstd::string::StringExecFns;

verus! {

/// The digit character of a value below ten.
pub open spec fn digit_char(d: nat) -> char {
    ((d + 48) as u8) as char
}

/// The base-ten text of `n`, most significant digit first, without leading zeros.
pub open spec fn decimal_text(n: nat) -> Seq<char>
    decreases n,
{
    if n < 10 {
        seq![digit_char(n)]
    } else {
        decimal_text(n / 10).push(digit_char(n % 10))
    }
}

pub open spec fn is_digit_byte(b: u8) -> bool {
    48 <= b <= 57
}

/// Bytes that spell a base-ten number: at least one, all ASCII digits.
pub open spec fn is_decimal(s: Seq<u8>) -> bool {
    s.len() > 0 && forall|i: int| 0 <= i < s.len() ==> is_digit_byte(#[trigger] s[i])
}

/// The value of a run of ASCII digits.
pub open spec fn decimal_value(s: Seq<u8>) -> nat
    decreases s.len(),
{
    if s.len() == 0 {
        0
    } else {
        decimal_value(s.drop_last()) * 10 + (s.last() - 48) as nat
    }
}

/// What a number parser makes of a byte run: its value when the run is a
/// decimal number that fits in `usize`, nothing otherwise.
pub open spec fn parse_decimal(s: Seq<u8>) -> Option<nat> {
    if is_decimal(s) && decimal_value(s) <= usize::MAX {
        Some(decimal_value(s))
    } else {
        None
    }
}

/// The bytes of a text whose characters are all ASCII.
pub open spec fn ascii_bytes(s: Seq<char>) -> Seq<u8> {
    Seq::new(s.len(), |i: int| s[i] as u8)
}

/// What a number parser makes of a text: as for bytes, once the text is ASCII.
pub open spec fn parse_decimal_text(s: Seq<char>) -> Option<nat> {
    if vstd::utf8::is_ascii_chars(s) {
        parse_decimal(ascii_bytes(s))
    } else {
        None
    }
}

fn digit_str(d: usize) -> (r: String)
    requires
        d < 10,
    ensures
        r@ == seq![digit_char(d as nat)],
{
    proof {
        reveal_strlit("0");
        reveal_strlit("1");
        reveal_strlit("2");
        reveal_strlit("3");
        reveal_strlit("4");
        reveal_strlit("5");
        reveal_strlit("6");
        reveal_strlit("7");
        reveal_strlit("8");
        reveal_strlit("9");
    }
    let r = if d == 0 {
        String::from_str("0")
    } else if d == 1 {
        String::from_str("1")
    } else if d == 2 {
        String::from_str("2")
    } else if d == 3 {
        String::from_str("3")
    } else if d == 4 {
        String::from_str("4")
    } else if d == 5 {
        String::from_str("5")
    } else if d == 6 {
        String::from_str("6")
    } else if d == 7 {
        String::from_str("7")
    } else if d == 8 {
        String::from_str("8")
    } else {
        String::from_str("9")
    };
    assert(r@ =~= seq![digit_char(d as nat)]);
    r
}

/// The base-ten text of `n`.
pub fn usize_to_decimal(n: usize) -> (r: String)
    ensures
        r@ == decimal_text(n as nat),
    decreases n,
{
    if n < 10 {
        digit_str(n)
    } else {
        let head = usize_to_decimal(n / 10);
        let last = digit_str(n % 10);
        let r = head.concat(last.as_str());
        assert(r@ =~= decimal_text(n as nat));
        r
    }
}

/// Parses a run of ASCII digits into a `usize`.
pub fn parse_decimal_bytes(s: &[u8]) -> (r: Option<usize>)
    ensures
        r matches Some(v) ==> parse_decimal(s@) == Some(v as nat),
        r is None ==> parse_decimal(s@) is None,
{
    if s.len() == 0 {
        return None;
    }
    let mut value: usize = 0;
    let mut i: usize = 0;
    while i < s.len()
        invariant
            0 <= i <= s@.len(),
            s@.len() > 0,
            value as nat == decimal_value(s@.subrange(0, i as int)),
            forall|j: int| 0 <= j < i ==> is_digit_byte(#[trigger] s@[j]),
        decreases s@.len() - i,
    {
        let b = s[i];
        proof {
            let pre = s@.subrange(0, i as int + 1);
            assert(pre.drop_last() =~= s@.subrange(0, i as int));
            assert(pre.last() == b);
        }
        if !(48 <= b && b <= 57) {
            return None;
        }
        let d = (b - 48) as usize;
        if value > (usize::MAX - d) / 10 {
            proof {
                let pre = s@.subrange(0, i as int + 1);
                assert(decimal_value(pre) == value * 10 + d);
                assert(value * 10 + d > usize::MAX) by (nonlinear_arith)
                    requires
                        value > (usize::MAX - d) / 10,
                        d <= 9,
                ;
                if is_decimal(s@) {
                    lemma_prefix_value_bounds(s@, i as int + 1);
                }
            }
            return None;
        }
        assert(value * 10 + d <= usize::MAX) by (nonlinear_arith)
            requires
                value <= (usize::MAX - d) / 10,
                d <= 9,
        ;
        value = value * 10 + d;
        i = i + 1;
    }
    assert(s@.subrange(0, s@.len() as int) =~= s@);
    Some(value)
}

/// A longer run of digits is worth at least as much as its prefix.
proof fn lemma_prefix_value_bounds(s: Seq<u8>, k: int)
    requires
        0 <= k <= s.len(),
        forall|j: int| 0 <= j < s.len() ==> is_digit_byte(#[trigger] s[j]),
    ensures
        decimal_value(s.subrange(0, k)) <= decimal_value(s),
    decreases s.len() - k,
{
    if k < s.len() {
        lemma_prefix_value_bounds(s, k + 1);
        let pre = s.subrange(0, k + 1);
        assert(pre.drop_last() =~= s.subrange(0, k));
    } else {
        assert(s.subrange(0, k) =~= s);
    }
}

/// Parses a text of ASCII digits into a `usize`.
pub fn parse_decimal_str(s: &str) -> (r: Option<usize>)
    ensures
        r matches Some(v) ==> parse_decimal_text(s@) == Some(v as nat),
        r is None ==> parse_decimal_text(s@) is None,
{
    if !s.is_ascii() {
        return None;
    }
    let b = s.as_bytes();
    proof {
        vstd::string::is_ascii_spec_bytes(s);
        assert(b@ =~= ascii_bytes(s@));
    }
    parse_decimal_bytes(b)
}

} // verus!
