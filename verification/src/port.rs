//! Port numbers: parsing one from text and rendering one in decimal.
use vstd::prelude::*;

verus! {

/// Why a text is not a port number (the kinds `u16::from_str` reports).
#[derive(Clone, Copy, Debug, PartialEq, Eq, Structural)]
pub enum PortError {
    /// The text is empty.
    Empty,
    /// The text holds a character that is not a decimal digit.
    InvalidDigit,
    /// The number is larger than 65535.
    PosOverflow,
}

pub open spec fn is_digit(c: char) -> bool {
    '0' <= c <= '9'
}

pub open spec fn digit_value(c: char) -> nat {
    (c as u32 - '0' as u32) as nat
}

pub open spec fn digit_char(d: nat) -> char {
    ((d + '0' as u32) as u32) as char
}

/// Reading the digits of `s` from the left; the first problem met decides
/// the error.
pub open spec fn scan_digits(s: Seq<char>) -> Result<nat, PortError>
    decreases s.len(),
{
    if s.len() == 0 {
        Ok(0)
    } else {
        match scan_digits(s.drop_last()) {
            Err(e) => Err(e),
            Ok(acc) => {
                if !is_digit(s.last()) {
                    Err(PortError::InvalidDigit)
                } else if acc * 10 + digit_value(s.last()) > 65535 {
                    Err(PortError::PosOverflow)
                } else {
                    Ok(acc * 10 + digit_value(s.last()))
                }
            }
        }
    }
}

/// What `u16::from_str` gives for `s`: an optional leading `+`, then one or
/// more decimal digits whose value fits in 16 bits.
pub open spec fn port_of(s: Seq<char>) -> Result<u16, PortError> {
    if s.len() == 0 {
        Err(PortError::Empty)
    } else if s.len() == 1 && (s[0] == '+' || s[0] == '-') {
        Err(PortError::InvalidDigit)
    } else {
        let digits = if s[0] == '+' { s.drop_first() } else { s };
        match scan_digits(digits) {
            Ok(v) => Ok(v as u16),
            Err(e) => Err(e),
        }
    }
}

/// The decimal digits of `n`, most significant first, without leading zeros.
pub open spec fn decimal(n: nat) -> Seq<char>
    decreases n,
{
    if n < 10 {
        seq![digit_char(n)]
    } else {
        decimal(n / 10).push(digit_char(n % 10))
    }
}

/// Once a prefix of `s` fails to scan, `s` fails with the same error.
proof fn lemma_scan_error_persists(s: Seq<char>, k: int)
    requires
        0 <= k <= s.len(),
        scan_digits(s.take(k)) is Err,
    ensures
        scan_digits(s) == scan_digits(s.take(k)),
    decreases s.len() - k,
{
    if k < s.len() {
        assert(s.take(k + 1).drop_last() =~= s.take(k));
        lemma_scan_error_persists(s, k + 1);
    } else {
        assert(s.take(k) =~= s);
    }
}

/// Parses a port number as `u16::from_str` does.
pub fn parse_port(s: &str) -> (r: Result<u16, PortError>)
    ensures
        r == port_of(s@),
{
    let n = s.unicode_len();
    if n == 0 {
        return Err(PortError::Empty);
    }
    let first = s.get_char(0);
    if n == 1 && (first == '+' || first == '-') {
        return Err(PortError::InvalidDigit);
    }
    let start: usize = if first == '+' { 1 } else { 0 };
    let ghost digits = if s@[0] == '+' { s@.drop_first() } else { s@ };
    assert(digits =~= s@.subrange(start as int, n as int));
    let mut acc: u32 = 0;
    let mut i: usize = start;
    while i < n
        invariant
            n == s@.len(),
            start <= i <= n,
            digits =~= s@.subrange(start as int, n as int),
            port_of(s@) == (match scan_digits(digits) {
                Ok(v) => Ok::<u16, PortError>(v as u16),
                Err(e) => Err(e),
            }),
            scan_digits(digits.take(i - start)) == Ok::<nat, PortError>(acc as nat),
            acc <= 65535,
        decreases n - i,
    {
        let c = s.get_char(i);
        assert(digits.take(i + 1 - start).drop_last() =~= digits.take(i - start));
        assert(digits.take(i + 1 - start).last() == c);
        if !('0' <= c && c <= '9') {
            proof { lemma_scan_error_persists(digits, i + 1 - start); }
            return Err(PortError::InvalidDigit);
        }
        let d: u32 = (c as u32) - ('0' as u32);
        let next: u32 = acc * 10 + d;
        if next > 65535 {
            proof { lemma_scan_error_persists(digits, i + 1 - start); }
            return Err(PortError::PosOverflow);
        }
        acc = next;
        i = i + 1;
    }
    assert(digits.take(n - start) =~= digits);
    Ok(acc as u16)
}

/// The single character of a decimal digit.
fn digit_text(d: u64) -> (t: &'static str)
    requires
        d < 10,
    ensures
        t@ == seq![digit_char(d as nat)],
{
    proof {
        reveal_strlit("0");
        reveal_strlit("1");
        reveal_strlit("2");
        reveal_strlit("3");
        reveal_strlit("4");
        reveal_strlit("5");
        reveal_strlit("6");
        reveal_strlit("7");
        reveal_strlit("8");
        reveal_strlit("9");
    }
    if d == 0 {
        "0"
    } else if d == 1 {
        "1"
    } else if d == 2 {
        "2"
    } else if d == 3 {
        "3"
    } else if d == 4 {
        "4"
    } else if d == 5 {
        "5"
    } else if d == 6 {
        "6"
    } else if d == 7 {
        "7"
    } else if d == 8 {
        "8"
    } else {
        "9"
    }
}

/// Appends the decimal digits of `n` to `out`.
pub fn append_decimal(out: &mut String, n: u64)
    ensures
        final(out)@ == old(out)@ + decimal(n as nat),
    decreases n,
{
    if n >= 10 {
        append_decimal(out, n / 10);
    }
    out.append(digit_text(n % 10));
    proof {
        if n >= 10 {
            assert(old(out)@ + decimal(n as nat) =~= old(out)@ + decimal((n / 10) as nat) + seq![digit_char((n % 10) as nat)]);
        }
    }
}

/// Every character of a decimal rendering is a digit.
proof fn lemma_decimal_digits(n: nat)
    ensures
        decimal(n).len() >= 1,
        forall|i: int| 0 <= i < decimal(n).len() ==> is_digit(#[trigger] decimal(n)[i]),
    decreases n,
{
    if n >= 10 {
        lemma_decimal_digits(n / 10);
    }
}

/// A decimal rendering is a word: non-empty, with no whitespace in it.
pub proof fn lemma_decimal_is_word(n: nat)
    ensures
        crate::text::is_word(decimal(n)),
{
    lemma_decimal_digits(n);
    assert forall|i: int| 0 <= i < decimal(n).len() implies !crate::text::is_white_space(
        #[trigger] decimal(n)[i],
    ) by {
        assert(is_digit(decimal(n)[i]));
    }
}

/// Scanning the decimal rendering of a number that fits in 16 bits gives
/// the number back.
proof fn lemma_scan_decimal(n: nat)
    requires
        n <= 65535,
    ensures
        scan_digits(decimal(n)) == Ok::<nat, PortError>(n),
    decreases n,
{
    let d = n % 10;
    assert(digit_char(d) as u32 == d + 48);
    assert(is_digit(digit_char(d)) && digit_value(digit_char(d)) == d);
    if n < 10 {
        assert(decimal(n).drop_last() =~= Seq::<char>::empty());
        assert(decimal(n).last() == digit_char(d));
    } else {
        lemma_scan_decimal(n / 10);
        assert(decimal(n).drop_last() =~= decimal(n / 10));
        assert(decimal(n).last() == digit_char(d));
        assert((n / 10) * 10 + d == n);
        assert(decimal(n).len() > 0);
        assert(scan_digits(decimal(n).drop_last()) == Ok::<nat, PortError>(n / 10));
        assert(is_digit(decimal(n).last()));
    }
}

/// Law: only the empty text is `Empty`; a text holding a character that is
/// neither a decimal digit nor a leading `+` is never a port; a leading `+`
/// changes nothing.
pub proof fn law_port_errors(s: Seq<char>, p: u16)
    ensures
        port_of(s) == Err::<u16, PortError>(PortError::Empty) <==> s.len() == 0,
        (exists|i: int| 0 <= i < s.len() && !is_digit(#[trigger] s[i]) && !(i == 0 && s[i] == '+'))
            ==> port_of(s) is Err,
        port_of(seq!['+'] + decimal(p as nat)) == Ok::<u16, PortError>(p),
{
    if s.len() > 0 {
        if s.len() == 1 && (s[0] == '+' || s[0] == '-') {
        } else {
            let digits = if s[0] == '+' { s.drop_first() } else { s };
            if exists|i: int| 0 <= i < s.len() && !is_digit(#[trigger] s[i]) && !(i == 0 && s[i] == '+') {
                let i = choose|i: int| 0 <= i < s.len() && !is_digit(#[trigger] s[i]) && !(i == 0 && s[i] == '+');
                let k = if s[0] == '+' { i - 1 } else { i };
                assert(digits[k] == s[i]);
                lemma_scan_rejects_non_digit(digits, k);
            }
            lemma_scan_never_empty(digits);
        }
    }
    lemma_decimal_digits(p as nat);
    lemma_scan_decimal(p as nat);
    let t = seq!['+'] + decimal(p as nat);
    assert(t.drop_first() =~= decimal(p as nat));
    assert(is_digit(decimal(p as nat)[0]));
    assert(t[1] == decimal(p as nat)[0]);
}

/// Scanning digits never reports an empty text.
proof fn lemma_scan_never_empty(s: Seq<char>)
    ensures
        scan_digits(s) != Err::<nat, PortError>(PortError::Empty),
    decreases s.len(),
{
    if s.len() > 0 {
        lemma_scan_never_empty(s.drop_last());
    }
}

/// A non-digit anywhere makes the scan fail.
proof fn lemma_scan_rejects_non_digit(s: Seq<char>, k: int)
    requires
        0 <= k < s.len(),
        !is_digit(s[k]),
    ensures
        scan_digits(s) is Err,
{
    assert(s.take(k + 1).drop_last() =~= s.take(k));
    assert(s.take(k + 1).last() == s[k]);
    assert(scan_digits(s.take(k + 1)) is Err);
    lemma_scan_error_persists(s, k + 1);
}

/// Law: parsing the decimal rendering of a port gives the port back.
pub proof fn law_port_round_trip(p: u16)
    ensures
        port_of(decimal(p as nat)) == Ok::<u16, PortError>(p),
{
    lemma_decimal_digits(p as nat);
    lemma_scan_decimal(p as nat);
    assert(is_digit(decimal(p as nat)[0]));
}

} // verus!
