//! Rendering of numbers as ASCII text: decimal counters, zero-padded PINs,
//! and colon-separated uppercase hex fingerprints.

use vstd::prelude::*;

verus! {

/// The decimal rendering of `n`, most significant digit first, as ASCII bytes.
pub open spec fn spec_decimal_bytes(n: nat) -> Seq<u8>
    decreases n,
{
    if n < 10 {
        seq![(48 + n) as u8]
    } else {
        spec_decimal_bytes(n / 10) + seq![(48 + n % 10) as u8]
    }
}

/// A byte is an ASCII decimal digit.
pub open spec fn spec_is_digit(b: u8) -> bool {
    48 <= b <= 57
}

proof fn lemma_decimal_bytes_digits(n: nat)
    ensures
        spec_decimal_bytes(n).len() >= 1,
        forall|i: int|
            0 <= i < spec_decimal_bytes(n).len() ==> spec_is_digit(#[trigger] spec_decimal_bytes(n)[i]),
    decreases n,
{
    if n >= 10 {
        lemma_decimal_bytes_digits(n / 10);
    }
}

/// Append the decimal rendering of `n` to `out`.
pub fn push_decimal(n: u64, out: &mut Vec<u8>)
    ensures
        final(out)@ == old(out)@ + spec_decimal_bytes(n as nat),
    decreases n,
{
    if n < 10 {
        out.push(48 + n as u8);
    } else {
        push_decimal(n / 10, out);
        out.push(48 + (n % 10) as u8);
    }
}

/// The decimal rendering of `n` as a byte vector.
pub fn decimal_bytes(n: u64) -> (v: Vec<u8>)
    ensures
        v@ == spec_decimal_bytes(n as nat),
{
    let mut v: Vec<u8> = Vec::new();
    push_decimal(n, &mut v);
    v
}

/// Every byte of a decimal rendering is below 128, so it converts to text.
pub proof fn lemma_decimal_bytes_ascii(n: nat)
    ensures
        forall|i: int|
            0 <= i < spec_decimal_bytes(n).len() ==> #[trigger] spec_decimal_bytes(n)[i] < 128,
{
    lemma_decimal_bytes_digits(n);
    assert forall|i: int|
        0 <= i < spec_decimal_bytes(n).len() implies #[trigger] spec_decimal_bytes(n)[i]
        < 128 by {
        assert(spec_is_digit(spec_decimal_bytes(n)[i]));
    }
}

/// ASCII bytes viewed as the characters with the same code points.
pub open spec fn spec_chars_of_bytes(bytes: Seq<u8>) -> Seq<char> {
    bytes.map_values(|b: u8| b as char)
}

/// Relies on `String::from_utf8`: bytes below 128 are valid UTF-8 and decode
/// to the characters with the same code points.
#[verifier::external_body]
pub fn ascii_to_string(v: Vec<u8>) -> (s: String)
    requires
        forall|i: int| 0 <= i < v@.len() ==> v@[i] < 128,
    ensures
        s@ == spec_chars_of_bytes(v@),
{
    String::from_utf8(v).unwrap_or_default()
}

/// The decimal rendering of `n` as text.
pub fn decimal_string(n: u64) -> (s: String)
    ensures
        s@ == spec_chars_of_bytes(spec_decimal_bytes(n as nat)),
{
    let v = decimal_bytes(n);
    proof {
        lemma_decimal_bytes_ascii(n as nat);
    }
    ascii_to_string(v)
}

/// The value of a decimal numeral, most significant digit first: `None` on
/// an empty text or any non-digit character.
pub open spec fn spec_parse_decimal(s: Seq<char>) -> Option<int>
    decreases s.len(),
{
    if s.len() == 0 {
        Option::None
    } else if s.len() == 1 {
        if 48 <= s[0] as int <= 57 {
            Option::Some(s[0] as int - 48)
        } else {
            Option::None
        }
    } else {
        match spec_parse_decimal(s.drop_last()) {
            Option::Some(v) => if 48 <= s.last() as int <= 57 {
                Option::Some(v * 10 + (s.last() as int - 48))
            } else {
                Option::None
            },
            Option::None => Option::None,
        }
    }
}

/// A parsed numeral is non-negative.
pub proof fn lemma_parse_decimal_nonneg(s: Seq<char>)
    ensures
        spec_parse_decimal(s) matches Option::Some(v) ==> v >= 0,
    decreases s.len(),
{
    if s.len() > 1 {
        lemma_parse_decimal_nonneg(s.drop_last());
    }
}

/// A non-digit anywhere makes the whole numeral unparseable.
proof fn lemma_parse_decimal_none_if_nondigit(s: Seq<char>, i: int)
    requires
        0 <= i < s.len(),
        !(48 <= s[i] as int <= 57),
    ensures
        spec_parse_decimal(s) is None,
    decreases s.len(),
{
    if s.len() > 1 && i < s.len() - 1 {
        lemma_parse_decimal_none_if_nondigit(s.drop_last(), i);
    }
}

/// The whole numeral's value is at least any prefix's value.
proof fn lemma_parse_decimal_prefix_le(s: Seq<char>, j: int)
    requires
        1 <= j <= s.len(),
        spec_parse_decimal(s) is Some,
    ensures
        spec_parse_decimal(s.take(j)) is Some,
        spec_parse_decimal(s.take(j))->Some_0 <= spec_parse_decimal(s)->Some_0,
    decreases s.len() - j,
{
    if j == s.len() {
        assert(s.take(j) =~= s);
    } else {
        let cur = s.take(j + 1);
        assert(cur.drop_last() =~= s.take(j));
        assert(cur.last() == s[j]);
        lemma_parse_decimal_prefix_le(s, j + 1);
        lemma_parse_decimal_nonneg(s.take(j));
        if spec_parse_decimal(cur) is None {
            lemma_parse_decimal_nonexact_helper(s, cur, j);
        }
    }
}

/// If a prefix fails to parse, so does the whole numeral.
proof fn lemma_parse_decimal_nonexact_helper(s: Seq<char>, cur: Seq<char>, j: int)
    requires
        0 <= j < s.len(),
        cur == s.take(j + 1),
        spec_parse_decimal(cur) is None,
    ensures
        spec_parse_decimal(s) is None,
    decreases j,
{
    if s.len() == j + 1 {
        assert(cur =~= s);
    } else {
        if cur.len() == 1 {
            assert(!(48 <= s[0] as int <= 57));
            lemma_parse_decimal_none_if_nondigit(s, 0);
        } else {
            assert(cur.drop_last() =~= s.take(j));
            if spec_parse_decimal(s.take(j)) is None {
                lemma_parse_decimal_nonexact_helper(s, s.take(j), j - 1);
            } else {
                assert(!(48 <= cur.last() as int <= 57));
                assert(cur.last() == s[j]);
                lemma_parse_decimal_none_if_nondigit(s, j);
            }
        }
    }
}

/// Parse a decimal numeral.  `None` on an empty text, a non-digit, or a
/// value that does not fit in a `u64`.
pub fn parse_decimal_u64(s: &str) -> (r: Option<u64>)
    ensures
        match spec_parse_decimal(s@) {
            Option::Some(v) => if v <= u64::MAX {
                r == Option::Some(v as u64)
            } else {
                r is None
            },
            Option::None => r is None,
        },
        spec_parse_decimal(s@) matches Option::Some(v) ==> v >= 0,
{
    proof {
        lemma_parse_decimal_nonneg(s@);
    }
    let n = s.unicode_len();
    if n == 0 {
        return None;
    }
    let mut acc: u64 = 0;
    for i in 0..n
        invariant
            n == s@.len(),
            n >= 1,
            i >= 1 ==> spec_parse_decimal(s@.take(i as int)) == Option::Some(acc as int),
            i == 0 ==> acc == 0,
    {
        let c = s.get_char(i);
        let code = c as u32;
        proof {
            assert(s@.take(i + 1).drop_last() =~= s@.take(i as int));
            assert(s@.take(i + 1).last() == s@[i as int]);
        }
        if code < 48 || code > 57 {
            proof {
                lemma_parse_decimal_none_if_nondigit(s@, i as int);
            }
            return None;
        }
        let d = (code - 48) as u64;
        if acc > (u64::MAX - d) / 10 {
            proof {
                assert(spec_parse_decimal(s@.take(i + 1)) == Option::Some(
                    acc as int * 10 + d as int,
                ));
                assert(acc as int * 10 + d as int > u64::MAX) by (nonlinear_arith)
                    requires
                        acc > (u64::MAX - d) / 10,
                        d <= 9,
                ;
                if spec_parse_decimal(s@) is Some {
                    lemma_parse_decimal_prefix_le(s@, i + 1);
                }
            }
            return None;
        }
        proof {
            assert(acc * 10 + d <= u64::MAX) by (nonlinear_arith)
                requires
                    acc <= (u64::MAX - d) / 10,
                    d <= 9,
            ;
        }
        acc = acc * 10 + d;
    }
    proof {
        assert(s@.take(n as int) =~= s@);
    }
    Some(acc)
}

/// Law: decimal rendering and parsing are inverse — the numeral printed for
/// `n` parses back to `n`.
pub proof fn lemma_decimal_round_trip(n: nat)
    ensures
        spec_parse_decimal(spec_chars_of_bytes(spec_decimal_bytes(n))) == Option::Some(n as int),
    decreases n,
{
    let printed = spec_chars_of_bytes(spec_decimal_bytes(n));
    lemma_decimal_bytes_digits(n);
    if n < 10 {
        assert(printed =~= seq![(48 + n) as u8 as char]);
        assert(printed[0] as int == 48 + n);
    } else {
        lemma_decimal_round_trip(n / 10);
        let pre = spec_chars_of_bytes(spec_decimal_bytes(n / 10));
        assert(printed =~= pre + seq![(48 + n % 10) as u8 as char]);
        assert(printed.drop_last() =~= pre);
        assert(printed.last() as int == 48 + n % 10);
        assert(printed.len() >= 2) by {
            lemma_decimal_bytes_digits(n / 10);
        }
        assert((n / 10) * 10 + n % 10 == n);
    }
}

/// The uppercase hex digit for a nibble value.
pub open spec fn spec_hex_digit(d: u8) -> u8
    recommends
        d < 16,
{
    if d < 10 {
        (48 + d) as u8
    } else {
        (55 + d) as u8
    }
}

/// Two uppercase hex digits for one byte.
pub open spec fn spec_hex_byte(b: u8) -> Seq<u8> {
    seq![spec_hex_digit(b / 16), spec_hex_digit(b % 16)]
}

fn hex_digit(d: u8) -> (c: u8)
    requires
        d < 16,
    ensures
        c == spec_hex_digit(d),
{
    if d < 10 {
        48 + d
    } else {
        55 + d
    }
}

/// The colon-separated uppercase hex rendering of a byte sequence:
/// "AB:CD:…".  An empty input renders as the empty sequence.
pub open spec fn spec_hex_colon(bytes: Seq<u8>) -> Seq<u8>
    decreases bytes.len(),
{
    if bytes.len() == 0 {
        Seq::empty()
    } else if bytes.len() == 1 {
        spec_hex_byte(bytes[0])
    } else {
        spec_hex_colon(bytes.drop_last()) + seq![58u8] + spec_hex_byte(bytes.last())
    }
}

/// The plain uppercase hex rendering of a byte sequence, no separators.
pub open spec fn spec_hex_plain(bytes: Seq<u8>) -> Seq<u8>
    decreases bytes.len(),
{
    if bytes.len() == 0 {
        Seq::empty()
    } else {
        spec_hex_plain(bytes.drop_last()) + spec_hex_byte(bytes.last())
    }
}

/// Render `bytes` as colon-separated uppercase hex, as a byte vector.
pub fn hex_colon_bytes(bytes: &[u8]) -> (v: Vec<u8>)
    ensures
        v@ == spec_hex_colon(bytes@),
{
    let mut v: Vec<u8> = Vec::new();
    let n = bytes.len();
    for i in 0..n
        invariant
            n == bytes@.len(),
            v@ == spec_hex_colon(bytes@.subrange(0, i as int)),
    {
        if i > 0 {
            v.push(58);
        }
        let b = bytes[i];
        v.push(hex_digit(b / 16));
        v.push(hex_digit(b % 16));
        proof {
            let pre = bytes@.subrange(0, i as int);
            let cur = bytes@.subrange(0, i + 1 as int);
            assert(cur.drop_last() =~= pre);
            assert(cur.last() == bytes@[i as int]);
        }
    }
    proof {
        assert(bytes@.subrange(0, n as int) =~= bytes@);
    }
    v
}

/// Render `bytes` as plain uppercase hex, as a byte vector.
pub fn hex_plain_bytes(bytes: &[u8]) -> (v: Vec<u8>)
    ensures
        v@ == spec_hex_plain(bytes@),
{
    let mut v: Vec<u8> = Vec::new();
    let n = bytes.len();
    for i in 0..n
        invariant
            n == bytes@.len(),
            v@ == spec_hex_plain(bytes@.subrange(0, i as int)),
    {
        let b = bytes[i];
        v.push(hex_digit(b / 16));
        v.push(hex_digit(b % 16));
        proof {
            let pre = bytes@.subrange(0, i as int);
            let cur = bytes@.subrange(0, i + 1 as int);
            assert(cur.drop_last() =~= pre);
            assert(cur.last() == bytes@[i as int]);
        }
    }
    proof {
        assert(bytes@.subrange(0, n as int) =~= bytes@);
    }
    v
}

/// Every byte of a hex rendering with colons is ASCII.
pub proof fn lemma_hex_colon_ascii(bytes: Seq<u8>)
    ensures
        forall|i: int|
            0 <= i < spec_hex_colon(bytes).len() ==> #[trigger] spec_hex_colon(bytes)[i] < 128,
    decreases bytes.len(),
{
    if bytes.len() > 1 {
        lemma_hex_colon_ascii(bytes.drop_last());
        let pre = spec_hex_colon(bytes.drop_last());
        let tail = seq![58u8] + spec_hex_byte(bytes.last());
        assert(spec_hex_colon(bytes) == pre + tail);
        assert forall|i: int|
            0 <= i < spec_hex_colon(bytes).len() implies #[trigger] spec_hex_colon(bytes)[i]
            < 128 by {
            if i < pre.len() {
                assert(spec_hex_colon(bytes)[i] == pre[i]);
            } else {
                assert(spec_hex_colon(bytes)[i] == tail[i - pre.len()]);
            }
        }
    }
}

/// Every byte of a plain hex rendering is ASCII.
pub proof fn lemma_hex_plain_ascii(bytes: Seq<u8>)
    ensures
        forall|i: int|
            0 <= i < spec_hex_plain(bytes).len() ==> #[trigger] spec_hex_plain(bytes)[i] < 128,
    decreases bytes.len(),
{
    if bytes.len() > 0 {
        lemma_hex_plain_ascii(bytes.drop_last());
        let pre = spec_hex_plain(bytes.drop_last());
        let tail = spec_hex_byte(bytes.last());
        assert(spec_hex_plain(bytes) == pre + tail);
        assert forall|i: int|
            0 <= i < spec_hex_plain(bytes).len() implies #[trigger] spec_hex_plain(bytes)[i]
            < 128 by {
            if i < pre.len() {
                assert(spec_hex_plain(bytes)[i] == pre[i]);
            } else {
                assert(spec_hex_plain(bytes)[i] == tail[i - pre.len()]);
            }
        }
    }
}

} // verus!
