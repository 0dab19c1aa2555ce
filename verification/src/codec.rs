//! The address/port codec.
//!
//! A socket-table endpoint field has the shape `HEXADDR:HEXPORT`. This
//! module splits such a field at its first colon, parses the two
//! hexadecimal substrings, and re-renders them in the canonical
//! zero-padded uppercase form, honoring the host byte order (whose two
//! branches provably agree). It also renders process ids as decimal
//! text for the pid filter.

use crate::record::NetstatError;
use vstd::prelude::*;
use vstd::string::StrSliceExecFns;
use vstd::string::StringExecFns;

verus! {

/// Index of the first colon, or the length of the text when it has
/// none.
pub open spec fn colon_index(s: Seq<char>) -> nat
    decreases s.len(),
{
    if s.len() == 0 {
        0
    } else if s[0] == ':' {
        0
    } else {
        (1 + colon_index(s.skip(1))) as nat
    }
}

/// The first colon sits exactly at the first position holding a colon
/// (or at the end, when there is none).
pub proof fn lemma_colon_index_is(s: Seq<char>, k: int)
    requires
        0 <= k <= s.len(),
        forall|m: int| 0 <= m < k ==> s[m] != ':',
        k == s.len() || s[k] == ':',
    ensures
        colon_index(s) == k,
    decreases k,
{
    if k > 0 {
        lemma_colon_index_is(s.skip(1), k - 1);
    }
}

/// The address part of a composite field: the text before the first
/// colon, or nothing when the field has no colon.
pub open spec fn spec_split_address(s: Seq<char>) -> Option<Seq<char>> {
    if colon_index(s) < s.len() {
        Some(s.take(colon_index(s) as int))
    } else {
        None
    }
}

/// The port part of a composite field: the text after the first colon,
/// or nothing when the field has no colon or nothing follows it.
pub open spec fn spec_split_port(s: Seq<char>) -> Option<Seq<char>> {
    if colon_index(s) + 1 < s.len() {
        Some(s.skip(colon_index(s) as int + 1))
    } else {
        None
    }
}

/// Index of the first colon of `s`, or its length when it has none.
fn colon_pos(s: &str) -> (k: usize)
    ensures
        k as nat == colon_index(s@),
        k <= s@.len(),
{
    let n = s.unicode_len();
    let mut k: usize = 0;
    while k < n && s.get_char(k) != ':'
        invariant
            k <= n,
            n == s@.len(),
            forall|m: int| 0 <= m < k ==> s@[m] != ':',
        decreases n - k,
    {
        k = k + 1;
    }
    proof {
        lemma_colon_index_is(s@, k as int);
    }
    k
}

/// The address part of a composite `HEXADDR:HEXPORT` field: the text
/// before the first colon. Fails with `MalformedAddress` when the field
/// has no colon.
pub fn get_ip(addr: &str) -> (r: Result<String, NetstatError>)
    ensures
        match spec_split_address(addr@) {
            Some(ip) => r matches Ok(v) && v@ == ip,
            None => r == Err::<String, NetstatError>(NetstatError::MalformedAddress),
        },
{
    let n = addr.unicode_len();
    let k = colon_pos(addr);
    if k == n {
        Err(NetstatError::MalformedAddress)
    } else {
        Ok(addr.substring_char(0, k).to_owned())
    }
}

/// The port part of a composite `HEXADDR:HEXPORT` field: the text after
/// the first colon. Fails with `MalformedAddress` when the field has no
/// colon or nothing follows it.
pub fn get_port(addr: &str) -> (r: Result<String, NetstatError>)
    ensures
        match spec_split_port(addr@) {
            Some(port) => r matches Ok(v) && v@ == port,
            None => r == Err::<String, NetstatError>(NetstatError::MalformedAddress),
        },
{
    let n = addr.unicode_len();
    let k = colon_pos(addr);
    if k >= n || k + 1 >= n {
        Err(NetstatError::MalformedAddress)
    } else {
        Ok(addr.substring_char(k + 1, n).to_owned())
    }
}

/// Whether a character is a hexadecimal digit (either case).
pub open spec fn is_hex_digit(c: char) -> bool {
    let u = c as u32;
    (48 <= u && u <= 57) || (65 <= u && u <= 70) || (97 <= u && u <= 102)
}

/// Numeric value of a hexadecimal digit (zero outside the digits).
pub open spec fn hex_digit_value(c: char) -> nat {
    let u = c as u32;
    if 48 <= u && u <= 57 {
        (u - 48) as nat
    } else if 65 <= u && u <= 70 {
        (u - 55) as nat
    } else if 97 <= u && u <= 102 {
        (u - 87) as nat
    } else {
        0
    }
}

/// Whether a text is valid hexadecimal: non-empty and made of
/// hexadecimal digits only.
pub open spec fn is_hex_str(s: Seq<char>) -> bool {
    s.len() > 0 && forall|i: int| 0 <= i < s.len() ==> is_hex_digit(s[i])
}

/// The unsigned value of a hexadecimal text, most significant digit
/// first.
pub open spec fn spec_hex_to_nat(s: Seq<char>) -> nat
    decreases s.len(),
{
    if s.len() == 0 {
        0
    } else {
        spec_hex_to_nat(s.drop_last()) * 16 + hex_digit_value(s.last())
    }
}

/// The value of a prefix never exceeds the value of a longer prefix.
proof fn lemma_hex_prefix_le(s: Seq<char>, i: int, j: int)
    requires
        0 <= i <= j <= s.len(),
    ensures
        spec_hex_to_nat(s.take(i)) <= spec_hex_to_nat(s.take(j)),
    decreases j - i,
{
    if i < j {
        lemma_hex_prefix_le(s, i, j - 1);
        assert(s.take(j).drop_last() =~= s.take(j - 1));
    }
}

/// Parses a hexadecimal text as an unsigned 32-bit value. Fails with
/// `CodecError` when the text is not valid hexadecimal or its value
/// does not fit in 32 bits.
pub fn parse_hex_u32(s: &str) -> (r: Result<u32, NetstatError>)
    ensures
        if is_hex_str(s@) && spec_hex_to_nat(s@) <= u32::MAX {
            r matches Ok(v) && v as nat == spec_hex_to_nat(s@)
        } else {
            r == Err::<u32, NetstatError>(NetstatError::CodecError)
        },
{
    let n = s.unicode_len();
    if n == 0 {
        return Err(NetstatError::CodecError);
    }
    let mut acc: u64 = 0;
    let mut i: usize = 0;
    proof {
        assert(s@.take(0) =~= Seq::<char>::empty());
    }
    while i < n
        invariant
            i <= n,
            n == s@.len(),
            forall|m: int| 0 <= m < i ==> is_hex_digit(s@[m]),
            acc as nat == spec_hex_to_nat(s@.take(i as int)),
            acc <= u32::MAX,
        decreases n - i,
    {
        let c = s.get_char(i);
        let u = c as u32;
        let d: u32 = if 48 <= u && u <= 57 {
            u - 48
        } else if 65 <= u && u <= 70 {
            u - 55
        } else if 97 <= u && u <= 102 {
            u - 87
        } else {
            return Err(NetstatError::CodecError);
        };
        proof {
            assert(s@.take(i as int + 1).drop_last() =~= s@.take(i as int));
            assert(s@.take(i as int + 1).last() == s@[i as int]);
        }
        let next: u64 = acc * 16 + d as u64;
        if next > 0xFFFF_FFFF {
            proof {
                lemma_hex_prefix_le(s@, i as int + 1, n as int);
                assert(s@.take(n as int) =~= s@);
            }
            return Err(NetstatError::CodecError);
        }
        acc = next;
        i = i + 1;
    }
    proof {
        assert(s@.take(n as int) =~= s@);
    }
    Ok(acc as u32)
}

/// The uppercase hexadecimal digit for a value below sixteen.
pub open spec fn spec_hex_digit_char(d: nat) -> char {
    if d == 0 {
        '0'
    } else if d == 1 {
        '1'
    } else if d == 2 {
        '2'
    } else if d == 3 {
        '3'
    } else if d == 4 {
        '4'
    } else if d == 5 {
        '5'
    } else if d == 6 {
        '6'
    } else if d == 7 {
        '7'
    } else if d == 8 {
        '8'
    } else if d == 9 {
        '9'
    } else if d == 10 {
        'A'
    } else if d == 11 {
        'B'
    } else if d == 12 {
        'C'
    } else if d == 13 {
        'D'
    } else if d == 14 {
        'E'
    } else {
        'F'
    }
}

/// A value rendered as exactly `width` uppercase hexadecimal digits,
/// zero-padded, most significant digit first (truncated to the lowest
/// `width` digits when the value is wider).
pub open spec fn spec_render_hex(n: nat, width: nat) -> Seq<char>
    decreases width,
{
    if width == 0 {
        Seq::empty()
    } else {
        spec_render_hex(n / 16, (width - 1) as nat) + seq![spec_hex_digit_char(n % 16)]
    }
}

/// The one-character text of an uppercase hexadecimal digit.
fn hex_digit_str(d: u32) -> (r: &'static str)
    requires
        d < 16,
    ensures
        r@ == seq![spec_hex_digit_char(d as nat)],
{
    let s: &str = match d {
        0 => "0",
        1 => "1",
        2 => "2",
        3 => "3",
        4 => "4",
        5 => "5",
        6 => "6",
        7 => "7",
        8 => "8",
        9 => "9",
        10 => "A",
        11 => "B",
        12 => "C",
        13 => "D",
        14 => "E",
        _ => "F",
    };
    proof {
        reveal_strlit("0");
        reveal_strlit("1");
        reveal_strlit("2");
        reveal_strlit("3");
        reveal_strlit("4");
        reveal_strlit("5");
        reveal_strlit("6");
        reveal_strlit("7");
        reveal_strlit("8");
        reveal_strlit("9");
        reveal_strlit("A");
        reveal_strlit("B");
        reveal_strlit("C");
        reveal_strlit("D");
        reveal_strlit("E");
        reveal_strlit("F");
    }
    assert(s@ =~= seq![spec_hex_digit_char(d as nat)]);
    s
}

/// Renders a value as exactly `width` uppercase hexadecimal digits,
/// zero-padded.
pub fn render_hex(n: u32, width: usize) -> (r: String)
    ensures
        r@ == spec_render_hex(n as nat, width as nat),
    decreases width,
{
    if width == 0 {
        let r = String::new();
        assert(r@ =~= spec_render_hex(n as nat, 0));
        r
    } else {
        let prefix = render_hex(n / 16, width - 1);
        let digit = hex_digit_str(n % 16);
        let r = prefix.concat(digit);
        assert(r@ =~= spec_render_hex(n as nat, width as nat));
        r
    }
}

/// The decimal digit for a value below ten.
pub open spec fn spec_dec_digit_char(d: nat) -> char {
    if d == 0 {
        '0'
    } else if d == 1 {
        '1'
    } else if d == 2 {
        '2'
    } else if d == 3 {
        '3'
    } else if d == 4 {
        '4'
    } else if d == 5 {
        '5'
    } else if d == 6 {
        '6'
    } else if d == 7 {
        '7'
    } else if d == 8 {
        '8'
    } else {
        '9'
    }
}

/// A value rendered as decimal text without leading zeros (a single
/// `'0'` for zero).
pub open spec fn spec_render_dec(n: nat) -> Seq<char>
    decreases n,
{
    if n < 10 {
        seq![spec_dec_digit_char(n)]
    } else {
        spec_render_dec(n / 10) + seq![spec_dec_digit_char(n % 10)]
    }
}

/// A signed value rendered as decimal text, with a leading `'-'` when
/// negative.
pub open spec fn spec_render_int(n: int) -> Seq<char> {
    if n < 0 {
        seq!['-'] + spec_render_dec((-n) as nat)
    } else {
        spec_render_dec(n as nat)
    }
}

/// The one-character text of a decimal digit.
fn dec_digit_str(d: u64) -> (r: &'static str)
    requires
        d < 10,
    ensures
        r@ == seq![spec_dec_digit_char(d as nat)],
{
    let s: &str = match d {
        0 => "0",
        1 => "1",
        2 => "2",
        3 => "3",
        4 => "4",
        5 => "5",
        6 => "6",
        7 => "7",
        8 => "8",
        _ => "9",
    };
    proof {
        reveal_strlit("0");
        reveal_strlit("1");
        reveal_strlit("2");
        reveal_strlit("3");
        reveal_strlit("4");
        reveal_strlit("5");
        reveal_strlit("6");
        reveal_strlit("7");
        reveal_strlit("8");
        reveal_strlit("9");
    }
    assert(s@ =~= seq![spec_dec_digit_char(d as nat)]);
    s
}

/// Renders an unsigned value as decimal text.
pub fn render_dec_u64(n: u64) -> (r: String)
    ensures
        r@ == spec_render_dec(n as nat),
    decreases n,
{
    if n < 10 {
        let r = dec_digit_str(n).to_owned();
        assert(r@ =~= spec_render_dec(n as nat));
        r
    } else {
        let prefix = render_dec_u64(n / 10);
        let digit = dec_digit_str(n % 10);
        let r = prefix.concat(digit);
        assert(r@ =~= spec_render_dec(n as nat));
        r
    }
}

/// Renders a signed 32-bit value as decimal text, the string form a
/// process id is compared under.
pub fn i32_to_string(n: i32) -> (r: String)
    ensures
        r@ == spec_render_int(n as int),
{
    if n >= 0 {
        let r = render_dec_u64(n as u64);
        assert(r@ =~= spec_render_int(n as int));
        r
    } else {
        let wide: i64 = n as i64;
        let mag: u64 = (-wide) as u64;
        let digits = render_dec_u64(mag);
        proof {
            reveal_strlit("-");
        }
        let r = "-".to_owned().concat(digits.as_str());
        assert(r@ =~= spec_render_int(n as int));
        r
    }
}

/// A 32-bit value with its four bytes reversed.
pub open spec fn spec_swap_bytes_u32(x: nat) -> nat {
    (x % 256) * 0x1000000 + ((x / 256) % 256) * 0x10000 + ((x / 0x10000) % 256) * 0x100 + ((x
        / 0x1000000) % 256)
}

/// Reverses the four bytes of a 32-bit value.
pub fn swap_bytes_u32(x: u32) -> (r: u32)
    ensures
        r as nat == spec_swap_bytes_u32(x as nat),
{
    let b0 = x % 256;
    let b1 = (x / 256) % 256;
    let b2 = (x / 0x10000) % 256;
    let b3 = x / 0x1000000;
    assert(b3 < 256) by {
        assert(x as nat / 0x1000000 < 256) by (nonlinear_arith)
            requires
                x < 0x1_0000_0000,
        ;
    };
    assert((x as nat / 0x1000000) % 256 == x as nat / 0x1000000);
    b0 * 0x1000000 + b1 * 0x10000 + b2 * 0x100 + b3
}

/// Converts a value read in host order to big-endian byte order, given
/// the host's own order: the identity on a big-endian host, a byte swap
/// otherwise.
pub fn to_big_endian_u32(x: u32, host_big_endian: bool) -> (r: u32)
    ensures
        r as nat == if host_big_endian {
            x as nat
        } else {
            spec_swap_bytes_u32(x as nat)
        },
{
    if host_big_endian {
        x
    } else {
        swap_bytes_u32(x)
    }
}

/// Converts a value read in host order to little-endian byte order,
/// given the host's own order: a byte swap on a big-endian host, the
/// identity otherwise.
pub fn to_little_endian_u32(x: u32, host_big_endian: bool) -> (r: u32)
    ensures
        r as nat == if host_big_endian {
            spec_swap_bytes_u32(x as nat)
        } else {
            x as nat
        },
{
    if host_big_endian {
        swap_bytes_u32(x)
    } else {
        x
    }
}

/// Relies on u16::to_ne_bytes: the first byte of the native-order
/// representation of 0x1234 is 0x12 exactly when the host stores its
/// most significant byte first. The result depends on the machine, so
/// nothing more can be promised of it.
#[verifier::external_body]
fn is_big_endian() -> (r: bool) {
    let probe: u16 = 0x1234;
    probe.to_ne_bytes()[0] == 0x12
}

/// The canonical readable form of a composite `HEXADDR:HEXPORT` field:
/// the address as 8 and the port as 4 zero-padded uppercase hexadecimal
/// digits, joined by a colon. `MalformedAddress` when the field does
/// not split; `CodecError` when a part is not valid hexadecimal or
/// overflows its width (32-bit address, 16-bit port).
pub open spec fn spec_ip_port_readable(s: Seq<char>) -> Result<Seq<char>, NetstatError> {
    match (spec_split_address(s), spec_split_port(s)) {
        (Some(ip), Some(port)) => {
            if is_hex_str(ip) && spec_hex_to_nat(ip) <= u32::MAX && is_hex_str(port)
                && spec_hex_to_nat(port) <= u16::MAX {
                Ok(
                    spec_render_hex(spec_hex_to_nat(ip), 8) + seq![':'] + spec_render_hex(
                        spec_hex_to_nat(port),
                        4,
                    ),
                )
            } else {
                Err(NetstatError::CodecError)
            }
        },
        _ => Err(NetstatError::MalformedAddress),
    }
}

/// The readable `IP:PORT` form of a composite field, computed for a
/// given host byte order. The result is stated over the field alone:
/// the two byte-order branches provably render the same text.
pub fn to_readable_with_order(ip_port: &str, host_big_endian: bool) -> (r: Result<
    String,
    NetstatError,
>)
    ensures
        match spec_ip_port_readable(ip_port@) {
            Ok(t) => r matches Ok(v) && v@ == t,
            Err(e) => r == Err::<String, NetstatError>(e),
        },
{
    let ip_hex = match get_ip(ip_port) {
        Ok(v) => v,
        Err(e) => {
            return Err(e);
        },
    };
    let port_hex = match get_port(ip_port) {
        Ok(v) => v,
        Err(e) => {
            return Err(e);
        },
    };
    let ip_val = match parse_hex_u32(ip_hex.as_str()) {
        Ok(v) => v,
        Err(e) => {
            return Err(e);
        },
    };
    let port_wide = match parse_hex_u32(port_hex.as_str()) {
        Ok(v) => v,
        Err(e) => {
            return Err(e);
        },
    };
    if port_wide > 0xFFFF {
        return Err(NetstatError::CodecError);
    }
    let ip_ordered = if host_big_endian {
        to_big_endian_u32(ip_val, host_big_endian)
    } else {
        to_little_endian_u32(ip_val, host_big_endian)
    };
    let port_ordered = if host_big_endian {
        to_big_endian_u32(port_wide, host_big_endian)
    } else {
        to_little_endian_u32(port_wide, host_big_endian)
    };
    let ip_text = render_hex(ip_ordered, 8);
    let port_text = render_hex(port_ordered, 4);
    proof {
        reveal_strlit(":");
    }
    let r = ip_text.concat(":").concat(port_text.as_str());
    assert(r@ =~= spec_ip_port_readable(ip_port@)->Ok_0);
    Ok(r)
}

/// The readable `IP:PORT` form of a composite field on the running
/// host. The host's byte order is probed once and handed to the
/// order-agnostic codec; the contract does not depend on it.
pub fn ip_port_readable(ip_port: &str) -> (r: Result<String, NetstatError>)
    ensures
        match spec_ip_port_readable(ip_port@) {
            Ok(t) => r matches Ok(v) && v@ == t,
            Err(e) => r == Err::<String, NetstatError>(e),
        },
{
    to_readable_with_order(ip_port, is_big_endian())
}

} // verus!
