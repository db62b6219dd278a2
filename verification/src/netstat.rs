//! Parsing of the kernel's socket tables, used to auto-detect the workspace
//! port the front door should forward to. The table text is read off disk by
//! the caller; everything here works on the text alone: hexadecimal socket
//! addresses, table lines, and the choice of a likely listener.

use vstd::prelude::*;
use vstd::string::StrSliceExecFns;
use vstd::string::StringExecFns;

use crate::scan::{find_char_from, rfind_char_below, spec_find_char, spec_rfind_char};

verus! {

/// A process that owns a socket: its id and its short name.
#[derive(Clone, Debug, PartialEq)]
pub struct Process {
    pub pid: i32,
    pub name: String,
}

/// The socket tables the kernel exposes.
#[derive(Clone, Copy, Debug, PartialEq, Eq, Structural)]
pub enum SockType {
    TCP,
    TCP6,
    UDP,
    UDP6,
}

/// The path of the kernel's table for the given socket type.
pub fn tab_path(sock_type: SockType) -> (r: &'static str)
    ensures
        r@ == match sock_type {
            SockType::TCP => "/proc/net/tcp"@,
            SockType::TCP6 => "/proc/net/tcp6"@,
            SockType::UDP => "/proc/net/udp"@,
            SockType::UDP6 => "/proc/net/udp6"@,
        },
{
    match sock_type {
        SockType::TCP => "/proc/net/tcp",
        SockType::TCP6 => "/proc/net/tcp6",
        SockType::UDP => "/proc/net/udp",
        SockType::UDP6 => "/proc/net/udp6",
    }
}

/// A host address as the socket table encodes it: four octets, or eight
/// 16-bit groups of which the table's compact form fills the low byte each.
#[derive(Clone, Copy, Debug, PartialEq, Eq, Structural)]
pub enum HostAddr {
    V4(u8, u8, u8, u8),
    V6(u16, u16, u16, u16, u16, u16, u16, u16),
}

impl HostAddr {
    /// Whether the address is a loopback address: first octet 127, or the
    /// one six-group address `::1`.
    pub open spec fn spec_is_loopback(self) -> bool {
        match self {
            HostAddr::V4(a, _, _, _) => a == 127,
            HostAddr::V6(a, b, c, d, e, f, g, h) => a == 0 && b == 0 && c == 0 && d == 0 && e == 0
                && f == 0 && g == 0 && h == 1,
        }
    }

    /// Whether the address is the unspecified (all-zero) address.
    pub open spec fn spec_is_unspecified(self) -> bool {
        match self {
            HostAddr::V4(a, b, c, d) => a == 0 && b == 0 && c == 0 && d == 0,
            HostAddr::V6(a, b, c, d, e, f, g, h) => a == 0 && b == 0 && c == 0 && d == 0 && e == 0
                && f == 0 && g == 0 && h == 0,
        }
    }

    pub fn is_loopback(self) -> (r: bool)
        ensures
            r == self.spec_is_loopback(),
    {
        match self {
            HostAddr::V4(a, _, _, _) => a == 127,
            HostAddr::V6(a, b, c, d, e, f, g, h) => a == 0 && b == 0 && c == 0 && d == 0 && e == 0
                && f == 0 && g == 0 && h == 1,
        }
    }

    pub fn is_unspecified(self) -> (r: bool)
        ensures
            r == self.spec_is_unspecified(),
    {
        match self {
            HostAddr::V4(a, b, c, d) => a == 0 && b == 0 && c == 0 && d == 0,
            HostAddr::V6(a, b, c, d, e, f, g, h) => a == 0 && b == 0 && c == 0 && d == 0 && e == 0
                && f == 0 && g == 0 && h == 0,
        }
    }
}

/// A socket endpoint: a host address and a port.
#[derive(Clone, Copy, Debug, PartialEq, Eq, Structural)]
pub struct SockAddr {
    pub host: HostAddr,
    pub port: u16,
}

/// The value of one digit character under the given radix, as
/// `from_str_radix` reads it: decimal digits, then lower- or upper-case
/// letters, rejected when the value reaches the radix.
pub open spec fn spec_digit_value(c: char, radix: nat) -> Option<nat> {
    let u = c as u32;
    let d: Option<nat> = if 48 <= u <= 57 {
        Some((u - 48) as nat)
    } else if 97 <= u <= 102 {
        Some((u - 87) as nat)
    } else if 65 <= u <= 70 {
        Some((u - 55) as nat)
    } else {
        None
    };
    match d {
        Some(v) => if v < radix {
            Some(v)
        } else {
            None
        },
        None => None,
    }
}

/// The value of a non-empty digit string under the given radix; `None` when
/// the string is empty or any character is no digit of the radix.
pub open spec fn spec_uint_value(s: Seq<char>, radix: nat) -> Option<nat>
    decreases s.len(),
{
    if s.len() == 0 {
        None
    } else if s.len() == 1 {
        spec_digit_value(s[0], radix)
    } else {
        match (spec_uint_value(s.drop_last(), radix), spec_digit_value(s.last(), radix)) {
            (Some(v), Some(d)) => Some(v * radix + d),
            _ => None,
        }
    }
}

/// The value of a digit string that may carry one leading plus sign, as the
/// standard library's unsigned `from_str_radix` and `from_str` read it.
pub open spec fn spec_parse_uint(s: Seq<char>, radix: nat) -> Option<nat> {
    if s.len() > 0 && s[0] == '+' {
        spec_uint_value(s.drop_first(), radix)
    } else {
        spec_uint_value(s, radix)
    }
}

/// The value of one digit character under the given radix.
fn digit_value(c: char, radix: u32) -> (r: Option<u32>)
    requires
        radix <= 16,
    ensures
        match r {
            Some(v) => spec_digit_value(c, radix as nat) == Some(v as nat) && v < radix,
            None => spec_digit_value(c, radix as nat) is None,
        },
{
    let u = c as u32;
    let d: Option<u32> = if 48 <= u && u <= 57 {
        Some(u - 48)
    } else if 97 <= u && u <= 102 {
        Some(u - 87)
    } else if 65 <= u && u <= 70 {
        Some(u - 55)
    } else {
        None
    };
    match d {
        Some(v) => if v < radix {
            Some(v)
        } else {
            None
        },
        None => None,
    }
}

/// The value of the first `upto` characters of `s` as digits of the radix.
/// `None` means the prefix is empty, holds a non-digit, or its value does
/// not fit the accumulator.
fn uint_value_prefix(s: &str, upto: usize, radix: u32) -> (r: Option<u128>)
    requires
        upto <= s@.len(),
        2 <= radix <= 16,
    ensures
        match r {
            Some(v) => spec_uint_value(s@.take(upto as int), radix as nat) == Some(v as nat),
            None => spec_uint_value(s@.take(upto as int), radix as nat) is None || (exists|n: nat|
                spec_uint_value(s@.take(upto as int), radix as nat) == Some(n) && n
                    >= 0x1_0000_0000_0000_0000_0000_0000_0000_0000),
        },
    decreases upto,
{
    let ghost t = s@.take(upto as int);
    if upto == 0 {
        assert(t =~= Seq::<char>::empty());
        return None;
    }
    let c = s.get_char(upto - 1);
    assert(t.last() == s@[upto - 1]);
    assert(t.drop_last() =~= s@.take(upto as int - 1));
    let d = match digit_value(c, radix) {
        Some(d) => d,
        None => {
            return None;
        },
    };
    if upto == 1 {
        return Some(d as u128);
    }
    match uint_value_prefix(s, upto - 1, radix) {
        None => {
            proof {
                let r128n = 0x1_0000_0000_0000_0000_0000_0000_0000_0000nat;
                if spec_uint_value(t.drop_last(), radix as nat) is Some {
                    let n0 = spec_uint_value(t.drop_last(), radix as nat).unwrap();
                    assert(n0 >= r128n);
                    assert(n0 * radix + d >= n0) by (nonlinear_arith)
                        requires
                            radix >= 2,
                            n0 >= 0,
                            d >= 0,
                    ;
                    assert(spec_uint_value(t, radix as nat) == Some(
                        n0 * (radix as nat) + (d as nat),
                    ));
                }
            }
            None
        },
        Some(v) => {
            let limit = (u128::MAX - d as u128) / (radix as u128);
            let ghost n = spec_uint_value(s@.take(upto as int - 1), radix as nat).unwrap();
            let ghost r128 = 0x1_0000_0000_0000_0000_0000_0000_0000_0000int;
            proof {
                vstd::arithmetic::div_mod::lemma_fundamental_div_mod(r128 - 1 - d, radix as int);
                vstd::arithmetic::div_mod::lemma_mod_bound(r128 - 1 - d, radix as int);
                assert(limit == (r128 - 1 - d) / (radix as int));
            }
            if v > limit {
                proof {
                    assert(n * radix + d >= r128) by (nonlinear_arith)
                        requires
                            n > limit,
                            radix >= 2,
                            d >= 0,
                            limit >= 0,
                            r128 - 1 - d == (radix as int) * limit + ((r128 - 1 - d) % (
                            radix as int)),
                            0 <= (r128 - 1 - d) % (radix as int) < radix,
                    ;
                }
                None
            } else {
                proof {
                    assert(n * radix + d < r128) by (nonlinear_arith)
                        requires
                            0 <= n <= limit,
                            radix >= 2,
                            d >= 0,
                            r128 - 1 - d == (radix as int) * limit + ((r128 - 1 - d) % (
                            radix as int)),
                            0 <= (r128 - 1 - d) % (radix as int) < radix,
                    ;
                    assert(v as nat == n);
                    assert(spec_uint_value(t.drop_last(), radix as nat) == Some(n));
                    assert(spec_digit_value(t.last(), radix as nat) == Some(d as nat));
                    assert(spec_uint_value(t, radix as nat) == Some(
                        n * (radix as nat) + (d as nat),
                    ));
                }
                Some(v * radix as u128 + d as u128)
            }
        },
    }
}

/// The value of `s` as an unsigned number written in the given radix, with
/// one optional leading plus sign. `None` means the string is malformed or
/// its value does not fit the accumulator.
pub fn parse_uint(s: &str, radix: u32) -> (r: Option<u128>)
    requires
        2 <= radix <= 16,
    ensures
        match r {
            Some(v) => spec_parse_uint(s@, radix as nat) == Some(v as nat),
            None => spec_parse_uint(s@, radix as nat) is None || (exists|n: nat|
                spec_parse_uint(s@, radix as nat) == Some(n) && n
                    >= 0x1_0000_0000_0000_0000_0000_0000_0000_0000),
        },
{
    let len = s.unicode_len();
    if len > 0 && s.get_char(0) == '+' {
        let digits = s.substring_char(1, len);
        assert(digits@ =~= s@.drop_first());
        let n = digits.unicode_len();
        assert(digits@.take(n as int) =~= digits@);
        uint_value_prefix(digits, n, radix)
    } else {
        assert(s@.take(len as int) =~= s@);
        uint_value_prefix(s, len, radix)
    }
}

/// The socket address written by a 13-character entry of an IPv4 table:
/// eight hexadecimal digits of the address in network order, a colon, and
/// four hexadecimal digits of the port. The split is at the first colon and
/// the address value is taken modulo `2^32`, so any 13-character entry whose
/// two sides read as hexadecimal numbers fitting 64 and 16 bits is accepted.
pub open spec fn spec_parse_v4(s: Seq<char>) -> Option<SockAddr> {
    if s.len() != 13 {
        None
    } else {
        match spec_find_char(s, ':') {
            None => None,
            Some(p) => {
                let ipv = spec_parse_uint(s.take(p), 16);
                let portv = spec_parse_uint(s.skip(p + 1), 16);
                match (ipv, portv) {
                    (Some(ip), Some(port)) => if ip < 0x1_0000_0000_0000_0000 && port < 0x10000 {
                        Some(
                            SockAddr {
                                host: HostAddr::V4(
                                    ((ip / 0x100_0000) % 0x100) as u8,
                                    ((ip / 0x1_0000) % 0x100) as u8,
                                    ((ip / 0x100) % 0x100) as u8,
                                    (ip % 0x100) as u8,
                                ),
                                port: port as u16,
                            },
                        )
                    } else {
                        None
                    },
                    _ => None,
                }
            },
        }
    }
}

/// Parses a 13-character IPv4 socket-table entry.
pub fn parse_v4(sock: &str) -> (r: Result<SockAddr, ()>)
    ensures
        match r {
            Ok(a) => spec_parse_v4(sock@) == Some(a),
            Err(_) => spec_parse_v4(sock@) is None,
        },
{
    let len = s_len(sock);
    if len != 13 {
        return Err(());
    }
    assert(sock@.skip(0) =~= sock@);
    let p = match find_char_from(sock, ':', 0) {
        None => {
            return Err(());
        },
        Some(p) => p,
    };
    let ip_str = sock.substring_char(0, p);
    let port_str = sock.substring_char(p + 1, len);
    assert(ip_str@ =~= sock@.take(p as int));
    assert(port_str@ =~= sock@.skip(p as int + 1));
    let ip128 = match parse_uint(ip_str, 16) {
        None => {
            return Err(());
        },
        Some(v) => v,
    };
    if ip128 >= 0x1_0000_0000_0000_0000 {
        return Err(());
    }
    let port128 = match parse_uint(port_str, 16) {
        None => {
            return Err(());
        },
        Some(v) => v,
    };
    if port128 >= 0x10000 {
        return Err(());
    }
    let ip = ip128 as u64;
    Ok(
        SockAddr {
            host: HostAddr::V4(
                ((ip / 0x100_0000) % 0x100) as u8,
                ((ip / 0x1_0000) % 0x100) as u8,
                ((ip / 0x100) % 0x100) as u8,
                (ip % 0x100) as u8,
            ),
            port: port128 as u16,
        },
    )
}

/// The socket address written by a 37-character entry of an IPv6 table. Only
/// the low sixteen of the thirty-two hexadecimal digits contribute: each of
/// the eight groups is the corresponding byte of the value, highest byte
/// first.
pub open spec fn spec_parse_v6(s: Seq<char>) -> Option<SockAddr> {
    if s.len() != 37 {
        None
    } else {
        match spec_find_char(s, ':') {
            None => None,
            Some(p) => {
                let ipv = spec_parse_uint(s.take(p), 16);
                let portv = spec_parse_uint(s.skip(p + 1), 16);
                match (ipv, portv) {
                    (Some(ip), Some(port)) => if ip < 0x1_0000_0000_0000_0000_0000_0000_0000_0000
                        && port < 0x10000 {
                        Some(
                            SockAddr {
                                host: HostAddr::V6(
                                    ((ip / 0x100_0000_0000_0000) % 0x100) as u16,
                                    ((ip / 0x1_0000_0000_0000) % 0x100) as u16,
                                    ((ip / 0x100_0000_0000) % 0x100) as u16,
                                    ((ip / 0x1_0000_0000) % 0x100) as u16,
                                    ((ip / 0x100_0000) % 0x100) as u16,
                                    ((ip / 0x1_0000) % 0x100) as u16,
                                    ((ip / 0x100) % 0x100) as u16,
                                    (ip % 0x100) as u16,
                                ),
                                port: port as u16,
                            },
                        )
                    } else {
                        None
                    },
                    _ => None,
                }
            },
        }
    }
}

/// Parses a 37-character IPv6 socket-table entry.
pub fn parse_v6(sock: &str) -> (r: Result<SockAddr, ()>)
    ensures
        match r {
            Ok(a) => spec_parse_v6(sock@) == Some(a),
            Err(_) => spec_parse_v6(sock@) is None,
        },
{
    let len = s_len(sock);
    if len != 37 {
        return Err(());
    }
    assert(sock@.skip(0) =~= sock@);
    let p = match find_char_from(sock, ':', 0) {
        None => {
            return Err(());
        },
        Some(p) => p,
    };
    let ip_str = sock.substring_char(0, p);
    let port_str = sock.substring_char(p + 1, len);
    assert(ip_str@ =~= sock@.take(p as int));
    assert(port_str@ =~= sock@.skip(p as int + 1));
    let ip = match parse_uint(ip_str, 16) {
        None => {
            return Err(());
        },
        Some(v) => v,
    };
    let port128 = match parse_uint(port_str, 16) {
        None => {
            return Err(());
        },
        Some(v) => v,
    };
    if port128 >= 0x10000 {
        return Err(());
    }
    Ok(
        SockAddr {
            host: HostAddr::V6(
                ((ip / 0x100_0000_0000_0000) % 0x100) as u16,
                ((ip / 0x1_0000_0000_0000) % 0x100) as u16,
                ((ip / 0x100_0000_0000) % 0x100) as u16,
                ((ip / 0x1_0000_0000) % 0x100) as u16,
                ((ip / 0x100_0000) % 0x100) as u16,
                ((ip / 0x1_0000) % 0x100) as u16,
                ((ip / 0x100) % 0x100) as u16,
                (ip % 0x100) as u16,
            ),
            port: port128 as u16,
        },
    )
}

/// The socket address written by a table entry of either family: the IPv4
/// reading where it applies, else the IPv6 reading.
pub open spec fn spec_parse_addr(s: Seq<char>) -> Option<SockAddr> {
    match spec_parse_v4(s) {
        Some(a) => Some(a),
        None => spec_parse_v6(s),
    }
}

/// Parses a socket-table address entry of either family.
pub fn parse(ip: &str) -> (r: Result<SockAddr, ()>)
    ensures
        match r {
            Ok(a) => spec_parse_addr(ip@) == Some(a),
            Err(_) => spec_parse_addr(ip@) is None,
        },
{
    match parse_v4(ip) {
        Ok(a) => Ok(a),
        Err(_) => parse_v6(ip),
    }
}

/// The number of characters of `s`.
fn s_len(s: &str) -> (r: usize)
    ensures
        r == s@.len(),
{
    s.unicode_len()
}

/// The name written between the first `(` and the last `)` of a process's
/// stat line. A missing `(` makes the name start at the second character and
/// a missing `)` makes it end at the start; the range from just past the `(`
/// to the `)` must be a valid one.
pub fn get_proc_name(string: String) -> (r: String)
    requires
        ({
            let start = (match spec_find_char(string@, '(') {
                Some(p) => p,
                None => 0,
            }) + 1;
            let end = match spec_rfind_char(string@, ')') {
                Some(q) => q,
                None => 0,
            };
            start <= end
        }),
    ensures
        ({
            let start = (match spec_find_char(string@, '(') {
                Some(p) => p,
                None => 0,
            }) + 1;
            let end = match spec_rfind_char(string@, ')') {
                Some(q) => q,
                None => 0,
            };
            r@ == string@.subrange(start, end)
        }),
{
    let s = string.as_str();
    let len = s.unicode_len();
    assert(s@.skip(0) =~= s@);
    assert(s@.take(len as int) =~= s@);
    let start = match find_char_from(s, '(', 0) {
        Some(p) => p + 1,
        None => 1,
    };
    let end = match rfind_char_below(s, ')', len) {
        Some(q) => q,
        None => 0,
    };
    s.substring_char(start, end).to_owned()
}

/// The separators between a table line's fields.
pub open spec fn is_space_char(c: char) -> bool {
    c == ' ' || c == '\t' || c == '\n' || c == '\r' || c == '\x0b' || c == '\x0c'
}

/// The length of the field at the front of `s`: the run of non-separator
/// characters.
pub open spec fn spec_token_len(s: Seq<char>) -> nat
    decreases s.len(),
{
    if s.len() == 0 || is_space_char(s[0]) {
        0
    } else {
        1 + spec_token_len(s.drop_first())
    }
}

/// The front field never runs past the end of the text.
pub proof fn lemma_token_len_bound(s: Seq<char>)
    ensures
        spec_token_len(s) <= s.len(),
    decreases s.len(),
{
    if s.len() > 0 && !is_space_char(s[0]) {
        lemma_token_len_bound(s.drop_first());
    }
}

/// A run of `k` non-separator characters, ended by the text's end or a
/// separator, is exactly the front field.
pub proof fn lemma_token_run(s: Seq<char>, k: int)
    requires
        0 <= k <= s.len(),
        forall|m: int| 0 <= m < k ==> !is_space_char(s[m]),
        k == s.len() || is_space_char(s[k]),
    ensures
        spec_token_len(s) == k,
    decreases k,
{
    if k > 0 {
        assert(!is_space_char(s[0]));
        assert(forall|m: int| 0 <= m < k - 1 ==> s.drop_first()[m] == s[m + 1]);
        if k < s.len() {
            assert(s.drop_first()[k - 1] == s[k]);
        }
        lemma_token_run(s.drop_first(), k - 1);
    }
}

/// The fields of a table line: the maximal runs of non-separator characters,
/// in order.
pub open spec fn spec_tokens(s: Seq<char>) -> Seq<Seq<char>>
    decreases s.len(),
    via spec_tokens_decreases
{
    if s.len() == 0 {
        Seq::empty()
    } else if is_space_char(s[0]) {
        spec_tokens(s.drop_first())
    } else {
        seq![s.take(spec_token_len(s) as int)] + spec_tokens(s.skip(spec_token_len(s) as int))
    }
}

#[via_fn]
proof fn spec_tokens_decreases(s: Seq<char>) {
    lemma_token_len_bound(s);
}

/// The views of a sequence of borrowed strings.
pub open spec fn spec_strs(v: Seq<&str>) -> Seq<Seq<char>> {
    v.map_values(|t: &str| t@)
}

/// Is `c` a separator between fields?
fn is_space(c: char) -> (r: bool)
    ensures
        r == is_space_char(c),
{
    c == ' ' || c == '\t' || c == '\n' || c == '\r' || c == '\x0b' || c == '\x0c'
}

/// Splits a table line into its fields: the maximal runs of characters that
/// are not ASCII whitespace, in order.
pub fn split_fields<'a>(s: &'a str) -> (r: Vec<&'a str>)
    ensures
        spec_strs(r@) == spec_tokens(s@),
{
    let len = s.unicode_len();
    let mut r: Vec<&str> = Vec::new();
    let mut i: usize = 0;
    assert(s@.skip(0) =~= s@);
    while i < len
        invariant
            i <= len,
            len == s@.len(),
            spec_strs(r@) + spec_tokens(s@.skip(i as int)) == spec_tokens(s@),
        decreases len - i,
    {
        let c = s.get_char(i);
        assert(s@.skip(i as int)[0] == s@[i as int]);
        if is_space(c) {
            assert(s@.skip(i as int).drop_first() =~= s@.skip(i as int + 1));
            i = i + 1;
        } else {
            let ghost rest = s@.skip(i as int);
            let mut j: usize = i + 1;
            while j < len && !is_space(s.get_char(j))
                invariant
                    i < j <= len,
                    len == s@.len(),
                    forall|m: int| i <= m < j ==> !is_space_char(s@[m]),
                decreases len - j,
            {
                j = j + 1;
            }
            proof {
                assert(forall|m: int| 0 <= m < j - i ==> rest[m] == s@[m + i]);
                if j < len {
                    assert(rest[j - i] == s@[j as int]);
                }
                lemma_token_run(rest, j - i);
            }
            let field = s.substring_char(i, j);
            assert(field@ =~= rest.take(spec_token_len(rest) as int));
            let ghost old_r = r@;
            r.push(field);
            proof {
                assert(spec_strs(r@) =~= spec_strs(old_r) + seq![field@]);
                assert(rest.skip(spec_token_len(rest) as int) =~= s@.skip(j as int));
                assert(spec_strs(r@) + spec_tokens(s@.skip(j as int)) =~= spec_strs(old_r) + (
                seq![field@] + spec_tokens(s@.skip(j as int))));
            }
            i = j;
        }
    }
    assert(s@.skip(len as int) =~= Seq::<char>::empty());
    assert(spec_strs(r@) =~= spec_strs(r@) + spec_tokens(s@.skip(len as int)));
    r
}

/// One entry parsed out of a socket-table line, before the owning process is
/// looked up.
#[derive(Clone, Debug, PartialEq)]
pub struct SockLine {
    /// The socket's inode, as written in the table.
    pub ino: String,
    pub local_addr: SockAddr,
    pub remote_addr: SockAddr,
    /// The socket state, read from its hexadecimal field.
    pub state: u8,
    /// The owning user, read from its decimal field.
    pub uid: u32,
}

/// The mathematical image of a [`SockLine`].
#[verifier::ext_equal]
pub struct SockLineV {
    pub ino: Seq<char>,
    pub local_addr: SockAddr,
    pub remote_addr: SockAddr,
    pub state: u8,
    pub uid: u32,
}

impl View for SockLine {
    type V = SockLineV;

    open spec fn view(&self) -> SockLineV {
        SockLineV {
            ino: self.ino@,
            local_addr: self.local_addr,
            remote_addr: self.remote_addr,
            state: self.state,
            uid: self.uid,
        }
    }
}

/// The entry a socket-table line describes, if it parses: everything past a
/// `#` is dropped, the line must have at least twelve fields, the second and
/// third hold the local and remote addresses, the fourth the hexadecimal
/// state, the eighth the decimal owning user, and the tenth the inode.
pub open spec fn spec_parse_sock_line(line: Seq<char>) -> Option<SockLineV> {
    let content = match spec_find_char(line, '#') {
        Some(h) => line.take(h),
        None => line,
    };
    let fields = spec_tokens(content);
    if fields.len() < 12 {
        None
    } else {
        let local = spec_parse_addr(fields[1]);
        let remote = spec_parse_addr(fields[2]);
        let state = spec_parse_uint(fields[3], 16);
        let uid = spec_parse_uint(fields[7], 10);
        if local is Some && remote is Some && state is Some && state.unwrap() < 0x100 && uid is Some
            && uid.unwrap() < 0x1_0000_0000 {
            Some(
                SockLineV {
                    ino: fields[9],
                    local_addr: local.unwrap(),
                    remote_addr: remote.unwrap(),
                    state: state.unwrap() as u8,
                    uid: uid.unwrap() as u32,
                },
            )
        } else {
            None
        }
    }
}

/// Parses one socket-table line.
pub fn parse_sock_line(line: &str) -> (r: Option<SockLine>)
    ensures
        match r {
            Some(e) => spec_parse_sock_line(line@) == Some(e@),
            None => spec_parse_sock_line(line@) is None,
        },
{
    let len = s_len(line);
    assert(line@.skip(0) =~= line@);
    let content: &str = match find_char_from(line, '#', 0) {
        Some(h) => {
            let c = line.substring_char(0, h);
            assert(c@ =~= line@.take(h as int));
            c
        },
        None => line,
    };
    let fields = split_fields(content);
    if fields.len() < 12 {
        return None;
    }
    assert(fields@[1]@ == spec_tokens(content@)[1]);
    assert(fields@[2]@ == spec_tokens(content@)[2]);
    assert(fields@[3]@ == spec_tokens(content@)[3]);
    assert(fields@[7]@ == spec_tokens(content@)[7]);
    assert(fields@[9]@ == spec_tokens(content@)[9]);
    let local = match parse(fields[1]) {
        Ok(a) => a,
        Err(_) => {
            return None;
        },
    };
    let remote = match parse(fields[2]) {
        Ok(a) => a,
        Err(_) => {
            return None;
        },
    };
    let state = match parse_uint(fields[3], 16) {
        Some(v) if v < 0x100 => v as u8,
        _ => {
            return None;
        },
    };
    let uid = match parse_uint(fields[7], 10) {
        Some(v) if v < 0x1_0000_0000 => v as u32,
        _ => {
            return None;
        },
    };
    Some(
        SockLine {
            ino: fields[9].to_owned(),
            local_addr: local,
            remote_addr: remote,
            state,
            uid,
        },
    )
}

/// The lines of a text, split on newlines; a trailing newline yields a final
/// empty line, as the standard split does.
pub open spec fn spec_lines(s: Seq<char>) -> Seq<Seq<char>>
    decreases s.len(),
    via spec_lines_decreases
{
    match spec_find_char(s, '\n') {
        None => seq![s],
        Some(p) => seq![s.take(p)] + spec_lines(s.skip(p + 1)),
    }
}

#[via_fn]
proof fn spec_lines_decreases(s: Seq<char>) {
    crate::scan::lemma_find_char(s, '\n');
}

/// The entries of the given table lines, in order, keeping only the lines
/// that parse.
pub open spec fn spec_sock_entries(lines: Seq<Seq<char>>) -> Seq<SockLineV>
    decreases lines.len(),
{
    if lines.len() == 0 {
        Seq::empty()
    } else {
        match spec_parse_sock_line(lines[0]) {
            Some(e) => seq![e] + spec_sock_entries(lines.drop_first()),
            None => spec_sock_entries(lines.drop_first()),
        }
    }
}

/// The entries of a whole socket table: its title line is skipped, and every
/// following line that parses contributes one entry.
pub open spec fn spec_parse_sock_tab(s: Seq<char>) -> Seq<SockLineV> {
    spec_sock_entries(spec_lines(s).drop_first())
}

/// The views of a sequence of entries.
pub open spec fn spec_sock_lines(v: Seq<SockLine>) -> Seq<SockLineV> {
    v.map_values(|e: SockLine| e@)
}

/// Parses a socket table: the title line is skipped, and each following
/// line that parses yields one entry, in order. The owning processes are not
/// resolved here; the caller joins each entry's inode against the
/// file-descriptor tables it can read.
pub fn parse_sock_tab(sock_tab: String) -> (r: Vec<SockLine>)
    ensures
        spec_sock_lines(r@) == spec_parse_sock_tab(sock_tab@),
{
    let s = sock_tab.as_str();
    let len = s.unicode_len();
    let mut r: Vec<SockLine> = Vec::new();
    assert(s@.skip(0) =~= s@);
    let mut i: usize = match find_char_from(s, '\n', 0) {
        None => {
            assert(spec_lines(s@) =~= seq![s@]);
            assert(spec_sock_lines(r@) =~= spec_parse_sock_tab(sock_tab@));
            return r;
        },
        Some(p) => {
            assert(spec_lines(s@) =~= seq![s@.take(p as int)] + spec_lines(s@.skip(p as int + 1)));
            assert(spec_lines(s@).drop_first() =~= spec_lines(s@.skip(p as int + 1)));
            p + 1
        },
    };
    loop
        invariant
            i <= len,
            len == s@.len(),
            s@ == sock_tab@,
            spec_sock_lines(r@) + spec_sock_entries(spec_lines(s@.skip(i as int)))
                == spec_parse_sock_tab(sock_tab@),
        decreases len - i,
    {
        let ghost rest = s@.skip(i as int);
        let (line, next, last): (&str, usize, bool) = match find_char_from(s, '\n', i) {
            None => {
                let l = s.substring_char(i, len);
                assert(spec_lines(rest) =~= seq![rest]);
                assert(l@ =~= rest);
                (l, len, true)
            },
            Some(q) => {
                let l = s.substring_char(i, q);
                assert(l@ =~= rest.take(q - i));
                assert(rest.skip(q - i + 1) =~= s@.skip(q as int + 1));
                assert(spec_lines(rest) =~= seq![l@] + spec_lines(s@.skip(q as int + 1)));
                (l, q + 1, false)
            },
        };
        let ghost old_r = r@;
        match parse_sock_line(line) {
            Some(e) => {
                r.push(e);
                assert(spec_sock_lines(r@) =~= spec_sock_lines(old_r) + seq![e@]);
            },
            None => {
            },
        }
        proof {
            if !last {
                assert(spec_lines(rest).drop_first() =~= spec_lines(s@.skip(next as int)));
                assert(spec_sock_entries(spec_lines(rest)) == (match spec_parse_sock_line(line@) {
                    Some(e) => seq![e] + spec_sock_entries(spec_lines(s@.skip(next as int))),
                    None => spec_sock_entries(spec_lines(s@.skip(next as int))),
                }));
                if spec_parse_sock_line(line@) is Some {
                    assert(spec_sock_lines(r@) + spec_sock_entries(spec_lines(s@.skip(next as int)))
                        =~= spec_sock_lines(old_r) + spec_sock_entries(spec_lines(rest)));
                }
            } else {
                assert(spec_lines(rest).drop_first() =~= Seq::<Seq<char>>::empty());
                assert(spec_sock_entries(Seq::<Seq<char>>::empty()) =~= Seq::<SockLineV>::empty());
                if spec_parse_sock_line(line@) is Some {
                    assert(spec_sock_entries(spec_lines(rest)) =~= seq![
                        spec_parse_sock_line(line@).unwrap(),
                    ]);
                    assert(spec_sock_lines(r@) =~= spec_sock_lines(old_r) + spec_sock_entries(
                        spec_lines(rest),
                    ));
                } else {
                    assert(spec_sock_entries(spec_lines(rest)) =~= Seq::<SockLineV>::empty());
                    assert(spec_sock_lines(r@) =~= spec_sock_lines(old_r));
                }
            }
        }
        if last {
            return r;
        }
        i = next;
    }
}

/// A socket-table entry joined with the process that owns the socket.
#[derive(Clone, Debug, PartialEq)]
pub struct SockTabEntry {
    pub ino: String,
    pub local_addr: SockAddr,
    pub remote_addr: SockAddr,
    pub state: u8,
    pub uid: u32,
    pub process: Process,
}

/// Whether an entry looks like the workspace's own listener: a listening
/// socket (state ten) bound to a loopback or unspecified address.
pub open spec fn spec_is_candidate(e: SockTabEntry) -> bool {
    e.state == 10 && (e.local_addr.host.spec_is_loopback() || e.local_addr.host.spec_is_unspecified())
}

/// The ports of the candidate listeners among the entries, in order.
pub open spec fn spec_candidate_ports(entries: Seq<SockTabEntry>) -> Seq<u16>
    decreases entries.len(),
{
    if entries.len() == 0 {
        Seq::empty()
    } else {
        if spec_is_candidate(entries[0]) {
            seq![entries[0].local_addr.port] + spec_candidate_ports(entries.drop_first())
        } else {
            spec_candidate_ports(entries.drop_first())
        }
    }
}

/// Every prefix holds at most as many candidates as the whole.
proof fn lemma_candidate_ports_take(entries: Seq<SockTabEntry>, i: int)
    requires
        0 <= i < entries.len(),
    ensures
        spec_candidate_ports(entries.take(i + 1)) == if spec_is_candidate(entries[i]) {
            spec_candidate_ports(entries.take(i)).push(entries[i].local_addr.port)
        } else {
            spec_candidate_ports(entries.take(i))
        },
    decreases i,
{
    if i == 0 {
        assert(entries.take(0) =~= Seq::<SockTabEntry>::empty());
        assert(spec_candidate_ports(Seq::<SockTabEntry>::empty()) == Seq::<u16>::empty());
        assert(entries.take(1) =~= seq![entries[0]]);
        assert(seq![entries[0]].drop_first() =~= Seq::<SockTabEntry>::empty());
        if spec_is_candidate(entries[0]) {
            assert(spec_candidate_ports(entries.take(1)) == seq![entries[0].local_addr.port]
                + Seq::<u16>::empty());
            assert(spec_candidate_ports(entries.take(1)) =~= spec_candidate_ports(
                entries.take(0),
            ).push(entries[0].local_addr.port));
        } else {
            assert(spec_candidate_ports(entries.take(1)) =~= spec_candidate_ports(entries.take(0)));
        }
    } else {
        let t = entries.take(i + 1);
        assert(t[0] == entries[0]);
        assert(t.drop_first() =~= entries.drop_first().take(i));
        assert(entries.take(i)[0] == entries[0]);
        assert(entries.take(i).drop_first() =~= entries.drop_first().take(i - 1));
        assert(entries.drop_first()[i - 1] == entries[i]);
        lemma_candidate_ports_take(entries.drop_first(), i - 1);
        if spec_is_candidate(entries[0]) {
            assert(spec_candidate_ports(t) =~= seq![entries[0].local_addr.port]
                + spec_candidate_ports(entries.drop_first().take(i)));
            if spec_is_candidate(entries[i]) {
                assert(spec_candidate_ports(t) =~= spec_candidate_ports(entries.take(i)).push(
                    entries[i].local_addr.port,
                ));
            } else {
                assert(spec_candidate_ports(t) =~= spec_candidate_ports(entries.take(i)));
            }
        } else {
            if spec_is_candidate(entries[i]) {
                assert(spec_candidate_ports(t) =~= spec_candidate_ports(entries.take(i)).push(
                    entries[i].local_addr.port,
                ));
            } else {
                assert(spec_candidate_ports(t) =~= spec_candidate_ports(entries.take(i)));
            }
        }
    }
}

/// Picks the port to intercept: the port of the single candidate listener,
/// or nothing when no candidate is found. With two or more candidates the
/// choice is left open, so such inputs are not accepted here; callers that
/// may face them name the port explicitly instead.
pub fn pick_port(entries: &Vec<SockTabEntry>) -> (r: Option<u16>)
    requires
        spec_candidate_ports(entries@).len() <= 1,
    ensures
        ({
            let cands = spec_candidate_ports(entries@);
            r == if cands.len() == 1 {
                Some(cands[0])
            } else {
                None::<u16>
            }
        }),
{
    let mut found: Option<u16> = None;
    let mut i: usize = 0;
    assert(entries@.take(0) =~= Seq::<SockTabEntry>::empty());
    while i < entries.len()
        invariant
            i <= entries@.len(),
            ({
                let cands = spec_candidate_ports(entries@.take(i as int));
                found == if cands.len() >= 1 {
                    Some(cands[0])
                } else {
                    None::<u16>
                }
            }),
        decreases entries@.len() - i,
    {
        let e = &entries[i];
        proof {
            lemma_candidate_ports_take(entries@, i as int);
        }
        if e.state == 10 && (e.local_addr.host.is_loopback() || e.local_addr.host.is_unspecified())
        {
            if found.is_none() {
                found = Some(e.local_addr.port);
            }
        }
        proof {
            let cands_i = spec_candidate_ports(entries@.take(i as int));
            let cands_i1 = spec_candidate_ports(entries@.take(i as int + 1));
            if spec_is_candidate(entries@[i as int]) {
                assert(cands_i1 == cands_i.push(entries@[i as int].local_addr.port));
                assert(cands_i1[0] == if cands_i.len() >= 1 {
                    cands_i[0]
                } else {
                    entries@[i as int].local_addr.port
                });
            }
        }
        i = i + 1;
    }
    assert(entries@.take(entries@.len() as int) =~= entries@);
    found
}

/// The name a process's file-descriptor link carries when it points at the
/// socket with the given inode: `socket:[inode]`.
pub fn socket_link_name(inode: &str) -> (r: String)
    ensures
        r@ == "socket:["@ + inode@ + "]"@,
{
    let mut s = String::new();
    s.append("socket:[");
    s.append(inode);
    s.append("]");
    assert(s@ =~= "socket:["@ + inode@ + "]"@);
    s
}

} // verus!
