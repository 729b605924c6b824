//! Network addresses as plain values.

use vstd::prelude::*;

use crate::text::{append_decimal, decimal, decimal_text, hex_digit};

verus! {

/// An IP address: four bytes, or the number that sixteen bytes form.
#[derive(Debug, Clone, Copy, PartialEq, Eq, Structural)]
pub enum IpAddr {
    V4(u8, u8, u8, u8),
    V6(u128),
}

/// The last `k` groups of sixteen bits of a number, the most significant first.
pub open spec fn groups_of(n: u128, k: nat) -> Seq<u16>
    decreases k,
{
    if k == 0 {
        Seq::empty()
    } else {
        groups_of(n / 65536, (k - 1) as nat).push((n % 65536) as u16)
    }
}

/// A number in hexadecimal digits, without leading zeros.
pub open spec fn hex_text(v: u16) -> Seq<char>
    decreases v,
{
    if v < 16 {
        seq![hex_digit(v as u128)]
    } else {
        hex_text(v / 16).push(hex_digit((v % 16) as u128))
    }
}

/// Groups in hexadecimal digits, with colons between them.
pub open spec fn groups_text(groups: Seq<u16>) -> Seq<char>
    decreases groups.len(),
{
    if groups.len() == 0 {
        Seq::empty()
    } else if groups.len() == 1 {
        hex_text(groups[0])
    } else {
        groups_text(groups.drop_last()) + ":"@ + hex_text(groups.last())
    }
}

/// The number of zeros that stand in a row from place `i` on.
pub open spec fn zeros_at(groups: Seq<u16>, i: int) -> nat
    decreases groups.len() - i,
{
    if 0 <= i < groups.len() && groups[i] == 0 {
        1 + zeros_at(groups, i + 1)
    } else {
        0
    }
}

/// Of the rows of zeros that start before place `i` the longest, and of those the first: where
/// it starts, and how long it is.
pub open spec fn longest_zeros(groups: Seq<u16>, i: int) -> (int, nat)
    decreases i,
{
    if i <= 0 {
        (0, 0)
    } else {
        let before = longest_zeros(groups, i - 1);
        if zeros_at(groups, i - 1) > before.1 {
            (i - 1, zeros_at(groups, i - 1))
        } else {
            before
        }
    }
}

/// Four bytes in words.
pub open spec fn bytes_text(a: u8, b: u8, c: u8, d: u8) -> Seq<char> {
    decimal_text(a as nat) + "."@ + decimal_text(b as nat) + "."@ + decimal_text(c as nat) + "."@
        + decimal_text(d as nat)
}

/// The four bytes of the IPv4 address that an IPv6 address stands for, where it does:
/// `::ffff:0:0/96`.
pub open spec fn mapped_bytes(n: u128) -> Option<(u8, u8, u8, u8)> {
    if n / 0x1_0000_0000 == 0xffff {
        Some(
            (
                (n / 0x100_0000 % 256) as u8,
                (n / 0x1_0000 % 256) as u8,
                (n / 0x100 % 256) as u8,
                (n % 256) as u8,
            ),
        )
    } else {
        None
    }
}

/// Sixteen bytes in words: groups of hexadecimal digits with colons between them. Two colons
/// stand for the longest row of two or more groups that are zero, the first where there are
/// several.
pub open spec fn sixteen_text(n: u128) -> Seq<char> {
    let groups = groups_of(n, 8);
    let (start, len) = longest_zeros(groups, 8);
    if len > 1 {
        groups_text(groups.take(start)) + "::"@ + groups_text(groups.skip(start + len))
    } else {
        groups_text(groups)
    }
}

fn split_groups(n: u128, k: usize) -> (r: Vec<u16>)
    ensures
        r@ == groups_of(n, k as nat),
        r@.len() == k,
    decreases k,
{
    if k == 0 {
        Vec::new()
    } else {
        let mut groups = split_groups(n / 65536, k - 1);
        groups.push((n % 65536) as u16);
        groups
    }
}

pub(crate) fn append_hex(out: &mut String, v: u16)
    ensures
        final(out)@ == old(out)@ + hex_text(v),
    decreases v,
{
    let ghost before = out@;
    if v >= 16 {
        append_hex(out, v / 16);
    }
    let d: u8 = (v % 16) as u8;
    if d < 10 {
        out.push((48 + d) as char);
    } else {
        out.push((87 + d) as char);
    }
    proof {
        assert(out@ =~= before + hex_text(v));
    }
}

/// Appends the groups from place `from` up to place `to`.
fn append_groups(out: &mut String, groups: &Vec<u16>, from: usize, to: usize)
    requires
        from <= to <= groups@.len(),
    ensures
        final(out)@ == old(out)@ + groups_text(groups@.subrange(from as int, to as int)),
    decreases to - from,
{
    let ghost before = out@;
    let ghost part = groups@.subrange(from as int, to as int);
    if to > from {
        proof {
            assert(part.drop_last() =~= groups@.subrange(from as int, to - 1));
        }
        if to - from > 1 {
            append_groups(out, groups, from, to - 1);
            out.append(":");
        }
        append_hex(out, groups[to - 1]);
    }
    proof {
        assert(out@ =~= before + groups_text(part));
    }
}

fn count_zeros(groups: &Vec<u16>, i: usize) -> (r: usize)
    requires
        i <= groups@.len(),
    ensures
        r == zeros_at(groups@, i as int),
        i + r <= groups@.len(),
    decreases groups@.len() - i,
{
    if i < groups.len() && groups[i] == 0 {
        1 + count_zeros(groups, i + 1)
    } else {
        0
    }
}

fn find_longest_zeros(groups: &Vec<u16>) -> (r: (usize, usize))
    ensures
        (r.0 as int, r.1 as nat) == longest_zeros(groups@, groups@.len() as int),
        r.0 + r.1 <= groups@.len(),
{
    let mut start: usize = 0;
    let mut len: usize = 0;
    let mut i: usize = 0;
    while i < groups.len()
        invariant
            i <= groups@.len(),
            (start as int, len as nat) == longest_zeros(groups@, i as int),
            start + len <= groups@.len(),
        decreases groups@.len() - i,
    {
        let here: usize = count_zeros(groups, i);
        if here > len {
            start = i;
            len = here;
        }
        i += 1;
    }
    (start, len)
}

fn bytes_words(a: u8, b: u8, c: u8, d: u8) -> (r: String)
    ensures
        r@ == bytes_text(a, b, c, d),
{
    let mut text = decimal(a as u64);
    text.append(".");
    append_decimal(&mut text, b as u64);
    text.append(".");
    append_decimal(&mut text, c as u64);
    text.append(".");
    append_decimal(&mut text, d as u64);
    text
}

fn sixteen_words(n: u128) -> (r: String)
    ensures
        r@ == sixteen_text(n),
{
    let groups = split_groups(n, 8);
    let (start, len) = find_longest_zeros(&groups);
    let mut text = String::new();
    proof {
        assert(groups@.subrange(0, start as int) =~= groups@.take(start as int));
        assert(groups@.subrange(start + len, 8) =~= groups@.skip(start + len));
        assert(groups@.subrange(0, 8) =~= groups@);
    }
    if len > 1 {
        append_groups(&mut text, &groups, 0, start);
        text.append("::");
        append_groups(&mut text, &groups, start + len, 8);
    } else {
        append_groups(&mut text, &groups, 0, 8);
    }
    proof {
        assert(text@ =~= sixteen_text(n));
    }
    text
}

impl IpAddr {
    /// Whether the address names this host itself: `127.0.0.0/8` or `::1`.
    pub open spec fn loopback(self) -> bool {
        match self {
            IpAddr::V4(a, _, _, _) => a == 127,
            IpAddr::V6(n) => n == 1,
        }
    }

    /// Whether the address names this host itself.
    pub fn is_loopback(self) -> (r: bool)
        ensures
            r == self.loopback(),
    {
        match self {
            IpAddr::V4(a, _, _, _) => a == 127,
            IpAddr::V6(n) => n == 1,
        }
    }

    /// The address in words: `1.2.3.4`, `2001:db8::1`, or `::ffff:1.2.3.4` for an IPv6 address
    /// that stands for an IPv4 address.
    pub open spec fn text(self) -> Seq<char> {
        match self {
            IpAddr::V4(a, b, c, d) => bytes_text(a, b, c, d),
            IpAddr::V6(n) => match mapped_bytes(n) {
                Some((a, b, c, d)) => "::ffff:"@ + bytes_text(a, b, c, d),
                None => sixteen_text(n),
            },
        }
    }

    /// The address in words.
    pub fn words(self) -> (r: String)
        ensures
            r@ == self.text(),
    {
        match self {
            IpAddr::V4(a, b, c, d) => bytes_words(a, b, c, d),
            IpAddr::V6(n) => {
                if n / 0x1_0000_0000 == 0xffff {
                    let bytes = bytes_words(
                        (n / 0x100_0000 % 256) as u8,
                        (n / 0x1_0000 % 256) as u8,
                        (n / 0x100 % 256) as u8,
                        (n % 256) as u8,
                    );
                    let mut text = "::ffff:".to_owned();
                    text.append(bytes.as_str());
                    text
                } else {
                    sixteen_words(n)
                }
            },
        }
    }
}

/// An IP address and a port.
#[derive(Debug, Clone, Copy, PartialEq, Eq, Structural)]
pub struct SocketAddr {
    pub ip: IpAddr,
    pub port: u16,
}

impl SocketAddr {
    /// The address with the given parts.
    pub fn new(ip: IpAddr, port: u16) -> (r: SocketAddr)
        ensures
            r == (SocketAddr { ip, port }),
    {
        SocketAddr { ip, port }
    }

    /// The address in words: `1.2.3.4:80`, or `[2001:db8::1]:80`.
    pub open spec fn text(self) -> Seq<char> {
        match self.ip {
            IpAddr::V4(..) => self.ip.text() + ":"@ + decimal_text(self.port as nat),
            IpAddr::V6(_) => "["@ + self.ip.text() + "]:"@ + decimal_text(self.port as nat),
        }
    }

    /// The address in words.
    pub fn words(self) -> (r: String)
        ensures
            r@ == self.text(),
    {
        let ip = self.ip.words();
        let mut text = String::new();
        match self.ip {
            IpAddr::V4(..) => {
                text.append(ip.as_str());
                text.append(":");
            },
            IpAddr::V6(_) => {
                text.append("[");
                text.append(ip.as_str());
                text.append("]:");
            },
        }
        append_decimal(&mut text, self.port as u64);
        proof {
            assert(text@ =~= self.text());
        }
        text
    }
}

/// An address is this host itself exactly where it is in `127.0.0.0/8` or is `::1`.
pub proof fn law_loopback_is_this_host(ip: IpAddr, r: bool)
    requires
        call_ensures(IpAddr::is_loopback, (ip,), r),
    ensures
        ip matches IpAddr::V4(a, b, c, d) ==> (r <==> a == 127),
        ip matches IpAddr::V6(n) ==> (r <==> n == 1),
{
}

/// An IPv4 address is written as its four numbers with points between them, and with its port behind
/// a colon; an IPv6 address with a port stands in brackets.
pub proof fn law_addresses_are_written_with_their_port(
    addr: SocketAddr,
    words: String,
    ip: String,
    port: String,
    a: u8,
    b: u8,
    c: u8,
    d: u8,
    a_text: String,
    b_text: String,
    c_text: String,
    d_text: String,
)
    requires
        call_ensures(SocketAddr::words, (addr,), words),
        call_ensures(IpAddr::words, (addr.ip,), ip),
        call_ensures(decimal, (addr.port as u64,), port),
        call_ensures(decimal, (a as u64,), a_text),
        call_ensures(decimal, (b as u64,), b_text),
        call_ensures(decimal, (c as u64,), c_text),
        call_ensures(decimal, (d as u64,), d_text),
    ensures
        addr.ip is V4 ==> words@ == ip@ + ":"@ + port@,
        addr.ip is V6 ==> words@ == "["@ + ip@ + "]:"@ + port@,
        addr.ip == IpAddr::V4(a, b, c, d) ==> ip@ == a_text@ + "."@ + b_text@ + "."@ + c_text@ + "."@
            + d_text@,
{
}

} // verus!
