//! Per-service protocol kind and deployment mode.

use vstd::prelude::*;
use crate::decimal::{dec_digits, push_decimal};
use crate::text::{string_push};

verus! {

/// Application-layer protocol Minos should treat the service as speaking.
#[derive(Debug, Clone, Copy, PartialEq, Eq, Hash, Structural)]
pub enum ProtocolKind {
    /// HTTP/1.1, parsed by Minos before being handed to the filter pipeline.
    Http,
    /// Raw TCP. The filter pipeline sees a buffered burst of bytes.
    Tcp,
}

/// A socket address (IP address and port), held as plain numbers.
#[derive(Debug, Clone, Copy, PartialEq, Eq, Hash, Structural)]
pub enum NetAddr {
    /// An IPv4 address and port.
    V4 {
        /// The address as a big-endian 32-bit number.
        ip: u32,
        /// The port.
        port: u16,
    },
    /// An IPv6 address and port.
    V6 {
        /// The address as a big-endian 128-bit number.
        ip: u128,
        /// The port.
        port: u16,
    },
}

/// How Minos receives traffic for a given service.
#[derive(Debug, Clone, PartialEq, Eq, Structural)]
pub enum ProxyMode {
    /// Minos owns the public port. The real service is moved to `upstream`.
    Reverse {
        /// Public address Minos listens on.
        bind: NetAddr,
        /// Internal address Minos forwards to.
        upstream: NetAddr,
    },
    /// Minos is reached via `iptables -j REDIRECT`; the real destination is
    /// recovered per connection.
    Transparent {
        /// Address Minos listens on after iptables has redirected.
        bind: NetAddr,
    },
}

impl ProxyMode {
    /// The address Minos's listener binds, regardless of mode.
    pub fn bind(&self) -> (r: NetAddr)
        ensures
            r == match *self {
                ProxyMode::Reverse { bind, .. } => bind,
                ProxyMode::Transparent { bind } => bind,
            },
    {
        match self {
            ProxyMode::Reverse { bind, .. } => *bind,
            ProxyMode::Transparent { bind } => *bind,
        }
    }
}

/// The lower-case hexadecimal digits of `n`, without leading zeros.
pub open spec fn hex_digits(n: nat) -> Seq<char>
    decreases n,
{
    if n < 16 {
        seq![hex_char(n)]
    } else {
        hex_digits(n / 16).push(hex_char(n % 16))
    }
}

/// The lower-case hexadecimal character of a digit below 16.
pub open spec fn hex_char(d: nat) -> char {
    if d < 10 {
        ((48 + d) as u8) as char
    } else {
        ((87 + d) as u8) as char
    }
}

fn push_hex(s: &mut String, n: u16)
    ensures
        final(s)@ == old(s)@ + hex_digits(n as nat),
    decreases n,
{
    if n >= 16 {
        push_hex(s, n / 16);
    }
    let d = (n % 16) as u8;
    let c = if d < 10 {
        (48u8 + d) as char
    } else {
        (87u8 + d) as char
    };
    string_push(s, c);
}

/// The `i`-th 16-bit segment (most significant first) of an IPv6 address.
pub open spec fn segment(ip: u128, i: int) -> u16 {
    ((ip >> ((7 - i) * 16) as u128) & 0xffff) as u16
}

/// The eight segments of an IPv6 address.
pub open spec fn segments(ip: u128) -> Seq<u16> {
    Seq::new(8, |i: int| segment(ip, i))
}

/// Segments `segs[i..j]` written in hex, separated by `:`.
pub open spec fn seg_text(segs: Seq<u16>, i: int, j: int) -> Seq<char>
    decreases j - i,
{
    if i >= j {
        Seq::empty()
    } else if i + 1 == j {
        hex_digits(segs[i] as nat)
    } else {
        seg_text(segs, i, j - 1).push(':') + hex_digits(segs[j - 1] as nat)
    }
}

/// The longest run of zero segments (first one on ties), scanning from `i`
/// with the current run `cur` and the best run `best` as `(start, len)`.
pub open spec fn zero_run(segs: Seq<u16>, i: int, cur: (int, int), best: (int, int)) -> (int, int)
    decreases segs.len() - i,
{
    if i < 0 || i >= segs.len() {
        best
    } else if segs[i] == 0 {
        let c = if cur.1 == 0 {
            (i, 1int)
        } else {
            (cur.0, cur.1 + 1)
        };
        zero_run(segs, i + 1, c, if c.1 > best.1 { c } else { best })
    } else {
        zero_run(segs, i + 1, (0, 0), best)
    }
}

/// The text of a dotted-quad IPv4 address.
pub open spec fn v4_text(ip: u32) -> Seq<char> {
    dec_digits(((ip >> 24) & 0xff) as nat) + "."@ + dec_digits(((ip >> 16) & 0xff) as nat) + "."@
        + dec_digits(((ip >> 8) & 0xff) as nat) + "."@ + dec_digits((ip & 0xff) as nat)
}

/// The text of an IPv6 address as `Ipv6Addr`'s `Display` writes it: the
/// IPv4-mapped form `::ffff:a.b.c.d`, or the segments in hex with the longest
/// run of two or more zero segments written as `::`.
pub open spec fn v6_text(ip: u128) -> Seq<char> {
    let segs = segments(ip);
    if ip >> 32 == 0xffff {
        "::ffff:"@ + v4_text((ip & 0xffff_ffff) as u32)
    } else {
        let run = zero_run(segs, 0, (0, 0), (0, 0));
        if run.1 > 1 {
            seg_text(segs, 0, run.0) + "::"@ + seg_text(segs, run.0 + run.1, 8)
        } else {
            seg_text(segs, 0, 8)
        }
    }
}

impl NetAddr {
    /// The text of the socket address, as `SocketAddr`'s `Display` writes it.
    pub open spec fn spec_text(self) -> Seq<char> {
        match self {
            NetAddr::V4 { ip, port } => v4_text(ip) + ":"@ + dec_digits(port as nat),
            NetAddr::V6 { ip, port } => "["@ + v6_text(ip) + "]:"@ + dec_digits(port as nat),
        }
    }

    /// The text of the socket address (`a.b.c.d:port` or `[v6]:port`).
    pub fn text(&self) -> (r: String)
        ensures
            r@ == self.spec_text(),
    {
        let mut s = String::new();
        match *self {
            NetAddr::V4 { ip, port } => {
                push_v4(&mut s, ip);
                s.append(":");
                push_decimal(&mut s, port as u64);
            },
            NetAddr::V6 { ip, port } => {
                s.append("[");
                push_v6(&mut s, ip);
                s.append("]:");
                push_decimal(&mut s, port as u64);
            },
        }
        s
    }
}

fn push_v4(s: &mut String, ip: u32)
    ensures
        final(s)@ == old(s)@ + v4_text(ip),
{
    push_decimal(s, ((ip >> 24) & 0xff) as u64);
    s.append(".");
    push_decimal(s, ((ip >> 16) & 0xff) as u64);
    s.append(".");
    push_decimal(s, ((ip >> 8) & 0xff) as u64);
    s.append(".");
    push_decimal(s, (ip & 0xff) as u64);
    proof {
        assert(final(s)@ =~= old(s)@ + v4_text(ip));
    }
}

fn seg_at(ip: u128, i: usize) -> (r: u16)
    requires
        i < 8,
    ensures
        r == segment(ip, i as int),
{
    ((ip >> ((7 - i) * 16) as u128) & 0xffff) as u16
}

fn push_segs(s: &mut String, ip: u128, i: usize, j: usize)
    requires
        i <= j <= 8,
    ensures
        final(s)@ == old(s)@ + seg_text(segments(ip), i as int, j as int),
    decreases j - i,
{
    if i >= j {
        return;
    }
    if i + 1 == j {
        push_hex(s, seg_at(ip, i));
        return;
    }
    push_segs(s, ip, i, j - 1);
    string_push(s, ':');
    push_hex(s, seg_at(ip, j - 1));
    proof {
        assert(final(s)@ =~= old(s)@ + seg_text(segments(ip), i as int, j as int));
    }
}

fn push_v6(s: &mut String, ip: u128)
    ensures
        final(s)@ == old(s)@ + v6_text(ip),
{
    if ip >> 32 == 0xffff {
        s.append("::ffff:");
        push_v4(s, (ip & 0xffff_ffff) as u32);
        proof {
            assert(final(s)@ =~= old(s)@ + v6_text(ip));
        }
        return;
    }
    let ghost segs = segments(ip);
    let mut cur_start: usize = 0;
    let mut cur_len: usize = 0;
    let mut best_start: usize = 0;
    let mut best_len: usize = 0;
    let mut i: usize = 0;
    while i < 8
        invariant
            i <= 8,
            segs == segments(ip),
            cur_start <= 8 && cur_len <= i && best_start <= 8 && best_len <= 8,
            best_start + best_len <= 8,
            cur_start + cur_len <= i,
            zero_run(segs, 0, (0, 0), (0, 0)) == zero_run(
                segs,
                i as int,
                (cur_start as int, cur_len as int),
                (best_start as int, best_len as int),
            ),
        decreases 8 - i,
    {
        let seg = seg_at(ip, i);
        assert(seg == segs[i as int]);
        if seg == 0 {
            if cur_len == 0 {
                cur_start = i;
            }
            cur_len += 1;
            if cur_len > best_len {
                best_start = cur_start;
                best_len = cur_len;
            }
        } else {
            cur_start = 0;
            cur_len = 0;
        }
        i += 1;
    }
    if best_len > 1 {
        push_segs(s, ip, 0, best_start);
        s.append("::");
        push_segs(s, ip, best_start + best_len, 8);
    } else {
        push_segs(s, ip, 0, 8);
    }
    proof {
        assert(final(s)@ =~= old(s)@ + v6_text(ip));
    }
}

} // verus!
