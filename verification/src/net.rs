//! Plain-value forms of addresses and durations: parsing and the
//! address-selection rule. Name resolution itself happens outside the
//! library; the chooser here picks from whatever the resolver returned.

use vstd::prelude::*;

use crate::codec::spec_decode_number;
use crate::codec::spec_strip;
use crate::codec::decode_number;
use crate::codec::strip_lit;
use crate::error::Error;
use crate::json::is_digit;
use crate::json::digits_value;
use crate::json::spec_digit_run_end;
use crate::text::chars_of;

verus! {

/// Parse a duration given as whole milliseconds.
///
/// Succeeds exactly on a non-empty all-digit string whose value fits in a
/// `u64`; the result is that many milliseconds.
pub fn parse_duration(arg: &str) -> (r: Result<u64, Error>)
    ensures
        r matches Ok(n) ==> {
            &&& arg@.len() > 0
            &&& spec_digit_run_end(arg@, 0) == arg@.len()
            &&& n == digits_value(arg@)
        },
        r is Ok <==> (arg@.len() > 0 && spec_digit_run_end(arg@, 0) == arg@.len() && digits_value(
            arg@,
        ) <= u64::MAX),
{
    let t = chars_of(arg);
    proof {
        assert(t@.skip(0) =~= arg@);
    }
    match decode_number(&t, 0) {
        Some((value, end)) => {
            proof {
                let end0 = spec_digit_run_end(arg@, 0);
                crate::json::lemma_digit_run_bounds(arg@, 0);
                assert(arg@.skip(end0) == t@.skip(end as int));
                assert(arg@.skip(end0).len() == arg@.len() - end0);
                assert(t@.skip(end as int).len() == t@.len() - end);
                assert(end0 == end);
            }
            if end == t.len() {
                proof {
                    assert(arg@.take(arg@.len() as int) =~= arg@);
                }
                Ok(value)
            } else {
                Err(Error::Other(arg.to_owned()))
            }
        },
        None => {
            proof {
                crate::json::lemma_digit_run_bounds(arg@, 0);
                if arg@.len() > 0 && is_digit(arg@[0]) && spec_digit_run_end(arg@, 0)
                    == arg@.len() {
                    assert(arg@.take(arg@.len() as int) =~= arg@);
                }
            }
            Err(Error::Other(arg.to_owned()))
        },
    }
}

/// A resolved socket address, as plain values.
#[derive(Clone, Debug, PartialEq, Eq)]
pub enum SocketAddress {
    /// Four dotted octets and a port.
    V4 { a: u8, b: u8, c: u8, d: u8, port: u16 },
    /// An IPv6 address, carried as its textual form, and a port.
    V6 { address: String, port: u16 },
}

impl SocketAddress {
    pub open spec fn spec_is_ipv4(&self) -> bool {
        self is V4
    }

    pub fn is_ipv4(&self) -> (r: bool)
        ensures
            r == self.spec_is_ipv4(),
    {
        match self {
            SocketAddress::V4 { .. } => true,
            SocketAddress::V6 { .. } => false,
        }
    }
}

/// An address as the operator wrote it, with what it resolved to.
#[derive(Clone, Debug, PartialEq, Eq)]
pub struct ResolvedSocketAddr {
    pub input_addr: String,
    pub socket_addr: SocketAddress,
}

/// Pick one address from a resolver's answer: the first IPv4 address if
/// any, otherwise the first address; nothing from an empty answer.
pub fn pick_resolved_addr(addrs: &Vec<SocketAddress>) -> (r: Option<&SocketAddress>)
    ensures
        match r {
            Some(x) => {
                &&& addrs@.len() > 0
                &&& (exists|i: int|
                    0 <= i < addrs@.len() && (#[trigger] addrs@[i]).spec_is_ipv4()) ==> exists|
                    i: int,
                |
                    {
                        &&& 0 <= i < addrs@.len()
                        &&& (#[trigger] addrs@[i]).spec_is_ipv4()
                        &&& *x == addrs@[i]
                        &&& forall|j: int| 0 <= j < i ==> !addrs@[j].spec_is_ipv4()
                    }
                &&& !(exists|i: int|
                    0 <= i < addrs@.len() && (#[trigger] addrs@[i]).spec_is_ipv4()) ==> *x
                    == addrs@[0]
            },
            None => addrs@.len() == 0,
        },
{
    let n = addrs.len();
    let mut i: usize = 0;
    while i < n
        invariant
            n == addrs@.len(),
            i <= n,
            forall|j: int| 0 <= j < i ==> !(#[trigger] addrs@[j]).spec_is_ipv4(),
        decreases n - i,
    {
        if addrs[i].is_ipv4() {
            return Some(&addrs[i]);
        }
        i = i + 1;
    }
    if n > 0 {
        Some(&addrs[0])
    } else {
        None
    }
}

/// Parse a literal IPv4 socket address of the form `a.b.c.d:port` from
/// the whole of `t`.
pub open spec fn spec_parse_ipv4_socket_addr(t: Seq<char>) -> Option<SocketAddress> {
    match spec_decode_number(t) {
        Option::Some(p1) => if p1.0 > 255 {
            Option::None
        } else {
            match spec_strip(p1.1, "."@) {
                Option::Some(t1) => match spec_decode_number(t1) {
                    Option::Some(p2) => if p2.0 > 255 {
                        Option::None
                    } else {
                        match spec_strip(p2.1, "."@) {
                            Option::Some(t2) => match spec_decode_number(t2) {
                                Option::Some(p3) => if p3.0 > 255 {
                                    Option::None
                                } else {
                                    match spec_strip(p3.1, "."@) {
                                        Option::Some(t3) => match spec_decode_number(t3) {
                                            Option::Some(p4) => if p4.0 > 255 {
                                                Option::None
                                            } else {
                                                match spec_strip(p4.1, ":"@) {
                                                    Option::Some(t4) => match spec_decode_number(
                                                        t4,
                                                    ) {
                                                        Option::Some(p5) => if p5.0
                                                            > u16::MAX as nat || p5.1.len() != 0 {
                                                            Option::None
                                                        } else {
                                                            Option::Some(
                                                                SocketAddress::V4 {
                                                                    a: p1.0 as u8,
                                                                    b: p2.0 as u8,
                                                                    c: p3.0 as u8,
                                                                    d: p4.0 as u8,
                                                                    port: p5.0 as u16,
                                                                },
                                                            )
                                                        },
                                                        Option::None => Option::None,
                                                    },
                                                    Option::None => Option::None,
                                                }
                                            },
                                            Option::None => Option::None,
                                        },
                                        Option::None => Option::None,
                                    }
                                },
                                Option::None => Option::None,
                            },
                            Option::None => Option::None,
                        }
                    },
                    Option::None => Option::None,
                },
                Option::None => Option::None,
            }
        },
        Option::None => Option::None,
    }
}

/// What parsing an operator-written address decided.
#[derive(Debug, PartialEq, Eq)]
pub enum ParseSocketAddrOutcome {
    /// The address was a literal IPv4 socket address.
    Parsed(ResolvedSocketAddr),
    /// The address needs name resolution before it can be used.
    NeedsResolution,
}

/// Parse an operator-written listen address. A literal `a.b.c.d:port`
/// form is accepted directly; anything else is handed to the resolver.
pub fn parse_socket_addr(input_addr: &str) -> (r: ParseSocketAddrOutcome)
    ensures
        match r {
            ParseSocketAddrOutcome::Parsed(resolved) => {
                &&& resolved.input_addr@ == input_addr@
                &&& spec_parse_ipv4_socket_addr(input_addr@) == Some(resolved.socket_addr)
            },
            ParseSocketAddrOutcome::NeedsResolution => spec_parse_ipv4_socket_addr(input_addr@)
                is None,
        },
{
    let t = chars_of(input_addr);
    proof {
        assert(t@.skip(0) =~= input_addr@);
    }
    let (v1, j1) = match decode_number(&t, 0) {
        Some(p) => p,
        None => {
            return ParseSocketAddrOutcome::NeedsResolution;
        },
    };
    if v1 > 255 {
        return ParseSocketAddrOutcome::NeedsResolution;
    }
    let j2 = match strip_lit(&t, j1, ".") {
        Some(j) => j,
        None => {
            return ParseSocketAddrOutcome::NeedsResolution;
        },
    };
    let (v2, j3) = match decode_number(&t, j2) {
        Some(p) => p,
        None => {
            return ParseSocketAddrOutcome::NeedsResolution;
        },
    };
    if v2 > 255 {
        return ParseSocketAddrOutcome::NeedsResolution;
    }
    let j4 = match strip_lit(&t, j3, ".") {
        Some(j) => j,
        None => {
            return ParseSocketAddrOutcome::NeedsResolution;
        },
    };
    let (v3, j5) = match decode_number(&t, j4) {
        Some(p) => p,
        None => {
            return ParseSocketAddrOutcome::NeedsResolution;
        },
    };
    if v3 > 255 {
        return ParseSocketAddrOutcome::NeedsResolution;
    }
    let j6 = match strip_lit(&t, j5, ".") {
        Some(j) => j,
        None => {
            return ParseSocketAddrOutcome::NeedsResolution;
        },
    };
    let (v4, j7) = match decode_number(&t, j6) {
        Some(p) => p,
        None => {
            return ParseSocketAddrOutcome::NeedsResolution;
        },
    };
    if v4 > 255 {
        return ParseSocketAddrOutcome::NeedsResolution;
    }
    let j8 = match strip_lit(&t, j7, ":") {
        Some(j) => j,
        None => {
            return ParseSocketAddrOutcome::NeedsResolution;
        },
    };
    let (port, j9) = match decode_number(&t, j8) {
        Some(p) => p,
        None => {
            return ParseSocketAddrOutcome::NeedsResolution;
        },
    };
    if port > u16::MAX as u64 {
        return ParseSocketAddrOutcome::NeedsResolution;
    }
    if j9 != t.len() {
        proof {
            assert(t@.skip(j9 as int).len() > 0);
        }
        return ParseSocketAddrOutcome::NeedsResolution;
    }
    proof {
        assert(t@.skip(j9 as int) =~= Seq::<char>::empty());
    }
    ParseSocketAddrOutcome::Parsed(
        ResolvedSocketAddr {
            input_addr: input_addr.to_owned(),
            socket_addr: SocketAddress::V4 {
                a: v1 as u8,
                b: v2 as u8,
                c: v3 as u8,
                d: v4 as u8,
                port: port as u16,
            },
        },
    )
}

} // verus!
