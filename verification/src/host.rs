//! Destination hosts. A host is exactly one of an IPv4 address, an IPv6
//! address, or a domain name; equality is structural. A host has a canonical
//! text form (kept as bytes) used for rule lookup and for building the
//! `host:port` string handed to the dialer.
use vstd::prelude::*;

verus! {

/// Mathematical image of a `Host`.
pub enum HostSpec {
    Ipv4 { a: u8, b: u8, c: u8, d: u8 },
    Ipv6 { groups: Seq<u16> },
    Domain { name: Seq<u8> },
}

/// A destination host. The domain variant keeps the name bytes exactly as
/// they were read from the wire (UTF-8 on both wire surfaces).
#[derive(Debug, Clone, PartialEq, Eq)]
pub enum Host {
    Ipv4 { a: u8, b: u8, c: u8, d: u8 },
    Ipv6 { groups: [u16; 8] },
    Domain { name: Vec<u8> },
}

impl View for Host {
    type V = HostSpec;

    open spec fn view(&self) -> HostSpec {
        match self {
            Host::Ipv4 { a, b, c, d } => HostSpec::Ipv4 { a: *a, b: *b, c: *c, d: *d },
            Host::Ipv6 { groups } => HostSpec::Ipv6 { groups: groups@ },
            Host::Domain { name } => HostSpec::Domain { name: name@ },
        }
    }
}

/// Well-formedness of a host image: an IPv6 host has exactly eight groups.
pub open spec fn host_wf(h: HostSpec) -> bool {
    match h {
        HostSpec::Ipv6 { groups } => groups.len() == 8,
        _ => true,
    }
}

/// ASCII digit for one decimal value below ten.
pub open spec fn dec_digit(d: nat) -> u8
    recommends
        d < 10,
{
    (48 + d) as u8
}

/// Decimal text of a number, most significant digit first, no leading zeros
/// (a single zero digit for zero).
pub open spec fn spec_dec(n: nat) -> Seq<u8>
    decreases n,
{
    if n < 10 {
        seq![dec_digit(n)]
    } else {
        spec_dec(n / 10) + seq![dec_digit(n % 10)]
    }
}

/// ASCII digit for one hexadecimal value below sixteen, lowercase.
pub open spec fn hex_digit(d: nat) -> u8
    recommends
        d < 16,
{
    if d < 10 {
        (48 + d) as u8
    } else {
        (87 + d) as u8
    }
}

/// Lowercase hexadecimal text of a number, most significant digit first, no
/// leading zeros (a single zero digit for zero).
pub open spec fn spec_hex(n: nat) -> Seq<u8>
    decreases n,
{
    if n < 16 {
        seq![hex_digit(n)]
    } else {
        spec_hex(n / 16) + seq![hex_digit(n % 16)]
    }
}

/// Decimal text of a 16-bit number.
pub fn dec_u16(n: u16) -> (v: Vec<u8>)
    ensures
        v@ == spec_dec(n as nat),
    decreases n,
{
    if n < 10 {
        let mut v: Vec<u8> = Vec::new();
        v.push(48 + n as u8);
        assert(v@ =~= spec_dec(n as nat));
        v
    } else {
        let mut v = dec_u16(n / 10);
        v.push(48 + (n % 10) as u8);
        assert(v@ =~= spec_dec(n as nat));
        v
    }
}

/// Lowercase hexadecimal text of a 16-bit number.
pub fn hex_u16(n: u16) -> (v: Vec<u8>)
    ensures
        v@ == spec_hex(n as nat),
    decreases n,
{
    if n < 16 {
        let mut v: Vec<u8> = Vec::new();
        let d = n as u8;
        if d < 10 {
            v.push(48 + d);
        } else {
            v.push(87 + d);
        }
        assert(v@ =~= spec_hex(n as nat));
        v
    } else {
        let mut v = hex_u16(n / 16);
        let d = (n % 16) as u8;
        if d < 10 {
            v.push(48 + d);
        } else {
            v.push(87 + d);
        }
        assert(v@ =~= spec_hex(n as nat));
        v
    }
}

/// The first `i` colon-separated hexadecimal groups of an IPv6 text.
pub open spec fn spec_v6_groups_prefix(groups: Seq<u16>, i: int) -> Seq<u8>
    recommends
        0 <= i <= groups.len(),
    decreases i,
{
    if i <= 0 {
        Seq::empty()
    } else if i == 1 {
        spec_hex(groups[0] as nat)
    } else {
        spec_v6_groups_prefix(groups, i - 1) + seq![58u8] + spec_hex(groups[i - 1] as nat)
    }
}

/// Canonical text of a host, as bytes: dotted decimal for IPv4, the eight
/// hexadecimal groups between brackets for IPv6, the name itself for a
/// domain.
pub open spec fn spec_canonical(h: HostSpec) -> Seq<u8>
    recommends
        host_wf(h),
{
    match h {
        HostSpec::Ipv4 { a, b, c, d } => spec_dec(a as nat) + seq![46u8] + spec_dec(b as nat)
            + seq![46u8] + spec_dec(c as nat) + seq![46u8] + spec_dec(d as nat),
        HostSpec::Ipv6 { groups } => seq![91u8] + spec_v6_groups_prefix(groups, 8) + seq![93u8],
        HostSpec::Domain { name } => name,
    }
}

/// The `host:port` text handed to the dialer.
pub open spec fn spec_dial_target(h: HostSpec, port: u16) -> Seq<u8>
    recommends
        host_wf(h),
{
    spec_canonical(h) + seq![58u8] + spec_dec(port as nat)
}

impl Host {
    /// Canonical text of this host, as bytes.
    pub fn canonical_bytes(&self) -> (v: Vec<u8>)
        ensures
            v@ == spec_canonical(self@),
    {
        match self {
            Host::Ipv4 { a, b, c, d } => {
                let mut v = dec_u16(*a as u16);
                v.push(46);
                let mut vb = dec_u16(*b as u16);
                v.append(&mut vb);
                v.push(46);
                let mut vc = dec_u16(*c as u16);
                v.append(&mut vc);
                v.push(46);
                let mut vd = dec_u16(*d as u16);
                v.append(&mut vd);
                assert(v@ =~= spec_canonical(self@));
                v
            },
            Host::Ipv6 { groups } => {
                let mut v: Vec<u8> = Vec::new();
                v.push(91);
                let mut i: usize = 0;
                while i < 8
                    invariant
                        i <= 8,
                        groups@.len() == 8,
                        v@ == seq![91u8] + spec_v6_groups_prefix(groups@, i as int),
                    decreases 8 - i,
                {
                    if i > 0 {
                        v.push(58);
                    }
                    let mut g = hex_u16(groups[i]);
                    v.append(&mut g);
                    assert(v@ =~= seq![91u8] + spec_v6_groups_prefix(groups@, i + 1));
                    i = i + 1;
                }
                v.push(93);
                assert(v@ =~= spec_canonical(self@));
                v
            },
            Host::Domain { name } => {
                let v = vstd::slice::slice_to_vec(name.as_slice());
                assert(v@ =~= spec_canonical(self@));
                v
            },
        }
    }

    /// The `host:port` text for this host, as bytes.
    pub fn dial_target_bytes(&self, port: u16) -> (v: Vec<u8>)
        ensures
            v@ == spec_dial_target(self@, port),
    {
        let mut v = self.canonical_bytes();
        v.push(58);
        let mut p = dec_u16(port);
        v.append(&mut p);
        assert(v@ =~= spec_dial_target(self@, port));
        v
    }
}

} // verus!
