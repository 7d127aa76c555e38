//! Target expansion: a bare IPv4 address or a CIDR block `A.B.C.D/N`,
//! expanded into the ascending sequence of every address it covers.
use vstd::prelude::*;
use vstd::arithmetic::power2::{pow2, lemma_pow2_adds, lemma_pow2_pos, lemma2_to64};
use vstd::arithmetic::div_mod::{lemma_fundamental_div_mod, lemma_div_basics, lemma_basic_div};
use crate::ports::{decimal_text, decimal_chars};
use crate::text::{
    string_from_chars,
    split_on, all_digits, decimal_value, chars_of, split_chars, parse_decimal,
    lemma_split_on_nonempty,
};

verus! {

/// An IPv4 address, as its 32-bit big-endian value.
#[derive(Clone, Copy, Debug, PartialEq, Eq, Structural, Hash)]
pub struct Ipv4 {
    pub bits: u32,
}

pub open spec fn address_of_octets(a: u8, b: u8, c: u8, d: u8) -> u32 {
    (a as nat * 16777216 + b as nat * 65536 + c as nat * 256 + d as nat) as u32
}

/// The four octets of an address, most significant first.
pub open spec fn ipv4_octets(bits: u32) -> Seq<u8> {
    seq![(bits / 16777216) as u8, (bits / 65536 % 256) as u8, (bits / 256 % 256) as u8, (bits % 256) as u8]
}

/// Dotted-quad notation, `a.b.c.d`.
pub open spec fn ipv4_text(bits: u32) -> Seq<char> {
    let o = ipv4_octets(bits);
    decimal_text(o[0] as nat) + seq!['.'] + decimal_text(o[1] as nat) + seq!['.'] + decimal_text(
        o[2] as nat,
    ) + seq!['.'] + decimal_text(o[3] as nat)
}

impl Ipv4 {
    /// The address in dotted-quad notation.
    pub fn to_text(&self) -> (r: String)
        ensures
            r@ == ipv4_text(self.bits),
    {
        let o = self.octets();
        let mut t = decimal_chars(o[0] as u64);
        t.push('.');
        let mut b = decimal_chars(o[1] as u64);
        t.append(&mut b);
        t.push('.');
        let mut c = decimal_chars(o[2] as u64);
        t.append(&mut c);
        t.push('.');
        let mut d = decimal_chars(o[3] as u64);
        t.append(&mut d);
        string_from_chars(&t)
    }

    /// The address `a.b.c.d`.
    pub fn new(a: u8, b: u8, c: u8, d: u8) -> (r: Ipv4)
        ensures
            r.bits == address_of_octets(a, b, c, d),
    {
        Ipv4 { bits: a as u32 * 16777216 + b as u32 * 65536 + c as u32 * 256 + d as u32 }
    }

    /// The four octets, most significant first.
    pub fn octets(&self) -> (r: [u8; 4])
        ensures
            r@ == ipv4_octets(self.bits),
            address_of_octets(r[0], r[1], r[2], r[3]) == self.bits,
    {
        let a = (self.bits / 16777216) as u8;
        let b = (self.bits / 65536 % 256) as u8;
        let c = (self.bits / 256 % 256) as u8;
        let d = (self.bits % 256) as u8;
        let r = [a, b, c, d];
        assert(r@ =~= ipv4_octets(self.bits));
        r
    }
}

/// Why a target text was refused.
#[derive(Clone, Copy, Debug, PartialEq, Eq, Structural)]
pub enum TargetError {
    /// Neither a CIDR block nor (where one is accepted) a bare address.
    InvalidTargetFormat,
    /// The address part is not a dotted quad of octets.
    InvalidAddress,
    /// The prefix part is not a decimal number.
    InvalidPrefix,
    /// The prefix is a number above 32.
    PrefixOutOfRange,
}

impl TargetError {
    /// The message shown to a user for this error.
    pub fn message(&self) -> (r: &'static str)
        ensures
            r@ == target_error_text(*self),
    {
        match self {
            TargetError::InvalidTargetFormat => "Invalid subnet format. Use CIDR notation (e.g., 192.168.1.0/24).",
            TargetError::InvalidAddress => "Invalid IP address.",
            TargetError::InvalidPrefix => "Invalid prefix.",
            TargetError::PrefixOutOfRange => "Invalid prefix.",
        }
    }
}

pub open spec fn target_error_text(e: TargetError) -> Seq<char> {
    match e {
        TargetError::InvalidTargetFormat => "Invalid subnet format. Use CIDR notation (e.g., 192.168.1.0/24)."@,
        TargetError::InvalidAddress => "Invalid IP address."@,
        TargetError::InvalidPrefix => "Invalid prefix."@,
        TargetError::PrefixOutOfRange => "Invalid prefix."@,
    }
}

/// One to three digits, no leading zero, at most 255.
pub open spec fn octet_text(s: Seq<char>) -> bool {
    &&& 1 <= s.len() <= 3
    &&& all_digits(s)
    &&& s.len() > 1 ==> s[0] != '0'
    &&& decimal_value(s) <= 255
}

/// Four octets separated by dots.
pub open spec fn address_text(s: Seq<char>) -> bool {
    let f = split_on(s, '.');
    &&& f.len() == 4
    &&& forall|i: int| 0 <= i < 4 ==> octet_text(#[trigger] f[i])
}

pub open spec fn address_value(s: Seq<char>) -> u32 {
    let f = split_on(s, '.');
    (decimal_value(f[0]) * 16777216 + decimal_value(f[1]) * 65536 + decimal_value(f[2]) * 256
        + decimal_value(f[3])) as u32
}

/// Parses a dotted-quad address.
pub fn parse_address(s: &Vec<char>) -> (r: Option<Ipv4>)
    ensures
        r is Some <==> address_text(s@),
        r matches Some(a) ==> a.bits == address_value(s@),
{
    let fields = split_chars(s, '.');
    if fields.len() != 4 {
        return None;
    }
    let mut vals: Vec<u32> = Vec::new();
    let mut i: usize = 0;
    while i < 4
        invariant
            fields.len() == 4,
            fields.len() == split_on(s@, '.').len(),
            forall|j: int| 0 <= j < 4 ==> (#[trigger] fields[j])@ == split_on(s@, '.')[j],
            i <= 4,
            vals.len() == i,
            forall|j: int| 0 <= j < i ==> octet_text(#[trigger] split_on(s@, '.')[j]),
            forall|j: int| 0 <= j < i ==> vals[j] == decimal_value(#[trigger] split_on(s@, '.')[j]),
            forall|j: int| 0 <= j < i ==> #[trigger] vals[j] <= 255,
        decreases 4 - i,
    {
        let f = &fields[i];
        if f.len() > 3 || (f.len() > 1 && f[0] == '0') {
            assert(!octet_text(split_on(s@, '.')[i as int]));
            return None;
        }
        match parse_decimal(f, 255) {
            Some(v) => {
                vals.push(v);
            },
            None => {
                assert(!octet_text(split_on(s@, '.')[i as int]));
                return None;
            },
        }
        i = i + 1;
    }
    Some(Ipv4 { bits: vals[0] * 16777216 + vals[1] * 65536 + vals[2] * 256 + vals[3] })
}

/// A CIDR block as written: an address and a prefix length of at most 32.
#[derive(Clone, Copy, Debug, PartialEq, Eq, Structural)]
pub struct Cidr {
    pub base: Ipv4,
    pub prefix: u8,
}

/// The number of addresses in a block with this prefix length.
pub open spec fn block_size(prefix: nat) -> nat {
    pow2((32 - prefix) as nat)
}

/// The first address of the block that holds `addr`.
pub open spec fn block_start(addr: nat, prefix: nat) -> nat {
    (addr / block_size(prefix)) * block_size(prefix)
}

/// Every address of the block that holds `addr`, ascending; network and
/// broadcast addresses included.
pub open spec fn block_addresses(addr: nat, prefix: nat) -> Seq<Ipv4> {
    Seq::new(block_size(prefix), |i: int| Ipv4 { bits: (block_start(addr, prefix) + i) as u32 })
}

impl Cidr {
    pub open spec fn wf(&self) -> bool {
        self.prefix <= 32
    }

    pub open spec fn addresses_spec(&self) -> Seq<Ipv4> {
        block_addresses(self.base.bits as nat, self.prefix as nat)
    }

    /// The number of addresses the block covers.
    pub fn len(&self) -> (r: u64)
        requires
            self.wf(),
        ensures
            r == block_size(self.prefix as nat),
            r <= 4294967296,
    {
        let mut size: u64 = 1;
        let mut k: u8 = 0;
        let bits: u8 = 32 - self.prefix;
        proof {
            lemma2_to64();
        }
        while k < bits
            invariant
                k <= bits,
                bits == 32 - self.prefix,
                size == pow2(k as nat),
                size <= 4294967296,
            decreases bits - k,
        {
            proof {
                lemma_pow2_adds(k as nat, 1);
                lemma_pow2_adds(k as nat + 1, (32 - k - 1) as nat);
                lemma_pow2_pos((32 - k - 1) as nat);
                lemma2_to64();
            }
            size = size * 2;
            k = k + 1;
        }
        size
    }

    /// Every address of the block, ascending.
    pub fn addresses(&self) -> (r: Vec<Ipv4>)
        requires
            self.wf(),
        ensures
            r@ == self.addresses_spec(),
    {
        let size = self.len();
        let base = self.base.bits as u64;
        proof {
            let bs: int = block_size(self.prefix as nat) as int;
            let m: int = pow2(self.prefix as nat) as int;
            let b: int = base as int;
            lemma_pow2_adds((32 - self.prefix) as nat, self.prefix as nat);
            lemma2_to64();
            assert(bs * m == 4294967296);
            lemma_pow2_pos(self.prefix as nat);
            lemma_fundamental_div_mod(b, bs);
            let q: int = b / bs;
            let rem: int = b % bs;
            assert(q * bs <= b) by (nonlinear_arith)
                requires
                    b == bs * q + rem,
                    rem >= 0,
            ;
            assert(q < m) by (nonlinear_arith)
                requires
                    q * bs <= b,
                    b < bs * m,
                    bs > 0,
            ;
            assert(q * bs + bs <= 4294967296) by (nonlinear_arith)
                requires
                    q < m,
                    bs > 0,
                    bs * m == 4294967296,
            ;
        }
        let start = (base / size) * size;
        let mut r: Vec<Ipv4> = Vec::new();
        let mut i: u64 = 0;
        while i < size
            invariant
                i <= size,
                size == block_size(self.prefix as nat),
                start == block_start(self.base.bits as nat, self.prefix as nat),
                start + size <= 4294967296,
                r@ == Seq::new(i as nat, |j: int| Ipv4 { bits: (start + j) as u32 }),
            decreases size - i,
        {
            r.push(Ipv4 { bits: (start + i) as u32 });
            i = i + 1;
            assert(r@ =~= Seq::new(i as nat, |j: int| Ipv4 { bits: (start + j) as u32 }));
        }
        assert(r@ =~= self.addresses_spec());
        r
    }
}

/// The error for a CIDR text, or `None` when it is well formed.
pub open spec fn cidr_error(s: Seq<char>) -> Option<TargetError> {
    let parts = split_on(s, '/');
    if parts.len() != 2 {
        Some(TargetError::InvalidTargetFormat)
    } else if !address_text(parts[0]) {
        Some(TargetError::InvalidAddress)
    } else if !(parts[1].len() > 0 && all_digits(parts[1])) {
        Some(TargetError::InvalidPrefix)
    } else if decimal_value(parts[1]) > 32 {
        Some(TargetError::PrefixOutOfRange)
    } else {
        None
    }
}

/// The block that a well-formed CIDR text denotes.
pub open spec fn cidr_of(s: Seq<char>) -> Cidr {
    let parts = split_on(s, '/');
    Cidr { base: Ipv4 { bits: address_value(parts[0]) }, prefix: decimal_value(parts[1]) as u8 }
}

/// Parses `A.B.C.D/N`.
pub fn parse_cidr(s: &str) -> (r: Result<Cidr, TargetError>)
    ensures
        match r {
            Ok(c) => cidr_error(s@) is None && c == cidr_of(s@) && c.wf(),
            Err(e) => cidr_error(s@) == Some(e),
        },
{
    let chars = chars_of(s);
    let parts = split_chars(&chars, '/');
    if parts.len() != 2 {
        return Err(TargetError::InvalidTargetFormat);
    }
    let base = match parse_address(&parts[0]) {
        Some(a) => a,
        None => {
            return Err(TargetError::InvalidAddress);
        },
    };
    match parse_decimal(&parts[1], 32) {
        Some(p) => Ok(Cidr { base, prefix: p as u8 }),
        None => {
            if parts[1].len() > 0 && all_digit_chars(&parts[1]) {
                Err(TargetError::PrefixOutOfRange)
            } else {
                Err(TargetError::InvalidPrefix)
            }
        },
    }
}

/// Whether every character is a decimal digit.
pub fn all_digit_chars(s: &Vec<char>) -> (r: bool)
    ensures
        r == all_digits(s@),
{
    let mut i: usize = 0;
    while i < s.len()
        invariant
            i <= s.len(),
            all_digits(s@.take(i as int)),
        decreases s.len() - i,
    {
        if !('0' <= s[i] && s[i] <= '9') {
            assert(!crate::text::is_digit(s@[i as int]));
            return false;
        }
        i = i + 1;
        assert(all_digits(s@.take(i as int))) by {
            assert forall|j: int| 0 <= j < i implies crate::text::is_digit(
                #[trigger] s@.take(i as int)[j],
            ) by {
                if j < i - 1 {
                    assert(s@.take(i as int)[j] == s@.take(i - 1)[j]);
                }
            }
        }
    }
    assert(s@.take(s.len() as int) =~= s@);
    true
}

/// Parses `A.B.C.D/N` and lists every address of the block, ascending.
pub fn parse_subnet(s: &str) -> (r: Result<Vec<Ipv4>, TargetError>)
    ensures
        match r {
            Ok(v) => cidr_error(s@) is None && v@ == cidr_of(s@).addresses_spec(),
            Err(e) => cidr_error(s@) == Some(e),
        },
{
    match parse_cidr(s) {
        Ok(c) => Ok(c.addresses()),
        Err(e) => Err(e),
    }
}

/// The error for a target text, bare address or CIDR block, or `None`.
pub open spec fn target_error(s: Seq<char>) -> Option<TargetError> {
    if split_on(s, '/').len() == 1 {
        if address_text(s) {
            None
        } else {
            Some(TargetError::InvalidTargetFormat)
        }
    } else {
        cidr_error(s)
    }
}

/// The block a well-formed target text denotes; a bare address is its own
/// block of one.
pub open spec fn target_block(s: Seq<char>) -> Cidr {
    if split_on(s, '/').len() == 1 {
        Cidr { base: Ipv4 { bits: address_value(s) }, prefix: 32 }
    } else {
        cidr_of(s)
    }
}

/// Parses a target: a bare address or `A.B.C.D/N`.
pub fn parse_target(s: &str) -> (r: Result<Cidr, TargetError>)
    ensures
        match r {
            Ok(c) => target_error(s@) is None && c == target_block(s@) && c.wf(),
            Err(e) => target_error(s@) == Some(e),
        },
{
    let chars = chars_of(s);
    let parts = split_chars(&chars, '/');
    if parts.len() == 1 {
        proof {
            lemma_split_on_single(s@, '/');
        }
        match parse_address(&chars) {
            Some(a) => Ok(Cidr { base: a, prefix: 32 }),
            None => Err(TargetError::InvalidTargetFormat),
        }
    } else {
        parse_cidr(s)
    }
}

/// Expands a target into every address it covers, ascending.
pub fn expand_target(s: &str) -> (r: Result<Vec<Ipv4>, TargetError>)
    ensures
        match r {
            Ok(v) => target_error(s@) is None && v@ == target_block(s@).addresses_spec(),
            Err(e) => target_error(s@) == Some(e),
        },
{
    match parse_target(s) {
        Ok(c) => Ok(c.addresses()),
        Err(e) => Err(e),
    }
}

/// A text with no separator is a single field: itself.
pub proof fn lemma_split_on_single(s: Seq<char>, sep: char)
    requires
        split_on(s, sep).len() == 1,
    ensures
        split_on(s, sep)[0] == s,
    decreases s.len(),
{
    if s.len() > 0 {
        lemma_split_on_nonempty(s.drop_last(), sep);
        lemma_split_on_single(s.drop_last(), sep);
        assert(s.drop_last().push(s.last()) =~= s);
    }
}

/// Parsing a CIDR text and enumerating its block twice gives the same
/// sequence both times, and that sequence is strictly ascending.
pub proof fn lemma_enumeration_repeatable(s: Seq<char>, first: Seq<Ipv4>, second: Seq<Ipv4>)
    requires
        cidr_error(s) is None,
        first == cidr_of(s).addresses_spec(),
        second == cidr_of(s).addresses_spec(),
    ensures
        first == second,
        forall|i: int, j: int| 0 <= i < j < first.len() ==> first[i].bits < first[j].bits,
{
    lemma_block_ascending(cidr_of(s));
}

/// The addresses of a block are strictly ascending, hence distinct.
pub proof fn lemma_block_ascending(c: Cidr)
    requires
        c.wf(),
    ensures
        forall|i: int, j: int|
            0 <= i < j < c.addresses_spec().len() ==> c.addresses_spec()[i].bits
                < c.addresses_spec()[j].bits,
{
    lemma_block_fits(c.base.bits as nat, c.prefix as nat);
}

/// A block lies inside the 32-bit address space.
pub proof fn lemma_block_fits(addr: nat, prefix: nat)
    requires
        addr < 4294967296,
        prefix <= 32,
    ensures
        block_size(prefix) >= 1,
        block_start(addr, prefix) + block_size(prefix) <= 4294967296,
        block_start(addr, prefix) <= addr < block_start(addr, prefix) + block_size(prefix),
{
    let bs: int = block_size(prefix) as int;
    let m: int = pow2(prefix) as int;
    let b: int = addr as int;
    lemma_pow2_adds((32 - prefix) as nat, prefix);
    lemma2_to64();
    lemma_pow2_pos(prefix);
    lemma_pow2_pos((32 - prefix) as nat);
    lemma_fundamental_div_mod(b, bs);
    let q: int = b / bs;
    let rem: int = b % bs;
    assert(q * bs <= b) by (nonlinear_arith)
        requires
            b == bs * q + rem,
            rem >= 0,
    ;
    assert(q < m) by (nonlinear_arith)
        requires
            q * bs <= b,
            b < bs * m,
            bs > 0,
    ;
    assert(q * bs + bs <= 4294967296) by (nonlinear_arith)
        requires
            q < m,
            bs > 0,
            bs * m == 4294967296,
    ;
}

/// A `/32` block holds exactly its own address.
pub proof fn lemma_prefix_32_single(addr: u32)
    ensures
        block_addresses(addr as nat, 32) == seq![Ipv4 { bits: addr }],
{
    lemma2_to64();
    lemma_div_basics(addr as int);
    assert(block_size(32) == 1);
    assert(block_start(addr as nat, 32) == addr);
    assert(block_addresses(addr as nat, 32) =~= seq![Ipv4 { bits: addr }]);
}

/// A `/0` block holds all 2^32 addresses, the i-th being `i`.
pub proof fn lemma_prefix_0_everything(addr: u32)
    ensures
        block_addresses(addr as nat, 0).len() == 4294967296,
        forall|i: int|
            0 <= i < 4294967296 ==> (#[trigger] block_addresses(addr as nat, 0)[i]).bits == i,
{
    lemma2_to64();
    assert(block_size(0) == 4294967296);
    lemma_basic_div(addr as int, 4294967296);
    assert(block_start(addr as nat, 0) == 0);
}

} // verus!
