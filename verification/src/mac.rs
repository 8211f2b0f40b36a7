//! MAC addresses of network gateways.
//!
//! A gateway is identified by its 48-bit MAC address. Within a set the address
//! is held as its 48-bit integer key, so that the set can be a `HashSet<u64>`.
use vstd::prelude::*;

use crate::text::{hex_char, hex_digit, push_char, unsigned_digits};

verus! {

/// A 48-bit MAC address (IEEE EUI-48): six octets, most significant first.
#[derive(Clone, Copy, PartialEq, Eq, Structural, Debug, Hash)]
pub struct MacAddr(pub u8, pub u8, pub u8, pub u8, pub u8, pub u8);

/// Why a text is not a MAC address.
#[derive(Clone, Copy, PartialEq, Eq, Structural, Debug)]
pub enum MacParseError {
    /// More than six colon-separated components.
    TooManyComponents,
    /// Fewer than six colon-separated components.
    TooFewComponents,
    /// A component that is empty or not a hex number below 256.
    InvalidComponent,
}

impl MacParseError {
    /// The error's text, as netdev words it.
    pub fn message(&self) -> (m: &'static str)
        ensures
            m@ == match self {
                MacParseError::TooManyComponents => "Too many components in a MAC address string"@,
                MacParseError::TooFewComponents => "Too few components in a MAC address string"@,
                MacParseError::InvalidComponent => "Invalid component in a MAC address string"@,
            },
    {
        match self {
            MacParseError::TooManyComponents => "Too many components in a MAC address string",
            MacParseError::TooFewComponents => "Too few components in a MAC address string",
            MacParseError::InvalidComponent => "Invalid component in a MAC address string",
        }
    }
}

/// The two lowercase hex digits of an octet (`{:02x}`).
pub open spec fn hex_octet(b: u8) -> Seq<char> {
    seq![hex_char((b / 16) as nat), hex_char((b % 16) as nat)]
}

/// The canonical text of a MAC address: `xx:xx:xx:xx:xx:xx` in lowercase hex.
pub open spec fn mac_text(m: MacAddr) -> Seq<char> {
    hex_octet(m.0) + seq![':'] + hex_octet(m.1) + seq![':'] + hex_octet(m.2) + seq![':']
        + hex_octet(m.3) + seq![':'] + hex_octet(m.4) + seq![':'] + hex_octet(m.5)
}

/// The 48-bit integer of a MAC address, first octet most significant.
pub open spec fn mac_key(m: MacAddr) -> u64 {
    (m.0 as u64) << 40u64 | (m.1 as u64) << 32u64 | (m.2 as u64) << 24u64 | (m.3 as u64)
        << 16u64 | (m.4 as u64) << 8u64 | (m.5 as u64)
}

/// The MAC address whose 48-bit integer is the low 48 bits of `k`.
pub open spec fn mac_of_key(k: u64) -> MacAddr {
    MacAddr(
        (k >> 40u64) as u8,
        (k >> 32u64) as u8,
        (k >> 24u64) as u8,
        (k >> 16u64) as u8,
        (k >> 8u64) as u8,
        k as u8,
    )
}

/// The text is the canonical text of some address.
pub open spec fn is_mac_text(t: Seq<char>) -> bool {
    exists|m: MacAddr| mac_text(m) == t
}

/// The address whose canonical text is `t`, where there is one.
pub open spec fn mac_of_text(t: Seq<char>) -> MacAddr {
    choose|m: MacAddr| mac_text(m) == t
}

/// The parse of a canonical text.
pub open spec fn parsed_canonical(t: Seq<char>) -> Result<MacAddr, MacParseError> {
    Ok(mac_of_text(t))
}

/// An ASCII hex digit of either case.
pub open spec fn is_hex_digit(c: char) -> bool {
    let u = c as u32;
    ||| (0x30 <= u && u <= 0x39)
    ||| (0x41 <= u && u <= 0x46)
    ||| (0x61 <= u && u <= 0x66)
}

/// The value of a hex digit.
pub open spec fn hex_digit_value(c: char) -> nat {
    let u = c as u32;
    if u <= 0x39 {
        (u - 0x30) as nat
    } else if u <= 0x46 {
        (u - 0x37) as nat
    } else {
        (u - 0x57) as nat
    }
}

/// The number that a string of hex digits denotes.
pub open spec fn hex_value(d: Seq<char>) -> nat
    decreases d.len(),
{
    if d.len() == 0 {
        0
    } else {
        hex_value(d.drop_last()) * 16 + hex_digit_value(d.last())
    }
}

/// `u8::from_str_radix(c, 16)`: an optional `+`, then at least one hex digit
/// (either case), with a value below 256.
pub open spec fn parsed_hex_octet(c: Seq<char>) -> Option<u8> {
    let d = unsigned_digits(c);
    if d.len() > 0 && (forall|i: int| 0 <= i < d.len() ==> is_hex_digit(#[trigger] d[i])) && hex_value(
        d,
    ) <= 255 {
        Some(hex_value(d) as u8)
    } else {
        None
    }
}

/// `str::split(':')`: the pieces between the colons, empty ones included; a
/// text without a colon is one piece.
pub open spec fn split_colon(t: Seq<char>) -> Seq<Seq<char>>
    decreases t.len(),
{
    if t.len() == 0 {
        seq![Seq::<char>::empty()]
    } else {
        let rest = split_colon(t.drop_first());
        if t[0] == ':' {
            seq![Seq::<char>::empty()] + rest
        } else {
            rest.update(0, seq![t[0]] + rest[0])
        }
    }
}

/// `<netdev::MacAddr as FromStr>::from_str`, octets and error kind carried over
/// one for one: the text is split at `:`; the components are read in order
/// with `u8::from_str_radix(_, 16)`, a seventh component failing as too many
/// before it is read; an unreadable one among the first six fails as an
/// invalid component; fewer than six fail as too few.
pub open spec fn mac_from_text(t: Seq<char>) -> Result<MacAddr, MacParseError> {
    let parts = split_colon(t);
    let checked = if parts.len() < 6 {
        parts.len() as int
    } else {
        6int
    };
    if exists|j: int| 0 <= j < checked && (#[trigger] parsed_hex_octet(parts[j])) is None {
        Err(MacParseError::InvalidComponent)
    } else if parts.len() > 6 {
        Err(MacParseError::TooManyComponents)
    } else if parts.len() < 6 {
        Err(MacParseError::TooFewComponents)
    } else {
        Ok(
            MacAddr(
                parsed_hex_octet(parts[0])->0,
                parsed_hex_octet(parts[1])->0,
                parsed_hex_octet(parts[2])->0,
                parsed_hex_octet(parts[3])->0,
                parsed_hex_octet(parts[4])->0,
                parsed_hex_octet(parts[5])->0,
            ),
        )
    }
}

/// Parses a MAC address with `<netdev::MacAddr as FromStr>::from_str` (the type
/// is `mac_addr::MacAddr`, which netdev re-exports).
///
/// Claimed of it: the result is `mac_from_text` of the text, which follows the
/// parser's source (mac-addr's `from_str` over `str::split` and
/// `u8::from_str_radix`).
#[verifier::external_body]
fn netdev_parse_mac(s: &str) -> (r: Result<MacAddr, MacParseError>)
    ensures
        r == mac_from_text(s@),
{
    match s.parse::<netdev::MacAddr>() {
        Ok(m) => Ok(MacAddr(m.0, m.1, m.2, m.3, m.4, m.5)),
        Err(mac_addr::ParseMacAddrError::TooManyComponents) => Err(MacParseError::TooManyComponents),
        Err(mac_addr::ParseMacAddrError::TooFewComponents) => Err(MacParseError::TooFewComponents),
        Err(mac_addr::ParseMacAddrError::InvalidComponent) => Err(MacParseError::InvalidComponent),
    }
}

/// A text without a colon is one piece.
proof fn lemma_split_no_colon(a: Seq<char>)
    requires
        forall|i: int| 0 <= i < a.len() ==> a[i] != ':',
    ensures
        split_colon(a) == seq![a],
    decreases a.len(),
{
    if a.len() > 0 {
        lemma_split_no_colon(a.drop_first());
        assert(seq![a[0]] + a.drop_first() =~= a);
        assert(split_colon(a.drop_first()).update(0, seq![a[0]] + a.drop_first()) =~= seq![a]);
    } else {
        assert(a =~= Seq::<char>::empty());
    }
}

/// Splitting a colon-free piece, a colon, and the rest.
proof fn lemma_split_piece(a: Seq<char>, b: Seq<char>)
    requires
        forall|i: int| 0 <= i < a.len() ==> a[i] != ':',
    ensures
        split_colon(a + seq![':'] + b) == seq![a] + split_colon(b),
    decreases a.len(),
{
    let t = a + seq![':'] + b;
    if a.len() == 0 {
        assert(t.drop_first() =~= b);
        assert(a =~= Seq::<char>::empty());
    } else {
        let a1 = a.drop_first();
        lemma_split_piece(a1, b);
        assert(t.drop_first() =~= a1 + seq![':'] + b);
        assert(seq![a[0]] + a1 =~= a);
        assert((seq![a1] + split_colon(b)).update(0, seq![a[0]] + a1) =~= seq![a] + split_colon(b));
    }
}

proof fn lemma_hex_char_digit(x: nat)
    requires
        x < 16,
    ensures
        is_hex_digit(hex_char(x)),
        hex_digit_value(hex_char(x)) == x,
        hex_char(x) != ':',
        hex_char(x) != '+',
{
}

/// The two hex digits of an octet read back as the octet.
proof fn lemma_hex_octet_parses(b: u8)
    ensures
        parsed_hex_octet(hex_octet(b)) == Some(b),
        forall|i: int| 0 <= i < hex_octet(b).len() ==> hex_octet(b)[i] != ':',
{
    let d = hex_octet(b);
    lemma_hex_char_digit((b / 16) as nat);
    lemma_hex_char_digit((b % 16) as nat);
    assert(unsigned_digits(d) == d);
    assert(d.drop_last() =~= seq![hex_char((b / 16) as nat)]);
    let s1 = d.drop_last();
    assert(s1.drop_last() =~= Seq::<char>::empty());
    assert(hex_value(s1.drop_last()) == 0);
    assert(s1.last() == hex_char((b / 16) as nat));
    assert(hex_value(s1) == hex_value(s1.drop_last()) * 16 + hex_digit_value(s1.last()));
    assert(hex_value(d.drop_last()) == (b / 16) as nat);
    assert(hex_value(d) == (b / 16) as nat * 16 + (b % 16) as nat);
    assert(forall|i: int| 0 <= i < d.len() ==> is_hex_digit(#[trigger] d[i]));
}

/// The canonical text of an address parses as that address.
proof fn lemma_parse_mac_text(m: MacAddr)
    ensures
        mac_from_text(mac_text(m)) == Ok::<MacAddr, MacParseError>(m),
{
    let c = seq![':'];
    let (h0, h1, h2, h3, h4, h5) = (
        hex_octet(m.0),
        hex_octet(m.1),
        hex_octet(m.2),
        hex_octet(m.3),
        hex_octet(m.4),
        hex_octet(m.5),
    );
    lemma_hex_octet_parses(m.0);
    lemma_hex_octet_parses(m.1);
    lemma_hex_octet_parses(m.2);
    lemma_hex_octet_parses(m.3);
    lemma_hex_octet_parses(m.4);
    lemma_hex_octet_parses(m.5);
    let r4 = h4 + c + h5;
    let r3 = h3 + c + r4;
    let r2 = h2 + c + r3;
    let r1 = h1 + c + r2;
    assert(mac_text(m) =~= h0 + c + r1);
    lemma_split_no_colon(h5);
    lemma_split_piece(h4, h5);
    lemma_split_piece(h3, r4);
    lemma_split_piece(h2, r3);
    lemma_split_piece(h1, r2);
    lemma_split_piece(h0, r1);
    let parts = split_colon(mac_text(m));
    assert(parts =~= seq![h0, h1, h2, h3, h4, h5]);
    assert(forall|j: int| 0 <= j < 6 ==> (#[trigger] parsed_hex_octet(parts[j])) is Some);
}

/// A canonical text parses as the address it is the text of.
proof fn lemma_parse_canonical(t: Seq<char>)
    requires
        is_mac_text(t),
    ensures
        mac_from_text(t) == parsed_canonical(t),
{
    let m = mac_of_text(t);
    lemma_parse_mac_text(m);
}

/// Reading the integer key back gives the address; keys are below 2^48.
pub proof fn lemma_mac_key_roundtrip(m: MacAddr)
    ensures
        mac_of_key(mac_key(m)) == m,
        mac_key(m) < 0x1_0000_0000_0000,
{
    let (a, b, c, d, e, f) = (m.0, m.1, m.2, m.3, m.4, m.5);
    let k = mac_key(m);
    assert(k == (a as u64) << 40u64 | (b as u64) << 32u64 | (c as u64) << 24u64 | (d as u64)
        << 16u64 | (e as u64) << 8u64 | (f as u64));
    assert(((((a as u64) << 40u64 | (b as u64) << 32u64 | (c as u64) << 24u64 | (d as u64)
        << 16u64 | (e as u64) << 8u64 | (f as u64)) >> 40u64) as u8) == a) by (bit_vector);
    assert(((((a as u64) << 40u64 | (b as u64) << 32u64 | (c as u64) << 24u64 | (d as u64)
        << 16u64 | (e as u64) << 8u64 | (f as u64)) >> 32u64) as u8) == b) by (bit_vector);
    assert(((((a as u64) << 40u64 | (b as u64) << 32u64 | (c as u64) << 24u64 | (d as u64)
        << 16u64 | (e as u64) << 8u64 | (f as u64)) >> 24u64) as u8) == c) by (bit_vector);
    assert(((((a as u64) << 40u64 | (b as u64) << 32u64 | (c as u64) << 24u64 | (d as u64)
        << 16u64 | (e as u64) << 8u64 | (f as u64)) >> 16u64) as u8) == d) by (bit_vector);
    assert(((((a as u64) << 40u64 | (b as u64) << 32u64 | (c as u64) << 24u64 | (d as u64)
        << 16u64 | (e as u64) << 8u64 | (f as u64)) >> 8u64) as u8) == e) by (bit_vector);
    assert((((a as u64) << 40u64 | (b as u64) << 32u64 | (c as u64) << 24u64 | (d as u64)
        << 16u64 | (e as u64) << 8u64 | (f as u64)) as u8) == f) by (bit_vector);
    assert(((a as u64) << 40u64 | (b as u64) << 32u64 | (c as u64) << 24u64 | (d as u64)
        << 16u64 | (e as u64) << 8u64 | (f as u64)) < 0x1_0000_0000_0000u64) by (bit_vector);
}

/// Every key below 2^48 is the key of the address read from it.
pub proof fn lemma_key_of_mac_of_key(k: u64)
    requires
        k < 0x1_0000_0000_0000,
    ensures
        mac_key(mac_of_key(k)) == k,
{
    assert(k < 0x1_0000_0000_0000u64 ==> (((k >> 40u64) as u8) as u64) << 40u64 | (((k >> 32u64)
        as u8) as u64) << 32u64 | (((k >> 24u64) as u8) as u64) << 24u64 | (((k >> 16u64) as u8)
        as u64) << 16u64 | (((k >> 8u64) as u8) as u64) << 8u64 | ((k as u8) as u64) == k)
        by (bit_vector);
}

/// Two addresses with the same key are the same address.
pub proof fn lemma_mac_key_injective(m1: MacAddr, m2: MacAddr)
    ensures
        mac_key(m1) == mac_key(m2) <==> m1 == m2,
{
    lemma_mac_key_roundtrip(m1);
    lemma_mac_key_roundtrip(m2);
}

proof fn lemma_hex_char_injective(x: nat, y: nat)
    requires
        x < 16,
        y < 16,
        hex_char(x) == hex_char(y),
    ensures
        x == y,
{
}

proof fn lemma_hex_octet_injective(a: u8, b: u8)
    requires
        hex_octet(a)[0] == hex_octet(b)[0],
        hex_octet(a)[1] == hex_octet(b)[1],
    ensures
        a == b,
{
    lemma_hex_char_injective((a / 16) as nat, (b / 16) as nat);
    lemma_hex_char_injective((a % 16) as nat, (b % 16) as nat);
}

proof fn lemma_mac_text_chars(m: MacAddr)
    ensures
        mac_text(m).len() == 17,
        mac_text(m)[0] == hex_octet(m.0)[0] && mac_text(m)[1] == hex_octet(m.0)[1],
        mac_text(m)[3] == hex_octet(m.1)[0] && mac_text(m)[4] == hex_octet(m.1)[1],
        mac_text(m)[6] == hex_octet(m.2)[0] && mac_text(m)[7] == hex_octet(m.2)[1],
        mac_text(m)[9] == hex_octet(m.3)[0] && mac_text(m)[10] == hex_octet(m.3)[1],
        mac_text(m)[12] == hex_octet(m.4)[0] && mac_text(m)[13] == hex_octet(m.4)[1],
        mac_text(m)[15] == hex_octet(m.5)[0] && mac_text(m)[16] == hex_octet(m.5)[1],
{
    let t = mac_text(m);
    assert(t =~= seq![
        hex_octet(m.0)[0], hex_octet(m.0)[1], ':',
        hex_octet(m.1)[0], hex_octet(m.1)[1], ':',
        hex_octet(m.2)[0], hex_octet(m.2)[1], ':',
        hex_octet(m.3)[0], hex_octet(m.3)[1], ':',
        hex_octet(m.4)[0], hex_octet(m.4)[1], ':',
        hex_octet(m.5)[0], hex_octet(m.5)[1],
    ]);
}

/// Different addresses have different texts.
pub proof fn lemma_mac_text_injective(m1: MacAddr, m2: MacAddr)
    requires
        mac_text(m1) == mac_text(m2),
    ensures
        m1 == m2,
{
    lemma_mac_text_chars(m1);
    lemma_mac_text_chars(m2);
    lemma_hex_octet_injective(m1.0, m2.0);
    lemma_hex_octet_injective(m1.1, m2.1);
    lemma_hex_octet_injective(m1.2, m2.2);
    lemma_hex_octet_injective(m1.3, m2.3);
    lemma_hex_octet_injective(m1.4, m2.4);
    lemma_hex_octet_injective(m1.5, m2.5);
}

/// Writing an address as text and parsing the text gives back the address:
/// a gateway saved in the configuration file is the gateway loaded from it.
pub proof fn law_text_then_parse_round_trips(m: MacAddr)
    ensures
        is_mac_text(mac_text(m)),
        parsed_canonical(mac_text(m)) == Ok::<MacAddr, MacParseError>(m),
{
    assert(mac_text(m) == mac_text(m));
    let c = mac_of_text(mac_text(m));
    assert(mac_text(c) == mac_text(m));
    lemma_mac_text_injective(c, m);
}

fn push_hex_octet(s: &mut String, b: u8)
    ensures
        final(s)@ == old(s)@ + hex_octet(b),
{
    push_char(s, hex_digit(b / 16));
    push_char(s, hex_digit(b % 16));
    assert(final(s)@ =~= old(s)@ + hex_octet(b));
}

impl MacAddr {
    /// The address with the given six octets.
    pub fn new(a: u8, b: u8, c: u8, d: u8, e: u8, f: u8) -> (m: MacAddr)
        ensures
            m == MacAddr(a, b, c, d, e, f),
    {
        MacAddr(a, b, c, d, e, f)
    }

    /// The six octets, first one first.
    pub fn octets(&self) -> (o: [u8; 6])
        ensures
            o@ == seq![self.0, self.1, self.2, self.3, self.4, self.5],
    {
        [self.0, self.1, self.2, self.3, self.4, self.5]
    }

    /// Parses `xx:xx:xx:xx:xx:xx` (hex digits in either case) as netdev does.
    pub fn parse(s: &str) -> (r: Result<MacAddr, MacParseError>)
        ensures
            r == mac_from_text(s@),
            is_mac_text(s@) ==> r == parsed_canonical(s@),
    {
        proof {
            if is_mac_text(s@) {
                lemma_parse_canonical(s@);
            }
        }
        netdev_parse_mac(s)
    }

    /// The canonical text: six lowercase two-digit hex octets separated by `:`.
    pub fn to_string(&self) -> (s: String)
        ensures
            s@ == mac_text(*self),
    {
        let mut s = String::new();
        push_hex_octet(&mut s, self.0);
        push_char(&mut s, ':');
        push_hex_octet(&mut s, self.1);
        push_char(&mut s, ':');
        push_hex_octet(&mut s, self.2);
        push_char(&mut s, ':');
        push_hex_octet(&mut s, self.3);
        push_char(&mut s, ':');
        push_hex_octet(&mut s, self.4);
        push_char(&mut s, ':');
        push_hex_octet(&mut s, self.5);
        assert(s@ =~= mac_text(*self));
        s
    }

    /// The 48-bit integer of the address.
    pub fn key(&self) -> (k: u64)
        ensures
            k == mac_key(*self),
            k < 0x1_0000_0000_0000,
    {
        proof {
            lemma_mac_key_roundtrip(*self);
        }
        (self.0 as u64) << 40u64 | (self.1 as u64) << 32u64 | (self.2 as u64) << 24u64 | (
        self.3 as u64) << 16u64 | (self.4 as u64) << 8u64 | (self.5 as u64)
    }

    /// The address of a 48-bit integer (its low 48 bits).
    pub fn from_key(k: u64) -> (m: MacAddr)
        ensures
            m == mac_of_key(k),
            k < 0x1_0000_0000_0000 ==> mac_key(m) == k,
    {
        let m = MacAddr(
            (k >> 40u64) as u8,
            (k >> 32u64) as u8,
            (k >> 24u64) as u8,
            (k >> 16u64) as u8,
            (k >> 8u64) as u8,
            k as u8,
        );
        proof {
            if k < 0x1_0000_0000_0000 {
                lemma_key_of_mac_of_key(k);
            }
        }
        m
    }
}

impl std::str::FromStr for MacAddr {
    type Err = MacParseError;

    /// Parses as `MacAddr::parse` does.
    fn from_str(s: &str) -> (r: Result<MacAddr, MacParseError>)
        ensures
            r == mac_from_text(s@),
            is_mac_text(s@) ==> r == parsed_canonical(s@),
    {
        MacAddr::parse(s)
    }
}

} // verus!
