use vstd::prelude::*;

verus! {

/// A 128-bit universally unique identifier, held as one big-endian integer:
/// the first byte of the identifier is the most significant byte of `value`.
#[derive(Clone, Copy, Debug, PartialEq, Eq, Structural)]
pub struct Uuid {
    pub value: u128,
}

/// The version field: the high four bits of byte 6.
pub open spec fn version_of(v: u128) -> u128 {
    (v >> 76u128) & 0xfu128
}

/// The two high bits of byte 8, which give the variant.
pub open spec fn variant_bits_of(v: u128) -> u128 {
    (v >> 62u128) & 0x3u128
}

/// A version-4 identifier of the RFC 4122 variant (bits `10`).
pub open spec fn is_v4(v: u128) -> bool {
    version_of(v) == 4 && variant_bits_of(v) == 2
}

/// What a version-4 identifier built from the random bits `r` holds:
/// `r` with the version nibble set to `0100` and the variant bits to `10`.
pub open spec fn v4_from_bits(r: u128) -> u128 {
    r & 0xFFFFFFFFFFFF0FFF3FFFFFFFFFFFFFFFu128 | 0x40008000000000000000u128
}

/// Relies on `getrandom::fill`: 16 bytes from the operating system's
/// random source, or `None` where that source fails. Nothing is known of the
/// bits drawn.
#[verifier::external_body]
fn draw_random_bits() -> (r: Option<u128>) {
    let mut bytes = [0u8; 16];
    match getrandom::fill(&mut bytes) {
        Ok(()) => Some(u128::from_ne_bytes(bytes)),
        Err(_) => None,
    }
}

/// Relies on `uuid::Builder::from_random_bytes`: the bytes taken as a
/// big-endian integer, with the variant and then the version bits set.
#[verifier::external_body]
fn v4_value_from_random(r: u128) -> (u: u128)
    ensures
        u == v4_from_bits(r),
{
    uuid::Builder::from_random_bytes(r.to_be_bytes()).into_uuid().as_u128()
}

proof fn lemma_v4_from_bits(r: u128)
    ensures
        is_v4(v4_from_bits(r)),
{
    assert(((r & 0xFFFFFFFFFFFF0FFF3FFFFFFFFFFFFFFFu128 | 0x40008000000000000000u128) >> 76u128)
        & 0xfu128 == 4u128) by (bit_vector);
    assert(((r & 0xFFFFFFFFFFFF0FFF3FFFFFFFFFFFFFFFu128 | 0x40008000000000000000u128) >> 62u128)
        & 0x3u128 == 2u128) by (bit_vector);
}

impl Uuid {
    /// The version field of the identifier.
    pub fn version(&self) -> (r: u8)
        ensures
            r as u128 == version_of(self.value),
    {
        let v = self.value;
        assert((v >> 76u128) & 0xfu128 <= 15u128) by (bit_vector);
        ((v >> 76u128) & 0xfu128) as u8
    }

    /// The two variant bits of the identifier (`2`, that is `10`, for RFC 4122).
    pub fn variant_bits(&self) -> (r: u8)
        ensures
            r as u128 == variant_bits_of(self.value),
    {
        let v = self.value;
        assert((v >> 62u128) & 0x3u128 <= 3u128) by (bit_vector);
        ((v >> 62u128) & 0x3u128) as u8
    }
}

/// The version-4 identifier made from the 128 random bits that a random
/// source supplied, or `EntropyUnavailable` where it supplied none.
pub fn uuid_v4_from_entropy(random: Option<u128>) -> (r: Result<Uuid, crate::error::Error>)
    ensures
        r is Ok <==> random is Some,
        random matches Some(bits) ==> r == Ok::<Uuid, crate::error::Error>(
            Uuid { value: v4_from_bits(bits) },
        ),
        random is None ==> r == Err::<Uuid, crate::error::Error>(crate::error::Error::EntropyUnavailable),
{
    match random {
        Some(bits) => {
            let v = v4_value_from_random(bits);
            proof {
                lemma_v4_from_bits(bits);
            }
            Ok(Uuid { value: v })
        },
        None => Err(crate::error::Error::EntropyUnavailable),
    }
}

/// A new random version-4 identifier of the RFC 4122 variant, drawn from
/// the operating system's random source, or `EntropyUnavailable` where that
/// source supplies no bits.
pub fn random_uuid_v4() -> (r: Result<Uuid, crate::error::Error>)
    ensures
        r matches Ok(u) ==> is_v4(u.value) && exists|bits: u128| u.value == #[trigger] v4_from_bits(
            bits,
        ),
        r matches Err(e) ==> e == crate::error::Error::EntropyUnavailable,
{
    let random = draw_random_bits();
    let r = uuid_v4_from_entropy(random);
    proof {
        if let Some(bits) = random {
            lemma_v4_from_bits(bits);
            assert(r->Ok_0.value == v4_from_bits(bits));
        }
    }
    r
}

/// The bits that a version-4 identifier takes from its random source: all
/// but the version nibble and the two variant bits.
pub open spec fn random_part(r: u128) -> u128 {
    r & 0xFFFFFFFFFFFF0FFF3FFFFFFFFFFFFFFFu128
}

/// Nothing of the random bits but the six fixed ones is lost: random bits
/// that differ anywhere else give different identifiers.
pub proof fn lemma_v4_distinct(a: u128, b: u128)
    requires
        random_part(a) != random_part(b),
    ensures
        v4_from_bits(a) != v4_from_bits(b),
{
    assert((a & 0xFFFFFFFFFFFF0FFF3FFFFFFFFFFFFFFFu128) != (b & 0xFFFFFFFFFFFF0FFF3FFFFFFFFFFFFFFFu128)
        ==> (a & 0xFFFFFFFFFFFF0FFF3FFFFFFFFFFFFFFFu128 | 0x40008000000000000000u128) != (b
        & 0xFFFFFFFFFFFF0FFF3FFFFFFFFFFFFFFFu128 | 0x40008000000000000000u128)) by (bit_vector);
}

/// The lower-case hexadecimal character of a digit `d < 16`.
pub open spec fn hex_char(d: nat) -> char {
    if d < 10 {
        ((d + 48) as u8) as char
    } else {
        ((d + 87) as u8) as char
    }
}

/// The digit that a lower-case hexadecimal character stands for.
pub open spec fn hex_digit_of(c: char) -> nat {
    if c as u32 <= 57 {
        (c as u32 - 48) as nat
    } else {
        (c as u32 - 87) as nat
    }
}

/// `16` to the power `n`.
pub open spec fn pow16(n: nat) -> nat
    decreases n,
{
    if n == 0 {
        1
    } else {
        16 * pow16((n - 1) as nat)
    }
}

/// The last `n` hexadecimal digits of `v`, most significant first.
pub open spec fn hex_digits(v: nat, n: nat) -> Seq<nat>
    decreases n,
{
    if n == 0 {
        seq![]
    } else {
        hex_digits(v / 16, (n - 1) as nat).push(v % 16)
    }
}

/// The number that a sequence of hexadecimal digits denotes.
pub open spec fn hex_value(ds: Seq<nat>) -> nat
    decreases ds.len(),
{
    if ds.len() == 0 {
        0
    } else {
        hex_value(ds.drop_last()) * 16 + ds.last()
    }
}

/// The canonical text of an identifier: its 32 lower-case hexadecimal
/// digits, most significant first, in groups of 8, 4, 4, 4 and 12 joined by
/// hyphens (`f47ac10b-58cc-4372-a567-0e02b2c3d479`).
pub open spec fn canonical_of(v: u128) -> Seq<char> {
    let h = hex_digits(v as nat, 32).map_values(|d: nat| hex_char(d));
    h.subrange(0, 8) + seq!['-'] + h.subrange(8, 12) + seq!['-'] + h.subrange(12, 16) + seq!['-']
        + h.subrange(16, 20) + seq!['-'] + h.subrange(20, 32)
}

/// The value that a text in the canonical layout denotes: the hyphens at
/// positions 8, 13, 18 and 23 are skipped and the 32 digits read.
pub open spec fn value_of_canonical(s: Seq<char>) -> nat {
    let h = s.subrange(0, 8) + s.subrange(9, 13) + s.subrange(14, 18) + s.subrange(19, 23)
        + s.subrange(24, 36);
    hex_value(h.map_values(|c: char| hex_digit_of(c)))
}

/// Relies on `uuid::Uuid::hyphenated` and its `Display`: the identifier's
/// 16 big-endian bytes as lower-case hexadecimal, two digits a byte, with
/// hyphens after the 8th, 12th, 16th and 20th digit.
#[verifier::external_body]
fn format_hyphenated(v: u128) -> (r: String)
    ensures
        r@ == canonical_of(v),
{
    uuid::Uuid::from_u128(v).hyphenated().to_string()
}

/// Relies on `uuid::Uuid::parse_str`, which reads among other layouts the
/// hyphenated one, with digits of either case; any text it refuses gives
/// `None`. It accepts only ASCII text of 32 digits, of 36 characters
/// (hyphenated), of 38 (braced) or of 45 (with a `urn:uuid:` prefix).
#[verifier::external_body]
fn parse_value(s: &str) -> (r: Option<u128>)
    ensures
        forall|v: u128| s@ == #[trigger] canonical_of(v) ==> r == Some(v),
        r is Some ==> s@.len() == 32 || s@.len() == 36 || s@.len() == 38 || s@.len() == 45,
{
    match uuid::Uuid::parse_str(s) {
        Ok(u) => Some(u.as_u128()),
        Err(_) => None,
    }
}

proof fn lemma_hex_digits(v: nat, n: nat)
    requires
        v < pow16(n),
    ensures
        hex_digits(v, n).len() == n,
        forall|i: int| 0 <= i < n ==> #[trigger] hex_digits(v, n)[i] < 16,
        hex_value(hex_digits(v, n)) == v,
    decreases n,
{
    if n > 0 {
        let p = pow16((n - 1) as nat);
        assert(v / 16 < p) by (nonlinear_arith)
            requires
                v < 16 * p,
        ;
        lemma_hex_digits(v / 16, (n - 1) as nat);
        let ds = hex_digits(v, n);
        assert(ds.drop_last() =~= hex_digits(v / 16, (n - 1) as nat));
    }
}

proof fn lemma_hex_char_digit(d: nat)
    requires
        d < 16,
    ensures
        hex_digit_of(hex_char(d)) == d,
{
}

/// An identifier's canonical text loses nothing: reading it back gives the
/// identifier's value, so two identifiers with the same text are equal.
pub proof fn lemma_canonical_round_trip(u: Uuid)
    ensures
        value_of_canonical(canonical_of(u.value)) == u.value,
        forall|w: Uuid| canonical_of(w.value) == canonical_of(u.value) ==> w == u,
{
    assert forall|v: u128| value_of_canonical(#[trigger] canonical_of(v)) == v by {
        reveal_with_fuel(pow16, 33);
        assert(pow16(32) == 0x1_0000_0000_0000_0000_0000_0000_0000_0000nat);
        lemma_hex_digits(v as nat, 32);
        let ds = hex_digits(v as nat, 32);
        let h = ds.map_values(|d: nat| hex_char(d));
        let s = canonical_of(v);
        let g = s.subrange(0, 8) + s.subrange(9, 13) + s.subrange(14, 18) + s.subrange(19, 23)
            + s.subrange(24, 36);
        assert(g =~= h);
        assert forall|i: int| 0 <= i < 32 implies hex_digit_of(#[trigger] h[i]) == ds[i] by {
            lemma_hex_char_digit(ds[i]);
        }
        assert(g.map_values(|c: char| hex_digit_of(c)) =~= ds);
    }
    assert forall|w: Uuid| canonical_of(w.value) == canonical_of(u.value) implies w == u by {
        assert(value_of_canonical(canonical_of(w.value)) == w.value);
    }
}

impl Uuid {
    /// The canonical hyphenated lower-case text of the identifier.
    pub fn to_hyphenated_string(&self) -> (r: String)
        ensures
            r@ == canonical_of(self.value),
    {
        format_hyphenated(self.value)
    }

    /// Reads an identifier from text. Canonical text always reads back as
    /// the identifier it was made from. Other layouts that the `uuid` crate
    /// accepts (no hyphens, braces, a `urn:uuid:` prefix, upper case) read
    /// as well; text of any length but 32, 36, 38 or 45 characters gives
    /// `None`.
    pub fn parse_str(s: &str) -> (r: Option<Uuid>)
        ensures
            forall|v: u128| s@ == #[trigger] canonical_of(v) ==> r == Some(Uuid { value: v }),
            r is Some ==> s@.len() == 32 || s@.len() == 36 || s@.len() == 38 || s@.len() == 45,
    {
        match parse_value(s) {
            Some(v) => Some(Uuid { value: v }),
            None => None,
        }
    }
}

} // verus!
