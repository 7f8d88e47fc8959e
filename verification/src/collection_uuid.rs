//! Collection identifiers: UUIDs, their canonical text and the texts that
//! parse as one.
use vstd::prelude::*;

verus! {

/// `uuid::Error`: why a text is not a UUID.
#[verifier::external_type_specification]
#[verifier::external_body]
pub struct ExUuidError(uuid::Error);

/// The identifier of a collection: a UUID, held as its 128-bit value (the
/// value of its 16 bytes read big-endian).
#[derive(Debug, Clone, Copy, PartialEq, Eq, Hash, Structural)]
pub struct CollectionUuid(pub u128);

/// `16` to the power `n`.
pub open spec fn pow16(n: nat) -> nat
    decreases n,
{
    if n == 0 {
        1
    } else {
        16 * pow16((n - 1) as nat)
    }
}

/// Nibble `k` of `v`, counting from the most significant of its 32 nibbles.
pub open spec fn nibble(v: u128, k: int) -> nat {
    ((v as nat / pow16((31 - k) as nat)) % 16) as nat
}

/// The lower-case hexadecimal digit of `n` (below 16).
pub open spec fn hex_char(n: nat) -> char {
    if n < 10 {
        (48 + n) as char
    } else {
        (87 + n) as char
    }
}

/// The value of a hexadecimal digit in either case.
pub open spec fn hex_value(c: char) -> Option<nat> {
    if '0' <= c <= '9' {
        Some((c as nat - 48) as nat)
    } else if 'a' <= c <= 'f' {
        Some((c as nat - 87) as nat)
    } else if 'A' <= c <= 'F' {
        Some((c as nat - 55) as nat)
    } else {
        None
    }
}

/// Whether every character of `d` is a hexadecimal digit.
pub open spec fn all_hex(d: Seq<char>) -> bool {
    forall|i: int| 0 <= i < d.len() ==> (#[trigger] hex_value(d[i])) is Some
}

/// The number that the hexadecimal digits `d` spell, most significant first.
pub open spec fn hex_number(d: Seq<char>) -> nat
    decreases d.len(),
{
    if d.len() == 0 {
        0
    } else {
        hex_number(d.drop_last()) * 16 + hex_value(d.last()).unwrap()
    }
}

/// Whether position `p` of a hyphenated UUID holds a hyphen.
pub open spec fn is_hyphen_position(p: int) -> bool {
    p == 8 || p == 13 || p == 18 || p == 23
}

/// The number of hyphens of a hyphenated UUID before position `p`.
pub open spec fn hyphens_before(p: int) -> int {
    (if p > 8 {
        1int
    } else {
        0
    }) + (if p > 13 {
        1int
    } else {
        0
    }) + (if p > 18 {
        1int
    } else {
        0
    }) + (if p > 23 {
        1int
    } else {
        0
    })
}

/// The canonical text of the UUID `v`: 32 lower-case hexadecimal digits in
/// groups of 8, 4, 4, 4 and 12, joined by hyphens.
pub open spec fn spec_uuid_text(v: u128) -> Seq<char> {
    Seq::new(
        36,
        |p: int|
            if is_hyphen_position(p) {
                '-'
            } else {
                hex_char(nibble(v, p - hyphens_before(p)))
            },
    )
}

/// The 32 digits of a 36-character hyphenated UUID text, hyphens left out.
pub open spec fn hyphenated_digits(h: Seq<char>) -> Seq<char> {
    h.subrange(0, 8) + h.subrange(9, 13) + h.subrange(14, 18) + h.subrange(19, 23) + h.subrange(
        24,
        36,
    )
}

/// The UUID that 32 hexadecimal digits spell.
pub open spec fn parse_digits(d: Seq<char>) -> Option<u128> {
    if d.len() == 32 && all_hex(d) {
        Some(hex_number(d) as u128)
    } else {
        None
    }
}

/// The UUID of a 36-character hyphenated text.
pub open spec fn parse_hyphenated(h: Seq<char>) -> Option<u128> {
    if h.len() == 36 && h[8] == '-' && h[13] == '-' && h[18] == '-' && h[23] == '-' {
        parse_digits(hyphenated_digits(h))
    } else {
        None
    }
}

/// Whether `c` is the ASCII letter or sign `lower` in either case.
pub open spec fn eq_ignore_case(c: char, lower: char) -> bool {
    c == lower || ('a' <= lower <= 'z' && c as int == lower as int - 32)
}

/// Whether `s` starts with `urn:uuid:` in any case.
pub open spec fn has_urn_prefix(s: Seq<char>) -> bool {
    let p = seq!['u', 'r', 'n', ':', 'u', 'u', 'i', 'd', ':'];
    s.len() >= 9 && forall|i: int| 0 <= i < 9 ==> eq_ignore_case(#[trigger] s[i], p[i])
}

/// The UUID that `s` names, where it is one of the accepted forms: 32
/// hexadecimal digits; the hyphenated form; the hyphenated form in braces;
/// the hyphenated form after `urn:uuid:`. Digits may be in either case.
pub open spec fn spec_parse_uuid(s: Seq<char>) -> Option<u128> {
    if s.len() == 32 {
        parse_digits(s)
    } else if s.len() == 36 {
        parse_hyphenated(s)
    } else if s.len() == 38 {
        if s[0] == '{' && s[37] == '}' {
            parse_hyphenated(s.subrange(1, 37))
        } else {
            None
        }
    } else if s.len() == 45 {
        if has_urn_prefix(s) {
            parse_hyphenated(s.skip(9))
        } else {
            None
        }
    } else {
        None
    }
}

/// Calls `uuid::Uuid::parse_str`, which accepts exactly the texts of
/// `spec_parse_uuid`, and gives the parsed UUID's 128-bit value.
#[verifier::external_body]
pub(crate) fn parse_uuid_text(s: &str) -> (res: Result<u128, uuid::Error>)
    ensures
        match spec_parse_uuid(s@) {
            Some(v) => res matches Ok(x) && x == v,
            None => res is Err,
        },
{
    let parsed = uuid::Uuid::parse_str(s)?;
    Ok(parsed.as_u128())
}

/// Calls `to_string` on `uuid::Uuid::from_u128(v)`, whose `Display` writes
/// the lower-case hyphenated form.
#[verifier::external_body]
pub(crate) fn uuid_text(v: u128) -> (res: String)
    ensures
        res@ == spec_uuid_text(v),
{
    uuid::Uuid::from_u128(v).to_string()
}

impl CollectionUuid {
    /// Parses a collection id from any of the texts that name a UUID.
    pub fn parse(s: &str) -> (res: Result<CollectionUuid, uuid::Error>)
        ensures
            match spec_parse_uuid(s@) {
                Some(v) => res matches Ok(id) && id.0 == v,
                None => res is Err,
            },
    {
        let v = parse_uuid_text(s)?;
        Ok(CollectionUuid(v))
    }

    /// The canonical text of this collection id.
    pub fn to_string(&self) -> (res: String)
        ensures
            res@ == spec_uuid_text(self.0),
    {
        uuid_text(self.0)
    }
}

proof fn lemma_pow16_128()
    ensures
        pow16(32) == 0x1_0000_0000_0000_0000_0000_0000_0000_0000,
{
    reveal_with_fuel(pow16, 33);
}

proof fn lemma_pow16_pos(n: nat)
    ensures
        pow16(n) >= 1,
    decreases n,
{
    if n > 0 {
        lemma_pow16_pos((n - 1) as nat);
    }
}

/// The digits of `v`'s canonical text, most significant first.
pub open spec fn uuid_digits(v: u128) -> Seq<char> {
    Seq::new(32, |k: int| hex_char(nibble(v, k)))
}

proof fn lemma_hex_number_prefix(v: u128, k: nat)
    requires
        k <= 32,
    ensures
        hex_number(uuid_digits(v).take(k as int)) == v as nat / pow16((32 - k) as nat),
    decreases k,
{
    let d = uuid_digits(v);
    if k == 0 {
        lemma_pow16_128();
        assert(d.take(0) =~= Seq::<char>::empty());
        assert(v as nat / pow16(32) == 0);
    } else {
        let j = (k - 1) as nat;
        lemma_hex_number_prefix(v, j);
        let t = d.take(k as int);
        assert(t.drop_last() =~= d.take(j as int));
        let n = nibble(v, j as int);
        assert(hex_value(hex_char(n)) == Some(n)) by {
            assert(n < 16);
        }
        let m = (31 - j) as nat;
        lemma_pow16_pos(m);
        let q = v as nat / pow16(m);
        assert(pow16((32 - j) as nat) == pow16(m) * 16);
        vstd::arithmetic::div_mod::lemma_div_denominator(v as int, pow16(m) as int, 16);
        assert(v as nat / pow16((32 - j) as nat) == q / 16);
        vstd::arithmetic::div_mod::lemma_fundamental_div_mod(q as int, 16);
        assert(t.last() == d[j as int]);
        assert(d[j as int] == hex_char(n));
        assert(n == q % 16);
        assert(hex_number(t) == hex_number(d.take(j as int)) * 16 + n);
        assert(hex_number(t) == (q / 16) * 16 + q % 16);
        assert(q == v as nat / pow16((32 - k) as nat));
    }
}

/// The canonical text of a UUID parses back as the same UUID.
pub proof fn lemma_uuid_text_parses(v: u128)
    ensures
        spec_parse_uuid(spec_uuid_text(v)) == Some(v),
{
    let h = spec_uuid_text(v);
    let d = uuid_digits(v);
    assert(hyphenated_digits(h) =~= d);
    assert forall|i: int| 0 <= i < d.len() implies (#[trigger] hex_value(d[i])) is Some by {
        assert(nibble(v, i) < 16);
    }
    lemma_hex_number_prefix(v, 32);
    assert(d.take(32) =~= d);
    assert(pow16(0) == 1);
    assert(hex_number(d.take(32)) == v as nat / pow16(0));
    assert(v as nat / 1 == v as nat);
    assert(hex_number(d) == v as nat);
    assert(h.len() == 36);
    assert(h[8] == '-' && h[13] == '-' && h[18] == '-' && h[23] == '-');
    assert(parse_digits(d) == Some(v));
    assert(parse_hyphenated(h) == Some(v));
}

} // verus!
