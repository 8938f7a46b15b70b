//! Universally unique identifiers.

use vstd::prelude::*;

verus! {

/// A 128-bit identifier.
#[derive(Clone, Copy, Debug, PartialEq, Eq, PartialOrd, Ord, Hash, Structural)]
pub struct Uuid {
    pub value: u128,
}

/// The `i`th of the sixteen bytes of an identifier, the most significant first.
pub open spec fn id_byte(value: u128, i: int) -> u8 {
    ((value >> ((120 - 8 * i) as u128)) & 0xff) as u8
}

/// The `n`th of the 32 hexadecimal digits of an identifier, the most significant
/// first.
pub open spec fn id_nibble(value: u128, n: int) -> int {
    ((value >> ((124 - 4 * n) as u128)) & 0xf) as int
}

/// The hyphenated form: groups of 8, 4, 4, 4 and 12 lower-case hexadecimal digits.
pub open spec fn id_text(value: u128) -> Seq<char> {
    Seq::new(
        36,
        |i: int|
            if i == 8 || i == 13 || i == 18 || i == 23 {
                '-'
            } else {
                crate::digest::hex_digit(id_nibble(value, id_nibble_index(i)))
            },
    )
}

/// Which digit stands at place `i` of the hyphenated form.
pub open spec fn id_nibble_index(i: int) -> int {
    if i < 8 {
        i
    } else if i < 13 {
        i - 1
    } else if i < 18 {
        i - 2
    } else if i < 23 {
        i - 3
    } else {
        i - 4
    }
}

/// The name-based identifier that `uuid::Uuid::new_v5` derives from a name in the
/// URL name space.
pub uninterp spec fn url_name_id(name: Seq<u8>) -> u128;

/// What `uuid::Uuid::parse_str` reads in a text.
pub uninterp spec fn id_parsed(text: Seq<char>) -> Option<u128>;

/// Calls `uuid::Uuid::new_v5` with the URL name space. The contract only names the
/// identifier, which depends on the name alone.
#[verifier::external_body]
fn uuid_new_v5_url(name: &[u8]) -> (value: u128)
    ensures
        value == url_name_id(name@),
{
    uuid::Uuid::new_v5(&uuid::Uuid::NAMESPACE_URL, name).as_u128()
}

/// Calls `uuid::Uuid::parse_str`. The contract only names the outcome, which
/// depends on the text alone.
#[verifier::external_body]
fn uuid_parse_str(text: &str) -> (value: Option<u128>)
    ensures
        value == id_parsed(text@),
{
    uuid::Uuid::parse_str(text).ok().map(|id| id.as_u128())
}

/// Formats a `uuid::Uuid`, which writes the hyphenated lower-case form; that text
/// reads back as the same identifier.
#[verifier::external_body]
fn uuid_to_string(value: u128) -> (text: String)
    ensures
        text@ == id_text(value),
        id_parsed(text@) == Some(value),
{
    uuid::Uuid::from_u128(value).to_string()
}

impl Uuid {
    pub fn from_u128(value: u128) -> (id: Uuid)
        ensures
            id.value == value,
    {
        Uuid { value }
    }

    pub fn nil() -> (id: Uuid)
        ensures
            id.value == 0,
    {
        Uuid { value: 0 }
    }

    /// The sixteen bytes, the most significant first.
    pub open spec fn bytes(self) -> Seq<u8> {
        Seq::new(16, |i: int| id_byte(self.value, i))
    }

    pub fn to_bytes(&self) -> (bytes: Vec<u8>)
        ensures
            bytes@ == self.bytes(),
    {
        let mut bytes: Vec<u8> = Vec::new();
        for i in 0..16usize
            invariant
                bytes@ == self.bytes().take(i as int),
        {
            let shift: u128 = 120 - 8 * (i as u128);
            let byte: u128 = (self.value >> shift) & 0xff;
            proof {
                let v: u128 = self.value;
                assert(((v >> shift) & 0xff) <= 255u128) by (bit_vector);
            }
            bytes.push(byte as u8);
            proof {
                assert(self.bytes().take(i + 1) =~= self.bytes().take(i as int).push(
                    id_byte(self.value, i as int),
                ));
            }
        }
        proof {
            assert(self.bytes().take(16) =~= self.bytes());
        }
        bytes
    }

    /// The hyphenated lower-case text.
    pub fn to_text(&self) -> (text: String)
        ensures
            text@ == id_text(self.value),
            Uuid::read_as(text@) == Some(*self),
    {
        uuid_to_string(self.value)
    }

    /// The identifier that a text says, if it says one.
    pub open spec fn read_as(text: Seq<char>) -> Option<Uuid> {
        match id_parsed(text) {
            Some(value) => Some(Uuid { value }),
            None => None,
        }
    }

    pub fn parse(text: &str) -> (r: Option<Uuid>)
        ensures
            r == Uuid::read_as(text@),
    {
        match uuid_parse_str(text) {
            Some(value) => Some(Uuid { value }),
            None => None,
        }
    }

    /// The name-based identifier of a name in the URL name space.
    pub open spec fn named(name: Seq<u8>) -> Uuid {
        Uuid { value: url_name_id(name) }
    }

    pub fn from_name(name: &[u8]) -> (id: Uuid)
        ensures
            id == Uuid::named(name@),
    {
        Uuid { value: uuid_new_v5_url(name) }
    }
}

/// An identifier is determined by its bytes.
pub proof fn id_bytes_injective(a: Uuid, b: Uuid)
    ensures
        a.bytes() == b.bytes() ==> a == b,
{
    if a.bytes() == b.bytes() {
        assert forall|i: int| 0 <= i < 16 implies id_byte(a.value, i) == id_byte(b.value, i) by {
            assert(a.bytes()[i] == b.bytes()[i]);
        }
        let x = a.value;
        let y = b.value;
        assert(id_byte(x, 0) == id_byte(y, 0) && id_byte(x, 1) == id_byte(y, 1) && id_byte(x, 2)
            == id_byte(y, 2) && id_byte(x, 3) == id_byte(y, 3) && id_byte(x, 4) == id_byte(y, 4)
            && id_byte(x, 5) == id_byte(y, 5) && id_byte(x, 6) == id_byte(y, 6) && id_byte(x, 7)
            == id_byte(y, 7) && id_byte(x, 8) == id_byte(y, 8) && id_byte(x, 9) == id_byte(y, 9)
            && id_byte(x, 10) == id_byte(y, 10) && id_byte(x, 11) == id_byte(y, 11) && id_byte(
            x,
            12,
        ) == id_byte(y, 12) && id_byte(x, 13) == id_byte(y, 13) && id_byte(x, 14) == id_byte(y, 14)
            && id_byte(x, 15) == id_byte(y, 15));
        assert(x == y) by (bit_vector)
            requires
                ((x >> 120u128) & 0xff) as u8 == ((y >> 120u128) & 0xff) as u8,
                ((x >> 112u128) & 0xff) as u8 == ((y >> 112u128) & 0xff) as u8,
                ((x >> 104u128) & 0xff) as u8 == ((y >> 104u128) & 0xff) as u8,
                ((x >> 96u128) & 0xff) as u8 == ((y >> 96u128) & 0xff) as u8,
                ((x >> 88u128) & 0xff) as u8 == ((y >> 88u128) & 0xff) as u8,
                ((x >> 80u128) & 0xff) as u8 == ((y >> 80u128) & 0xff) as u8,
                ((x >> 72u128) & 0xff) as u8 == ((y >> 72u128) & 0xff) as u8,
                ((x >> 64u128) & 0xff) as u8 == ((y >> 64u128) & 0xff) as u8,
                ((x >> 56u128) & 0xff) as u8 == ((y >> 56u128) & 0xff) as u8,
                ((x >> 48u128) & 0xff) as u8 == ((y >> 48u128) & 0xff) as u8,
                ((x >> 40u128) & 0xff) as u8 == ((y >> 40u128) & 0xff) as u8,
                ((x >> 32u128) & 0xff) as u8 == ((y >> 32u128) & 0xff) as u8,
                ((x >> 24u128) & 0xff) as u8 == ((y >> 24u128) & 0xff) as u8,
                ((x >> 16u128) & 0xff) as u8 == ((y >> 16u128) & 0xff) as u8,
                ((x >> 8u128) & 0xff) as u8 == ((y >> 8u128) & 0xff) as u8,
                ((x >> 0u128) & 0xff) as u8 == ((y >> 0u128) & 0xff) as u8,
        ;
    }
}

/// The first `n` hexadecimal digits of an identifier, as a number.
spec fn top_digits(value: u128, n: int) -> int {
    if n <= 0 {
        0
    } else {
        (value >> ((128 - 4 * n) as u128)) as int
    }
}

proof fn top_digits_step(value: u128, n: int)
    requires
        0 <= n < 32,
    ensures
        top_digits(value, n + 1) == 16 * top_digits(value, n) + id_nibble(value, n),
        0 <= id_nibble(value, n) < 16,
{
    let s = (124 - 4 * n) as u128;
    assert((value >> s) & 0xf < 16) by (bit_vector);
    if n == 0 {
        assert((value >> 124u128) & 0xf == value >> 124u128) by (bit_vector);
    } else {
        let t = (128 - 4 * n) as u128;
        assert((value >> s) / 16 == value >> t && (value >> s) % 16 == (value >> s) & 0xf)
            by (bit_vector)
            requires
                s <= 120,
                t == s + 4,
        ;
    }
}

proof fn top_digits_monotone(a: u128, b: u128, n: int)
    requires
        a <= b,
        0 <= n <= 32,
    ensures
        top_digits(a, n) <= top_digits(b, n),
{
    if n > 0 {
        let s = (128 - 4 * n) as u128;
        assert(a >> s <= b >> s) by (bit_vector)
            requires
                a <= b,
                s < 128,
        ;
    }
}

proof fn first_digit_apart(a: u128, b: u128, n: int) -> (k: int)
    requires
        a < b,
        0 <= n <= 32,
        top_digits(a, n) == top_digits(b, n),
    ensures
        n <= k < 32,
        forall|m: int| n <= m < k ==> #[trigger] id_nibble(a, m) == id_nibble(b, m),
        0 <= id_nibble(a, k) < id_nibble(b, k) < 16,
    decreases 32 - n,
{
    if n == 32 {
        assert(a >> 0u128 == a) by (bit_vector);
        assert(b >> 0u128 == b) by (bit_vector);
        n
    } else {
        top_digits_step(a, n);
        top_digits_step(b, n);
        top_digits_monotone(a, b, n + 1);
        if id_nibble(a, n) == id_nibble(b, n) {
            first_digit_apart(a, b, n + 1)
        } else {
            n
        }
    }
}

/// Identifiers sort by their texts as they sort by their values.
pub proof fn id_texts_sort_like_values(a: u128, b: u128)
    ensures
        crate::order::lex_before(
            crate::order::code_points(id_text(a)),
            crate::order::code_points(id_text(b)),
        ) <==> a < b,
{
    if a < b {
        smaller_id_sorts_first(a, b);
    } else if b < a {
        smaller_id_sorts_first(b, a);
        if crate::order::lex_before(
            crate::order::code_points(id_text(a)),
            crate::order::code_points(id_text(b)),
        ) {
            crate::order::lex_transitive(
                crate::order::code_points(id_text(a)),
                crate::order::code_points(id_text(b)),
                crate::order::code_points(id_text(a)),
            );
            crate::order::lex_irreflexive(crate::order::code_points(id_text(a)));
        }
    } else {
        crate::order::lex_irreflexive(crate::order::code_points(id_text(a)));
    }
}

proof fn smaller_id_sorts_first(a: u128, b: u128)
    requires
        a < b,
    ensures
        crate::order::lex_before(
            crate::order::code_points(id_text(a)),
            crate::order::code_points(id_text(b)),
        ),
{
    let k = first_digit_apart(a, b, 0);
    let place = if k < 8 {
        k
    } else if k < 12 {
        k + 1
    } else if k < 16 {
        k + 2
    } else if k < 20 {
        k + 3
    } else {
        k + 4
    };
    let x = crate::order::code_points(id_text(a));
    let y = crate::order::code_points(id_text(b));
    assert(id_nibble_index(place) == k);
    assert forall|i: int| 0 <= i < place implies x[i] == y[i] by {
        if i == 8 || i == 13 || i == 18 || i == 23 {
        } else {
            let m = id_nibble_index(i);
            assert(0 <= m < k);
            assert(id_nibble(a, m) == id_nibble(b, m));
        }
    }
    assert(x.take(place) =~= y.take(place));
    assert(x[place] == crate::digest::hex_digit(id_nibble(a, k)) as int);
    assert(y[place] == crate::digest::hex_digit(id_nibble(b, k)) as int);
    crate::order::lex_first_difference(x, y, place);
}

/// The text of an identifier says where it ends and which identifier it is.
pub proof fn texts_are_self_delimiting(a: u128, b: u128, x: Seq<char>, y: Seq<char>)
    requires
        id_text(a) + x == id_text(b) + y,
    ensures
        a == b,
        x == y,
{
    assert((id_text(a) + x).take(36) =~= id_text(a));
    assert((id_text(b) + y).take(36) =~= id_text(b));
    id_texts_sort_like_values(a, b);
    id_texts_sort_like_values(b, a);
    crate::order::lex_irreflexive(crate::order::code_points(id_text(a)));
    crate::json::same_rest(id_text(a), x, y);
}

} // verus!
