//! The ids under which Git keeps its objects.

use vstd::prelude::*;
use vstd::utf8::encode_utf8;

verus! {

/// The number that a hexadecimal digit stands for, none for another character.
pub open spec fn hex_value(c: char) -> Option<int> {
    if '0' <= c <= '9' {
        Some(c as int - '0' as int)
    } else if 'a' <= c <= 'f' {
        Some(c as int - 'a' as int + 10)
    } else if 'A' <= c <= 'F' {
        Some(c as int - 'A' as int + 10)
    } else {
        None
    }
}

/// The lower-case hexadecimal digit for a number below sixteen.
pub open spec fn hex_digit(value: int) -> char {
    if value < 10 {
        ('0' as int + value) as char
    } else {
        ('a' as int + value - 10) as char
    }
}

/// Whether `text` names an object: one to forty hexadecimal digits.
pub open spec fn names_object(text: Seq<char>) -> bool {
    &&& 1 <= text.len() <= 40
    &&& forall|i: int| 0 <= i < text.len() ==> hex_value(#[trigger] text[i]) is Some
}

/// The value of the digit at position `i`, zero behind the last one.
pub open spec fn nibble(text: Seq<char>, i: int) -> int {
    if 0 <= i < text.len() {
        hex_value(text[i]).unwrap()
    } else {
        0
    }
}

/// The id that `text` names: its digits, two to a byte, filled up with zeros.
pub open spec fn named_id(text: Seq<char>) -> Seq<u8> {
    Seq::new(20, |i: int| (16 * nibble(text, 2 * i) + nibble(text, 2 * i + 1)) as u8)
}

/// An id in hexadecimal digits, two for each byte.
pub open spec fn hex_text(id: Seq<u8>) -> Seq<char> {
    Seq::new(
        2 * id.len(),
        |i: int|
            hex_digit(
                if i % 2 == 0 {
                    id[i / 2] as int / 16
                } else {
                    id[i / 2] as int % 16
                },
            ),
    )
}

/// What git2 has against a text that names no object: it has no characters, takes
/// more than forty bytes, or holds a character that is no digit.
pub open spec fn id_complaint(text: Seq<char>) -> Seq<char> {
    if text.len() == 0 {
        "unable to parse OID - too short; class=Invalid (3)"@
    } else if encode_utf8(text).len() > 40 {
        "unable to parse OID - too long; class=Invalid (3)"@
    } else {
        "unable to parse OID - contains invalid characters; class=Invalid (3)"@
    }
}

/// Calls `git2::Oid::from_str`, which takes one to forty hexadecimal digits,
/// fills them up with zeros behind the last one, and refuses any other text with
/// one of three errors. The error is written out with its class.
#[verifier::external_body]
fn parse_id(text: &str) -> (id: Result<[u8; 20], String>)
    ensures
        match id {
            Ok(id) => names_object(text@) && id@ == named_id(text@),
            Err(complaint) => !names_object(text@) && complaint@ == id_complaint(text@),
        },
{
    match git2::Oid::from_str(text) {
        Ok(oid) => Ok(oid.as_bytes().try_into().unwrap()),
        Err(error) => Err(error.to_string()),
    }
}

/// Formats a `git2::Oid`, which gives two lower-case hexadecimal digits for
/// each of its twenty bytes.
#[verifier::external_body]
fn print_id(id: &[u8; 20]) -> (text: String)
    ensures
        text@ == hex_text(id@),
{
    git2::Oid::from_bytes(id).unwrap().to_string()
}

/// The id of a Git object.
#[derive(Debug, Clone, Copy, PartialEq, Eq)]
pub struct Oid {
    pub id: [u8; 20],
}

impl View for Oid {
    type V = Seq<u8>;

    open spec fn view(&self) -> Seq<u8> {
        self.id@
    }
}

impl Oid {
    /// Reads an id, or says what git2 has against the text.
    pub fn from_str(text: &str) -> (oid: Result<Oid, String>)
        ensures
            match oid {
                Ok(oid) => names_object(text@) && oid@ == named_id(text@),
                Err(complaint) => !names_object(text@) && complaint@ == id_complaint(text@),
            },
    {
        match parse_id(text) {
            Ok(id) => Ok(Oid { id }),
            Err(complaint) => Err(complaint),
        }
    }

    /// The forty hexadecimal digits of the id.
    pub fn to_hex(&self) -> (text: String)
        ensures
            text@ == hex_text(self@),
    {
        print_id(&self.id)
    }

    /// The first seven hexadecimal digits of the id.
    pub fn short_id(&self) -> (text: String)
        ensures
            text@ == hex_text(self@).take(7),
    {
        let text = self.to_hex();
        assert(self@.len() == 20);
        text.as_str().substring_char(0, 7).to_string()
    }
}

/// Reading an id that was written out gives the id back.
pub proof fn reading_a_written_id(oid: Oid)
    ensures
        names_object(hex_text(oid@)),
        named_id(hex_text(oid@)) == oid@,
{
    let text = hex_text(oid@);
    assert(oid@.len() == 20);
    assert forall|v: int| 0 <= v < 16 implies hex_value(#[trigger] hex_digit(v)) == Some(v) by {}
    assert forall|i: int| 0 <= i < 20 implies named_id(text)[i] == #[trigger] oid@[i] by {
        assert(text[2 * i] == hex_digit(oid@[i] as int / 16));
        assert(text[2 * i + 1] == hex_digit(oid@[i] as int % 16));
    }
    assert(named_id(text) =~= oid@);
}

/// An id is written in forty lower-case hexadecimal digits.
pub proof fn ids_are_written_in_lower_case(oid: Oid)
    ensures
        hex_text(oid@).len() == 40,
        forall|i: int|
            0 <= i < 40 ==> {
                let c = #[trigger] hex_text(oid@)[i];
                '0' <= c <= '9' || 'a' <= c <= 'f'
            },
{
    assert(oid@.len() == 20);
    assert forall|v: int| 0 <= v < 16 implies {
        let c = #[trigger] hex_digit(v);
        '0' <= c <= '9' || 'a' <= c <= 'f'
    } by {}
}

/// The sixteen digits, in either case, stand for the numbers below sixteen, and no
/// other character stands for one.
pub proof fn hexadecimal_digits(c: char)
    ensures
        hex_value(c) is Some <==> '0' <= c <= '9' || 'a' <= c <= 'f' || 'A' <= c <= 'F',
        hex_value(c) matches Some(value) ==> 0 <= value < 16 && (c == "0123456789abcdef"@[value]
            || c == "0123456789ABCDEF"@[value]),
        forall|value: int|
            0 <= value < 16 ==> #[trigger] hex_digit(value) == "0123456789abcdef"@[value],
{
    reveal_strlit("0123456789abcdef");
    reveal_strlit("0123456789ABCDEF");
}

/// A text names an object where it has one to forty characters and all of them
/// are hexadecimal digits. The id that it names starts with these digits, and all
/// others are zeros.
pub proof fn named_ids_start_with_the_text(text: Seq<char>)
    ensures
        names_object(text) <==> text.len() > 0 && text.len() <= 40 && text.all(
            |c: char| '0' <= c <= '9' || 'a' <= c <= 'f' || 'A' <= c <= 'F',
        ),
        named_id(text).len() == 20,
        names_object(text) ==> forall|i: int|
            0 <= i < 40 ==> hex_value(#[trigger] hex_text(named_id(text))[i]) == (if i
                < text.len() {
                hex_value(text[i])
            } else {
                Some(0int)
            }),
{
    let digit = |c: char| '0' <= c <= '9' || 'a' <= c <= 'f' || 'A' <= c <= 'F';
    assert forall|i: int| 0 <= i < text.len() implies digit(#[trigger] text[i]) == (hex_value(
        text[i],
    ) is Some) by {}
    if text.all(digit) {
        assert forall|i: int| 0 <= i < text.len() implies hex_value(#[trigger] text[i]) is Some by {
            assert(digit(text[i]));
        }
    }
    if names_object(text) {
        assert forall|i: int| 0 <= i < 40 implies hex_value(
            #[trigger] hex_text(named_id(text))[i],
        ) == (if i < text.len() {
            hex_value(text[i])
        } else {
            Some(0int)
        }) by {
            assert forall|v: int| 0 <= v < 16 implies hex_value(#[trigger] hex_digit(v)) == Some(
                v,
            ) by {}
            let high = nibble(text, 2 * (i / 2));
            let low = nibble(text, 2 * (i / 2) + 1);
            assert(0 <= high < 16 && 0 <= low < 16);
            assert(named_id(text)[i / 2] == 16 * high + low);
            assert((16 * high + low) / 16 == high && (16 * high + low) % 16 == low);
            if i % 2 == 0 {
                assert(hex_text(named_id(text))[i] == hex_digit(high));
            } else {
                assert(hex_text(named_id(text))[i] == hex_digit(low));
            }
        }
    }
}

/// What is told of a text that names no object.
pub proof fn complaints_about_ids(text: Seq<char>)
    ensures
        id_complaint(text) == "unable to parse OID - "@ + (if text.len() == 0 {
            "too short"@
        } else if encode_utf8(text).len() > 40 {
            "too long"@
        } else {
            "contains invalid characters"@
        }) + "; class=Invalid (3)"@,
{
    reveal_strlit("unable to parse OID - ");
    reveal_strlit("too short");
    reveal_strlit("too long");
    reveal_strlit("contains invalid characters");
    reveal_strlit("; class=Invalid (3)");
    reveal_strlit("unable to parse OID - too short; class=Invalid (3)");
    reveal_strlit("unable to parse OID - too long; class=Invalid (3)");
    reveal_strlit("unable to parse OID - contains invalid characters; class=Invalid (3)");
    assert("unable to parse OID - "@ + "too short"@ + "; class=Invalid (3)"@
        =~= "unable to parse OID - too short; class=Invalid (3)"@);
    assert("unable to parse OID - "@ + "too long"@ + "; class=Invalid (3)"@
        =~= "unable to parse OID - too long; class=Invalid (3)"@);
    assert("unable to parse OID - "@ + "contains invalid characters"@ + "; class=Invalid (3)"@
        =~= "unable to parse OID - contains invalid characters; class=Invalid (3)"@);
}

} // verus!
