//! Reading what another program printed: trimming, searching and splitting
//! text, and decoding the bytes that it came as.

use vstd::prelude::*;
use vstd::utf8::{
    decode_utf8, encode_utf8, encode_utf8_decode_utf8, encode_utf8_valid_utf8, valid_utf8,
};

verus! {

/// The characters with the Unicode property `White_Space`.
pub open spec fn white_space(c: char) -> bool {
    ||| 0x9 <= c as u32 <= 0xd
    ||| c as u32 == 0x20
    ||| c as u32 == 0x85
    ||| c as u32 == 0xa0
    ||| c as u32 == 0x1680
    ||| 0x2000 <= c as u32 <= 0x200a
    ||| c as u32 == 0x2028
    ||| c as u32 == 0x2029
    ||| c as u32 == 0x202f
    ||| c as u32 == 0x205f
    ||| c as u32 == 0x3000
}

/// `text` without the white space it starts with.
pub open spec fn trimmed_start(text: Seq<char>) -> Seq<char>
    decreases text.len(),
{
    if text.len() > 0 && white_space(text.first()) {
        trimmed_start(text.drop_first())
    } else {
        text
    }
}

/// `text` without the white space it ends with.
pub open spec fn trimmed_end(text: Seq<char>) -> Seq<char>
    decreases text.len(),
{
    if text.len() > 0 && white_space(text.last()) {
        trimmed_end(text.drop_last())
    } else {
        text
    }
}

/// `text` without the white space around it.
pub open spec fn trimmed(text: Seq<char>) -> Seq<char> {
    trimmed_end(trimmed_start(text))
}

/// Whether `part` occurs in `text`.
pub open spec fn occurs(text: Seq<char>, part: Seq<char>) -> bool {
    exists|i: int| occurs_at(text, part, i)
}

/// Whether `part` stands in `text` at position `i`.
pub open spec fn occurs_at(text: Seq<char>, part: Seq<char>, i: int) -> bool {
    0 <= i && i + part.len() <= text.len() && text.subrange(i, i + part.len()) == part
}

/// What stands between the line feeds of `text`.
pub open spec fn pieces(text: Seq<char>) -> Seq<Seq<char>>
    decreases text.len(),
{
    if text.len() == 0 {
        seq![Seq::<char>::empty()]
    } else {
        let before = pieces(text.drop_last());
        if text.last() == '\n' {
            before.push(Seq::<char>::empty())
        } else {
            before.drop_last().push(before.last().push(text.last()))
        }
    }
}

/// The pieces, trimmed, that are not blank.
pub open spec fn not_blank(pieces: Seq<Seq<char>>) -> Seq<Seq<char>>
    decreases pieces.len(),
{
    if pieces.len() == 0 {
        Seq::empty()
    } else {
        let before = not_blank(pieces.drop_last());
        let piece = trimmed(pieces.last());
        if piece.len() == 0 {
            before
        } else {
            before.push(piece)
        }
    }
}

/// The lines of `text`, trimmed, that are not blank.
pub open spec fn filled_lines(text: Seq<char>) -> Seq<Seq<char>> {
    not_blank(pieces(text))
}

/// What a list of strings holds.
pub open spec fn texts(strings: Seq<String>) -> Seq<Seq<char>> {
    strings.map_values(|string: String| string@)
}

/// The decimal digits of `n`.
pub open spec fn digits(n: nat) -> Seq<char>
    decreases n,
{
    if n < 10 {
        seq![('0' as u32 + n) as char]
    } else {
        digits(n / 10).push(('0' as u32 + n % 10) as char)
    }
}

/// `n` in decimal.
pub open spec fn decimal(n: int) -> Seq<char> {
    if n < 0 {
        seq!['-'] + digits((-n) as nat)
    } else {
        digits(n as nat)
    }
}

/// Trimming leaves a stretch of the text, none when there is nothing but white
/// space, and otherwise from its first to its last character that is none.
pub proof fn lemma_trimmed(text: Seq<char>, from: int, to: int)
    requires
        0 <= from <= to <= text.len(),
        forall|i: int| 0 <= i < from ==> white_space(#[trigger] text[i]),
        forall|i: int| to <= i < text.len() ==> white_space(#[trigger] text[i]),
        from < to ==> !white_space(text[from]) && !white_space(text[to - 1]),
    ensures
        trimmed(text) == text.subrange(from, to),
    decreases text.len(),
{
    if from > 0 {
        let rest = text.drop_first();
        lemma_trimmed(rest, from - 1, to - 1);
        assert(rest.subrange(from - 1, to - 1) =~= text.subrange(from, to));
    } else if to < text.len() {
        let rest = text.drop_last();
        lemma_trimmed(rest, from, to);
        assert(rest.subrange(from, to) =~= text.subrange(from, to));
        if to == 0 {
            lemma_blank(text);
            assert(text.subrange(from, to) =~= Seq::<char>::empty());
        } else {
            assert(trimmed_start(text) == text);
            assert(trimmed_start(rest) == rest);
        }
    } else {
        assert(text.subrange(from, to) =~= text);
    }
}

proof fn lemma_blank(text: Seq<char>)
    requires
        forall|i: int| 0 <= i < text.len() ==> white_space(#[trigger] text[i]),
    ensures
        trimmed_start(text) == Seq::<char>::empty(),
        trimmed(text) == Seq::<char>::empty(),
    decreases text.len(),
{
    if text.len() > 0 {
        lemma_blank(text.drop_first());
    } else {
        assert(text =~= Seq::<char>::empty());
    }
}

/// Trimming a text that is trimmed changes nothing.
pub proof fn trimming_twice(text: Seq<char>)
    ensures
        trimmed(trimmed(text)) == trimmed(text),
{
    let (from, to) = lemma_trim_bounds(text);
    lemma_trimmed(text, from, to);
    let inner = text.subrange(from, to);
    lemma_trimmed(inner, 0, to - from);
    assert(inner.subrange(0, to - from) =~= inner);
}

proof fn lemma_trim_bounds(text: Seq<char>) -> (bounds: (int, int))
    ensures
        0 <= bounds.0 <= bounds.1 <= text.len(),
        forall|i: int| 0 <= i < bounds.0 ==> white_space(#[trigger] text[i]),
        forall|i: int| bounds.1 <= i < text.len() ==> white_space(#[trigger] text[i]),
        bounds.0 < bounds.1 ==> !white_space(text[bounds.0]) && !white_space(text[bounds.1 - 1]),
    decreases text.len(),
{
    if text.len() == 0 {
        (0, 0)
    } else if white_space(text.last()) {
        let (from, to) = lemma_trim_bounds(text.drop_last());
        assert forall|i: int| to <= i < text.len() implies white_space(#[trigger] text[i]) by {
            if i < text.len() - 1 {
                assert(text.drop_last()[i] == text[i]);
            }
        }
        assert forall|i: int| 0 <= i < from implies white_space(#[trigger] text[i]) by {
            assert(text.drop_last()[i] == text[i]);
        }
        (from, to)
    } else if white_space(text.first()) {
        let (from, to) = lemma_trim_bounds(text.drop_first());
        assert forall|i: int| to + 1 <= i < text.len() implies white_space(#[trigger] text[i]) by {
            assert(text.drop_first()[i - 1] == text[i]);
        }
        assert forall|i: int| 0 <= i < from + 1 implies white_space(#[trigger] text[i]) by {
            if i > 0 {
                assert(text.drop_first()[i - 1] == text[i]);
            }
        }
        (from + 1, to + 1)
    } else {
        (0, text.len() as int)
    }
}

/// A line feed behind a text is trimmed off with what is trimmed of the text.
pub proof fn lemma_trimmed_line(text: Seq<char>)
    ensures
        trimmed(text.push('\n')) == trimmed(text),
{
    let line = text.push('\n');
    let (from, to) = lemma_trim_bounds(text);
    assert forall|i: int| 0 <= i < from implies white_space(#[trigger] line[i]) by {
        assert(line[i] == text[i]);
    }
    assert forall|i: int| to <= i < line.len() implies white_space(#[trigger] line[i]) by {
        if i < text.len() {
            assert(line[i] == text[i]);
        }
    }
    lemma_trimmed(text, from, to);
    lemma_trimmed(line, from, to);
    assert(line.subrange(from, to) =~= text.subrange(from, to));
}

/// Text without line feeds goes on the last line.
pub proof fn lemma_pieces_join(text: Seq<char>, more: Seq<char>)
    requires
        forall|i: int| 0 <= i < more.len() ==> (#[trigger] more[i]) != '\n',
    ensures
        pieces(text).len() > 0,
        pieces(text + more) == pieces(text).drop_last().push(pieces(text).last() + more),
    decreases text.len() + more.len(),
{
    if more.len() == 0 {
        assert(text + more =~= text);
        if text.len() > 0 {
            lemma_pieces_join(text.drop_last(), more);
        }
        assert(pieces(text).last() + more =~= pieces(text).last());
        assert(pieces(text) =~= pieces(text).drop_last().push(pieces(text).last()));
    } else {
        let less = more.drop_last();
        assert forall|i: int| 0 <= i < less.len() implies (#[trigger] less[i]) != '\n' by {
            assert(less[i] == more[i]);
        }
        lemma_pieces_join(text, less);
        assert((text + more).drop_last() =~= text + less);
        assert((text + more).last() == more.last());
        let before = pieces(text + less);
        assert(before.drop_last() =~= pieces(text).drop_last());
        assert(before.last().push(more.last()) =~= pieces(text).last() + more);
    }
}

/// One more piece is one more line, unless it is blank.
pub proof fn lemma_not_blank_push(pieces: Seq<Seq<char>>, piece: Seq<char>)
    ensures
        not_blank(pieces.push(piece)) == (if trimmed(piece).len() == 0 {
            not_blank(pieces)
        } else {
            not_blank(pieces).push(trimmed(piece))
        }),
{
    assert(pieces.push(piece).drop_last() =~= pieces);
}

/// Every line that is read is trimmed and holds something.
pub proof fn lines_are_trimmed(text: Seq<char>)
    ensures
        forall|i: int|
            0 <= i < filled_lines(text).len() ==> {
                let line = #[trigger] filled_lines(text)[i];
                line.len() > 0 && trimmed(line) == line
            },
{
    lemma_lines_are_trimmed(pieces(text));
}

proof fn lemma_lines_are_trimmed(pieces: Seq<Seq<char>>)
    ensures
        forall|i: int|
            0 <= i < not_blank(pieces).len() ==> {
                let line = #[trigger] not_blank(pieces)[i];
                line.len() > 0 && trimmed(line) == line
            },
    decreases pieces.len(),
{
    if pieces.len() > 0 {
        let before = not_blank(pieces.drop_last());
        lemma_lines_are_trimmed(pieces.drop_last());
        trimming_twice(pieces.last());
        assert forall|i: int| 0 <= i < not_blank(pieces).len() implies {
            let line = #[trigger] not_blank(pieces)[i];
            line.len() > 0 && trimmed(line) == line
        } by {
            if i < before.len() {
                assert(not_blank(pieces)[i] == before[i]);
            }
        }
    }
}

/// Whether `c` is white space.
fn is_white_space(c: char) -> (yes: bool)
    ensures
        yes == white_space(c),
{
    let code: u32 = c as u32;
    (0x9 <= code && code <= 0xd) || code == 0x20 || code == 0x85 || code == 0xa0 || code == 0x1680
        || (0x2000 <= code && code <= 0x200a) || code == 0x2028 || code == 0x2029 || code == 0x202f
        || code == 0x205f || code == 0x3000
}

/// The characters of `text`.
fn characters(text: &str) -> (chars: Vec<char>)
    ensures
        chars@ == text@,
{
    let mut chars: Vec<char> = Vec::new();
    for c in iter: text.chars()
        invariant
            iter.seq() == text@,
            chars@ == text@.take(iter.index()),
    {
        chars.push(c);
    }
    assert(text@.take(text@.len() as int) =~= text@);
    chars
}

/// `text` without the white space around it.
pub fn trim(text: &str) -> (inner: &str)
    ensures
        inner@ == trimmed(text@),
{
    let chars = characters(text);
    let mut from: usize = 0;
    while from < chars.len() && is_white_space(chars[from])
        invariant
            from <= chars@.len(),
            forall|i: int| 0 <= i < from ==> white_space(#[trigger] chars@[i]),
        decreases chars@.len() - from,
    {
        from = from + 1;
    }
    let mut to: usize = chars.len();
    while from < to && is_white_space(chars[to - 1])
        invariant
            from <= to <= chars@.len(),
            forall|i: int| to <= i < chars@.len() ==> white_space(#[trigger] chars@[i]),
        decreases to,
    {
        to = to - 1;
    }
    proof {
        lemma_trimmed(text@, from as int, to as int);
    }
    text.substring_char(from, to)
}

/// Whether `part` stands in `text` at position `i`.
fn stands_at(text: &Vec<char>, part: &Vec<char>, i: usize) -> (yes: bool)
    requires
        i + part@.len() <= text@.len(),
    ensures
        yes == occurs_at(text@, part@, i as int),
{
    let length = text.len();
    let mut k: usize = 0;
    while k < part.len()
        invariant
            k <= part@.len(),
            length == text@.len(),
            i + part@.len() <= length,
            forall|j: int| 0 <= j < k ==> text@[i + j] == #[trigger] part@[j],
        decreases part@.len() - k,
    {
        if text[i + k] != part[k] {
            assert(text@.subrange(i as int, i + part@.len())[k as int] != part@[k as int]);
            return false;
        }
        k = k + 1;
    }
    assert(text@.subrange(i as int, i + part@.len()) =~= part@);
    true
}

/// Whether `part` occurs in `text`.
pub fn contains(text: &str, part: &str) -> (found: bool)
    ensures
        found == occurs(text@, part@),
{
    let chars = characters(text);
    let sought = characters(part);
    let mut i: usize = 0;
    while i <= chars.len() && sought.len() <= chars.len() - i
        invariant
            chars@ == text@,
            sought@ == part@,
            i <= text@.len() + 1,
            forall|k: int| 0 <= k < i ==> !occurs_at(text@, part@, k),
        decreases text@.len() + 1 - i,
    {
        if stands_at(&chars, &sought, i) {
            return true;
        }
        assert(part@.len() > 0) by {
            if part@.len() == 0 {
                assert(text@.subrange(i as int, i as int) =~= part@);
            }
        }
        i = i + 1;
    }
    false
}

/// The lines of `text`, trimmed, that are not blank.
pub fn read_lines(text: &str) -> (lines: Vec<String>)
    ensures
        texts(lines@) == filled_lines(text@),
{
    let chars = characters(text);
    let mut lines: Vec<String> = Vec::new();
    let mut start: usize = 0;
    let mut i: usize = 0;
    proof {
        assert(text@.take(0) =~= Seq::<char>::empty());
        assert(text@.subrange(0, 0) =~= Seq::<char>::empty());
        assert(pieces(Seq::<char>::empty()).drop_last() =~= Seq::<Seq<char>>::empty());
        assert(texts(lines@) =~= Seq::<Seq<char>>::empty());
    }
    while i < chars.len()
        invariant
            chars@ == text@,
            start <= i <= text@.len(),
            pieces(text@.take(i as int)).len() > 0,
            pieces(text@.take(i as int)).last() == text@.subrange(start as int, i as int),
            texts(lines@) == not_blank(pieces(text@.take(i as int)).drop_last()),
        decreases text@.len() - i,
    {
        let ghost before = pieces(text@.take(i as int));
        let ghost after = pieces(text@.take(i + 1));
        proof {
            assert(text@.take(i + 1).drop_last() =~= text@.take(i as int));
            assert(text@.take(i + 1).last() == text@[i as int]);
        }
        if chars[i] == '\n' {
            push_filled(&mut lines, trim(text.substring_char(start, i)));
            start = i + 1;
            proof {
                assert(after.drop_last() =~= before);
                assert(text@.subrange(start as int, start as int) =~= Seq::<char>::empty());
            }
        } else {
            proof {
                assert(after.drop_last() =~= before.drop_last());
                assert(text@.subrange(start as int, i + 1) =~= text@.subrange(
                    start as int,
                    i as int,
                ).push(text@[i as int]));
            }
        }
        i = i + 1;
    }
    push_filled(&mut lines, trim(text.substring_char(start, i)));
    assert(text@.take(i as int) =~= text@);
    lines
}

/// Puts `line` behind `lines` unless it is empty.
fn push_filled(lines: &mut Vec<String>, line: &str)
    ensures
        texts(final(lines)@) == (if line@.len() == 0 {
            texts(old(lines)@)
        } else {
            texts(old(lines)@).push(line@)
        }),
{
    if !line.is_empty() {
        lines.push(line.to_string());
        assert(texts(lines@) =~= texts(old(lines)@).push(line@));
    }
}

/// The decimal digits of `n`.
fn digits_of(n: u64) -> (text: String)
    ensures
        text@ == digits(n as nat),
    decreases n,
{
    let figures = "0123456789";
    let last: usize = (n % 10) as usize;
    proof {
        reveal_strlit("0123456789");
    }
    let figure = figures.substring_char(last, last + 1);
    assert(figure@ =~= seq![('0' as u32 + n % 10) as char]);
    if n < 10 {
        figure.to_string()
    } else {
        let text = digits_of(n / 10).concat(figure);
        assert(text@ =~= digits(n as nat));
        text
    }
}

/// `n` in decimal.
pub fn to_decimal(n: i32) -> (text: String)
    ensures
        text@ == decimal(n as int),
{
    let wide: i64 = n as i64;
    if wide < 0 {
        let text = "-".to_string().concat(digits_of((-wide) as u64).as_str());
        proof {
            reveal_strlit("-");
            assert("-"@ =~= seq!['-']);
        }
        text
    } else {
        digits_of(wide as u64)
    }
}

/// What `String::from_utf8_lossy` makes of some bytes.
pub uninterp spec fn lossy_text(bytes: Seq<u8>) -> Seq<char>;

/// The text that stands for some bytes: the one that they encode, where they are
/// valid UTF-8.
pub open spec fn shown(bytes: Seq<u8>) -> Seq<char> {
    if valid_utf8(bytes) {
        decode_utf8(bytes)
    } else {
        lossy_text(bytes)
    }
}

/// Calls `String::from_utf8_lossy`. Its text is a function of the bytes, and
/// bytes that are valid UTF-8 give the text that they encode. What stands in
/// the text for bytes that are not valid is not said.
#[verifier::external_body]
pub(crate) fn decode_lossy(bytes: &Vec<u8>) -> (text: String)
    ensures
        text@ == lossy_text(bytes@),
        valid_utf8(bytes@) ==> text@ == decode_utf8(bytes@),
{
    String::from_utf8_lossy(bytes).into_owned()
}

/// What `String::from_utf8` has against bytes that are not valid UTF-8.
pub uninterp spec fn utf8_complaint(bytes: Seq<u8>) -> Seq<char>;

/// Calls `String::from_utf8`, which gives the text that the bytes encode where
/// they are valid UTF-8, and an error otherwise. The text of the error is a
/// function of the bytes; how it is worded is not said.
#[verifier::external_body]
pub(crate) fn decode(bytes: Vec<u8>) -> (text: Result<String, String>)
    ensures
        match text {
            Ok(text) => valid_utf8(bytes@) && text@ == decode_utf8(bytes@),
            Err(complaint) => !valid_utf8(bytes@) && complaint@ == utf8_complaint(bytes@),
        },
{
    match String::from_utf8(bytes) {
        Ok(text) => Ok(text),
        Err(error) => Err(error.to_string()),
    }
}

/// The white space of ASCII is the tab, the line feed, the vertical tab, the form
/// feed, the carriage return and the space. Outside ASCII it is the next line,
/// the two line breaks, and the spaces of other widths.
pub proof fn white_space_is(c: char)
    ensures
        white_space(c) <==> {
            ||| c == '\t' || c == '\n' || c == '\u{b}' || c == '\u{c}' || c == '\r' || c == ' '
            ||| c == '\u{85}' || c == '\u{a0}' || c == '\u{1680}' || c == '\u{2000}'
            ||| c == '\u{2001}' || c == '\u{2002}' || c == '\u{2003}' || c == '\u{2004}'
            ||| c == '\u{2005}' || c == '\u{2006}' || c == '\u{2007}' || c == '\u{2008}'
            ||| c == '\u{2009}' || c == '\u{200a}' || c == '\u{2028}' || c == '\u{2029}'
            ||| c == '\u{202f}' || c == '\u{205f}' || c == '\u{3000}'
        },
{
}

/// White space around a text is trimmed off, and nothing else: what is left of a
/// text that starts and ends with something else is the text itself.
pub proof fn trimming_takes_white_space_off(
    before: Seq<char>,
    text: Seq<char>,
    after: Seq<char>,
)
    requires
        forall|i: int| 0 <= i < before.len() ==> white_space(#[trigger] before[i]),
        forall|i: int| 0 <= i < after.len() ==> white_space(#[trigger] after[i]),
        text.len() > 0 ==> !white_space(text.first()) && !white_space(text.last()),
    ensures
        trimmed(before + text + after) == text,
{
    let all = before + text + after;
    let from = before.len() as int;
    let to = from + text.len();
    assert forall|i: int| to <= i < all.len() implies white_space(#[trigger] all[i]) by {
        assert(all[i] == after[i - to]);
    }
    assert forall|i: int| 0 <= i < from implies white_space(#[trigger] all[i]) by {
        assert(all[i] == before[i]);
    }
    lemma_trimmed(all, from, to);
    assert(all.subrange(from, to) =~= text);
}

/// Nothing is left of a text where all of it is white space, and something
/// otherwise.
pub proof fn blank_texts_are_white_space(text: Seq<char>)
    ensures
        trimmed(text).len() == 0 <==> forall|i: int|
            0 <= i < text.len() ==> white_space(#[trigger] text[i]),
{
    let (from, to) = lemma_trim_bounds(text);
    lemma_trimmed(text, from, to);
    if forall|i: int| 0 <= i < text.len() ==> white_space(#[trigger] text[i]) {
        lemma_blank(text);
    }
}

/// A part occurs in a text where the text is the part with something before it
/// and something behind it, be that empty.
pub proof fn parts_of_a_text(text: Seq<char>, part: Seq<char>)
    ensures
        occurs(text, part) <==> exists|before: Seq<char>, after: Seq<char>|
            text == #[trigger] (before + part + after),
{
    if occurs(text, part) {
        let i = choose|i: int| occurs_at(text, part, i);
        let before = text.take(i);
        let after = text.skip(i + part.len());
        assert(text =~= before + part + after);
    }
    if exists|before: Seq<char>, after: Seq<char>| text == #[trigger] (before + part + after) {
        let (before, after): (Seq<char>, Seq<char>) = choose|
            before: Seq<char>,
            after: Seq<char>,
        | text == #[trigger] (before + part + after);
        let i = before.len() as int;
        assert(text.subrange(i, i + part.len()) =~= part);
        assert(occurs_at(text, part, i));
    }
}

proof fn lemma_pieces_of_two(text: Seq<char>, more: Seq<char>)
    ensures
        pieces(text.push('\n') + more) == pieces(text) + pieces(more),
        pieces(more).len() > 0,
    decreases more.len(),
{
    let all = text.push('\n') + more;
    if more.len() == 0 {
        assert(all =~= text.push('\n'));
        assert(text.push('\n').drop_last() =~= text);
        assert(pieces(all) =~= pieces(text) + pieces(more));
    } else {
        let less = more.drop_last();
        lemma_pieces_of_two(text, less);
        assert(all.drop_last() =~= text.push('\n') + less);
        assert(all.last() == more.last());
        let before = pieces(text) + pieces(less);
        assert(before.last() == pieces(less).last());
        assert(before.drop_last() =~= pieces(text) + pieces(less).drop_last());
        assert(pieces(all) =~= pieces(text) + pieces(more));
    }
}

proof fn lemma_not_blank_of_two(pieces: Seq<Seq<char>>, more: Seq<Seq<char>>)
    ensures
        not_blank(pieces + more) == not_blank(pieces) + not_blank(more),
    decreases more.len(),
{
    if more.len() == 0 {
        assert(pieces + more =~= pieces);
        assert(not_blank(pieces) + not_blank(more) =~= not_blank(pieces));
    } else {
        lemma_not_blank_of_two(pieces, more.drop_last());
        assert((pieces + more).drop_last() =~= pieces + more.drop_last());
        assert(not_blank(pieces + more) =~= not_blank(pieces) + not_blank(more));
    }
}

/// The lines of two texts with a line feed between them are those of the first,
/// followed by those of the second.
pub proof fn lines_of_two_texts(text: Seq<char>, more: Seq<char>)
    ensures
        filled_lines(text.push('\n') + more) == filled_lines(text) + filled_lines(more),
{
    lemma_pieces_of_two(text, more);
    lemma_not_blank_of_two(pieces(text), pieces(more));
}

/// A text without a line feed is one line, trimmed, or none where it is blank.
pub proof fn lines_of_one_line(text: Seq<char>)
    requires
        forall|i: int| 0 <= i < text.len() ==> (#[trigger] text[i]) != '\n',
    ensures
        trimmed(text).len() == 0 ==> filled_lines(text) == Seq::<Seq<char>>::empty(),
        trimmed(text).len() > 0 ==> filled_lines(text) == seq![trimmed(text)],
{
    let nothing = Seq::<char>::empty();
    lemma_pieces_join(nothing, text);
    assert(nothing + text =~= text);
    assert(pieces(text) =~= seq![text]);
    let none = Seq::<Seq<char>>::empty();
    assert(none.push(text) =~= seq![text]);
    lemma_not_blank_push(none, text);
    assert(not_blank(none) =~= none);
    assert(none.push(trimmed(text)) =~= seq![trimmed(text)]);
}

/// A list of strings holds the text of each, in their order.
pub proof fn texts_of_strings(strings: Seq<String>)
    ensures
        texts(strings).len() == strings.len(),
        forall|i: int| 0 <= i < strings.len() ==> texts(strings)[i] == (#[trigger] strings[i])@,
{
}

/// The number that decimal digits stand for.
pub open spec fn number_of(text: Seq<char>) -> int
    decreases text.len(),
{
    if text.len() == 0 {
        0
    } else {
        10 * number_of(text.drop_last()) + (text.last() as int - '0' as int)
    }
}

/// The digits of a number stand for the number, and none of them is a zero that
/// could be left out.
pub proof fn digits_read_back(n: nat)
    ensures
        number_of(digits(n)) == n,
        digits(n).len() > 0,
        digits(n).len() > 1 ==> digits(n).first() != '0',
        forall|i: int| 0 <= i < digits(n).len() ==> '0' <= (#[trigger] digits(n)[i]) <= '9',
    decreases n,
{
    if n < 10 {
        assert(digits(n).drop_last() =~= Seq::<char>::empty());
        assert(number_of(digits(n).drop_last()) == 0);
    } else {
        digits_read_back(n / 10);
        assert(digits(n).drop_last() =~= digits(n / 10));
        assert(digits(n).first() == digits(n / 10).first());
        if digits(n / 10).len() == 1 && digits(n / 10).first() == '0' {
            assert(digits(n / 10).drop_last() =~= Seq::<char>::empty());
            assert(number_of(digits(n / 10).drop_last()) == 0);
        }
        assert forall|i: int| 0 <= i < digits(n).len() implies '0' <= (#[trigger] digits(n)[i])
            <= '9' by {
            if i < digits(n / 10).len() {
                assert(digits(n)[i] == digits(n / 10)[i]);
            }
        }
    }
}

/// A number in decimal stands for the number, without zeros that could be left
/// out, and a negative one is written as a minus sign and its opposite.
pub proof fn decimal_reads_back(n: int)
    ensures
        n >= 0 ==> {
            &&& number_of(decimal(n)) == n
            &&& decimal(n).len() > 1 ==> decimal(n).first() != '0'
            &&& forall|i: int| 0 <= i < decimal(n).len() ==> '0' <= (#[trigger] decimal(n)[i]) <= '9'
        },
        n < 0 ==> decimal(n) == seq!['-'] + decimal(-n),
{
    if n >= 0 {
        digits_read_back(n as nat);
    }
}

/// Bytes that encode a text are shown as that text. Other bytes are shown as
/// `lossy_text` has it.
pub proof fn encoded_text_is_shown(text: Seq<char>, bytes: Seq<u8>)
    ensures
        valid_utf8(encode_utf8(text)),
        decode_utf8(encode_utf8(text)) == text,
        shown(encode_utf8(text)) == text,
        !valid_utf8(bytes) ==> shown(bytes) == lossy_text(bytes),
{
    encode_utf8_valid_utf8(text);
    encode_utf8_decode_utf8(text);
}

} // verus!
