//! HEX and ASCII notation for packet bytes.

use crate::text;
use vstd::prelude::*;
#[allow(unused_imports)]
use vstd::string::*;
#[allow(unused_imports)]
use vstd::utf8::*;

verus! {

/// Why a text is no HEX notation.
#[derive(Debug)]
pub enum HexError {
    /// The digits do not come in pairs.
    OddLength,
    /// A pair is no hexadecimal byte.
    InvalidByte(String),
}

impl HexError {
    /// The message shown to the user.
    pub fn message(&self) -> (r: String)
        ensures
            r@ == match *self {
                HexError::OddLength => "HEX 数据长度必须是偶数"@,
                HexError::InvalidByte(token) => "无效的 HEX 字节: "@ + token@,
            },
    {
        match self {
            HexError::OddLength => "HEX 数据长度必须是偶数".to_owned(),
            HexError::InvalidByte(token) => text::joined("无效的 HEX 字节: ", token.as_str()),
        }
    }
}

/// `s` with every `0` that is followed by `mark` removed together with that mark,
/// scanning from the left.
pub open spec fn without_prefix(s: Seq<char>, mark: char) -> Seq<char>
    decreases s.len(),
{
    if s.len() == 0 {
        s
    } else if s.len() >= 2 && s[0] == '0' && s[1] == mark {
        without_prefix(s.skip(2), mark)
    } else {
        seq![s[0]] + without_prefix(s.skip(1), mark)
    }
}

/// White space and the punctuation that may stand between bytes.
pub open spec fn is_separator(c: char) -> bool {
    text::is_space(c) || c == ',' || c == ':' || c == '-' || c == '_'
}

/// The HEX digits of an input: prefixes and separators dropped, letters in upper case.
pub open spec fn compact_hex(s: Seq<char>) -> Seq<char> {
    without_prefix(without_prefix(s, 'x'), 'X').filter(|c: char| !is_separator(c)).map_values(
        |c: char| text::ascii_upper(c),
    )
}

/// The byte that two characters denote: two digits, or a plus sign and a digit.
pub open spec fn hex_pair(a: char, b: char) -> Option<int> {
    match (text::hex_value(a), text::hex_value(b)) {
        (Some(high), Some(low)) => Some(16 * high + low),
        (None, Some(low)) if a == '+' => Some(low),
        _ => None,
    }
}

/// How many bytes UTF-8 takes for a character.
pub open spec fn utf8_width(c: char) -> nat {
    encode_scalar(c as u32).len()
}

/// What reading an even number of UTF-8 bytes two at a time gives: the bytes denoted, or the
/// first two that denote none. `None` where two bytes that are read together cut a character.
pub open spec fn hex_pairs(s: Seq<char>) -> Option<Result<Seq<u8>, Seq<char>>>
    decreases s.len(),
{
    if s.len() == 0 {
        Some(Ok(Seq::empty()))
    } else if utf8_width(s[0]) == 2 {
        Some(Err(s.take(1)))
    } else if utf8_width(s[0]) != 1 || s.len() < 2 || utf8_width(s[1]) != 1 {
        None
    } else {
        match hex_pair(s[0], s[1]) {
            None => Some(Err(s.take(2))),
            Some(value) => match hex_pairs(s.skip(2)) {
                Some(Ok(rest)) => Some(Ok(seq![value as u8] + rest)),
                other => other,
            },
        }
    }
}

/// Whether an input can be read: its digits do not come in pairs, or reading them in pairs
/// cuts no character before an invalid pair.
pub open spec fn is_hex_readable(s: Seq<char>) -> bool {
    encode_utf8(compact_hex(s)).len() % 2 != 0 || hex_pairs(compact_hex(s)) is Some
}

/// What [`parse_hex`] returns.
pub open spec fn hex_result(s: Seq<char>) -> Result<Seq<u8>, Option<Seq<char>>> {
    if encode_utf8(compact_hex(s)).len() % 2 != 0 {
        Err(None)
    } else {
        match hex_pairs(compact_hex(s)) {
            Some(Ok(bytes)) => Ok(bytes),
            Some(Err(token)) => Err(Some(token)),
            None => Err(None),
        }
    }
}

fn remove_prefix(s: &[char], mark: char) -> (r: Vec<char>)
    ensures
        r@ == without_prefix(s@, mark),
{
    let mut out: Vec<char> = Vec::new();
    let mut i: usize = 0;
    assert(s@.skip(0) =~= s@);
    while i < s.len()
        invariant
            i <= s@.len(),
            without_prefix(s@, mark) =~= out@ + without_prefix(s@.skip(i as int), mark),
        decreases s@.len() - i,
    {
        if s[i] == '0' && i + 1 < s.len() && s[i + 1] == mark {
            assert(s@.skip(i as int).skip(2) =~= s@.skip(i + 2));
            i = i + 2;
        } else {
            assert(s@.skip(i as int).skip(1) =~= s@.skip(i + 1));
            out.push(s[i]);
            i = i + 1;
        }
    }
    assert(without_prefix(s@.skip(i as int), mark) =~= Seq::<char>::empty());
    out
}

fn compact_chars(input: &str) -> (r: Vec<char>)
    ensures
        r@ == compact_hex(input@),
{
    let digits = remove_prefix(&remove_prefix(&text::chars_of(input), 'x'), 'X');
    let ghost keep = |c: char| !is_separator(c);
    let ghost upper = |c: char| text::ascii_upper(c);
    let mut out: Vec<char> = Vec::new();
    let mut i: usize = 0;
    assert(digits@.take(0).filter(keep) =~= Seq::<char>::empty()) by {
        reveal(Seq::filter);
    }
    while i < digits.len()
        invariant
            i <= digits@.len(),
            keep == (|c: char| !is_separator(c)),
            upper == (|c: char| text::ascii_upper(c)),
            out@ =~= digits@.take(i as int).filter(keep).map_values(upper),
        decreases digits@.len() - i,
    {
        let c = digits[i];
        proof {
            reveal(Seq::filter);
            assert(digits@.take(i + 1).drop_last() =~= digits@.take(i as int));
            assert(digits@.take(i + 1).last() == c);
        }
        if !(text::char_is_space(c) || c == ',' || c == ':' || c == '-' || c == '_') {
            out.push(text::upper_char(c));
        }
        i = i + 1;
    }
    assert(digits@.take(i as int) =~= digits@);
    out
}

fn char_width(c: char) -> (r: usize)
    ensures
        r == utf8_width(c),
        1 <= r <= 4,
{
    let v: u32 = c as u32;
    if v <= 0x7F {
        1
    } else if v <= 0x7FF {
        2
    } else if v <= 0xFFFF {
        3
    } else {
        4
    }
}

/// Whether the UTF-8 form of `chars` has an odd number of bytes.
fn has_odd_width(chars: &[char]) -> (r: bool)
    ensures
        r == (encode_utf8(chars@).len() % 2 != 0),
{
    let mut odd = false;
    let mut i: usize = 0;
    assert(chars@.skip(0) =~= chars@);
    while i < chars.len()
        invariant
            i <= chars@.len(),
            (encode_utf8(chars@).len() % 2 != 0) == (odd != (encode_utf8(
                chars@.skip(i as int),
            ).len() % 2 != 0)),
        decreases chars@.len() - i,
    {
        let width: usize = char_width(chars[i]);
        assert(chars@.skip(i as int).drop_first() =~= chars@.skip(i + 1));
        if width % 2 != 0 {
            odd = !odd;
        }
        i = i + 1;
    }
    odd
}

fn pair_value(a: char, b: char) -> (r: Option<u8>)
    ensures
        match r {
            Some(value) => hex_pair(a, b) == Some(value as int),
            None => hex_pair(a, b) is None,
        },
{
    match (text::hex_digit(a), text::hex_digit(b)) {
        (Some(high), Some(low)) => Some(high * 16 + low),
        (None, Some(low)) => {
            if a == '+' {
                Some(low)
            } else {
                None
            }
        },
        _ => None,
    }
}

/// Whether [`parse_hex`] can read an input.
pub fn hex_readable(input: &str) -> (r: bool)
    ensures
        r == is_hex_readable(input@),
{
    let compact = compact_chars(input);
    if has_odd_width(&compact) {
        return true;
    }
    let mut i: usize = 0;
    assert(compact@.skip(0) =~= compact@);
    while i < compact.len()
        invariant
            i <= compact@.len(),
            compact@ == compact_hex(input@),
            encode_utf8(compact@).len() % 2 == 0,
            hex_pairs(compact@) is Some == hex_pairs(compact@.skip(i as int)) is Some,
        decreases compact@.len() - i,
    {
        let ghost rest = compact@.skip(i as int);
        let width: usize = char_width(compact[i]);
        if width == 2 {
            return true;
        }
        if width != 1 || compact.len() - i < 2 || char_width(compact[i + 1]) != 1 {
            return false;
        }
        if pair_value(compact[i], compact[i + 1]).is_none() {
            return true;
        }
        assert(rest.skip(2) =~= compact@.skip(i + 2));
        i = i + 2;
    }
    true
}

/// Reads HEX notation: byte pairs with optional `0x` prefixes and separators.
pub fn parse_hex(input: &str) -> (r: Result<Vec<u8>, HexError>)
    requires
        is_hex_readable(input@),
    ensures
        match r {
            Ok(bytes) => hex_result(input@) == Ok::<Seq<u8>, Option<Seq<char>>>(bytes@),
            Err(HexError::OddLength) => hex_result(input@) == Err::<
                Seq<u8>,
                Option<Seq<char>>,
            >(None),
            Err(HexError::InvalidByte(token)) => hex_result(input@) == Err::<
                Seq<u8>,
                Option<Seq<char>>,
            >(Some(token@)),
        },
{
    let compact = compact_chars(input);
    if has_odd_width(&compact) {
        return Err(HexError::OddLength);
    }
    let mut output: Vec<u8> = Vec::new();
    let mut i: usize = 0;
    assert(compact@.skip(0) =~= compact@);
    while i < compact.len()
        invariant
            i <= compact@.len(),
            compact@ == compact_hex(input@),
            encode_utf8(compact@).len() % 2 == 0,
            hex_pairs(compact@) is Some,
            hex_pairs(compact@.skip(i as int)) is Some,
            hex_pairs(compact@) == match hex_pairs(compact@.skip(i as int)) {
                Some(Ok(rest)) => Some(Ok::<Seq<u8>, Seq<char>>(output@ + rest)),
                other => other,
            },
        decreases compact@.len() - i,
    {
        let ghost rest = compact@.skip(i as int);
        if char_width(compact[i]) == 2 {
            let token = text::slice_chars(&compact, i, i + 1);
            assert(token@ =~= rest.take(1));
            return Err(HexError::InvalidByte(text::text_of(&token)));
        }
        match pair_value(compact[i], compact[i + 1]) {
            None => {
                let token = text::slice_chars(&compact, i, i + 2);
                assert(token@ =~= rest.take(2));
                return Err(HexError::InvalidByte(text::text_of(&token)));
            },
            Some(value) => {
                assert(rest.skip(2) =~= compact@.skip(i + 2));
                let ghost before = output@;
                output.push(value);
                assert(hex_pairs(rest.skip(2)) matches Some(Ok(tail)) ==> before + (seq![value]
                    + tail) =~= output@ + tail);
                i = i + 2;
            },
        }
    }
    assert(output@ + Seq::<u8>::empty() =~= output@);
    Ok(output)
}

/// The upper-case digit for a value below 16.
pub open spec fn upper_hex_char(d: int) -> char {
    if d < 10 {
        ((0x30 + d) as u32) as char
    } else {
        ((0x41 + d - 10) as u32) as char
    }
}

/// The two upper-case digits of a byte.
pub open spec fn byte_hex(b: u8) -> Seq<char> {
    seq![upper_hex_char(b as int / 16), upper_hex_char(b as int % 16)]
}

/// The bytes as pairs of upper-case digits with a blank between them.
pub open spec fn hex_text(data: Seq<u8>) -> Seq<char>
    decreases data.len(),
{
    if data.len() == 0 {
        Seq::empty()
    } else if data.len() == 1 {
        byte_hex(data[0])
    } else {
        hex_text(data.drop_last()).push(' ') + byte_hex(data.last())
    }
}

fn hex_char(d: u8) -> (r: char)
    requires
        d < 16,
    ensures
        r == upper_hex_char(d as int),
{
    if d < 10 {
        (0x30 + d) as char
    } else {
        (0x41 + (d - 10)) as char
    }
}

/// Writes bytes in HEX notation.
pub fn format_hex(data: &[u8]) -> (r: String)
    ensures
        r@ == hex_text(data@),
{
    let mut out = String::new();
    let mut i: usize = 0;
    while i < data.len()
        invariant
            i <= data@.len(),
            out@ == hex_text(data@.take(i as int)),
        decreases data@.len() - i,
    {
        let b: u8 = data[i];
        assert(data@.take(i + 1).drop_last() =~= data@.take(i as int));
        if i > 0 {
            text::push_char(&mut out, ' ');
        }
        let ghost before = out@;
        text::push_char(&mut out, hex_char(b / 16));
        text::push_char(&mut out, hex_char(b % 16));
        assert(out@ =~= before + byte_hex(b));
        assert(out@ =~= hex_text(data@.take(i + 1)));
        i = i + 1;
    }
    assert(data@.take(i as int) =~= data@);
    out
}

/// A printable ASCII byte as its character, any other byte as a dot.
pub open spec fn ascii_char(b: u8) -> char {
    if 0x20 <= b <= 0x7E {
        b as char
    } else {
        '.'
    }
}

/// Writes bytes as ASCII text.
pub fn format_ascii(data: &[u8]) -> (r: String)
    ensures
        r@ == data@.map_values(|b: u8| ascii_char(b)),
{
    let mut out = String::new();
    let mut i: usize = 0;
    while i < data.len()
        invariant
            i <= data@.len(),
            out@ =~= data@.take(i as int).map_values(|b: u8| ascii_char(b)),
        decreases data@.len() - i,
    {
        let b: u8 = data[i];
        if 0x20 <= b && b <= 0x7E {
            text::push_char(&mut out, b as char);
        } else {
            text::push_char(&mut out, '.');
        }
        assert(data@.take(i + 1) =~= data@.take(i as int).push(b));
        i = i + 1;
    }
    assert(data@.take(i as int) =~= data@);
    out
}

/// The digit pairs of the bytes with nothing between them.
pub open spec fn digit_run(data: Seq<u8>) -> Seq<char>
    decreases data.len(),
{
    if data.len() == 0 {
        Seq::empty()
    } else {
        digit_run(data.drop_last()) + byte_hex(data.last())
    }
}

spec fn is_upper_hex(c: char) -> bool {
    '0' <= c <= '9' || 'A' <= c <= 'F'
}

proof fn byte_hex_reads_back(b: u8)
    ensures
        hex_pair(byte_hex(b)[0], byte_hex(b)[1]) == Some(b as int),
        is_upper_hex(byte_hex(b)[0]),
        is_upper_hex(byte_hex(b)[1]),
{
}

proof fn hex_text_alphabet(data: Seq<u8>)
    ensures
        forall|i: int|
            0 <= i < hex_text(data).len() ==> is_upper_hex(#[trigger] hex_text(data)[i])
                || hex_text(data)[i] == ' ',
    decreases data.len(),
{
    if data.len() > 0 {
        byte_hex_reads_back(data.last());
        if data.len() > 1 {
            hex_text_alphabet(data.drop_last());
            let head = hex_text(data.drop_last());
            assert forall|i: int| 0 <= i < hex_text(data).len() implies is_upper_hex(
                #[trigger] hex_text(data)[i],
            ) || hex_text(data)[i] == ' ' by {
                if i < head.len() {
                    assert(hex_text(data)[i] == head[i]);
                }
            }
        }
    }
}

proof fn without_prefix_keeps(s: Seq<char>, mark: char)
    requires
        forall|i: int| 0 <= i < s.len() ==> #[trigger] s[i] != mark,
    ensures
        without_prefix(s, mark) == s,
    decreases s.len(),
{
    if s.len() > 0 {
        without_prefix_keeps(s.skip(1), mark);
        assert(s =~= seq![s[0]] + s.skip(1));
    } else {
        assert(without_prefix(s, mark) =~= s);
    }
}

proof fn filtered_pair(b: u8)
    ensures
        byte_hex(b).filter(|c: char| !is_separator(c)) == byte_hex(b),
        byte_hex(b).map_values(|c: char| text::ascii_upper(c)) == byte_hex(b),
{
    let keep = |c: char| !is_separator(c);
    let s = byte_hex(b);
    byte_hex_reads_back(b);
    reveal_with_fuel(Seq::filter, 3);
    assert(s.drop_last().drop_last() =~= Seq::<char>::empty());
    assert(s.drop_last() =~= seq![s[0]]);
    assert(s.filter(keep) =~= s);
    assert(s.map_values(|c: char| text::ascii_upper(c)) =~= s);
}

proof fn hex_text_compacts(data: Seq<u8>)
    ensures
        hex_text(data).filter(|c: char| !is_separator(c)).map_values(|c: char| text::ascii_upper(c))
            == digit_run(data),
    decreases data.len(),
{
    let keep = |c: char| !is_separator(c);
    let upper = |c: char| text::ascii_upper(c);
    reveal(Seq::filter);
    if data.len() == 0 {
        assert(hex_text(data).filter(keep).map_values(upper) =~= digit_run(data));
    } else {
        let pair = byte_hex(data.last());
        filtered_pair(data.last());
        if data.len() == 1 {
            assert(digit_run(data.drop_last()) =~= Seq::<char>::empty());
            assert(digit_run(data) =~= pair);
        } else {
            let head = hex_text(data.drop_last());
            hex_text_compacts(data.drop_last());
            assert(head.push(' ').drop_last() =~= head);
            assert(head.push(' ').filter(keep) == head.filter(keep));
            Seq::filter_distributes_over_add(head.push(' '), pair, keep);
            assert(hex_text(data).filter(keep) == head.filter(keep) + pair);
            assert((head.filter(keep) + pair).map_values(upper) =~= head.filter(keep).map_values(
                upper,
            ) + pair.map_values(upper));
        }
    }
}

proof fn digit_run_from_front(data: Seq<u8>)
    requires
        data.len() > 0,
    ensures
        digit_run(data) == byte_hex(data[0]) + digit_run(data.drop_first()),
    decreases data.len(),
{
    if data.len() == 1 {
        assert(digit_run(data.drop_last()) =~= Seq::<char>::empty());
        assert(digit_run(data.drop_first()) =~= Seq::<char>::empty());
        assert(digit_run(data) =~= byte_hex(data[0]) + digit_run(data.drop_first()));
    } else {
        digit_run_from_front(data.drop_last());
        assert(data.drop_last().drop_first() =~= data.drop_first().drop_last());
        assert(digit_run(data) =~= byte_hex(data[0]) + digit_run(data.drop_first()));
    }
}

proof fn digit_run_reads_back(data: Seq<u8>)
    ensures
        hex_pairs(digit_run(data)) == Some(Ok::<Seq<u8>, Seq<char>>(data)),
        encode_utf8(digit_run(data)).len() % 2 == 0,
    decreases data.len(),
{
    if data.len() == 0 {
        assert(data =~= Seq::<u8>::empty());
    } else {
        let rest = data.drop_first();
        let run = digit_run(data);
        digit_run_from_front(data);
        digit_run_reads_back(rest);
        byte_hex_reads_back(data[0]);
        assert(run.skip(2) =~= digit_run(rest));
        assert(run.drop_first().drop_first() =~= digit_run(rest));
        assert(run[0] == byte_hex(data[0])[0]);
        assert(run[1] == byte_hex(data[0])[1]);
        assert(run.drop_first()[0] == run[1]);
        assert(utf8_width(run[0]) == 1);
        assert(utf8_width(run[1]) == 1);
        assert(seq![data[0]] + rest =~= data);
        assert(encode_utf8(run).len() == 1 + encode_utf8(run.drop_first()).len());
        assert(encode_utf8(run.drop_first()).len() == 1 + encode_utf8(digit_run(rest)).len());
    }
}

/// Reading back what [`format_hex`] writes gives the same bytes.
pub proof fn hex_notation_reads_back(data: Seq<u8>)
    ensures
        is_hex_readable(hex_text(data)),
        hex_result(hex_text(data)) == Ok::<Seq<u8>, Option<Seq<char>>>(data),
{
    let text = hex_text(data);
    hex_text_alphabet(data);
    without_prefix_keeps(text, 'x');
    without_prefix_keeps(text, 'X');
    hex_text_compacts(data);
    digit_run_reads_back(data);
}

/// Whether a text spells a run of upper-case digits: small letters stand for capital ones, and
/// separators and the prefixes `0x` and `0X` may stand anywhere.
pub open spec fn spells(s: Seq<char>, run: Seq<char>) -> bool
    decreases s.len(),
{
    if s.len() == 0 {
        run.len() == 0
    } else if s.len() >= 2 && s[0] == '0' && (s[1] == 'x' || s[1] == 'X') {
        spells(s.skip(2), run)
    } else if is_separator(s[0]) {
        spells(s.skip(1), run)
    } else {
        text::hex_value(s[0]) is Some && run.len() > 0 && text::ascii_upper(s[0]) == run[0]
            && spells(s.skip(1), run.skip(1))
    }
}

proof fn dropping_keeps_absence(s: Seq<char>, mark: char, absent: char)
    requires
        forall|i: int| 0 <= i < s.len() ==> #[trigger] s[i] != absent,
    ensures
        forall|i: int|
            0 <= i < without_prefix(s, mark).len() ==> #[trigger] without_prefix(s, mark)[i]
                != absent,
    decreases s.len(),
{
    if s.len() >= 2 && s[0] == '0' && s[1] == mark {
        dropping_keeps_absence(s.skip(2), mark, absent);
        assert(without_prefix(s, mark) == without_prefix(s.skip(2), mark));
    } else if s.len() > 0 {
        let rest = without_prefix(s.skip(1), mark);
        dropping_keeps_absence(s.skip(1), mark, absent);
        assert forall|i: int| 0 <= i < without_prefix(s, mark).len() implies #[trigger] without_prefix(
            s,
            mark,
        )[i] != absent by {
            if i > 0 {
                assert(without_prefix(s, mark)[i] == rest[i - 1]);
            }
        }
    }
}

/// Dropping one kind of prefix from a spelling leaves a spelling of the same digits, without that
/// mark.
proof fn dropping_keeps_spelling(s: Seq<char>, run: Seq<char>, mark: char)
    requires
        spells(s, run),
        mark == 'x' || mark == 'X',
    ensures
        spells(without_prefix(s, mark), run),
        forall|i: int|
            0 <= i < without_prefix(s, mark).len() ==> #[trigger] without_prefix(s, mark)[i]
                != mark,
    decreases s.len(),
{
    let out = without_prefix(s, mark);
    if s.len() == 0 {
    } else if s.len() >= 2 && s[0] == '0' && s[1] == mark {
        dropping_keeps_spelling(s.skip(2), run, mark);
    } else if s.len() >= 2 && s[0] == '0' && (s[1] == 'x' || s[1] == 'X') {
        let rest = s.skip(2);
        dropping_keeps_spelling(rest, run, mark);
        assert(s.skip(1).skip(1) =~= rest);
        assert(without_prefix(s.skip(1), mark) == seq![s[1]] + without_prefix(rest, mark));
        assert(out =~= seq![s[0], s[1]] + without_prefix(rest, mark));
        assert(out.skip(2) =~= without_prefix(rest, mark));
    } else {
        let rest = s.skip(1);
        let later = if is_separator(s[0]) {
            run
        } else {
            run.skip(1)
        };
        dropping_keeps_spelling(rest, later, mark);
        let kept = without_prefix(rest, mark);
        assert(out == seq![s[0]] + kept);
        assert(out.skip(1) =~= kept);
        assert(kept.len() > 0 ==> kept[0] != 'x' && kept[0] != 'X');
    }
}

/// Without prefixes, a spelling is its digits and separators.
proof fn spelling_compacts(s: Seq<char>, run: Seq<char>)
    requires
        spells(s, run),
        forall|i: int| 0 <= i < s.len() ==> #[trigger] s[i] != 'x' && s[i] != 'X',
    ensures
        s.filter(|c: char| !is_separator(c)).map_values(|c: char| text::ascii_upper(c)) == run,
    decreases s.len(),
{
    let keep = |c: char| !is_separator(c);
    let upper = |c: char| text::ascii_upper(c);
    reveal_with_fuel(Seq::filter, 2);
    if s.len() == 0 {
        assert(s.filter(keep).map_values(upper) =~= run);
    } else {
        let head = seq![s[0]];
        let rest = s.skip(1);
        assert(s =~= head + rest);
        Seq::filter_distributes_over_add(head, rest, keep);
        assert(head.drop_last() =~= Seq::<char>::empty());
        if is_separator(s[0]) {
            spelling_compacts(rest, run);
            assert(head.filter(keep) =~= Seq::<char>::empty());
            assert(s.filter(keep) =~= rest.filter(keep));
        } else {
            spelling_compacts(rest, run.skip(1));
            assert(head.filter(keep) =~= head);
            assert(s.filter(keep).map_values(upper) =~= seq![run[0]] + rest.filter(
                keep,
            ).map_values(upper));
            assert(seq![run[0]] + run.skip(1) =~= run);
        }
    }
}

/// Every way to write the digits of bytes reads back as these bytes: with or without separators
/// and prefixes, in small or capital letters.
pub proof fn every_hex_spelling_reads_back(written: Seq<char>, data: Seq<u8>)
    requires
        spells(written, digit_run(data)),
    ensures
        is_hex_readable(written),
        hex_result(written) == Ok::<Seq<u8>, Option<Seq<char>>>(data),
{
    let run = digit_run(data);
    let first = without_prefix(written, 'x');
    dropping_keeps_spelling(written, run, 'x');
    dropping_keeps_spelling(first, run, 'X');
    dropping_keeps_absence(first, 'X', 'x');
    spelling_compacts(without_prefix(first, 'X'), run);
    digit_run_reads_back(data);
}

/// The two digits of a byte, in small or capital letters.
pub open spec fn written_byte(b: u8, small: bool) -> Seq<char> {
    if small {
        byte_hex(b).map_values(|c: char| text::ascii_lower(c))
    } else {
        byte_hex(b)
    }
}

/// The bytes as pairs of digits, each after the same text, in small or capital letters.
pub open spec fn written_bytes(data: Seq<u8>, before: Seq<char>, small: bool) -> Seq<char>
    decreases data.len(),
{
    if data.len() == 0 {
        Seq::empty()
    } else {
        before + written_byte(data[0], small) + written_bytes(data.drop_first(), before, small)
    }
}

/// Two spellings one after the other spell the digits of both.
proof fn spellings_join(a: Seq<char>, b: Seq<char>, first: Seq<char>, second: Seq<char>)
    requires
        spells(a, first),
        spells(b, second),
    ensures
        spells(a + b, first + second),
    decreases a.len(),
{
    let whole = a + b;
    if a.len() == 0 {
        assert(whole =~= b);
        assert(first + second =~= second);
    } else if a.len() >= 2 && a[0] == '0' && (a[1] == 'x' || a[1] == 'X') {
        spellings_join(a.skip(2), b, first, second);
        assert(whole.skip(2) =~= a.skip(2) + b);
    } else {
        let later = if is_separator(a[0]) {
            first
        } else {
            first.skip(1)
        };
        spellings_join(a.skip(1), b, later, second);
        assert(whole.skip(1) =~= a.skip(1) + b);
        assert(b.len() > 0 ==> b[0] != 'x' && b[0] != 'X');
        assert(a.len() == 1 && b.len() > 0 ==> whole[1] == b[0]);
        assert(!is_separator(a[0]) ==> (first + second).skip(1) =~= later + second);
    }
}

proof fn written_byte_spells(b: u8, small: bool)
    ensures
        spells(written_byte(b, small), byte_hex(b)),
{
    byte_hex_reads_back(b);
    let s = written_byte(b, small);
    let run = byte_hex(b);
    reveal_with_fuel(spells, 3);
    assert(s.skip(1).skip(1) =~= Seq::<char>::empty());
    assert(run.skip(1).skip(1) =~= Seq::<char>::empty());
}

/// Bytes written with the same text before each of them, such as nothing, a comma or a prefix,
/// read back in small and in capital letters. The text is made of separators and prefixes.
pub proof fn written_bytes_read_back(data: Seq<u8>, before: Seq<char>, small: bool)
    requires
        spells(before, Seq::empty()),
    ensures
        is_hex_readable(written_bytes(data, before, small)),
        hex_result(written_bytes(data, before, small)) == Ok::<Seq<u8>, Option<Seq<char>>>(data),
{
    written_bytes_spell(data, before, small);
    every_hex_spelling_reads_back(written_bytes(data, before, small), data);
}

proof fn written_bytes_spell(data: Seq<u8>, before: Seq<char>, small: bool)
    requires
        spells(before, Seq::empty()),
    ensures
        spells(written_bytes(data, before, small), digit_run(data)),
    decreases data.len(),
{
    if data.len() > 0 {
        let pair = byte_hex(data[0]);
        let written = written_byte(data[0], small);
        let rest = data.drop_first();
        digit_run_from_front(data);
        written_byte_spells(data[0], small);
        spellings_join(before, written, Seq::empty(), pair);
        assert(Seq::<char>::empty() + pair =~= pair);
        written_bytes_spell(rest, before, small);
        spellings_join(before + written, written_bytes(rest, before, small), pair, digit_run(rest));
    }
}

/// HEX notation gives each byte its two digits, the high one first, with one blank between bytes.
pub proof fn hex_notation_is_laid_out(data: Seq<u8>, i: int)
    requires
        0 <= i < data.len(),
    ensures
        hex_text(data).len() == 3 * data.len() - 1,
        hex_text(data)[3 * i] == "0123456789ABCDEF"@[data[i] as int / 16],
        hex_text(data)[3 * i + 1] == "0123456789ABCDEF"@[data[i] as int % 16],
        i + 1 < data.len() ==> hex_text(data)[3 * i + 2] == ' ',
    decreases data.len(),
{
    let b = data.last();
    upper_digits_are_usual(b as int / 16);
    upper_digits_are_usual(b as int % 16);
    if data.len() > 1 {
        let rest = data.drop_last();
        let head = hex_text(rest);
        hex_notation_is_laid_out(rest, if i < rest.len() {
            i
        } else {
            0
        });
        if i < rest.len() {
            assert(hex_text(data)[3 * i] == head[3 * i]);
            assert(hex_text(data)[3 * i + 1] == head[3 * i + 1]);
        }
    }
}

proof fn upper_digits_are_usual(d: int)
    requires
        0 <= d < 16,
    ensures
        upper_hex_char(d) == "0123456789ABCDEF"@[d],
{
    reveal_strlit("0123456789ABCDEF");
}

/// Digits that do not come in pairs are refused as such.
pub proof fn odd_numbers_of_digits_are_refused(data: Seq<u8>, digit: char)
    requires
        text::hex_value(digit) is Some,
    ensures
        is_hex_readable(digit_run(data).push(digit)),
        hex_result(digit_run(data).push(digit)) == Err::<Seq<u8>, Option<Seq<char>>>(None),
{
    let run = digit_run(data);
    let s = run.push(digit);
    digit_run_is_upper(data);
    plain_digits_compact(run, seq![digit]);
    assert(run + seq![digit] =~= s);
    let last = text::ascii_upper(digit);
    assert(seq![digit].map_values(|c: char| text::ascii_upper(c)) =~= seq![last]);
    assert(run + seq![last] =~= run.push(last));
    ascii_widths(run.push(last));
    digit_run_length(data);
}

/// The first two characters that denote no byte are named.
pub proof fn first_bad_pair_is_named(data: Seq<u8>, a: char, b: char, rest: Seq<char>)
    requires
        '!' <= a <= '~',
        '!' <= b <= '~',
        !is_separator(a),
        !is_separator(b),
        text::ascii_upper(a) == a,
        text::ascii_upper(b) == b,
        a != 'X',
        b != 'X',
        text::hex_value(b) is None || text::hex_value(a) is None && a != '+',
        rest.len() % 2 == 0,
        forall|i: int| 0 <= i < rest.len() ==> text::hex_value(#[trigger] rest[i]) is Some,
    ensures
        is_hex_readable(digit_run(data) + seq![a, b] + rest),
        hex_result(digit_run(data) + seq![a, b] + rest) == Err::<Seq<u8>, Option<Seq<char>>>(
            Some(seq![a, b]),
        ),
{
    let run = digit_run(data);
    let pair = seq![a, b];
    let s = run + pair + rest;
    digit_run_is_upper(data);
    let tail = pair + rest;
    assert(s =~= run + tail);
    plain_digits_compact(run, tail);
    let high = rest.map_values(|c: char| text::ascii_upper(c));
    let upper = tail.map_values(|c: char| text::ascii_upper(c));
    assert(upper =~= pair + high);
    let compact = run + upper;
    ascii_widths(compact);
    digit_run_length(data);
    pairs_stop_at_a_bad_one(data, a, b, high);
    assert(compact =~= run + pair + high);
}

proof fn digit_run_length(data: Seq<u8>)
    ensures
        digit_run(data).len() == 2 * data.len(),
    decreases data.len(),
{
    if data.len() > 0 {
        digit_run_length(data.drop_last());
    }
}

proof fn digit_run_is_upper(data: Seq<u8>)
    ensures
        forall|i: int| 0 <= i < digit_run(data).len() ==> is_upper_hex(#[trigger] digit_run(data)[i]),
    decreases data.len(),
{
    if data.len() > 0 {
        digit_run_is_upper(data.drop_last());
        byte_hex_reads_back(data.last());
        let head = digit_run(data.drop_last());
        assert forall|i: int| 0 <= i < digit_run(data).len() implies is_upper_hex(
            #[trigger] digit_run(data)[i],
        ) by {
            if i < head.len() {
                assert(digit_run(data)[i] == head[i]);
            }
        }
    }
}

/// A text without separators and without prefixes is compacted to its upper case.
proof fn plain_digits_compact(run: Seq<char>, tail: Seq<char>)
    requires
        forall|i: int| 0 <= i < run.len() ==> is_upper_hex(#[trigger] run[i]),
        forall|i: int|
            0 <= i < tail.len() ==> !is_separator(#[trigger] tail[i]) && tail[i] != 'x' && tail[i]
                != 'X',
    ensures
        compact_hex(run + tail) == run + tail.map_values(|c: char| text::ascii_upper(c)),
{
    let s = run + tail;
    assert forall|i: int| 0 <= i < s.len() implies #[trigger] s[i] != 'x' && s[i] != 'X'
        && !is_separator(s[i]) by {
        if i < run.len() {
            assert(is_upper_hex(run[i]));
        } else {
            assert(!is_separator(tail[i - run.len()]));
        }
    }
    without_prefix_keeps(s, 'x');
    without_prefix_keeps(s, 'X');
    everything_is_kept(s, |c: char| !is_separator(c));
    assert forall|i: int| 0 <= i < run.len() implies text::ascii_upper(#[trigger] run[i]) == run[i] by {
        assert(is_upper_hex(run[i]));
    }
    assert(s.map_values(|c: char| text::ascii_upper(c)) =~= run + tail.map_values(
        |c: char| text::ascii_upper(c),
    ));
}

proof fn everything_is_kept(s: Seq<char>, keep: spec_fn(char) -> bool)
    requires
        forall|i: int| 0 <= i < s.len() ==> keep(#[trigger] s[i]),
    ensures
        s.filter(keep) == s,
    decreases s.len(),
{
    reveal(Seq::filter);
    if s.len() > 0 {
        assert(keep(s[s.len() - 1]));
        assert forall|i: int| 0 <= i < s.drop_last().len() implies keep(
            #[trigger] s.drop_last()[i],
        ) by {
            assert(keep(s[i]));
        }
        everything_is_kept(s.drop_last(), keep);
        assert(s.drop_last().push(s.last()) =~= s);
    } else {
        assert(s.filter(keep) =~= s);
    }
}

proof fn ascii_widths(s: Seq<char>)
    requires
        forall|i: int| 0 <= i < s.len() ==> (#[trigger] s[i] as u32) < 0x80,
    ensures
        encode_utf8(s).len() == s.len(),
    decreases s.len(),
{
    if s.len() > 0 {
        assert((s[0] as u32) < 0x80);
        assert forall|i: int| 0 <= i < s.drop_first().len() implies (
        #[trigger] s.drop_first()[i] as u32) < 0x80 by {
            assert((s[i + 1] as u32) < 0x80);
        }
        ascii_widths(s.drop_first());
        assert(utf8_width(s[0]) == 1);
        assert(encode_utf8(s).len() == 1 + encode_utf8(s.drop_first()).len());
    }
}

proof fn pairs_stop_at_a_bad_one(data: Seq<u8>, a: char, b: char, rest: Seq<char>)
    requires
        '!' <= a <= '~',
        '!' <= b <= '~',
        text::hex_value(b) is None || text::hex_value(a) is None && a != '+',
    ensures
        hex_pairs(digit_run(data) + seq![a, b] + rest) == Some(
            Err::<Seq<u8>, Seq<char>>(seq![a, b]),
        ),
    decreases data.len(),
{
    let s = digit_run(data) + seq![a, b] + rest;
    if data.len() == 0 {
        assert(s[0] == a && s[1] == b);
        assert(utf8_width(a) == 1 && utf8_width(b) == 1);
        assert(s.take(2) =~= seq![a, b]);
        assert(hex_pair(a, b) is None);
    } else {
        digit_run_from_front(data);
        byte_hex_reads_back(data[0]);
        pairs_stop_at_a_bad_one(data.drop_first(), a, b, rest);
        assert(s.skip(2) =~= digit_run(data.drop_first()) + seq![a, b] + rest);
        assert(s[0] == byte_hex(data[0])[0] && s[1] == byte_hex(data[0])[1]);
        assert(utf8_width(s[0]) == 1 && utf8_width(s[1]) == 1);
    }
}

/// What may stand between bytes: white space, commas, colons, hyphens and underscores, and nothing
/// else. A plus sign before a single digit of a pair is read like none.
pub proof fn separators_are_white_space_and_marks(c: char, digit: char)
    ensures
        is_separator(c) <==> text::is_space(c) || c == ',' || c == ':' || c == '-' || c == '_',
        text::hex_value(digit) matches Some(value) ==> hex_pair('+', digit) == Some(value),
        text::hex_value(c) is None && c != '+' ==> hex_pair(c, digit) is None,
        text::hex_value(c) is None ==> hex_pair(digit, c) is None,
{
}

} // verus!
