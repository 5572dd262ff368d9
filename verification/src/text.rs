//! Text as a sequence of characters: the string operations that the rest of the library builds on.

use vstd::prelude::*;
#[allow(unused_imports)]
use vstd::string::*;

verus! {

/// `String::push` appends one character.
#[verifier::external_body]
pub(crate) fn push_char(s: &mut String, c: char)
    ensures
        final(s)@ == old(s)@.push(c),
{
    s.push(c)
}

/// The characters of a text, in order.
pub fn chars_of(s: &str) -> (r: Vec<char>)
    ensures
        r@ == s@,
{
    let mut out: Vec<char> = Vec::new();
    for c in it: s.chars()
        invariant
            it.seq() == s@,
            out@ == s@.take(it.index()),
    {
        proof {
            assert(s@.take(it.index() + 1) =~= s@.take(it.index()).push(c));
        }
        out.push(c);
    }
    assert(s@.take(s@.len() as int) =~= s@);
    out
}

/// The text made of the given characters.
pub fn text_of(chars: &[char]) -> (r: String)
    ensures
        r@ == chars@,
{
    let mut out = String::new();
    let mut i: usize = 0;
    while i < chars.len()
        invariant
            i <= chars@.len(),
            out@ == chars@.take(i as int),
        decreases chars@.len() - i,
    {
        assert(chars@.take(i + 1) =~= chars@.take(i as int).push(chars@[i as int]));
        push_char(&mut out, chars[i]);
        i = i + 1;
    }
    assert(chars@.take(i as int) =~= chars@);
    out
}

/// Whether two texts hold the same characters.
pub fn same_text(a: &str, b: &str) -> (r: bool)
    ensures
        r == (a@ == b@),
{
    let x = chars_of(a);
    let y = chars_of(b);
    same_chars(&x, &y)
}

/// Whether two character sequences are equal.
pub fn same_chars(a: &[char], b: &[char]) -> (r: bool)
    ensures
        r == (a@ == b@),
{
    if a.len() != b.len() {
        return false;
    }
    let mut i: usize = 0;
    while i < a.len()
        invariant
            i <= a@.len(),
            a@.len() == b@.len(),
            a@.take(i as int) =~= b@.take(i as int),
        decreases a@.len() - i,
    {
        if a[i] != b[i] {
            return false;
        }
        i = i + 1;
    }
    assert(a@.take(i as int) =~= a@);
    assert(b@.take(i as int) =~= b@);
    true
}

/// The characters with Unicode's `White_Space` property.
pub open spec fn is_space(c: char) -> bool {
    ||| 0x09 <= c as u32 <= 0x0D
    ||| c as u32 == 0x20
    ||| c as u32 == 0x85
    ||| c as u32 == 0xA0
    ||| c as u32 == 0x1680
    ||| 0x2000 <= c as u32 <= 0x200A
    ||| c as u32 == 0x2028
    ||| c as u32 == 0x2029
    ||| c as u32 == 0x202F
    ||| c as u32 == 0x205F
    ||| c as u32 == 0x3000
}

/// Decides [`is_space`].
pub fn char_is_space(c: char) -> (r: bool)
    ensures
        r == is_space(c),
{
    let v: u32 = c as u32;
    (0x09 <= v && v <= 0x0D) || v == 0x20 || v == 0x85 || v == 0xA0 || v == 0x1680 || (0x2000 <= v
        && v <= 0x200A) || v == 0x2028 || v == 0x2029 || v == 0x202F || v == 0x205F || v == 0x3000
}

/// `s` without its leading white space.
pub open spec fn trim_start(s: Seq<char>) -> Seq<char>
    decreases s.len(),
{
    if s.len() > 0 && is_space(s[0]) {
        trim_start(s.drop_first())
    } else {
        s
    }
}

/// `s` without its trailing white space.
pub open spec fn trim_end(s: Seq<char>) -> Seq<char>
    decreases s.len(),
{
    if s.len() > 0 && is_space(s.last()) {
        trim_end(s.drop_last())
    } else {
        s
    }
}

/// `s` without the white space at either end.
pub open spec fn trim(s: Seq<char>) -> Seq<char> {
    trim_end(trim_start(s))
}

/// The characters of `s` between its leading and trailing white space.
pub fn trimmed_chars(s: &str) -> (r: Vec<char>)
    ensures
        r@ == trim(s@),
{
    let chars = chars_of(s);
    let mut start: usize = 0;
    assert(chars@.skip(0) =~= chars@);
    while start < chars.len() && char_is_space(chars[start])
        invariant
            start <= chars@.len(),
            trim_start(chars@) == trim_start(chars@.skip(start as int)),
        decreases chars@.len() - start,
    {
        assert(chars@.skip(start as int).drop_first() =~= chars@.skip(start + 1));
        start = start + 1;
    }
    let ghost rest = chars@.skip(start as int);
    assert(trim_start(chars@) == rest);
    let mut end: usize = chars.len();
    assert(rest =~= chars@.subrange(start as int, end as int));
    while end > start && char_is_space(chars[end - 1])
        invariant
            start <= end <= chars@.len(),
            trim_end(rest) == trim_end(chars@.subrange(start as int, end as int)),
        decreases end,
    {
        assert(chars@.subrange(start as int, end as int).drop_last() =~= chars@.subrange(
            start as int,
            end - 1,
        ));
        assert(chars@.subrange(start as int, end as int).last() == chars@[end - 1]);
        end = end - 1;
    }
    slice_chars(&chars, start, end)
}

/// The trimmed text.
pub fn trimmed(s: &str) -> (r: String)
    ensures
        r@ == trim(s@),
{
    text_of(&trimmed_chars(s))
}

/// The characters from `start` up to, not including, `end`.
pub fn slice_chars(chars: &[char], start: usize, end: usize) -> (r: Vec<char>)
    requires
        start <= end <= chars@.len(),
    ensures
        r@ == chars@.subrange(start as int, end as int),
{
    let mut out: Vec<char> = Vec::new();
    let mut i: usize = start;
    while i < end
        invariant
            start <= i <= end <= chars@.len(),
            out@ == chars@.subrange(start as int, i as int),
        decreases end - i,
    {
        assert(chars@.subrange(start as int, i + 1) =~= chars@.subrange(start as int, i as int).push(
            chars@[i as int],
        ));
        out.push(chars[i]);
        i = i + 1;
    }
    out
}

/// Whether `needle` occurs in `hay` as a contiguous run.
pub open spec fn occurs_in(needle: Seq<char>, hay: Seq<char>) -> bool {
    exists|i: int|
        0 <= i && i + needle.len() <= hay.len() && #[trigger] hay.subrange(i, i + needle.len())
            == needle
}

/// Decides [`occurs_in`].
pub fn chars_occur_in(needle: &[char], hay: &[char]) -> (r: bool)
    ensures
        r == occurs_in(needle@, hay@),
{
    if needle.len() > hay.len() {
        return false;
    }
    let last: usize = hay.len() - needle.len();
    let mut i: usize = 0;
    while i <= last
        invariant
            i <= last + 1,
            last == hay@.len() - needle@.len(),
            hay@.len() <= usize::MAX,
            forall|j: int| 0 <= j < i ==> #[trigger] hay@.subrange(j, j + needle@.len()) != needle@,
        decreases last + 1 - i,
    {
        let window = slice_chars(hay, i, i + needle.len());
        if same_chars(&window, needle) {
            return true;
        }
        if i == last {
            assert forall|j: int| 0 <= j && j + needle@.len() <= hay@.len() implies
                #[trigger] hay@.subrange(j, j + needle@.len()) != needle@ by {
                if j == i {
                    assert(hay@.subrange(j, j + needle@.len()) == window@);
                }
            }
            return false;
        }
        assert(hay@.subrange(i as int, i + needle@.len()) == window@);
        i = i + 1;
    }
    false
}

/// The ASCII lower-case form of a character.
pub open spec fn ascii_lower(c: char) -> char {
    if 'A' <= c <= 'Z' {
        ((c as u32 + 32) as u32) as char
    } else {
        c
    }
}

/// The ASCII upper-case form of a character.
pub open spec fn ascii_upper(c: char) -> char {
    if 'a' <= c <= 'z' {
        ((c as u32 - 32) as u32) as char
    } else {
        c
    }
}

/// Every character of `s` in its ASCII lower-case form.
pub open spec fn lower_text(s: Seq<char>) -> Seq<char> {
    s.map_values(|c: char| ascii_lower(c))
}

/// Computes [`ascii_lower`].
pub fn lower_char(c: char) -> (r: char)
    ensures
        r == ascii_lower(c),
{
    if 'A' <= c && c <= 'Z' {
        ((c as u8) + 32) as char
    } else {
        c
    }
}

/// Computes [`ascii_upper`].
pub fn upper_char(c: char) -> (r: char)
    ensures
        r == ascii_upper(c),
{
    if 'a' <= c && c <= 'z' {
        ((c as u8) - 32) as char
    } else {
        c
    }
}

/// The given characters in their ASCII lower-case form.
pub fn lower_chars(chars: &[char]) -> (r: Vec<char>)
    ensures
        r@ == lower_text(chars@),
{
    let mut out: Vec<char> = Vec::new();
    let mut i: usize = 0;
    while i < chars.len()
        invariant
            i <= chars@.len(),
            out@ =~= lower_text(chars@.take(i as int)),
        decreases chars@.len() - i,
    {
        assert(chars@.take(i + 1) =~= chars@.take(i as int).push(chars@[i as int]));
        out.push(lower_char(chars[i]));
        i = i + 1;
    }
    assert(chars@.take(i as int) =~= chars@);
    out
}

/// Lexicographic order on characters: `a` comes before or equals `b`.
pub open spec fn text_le(a: Seq<char>, b: Seq<char>) -> bool
    decreases a.len(),
{
    if a.len() == 0 {
        true
    } else if b.len() == 0 {
        false
    } else if a[0] != b[0] {
        a[0] < b[0]
    } else {
        text_le(a.drop_first(), b.drop_first())
    }
}

/// Decides [`text_le`].
pub fn text_not_after(a: &str, b: &str) -> (r: bool)
    ensures
        r == text_le(a@, b@),
{
    let x = chars_of(a);
    let y = chars_of(b);
    let mut i: usize = 0;
    assert(x@.skip(0) =~= a@);
    assert(y@.skip(0) =~= b@);
    while i < x.len() && i < y.len() && x[i] == y[i]
        invariant
            i <= x@.len(),
            i <= y@.len(),
            text_le(a@, b@) == text_le(x@.skip(i as int), y@.skip(i as int)),
        decreases x@.len() - i,
    {
        assert(x@.skip(i as int).drop_first() =~= x@.skip(i + 1));
        assert(y@.skip(i as int).drop_first() =~= y@.skip(i + 1));
        i = i + 1;
    }
    if i >= x.len() {
        true
    } else if i >= y.len() {
        false
    } else {
        x[i] < y[i]
    }
}

/// [`text_le`] is total.
pub proof fn text_order_is_total(a: Seq<char>, b: Seq<char>)
    ensures
        text_le(a, b) || text_le(b, a),
    decreases a.len(),
{
    if a.len() > 0 && b.len() > 0 && a[0] == b[0] {
        text_order_is_total(a.drop_first(), b.drop_first());
    }
}

/// [`text_le`] is transitive.
pub proof fn text_order_is_transitive(a: Seq<char>, b: Seq<char>, c: Seq<char>)
    requires
        text_le(a, b),
        text_le(b, c),
    ensures
        text_le(a, c),
    decreases a.len(),
{
    if a.len() > 0 && b.len() > 0 && c.len() > 0 && a[0] == b[0] && b[0] == c[0] {
        text_order_is_transitive(a.drop_first(), b.drop_first(), c.drop_first());
    }
}

/// Texts that [`text_le`] orders both ways are equal.
pub proof fn text_order_is_antisymmetric(a: Seq<char>, b: Seq<char>)
    requires
        text_le(a, b),
        text_le(b, a),
    ensures
        a == b,
    decreases a.len(),
{
    if a.len() > 0 && b.len() > 0 {
        text_order_is_antisymmetric(a.drop_first(), b.drop_first());
        assert(a =~= seq![a[0]] + a.drop_first());
        assert(b =~= seq![b[0]] + b.drop_first());
    } else {
        assert(a =~= b);
    }
}

/// The decimal digit character for `d`.
pub open spec fn digit_char(d: nat) -> char {
    ((0x30 + d) as u32) as char
}

/// `n` in decimal notation, without leading zeros.
pub open spec fn decimal(n: nat) -> Seq<char>
    decreases n,
{
    if n < 10 {
        seq![digit_char(n)]
    } else {
        decimal(n / 10).push(digit_char(n % 10))
    }
}

fn decimal_chars(n: u64) -> (r: Vec<char>)
    ensures
        r@ == decimal(n as nat),
    decreases n,
{
    if n < 10 {
        let mut out: Vec<char> = Vec::new();
        out.push((0x30 + n as u8) as char);
        assert(out@ =~= decimal(n as nat));
        out
    } else {
        let mut out = decimal_chars(n / 10);
        out.push((0x30 + (n % 10) as u8) as char);
        out
    }
}

/// `n` in decimal notation.
pub fn decimal_text(n: u64) -> (r: String)
    ensures
        r@ == decimal(n as nat),
{
    text_of(&decimal_chars(n))
}

/// A run of `n` zero digits.
pub open spec fn zeros(n: nat) -> Seq<char> {
    Seq::new(n, |i: int| '0')
}

/// `n` in decimal notation, padded on the left with zeros to at least `width` characters.
pub open spec fn padded_decimal(n: nat, width: nat) -> Seq<char> {
    if decimal(n).len() >= width {
        decimal(n)
    } else {
        zeros((width - decimal(n).len()) as nat) + decimal(n)
    }
}

/// `n` in decimal notation, padded with zeros to at least `width` characters.
pub fn padded_decimal_text(n: u64, width: usize) -> (r: String)
    ensures
        r@ == padded_decimal(n as nat, width as nat),
{
    let digits = decimal_chars(n);
    let mut out = String::new();
    let mut have: usize = digits.len();
    while have < width
        invariant
            digits@ == decimal(n as nat),
            digits@.len() <= have,
            have <= width || have == digits@.len(),
            out@ =~= zeros((have - digits@.len()) as nat),
        decreases width - have,
    {
        push_char(&mut out, '0');
        have = have + 1;
    }
    let tail = text_of(&digits);
    out.append(tail.as_str());
    assert(out@ =~= padded_decimal(n as nat, width as nat));
    out
}

/// The value of a hexadecimal digit.
pub open spec fn hex_value(c: char) -> Option<int> {
    if '0' <= c <= '9' {
        Some(c as u32 - 0x30)
    } else if 'a' <= c <= 'f' {
        Some(c as u32 - 0x61 + 10)
    } else if 'A' <= c <= 'F' {
        Some(c as u32 - 0x41 + 10)
    } else {
        None
    }
}

/// Whether every character is a hexadecimal digit.
pub open spec fn all_hex(s: Seq<char>) -> bool {
    forall|i: int| 0 <= i < s.len() ==> hex_value(#[trigger] s[i]) is Some
}

/// The number that a run of hexadecimal digits denotes, most significant digit first.
pub open spec fn hex_number(s: Seq<char>) -> nat
    decreases s.len(),
{
    if s.len() == 0 {
        0
    } else {
        match hex_value(s.last()) {
            Some(d) => 16 * hex_number(s.drop_last()) + d as nat,
            None => 0,
        }
    }
}

/// Computes [`hex_value`].
pub fn hex_digit(c: char) -> (r: Option<u8>)
    ensures
        r is Some == hex_value(c) is Some,
        r matches Some(d) ==> hex_value(c) == Some(d as int) && d < 16,
{
    if '0' <= c && c <= '9' {
        Some((c as u8) - 0x30)
    } else if 'a' <= c && c <= 'f' {
        Some((c as u8) - 0x61 + 10)
    } else if 'A' <= c && c <= 'F' {
        Some((c as u8) - 0x41 + 10)
    } else {
        None
    }
}

/// Decides [`all_hex`].
pub fn chars_all_hex(chars: &[char]) -> (r: bool)
    ensures
        r == all_hex(chars@),
{
    let mut i: usize = 0;
    while i < chars.len()
        invariant
            i <= chars@.len(),
            forall|j: int| 0 <= j < i ==> hex_value(#[trigger] chars@[j]) is Some,
        decreases chars@.len() - i,
    {
        if hex_digit(chars[i]).is_none() {
            return false;
        }
        i = i + 1;
    }
    true
}

/// `a` followed by `b`.
pub fn joined(a: &str, b: &str) -> (r: String)
    ensures
        r@ == a@ + b@,
{
    let mut out = a.to_owned();
    out.append(b);
    out
}

/// Trimming drops the white space at both ends and nothing else.
pub proof fn trimming_drops_the_ends(left: Seq<char>, core: Seq<char>, right: Seq<char>)
    requires
        forall|i: int| 0 <= i < left.len() ==> is_space(#[trigger] left[i]),
        forall|i: int| 0 <= i < right.len() ==> is_space(#[trigger] right[i]),
        core.len() > 0 ==> !is_space(core[0]) && !is_space(core.last()),
    ensures
        trim(left + core + right) == core,
{
    let whole = left + core + right;
    assert(whole =~= left + (core + right));
    leading_space_goes(left, core + right);
    if core.len() == 0 {
        assert(core + right =~= right + Seq::<char>::empty());
        leading_space_goes(right, Seq::empty());
        assert(trim_end(Seq::<char>::empty()) =~= core);
    } else {
        assert((core + right)[0] == core[0]);
        trailing_space_goes(core, right);
    }
}

proof fn leading_space_goes(left: Seq<char>, rest: Seq<char>)
    requires
        forall|i: int| 0 <= i < left.len() ==> is_space(#[trigger] left[i]),
    ensures
        trim_start(left + rest) == trim_start(rest),
    decreases left.len(),
{
    if left.len() == 0 {
        assert(left + rest =~= rest);
    } else {
        assert((left + rest).drop_first() =~= left.drop_first() + rest);
        leading_space_goes(left.drop_first(), rest);
    }
}

proof fn trailing_space_goes(rest: Seq<char>, right: Seq<char>)
    requires
        forall|i: int| 0 <= i < right.len() ==> is_space(#[trigger] right[i]),
    ensures
        trim_end(rest + right) == trim_end(rest),
    decreases right.len(),
{
    if right.len() == 0 {
        assert(rest + right =~= rest);
    } else {
        assert((rest + right).drop_last() =~= rest + right.drop_last());
        trailing_space_goes(rest, right.drop_last());
    }
}

/// Blanks, tabs, line ends and the ideographic space are white space; letters, digits and
/// punctuation of ASCII are not.
pub proof fn white_space_is_blank(c: char)
    ensures
        c == ' ' || c == '\t' || c == '\n' || c == '\r' || c as u32 == 0x3000 ==> is_space(c),
        '!' <= c <= '~' ==> !is_space(c),
{
}

/// Whether two characters are the same but for the case of an ASCII letter.
pub open spec fn same_but_for_case(a: char, b: char) -> bool {
    ||| a == b
    ||| 'A' <= a <= 'Z' && b as u32 == a as u32 + 32
    ||| 'A' <= b <= 'Z' && a as u32 == b as u32 + 32
}

/// Two characters have the same lower case, and the same upper case, exactly where they differ in
/// nothing but the case of an ASCII letter.
pub proof fn case_is_all_that_is_dropped(a: char, b: char)
    ensures
        ascii_lower(a) == ascii_lower(b) <==> same_but_for_case(a, b),
        ascii_upper(a) == ascii_upper(b) <==> same_but_for_case(a, b),
        !('A' <= ascii_lower(a) <= 'Z'),
        !('a' <= ascii_upper(a) <= 'z'),
        same_but_for_case(a, ascii_lower(a)),
        same_but_for_case(a, ascii_upper(a)),
{
}

/// A part occurs in a text exactly where the text is something, the part and something.
pub proof fn parts_occur_in_their_wholes(
    left: Seq<char>,
    part: Seq<char>,
    right: Seq<char>,
    whole: Seq<char>,
)
    ensures
        occurs_in(part, left + part + right),
        occurs_in(part, whole) ==> exists|a: Seq<char>, b: Seq<char>|
            whole == #[trigger] (a + part + b),
{
    let joined = left + part + right;
    assert(joined.subrange(left.len() as int, (left.len() + part.len()) as int) =~= part);
    if occurs_in(part, whole) {
        let i = choose|i: int|
            0 <= i && i + part.len() <= whole.len() && #[trigger] whole.subrange(
                i,
                i + part.len(),
            ) == part;
        let a = whole.take(i);
        let b = whole.skip((i + part.len()) as int);
        assert(whole =~= a + part + b);
    }
}

/// Texts are ordered by the first character in which they differ, and one that begins another
/// comes before it.
pub proof fn first_difference_decides(
    common: Seq<char>,
    a: char,
    b: char,
    rest: Seq<char>,
    other: Seq<char>,
)
    requires
        (a as u32) < b as u32,
    ensures
        text_le(common.push(a) + rest, common.push(b) + other),
        !text_le(common.push(b) + other, common.push(a) + rest),
        text_le(common, common + rest),
        rest.len() > 0 ==> !text_le(common + rest, common),
    decreases common.len(),
{
    let x = common.push(a) + rest;
    let y = common.push(b) + other;
    if common.len() > 0 {
        let less = common.drop_first();
        first_difference_decides(less, a, b, rest, other);
        assert(x.drop_first() =~= less.push(a) + rest);
        assert(y.drop_first() =~= less.push(b) + other);
        assert(x[0] == common[0] && y[0] == common[0]);
        assert((common + rest).drop_first() =~= less + rest);
        assert((common + rest)[0] == common[0]);
    } else {
        assert(x[0] == a && y[0] == b);
        assert(common + rest =~= rest);
    }
}

/// The number that decimal digits denote.
pub open spec fn number_of_digits(s: Seq<char>) -> int
    decreases s.len(),
{
    if s.len() == 0 {
        0
    } else {
        10 * number_of_digits(s.drop_last()) + (s.last() as u32 - '0' as u32)
    }
}

/// Decimal notation denotes its number, in digits only, and starts with a zero for zero only.
pub proof fn decimal_notation_denotes_its_number(n: nat)
    ensures
        number_of_digits(decimal(n)) == n,
        decimal(n).len() > 0,
        forall|i: int| 0 <= i < decimal(n).len() ==> '0' <= #[trigger] decimal(n)[i] <= '9',
        n > 0 ==> decimal(n)[0] != '0',
        n < 10 ==> decimal(n).len() == 1,
        n >= 10 ==> decimal(n).len() == decimal(n / 10).len() + 1,
    decreases n,
{
    reveal_with_fuel(number_of_digits, 2);
    if n < 10 {
        assert(decimal(n).drop_last() =~= Seq::<char>::empty());
    } else {
        decimal_notation_denotes_its_number(n / 10);
        assert(decimal(n).drop_last() =~= decimal(n / 10));
        assert(decimal(n)[0] == decimal(n / 10)[0]);
    }
}

/// Padding puts zeros before the number until it is as wide as asked for.
pub proof fn padding_puts_zeros_before(n: nat, width: nat)
    ensures
        ({
            let padded = padded_decimal(n, width);
            let digits = decimal(n);
            let added = padded.len() - digits.len();
            &&& digits.len() >= width ==> padded == digits
            &&& digits.len() < width ==> padded.len() == width
            &&& added >= 0 && padded.skip(added) == digits
            &&& forall|i: int| 0 <= i < added ==> #[trigger] padded[i] == '0'
        }),
{
    let padded = padded_decimal(n, width);
    let digits = decimal(n);
    assert(padded.skip(padded.len() - digits.len()) =~= digits);
}

/// The digits `0` to `9` and the letters `a` to `f` in either case are hexadecimal digits, with
/// their usual values, and nothing else is one.
pub proof fn hexadecimal_digits_have_their_values(c: char, d: int)
    requires
        0 <= d < 16,
    ensures
        hex_value(c) == Some(d) <==> c == "0123456789abcdef"@[d] || c == "0123456789ABCDEF"@[d],
{
    reveal_strlit("0123456789abcdef");
    reveal_strlit("0123456789ABCDEF");
}

/// Whether two texts are the same but for the case of ASCII letters.
pub open spec fn same_words(a: Seq<char>, b: Seq<char>) -> bool {
    a.len() == b.len() && forall|i: int|
        0 <= i < a.len() ==> same_but_for_case(#[trigger] a[i], b[i])
}

/// Whether a text holds a part, but for the case of ASCII letters.
pub open spec fn holds_words(whole: Seq<char>, part: Seq<char>) -> bool {
    exists|i: int|
        0 <= i && i + part.len() <= whole.len() && same_words(
            #[trigger] whole.subrange(i, i + part.len()),
            part,
        )
}

/// A part in lower case stands in a text in lower case exactly where the text holds the part, but
/// for the case of ASCII letters.
pub proof fn words_are_found_in_lower_case(part: Seq<char>, whole: Seq<char>)
    ensures
        occurs_in(lower_text(part), lower_text(whole)) <==> holds_words(whole, part),
{
    let query = lower_text(part);
    let hay = lower_text(whole);
    let n = part.len();
    assert forall|i: int| 0 <= i && i + n <= whole.len() implies (#[trigger] hay.subrange(i, i + n)
        == query) == same_words(whole.subrange(i, i + n), part) by {
        let piece = whole.subrange(i, i + n);
        assert forall|k: int| 0 <= k < n implies (hay.subrange(i, i + n)[k] == query[k])
            == same_but_for_case(#[trigger] piece[k], part[k]) by {
            case_is_all_that_is_dropped(piece[k], part[k]);
        }
        if same_words(piece, part) {
            assert forall|k: int| 0 <= k < n implies #[trigger] hay.subrange(i, i + n)[k]
                == query[k] by {
                assert(same_but_for_case(piece[k], part[k]));
            }
            assert(hay.subrange(i, i + n) =~= query);
        } else if hay.subrange(i, i + n) == query {
            assert forall|k: int| 0 <= k < n implies same_but_for_case(
                #[trigger] piece[k],
                part[k],
            ) by {
                assert(hay.subrange(i, i + n)[k] == query[k]);
            }
        }
    }
    if occurs_in(query, hay) {
        let i = choose|i: int|
            0 <= i && i + query.len() <= hay.len() && #[trigger] hay.subrange(i, i + query.len())
                == query;
        assert(same_words(whole.subrange(i, i + n), part));
    }
    if holds_words(whole, part) {
        let i = choose|i: int|
            0 <= i && i + n <= whole.len() && same_words(
                #[trigger] whole.subrange(i, i + n),
                part,
            );
        assert(hay.subrange(i, i + n) == query);
    }
}

} // verus!
