//! Translated texts. Protocol identifiers, user content and file formats do not depend on the
//! language.

use crate::text;
use vstd::prelude::*;
#[allow(unused_imports)]
use vstd::string::*;

verus! {

/// A language of the user interface.
#[derive(Debug, Clone, Copy, PartialEq, Eq, Structural)]
pub enum Language {
    English,
    SimplifiedChinese,
}

impl Default for Language {
    fn default() -> (r: Self)
        ensures
            r == Language::SimplifiedChinese,
    {
        Language::SimplifiedChinese
    }
}

/// One translation.
#[derive(Debug, PartialEq, Eq)]
pub struct CatalogEntry {
    pub key: String,
    pub text: String,
}

/// The mathematical value of [`CatalogEntry`].
#[verifier::ext_equal]
pub struct CatalogEntryView {
    pub key: Seq<char>,
    pub text: Seq<char>,
}

impl DeepView for CatalogEntry {
    type V = CatalogEntryView;

    open spec fn deep_view(&self) -> CatalogEntryView {
        CatalogEntryView {
            key: self.key@,
            text: self.text@,
        }
    }
}

impl Clone for CatalogEntry {
    fn clone(&self) -> (r: Self)
        ensures
            r.deep_view() == self.deep_view(),
    {
        CatalogEntry {
            key: self.key.clone(),
            text: self.text.clone(),
        }
    }
}

/// The translations into one language. Where a key stands more than once, the first entry counts.
#[derive(Debug, PartialEq, Eq)]
pub struct Catalog {
    pub entries: Vec<CatalogEntry>,
}

/// The mathematical value of [`Catalog`].
#[verifier::ext_equal]
pub struct CatalogView {
    pub entries: Seq<CatalogEntryView>,
}

impl DeepView for Catalog {
    type V = CatalogView;

    open spec fn deep_view(&self) -> CatalogView {
        CatalogView {
            entries: self.entries.deep_view(),
        }
    }
}

impl Clone for Catalog {
    fn clone(&self) -> (r: Self)
        ensures
            r.deep_view() == self.deep_view(),
    {
        let r = Catalog {
            entries: self.entries.clone(),
        };
        assert(r.entries.deep_view() =~= self.entries.deep_view());
        r
    }
}

/// The translations into every language.
#[derive(Debug, PartialEq, Eq)]
pub struct Catalogs {
    pub english: Catalog,
    pub chinese: Catalog,
}

/// The mathematical value of [`Catalogs`].
#[verifier::ext_equal]
pub struct CatalogsView {
    pub english: CatalogView,
    pub chinese: CatalogView,
}

impl DeepView for Catalogs {
    type V = CatalogsView;

    open spec fn deep_view(&self) -> CatalogsView {
        CatalogsView {
            english: self.english.deep_view(),
            chinese: self.chinese.deep_view(),
        }
    }
}

impl Clone for Catalogs {
    fn clone(&self) -> (r: Self)
        ensures
            r.deep_view() == self.deep_view(),
    {
        Catalogs {
            english: self.english.clone(),
            chinese: self.chinese.clone(),
        }
    }
}

/// The translation of `key` in a catalog.
pub open spec fn lookup(entries: Seq<CatalogEntryView>, key: Seq<char>) -> Option<Seq<char>>
    decreases entries.len(),
{
    if entries.len() == 0 {
        None
    } else if entries[0].key == key {
        Some(entries[0].text)
    } else {
        lookup(entries.drop_first(), key)
    }
}

/// The text for `key`: in the language, else in English, else the key itself.
pub open spec fn translation(language: Language, catalogs: CatalogsView, key: Seq<char>) -> Seq<
    char,
> {
    let own = match language {
        Language::English => catalogs.english,
        Language::SimplifiedChinese => catalogs.chinese,
    };
    match lookup(own.entries, key) {
        Some(found) => found,
        None => match lookup(catalogs.english.entries, key) {
            Some(found) => found,
            None => key,
        },
    }
}

/// The number that a run of decimal digits denotes.
pub open spec fn digits_value(s: Seq<char>) -> Option<nat>
    decreases s.len(),
{
    if s.len() == 0 {
        Some(0)
    } else if !('0' <= s.last() <= '9') {
        None
    } else {
        match digits_value(s.drop_last()) {
            Some(head) => Some((10 * head + (s.last() as u32 - 0x30)) as nat),
            None => None,
        }
    }
}

/// The number of an argument: decimal digits, with an optional plus sign before them.
pub open spec fn argument_number(s: Seq<char>) -> Option<nat> {
    let digits = if s.len() > 0 && s[0] == '+' {
        s.skip(1)
    } else {
        s
    };
    if digits.len() == 0 {
        None
    } else {
        digits_value(digits)
    }
}

/// The position of the first `c` in `s`, or the length of `s`.
pub open spec fn first_position(s: Seq<char>, c: char) -> nat
    decreases s.len(),
{
    if s.len() == 0 || s[0] == c {
        0
    } else {
        1 + first_position(s.skip(1), c)
    }
}

/// The argument that the placeholder at the start of `s` names, and the placeholder's length.
pub open spec fn placeholder(s: Seq<char>, args: Seq<Seq<char>>) -> Option<(Seq<char>, nat)> {
    let end = first_position(s, '}');
    if s.len() == 0 || s[0] != '{' || end >= s.len() {
        None
    } else {
        match argument_number(s.subrange(1, end as int)) {
            Some(index) if index < args.len() => Some((args[index as int], end + 1)),
            _ => None,
        }
    }
}

/// The template with its placeholders replaced, in one pass from the left: what an argument
/// holds is not looked at again.
pub open spec fn filled(template: Seq<char>, args: Seq<Seq<char>>) -> Seq<char>
    decreases template.len(),
{
    if template.len() == 0 {
        template
    } else {
        match placeholder(template, args) {
            Some((value, width)) => value + filled(template.skip(width as int), args),
            None => seq![template[0]] + filled(template.skip(1), args),
        }
    }
}

impl Catalog {
    fn get<'a>(&'a self, key: &str) -> (r: Option<&'a str>)
        ensures
            match r {
                Some(found) => lookup(self.deep_view().entries, key@) == Some(found@),
                None => lookup(self.deep_view().entries, key@) is None,
            },
    {
        let ghost all = self.deep_view().entries;
        let mut i: usize = 0;
        assert(all.skip(0) =~= all);
        while i < self.entries.len()
            invariant
                i <= self.entries@.len(),
                all == self.deep_view().entries,
                lookup(all, key@) == lookup(all.skip(i as int), key@),
            decreases self.entries@.len() - i,
        {
            assert(all.skip(i as int)[0] == self.entries@[i as int].deep_view());
            if text::same_text(self.entries[i].key.as_str(), key) {
                return Some(self.entries[i].text.as_str());
            }
            assert(all.skip(i as int).drop_first() =~= all.skip(i + 1));
            i = i + 1;
        }
        None
    }
}

fn position_of(s: &[char], from: usize, c: char) -> (r: usize)
    requires
        from <= s@.len(),
    ensures
        from <= r <= s@.len(),
        r == from + first_position(s@.skip(from as int), c),
{
    let mut i: usize = from;
    while i < s.len() && s[i] != c
        invariant
            from <= i <= s@.len(),
            from + first_position(s@.skip(from as int), c) == i + first_position(
                s@.skip(i as int),
                c,
            ),
        decreases s@.len() - i,
    {
        assert(s@.skip(i as int).skip(1) =~= s@.skip(i + 1));
        i = i + 1;
    }
    i
}

/// Reads an argument number between two positions; a number beyond `usize` gives nothing.
fn read_number(s: &[char], start: usize, end: usize) -> (r: Option<usize>)
    requires
        start <= end <= s@.len(),
    ensures
        match r {
            Some(n) => argument_number(s@.subrange(start as int, end as int)) == Some(n as nat),
            None => argument_number(s@.subrange(start as int, end as int)) matches Some(n) ==> n
                > usize::MAX,
        },
{
    let ghost whole = s@.subrange(start as int, end as int);
    let mut from: usize = start;
    if start < end && s[start] == '+' {
        from = start + 1;
        assert(whole.skip(1) =~= s@.subrange(from as int, end as int));
    }
    let ghost digits = s@.subrange(from as int, end as int);
    if from == end {
        return None;
    }
    let mut value: usize = 0;
    let mut i: usize = from;
    assert(digits.take(0) =~= Seq::<char>::empty());
    while i < end
        invariant
            from <= i <= end <= s@.len(),
            from < end,
            digits == s@.subrange(from as int, end as int),
            argument_number(whole) == digits_value(digits),
            whole == s@.subrange(start as int, end as int),
            digits_value(digits.take(i - from)) == Some(value as nat),
        decreases end - i,
    {
        let c = s[i];
        let ghost head = digits.take(i - from);
        let ghost next = digits.take(i - from + 1);
        assert(next.drop_last() =~= head);
        assert(next.last() == c);
        if !('0' <= c && c <= '9') {
            proof {
                digits_value_needs_prefix(digits, i - from + 1);
            }
            return None;
        }
        let d: usize = ((c as u8) - 0x30) as usize;
        if value > (usize::MAX - d) / 10 {
            proof {
                digits_value_grows(digits, i - from + 1);
            }
            return None;
        }
        value = value * 10 + d;
        i = i + 1;
    }
    assert(digits.take(i - from) =~= digits);
    Some(value)
}

proof fn digits_value_needs_prefix(s: Seq<char>, n: int)
    requires
        0 <= n <= s.len(),
        digits_value(s.take(n)) is None,
    ensures
        digits_value(s) is None,
    decreases s.len(),
{
    if n == s.len() {
        assert(s.take(n) =~= s);
    } else {
        assert(s.drop_last().take(n) =~= s.take(n));
        digits_value_needs_prefix(s.drop_last(), n);
    }
}

proof fn digits_value_grows(s: Seq<char>, n: int)
    requires
        0 <= n <= s.len(),
        digits_value(s.take(n)) is Some,
    ensures
        digits_value(s) matches Some(v) ==> v >= digits_value(s.take(n))->0,
    decreases s.len(),
{
    if n == s.len() {
        assert(s.take(n) =~= s);
    } else {
        assert(s.drop_last().take(n) =~= s.take(n));
        digits_value_grows(s.drop_last(), n);
    }
}

/// Replaces the placeholders of a template.
pub fn fill_template(template: &str, args: &[String]) -> (r: String)
    ensures
        r@ == filled(template@, args.deep_view()),
{
    let t = text::chars_of(template);
    let ghost values = args.deep_view();
    let count: usize = args.len();
    let mut out = String::new();
    let mut i: usize = 0;
    assert(t@.skip(0) =~= t@);
    while i < t.len()
        invariant
            i <= t@.len(),
            values == args.deep_view(),
            values.len() == count,
            filled(t@, values) =~= out@ + filled(t@.skip(i as int), values),
        decreases t@.len() - i,
    {
        let ghost rest = t@.skip(i as int);
        let c = t[i];
        let mut taken: usize = 0;
        if c == '{' {
            let end: usize = position_of(&t, i, '}');
            if end < t.len() {
                assert(t@.subrange(i + 1, end as int) =~= rest.subrange(1, end - i));
                match read_number(&t, i + 1, end) {
                    Some(index) => {
                        if index < count {
                            let ghost before = out@;
                            out.append(args[index].as_str());
                            assert(out@ == before + values[index as int]);
                            taken = end + 1 - i;
                        }
                    },
                    None => {},
                }
            }
        }
        if taken == 0 {
            assert(placeholder(rest, values) is None);
            text::push_char(&mut out, c);
            assert(rest.skip(1) =~= t@.skip(i + 1));
            i = i + 1;
        } else {
            assert(rest.skip(taken as int) =~= t@.skip(i + taken));
            i = i + taken;
        }
    }
    assert(filled(t@.skip(i as int), values) =~= Seq::<char>::empty());
    out
}

impl Language {
    /// The languages in the order of the selector.
    pub const ALL: [Language; 2] = [Language::SimplifiedChinese, Language::English];

    /// What the language calls itself.
    pub fn native_name(self) -> (r: &'static str)
        ensures
            r@ == match self {
                Language::English => "English"@,
                Language::SimplifiedChinese => "简体中文"@,
            },
    {
        match self {
            Language::English => "English",
            Language::SimplifiedChinese => "简体中文",
        }
    }

    /// The text for a key.
    pub fn text<'a>(self, catalogs: &'a Catalogs, key: &'a str) -> (r: &'a str)
        ensures
            r@ == translation(self, catalogs.deep_view(), key@),
    {
        let own = match self {
            Language::English => &catalogs.english,
            Language::SimplifiedChinese => &catalogs.chinese,
        };
        match own.get(key) {
            Some(found) => found,
            None => match catalogs.english.get(key) {
                Some(found) => found,
                None => key,
            },
        }
    }

    /// The text for a key with numbered arguments inserted.
    pub fn format(self, catalogs: &Catalogs, key: &str, args: &[String]) -> (r: String)
        ensures
            r@ == filled(translation(self, catalogs.deep_view(), key@), args.deep_view()),
    {
        fill_template(self.text(catalogs, key), args)
    }
}

/// A message that is translated when it is shown, so that changing the language also changes messages that are already on the screen.
#[derive(Debug)]
pub enum LocalizedText {
    /// A translated text with arguments.
    Message {
        key: &'static str,
        args: Vec<String>,
    },
    /// A text in its own language.
    Diagnostic(String),
}

/// The mathematical value of [`LocalizedText`].
#[verifier::ext_equal]
pub enum LocalizedTextView {
    Message { key: Seq<char>, args: Seq<Seq<char>> },
    Diagnostic(Seq<char>),
}

impl DeepView for LocalizedText {
    type V = LocalizedTextView;

    open spec fn deep_view(&self) -> LocalizedTextView {
        match *self {
            LocalizedText::Message { key, args } => LocalizedTextView::Message {
                key: key@,
                args: args.deep_view(),
            },
            LocalizedText::Diagnostic(value) => LocalizedTextView::Diagnostic(value@),
        }
    }
}

impl Clone for LocalizedText {
    fn clone(&self) -> (r: Self)
        ensures
            r.deep_view() == self.deep_view(),
    {
        match self {
            LocalizedText::Message { key, args } => {
                let args_copy = args.clone();
                assert(args_copy.deep_view() =~= args.deep_view());
                LocalizedText::Message {
                    key: *key,
                    args: args_copy,
                }
            },
            LocalizedText::Diagnostic(value) => LocalizedText::Diagnostic(value.clone()),
        }
    }
}

/// What a message says in a language.
pub open spec fn rendered(
    message: LocalizedTextView,
    language: Language,
    catalogs: CatalogsView,
) -> Seq<char> {
    match message {
        LocalizedTextView::Message { key, args } => filled(
            translation(language, catalogs, key),
            args,
        ),
        LocalizedTextView::Diagnostic(said) => said,
    }
}

/// A message without arguments.
pub open spec fn plain_message(key: Seq<char>) -> LocalizedTextView {
    LocalizedTextView::Message { key, args: Seq::empty() }
}

impl LocalizedText {
    /// A translated message.
    pub fn new(key: &'static str, args: &[String]) -> (r: Self)
        ensures
            r.deep_view() == (LocalizedTextView::Message { key: key@, args: args.deep_view() }),
    {
        let mut copies: Vec<String> = Vec::new();
        let mut i: usize = 0;
        while i < args.len()
            invariant
                i <= args@.len(),
                copies.deep_view() =~= args.deep_view().take(i as int),
            decreases args@.len() - i,
        {
            let ghost before = copies.deep_view();
            copies.push(args[i].clone());
            assert(copies.deep_view() =~= before.push(args.deep_view()[i as int]));
            i = i + 1;
        }
        assert(copies.deep_view() =~= args.deep_view());
        LocalizedText::Message { key, args: copies }
    }

    /// A translated message without arguments.
    pub fn plain(key: &'static str) -> (r: Self)
        ensures
            r.deep_view() == plain_message(key@),
    {
        let args: Vec<String> = Vec::new();
        assert(args.deep_view() =~= Seq::empty());
        LocalizedText::Message { key, args }
    }

    /// A translated message with one argument.
    pub fn with_one(key: &'static str, arg: String) -> (r: Self)
        ensures
            r.deep_view() == (LocalizedTextView::Message { key: key@, args: seq![arg@] }),
    {
        let mut args: Vec<String> = Vec::new();
        args.push(arg);
        assert(args.deep_view() =~= seq![arg@]);
        LocalizedText::Message { key, args }
    }

    /// A translated message with two arguments.
    pub fn with_two(key: &'static str, first: String, second: String) -> (r: Self)
        ensures
            r.deep_view() == (LocalizedTextView::Message { key: key@, args: seq![first@, second@] }),
    {
        let mut args: Vec<String> = Vec::new();
        args.push(first);
        args.push(second);
        assert(args.deep_view() =~= seq![first@, second@]);
        LocalizedText::Message { key, args }
    }

    /// The message in a language.
    pub fn render(&self, language: Language, catalogs: &Catalogs) -> (r: String)
        ensures
            r@ == rendered(self.deep_view(), language, catalogs.deep_view()),
    {
        match self {
            LocalizedText::Message { key, args } => {
                let slice = args.as_slice();
                assert(slice.deep_view() =~= args.deep_view());
                language.format(catalogs, key, slice)
            },
            LocalizedText::Diagnostic(said) => said.clone(),
        }
    }
}

/// A template without a placeholder stays as it is.
pub proof fn plain_templates_stay(template: Seq<char>, args: Seq<Seq<char>>)
    requires
        !template.contains('{'),
    ensures
        filled(template, args) == template,
    decreases template.len(),
{
    if template.len() > 0 {
        let rest = template.skip(1);
        assert(template[0] != '{');
        assert forall|i: int| 0 <= i < rest.len() implies rest[i] != '{' by {
            assert(template[i + 1] != '{');
        }
        plain_templates_stay(rest, args);
        assert(filled(template, args) =~= template);
    }
}

/// What an argument holds is inserted as it is, braces included: a placeholder gives its argument
/// and nothing of it is looked at again.
pub proof fn arguments_are_inserted_as_they_are(template: Seq<char>, args: Seq<Seq<char>>)
    ensures
        placeholder(template, args) matches Some((value, width)) ==> filled(template, args) == value
            + filled(template.skip(width as int), args),
{
    if placeholder(template, args) is Some {
        assert(template.len() > 0);
    }
}

/// A key that no catalog holds is shown as it is, in every language.
pub proof fn unknown_keys_are_shown(language: Language, catalogs: CatalogsView, key: Seq<char>)
    requires
        lookup(catalogs.english.entries, key) is None,
        lookup(catalogs.chinese.entries, key) is None,
    ensures
        translation(language, catalogs, key) == key,
{
}

/// A key that only the English catalog holds is shown in English, in every language.
pub proof fn english_stands_in(language: Language, catalogs: CatalogsView, key: Seq<char>)
    requires
        lookup(catalogs.english.entries, key) is Some,
        lookup(catalogs.chinese.entries, key) is None,
    ensures
        lookup(catalogs.english.entries, key) == Some(translation(language, catalogs, key)),
{
}

impl From<String> for LocalizedText {
    fn from(said: String) -> (r: Self) {
        LocalizedText::Diagnostic(said)
    }
}

impl vstd::std_specs::convert::FromSpecImpl<String> for LocalizedText {
    open spec fn obeys_from_spec() -> bool {
        true
    }

    open spec fn from_spec(said: String) -> Self {
        LocalizedText::Diagnostic(said)
    }
}

/// A placeholder is a number in braces, in decimal digits with or without a plus sign, and gives the
/// argument of that number; what follows it is filled by itself. Where there is no argument of the
/// number, the brace stays as it is.
pub proof fn placeholders_give_their_arguments(
    before: Seq<char>,
    plus: bool,
    digits: Seq<char>,
    after: Seq<char>,
    args: Seq<Seq<char>>,
)
    requires
        !before.contains('{'),
        digits.len() > 0,
        forall|i: int| 0 <= i < digits.len() ==> '0' <= #[trigger] digits[i] <= '9',
    ensures
        ({
            let number = if plus {
                seq!['+'] + digits
            } else {
                digits
            };
            let index = text::number_of_digits(digits);
            let rest = number + seq!['}'] + after;
            &&& 0 <= index < args.len() ==> filled(before + seq!['{'] + rest, args) == before
                + args[index] + filled(after, args)
            &&& index >= args.len() ==> filled(before + seq!['{'] + rest, args) == before + seq![
                '{',
            ] + filled(rest, args)
        }),
{
    let number = if plus {
        seq!['+'] + digits
    } else {
        digits
    };
    let index = text::number_of_digits(digits);
    digits_have_a_value(digits);
    assert forall|i: int| 0 <= i < number.len() implies #[trigger] number[i] != '}' by {
        if plus && i > 0 {
            assert(number[i] == digits[i - 1]);
        }
    }
    if plus {
        assert(number.skip(1) =~= digits);
    } else {
        assert('0' <= digits[0] <= '9');
    }
    assert(argument_number(number) == Some(index as nat));
    braces_close(number, after, args);
    let rest = number + seq!['}'] + after;
    if index < args.len() {
        placeholder_gives(before, rest, number.len() + 2, args[index], args);
        assert((seq!['{'] + rest).skip((number.len() + 2) as int) == after);
    } else {
        brace_stays(before, rest, args);
    }
}

/// A brace stays as it is where something else than a number stands in the braces, or where no brace
/// closes it.
pub proof fn other_braces_stay(
    before: Seq<char>,
    other: Seq<char>,
    after: Seq<char>,
    args: Seq<Seq<char>>,
)
    requires
        !before.contains('{'),
        !other.contains('}'),
        other.len() == 0 || (exists|i: int|
            1 <= i < other.len() && !('0' <= #[trigger] other[i] <= '9')) || !('0' <= other[0]
            <= '9') && other[0] != '+',
    ensures
        filled(before + seq!['{'] + (other + seq!['}'] + after), args) == before + seq!['{']
            + filled(other + seq!['}'] + after, args),
        filled(before + seq!['{'] + other, args) == before + seq!['{'] + filled(other, args),
{
    assert forall|i: int| 0 <= i < other.len() implies #[trigger] other[i] != '}' by {
        assert(other.contains(other[i]));
    }
    no_number(other);
    braces_close(other, after, args);
    brace_stays(before, other + seq!['}'] + after, args);
    let open = seq!['{'] + other;
    assert forall|i: int| 0 <= i < open.len() implies #[trigger] open[i] != '}' by {
        if i > 0 {
            assert(open[i] == other[i - 1]);
        }
    }
    first_position_is_none(open, '}');
    brace_stays(before, other, args);
}

proof fn placeholder_gives(
    before: Seq<char>,
    rest: Seq<char>,
    width: nat,
    value: Seq<char>,
    args: Seq<Seq<char>>,
)
    requires
        !before.contains('{'),
        placeholder(seq!['{'] + rest, args) == Some((value, width)),
    ensures
        filled(before + seq!['{'] + rest, args) == before + value + filled(
            (seq!['{'] + rest).skip(width as int),
            args,
        ),
{
    let start = seq!['{'] + rest;
    plain_start_stays(before, start, args);
    assert(before + seq!['{'] + rest =~= before + start);
    let later = filled(start.skip(width as int), args);
    assert(before + (value + later) =~= before + value + later);
}

proof fn brace_stays(before: Seq<char>, rest: Seq<char>, args: Seq<Seq<char>>)
    requires
        !before.contains('{'),
        placeholder(seq!['{'] + rest, args) is None,
    ensures
        filled(before + seq!['{'] + rest, args) == before + seq!['{'] + filled(rest, args),
{
    let start = seq!['{'] + rest;
    plain_start_stays(before, start, args);
    assert(before + seq!['{'] + rest =~= before + start);
    assert(start.skip(1) =~= rest);
    assert(before + (seq!['{'] + filled(rest, args)) =~= before + seq!['{'] + filled(rest, args));
}

/// What stands between braces decides what they give.
proof fn braces_close(inner: Seq<char>, after: Seq<char>, args: Seq<Seq<char>>)
    requires
        forall|i: int| 0 <= i < inner.len() ==> #[trigger] inner[i] != '}',
    ensures
        ({
            let start = seq!['{'] + (inner + seq!['}'] + after);
            placeholder(start, args) == match argument_number(inner) {
                Some(index) if index < args.len() => Some((args[index as int], inner.len() + 2)),
                _ => None,
            } && start.skip((inner.len() + 2) as int) == after
        }),
{
    let n = inner.len() as int;
    let start = seq!['{'] + (inner + seq!['}'] + after);
    assert forall|i: int| 0 <= i <= n implies #[trigger] start[i] != '}' by {
        if i > 0 {
            assert(start[i] == inner[i - 1]);
        }
    }
    assert(start[n + 1] == '}');
    first_position_is_first(start, '}', n + 1);
    assert(start.subrange(1, n + 1) =~= inner);
    assert(start.skip(n + 2) =~= after);
}

proof fn digits_have_a_value(s: Seq<char>)
    requires
        forall|i: int| 0 <= i < s.len() ==> '0' <= #[trigger] s[i] <= '9',
    ensures
        text::number_of_digits(s) >= 0,
        digits_value(s) == Some(text::number_of_digits(s) as nat),
    decreases s.len(),
{
    if s.len() > 0 {
        assert forall|i: int| 0 <= i < s.drop_last().len() implies '0' <= #[trigger] s.drop_last()[i]
            <= '9' by {
            assert('0' <= s[i] <= '9');
        }
        digits_have_a_value(s.drop_last());
        assert('0' <= s[s.len() - 1] <= '9');
    }
}

proof fn no_number(s: Seq<char>)
    requires
        s.len() == 0 || (exists|i: int| 1 <= i < s.len() && !('0' <= #[trigger] s[i] <= '9'))
            || !('0' <= s[0] <= '9') && s[0] != '+',
    ensures
        argument_number(s) is None,
{
    if s.len() > 0 {
        if exists|i: int| 1 <= i < s.len() && !('0' <= #[trigger] s[i] <= '9') {
            let i = choose|i: int| 1 <= i < s.len() && !('0' <= #[trigger] s[i] <= '9');
            if s[0] == '+' {
                assert(s.skip(1)[i - 1] == s[i]);
                no_digits_value(s.skip(1), i - 1);
            } else {
                no_digits_value(s, i);
            }
        } else {
            no_digits_value(s, 0);
        }
    }
}

proof fn no_digits_value(s: Seq<char>, i: int)
    requires
        0 <= i < s.len(),
        !('0' <= s[i] <= '9'),
    ensures
        digits_value(s) is None,
    decreases s.len(),
{
    if i < s.len() - 1 {
        no_digits_value(s.drop_last(), i);
    }
}

proof fn first_position_is_first(s: Seq<char>, c: char, at: int)
    requires
        0 <= at < s.len(),
        s[at] == c,
        forall|i: int| 0 <= i < at ==> #[trigger] s[i] != c,
    ensures
        first_position(s, c) == at,
    decreases at,
{
    if at > 0 {
        assert(s[0] != c);
        assert forall|i: int| 0 <= i < at - 1 implies #[trigger] s.skip(1)[i] != c by {
            assert(s[i + 1] != c);
        }
        first_position_is_first(s.skip(1), c, at - 1);
    }
}

proof fn first_position_is_none(s: Seq<char>, c: char)
    requires
        forall|i: int| 0 <= i < s.len() ==> #[trigger] s[i] != c,
    ensures
        first_position(s, c) == s.len(),
    decreases s.len(),
{
    if s.len() > 0 {
        assert(s[0] != c);
        assert forall|i: int| 0 <= i < s.skip(1).len() implies #[trigger] s.skip(1)[i] != c by {
            assert(s[i + 1] != c);
        }
        first_position_is_none(s.skip(1), c);
    }
}

proof fn plain_start_stays(before: Seq<char>, rest: Seq<char>, args: Seq<Seq<char>>)
    requires
        !before.contains('{'),
    ensures
        filled(before + rest, args) == before + filled(rest, args),
    decreases before.len(),
{
    if before.len() == 0 {
        assert(before + rest =~= rest);
        assert(before + filled(rest, args) =~= filled(rest, args));
    } else {
        let less = before.skip(1);
        assert(before[0] != '{');
        assert forall|i: int| 0 <= i < less.len() implies less[i] != '{' by {
            assert(before[i + 1] != '{');
        }
        plain_start_stays(less, rest, args);
        assert((before + rest).skip(1) =~= less + rest);
        assert((before + rest)[0] == before[0]);
        assert(seq![before[0]] + (less + filled(rest, args)) =~= before + filled(rest, args));
    }
}

/// A key is translated by the catalog of the language where that holds it, by its first entry for
/// the key.
pub proof fn languages_use_their_own_catalogs(
    language: Language,
    catalogs: CatalogsView,
    before: Seq<CatalogEntryView>,
    entry: CatalogEntryView,
    after: Seq<CatalogEntryView>,
)
    requires
        forall|i: int| 0 <= i < before.len() ==> (#[trigger] before[i]).key != entry.key,
    ensures
        lookup(before, entry.key) is None,
        lookup(before.push(entry) + after, entry.key) == Some(entry.text),
        language == Language::English && catalogs.english.entries == before.push(entry) + after
            ==> translation(language, catalogs, entry.key) == entry.text,
        language == Language::SimplifiedChinese && catalogs.chinese.entries == before.push(entry)
            + after ==> translation(language, catalogs, entry.key) == entry.text,
    decreases before.len(),
{
    let all = before.push(entry) + after;
    if before.len() == 0 {
        assert(all[0] == entry);
    } else {
        let less = before.drop_first();
        assert(before[0].key != entry.key);
        assert forall|i: int| 0 <= i < less.len() implies (#[trigger] less[i]).key != entry.key by {
            assert(before[i + 1].key != entry.key);
        }
        languages_use_their_own_catalogs(language, catalogs, less, entry, after);
        assert(all.drop_first() =~= less.push(entry) + after);
        assert(all[0] == before[0]);
    }
}

/// A message is shown as the translation of its key, filled with its arguments; a diagnostic is
/// shown as it is.
pub proof fn messages_are_translated_when_shown(
    key: Seq<char>,
    args: Seq<Seq<char>>,
    language: Language,
    catalogs: CatalogsView,
)
    ensures
        rendered(LocalizedTextView::Message { key, args }, language, catalogs) == filled(
            translation(language, catalogs, key),
            args,
        ),
        rendered(LocalizedTextView::Diagnostic(key), language, catalogs) == key,
{
}

} // verus!
