//! File names made from names that the user chose.

use crate::text;
use vstd::prelude::*;
#[allow(unused_imports)]
use vstd::string::*;

verus! {

/// Whether a character may stand in a file name.
pub open spec fn is_safe(c: char) -> bool {
    ('a' <= c <= 'z') || ('A' <= c <= 'Z') || ('0' <= c <= '9') || c == '-' || c == '_' || c == '.'
}

/// A character that may stand in a file name, or an underscore in its place.
pub open spec fn safe_char(c: char) -> char {
    if is_safe(c) {
        c
    } else {
        '_'
    }
}

/// A text without the underscores at its start.
pub open spec fn without_leading(s: Seq<char>) -> Seq<char>
    decreases s.len(),
{
    if s.len() > 0 && s[0] == '_' {
        without_leading(s.skip(1))
    } else {
        s
    }
}

/// A text without the underscores at its end.
pub open spec fn without_trailing(s: Seq<char>) -> Seq<char>
    decreases s.len(),
{
    if s.len() > 0 && s.last() == '_' {
        without_trailing(s.drop_last())
    } else {
        s
    }
}

/// A file name for a name: other characters become underscores, underscores at either end go,
/// and where nothing is left the fallback stands in.
pub open spec fn safe_name(input: Seq<char>, fallback: Seq<char>) -> Seq<char> {
    let mapped = input.map_values(|c: char| safe_char(c));
    let trimmed = without_trailing(without_leading(mapped));
    if trimmed.len() == 0 {
        fallback
    } else {
        trimmed
    }
}

fn is_safe_char(c: char) -> (r: bool)
    ensures
        r == is_safe(c),
{
    ('a' <= c && c <= 'z') || ('A' <= c && c <= 'Z') || ('0' <= c && c <= '9') || c == '-' || c
        == '_' || c == '.'
}

/// A file name for a name.
pub fn safe_file_name(input: &str, fallback: &str) -> (r: String)
    ensures
        r@ == safe_name(input@, fallback@),
{
    let chars = text::chars_of(input);
    let mut mapped: Vec<char> = Vec::new();
    let mut i: usize = 0;
    while i < chars.len()
        invariant
            i <= chars@.len(),
            mapped@ =~= chars@.take(i as int).map_values(|c: char| safe_char(c)),
        decreases chars@.len() - i,
    {
        let c = chars[i];
        if is_safe_char(c) {
            mapped.push(c);
        } else {
            mapped.push('_');
        }
        i = i + 1;
    }
    assert(mapped@ =~= input@.map_values(|c: char| safe_char(c)));
    let ghost whole = mapped@;
    let mut start: usize = 0;
    assert(whole.skip(0) =~= whole);
    while start < mapped.len() && mapped[start] == '_'
        invariant
            start <= mapped@.len(),
            whole == mapped@,
            without_leading(whole) == without_leading(whole.skip(start as int)),
        decreases mapped@.len() - start,
    {
        assert(whole.skip(start as int).skip(1) =~= whole.skip(start + 1));
        start = start + 1;
    }
    let ghost led = whole.skip(start as int);
    assert(without_leading(whole) == led);
    let mut end: usize = mapped.len();
    assert(whole.subrange(start as int, end as int) =~= led);
    while end > start && mapped[end - 1] == '_'
        invariant
            start <= end <= mapped@.len(),
            whole == mapped@,
            without_trailing(led) == without_trailing(whole.subrange(start as int, end as int)),
        decreases end,
    {
        assert(whole.subrange(start as int, end as int).drop_last() =~= whole.subrange(
            start as int,
            end - 1,
        ));
        end = end - 1;
    }
    assert(without_trailing(led) == whole.subrange(start as int, end as int));
    if start == end {
        fallback.to_owned()
    } else {
        let kept = text::slice_chars(&mapped, start, end);
        text::text_of(&kept)
    }
}

/// Whether an underscore stands at the start or the end of a text.
pub open spec fn has_outer_underscore(s: Seq<char>) -> bool {
    s.len() > 0 && (s[0] == '_' || s.last() == '_')
}

/// A file name holds only letters, digits, hyphens, underscores and dots, whatever the name
/// holds, is not empty, and has no underscore at either end where the fallback has none.
pub proof fn file_names_are_safe(input: Seq<char>, fallback: Seq<char>, i: int)
    requires
        fallback.len() > 0,
        forall|j: int| 0 <= j < fallback.len() ==> is_safe(#[trigger] fallback[j]),
    ensures
        safe_name(input, fallback).len() > 0,
        0 <= i < safe_name(input, fallback).len() ==> is_safe(safe_name(input, fallback)[i]),
        !has_outer_underscore(fallback) ==> !has_outer_underscore(safe_name(input, fallback)),
{
    let mapped = input.map_values(|c: char| safe_char(c));
    leading_keeps_safe(mapped);
    trailing_keeps_safe(without_leading(mapped));
    leading_goes(mapped);
    trailing_goes(without_leading(mapped));
}

/// Making a file name of a file name changes nothing.
pub proof fn cleaning_twice_changes_nothing(input: Seq<char>, fallback: Seq<char>)
    requires
        !has_outer_underscore(fallback),
        forall|j: int| 0 <= j < fallback.len() ==> is_safe(#[trigger] fallback[j]),
    ensures
        safe_name(safe_name(input, fallback), fallback) == safe_name(input, fallback),
{
    let mapped = input.map_values(|c: char| safe_char(c));
    leading_keeps_safe(mapped);
    trailing_keeps_safe(without_leading(mapped));
    leading_goes(mapped);
    trailing_goes(without_leading(mapped));
    let name = safe_name(input, fallback);
    assert(name.map_values(|c: char| safe_char(c)) =~= name);
    assert(without_trailing(without_leading(name)) == name);
}

proof fn leading_goes(s: Seq<char>)
    ensures
        without_leading(s).len() > 0 ==> without_leading(s)[0] != '_',
    decreases s.len(),
{
    if s.len() > 0 && s[0] == '_' {
        leading_goes(s.skip(1));
    }
}

proof fn trailing_goes(s: Seq<char>)
    ensures
        without_trailing(s).len() > 0 ==> without_trailing(s).last() != '_'
            && without_trailing(s)[0] == s[0],
    decreases s.len(),
{
    if s.len() > 0 && s.last() == '_' {
        trailing_goes(s.drop_last());
    }
}

proof fn leading_keeps_safe(s: Seq<char>)
    requires
        forall|j: int| 0 <= j < s.len() ==> is_safe(#[trigger] s[j]),
    ensures
        forall|j: int|
            0 <= j < without_leading(s).len() ==> is_safe(#[trigger] without_leading(s)[j]),
    decreases s.len(),
{
    if s.len() > 0 && s[0] == '_' {
        let rest = s.skip(1);
        leading_keeps_safe(rest);
        assert forall|j: int| 0 <= j < without_leading(s).len() implies is_safe(
            #[trigger] without_leading(s)[j],
        ) by {
            assert(is_safe(without_leading(rest)[j]));
        }
    } else {
        assert forall|j: int| 0 <= j < without_leading(s).len() implies is_safe(
            #[trigger] without_leading(s)[j],
        ) by {
            assert(is_safe(s[j]));
        }
    }
}

proof fn trailing_keeps_safe(s: Seq<char>)
    requires
        forall|j: int| 0 <= j < s.len() ==> is_safe(#[trigger] s[j]),
    ensures
        forall|j: int|
            0 <= j < without_trailing(s).len() ==> is_safe(#[trigger] without_trailing(s)[j]),
    decreases s.len(),
{
    if s.len() > 0 && s.last() == '_' {
        let rest = s.drop_last();
        trailing_keeps_safe(rest);
        assert forall|j: int| 0 <= j < without_trailing(s).len() implies is_safe(
            #[trigger] without_trailing(s)[j],
        ) by {
            assert(is_safe(without_trailing(rest)[j]));
        }
    } else {
        assert forall|j: int| 0 <= j < without_trailing(s).len() implies is_safe(
            #[trigger] without_trailing(s)[j],
        ) by {
            assert(is_safe(s[j]));
        }
    }
}

/// A file name keeps the name as far as it can: every letter, digit, hyphen, underscore and dot
/// between the first and the last character that stays, and an underscore for each other character
/// between them.
pub proof fn file_names_keep_the_name(
    left: Seq<char>,
    core: Seq<char>,
    right: Seq<char>,
    fallback: Seq<char>,
    i: int,
)
    requires
        forall|j: int| 0 <= j < left.len() ==> #[trigger] left[j] == '_' || !is_safe(left[j]),
        forall|j: int| 0 <= j < right.len() ==> #[trigger] right[j] == '_' || !is_safe(right[j]),
        core.len() > 0 ==> is_safe(core[0]) && core[0] != '_' && is_safe(core.last())
            && core.last() != '_',
    ensures
        core.len() == 0 ==> safe_name(left + core + right, fallback) == fallback,
        core.len() > 0 ==> safe_name(left + core + right, fallback).len() == core.len(),
        0 <= i < core.len() ==> safe_name(left + core + right, fallback)[i] == (if ('a' <= core[i]
            <= 'z') || ('A' <= core[i] <= 'Z') || ('0' <= core[i] <= '9') || core[i] == '-'
            || core[i] == '_' || core[i] == '.' {
            core[i]
        } else {
            '_'
        }),
{
    let f = |c: char| safe_char(c);
    let l = left.map_values(f);
    let c = core.map_values(f);
    let r = right.map_values(f);
    let mapped = (left + core + right).map_values(f);
    assert(mapped =~= l + (c + r));
    leading_marks_go(l, c + r);
    if core.len() == 0 {
        assert(c + r =~= r + Seq::<char>::empty());
        leading_marks_go(r, Seq::empty());
        assert(without_leading(mapped).len() == 0);
    } else {
        assert((c + r)[0] == core[0]);
        trailing_marks_go(c, r);
        assert(c.last() == core.last());
    }
}

proof fn leading_marks_go(left: Seq<char>, rest: Seq<char>)
    requires
        forall|j: int| 0 <= j < left.len() ==> #[trigger] left[j] == '_',
    ensures
        without_leading(left + rest) == without_leading(rest),
    decreases left.len(),
{
    if left.len() == 0 {
        assert(left + rest =~= rest);
    } else {
        assert((left + rest)[0] == '_');
        assert((left + rest).skip(1) =~= left.skip(1) + rest);
        leading_marks_go(left.skip(1), rest);
    }
}

proof fn trailing_marks_go(rest: Seq<char>, right: Seq<char>)
    requires
        forall|j: int| 0 <= j < right.len() ==> #[trigger] right[j] == '_',
    ensures
        without_trailing(rest + right) == without_trailing(rest),
    decreases right.len(),
{
    if right.len() == 0 {
        assert(rest + right =~= rest);
    } else {
        assert((rest + right).last() == '_');
        assert((rest + right).drop_last() =~= rest + right.drop_last());
        trailing_marks_go(rest, right.drop_last());
    }
}

} // verus!
