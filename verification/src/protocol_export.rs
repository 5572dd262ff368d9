//! Export of decoded frames: as records with named fields, and as a table with one column for
//! each field.

use crate::plotting::ScaledValue;
use crate::protocol::DecodedField;
#[allow(unused_imports)]
use crate::protocol::DecodedFieldView;
use crate::text;
use vstd::prelude::*;
#[allow(unused_imports)]
use vstd::string::*;

verus! {

/// A frame to be exported; its fields have different names and stand in the order of their names.
#[derive(Debug, PartialEq)]
pub struct ProtocolExportFrame {
    pub sequence: u64,
    pub timestamp: String,
    pub crc: String,
    pub hex: String,
    pub fields: Vec<DecodedField>,
}

/// The mathematical value of [`ProtocolExportFrame`].
#[verifier::ext_equal]
pub struct ProtocolExportFrameView {
    pub sequence: u64,
    pub timestamp: Seq<char>,
    pub crc: Seq<char>,
    pub hex: Seq<char>,
    pub fields: Seq<DecodedFieldView>,
}

impl DeepView for ProtocolExportFrame {
    type V = ProtocolExportFrameView;

    open spec fn deep_view(&self) -> ProtocolExportFrameView {
        ProtocolExportFrameView {
            sequence: self.sequence,
            timestamp: self.timestamp@,
            crc: self.crc@,
            hex: self.hex@,
            fields: self.fields.deep_view(),
        }
    }
}

impl Clone for ProtocolExportFrame {
    fn clone(&self) -> (r: Self)
        ensures
            r.deep_view() == self.deep_view(),
    {
        let r = ProtocolExportFrame {
            sequence: self.sequence,
            timestamp: self.timestamp.clone(),
            crc: self.crc.clone(),
            hex: self.hex.clone(),
            fields: self.fields.clone(),
        };
        assert(r.fields.deep_view() =~= self.fields.deep_view());
        r
    }
}

/// A cell of the table.
#[derive(Debug, PartialEq)]
pub enum ExportCell {
    Text(String),
    /// The decimal notation of a number.
    Number(ScaledValue),
    Blank,
}

/// The mathematical value of [`ExportCell`].
#[verifier::ext_equal]
pub enum ExportCellView {
    Text(Seq<char>),
    Number(ScaledValue),
    Blank,
}

impl DeepView for ExportCell {
    type V = ExportCellView;

    open spec fn deep_view(&self) -> ExportCellView {
        match *self {
            ExportCell::Text(value) => ExportCellView::Text(value@),
            ExportCell::Number(value) => ExportCellView::Number(value),
            ExportCell::Blank => ExportCellView::Blank,
        }
    }
}

/// The table: a header and one row for each frame.
#[derive(Debug, PartialEq)]
pub struct ExportTable {
    pub header: Vec<String>,
    pub rows: Vec<Vec<ExportCell>>,
}

/// The mathematical value of [`ExportTable`].
#[verifier::ext_equal]
pub struct ExportTableView {
    pub header: Seq<Seq<char>>,
    pub rows: Seq<Seq<ExportCellView>>,
}

impl DeepView for ExportTable {
    type V = ExportTableView;

    open spec fn deep_view(&self) -> ExportTableView {
        ExportTableView {
            header: self.header.deep_view(),
            rows: self.rows.deep_view(),
        }
    }
}

/// Whether `a` stands before `b` in the order of texts.
pub open spec fn text_lt(a: Seq<char>, b: Seq<char>) -> bool {
    text::text_le(a, b) && a != b
}

/// Whether names are all different and in order.
pub open spec fn strictly_sorted(names: Seq<Seq<char>>) -> bool {
    forall|i: int, j: int|
        0 <= i < j < names.len() ==> text_lt(#[trigger] names[i], #[trigger] names[j])
}

/// The names of fields.
pub open spec fn field_names(fields: Seq<DecodedFieldView>) -> Seq<Seq<char>> {
    Seq::new(fields.len(), |i: int| fields[i].name)
}

/// The value of the last field with a name.
pub open spec fn last_value(fields: Seq<DecodedFieldView>, name: Seq<char>) -> Option<
    Option<ScaledValue>,
>
    decreases fields.len(),
{
    if fields.len() == 0 {
        None
    } else if fields.last().name == name {
        Some(fields.last().value)
    } else {
        last_value(fields.drop_last(), name)
    }
}

/// Whether `entries` are the fields by name: different names, in order, each with the value of
/// the last field of that name.
pub open spec fn by_name(entries: Seq<DecodedFieldView>, fields: Seq<DecodedFieldView>) -> bool {
    &&& strictly_sorted(field_names(entries))
    &&& forall|name: Seq<char>| #[trigger] last_value(entries, name) == last_value(fields, name)
}

proof fn last_value_is_found(fields: Seq<DecodedFieldView>, name: Seq<char>)
    ensures
        last_value(fields, name) is Some <==> exists|i: int|
            0 <= i < fields.len() && (#[trigger] fields[i]).name == name,
    decreases fields.len(),
{
    if fields.len() > 0 {
        let rest = fields.drop_last();
        last_value_is_found(rest, name);
        if fields.last().name == name {
            assert(fields[fields.len() - 1].name == name);
        } else {
            if last_value(rest, name) is Some {
                let i = choose|i: int| 0 <= i < rest.len() && (#[trigger] rest[i]).name == name;
                assert(fields[i].name == name);
            }
            if exists|i: int| 0 <= i < fields.len() && (#[trigger] fields[i]).name == name {
                let i = choose|i: int| 0 <= i < fields.len() && (#[trigger] fields[i]).name == name;
                assert(rest[i].name == name);
            }
        }
    }
}

/// With different names, each entry is the last one of its name.
proof fn sorted_last_value(entries: Seq<DecodedFieldView>, k: int)
    requires
        strictly_sorted(field_names(entries)),
        0 <= k < entries.len(),
    ensures
        last_value(entries, entries[k].name) == Some(entries[k].value),
    decreases entries.len(),
{
    let names = field_names(entries);
    if k < entries.len() - 1 {
        assert(text_lt(names[k], names[entries.len() - 1]));
        let rest = entries.drop_last();
        assert(field_names(rest) =~= names.drop_last());
        sorted_last_value(rest, k);
    }
}

/// The values of two lists with different names agree where they hold the same entries.
proof fn same_values(
    before: Seq<DecodedFieldView>,
    after: Seq<DecodedFieldView>,
    field: DecodedFieldView,
)
    requires
        strictly_sorted(field_names(before)),
        strictly_sorted(field_names(after)),
        forall|i: int|
            0 <= i < after.len() ==> (#[trigger] after[i]) == field || (after[i].name != field.name
                && before.contains(after[i])),
        forall|i: int|
            0 <= i < before.len() ==> (#[trigger] before[i]).name == field.name || after.contains(
                before[i],
            ),
        after.contains(field),
    ensures
        forall|name: Seq<char>| #[trigger]
            last_value(after, name) == (if name == field.name {
                Some(field.value)
            } else {
                last_value(before, name)
            }),
{
    assert forall|name: Seq<char>| #[trigger]
        last_value(after, name) == (if name == field.name {
            Some(field.value)
        } else {
            last_value(before, name)
        }) by {
        last_value_is_found(after, name);
        last_value_is_found(before, name);
        if name == field.name {
            let k = choose|k: int| 0 <= k < after.len() && after[k] == field;
            sorted_last_value(after, k);
        } else if last_value(after, name) is Some {
            let i = choose|i: int| 0 <= i < after.len() && (#[trigger] after[i]).name == name;
            sorted_last_value(after, i);
            let j = choose|j: int| 0 <= j < before.len() && before[j] == after[i];
            sorted_last_value(before, j);
        } else if last_value(before, name) is Some {
            let i = choose|i: int| 0 <= i < before.len() && (#[trigger] before[i]).name == name;
            assert(after.contains(before[i]));
            let j = choose|j: int| 0 <= j < after.len() && after[j] == before[i];
            assert(after[j].name == name);
        }
    }
}

/// Whether `at` is the place of a name: everything before it stands before the name, and nothing
/// from it on does.
spec fn is_place(names: Seq<Seq<char>>, name: Seq<char>, at: int) -> bool {
    &&& 0 <= at <= names.len()
    &&& forall|i: int| 0 <= i < at ==> text_lt(#[trigger] names[i], name)
    &&& forall|i: int| at <= i < names.len() ==> text::text_le(name, #[trigger] names[i])
}

proof fn rest_is_not_before(names: Seq<Seq<char>>, name: Seq<char>, at: int)
    requires
        strictly_sorted(names),
        0 <= at < names.len(),
        text::text_le(name, names[at]),
    ensures
        forall|i: int| at <= i < names.len() ==> text::text_le(name, #[trigger] names[i]),
{
    assert forall|i: int| at <= i < names.len() implies text::text_le(
        name,
        #[trigger] names[i],
    ) by {
        if i > at {
            assert(text_lt(names[at], names[i]));
            text::text_order_is_transitive(name, names[at], names[i]);
        }
    }
}

proof fn earlier_is_before(a: Seq<char>, name: Seq<char>)
    requires
        !text::text_le(name, a),
    ensures
        text_lt(a, name),
{
    text::text_order_is_total(a, name);
}

/// Inserting a name at its place keeps the names in order.
proof fn insert_keeps_order(names: Seq<Seq<char>>, name: Seq<char>, at: int)
    requires
        strictly_sorted(names),
        is_place(names, name, at),
        at < names.len() ==> names[at] != name,
    ensures
        strictly_sorted(names.insert(at, name)),
{
    let after = names.insert(at, name);
    assert forall|i: int, j: int| 0 <= i < j < after.len() implies text_lt(
        #[trigger] after[i],
        #[trigger] after[j],
    ) by {
        if i < at && j < at {
            assert(text_lt(names[i], names[j]));
        } else if i < at && j == at {
            assert(text_lt(names[i], name));
        } else if i < at {
            assert(text_lt(names[i], names[j - 1]));
        } else if i == at {
            assert(text::text_le(name, names[j - 1]));
            if names[j - 1] == name {
                assert(j - 1 > at);
                assert(text_lt(names[at], names[j - 1]));
                text::text_order_is_antisymmetric(names[at], name);
            }
        } else {
            assert(text_lt(names[i - 1], names[j - 1]));
        }
    }
}

/// The fields by name: in order, and of fields with one name the last.
pub fn collect_fields(fields: &[DecodedField]) -> (r: Vec<DecodedField>)
    ensures
        by_name(r.deep_view(), fields.deep_view()),
{
    let ghost all = fields.deep_view();
    let mut entries: Vec<DecodedField> = Vec::new();
    let mut i: usize = 0;
    assert(all.take(0) =~= Seq::empty());
    while i < fields.len()
        invariant
            i <= fields@.len(),
            all == fields.deep_view(),
            by_name(entries.deep_view(), all.take(i as int)),
        decreases fields@.len() - i,
    {
        let ghost before = entries.deep_view();
        let ghost next = all.take(i + 1);
        assert(next.drop_last() =~= all.take(i as int));
        assert(next.last() == fields@[i as int].deep_view());
        put_field(&mut entries, &fields[i]);
        assert forall|name: Seq<char>| #[trigger]
            last_value(entries.deep_view(), name) == last_value(next, name) by {
            assert(last_value(before, name) == last_value(all.take(i as int), name));
        }
        i = i + 1;
    }
    assert(all.take(i as int) =~= all);
    entries
}

fn put_field(entries: &mut Vec<DecodedField>, field: &DecodedField)
    requires
        strictly_sorted(field_names(old(entries).deep_view())),
    ensures
        strictly_sorted(field_names(final(entries).deep_view())),
        forall|name: Seq<char>| #[trigger]
            last_value(final(entries).deep_view(), name) == (if name == field.name@ {
                Some(field.value)
            } else {
                last_value(old(entries).deep_view(), name)
            }),
{
    let ghost before = entries.deep_view();
    let ghost names = field_names(before);
    let ghost value = field.deep_view();
    let mut at: usize = 0;
    while at < entries.len() && !text::text_not_after(field.name.as_str(), entries[at].name.as_str())
        invariant
            at <= entries@.len(),
            before == entries.deep_view(),
            names == field_names(before),
            strictly_sorted(names),
            forall|i: int| 0 <= i < at ==> text_lt(#[trigger] names[i], field.name@),
        decreases entries@.len() - at,
    {
        assert(names[at as int] == entries@[at as int].name@);
        proof {
            earlier_is_before(names[at as int], field.name@);
        }
        at = at + 1;
    }
    proof {
        if at < names.len() {
            assert(names[at as int] == entries@[at as int].name@);
            rest_is_not_before(names, field.name@, at as int);
        }
    }
    let copy = field.clone();
    if at < entries.len() && entries[at].name == field.name {
        entries.set(at, copy);
        let ghost after = entries.deep_view();
        proof {
            assert(after =~= before.update(at as int, value));
            assert(field_names(after) =~= names);
            assert(after[at as int] == value);
            assert forall|i: int| 0 <= i < after.len() implies (#[trigger] after[i]) == value || (
            after[i].name != value.name && before.contains(after[i])) by {
                if i != at {
                    assert(before[i] == after[i]);
                    if i < at {
                        assert(text_lt(names[i], names[at as int]));
                    } else {
                        assert(text_lt(names[at as int], names[i]));
                    }
                }
            }
            assert forall|i: int| 0 <= i < before.len() implies (#[trigger] before[i]).name
                == value.name || after.contains(before[i]) by {
                if i != at {
                    assert(after[i] == before[i]);
                }
            }
            same_values(before, after, value);
        }
    } else {
        proof {
            insert_keeps_order(names, field.name@, at as int);
        }
        entries.insert(at, copy);
        let ghost after = entries.deep_view();
        proof {
            assert(after =~= before.insert(at as int, value));
            assert(field_names(after) =~= names.insert(at as int, field.name@));
            assert(after[at as int] == value);
            assert forall|i: int| 0 <= i < after.len() implies (#[trigger] after[i]) == value || (
            after[i].name != value.name && before.contains(after[i])) by {
                if i < at {
                    assert(before[i] == after[i]);
                    assert(text_lt(names[i], field.name@));
                } else if i > at {
                    assert(before[i - 1] == after[i]);
                    assert(text_lt(field_names(after)[at as int], field_names(after)[i]));
                }
            }
            assert forall|i: int| 0 <= i < before.len() implies (#[trigger] before[i]).name
                == value.name || after.contains(before[i]) by {
                if i < at {
                    assert(after[i] == before[i]);
                } else {
                    assert(after[i + 1] == before[i]);
                }
            }
            same_values(before, after, value);
        }
    }
}

/// Whether some frame has a field with a name.
pub open spec fn is_column(frames: Seq<ProtocolExportFrameView>, name: Seq<char>) -> bool {
    exists|i: int, j: int|
        0 <= i < frames.len() && 0 <= j < frames[i].fields.len() && (
        #[trigger] frames[i].fields[j]).name == name
}

/// Whether `names` are the columns of the table: the names of all fields, each once, in order.
pub open spec fn are_columns(names: Seq<Seq<char>>, frames: Seq<ProtocolExportFrameView>) -> bool {
    &&& strictly_sorted(names)
    &&& forall|name: Seq<char>| #[trigger] names.contains(name) <==> is_column(frames, name)
}

fn put_name(names: &mut Vec<String>, name: &String)
    requires
        strictly_sorted(old(names).deep_view()),
    ensures
        strictly_sorted(final(names).deep_view()),
        forall|other: Seq<char>| #[trigger]
            final(names).deep_view().contains(other) <==> other == name@
                || old(names).deep_view().contains(other),
{
    let ghost before = names.deep_view();
    let mut at: usize = 0;
    while at < names.len() && !text::text_not_after(name.as_str(), names[at].as_str())
        invariant
            at <= names@.len(),
            before == names.deep_view(),
            strictly_sorted(before),
            forall|i: int| 0 <= i < at ==> text_lt(#[trigger] before[i], name@),
        decreases names@.len() - at,
    {
        assert(before[at as int] == names@[at as int]@);
        proof {
            earlier_is_before(before[at as int], name@);
        }
        at = at + 1;
    }
    proof {
        if at < before.len() {
            assert(before[at as int] == names@[at as int]@);
            rest_is_not_before(before, name@, at as int);
        }
    }
    if at < names.len() && names[at] == *name {
        assert(before[at as int] == name@);
        return;
    }
    proof {
        insert_keeps_order(before, name@, at as int);
    }
    names.insert(at, name.clone());
    let ghost after = names.deep_view();
    proof {
        assert(after =~= before.insert(at as int, name@));
        assert(after[at as int] == name@);
        assert forall|other: Seq<char>| #[trigger] after.contains(other) <==> other == name@
            || before.contains(other) by {
            if before.contains(other) {
                let i = choose|i: int| 0 <= i < before.len() && before[i] == other;
                if i < at {
                    assert(after[i] == other);
                } else {
                    assert(after[i + 1] == other);
                }
            }
            if after.contains(other) && other != name@ {
                let i = choose|i: int| 0 <= i < after.len() && after[i] == other;
                if i < at {
                    assert(before[i] == other);
                } else {
                    assert(before[i - 1] == other);
                }
            }
        }
    }
}

/// Whether a name stands in one of the first frames, or among the first fields of the next one.
spec fn seen(
    frames: Seq<ProtocolExportFrameView>,
    done: int,
    fields: int,
    name: Seq<char>,
) -> bool {
    exists|i: int, j: int|
        0 <= i < frames.len() && 0 <= j < frames[i].fields.len() && (i < done || (i == done && j
            < fields)) && (#[trigger] frames[i].fields[j]).name == name
}

fn column_names(frames: &[ProtocolExportFrame]) -> (r: Vec<String>)
    ensures
        are_columns(r.deep_view(), frames.deep_view()),
{
    let ghost all = frames.deep_view();
    let mut names: Vec<String> = Vec::new();
    let mut i: usize = 0;
    while i < frames.len()
        invariant
            i <= frames@.len(),
            all == frames.deep_view(),
            strictly_sorted(names.deep_view()),
            forall|name: Seq<char>| #[trigger]
                names.deep_view().contains(name) <==> seen(all, i as int, 0, name),
        decreases frames@.len() - i,
    {
        let fields = &frames[i].fields;
        assert(all[i as int] == frames@[i as int].deep_view());
        let mut j: usize = 0;
        while j < fields.len()
            invariant
                i < frames@.len(),
                j <= fields@.len(),
                all == frames.deep_view(),
                all[i as int].fields == fields.deep_view(),
                strictly_sorted(names.deep_view()),
                forall|name: Seq<char>| #[trigger]
                    names.deep_view().contains(name) <==> seen(all, i as int, j as int, name),
            decreases fields@.len() - j,
        {
            let ghost before = names.deep_view();
            assert(all[i as int].fields[j as int] == fields@[j as int].deep_view());
            put_name(&mut names, &fields[j].name);
            assert forall|name: Seq<char>| #[trigger]
                names.deep_view().contains(name) <==> seen(all, i as int, j + 1, name) by {
                assert(before.contains(name) <==> seen(all, i as int, j as int, name));
                if seen(all, i as int, j + 1, name) {
                    let (a, b) = choose|a: int, b: int|
                        0 <= a < all.len() && 0 <= b < all[a].fields.len() && (a < i || (a == i && b
                            < j + 1)) && (#[trigger] all[a].fields[b]).name == name;
                    if a == i && b == j {
                        assert(name == fields@[j as int].name@);
                    } else {
                        assert(seen(all, i as int, j as int, name));
                    }
                }
                if name == fields@[j as int].name@ {
                    assert(all[i as int].fields[j as int].name == name);
                }
            }
            j = j + 1;
        }
        assert forall|name: Seq<char>| #[trigger]
            names.deep_view().contains(name) <==> seen(all, i + 1, 0, name) by {
            assert(seen(all, i as int, j as int, name) <==> seen(all, i + 1, 0, name));
        }
        i = i + 1;
    }
    assert forall|name: Seq<char>| #[trigger]
        names.deep_view().contains(name) <==> is_column(all, name) by {
        assert(seen(all, i as int, 0, name) <==> is_column(all, name));
    }
    names
}

/// The cell of a frame in a column.
pub open spec fn value_cell(fields: Seq<DecodedFieldView>, name: Seq<char>) -> ExportCellView {
    match last_value(fields, name) {
        Some(Some(value)) => ExportCellView::Number(value),
        _ => ExportCellView::Blank,
    }
}

/// The row of a frame.
pub open spec fn export_row(frame: ProtocolExportFrameView, columns: Seq<Seq<char>>) -> Seq<
    ExportCellView,
> {
    seq![
        ExportCellView::Text(text::decimal(frame.sequence as nat)),
        ExportCellView::Text(frame.timestamp),
        ExportCellView::Text(frame.crc),
        ExportCellView::Text(frame.hex),
    ] + Seq::new(columns.len(), |i: int| value_cell(frame.fields, columns[i]))
}

/// The first columns of the table.
pub open spec fn fixed_columns() -> Seq<Seq<char>> {
    seq!["sequence"@, "timestamp"@, "crc"@, "hex"@]
}

fn cell_of(fields: &Vec<DecodedField>, name: &String) -> (r: ExportCell)
    ensures
        r.deep_view() == value_cell(fields.deep_view(), name@),
{
    let ghost all = fields.deep_view();
    let mut i: usize = fields.len();
    assert(all.take(i as int) =~= all);
    while i > 0
        invariant
            i <= fields@.len(),
            all == fields.deep_view(),
            last_value(all, name@) == last_value(all.take(i as int), name@),
        decreases i,
    {
        let ghost part = all.take(i as int);
        assert(part.drop_last() =~= all.take(i - 1));
        assert(part.last() == fields@[i - 1].deep_view());
        i = i - 1;
        if fields[i].name == *name {
            return match fields[i].value {
                Some(value) => ExportCell::Number(value),
                None => ExportCell::Blank,
            };
        }
    }
    ExportCell::Blank
}

fn row_of(frame: &ProtocolExportFrame, columns: &Vec<String>) -> (r: Vec<ExportCell>)
    ensures
        r.deep_view() == export_row(frame.deep_view(), columns.deep_view()),
{
    let ghost names = columns.deep_view();
    let ghost value = frame.deep_view();
    let mut row: Vec<ExportCell> = Vec::new();
    row.push(ExportCell::Text(text::decimal_text(frame.sequence)));
    row.push(ExportCell::Text(frame.timestamp.clone()));
    row.push(ExportCell::Text(frame.crc.clone()));
    row.push(ExportCell::Text(frame.hex.clone()));
    let ghost start = row.deep_view();
    assert(start =~= seq![
        ExportCellView::Text(text::decimal(frame.sequence as nat)),
        ExportCellView::Text(frame.timestamp@),
        ExportCellView::Text(frame.crc@),
        ExportCellView::Text(frame.hex@),
    ]);
    let mut i: usize = 0;
    while i < columns.len()
        invariant
            i <= columns@.len(),
            names == columns.deep_view(),
            value == frame.deep_view(),
            row.deep_view() =~= start + Seq::new(
                i as nat,
                |j: int| value_cell(value.fields, names[j]),
            ),
        decreases columns@.len() - i,
    {
        let ghost before = row.deep_view();
        assert(names[i as int] == columns@[i as int]@);
        row.push(cell_of(&frame.fields, &columns[i]));
        assert(row.deep_view() =~= before.push(value_cell(value.fields, names[i as int])));
        i = i + 1;
    }
    row
}

/// The table of frames.
pub fn export_csv(frames: &[ProtocolExportFrame]) -> (r: ExportTable)
    ensures
        ({
            let header = r.deep_view().header;
            &&& header.len() >= 4 && header.take(4) == fixed_columns()
            &&& are_columns(header.skip(4), frames.deep_view())
            &&& r.deep_view().rows == Seq::new(
                frames@.len(),
                |i: int| export_row(frames.deep_view()[i], header.skip(4)),
            )
        }),
{
    let ghost all = frames.deep_view();
    let columns = column_names(frames);
    let ghost names = columns.deep_view();
    let mut rows: Vec<Vec<ExportCell>> = Vec::new();
    let mut i: usize = 0;
    while i < frames.len()
        invariant
            i <= frames@.len(),
            all == frames.deep_view(),
            names == columns.deep_view(),
            rows.deep_view() =~= Seq::new(i as nat, |j: int| export_row(all[j], names)),
        decreases frames@.len() - i,
    {
        let ghost before = rows.deep_view();
        assert(all[i as int] == frames@[i as int].deep_view());
        rows.push(row_of(&frames[i], &columns));
        assert(rows.deep_view() =~= before.push(export_row(all[i as int], names)));
        i = i + 1;
    }
    let mut header: Vec<String> = Vec::new();
    header.push("sequence".to_owned());
    header.push("timestamp".to_owned());
    header.push("crc".to_owned());
    header.push("hex".to_owned());
    assert(header.deep_view() =~= fixed_columns());
    let mut columns = columns;
    header.append(&mut columns);
    assert(header.deep_view() =~= fixed_columns() + names);
    assert(header.deep_view().skip(4) =~= names);
    assert(header.deep_view().take(4) =~= fixed_columns());
    ExportTable { header, rows }
}

/// Every row of the table has one cell for each column.
pub proof fn rows_fit_the_header(frame: ProtocolExportFrameView, header: Seq<Seq<char>>)
    requires
        header.len() >= 4,
    ensures
        export_row(frame, header.skip(4)).len() == header.len(),
{
}

/// Of fields with the same name the last one counts, and a name that no field has gives nothing.
pub proof fn last_field_of_a_name_counts(
    before: Seq<DecodedFieldView>,
    field: DecodedFieldView,
    after: Seq<DecodedFieldView>,
)
    requires
        forall|i: int| 0 <= i < after.len() ==> (#[trigger] after[i]).name != field.name,
    ensures
        last_value(after, field.name) is None,
        last_value(before.push(field) + after, field.name) == Some(field.value),
    decreases after.len(),
{
    let all = before.push(field) + after;
    if after.len() == 0 {
        assert(all =~= before.push(field));
    } else {
        let less = after.drop_last();
        assert(after[after.len() - 1].name != field.name);
        assert forall|i: int| 0 <= i < less.len() implies (#[trigger] less[i]).name != field.name by {
            assert(after[i].name != field.name);
        }
        last_field_of_a_name_counts(before, field, less);
        assert(all.drop_last() =~= before.push(field) + less);
        assert(all.last() == after.last());
    }
}

/// A row starts with the number, the time, the verdict and the bytes of the frame. In the column of
/// a field stands the value of the last field of that name, and nothing where that field has no
/// value or the frame has no such field.
pub proof fn rows_hold_the_values_of_their_columns(
    frame: ProtocolExportFrameView,
    columns: Seq<Seq<char>>,
    i: int,
    before: Seq<DecodedFieldView>,
    field: DecodedFieldView,
    after: Seq<DecodedFieldView>,
)
    requires
        0 <= i < columns.len(),
        columns[i] == field.name,
        forall|j: int| 0 <= j < after.len() ==> (#[trigger] after[j]).name != field.name,
    ensures
        ({
            let row = export_row(frame, columns);
            &&& row.len() == columns.len() + 4
            &&& row[0] == ExportCellView::Text(text::decimal(frame.sequence as nat))
            &&& row[1] == ExportCellView::Text(frame.timestamp)
            &&& row[2] == ExportCellView::Text(frame.crc)
            &&& row[3] == ExportCellView::Text(frame.hex)
            &&& frame.fields == before.push(field) + after ==> row[i + 4] == match field.value {
                Some(value) => ExportCellView::Number(value),
                None => ExportCellView::Blank,
            }
            &&& frame.fields == after ==> row[i + 4] == ExportCellView::Blank
        }),
{
    last_field_of_a_name_counts(before, field, after);
}

/// The columns hold the name of every field of every frame once, and no other name.
pub proof fn columns_are_the_names_of_the_fields(
    names: Seq<Seq<char>>,
    frames: Seq<ProtocolExportFrameView>,
    i: int,
    j: int,
)
    requires
        are_columns(names, frames),
    ensures
        0 <= i < frames.len() && 0 <= j < frames[i].fields.len() ==> names.contains(
            frames[i].fields[j].name,
        ),
        0 <= i < names.len() ==> exists|k: int, l: int|
            0 <= k < frames.len() && 0 <= l < frames[k].fields.len() && (
            #[trigger] frames[k].fields[l]).name == names[i],
        0 <= i < j < names.len() ==> text::text_le(names[i], names[j]) && names[i] != names[j],
{
    if 0 <= i < frames.len() && 0 <= j < frames[i].fields.len() {
        assert(is_column(frames, frames[i].fields[j].name));
    }
    if 0 <= i < names.len() {
        assert(names.contains(names[i]));
        assert(is_column(frames, names[i]));
    }
}

/// The fields of an exported frame hold each name once, in the order of texts, with the value of the
/// last field of that name, and no other name.
pub proof fn exported_fields_hold_each_name_once(
    entries: Seq<DecodedFieldView>,
    before: Seq<DecodedFieldView>,
    field: DecodedFieldView,
    after: Seq<DecodedFieldView>,
    i: int,
    j: int,
)
    requires
        by_name(entries, before.push(field) + after),
        forall|k: int| 0 <= k < after.len() ==> (#[trigger] after[k]).name != field.name,
    ensures
        exists|k: int|
            0 <= k < entries.len() && (#[trigger] entries[k]).name == field.name && entries[k].value
                == field.value,
        0 <= i < j < entries.len() ==> text::text_le(entries[i].name, entries[j].name)
            && entries[i].name != entries[j].name,
        0 <= i < entries.len() ==> exists|k: int|
            0 <= k < (before.push(field) + after).len() && (
            #[trigger] (before.push(field) + after)[k]).name == entries[i].name,
{
    let fields = before.push(field) + after;
    last_field_of_a_name_counts(before, field, after);
    assert(last_value(entries, field.name) == last_value(fields, field.name));
    value_stands_somewhere(entries, field.name);
    if 0 <= i < j < entries.len() {
        assert(text_lt(field_names(entries)[i], field_names(entries)[j]));
    }
    if 0 <= i < entries.len() {
        last_value_is_found(entries, entries[i].name);
        last_value_is_found(fields, entries[i].name);
        assert(last_value(entries, entries[i].name) == last_value(fields, entries[i].name));
    }
}

proof fn value_stands_somewhere(entries: Seq<DecodedFieldView>, name: Seq<char>)
    requires
        last_value(entries, name) is Some,
    ensures
        exists|k: int|
            0 <= k < entries.len() && (#[trigger] entries[k]).name == name && Some(entries[k].value)
                == last_value(entries, name),
    decreases entries.len(),
{
    if entries.last().name == name {
        assert(entries[entries.len() - 1].name == name);
    } else {
        value_stands_somewhere(entries.drop_last(), name);
        let k = choose|k: int|
            0 <= k < entries.drop_last().len() && (#[trigger] entries.drop_last()[k]).name == name
                && Some(entries.drop_last()[k].value) == last_value(entries.drop_last(), name);
        assert(entries[k].name == name);
    }
}

} // verus!
