//! Scan filters: service UUIDs in their short and long forms, and the filter on the list of
//! discovered devices.

use crate::ble::model::DeviceInfo;
#[allow(unused_imports)]
use crate::ble::model::{DeviceInfoView, ServiceDataEntryView};
use crate::text;
use uuid::Uuid;
use vstd::prelude::*;
#[allow(unused_imports)]
use vstd::string::*;

verus! {

/// The Bluetooth base UUID, `00000000-0000-1000-8000-00805f9b34fb`.
pub const BASE_UUID: u128 = 0x0000_0000_0000_1000_8000_0080_5F9B_34FB;

/// Two to the power of 96: a short UUID stands above this bit of the base UUID.
pub const SHORT_UUID_UNIT: u128 = 0x1_0000_0000_0000_0000_0000_0000;

/// The received signal strength that stands for "no limit".
pub const NO_RSSI_LIMIT: i16 = -127;

/// The number of a 16-bit or 32-bit UUID.
pub open spec fn expanded_uuid(short: nat) -> u128 {
    (short * SHORT_UUID_UNIT + BASE_UUID) as u128
}

/// `s` without the pairs of `0` and `mark` at its start.
pub open spec fn without_marks(s: Seq<char>, mark: char) -> Seq<char>
    decreases s.len(),
{
    if s.len() >= 2 && s[0] == '0' && s[1] == mark {
        without_marks(s.skip(2), mark)
    } else {
        s
    }
}

/// A UUID text without surrounding space and without hexadecimal prefixes.
pub open spec fn stripped(s: Seq<char>) -> Seq<char> {
    without_marks(without_marks(text::trim(s), 'x'), 'X')
}

fn strip_marks(chars: &[char], start: usize, mark: char) -> (r: usize)
    requires
        start <= chars@.len(),
    ensures
        start <= r <= chars@.len(),
        chars@.skip(r as int) == without_marks(chars@.skip(start as int), mark),
{
    let mut at: usize = start;
    while chars.len() - at >= 2 && chars[at] == '0' && chars[at + 1] == mark
        invariant
            start <= at <= chars@.len(),
            without_marks(chars@.skip(at as int), mark) == without_marks(
                chars@.skip(start as int),
                mark,
            ),
        decreases chars@.len() - at,
    {
        assert(chars@.skip(at as int).skip(2) =~= chars@.skip(at + 2));
        at = at + 2;
    }
    at
}

/// A UUID text without surrounding space and without hexadecimal prefixes.
fn stripped_chars(value: &str) -> (r: Vec<char>)
    ensures
        r@ == stripped(value@),
{
    let chars = text::trimmed_chars(value);
    assert(chars@.skip(0) =~= chars@);
    let first: usize = strip_marks(&chars, 0, 'x');
    let second: usize = strip_marks(&chars, first, 'X');
    let out = text::slice_chars(&chars, second, chars.len());
    assert(out@ =~= chars@.skip(second as int));
    out
}

/// The number of a UUID in one of the forms of the `uuid` crate, or the crate's message.
pub uninterp spec fn uuid_number(value: Seq<char>) -> Result<u128, Seq<char>>;

/// `uuid::Uuid::parse_str`, its result as a number and its error as a message: the result
/// depends on the text alone.
#[verifier::external_body]
fn parse_uuid(value: &str) -> (r: Result<u128, String>)
    ensures
        match (r, uuid_number(value@)) {
            (Ok(number), Ok(wanted)) => number == wanted,
            (Err(message), Err(wanted)) => message@ == wanted,
            _ => false,
        },
{
    match Uuid::parse_str(value) {
        Ok(parsed) => Ok(parsed.as_u128()),
        Err(error) => Err(error.to_string()),
    }
}

/// The UUID that a scan filter names: four or eight hexadecimal digits stand for a short UUID,
/// everything else is read as a full one. `full` is what the full reading of the text gives.
pub open spec fn scan_uuid(value: Seq<char>, full: Result<u128, Seq<char>>) -> Result<
    u128,
    Seq<char>,
> {
    let compact = stripped(value);
    if (compact.len() == 4 || compact.len() == 8) && text::all_hex(compact) {
        Ok(expanded_uuid(text::hex_number(compact)))
    } else {
        match full {
            Ok(number) => Ok(number),
            Err(message) => Err("无法解析 UUID "@ + value + ": "@ + message),
        }
    }
}

/// Sixteen to the power of `n`.
pub open spec fn power_of_16(n: nat) -> nat
    decreases n,
{
    if n == 0 {
        1
    } else {
        16 * power_of_16((n - 1) as nat)
    }
}

proof fn hex_number_fits(s: Seq<char>)
    requires
        text::all_hex(s),
    ensures
        text::hex_number(s) < power_of_16(s.len()),
    decreases s.len(),
{
    if s.len() > 0 {
        assert(text::hex_value(s.last()) is Some);
        assert(text::all_hex(s.drop_last()));
        hex_number_fits(s.drop_last());
    }
}

proof fn power_of_16_grows(n: nat, m: nat)
    requires
        n <= m,
    ensures
        power_of_16(n) <= power_of_16(m),
    decreases m,
{
    if n < m {
        power_of_16_grows(n, (m - 1) as nat);
    }
}

proof fn hex_number_bound(s: Seq<char>)
    requires
        text::all_hex(s),
        s.len() <= 8,
    ensures
        text::hex_number(s) < 0x1_0000_0000,
{
    hex_number_fits(s);
    power_of_16_grows(s.len(), 8);
    assert(power_of_16(8) == 0x1_0000_0000) by {
        reveal_with_fuel(power_of_16, 9);
    }
}

fn short_uuid(compact: &[char]) -> (r: Option<u128>)
    ensures
        match r {
            Some(number) => (compact@.len() == 4 || compact@.len() == 8) && text::all_hex(compact@)
                && number == expanded_uuid(text::hex_number(compact@)),
            None => !((compact@.len() == 4 || compact@.len() == 8) && text::all_hex(compact@)),
        },
{
    if !(compact.len() == 4 || compact.len() == 8) || !text::chars_all_hex(compact) {
        return None;
    }
    proof {
        hex_number_bound(compact@);
    }
    let mut value: u128 = 0;
    let mut i: usize = 0;
    assert(compact@.take(0) =~= Seq::<char>::empty());
    while i < compact.len()
        invariant
            i <= compact@.len() <= 8,
            text::all_hex(compact@),
            value == text::hex_number(compact@.take(i as int)),
        decreases compact@.len() - i,
    {
        let ghost next = compact@.take(i + 1);
        assert(next.drop_last() =~= compact@.take(i as int));
        assert(text::hex_value(compact@[i as int]) is Some);
        proof {
            assert(text::all_hex(next));
            hex_number_bound(next);
            assert(text::all_hex(compact@.take(i as int)));
            hex_number_bound(compact@.take(i as int));
        }
        let digit: u128 = match text::hex_digit(compact[i]) {
            Some(digit) => digit as u128,
            None => 0,
        };
        value = value * 16 + digit;
        i = i + 1;
    }
    assert(compact@.take(i as int) =~= compact@);
    Some(value * SHORT_UUID_UNIT + BASE_UUID)
}

/// The UUID of a scan filter, given what the full reading of the text gives.
pub fn choose_uuid(value: &str, full: Result<u128, String>) -> (r: Result<u128, String>)
    ensures
        match (
            r,
            scan_uuid(
                value@,
                match full {
                    Ok(number) => Ok(number),
                    Err(message) => Err(message@),
                },
            ),
        ) {
            (Ok(number), Ok(wanted)) => number == wanted,
            (Err(message), Err(wanted)) => message@ == wanted,
            _ => false,
        },
{
    let compact = stripped_chars(value);
    match short_uuid(&compact) {
        Some(number) => Ok(number),
        None => match full {
            Ok(number) => Ok(number),
            Err(message) => {
                let head = text::joined("无法解析 UUID ", value);
                let middle = text::joined(head.as_str(), ": ");
                Err(text::joined(middle.as_str(), message.as_str()))
            },
        },
    }
}

/// Reads the UUID of a scan filter.
pub fn parse_ble_uuid(value: &str) -> (r: Result<u128, String>)
    ensures
        match (r, scan_uuid(value@, uuid_number(value@))) {
            (Ok(number), Ok(wanted)) => number == wanted,
            (Err(message), Err(wanted)) => message@ == wanted,
            _ => false,
        },
{
    choose_uuid(value, parse_uuid(value))
}

/// The UUIDs of a list of filters: blank filters are passed over, the first unreadable one
/// decides.
pub open spec fn scan_services(values: Seq<Seq<char>>) -> Result<Seq<u128>, Seq<char>>
    decreases values.len(),
{
    if values.len() == 0 {
        Ok(Seq::empty())
    } else {
        let value = text::trim(values.last());
        match scan_services(values.drop_last()) {
            Err(message) => Err(message),
            Ok(before) => if value.len() == 0 {
                Ok(before)
            } else {
                match scan_uuid(value, uuid_number(value)) {
                    Ok(number) => Ok(before.push(number)),
                    Err(message) => Err(message),
                }
            },
        }
    }
}

/// Reads the service filters of a scan.
pub fn parse_scan_services(values: &[String]) -> (r: Result<Vec<u128>, String>)
    ensures
        match (r, scan_services(values.deep_view())) {
            (Ok(numbers), Ok(wanted)) => numbers@ == wanted,
            (Err(message), Err(wanted)) => message@ == wanted,
            _ => false,
        },
{
    let ghost all = values.deep_view();
    let mut out: Vec<u128> = Vec::new();
    let mut i: usize = 0;
    assert(all.take(0) =~= Seq::empty());
    while i < values.len()
        invariant
            i <= values@.len(),
            all == values.deep_view(),
            scan_services(all.take(i as int)) == Ok::<Seq<u128>, Seq<char>>(out@),
        decreases values@.len() - i,
    {
        let ghost next = all.take(i + 1);
        assert(next.drop_last() =~= all.take(i as int));
        assert(next.last() == values@[i as int]@);
        let value = text::trimmed(values[i].as_str());
        if !value.as_str().is_empty() {
            match parse_ble_uuid(value.as_str()) {
                Ok(number) => {
                    out.push(number);
                },
                Err(message) => {
                    proof {
                        unreadable_filter_decides(all, i + 1);
                    }
                    return Err(message);
                },
            }
        }
        i = i + 1;
    }
    assert(all.take(i as int) =~= all);
    Ok(out)
}

proof fn unreadable_filter_decides(values: Seq<Seq<char>>, n: int)
    requires
        0 <= n <= values.len(),
        scan_services(values.take(n)) is Err,
    ensures
        scan_services(values) == scan_services(values.take(n)),
    decreases values.len(),
{
    if n == values.len() {
        assert(values.take(n) =~= values);
    } else {
        assert(values.drop_last().take(n) =~= values.take(n));
        unreadable_filter_decides(values.drop_last(), n);
    }
}

/// The lower case of a character, by the Unicode tables of the standard library.
pub uninterp spec fn lower_case(c: char) -> Seq<char>;

/// `char::to_lowercase`: the result depends on the character alone; a letter from `A` to `Z`
/// becomes the letter from `a` to `z`, and any other ASCII character stays as it is.
#[verifier::external_body]
fn to_lower_case(c: char) -> (r: Vec<char>)
    ensures
        r@ == lower_case(c),
        (c as u32) < 0x80 ==> r@ == seq![text::ascii_lower(c)],
{
    c.to_lowercase().collect()
}

/// A text in lower case, its hyphens dropped.
pub open spec fn lowered(s: Seq<char>) -> Seq<char>
    decreases s.len(),
{
    if s.len() == 0 {
        s
    } else if s.last() == '-' {
        lowered(s.drop_last())
    } else {
        lowered(s.drop_last()) + lower_case(s.last())
    }
}

/// A text of ASCII characters in lower case, its hyphens dropped.
pub open spec fn ascii_lowered(s: Seq<char>) -> Seq<char>
    decreases s.len(),
{
    if s.len() == 0 {
        s
    } else if s.last() == '-' {
        ascii_lowered(s.drop_last())
    } else {
        ascii_lowered(s.drop_last()).push(text::ascii_lower(s.last()))
    }
}

/// Whether every character is ASCII.
pub open spec fn is_ascii_text(s: Seq<char>) -> bool {
    forall|i: int| 0 <= i < s.len() ==> ((#[trigger] s[i]) as u32) < 0x80
}

/// Whether a service is the one that a filter names, for texts of ASCII characters.
pub open spec fn ascii_uuid_matches(service: Seq<char>, query: Seq<char>) -> bool {
    ascii_lowered(stripped(service)) == expanded(ascii_lowered(stripped(query)))
}

/// A UUID text in the form in which two of them are compared.
pub open spec fn compact_uuid(s: Seq<char>) -> Seq<char> {
    lowered(stripped(s))
}

/// What stands behind the short part of a full UUID.
pub open spec fn base_tail() -> Seq<char> {
    "00001000800000805f9b34fb"@
}

/// A short UUID in its full form; anything else as it is.
pub open spec fn expanded(query: Seq<char>) -> Seq<char> {
    if query.len() == 4 && text::all_hex(query) {
        "0000"@ + query + base_tail()
    } else if query.len() == 8 && text::all_hex(query) {
        query + base_tail()
    } else {
        query
    }
}

/// Whether a service is the one that a filter names.
pub open spec fn uuid_matches(service: Seq<char>, query: Seq<char>) -> bool {
    compact_uuid(service) == expanded(compact_uuid(query))
}

fn compact_chars(value: &str) -> (r: Vec<char>)
    ensures
        r@ == compact_uuid(value@),
        is_ascii_text(value@) ==> r@ == ascii_lowered(stripped(value@)),
{
    let chars = stripped_chars(value);
    proof {
        if is_ascii_text(value@) {
            stripping_keeps_ascii(value@);
        }
    }
    let mut out: Vec<char> = Vec::new();
    let mut i: usize = 0;
    assert(chars@.take(0) =~= Seq::<char>::empty());
    while i < chars.len()
        invariant
            i <= chars@.len(),
            out@ =~= lowered(chars@.take(i as int)),
            is_ascii_text(chars@) ==> out@ =~= ascii_lowered(chars@.take(i as int)),
        decreases chars@.len() - i,
    {
        let ghost next = chars@.take(i + 1);
        assert(next.drop_last() =~= chars@.take(i as int));
        if chars[i] != '-' {
            let mut lower = to_lower_case(chars[i]);
            out.append(&mut lower);
        }
        i = i + 1;
    }
    assert(chars@.take(i as int) =~= chars@);
    out
}

proof fn trimming_keeps_ascii(s: Seq<char>)
    requires
        is_ascii_text(s),
    ensures
        is_ascii_text(text::trim_start(s)),
        is_ascii_text(text::trim_end(s)),
    decreases s.len(),
{
    if s.len() > 0 {
        assert(is_ascii_text(s.skip(1)));
        assert(is_ascii_text(s.drop_last()));
        trimming_keeps_ascii(s.skip(1));
        trimming_keeps_ascii(s.drop_last());
    }
}

proof fn unmarking_keeps_ascii(s: Seq<char>, mark: char)
    requires
        is_ascii_text(s),
    ensures
        is_ascii_text(without_marks(s, mark)),
    decreases s.len(),
{
    if s.len() >= 2 && s[0] == '0' && s[1] == mark {
        assert(is_ascii_text(s.skip(2)));
        unmarking_keeps_ascii(s.skip(2), mark);
    }
}

proof fn stripping_keeps_ascii(s: Seq<char>)
    requires
        is_ascii_text(s),
    ensures
        is_ascii_text(stripped(s)),
{
    trimming_keeps_ascii(s);
    trimming_keeps_ascii(text::trim_start(s));
    trimming_keeps_ascii(text::trim_end(s));
    unmarking_keeps_ascii(text::trim(s), 'x');
    unmarking_keeps_ascii(without_marks(text::trim(s), 'x'), 'X');
}

/// Whether a service is the one that a filter names.
pub fn ble_uuid_matches(service: &str, query: &str) -> (r: bool)
    ensures
        r == uuid_matches(service@, query@),
        is_ascii_text(service@) && is_ascii_text(query@) ==> r == ascii_uuid_matches(
            service@,
            query@,
        ),
{
    let service = compact_chars(service);
    let mut query = compact_chars(query);
    let short = query.len() == 4 && text::chars_all_hex(&query);
    let middle = query.len() == 8 && text::chars_all_hex(&query);
    let ghost asked = query@;
    if short || middle {
        let mut full: Vec<char> = if short {
            text::chars_of("0000")
        } else {
            Vec::new()
        };
        full.append(&mut query);
        let mut tail = text::chars_of("00001000800000805f9b34fb");
        full.append(&mut tail);
        query = full;
    }
    assert(query@ =~= expanded(asked));
    text::same_chars(&service, &query)
}

/// What separates the UUIDs of a filter.
pub open spec fn is_token_end(c: char) -> bool {
    text::is_space(c) || c == ',' || c == ';'
}

/// How many characters from the start on belong to one token.
pub open spec fn token_length(s: Seq<char>) -> nat
    decreases s.len(),
{
    if s.len() == 0 || is_token_end(s[0]) {
        0
    } else {
        1 + token_length(s.skip(1))
    }
}

proof fn token_length_fits(s: Seq<char>)
    ensures
        token_length(s) <= s.len(),
    decreases s.len(),
{
    if s.len() > 0 && !is_token_end(s[0]) {
        token_length_fits(s.skip(1));
    }
}

/// The tokens of a filter text: the longest pieces without white space, comma or semicolon.
pub open spec fn tokens(s: Seq<char>) -> Seq<Seq<char>>
    decreases s.len(),
    via tokens_shrink
{
    if s.len() == 0 {
        Seq::empty()
    } else if is_token_end(s[0]) {
        tokens(s.skip(1))
    } else {
        seq![s.take(token_length(s) as int)] + tokens(s.skip(token_length(s) as int))
    }
}

#[via_fn]
proof fn tokens_shrink(s: Seq<char>) {
    token_length_fits(s);
}

/// The UUIDs in a filter text.
pub fn scan_service_tokens(filter: &str) -> (r: Vec<String>)
    ensures
        r.deep_view() == tokens(filter@),
{
    let chars = text::chars_of(filter);
    let ghost all = chars@;
    let mut out: Vec<String> = Vec::new();
    let mut i: usize = 0;
    assert(all.skip(0) =~= all);
    assert(tokens(all) =~= out.deep_view() + tokens(all));
    while i < chars.len()
        invariant
            i <= chars@.len(),
            all == chars@,
            tokens(all) == out.deep_view() + tokens(all.skip(i as int)),
        decreases chars@.len() - i,
    {
        let ghost rest = all.skip(i as int);
        if ends_token(chars[i]) {
            assert(rest.skip(1) =~= all.skip(i + 1));
            i = i + 1;
        } else {
            let mut end: usize = i;
            while end < chars.len() && !ends_token(chars[end])
                invariant
                    i <= end <= chars@.len(),
                    all == chars@,
                    end - i + token_length(all.skip(end as int)) == token_length(
                        all.skip(i as int),
                    ),
                decreases chars@.len() - end,
            {
                assert(all.skip(end as int).skip(1) =~= all.skip(end + 1));
                end = end + 1;
            }
            assert(token_length(rest) == end - i);
            let piece = text::slice_chars(&chars, i, end);
            assert(piece@ =~= rest.take(end - i));
            let ghost before = out.deep_view();
            out.push(text::text_of(&piece));
            assert(out.deep_view() =~= before.push(rest.take(end - i)));
            assert(rest.skip(end - i) =~= all.skip(end as int));
            assert(before + (seq![rest.take(end - i)] + tokens(all.skip(end as int)))
                =~= out.deep_view() + tokens(all.skip(end as int)));
            i = end;
        }
    }
    assert(out.deep_view() + tokens(all.skip(i as int)) =~= out.deep_view());
    out
}

fn ends_token(c: char) -> (r: bool)
    ensures
        r == is_token_end(c),
{
    text::char_is_space(c) || c == ',' || c == ';'
}

/// The filter on the list of discovered devices.
#[derive(Debug, PartialEq, Eq)]
pub struct ScanFilter {
    /// A part of the name, the address or the id.
    pub name: String,
    /// Service UUIDs, one of which the device has to advertise.
    pub services: String,
    /// The weakest signal.
    pub min_rssi: i16,
}

/// The mathematical value of [`ScanFilter`].
#[verifier::ext_equal]
pub struct ScanFilterView {
    pub name: Seq<char>,
    pub services: Seq<char>,
    pub min_rssi: i16,
}

impl DeepView for ScanFilter {
    type V = ScanFilterView;

    open spec fn deep_view(&self) -> ScanFilterView {
        ScanFilterView { name: self.name@, services: self.services@, min_rssi: self.min_rssi }
    }
}

/// Whether the signal of a device is strong enough; a device without a reading passes only
/// where there is no limit.
pub open spec fn rssi_passes(rssi: Option<i16>, min_rssi: i16) -> bool {
    match rssi {
        Some(value) => value >= min_rssi,
        None => min_rssi <= NO_RSSI_LIMIT,
    }
}

/// Whether `part` stands in a text, small and capital ASCII letters alike.
pub open spec fn names(part: Seq<char>, whole: Seq<char>) -> bool {
    text::occurs_in(part, text::lower_text(whole))
}

/// Whether the name, the address or the id of a device holds the text of the filter.
pub open spec fn name_passes(device: DeviceInfoView, filter: Seq<char>) -> bool {
    let query = text::lower_text(text::trim(filter));
    query.len() == 0 || names(query, device.name) || names(query, device.address) || names(
        query,
        device.id,
    )
}

/// Whether a device advertises a service, or data for it.
pub open spec fn advertises(device: DeviceInfoView, query: Seq<char>) -> bool {
    ||| exists|i: int|
        0 <= i < device.advertised_services.len() && uuid_matches(
            #[trigger] device.advertised_services[i],
            query,
        )
    ||| exists|i: int|
        0 <= i < device.service_data.len() && uuid_matches(
            (#[trigger] device.service_data[i]).service_uuid,
            query,
        )
}

/// Whether a device advertises one of the services of the filter.
pub open spec fn service_passes(device: DeviceInfoView, filter: Seq<char>) -> bool {
    tokens(filter).len() == 0 || exists|i: int|
        0 <= i < tokens(filter).len() && advertises(device, #[trigger] tokens(filter)[i])
}

/// Whether a device is shown.
pub open spec fn passes(device: DeviceInfoView, filter: ScanFilterView) -> bool {
    rssi_passes(device.rssi, filter.min_rssi) && name_passes(device, filter.name)
        && service_passes(device, filter.services)
}

fn text_names(part: &[char], whole: &str) -> (r: bool)
    ensures
        r == names(part@, whole@),
{
    let chars = text::chars_of(whole);
    let lower = text::lower_chars(&chars);
    text::chars_occur_in(part, &lower)
}

fn device_advertises(device: &DeviceInfo, query: &str) -> (r: bool)
    ensures
        r == advertises(device.deep_view(), query@),
{
    let ghost value = device.deep_view();
    let mut i: usize = 0;
    while i < device.advertised_services.len()
        invariant
            i <= device.advertised_services@.len(),
            value == device.deep_view(),
            forall|j: int|
                0 <= j < i ==> !uuid_matches(#[trigger] value.advertised_services[j], query@),
        decreases device.advertised_services@.len() - i,
    {
        assert(value.advertised_services[i as int] == device.advertised_services@[i as int]@);
        if ble_uuid_matches(device.advertised_services[i].as_str(), query) {
            return true;
        }
        i = i + 1;
    }
    let mut i: usize = 0;
    while i < device.service_data.len()
        invariant
            i <= device.service_data@.len(),
            value == device.deep_view(),
            forall|j: int|
                0 <= j < i ==> !uuid_matches(
                    (#[trigger] value.service_data[j]).service_uuid,
                    query@,
                ),
        decreases device.service_data@.len() - i,
    {
        assert(value.service_data[i as int] == device.service_data@[i as int].deep_view());
        if ble_uuid_matches(device.service_data[i].service_uuid.as_str(), query) {
            return true;
        }
        i = i + 1;
    }
    false
}

impl ScanFilter {
    /// Whether a device is shown.
    pub fn device_matches_scan_filter(&self, device: &DeviceInfo) -> (r: bool)
        ensures
            r == passes(device.deep_view(), self.deep_view()),
    {
        match device.rssi {
            Some(rssi) => if rssi < self.min_rssi {
                return false;
            },
            None => if self.min_rssi > NO_RSSI_LIMIT {
                return false;
            },
        }
        let trimmed = text::trimmed_chars(self.name.as_str());
        let query = text::lower_chars(&trimmed);
        if query.len() > 0 && !text_names(&query, device.name.as_str()) && !text_names(
            &query,
            device.address.as_str(),
        ) && !text_names(&query, device.id.as_str()) {
            return false;
        }
        let queries = scan_service_tokens(self.services.as_str());
        if queries.len() == 0 {
            return true;
        }
        let ghost wanted = tokens(self.services@);
        let mut i: usize = 0;
        while i < queries.len()
            invariant
                i <= queries@.len(),
                wanted == queries.deep_view(),
                wanted == tokens(self.services@),
                wanted.len() > 0,
                rssi_passes(device.rssi, self.min_rssi),
                name_passes(device.deep_view(), self.name@),
                forall|j: int|
                    0 <= j < i ==> !advertises(device.deep_view(), #[trigger] wanted[j]),
            decreases queries@.len() - i,
        {
            assert(wanted[i as int] == queries@[i as int]@);
            if device_advertises(device, queries[i].as_str()) {
                return true;
            }
            i = i + 1;
        }
        false
    }
}

/// The 16-bit form of a UUID and the 32-bit form that pads it with zeros name the same UUID.
pub proof fn short_forms_agree(
    digits: Seq<char>,
    full: Result<u128, Seq<char>>,
    other: Result<u128, Seq<char>>,
)
    requires
        digits.len() == 4,
        text::all_hex(digits),
    ensures
        scan_uuid(digits, full) == scan_uuid("0000"@ + digits, other),
        scan_uuid(digits, full) == Ok::<u128, Seq<char>>(
            (text::hex_number(digits) * SHORT_UUID_UNIT + BASE_UUID) as u128,
        ),
{
    reveal_strlit("0000");
    let long = "0000"@ + digits;
    assert(text::all_hex(long));
    hex_has_no_marks(digits);
    hex_has_no_marks(long);
    leading_zeros_add_nothing(digits);
    assert(long =~= seq!['0', '0', '0', '0'] + digits);
}

proof fn leading_zeros_add_nothing(s: Seq<char>)
    ensures
        text::hex_number(seq!['0', '0', '0', '0'] + s) == text::hex_number(s),
    decreases s.len(),
{
    let long = seq!['0', '0', '0', '0'] + s;
    if s.len() == 0 {
        reveal_with_fuel(text::hex_number, 5);
        assert(long =~= seq!['0', '0', '0', '0']);
        assert(long.drop_last() =~= seq!['0', '0', '0']);
        assert(long.drop_last().drop_last() =~= seq!['0', '0']);
        assert(long.drop_last().drop_last().drop_last() =~= seq!['0']);
        assert(long.drop_last().drop_last().drop_last().drop_last() =~= Seq::<char>::empty());
    } else {
        leading_zeros_add_nothing(s.drop_last());
        assert(long.drop_last() =~= seq!['0', '0', '0', '0'] + s.drop_last());
    }
}

proof fn hex_number_joins(a: Seq<char>, b: Seq<char>)
    requires
        text::all_hex(a),
        text::all_hex(b),
    ensures
        text::hex_number(a + b) == text::hex_number(a) * power_of_16(b.len()) + text::hex_number(b),
    decreases b.len(),
{
    if b.len() == 0 {
        assert(a + b =~= a);
        assert(text::hex_number(a) * 1 == text::hex_number(a));
    } else {
        let head = b.drop_last();
        assert(text::all_hex(head));
        hex_number_joins(a, head);
        assert((a + b).drop_last() =~= a + head);
        assert((a + b).last() == b.last());
        let x = text::hex_number(a);
        let p = power_of_16(head.len());
        assert(16 * (x * p) == x * (16 * p)) by (nonlinear_arith);
    }
}

proof fn base_tail_number()
    ensures
        text::all_hex(base_tail()),
        base_tail().len() == 24,
        text::hex_number(base_tail()) == BASE_UUID,
        power_of_16(24) == SHORT_UUID_UNIT,
{
    reveal_strlit("00001000800000805f9b34fb");
    let high = seq!['0', '0', '0', '0', '1', '0', '0', '0'];
    let middle = seq!['8', '0', '0', '0', '0', '0', '8', '0'];
    let low = seq!['5', 'f', '9', 'b', '3', '4', 'f', 'b'];
    assert(base_tail() =~= high + (middle + low));
    eight_digits(high);
    eight_digits(middle);
    eight_digits(low);
    assert(text::hex_number(high) == 0x0000_1000);
    assert(text::hex_number(middle) == 0x8000_0080);
    assert(text::hex_number(low) == 0x5F9B_34FB);
    reveal_with_fuel(power_of_16, 25);
    hex_number_joins(middle, low);
    assert(power_of_16(low.len()) == 0x1_0000_0000);
    assert(0x8000_0080 * 0x1_0000_0000 + 0x5F9B_34FB == 0x8000_0080_5F9B_34FB);
    assert(text::hex_number(middle + low) == 0x8000_0080_5F9B_34FB);
    assert(text::all_hex(middle + low));
    hex_number_joins(high, middle + low);
    assert(power_of_16((middle + low).len()) == 0x1_0000_0000_0000_0000);
}

proof fn eight_digits(s: Seq<char>)
    requires
        s.len() == 8,
        text::all_hex(s),
    ensures
        text::hex_number(s) == text::hex_value(s[7])->0 + 16 * (text::hex_value(s[6])->0 + 16 * (
        text::hex_value(s[5])->0 + 16 * (text::hex_value(s[4])->0 + 16 * (text::hex_value(s[3])->0
            + 16 * (text::hex_value(s[2])->0 + 16 * (text::hex_value(s[1])->0 + 16
            * text::hex_value(s[0])->0)))))),
{
    reveal_with_fuel(text::hex_number, 9);
    let s7 = s.drop_last();
    let s6 = s7.drop_last();
    let s5 = s6.drop_last();
    let s4 = s5.drop_last();
    let s3 = s4.drop_last();
    let s2 = s3.drop_last();
    let s1 = s2.drop_last();
    assert(s1.drop_last() =~= Seq::<char>::empty());
    assert(text::hex_value(s[0]) is Some && text::hex_value(s[1]) is Some && text::hex_value(
        s[2],
    ) is Some && text::hex_value(s[3]) is Some && text::hex_value(s[4]) is Some
        && text::hex_value(s[5]) is Some && text::hex_value(s[6]) is Some && text::hex_value(
        s[7],
    ) is Some);
}

/// The filter on the device list and the filter of the scan expand a short UUID alike: read as a
/// hexadecimal number, the expanded text is the UUID that is handed to the scan.
pub proof fn both_filters_expand_alike(digits: Seq<char>, full: Result<u128, Seq<char>>)
    requires
        digits.len() == 4 || digits.len() == 8,
        text::all_hex(digits),
    ensures
        scan_uuid(digits, full) == Ok::<u128, Seq<char>>(
            text::hex_number(expanded(digits)) as u128,
        ),
        expanded(digits).len() == 32,
{
    hex_has_no_marks(digits);
    base_tail_number();
    if digits.len() == 4 {
        reveal_strlit("0000");
        leading_zeros_add_nothing(digits);
        let long = "0000"@ + digits;
        assert(long =~= seq!['0', '0', '0', '0'] + digits);
        assert(text::all_hex(long));
        hex_number_joins(long, base_tail());
    } else {
        hex_number_joins(digits, base_tail());
    }
}

proof fn lowering_joins(a: Seq<char>, b: Seq<char>)
    ensures
        ascii_lowered(a + b) == ascii_lowered(a) + ascii_lowered(b),
    decreases b.len(),
{
    if b.len() == 0 {
        assert(a + b =~= a);
        assert(ascii_lowered(a) + b =~= ascii_lowered(a));
    } else {
        lowering_joins(a, b.drop_last());
        assert((a + b).drop_last() =~= a + b.drop_last());
        assert((a + b).last() == b.last());
        assert(ascii_lowered(a + b) =~= ascii_lowered(a) + ascii_lowered(b));
    }
}

proof fn lowering_keeps_digits(s: Seq<char>)
    requires
        text::all_hex(s),
    ensures
        text::all_hex(ascii_lowered(s)),
        ascii_lowered(s).len() == s.len(),
    decreases s.len(),
{
    if s.len() > 0 {
        assert(text::hex_value(s.last()) is Some);
        assert(text::all_hex(s.drop_last()));
        lowering_keeps_digits(s.drop_last());
        let c = text::ascii_lower(s.last());
        assert(text::hex_value(c) is Some);
        let before = ascii_lowered(s.drop_last());
        assert forall|i: int| 0 <= i < before.push(c).len() implies text::hex_value(
            #[trigger] before.push(c)[i],
        ) is Some by {
            if i < before.len() {
                assert(before.push(c)[i] == before[i]);
            }
        }
    }
}

/// What stands behind the short part of a full UUID, with its hyphens.
pub open spec fn written_base_tail() -> Seq<char> {
    "-0000-1000-8000-00805f9b34fb"@
}

proof fn written_tail_lowers()
    ensures
        ascii_lowered(written_base_tail()) == base_tail(),
{
    reveal_strlit("-0000-1000-8000-00805f9b34fb");
    reveal_strlit("00001000800000805f9b34fb");
    let a = seq!['-', '0', '0', '0', '0'];
    let b = seq!['-', '1', '0', '0', '0'];
    let c = seq!['-', '8', '0', '0', '0'];
    let d = seq!['-', '0', '0', '8', '0'];
    let e = seq!['5', 'f', '9', 'b'];
    let f = seq!['3', '4', 'f', 'b'];
    five_lowered(a);
    five_lowered(b);
    five_lowered(c);
    five_lowered(d);
    four_lowered(e);
    four_lowered(f);
    assert(written_base_tail() =~= a + (b + (c + (d + (e + f)))));
    lowering_joins(e, f);
    lowering_joins(d, e + f);
    lowering_joins(c, d + (e + f));
    lowering_joins(b, c + (d + (e + f)));
    lowering_joins(a, b + (c + (d + (e + f))));
    assert(ascii_lowered(written_base_tail()) =~= base_tail());
}

/// Four lower-case digits are their own lower case.
proof fn four_lowered(s: Seq<char>)
    requires
        s.len() == 4,
        forall|i: int| 0 <= i < 4 ==> #[trigger] s[i] != '-' && text::ascii_lower(s[i]) == s[i],
    ensures
        ascii_lowered(s) == s,
{
    reveal_with_fuel(ascii_lowered, 5);
    let s3 = s.drop_last();
    let s2 = s3.drop_last();
    let s1 = s2.drop_last();
    assert(s1.drop_last() =~= Seq::<char>::empty());
    assert(s3.last() == s[2] && s2.last() == s[1] && s1.last() == s[0]);
    assert(ascii_lowered(s) =~= s);
}

/// A hyphen before four lower-case digits falls away.
proof fn five_lowered(s: Seq<char>)
    requires
        s.len() == 5,
        s[0] == '-',
        forall|i: int| 1 <= i < 5 ==> #[trigger] s[i] != '-' && text::ascii_lower(s[i]) == s[i],
    ensures
        ascii_lowered(s) == s.skip(1),
{
    four_lowered(s.skip(1));
    reveal_with_fuel(ascii_lowered, 2);
    let hyphen = s.take(1);
    assert(hyphen.drop_last() =~= Seq::<char>::empty());
    assert(hyphen.last() == '-');
    assert(ascii_lowered(hyphen) =~= Seq::<char>::empty());
    assert(s =~= hyphen + s.skip(1));
    lowering_joins(hyphen, s.skip(1));
    assert(ascii_lowered(s) =~= s.skip(1));
}

/// A filter of four or eight hexadecimal digits, in small or capital letters, selects the service
/// whose UUID is the Bluetooth base UUID with these digits at its start.
pub proof fn short_filters_select_base_uuids(digits: Seq<char>)
    requires
        digits.len() == 4 || digits.len() == 8,
        text::all_hex(digits),
    ensures
        digits.len() == 4 ==> ascii_uuid_matches("0000"@ + digits + written_base_tail(), digits),
        digits.len() == 8 ==> ascii_uuid_matches(digits + written_base_tail(), digits),
{
    reveal_strlit("0000");
    reveal_strlit("-0000-1000-8000-00805f9b34fb");
    hex_has_no_marks(digits);
    lowering_keeps_digits(digits);
    written_tail_lowers();
    let zeros = "0000"@;
    let head = if digits.len() == 4 {
        zeros + digits
    } else {
        digits
    };
    let service = head + written_base_tail();
    assert(text::hex_value(digits[0]) is Some && text::hex_value(digits[1]) is Some);
    assert(text::hex_value(head[0]) is Some && text::hex_value(head[1]) is Some);
    assert(text::trim(service) == service);
    assert(stripped(service) == service);
    lowering_joins(head, written_base_tail());
    lowering_joins(zeros, digits);
    four_lowered(zeros);
}

/// A text of hexadecimal digits is its own stripped form.
proof fn hex_has_no_marks(s: Seq<char>)
    requires
        text::all_hex(s),
    ensures
        stripped(s) == s,
{
    if s.len() > 0 {
        assert(text::hex_value(s[0]) is Some);
        assert(text::hex_value(s.last()) is Some);
        if s.len() > 1 {
            assert(text::hex_value(s[1]) is Some);
        }
    }
    assert(text::trim(s) == s);
}

/// A shown device meets every criterion of the filter by itself, and one that meets all of them is
/// shown. A signal that was read is not weaker than the limit, and a device without a reading is
/// shown only where the limit is the weakest that can be chosen, whatever else the filter asks for.
pub proof fn every_criterion_counts(device: DeviceInfoView, filter: ScanFilterView)
    ensures
        passes(device, filter) ==> match device.rssi {
            Some(rssi) => rssi >= filter.min_rssi,
            None => filter.min_rssi <= -127,
        },
        passes(device, filter) <==> ({
            &&& passes(device, ScanFilterView { name: ""@, services: ""@, ..filter })
            &&& passes(device, ScanFilterView { services: ""@, min_rssi: i16::MIN, ..filter })
            &&& passes(device, ScanFilterView { name: ""@, min_rssi: i16::MIN, ..filter })
        }),
        passes(device, ScanFilterView { name: ""@, services: ""@, ..filter }) <==> match device.rssi {
            Some(rssi) => rssi >= filter.min_rssi,
            None => filter.min_rssi <= -127,
        },
{
    reveal_strlit("");
    assert(""@ =~= Seq::<char>::empty());
    assert(text::trim(""@) =~= Seq::<char>::empty());
    assert(tokens(""@).len() == 0);
}

/// A stronger limit, or a name or services where there were none, never adds a device.
pub proof fn tighter_filters_add_no_device(
    device: DeviceInfoView,
    filter: ScanFilterView,
    min_rssi: i16,
)
    requires
        passes(device, filter),
        min_rssi <= filter.min_rssi,
    ensures
        passes(device, ScanFilterView { min_rssi, ..filter }),
        passes(device, ScanFilterView { name: ""@, ..filter }),
        passes(device, ScanFilterView { services: ""@, ..filter }),
{
    reveal_strlit("");
    assert(""@ =~= Seq::<char>::empty());
    assert(text::trim(""@) =~= Seq::<char>::empty());
    assert(tokens(""@).len() == 0);
}

/// The name of a filter, without the white space around it, selects the devices whose name, address
/// or id holds it, small and capital ASCII letters alike; a blank one selects every device.
pub proof fn names_select_by_name_address_and_id(
    device: DeviceInfoView,
    left: Seq<char>,
    part: Seq<char>,
    right: Seq<char>,
    filter: ScanFilterView,
)
    requires
        forall|i: int| 0 <= i < left.len() ==> text::is_space(#[trigger] left[i]),
        forall|i: int| 0 <= i < right.len() ==> text::is_space(#[trigger] right[i]),
        part.len() > 0 ==> !text::is_space(part[0]) && !text::is_space(part.last()),
        filter.name == left + part + right,
        filter.services == ""@,
        filter.min_rssi == i16::MIN,
    ensures
        passes(device, filter) <==> part.len() == 0 || text::holds_words(device.name, part)
            || text::holds_words(device.address, part) || text::holds_words(device.id, part),
{
    reveal_strlit("");
    assert(""@ =~= Seq::<char>::empty());
    assert(tokens(""@).len() == 0);
    text::trimming_drops_the_ends(left, part, right);
    text::words_are_found_in_lower_case(part, device.name);
    text::words_are_found_in_lower_case(part, device.address);
    text::words_are_found_in_lower_case(part, device.id);
}

/// The services of a filter select the devices that advertise one of them, or data for one of them.
pub proof fn services_select_what_is_advertised(device: DeviceInfoView, filter: ScanFilterView)
    requires
        filter.name == ""@,
        filter.min_rssi == i16::MIN,
    ensures
        passes(device, filter) <==> tokens(filter.services).len() == 0 || (exists|i: int, j: int|
            0 <= i < tokens(filter.services).len() && 0 <= j < device.advertised_services.len()
                && uuid_matches(
                #[trigger] device.advertised_services[j],
                #[trigger] tokens(filter.services)[i],
            )) || (exists|i: int, j: int|
            0 <= i < tokens(filter.services).len() && 0 <= j < device.service_data.len()
                && uuid_matches(
                (#[trigger] device.service_data[j]).service_uuid,
                #[trigger] tokens(filter.services)[i],
            )),
{
    reveal_strlit("");
    assert(""@ =~= Seq::<char>::empty());
    assert(text::trim(""@) =~= Seq::<char>::empty());
    let all = tokens(filter.services);
    if all.len() > 0 && service_passes(device, filter.services) {
        let i = choose|i: int| 0 <= i < all.len() && advertises(device, #[trigger] all[i]);
        if exists|j: int|
            0 <= j < device.advertised_services.len() && uuid_matches(
                #[trigger] device.advertised_services[j],
                all[i],
            ) {
            let j = choose|j: int|
                0 <= j < device.advertised_services.len() && uuid_matches(
                    #[trigger] device.advertised_services[j],
                    all[i],
                );
            assert(uuid_matches(device.advertised_services[j], all[i]));
        } else {
            let j = choose|j: int|
                0 <= j < device.service_data.len() && uuid_matches(
                    (#[trigger] device.service_data[j]).service_uuid,
                    all[i],
                );
            assert(uuid_matches(device.service_data[j].service_uuid, all[i]));
        }
    }
    if exists|i: int, j: int|
        0 <= i < all.len() && 0 <= j < device.advertised_services.len() && uuid_matches(
            #[trigger] device.advertised_services[j],
            #[trigger] all[i],
        ) {
        let (i, j) = choose|i: int, j: int|
            0 <= i < all.len() && 0 <= j < device.advertised_services.len() && uuid_matches(
                #[trigger] device.advertised_services[j],
                #[trigger] all[i],
            );
        assert(advertises(device, all[i]));
    }
    if exists|i: int, j: int|
        0 <= i < all.len() && 0 <= j < device.service_data.len() && uuid_matches(
            (#[trigger] device.service_data[j]).service_uuid,
            #[trigger] all[i],
        ) {
        let (i, j) = choose|i: int, j: int|
            0 <= i < all.len() && 0 <= j < device.service_data.len() && uuid_matches(
                (#[trigger] device.service_data[j]).service_uuid,
                #[trigger] all[i],
            );
        assert(advertises(device, all[i]));
    }
}

/// A filter text is cut at white space, commas and semicolons: a piece without any is one token,
/// what stands on either side of a separator is cut by itself, and nothing gives nothing.
pub proof fn filter_texts_are_cut_at_separators(left: Seq<char>, separator: char, right: Seq<char>)
    requires
        text::is_space(separator) || separator == ',' || separator == ';',
    ensures
        tokens(left.push(separator) + right) == tokens(left) + tokens(right),
        left.len() > 0 && (forall|i: int|
            0 <= i < left.len() ==> !text::is_space(#[trigger] left[i]) && left[i] != ',' && left[i]
                != ';') ==> tokens(left) == seq![left],
        tokens(Seq::<char>::empty()).len() == 0,
{
    tokens_join(left, separator, right);
    if left.len() > 0 && (forall|i: int|
        0 <= i < left.len() ==> !text::is_space(#[trigger] left[i]) && left[i] != ',' && left[i]
            != ';') {
        whole_is_one_token(left);
        assert(left.take(left.len() as int) =~= left);
        assert(left.skip(left.len() as int) =~= Seq::<char>::empty());
        assert(!is_token_end(left[0]));
        assert(tokens(Seq::<char>::empty()) =~= Seq::<Seq<char>>::empty());
        assert(seq![left] + Seq::<Seq<char>>::empty() =~= seq![left]);
    }
}

proof fn whole_is_one_token(s: Seq<char>)
    requires
        forall|i: int| 0 <= i < s.len() ==> !is_token_end(#[trigger] s[i]),
    ensures
        token_length(s) == s.len(),
    decreases s.len(),
{
    if s.len() > 0 {
        assert forall|i: int| 0 <= i < s.skip(1).len() implies !is_token_end(
            #[trigger] s.skip(1)[i],
        ) by {
            assert(s.skip(1)[i] == s[i + 1]);
        }
        whole_is_one_token(s.skip(1));
    }
}

proof fn token_length_stops(left: Seq<char>, separator: char, right: Seq<char>)
    requires
        is_token_end(separator),
    ensures
        token_length(left.push(separator) + right) == token_length(left),
    decreases left.len(),
{
    let whole = left.push(separator) + right;
    if left.len() == 0 {
        assert(whole[0] == separator);
    } else {
        assert(whole[0] == left[0]);
        assert(whole.skip(1) =~= left.skip(1).push(separator) + right);
        token_length_stops(left.skip(1), separator, right);
    }
}

proof fn tokens_join(left: Seq<char>, separator: char, right: Seq<char>)
    requires
        is_token_end(separator),
    ensures
        tokens(left.push(separator) + right) == tokens(left) + tokens(right),
    decreases left.len(),
{
    let whole = left.push(separator) + right;
    if left.len() == 0 {
        assert(whole[0] == separator);
        assert(whole.skip(1) =~= right);
        assert(tokens(left) + tokens(right) =~= tokens(right));
    } else {
        assert(whole[0] == left[0]);
        if is_token_end(left[0]) {
            assert(whole.skip(1) =~= left.skip(1).push(separator) + right);
            tokens_join(left.skip(1), separator, right);
        } else {
            token_length_stops(left, separator, right);
            token_length_fits(left);
            let n = token_length(left) as int;
            assert(n > 0);
            assert(whole.take(n) =~= left.take(n));
            assert(whole.skip(n) =~= left.skip(n).push(separator) + right);
            tokens_join(left.skip(n), separator, right);
            assert(seq![left.take(n)] + (tokens(left.skip(n)) + tokens(right)) =~= (seq![
                left.take(n),
            ] + tokens(left.skip(n))) + tokens(right));
        }
    }
}

/// Two UUIDs are compared without hyphens and case: texts that differ in nothing else match, and
/// texts that match differ in nothing else, unless the filter is a short UUID.
pub proof fn uuids_are_compared_without_hyphens_and_case(a: Seq<char>, b: Seq<char>, c: char)
    ensures
        ascii_lowered(a + b) == ascii_lowered(a) + ascii_lowered(b),
        ascii_lowered(seq!['-']).len() == 0,
        c != '-' ==> ascii_lowered(seq![c]).len() == 1 && text::same_but_for_case(
            ascii_lowered(seq![c])[0],
            c,
        ) && !('A' <= ascii_lowered(seq![c])[0] <= 'Z'),
        (ascii_lowered(stripped(b)).len() != 4 && ascii_lowered(stripped(b)).len() != 8)
            || !text::all_hex(ascii_lowered(stripped(b))) ==> (ascii_uuid_matches(a, b)
            <==> ascii_lowered(stripped(a)) == ascii_lowered(stripped(b))),
{
    lowering_joins(a, b);
    reveal_with_fuel(ascii_lowered, 2);
    assert(seq!['-'].drop_last() =~= Seq::<char>::empty());
    assert(seq![c].drop_last() =~= Seq::<char>::empty());
    text::case_is_all_that_is_dropped(c, c);
}

/// A short filter selects no other service than the one with these digits in the base UUID.
pub proof fn short_filters_select_nothing_else(service: Seq<char>, digits: Seq<char>)
    requires
        digits.len() == 4 || digits.len() == 8,
        text::all_hex(digits),
        ascii_uuid_matches(service, digits),
    ensures
        ({
            let found = ascii_lowered(stripped(service));
            let start: int = if digits.len() == 4 {
                4
            } else {
                0
            };
            &&& found.len() == 32
            &&& forall|i: int| 0 <= i < start ==> #[trigger] found[i] == '0'
            &&& text::same_words(found.subrange(start, 8), digits)
            &&& found.skip(8) == "00001000800000805f9b34fb"@
        }),
{
    reveal_strlit("0000");
    reveal_strlit("00001000800000805f9b34fb");
    hex_has_no_marks(digits);
    lowering_keeps_digits(digits);
    let low = ascii_lowered(digits);
    let found = ascii_lowered(stripped(service));
    let start: int = if digits.len() == 4 {
        4
    } else {
        0
    };
    lowering_goes_by_character(digits);
    assert(found.subrange(start, 8) =~= low);
    assert(found.skip(8) =~= base_tail());
}

proof fn lowering_goes_by_character(s: Seq<char>)
    requires
        text::all_hex(s),
    ensures
        text::same_words(ascii_lowered(s), s),
    decreases s.len(),
{
    if s.len() > 0 {
        assert(text::hex_value(s.last()) is Some);
        let rest = s.drop_last();
        assert(text::all_hex(rest));
        lowering_goes_by_character(rest);
        assert forall|i: int| 0 <= i < s.len() implies text::same_but_for_case(
            #[trigger] ascii_lowered(s)[i],
            s[i],
        ) by {
            if i < rest.len() {
                assert(ascii_lowered(s)[i] == ascii_lowered(rest)[i]);
                assert(rest[i] == s[i]);
            } else {
                text::case_is_all_that_is_dropped(s[i], s[i]);
            }
        }
    }
}

/// White space around a UUID and a hexadecimal prefix before it mean nothing.
pub proof fn prefixes_mean_nothing(left: Seq<char>, digits: Seq<char>, right: Seq<char>)
    requires
        forall|i: int| 0 <= i < left.len() ==> text::is_space(#[trigger] left[i]),
        forall|i: int| 0 <= i < right.len() ==> text::is_space(#[trigger] right[i]),
        digits.len() > 0,
        text::all_hex(digits),
    ensures
        stripped(left + digits + right) == digits,
        stripped(left + ("0x"@ + digits) + right) == digits,
        stripped(left + ("0X"@ + digits) + right) == digits,
{
    reveal_strlit("0x");
    reveal_strlit("0X");
    assert(text::hex_value(digits[0]) is Some && text::hex_value(digits.last()) is Some);
    if digits.len() > 1 {
        assert(text::hex_value(digits[1]) is Some);
    }
    hex_has_no_marks(digits);
    text::trimming_drops_the_ends(left, digits, right);
    let small = "0x"@ + digits;
    let large = "0X"@ + digits;
    text::trimming_drops_the_ends(left, small, right);
    text::trimming_drops_the_ends(left, large, right);
    assert(small.skip(2) =~= digits);
    assert(large.skip(2) =~= digits);
    assert(without_marks(digits, 'x') == digits);
    assert(without_marks(digits, 'X') == digits);
    assert(without_marks(small, 'x') == digits);
    assert(without_marks(large, 'x') == large);
    assert(without_marks(large, 'X') == digits);
}

/// What is neither four nor eight hexadecimal digits is read as a full UUID, and its error names the
/// text. Digits are a number in the base UUID, whatever a full reading would give.
pub proof fn other_texts_are_full_uuids(value: Seq<char>, full: Result<u128, Seq<char>>)
    ensures
        ({
            let compact = stripped(value);
            let short = (compact.len() == 4 || compact.len() == 8) && text::all_hex(compact);
            &&& short ==> scan_uuid(value, full) is Ok && scan_uuid(value, full)->Ok_0
                == text::hex_number(compact) * 0x1_0000_0000_0000_0000_0000_0000
                + 0x1000_8000_0080_5F9B_34FB
            &&& !short ==> match full {
                Ok(number) => scan_uuid(value, full) == Ok::<u128, Seq<char>>(number),
                Err(message) => scan_uuid(value, full) == Err::<u128, Seq<char>>(
                    "无法解析 UUID "@ + value + ": "@ + message,
                ),
            }
        }),
{
    let compact = stripped(value);
    if (compact.len() == 4 || compact.len() == 8) && text::all_hex(compact) {
        hex_number_bound(compact);
    }
}

/// The filters of a scan are read one after the other: those of two lists together are those of the
/// first followed by those of the second, unless one cannot be read, and then the first such decides.
/// A blank filter gives nothing, any other its UUID.
pub proof fn scan_filters_are_read_in_order(
    first: Seq<Seq<char>>,
    second: Seq<Seq<char>>,
    value: Seq<char>,
)
    ensures
        match (scan_services(first), scan_services(second)) {
            (Ok(a), Ok(b)) => scan_services(first + second) == Ok::<Seq<u128>, Seq<char>>(a + b),
            (Err(message), _) => scan_services(first + second) == Err::<Seq<u128>, Seq<char>>(
                message,
            ),
            (Ok(_), Err(message)) => scan_services(first + second) == Err::<Seq<u128>, Seq<char>>(
                message,
            ),
        },
        text::trim(value).len() == 0 ==> scan_services(seq![value]) == Ok::<Seq<u128>, Seq<char>>(
            Seq::empty(),
        ),
        text::trim(value).len() > 0 ==> match scan_uuid(
            text::trim(value),
            uuid_number(text::trim(value)),
        ) {
            Ok(number) => scan_services(seq![value]) == Ok::<Seq<u128>, Seq<char>>(seq![number]),
            Err(message) => scan_services(seq![value]) == Err::<Seq<u128>, Seq<char>>(message),
        },
    decreases second.len(),
{
    reveal_with_fuel(scan_services, 2);
    assert(seq![value].drop_last() =~= Seq::<Seq<char>>::empty());
    if text::trim(value).len() > 0 {
        match scan_uuid(text::trim(value), uuid_number(text::trim(value))) {
            Ok(number) => {
                assert(Seq::<u128>::empty().push(number) =~= seq![number]);
            },
            Err(_) => {},
        }
    }
    if second.len() == 0 {
        assert(first + second =~= first);
        if let Ok(a) = scan_services(first) {
            assert(a + Seq::<u128>::empty() =~= a);
        }
    } else {
        scan_filters_are_read_in_order(first, second.drop_last(), value);
        assert((first + second).drop_last() =~= first + second.drop_last());
        assert((first + second).last() == second.last());
        match (scan_services(first), scan_services(second.drop_last())) {
            (Ok(a), Ok(b)) => {
                let v = text::trim(second.last());
                if v.len() > 0 {
                    if let Ok(number) = scan_uuid(v, uuid_number(v)) {
                        assert(a + b.push(number) =~= (a + b).push(number));
                    }
                }
            },
            _ => {},
        }
    }
}

} // verus!
