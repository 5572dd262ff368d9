//! The BMON capture format, version 1, and the rows of the CSV capture beside it.

use crate::codec;
use crate::numbers;
use crate::text;
use std::path::PathBuf;
use vstd::prelude::*;
#[allow(unused_imports)]
use vstd::string::*;
#[allow(unused_imports)]
use vstd::utf8::*;

verus! {

/// The longest text field that is read.
pub const MAX_STRING_BYTES: usize = 65_536;

/// The longest payload that is read.
pub const MAX_PAYLOAD_BYTES: usize = 16_777_216;

/// The first bytes of every capture: `BMON` and the format version.
pub open spec fn raw_magic() -> Seq<u8> {
    seq![0x42u8, 0x4Du8, 0x4Fu8, 0x4Eu8, 0x01u8]
}

/// The two files of a capture.
#[derive(Debug)]
pub struct CapturePaths {
    pub csv: PathBuf,
    pub raw: PathBuf,
}

/// The mathematical value of [`CapturePaths`].
#[verifier::ext_equal]
pub struct CapturePathsView {
    pub csv: PathBuf,
    pub raw: PathBuf,
}

impl DeepView for CapturePaths {
    type V = CapturePathsView;

    open spec fn deep_view(&self) -> CapturePathsView {
        CapturePathsView {
            csv: self.csv,
            raw: self.raw,
        }
    }
}

impl Clone for CapturePaths {
    fn clone(&self) -> (r: Self)
        ensures
            r.deep_view() == self.deep_view(),
    {
        CapturePaths {
            csv: self.csv.clone(),
            raw: self.raw.clone(),
        }
    }
}

/// A packet to be captured.
#[derive(Debug)]
pub struct CaptureRecord<'a> {
    pub timestamp: &'a str,
    pub direction: &'a str,
    pub service_uuid: &'a str,
    pub characteristic_uuid: &'a str,
    pub data: &'a [u8],
}

/// A packet read back from a capture.
#[derive(Debug, PartialEq, Eq)]
pub struct ReplayRecord {
    pub timestamp: String,
    pub direction: String,
    pub service_uuid: String,
    pub characteristic_uuid: String,
    pub data: Vec<u8>,
}

/// The mathematical value of [`ReplayRecord`].
#[verifier::ext_equal]
pub struct ReplayRecordView {
    pub timestamp: Seq<char>,
    pub direction: Seq<char>,
    pub service_uuid: Seq<char>,
    pub characteristic_uuid: Seq<char>,
    pub data: Seq<u8>,
}

impl DeepView for ReplayRecord {
    type V = ReplayRecordView;

    open spec fn deep_view(&self) -> ReplayRecordView {
        ReplayRecordView {
            timestamp: self.timestamp@,
            direction: self.direction@,
            service_uuid: self.service_uuid@,
            characteristic_uuid: self.characteristic_uuid@,
            data: self.data@,
        }
    }
}

impl Clone for ReplayRecord {
    fn clone(&self) -> (r: Self)
        ensures
            r.deep_view() == self.deep_view(),
    {
        let r = ReplayRecord {
            timestamp: self.timestamp.clone(),
            direction: self.direction.clone(),
            service_uuid: self.service_uuid.clone(),
            characteristic_uuid: self.characteristic_uuid.clone(),
            data: self.data.clone(),
        };
        assert(r.data@ =~= self.data@);
        r
    }
}

impl<'a> DeepView for CaptureRecord<'a> {
    type V = ReplayRecordView;

    open spec fn deep_view(&self) -> ReplayRecordView {
        ReplayRecordView {
            timestamp: self.timestamp@,
            direction: self.direction@,
            service_uuid: self.service_uuid@,
            characteristic_uuid: self.characteristic_uuid@,
            data: self.data@,
        }
    }
}

/// A row of the CSV capture.
#[derive(Debug, PartialEq, Eq)]
pub struct CsvRecord {
    pub timestamp: String,
    pub direction: String,
    pub service_uuid: String,
    pub characteristic_uuid: String,
    pub length: usize,
    pub hex: String,
    pub ascii: String,
}

/// The mathematical value of [`CsvRecord`].
#[verifier::ext_equal]
pub struct CsvRecordView {
    pub timestamp: Seq<char>,
    pub direction: Seq<char>,
    pub service_uuid: Seq<char>,
    pub characteristic_uuid: Seq<char>,
    pub length: usize,
    pub hex: Seq<char>,
    pub ascii: Seq<char>,
}

impl DeepView for CsvRecord {
    type V = CsvRecordView;

    open spec fn deep_view(&self) -> CsvRecordView {
        CsvRecordView {
            timestamp: self.timestamp@,
            direction: self.direction@,
            service_uuid: self.service_uuid@,
            characteristic_uuid: self.characteristic_uuid@,
            length: self.length,
            hex: self.hex@,
            ascii: self.ascii@,
        }
    }
}

impl Clone for CsvRecord {
    fn clone(&self) -> (r: Self)
        ensures
            r.deep_view() == self.deep_view(),
    {
        CsvRecord {
            timestamp: self.timestamp.clone(),
            direction: self.direction.clone(),
            service_uuid: self.service_uuid.clone(),
            characteristic_uuid: self.characteristic_uuid.clone(),
            length: self.length,
            hex: self.hex.clone(),
            ascii: self.ascii.clone(),
        }
    }
}

/// The row for a packet.
pub open spec fn csv_row(record: ReplayRecordView) -> CsvRecordView {
    CsvRecordView {
        timestamp: record.timestamp,
        direction: record.direction,
        service_uuid: record.service_uuid,
        characteristic_uuid: record.characteristic_uuid,
        length: record.data.len() as usize,
        hex: codec::hex_text(record.data),
        ascii: record.data.map_values(|b: u8| codec::ascii_char(b)),
    }
}

/// The row of the CSV capture for a packet.
pub fn csv_record(record: &CaptureRecord<'_>) -> (r: CsvRecord)
    ensures
        r.deep_view() == csv_row(record.deep_view()),
{
    CsvRecord {
        timestamp: record.timestamp.to_owned(),
        direction: record.direction.to_owned(),
        service_uuid: record.service_uuid.to_owned(),
        characteristic_uuid: record.characteristic_uuid.to_owned(),
        length: record.data.len(),
        hex: codec::format_hex(record.data),
        ascii: codec::format_ascii(record.data),
    }
}

/// The code of a direction in a capture.
pub open spec fn code_of(direction: Seq<char>) -> u8 {
    if direction == "RX"@ {
        1
    } else if direction == "RD"@ {
        2
    } else if direction == "TX"@ {
        3
    } else {
        0
    }
}

/// The direction that a code stands for.
pub open spec fn label_of(code: u8) -> Seq<char> {
    if code == 1 {
        "RX"@
    } else if code == 2 {
        "RD"@
    } else if code == 3 {
        "TX"@
    } else {
        "?"@
    }
}

/// The code of a direction in a capture.
pub fn direction_code(direction: &str) -> (r: u8)
    ensures
        r == code_of(direction@),
{
    if text::same_text(direction, "RX") {
        1
    } else if text::same_text(direction, "RD") {
        2
    } else if text::same_text(direction, "TX") {
        3
    } else {
        0
    }
}

/// The direction that a code stands for.
pub fn direction_label(code: u8) -> (r: &'static str)
    ensures
        r@ == label_of(code),
{
    match code {
        1 => "RX",
        2 => "RD",
        3 => "TX",
        _ => "?",
    }
}

/// Why a packet cannot be captured.
#[derive(Debug, Clone, Copy, PartialEq, Eq, Structural)]
pub enum CaptureError {
    /// A text field is longer than its length field can say.
    StringTooLong,
}

impl CaptureError {
    /// The message shown to the user.
    pub fn message(self) -> (r: &'static str)
        ensures
            r@ == "BMON 字符串字段过长"@,
    {
        "BMON 字符串字段过长"
    }
}

/// Why a file is no capture.
#[derive(Debug, Clone, Copy, PartialEq, Eq, Structural)]
pub enum BmonError {
    /// The file ends within its header.
    HeaderTruncated,
    /// The file begins with something else.
    NotBmon,
    /// The file ends before a direction.
    DirectionTruncated,
    /// The file ends within the length of a text.
    StringLengthTruncated,
    /// A text is longer than the limit.
    StringTooLarge(usize),
    /// The file ends within a text.
    StringTruncated,
    /// A text is not UTF-8.
    NotUtf8,
    /// The file ends within the length of a payload.
    NumberTruncated,
    /// A payload is longer than the limit.
    PayloadTooLarge(usize),
    /// The file ends within a payload.
    PayloadTruncated,
}

/// The message for an error.
pub open spec fn bmon_message(error: BmonError) -> Seq<char> {
    match error {
        BmonError::HeaderTruncated => "读取 BMON 文件头失败"@,
        BmonError::NotBmon => "不是受支持的 BMON v1 文件"@,
        BmonError::DirectionTruncated => "BMON direction 字段不完整"@,
        BmonError::StringLengthTruncated => "BMON 字符串长度不完整"@,
        BmonError::StringTooLarge(length) => "BMON 字符串字段过大: "@ + text::decimal(length as nat)
            + " bytes"@,
        BmonError::StringTruncated => "BMON 字符串字段不完整"@,
        BmonError::NotUtf8 => "BMON 字符串不是 UTF-8"@,
        BmonError::NumberTruncated => "BMON u32 字段不完整"@,
        BmonError::PayloadTooLarge(length) => "BMON payload 过大: "@ + text::decimal(length as nat)
            + " bytes"@,
        BmonError::PayloadTruncated => "BMON payload 不完整"@,
    }
}

impl BmonError {
    /// The message shown to the user.
    pub fn message(self) -> (r: String)
        ensures
            r@ == bmon_message(self),
    {
        match self {
            BmonError::HeaderTruncated => "读取 BMON 文件头失败".to_owned(),
            BmonError::NotBmon => "不是受支持的 BMON v1 文件".to_owned(),
            BmonError::DirectionTruncated => "BMON direction 字段不完整".to_owned(),
            BmonError::StringLengthTruncated => "BMON 字符串长度不完整".to_owned(),
            BmonError::StringTooLarge(length) => sized_message("BMON 字符串字段过大: ", length),
            BmonError::StringTruncated => "BMON 字符串字段不完整".to_owned(),
            BmonError::NotUtf8 => "BMON 字符串不是 UTF-8".to_owned(),
            BmonError::NumberTruncated => "BMON u32 字段不完整".to_owned(),
            BmonError::PayloadTooLarge(length) => sized_message("BMON payload 过大: ", length),
            BmonError::PayloadTruncated => "BMON payload 不完整".to_owned(),
        }
    }
}

fn sized_message(start: &str, length: usize) -> (r: String)
    ensures
        r@ == start@ + text::decimal(length as nat) + " bytes"@,
{
    let number = text::decimal_text(length as u64);
    let head = text::joined(start, number.as_str());
    text::joined(head.as_str(), " bytes")
}

/// The low bytes of a number, the lowest first.
pub open spec fn le_bytes(n: nat, width: nat) -> Seq<u8>
    decreases width,
{
    if width == 0 {
        Seq::empty()
    } else {
        seq![(n % 256) as u8] + le_bytes(n / 256, (width - 1) as nat)
    }
}

/// Whether a text fits its field.
pub open spec fn fits(value: Seq<char>) -> bool {
    encode_utf8(value).len() <= u16::MAX
}

/// A text field: the length of its UTF-8 bytes, then the bytes.
#[verifier::opaque]
pub open spec fn string_field(value: Seq<char>) -> Seq<u8> {
    le_bytes(encode_utf8(value).len(), 2) + encode_utf8(value)
}

/// A record whose texts all fit.
pub open spec fn record_bytes(record: ReplayRecordView) -> Seq<u8> {
    string_field(record.timestamp) + seq![code_of(record.direction)] + string_field(
        record.service_uuid,
    ) + string_field(record.characteristic_uuid) + le_bytes(record.data.len(), 4) + record.data
}

/// What is written for a packet: up to the first text that does not fit.
pub open spec fn written(record: ReplayRecordView) -> (Seq<u8>, Result<(), CaptureError>) {
    if !fits(record.timestamp) {
        (Seq::empty(), Err(CaptureError::StringTooLong))
    } else if !fits(record.service_uuid) {
        (
            string_field(record.timestamp) + seq![code_of(record.direction)],
            Err(CaptureError::StringTooLong),
        )
    } else if !fits(record.characteristic_uuid) {
        (
            string_field(record.timestamp) + seq![code_of(record.direction)] + string_field(
                record.service_uuid,
            ),
            Err(CaptureError::StringTooLong),
        )
    } else {
        (record_bytes(record), Ok(()))
    }
}

/// Appends the low bytes of a number, the lowest first.
fn write_le(out: &mut Vec<u8>, number: usize, width: usize)
    ensures
        final(out)@ == old(out)@ + le_bytes(number as nat, width as nat),
{
    let ghost start = out@;
    let ghost all = le_bytes(number as nat, width as nat);
    let mut rest: usize = number;
    let mut i: usize = 0;
    assert(start + all =~= out@ + le_bytes(rest as nat, (width - i) as nat));
    while i < width
        invariant
            i <= width,
            start + all == out@ + le_bytes(rest as nat, (width - i) as nat),
        decreases width - i,
    {
        let ghost later = le_bytes((rest / 256) as nat, (width - i - 1) as nat);
        assert(out@ + (seq![(rest % 256) as u8] + later) =~= out@.push((rest % 256) as u8) + later);
        out.push((rest % 256) as u8);
        rest = rest / 256;
        i = i + 1;
    }
    assert(out@ =~= start + all);
}

/// Appends a text field.
pub fn write_raw_string(out: &mut Vec<u8>, value: &str) -> (r: Result<(), CaptureError>)
    ensures
        r is Ok <==> fits(value@),
        r is Ok ==> final(out)@ == old(out)@ + string_field(value@),
        r is Err ==> final(out)@ == old(out)@,
{
    let bytes = value.as_bytes();
    if bytes.len() > 0xFFFF {
        return Err(CaptureError::StringTooLong);
    }
    let ghost start = out@;
    write_le(out, bytes.len(), 2);
    out.extend_from_slice(bytes);
    assert(out@ =~= start + string_field(value@)) by {
        reveal(string_field);
    }
    Ok(())
}

/// Appends a record, or its start where a text does not fit.
pub fn write_record(out: &mut Vec<u8>, record: &CaptureRecord<'_>) -> (r: Result<(), CaptureError>)
    ensures
        final(out)@ == old(out)@ + written(record.deep_view()).0,
        r == written(record.deep_view()).1,
{
    let ghost start = out@;
    let ghost value = record.deep_view();
    match write_raw_string(out, record.timestamp) {
        Ok(()) => {},
        Err(error) => {
            assert(out@ =~= start + written(value).0);
            return Err(error);
        },
    }
    out.push(direction_code(record.direction));
    assert(out@ =~= start + (string_field(value.timestamp) + seq![code_of(value.direction)]));
    match write_raw_string(out, record.service_uuid) {
        Ok(()) => {},
        Err(error) => {
            assert(out@ =~= start + written(value).0);
            return Err(error);
        },
    }
    match write_raw_string(out, record.characteristic_uuid) {
        Ok(()) => {},
        Err(error) => {
            assert(out@ =~= start + written(value).0);
            return Err(error);
        },
    }
    write_le(out, record.data.len(), 4);
    out.extend_from_slice(record.data);
    assert(out@ =~= start + record_bytes(value));
    Ok(())
}

/// A running capture: its files, the bytes that were not handed to the capture file yet, and the
/// number of records.
pub struct CaptureSession {
    paths: CapturePaths,
    pending: Vec<u8>,
    records: u64,
}

impl CaptureSession {
    /// The bytes that were not handed to the capture file yet.
    pub closed spec fn pending_bytes(&self) -> Seq<u8> {
        self.pending@
    }

    /// The files of the capture.
    pub closed spec fn files(&self) -> CapturePathsView {
        self.paths.deep_view()
    }

    /// The number of records.
    pub closed spec fn count(&self) -> u64 {
        self.records
    }

    /// A capture without records: the header waits to be written.
    pub fn start(paths: CapturePaths) -> (r: Self)
        ensures
            r.files() == paths.deep_view(),
            r.pending_bytes() == raw_magic(),
            r.count() == 0,
    {
        let mut pending: Vec<u8> = Vec::new();
        pending.push(0x42);
        pending.push(0x4D);
        pending.push(0x4F);
        pending.push(0x4E);
        pending.push(0x01);
        assert(pending@ =~= raw_magic());
        CaptureSession { paths, pending, records: 0 }
    }

    /// The files of the capture.
    pub fn paths(&self) -> (r: &CapturePaths)
        ensures
            r.deep_view() == self.files(),
    {
        &self.paths
    }

    /// The number of records.
    pub fn records(&self) -> (r: u64)
        ensures
            r == self.count(),
    {
        self.records
    }

    /// Captures a packet.
    pub fn write(&mut self, record: CaptureRecord<'_>) -> (r: Result<(), CaptureError>)
        requires
            old(self).count() < u64::MAX,
        ensures
            final(self).files() == old(self).files(),
            final(self).pending_bytes() == old(self).pending_bytes() + written(
                record.deep_view(),
            ).0,
            r == written(record.deep_view()).1,
            final(self).count() == old(self).count() + (if r is Ok {
                1int
            } else {
                0int
            }),
    {
        match write_record(&mut self.pending, &record) {
            Ok(()) => {
                self.records = self.records + 1;
                Ok(())
            },
            Err(error) => Err(error),
        }
    }

    /// Hands out the bytes for the capture file.
    pub fn take_pending(&mut self) -> (r: Vec<u8>)
        ensures
            r@ == old(self).pending_bytes(),
            final(self).pending_bytes() == Seq::<u8>::empty(),
            final(self).files() == old(self).files(),
            final(self).count() == old(self).count(),
    {
        let mut out: Vec<u8> = Vec::new();
        out.append(&mut self.pending);
        out
    }
}

/// A text field at the start of `rest`, and what follows it.
#[verifier::opaque]
pub open spec fn string_at(rest: Seq<u8>) -> Result<(Seq<char>, Seq<u8>), BmonError> {
    if rest.len() < 2 {
        Err(BmonError::StringLengthTruncated)
    } else {
        body_at(rest.skip(2), rest[0] as nat + 256 * rest[1] as nat)
    }
}

/// A text of `length` bytes at the start of `rest`, and what follows it.
pub open spec fn body_at(rest: Seq<u8>, length: nat) -> Result<(Seq<char>, Seq<u8>), BmonError> {
    if length > MAX_STRING_BYTES {
        Err(BmonError::StringTooLarge(length as usize))
    } else if rest.len() < length {
        Err(BmonError::StringTruncated)
    } else if !valid_utf8(rest.take(length as int)) {
        Err(BmonError::NotUtf8)
    } else {
        Ok((decode_utf8(rest.take(length as int)), rest.skip(length as int)))
    }
}

/// The payload at the start of `rest`, and what follows it.
#[verifier::opaque]
pub open spec fn payload_at(rest: Seq<u8>) -> Result<(Seq<u8>, Seq<u8>), BmonError> {
    if rest.len() < 4 {
        Err(BmonError::NumberTruncated)
    } else {
        let length = numbers::unsigned_value(rest.take(4), crate::protocol::Endian::Little);
        if length > MAX_PAYLOAD_BYTES {
            Err(BmonError::PayloadTooLarge(length as usize))
        } else if rest.len() < 4 + length {
            Err(BmonError::PayloadTruncated)
        } else {
            Ok((rest.subrange(4, 4 + length as int), rest.skip(4 + length as int)))
        }
    }
}

/// What follows the timestamp of a record: direction, service, characteristic and payload.
#[verifier::opaque]
pub open spec fn record_after(timestamp: Seq<char>, rest: Seq<u8>) -> Result<
    (ReplayRecordView, Seq<u8>),
    BmonError,
> {
    if rest.len() == 0 {
        Err(BmonError::DirectionTruncated)
    } else {
        match string_at(rest.skip(1)) {
            Err(error) => Err(error),
            Ok((service_uuid, after_service)) => match string_at(after_service) {
                Err(error) => Err(error),
                Ok((characteristic_uuid, after_name)) => match payload_at(after_name) {
                    Err(error) => Err(error),
                    Ok((data, later)) => Ok(
                        (
                            ReplayRecordView {
                                timestamp,
                                direction: label_of(rest[0]),
                                service_uuid,
                                characteristic_uuid,
                                data,
                            },
                            later,
                        ),
                    ),
                },
            },
        }
    }
}

/// A record at the start of `rest`, and what follows it.
#[verifier::opaque]
pub open spec fn record_at(rest: Seq<u8>) -> Result<(ReplayRecordView, Seq<u8>), BmonError> {
    match string_at(rest) {
        Err(error) => Err(error),
        Ok((timestamp, later)) => record_after(timestamp, later),
    }
}

proof fn string_at_shrinks(rest: Seq<u8>)
    ensures
        string_at(rest) matches Ok(found) ==> found.1.len() < rest.len(),
{
    reveal(string_at);
}

proof fn payload_at_shrinks(rest: Seq<u8>)
    ensures
        payload_at(rest) matches Ok(found) ==> found.1.len() < rest.len(),
{
    reveal(payload_at);
}

proof fn record_at_shrinks(rest: Seq<u8>)
    ensures
        record_at(rest) matches Ok(found) ==> found.1.len() < rest.len(),
{
    reveal(record_at);
    reveal(record_after);
    string_at_shrinks(rest);
    if let Ok((timestamp, later)) = string_at(rest) {
        if later.len() > 0 {
            string_at_shrinks(later.skip(1));
            if let Ok((service_uuid, after_service)) = string_at(later.skip(1)) {
                string_at_shrinks(after_service);
                if let Ok((characteristic_uuid, after_name)) = string_at(after_service) {
                    payload_at_shrinks(after_name);
                }
            }
        }
    }
}

/// The records from here to the end of the file.
pub open spec fn records_from(rest: Seq<u8>) -> Result<Seq<ReplayRecordView>, BmonError>
    decreases rest.len(),
    via records_from_shrinks
{
    if rest.len() == 0 {
        Ok(Seq::empty())
    } else {
        match record_at(rest) {
            Err(error) => Err(error),
            Ok((record, later)) => match records_from(later) {
                Err(error) => Err(error),
                Ok(others) => Ok(seq![record] + others),
            },
        }
    }
}

#[via_fn]
proof fn records_from_shrinks(rest: Seq<u8>) {
    record_at_shrinks(rest);
}

/// The records of a capture file.
pub open spec fn capture_records(bytes: Seq<u8>) -> Result<Seq<ReplayRecordView>, BmonError> {
    if bytes.len() < 5 {
        Err(BmonError::HeaderTruncated)
    } else if bytes.take(5) != raw_magic() {
        Err(BmonError::NotBmon)
    } else {
        records_from(bytes.skip(5))
    }
}

/// `String::from_utf8` gives the text that the bytes encode, where they are UTF-8.
#[verifier::external_body]
fn text_from_utf8(bytes: Vec<u8>) -> (r: Option<String>)
    ensures
        match r {
            Some(value) => valid_utf8(bytes@) && value@ == decode_utf8(bytes@),
            None => !valid_utf8(bytes@),
        },
{
    String::from_utf8(bytes).ok()
}

fn copied_range(bytes: &[u8], start: usize, end: usize) -> (r: Vec<u8>)
    requires
        start <= end <= bytes@.len(),
    ensures
        r@ == bytes@.subrange(start as int, end as int),
{
    numbers::copied(vstd::slice::slice_subrange(bytes, start, end))
}

/// Reads a text of `length` bytes at a position, and returns the position behind it.
fn read_string_body(bytes: &[u8], at: usize, length: usize) -> (r: Result<
    (String, usize),
    BmonError,
>)
    requires
        at <= bytes@.len(),
    ensures
        match (r, body_at(bytes@.skip(at as int), length as nat)) {
            (Ok((value, next)), Ok((wanted, later))) => value@ == wanted && next <= bytes@.len()
                && later == bytes@.skip(next as int),
            (Err(error), Err(wanted)) => error == wanted,
            _ => false,
        },
{
    let ghost rest = bytes@.skip(at as int);
    if length > MAX_STRING_BYTES {
        return Err(BmonError::StringTooLarge(length));
    }
    if bytes.len() - at < length {
        return Err(BmonError::StringTruncated);
    }
    let end: usize = at + length;
    let body = copied_range(bytes, at, end);
    assert(body@ =~= rest.take(length as int));
    assert(rest.skip(length as int) =~= bytes@.skip(end as int));
    match text_from_utf8(body) {
        Some(value) => Ok((value, end)),
        None => Err(BmonError::NotUtf8),
    }
}

/// Reads a text field at a position, and returns the position behind it.
fn read_raw_string(bytes: &[u8], at: usize) -> (r: Result<(String, usize), BmonError>)
    requires
        at <= bytes@.len(),
    ensures
        match (r, string_at(bytes@.skip(at as int))) {
            (Ok((value, next)), Ok((wanted, later))) => value@ == wanted && next <= bytes@.len()
                && later == bytes@.skip(next as int),
            (Err(error), Err(wanted)) => error == wanted,
            _ => false,
        },
{
    proof {
        reveal(string_at);
    }
    if bytes.len() - at < 2 {
        return Err(BmonError::StringLengthTruncated);
    }
    let length: usize = bytes[at] as usize + 256 * bytes[at + 1] as usize;
    assert(bytes@.skip(at as int).skip(2) =~= bytes@.skip(at + 2));
    read_string_body(bytes, at + 2, length)
}

/// Reads a text field at a position, or nothing where the file ends there.
fn read_raw_string_or_eof(bytes: &[u8], at: usize) -> (r: Result<
    Option<(String, usize)>,
    BmonError,
>)
    requires
        at <= bytes@.len(),
    ensures
        at == bytes@.len() <==> r == Ok::<Option<(String, usize)>, BmonError>(None),
        at < bytes@.len() ==> match (r, string_at(bytes@.skip(at as int))) {
            (Ok(Some((value, next))), Ok((wanted, later))) => value@ == wanted && next
                <= bytes@.len() && later == bytes@.skip(next as int),
            (Err(error), Err(wanted)) => error == wanted,
            _ => false,
        },
{
    if at == bytes.len() {
        return Ok(None);
    }
    match read_raw_string(bytes, at) {
        Ok(found) => Ok(Some(found)),
        Err(error) => Err(error),
    }
}

/// Reads a little-endian number at a position.
fn read_u32(bytes: &[u8], at: usize) -> (r: Result<u32, BmonError>)
    requires
        at <= bytes@.len(),
    ensures
        match r {
            Ok(value) => bytes@.len() - at >= 4 && value == numbers::unsigned_value(
                bytes@.subrange(at as int, at + 4),
                crate::protocol::Endian::Little,
            ),
            Err(error) => bytes@.len() - at < 4 && error == BmonError::NumberTruncated,
        },
{
    if bytes.len() - at < 4 {
        return Err(BmonError::NumberTruncated);
    }
    Ok(numbers::read_unsigned_at(bytes, at, 4, crate::protocol::Endian::Little) as u32)
}

/// Reads the payload at a position, and returns the position behind it.
fn read_payload(bytes: &[u8], at: usize) -> (r: Result<(Vec<u8>, usize), BmonError>)
    requires
        at <= bytes@.len(),
    ensures
        match (r, payload_at(bytes@.skip(at as int))) {
            (Ok((value, next)), Ok((wanted, later))) => value@ == wanted && next <= bytes@.len()
                && later == bytes@.skip(next as int),
            (Err(error), Err(wanted)) => error == wanted,
            _ => false,
        },
{
    proof {
        reveal(payload_at);
    }
    let total: usize = bytes.len();
    let ghost rest = bytes@.skip(at as int);
    let length: usize = match read_u32(bytes, at) {
        Ok(value) => value as usize,
        Err(error) => {
            return Err(error);
        },
    };
    assert(rest.take(4) =~= bytes@.subrange(at as int, at + 4));
    if length > MAX_PAYLOAD_BYTES {
        return Err(BmonError::PayloadTooLarge(length));
    }
    let start: usize = at + 4;
    if total - start < length {
        return Err(BmonError::PayloadTruncated);
    }
    let end: usize = start + length;
    let data = copied_range(bytes, start, end);
    assert(data@ =~= rest.subrange(4, 4 + length as int));
    assert(rest.skip(4 + length as int) =~= bytes@.skip(end as int));
    Ok((data, end))
}

/// Reads what follows the timestamp of a record, and returns the position behind it.
fn read_record_after(bytes: &[u8], timestamp: String, at: usize) -> (r: Result<
    (ReplayRecord, usize),
    BmonError,
>)
    requires
        at <= bytes@.len(),
    ensures
        match (r, record_after(timestamp@, bytes@.skip(at as int))) {
            (Ok((value, next)), Ok((wanted, later))) => value.deep_view() == wanted && next
                <= bytes@.len() && later == bytes@.skip(next as int),
            (Err(error), Err(wanted)) => error == wanted,
            _ => false,
        },
{
    proof {
        reveal(record_after);
    }
    if at == bytes.len() {
        return Err(BmonError::DirectionTruncated);
    }
    let direction: u8 = bytes[at];
    assert(bytes@.skip(at as int).skip(1) =~= bytes@.skip(at + 1));
    let (service_uuid, after_service) = match read_raw_string(bytes, at + 1) {
        Ok(found) => found,
        Err(error) => {
            return Err(error);
        },
    };
    let (characteristic_uuid, after_name) = match read_raw_string(bytes, after_service) {
        Ok(found) => found,
        Err(error) => {
            return Err(error);
        },
    };
    let (data, next) = match read_payload(bytes, after_name) {
        Ok(found) => found,
        Err(error) => {
            return Err(error);
        },
    };
    Ok(
        (
            ReplayRecord {
                timestamp,
                direction: direction_label(direction).to_owned(),
                service_uuid,
                characteristic_uuid,
                data,
            },
            next,
        ),
    )
}

/// Reads the bytes of a capture file.
pub fn read_bmon(bytes: &[u8]) -> (r: Result<Vec<ReplayRecord>, BmonError>)
    ensures
        match (r, capture_records(bytes@)) {
            (Ok(records), Ok(wanted)) => records.deep_view() == wanted,
            (Err(error), Err(wanted)) => error == wanted,
            _ => false,
        },
{
    if bytes.len() < 5 {
        return Err(BmonError::HeaderTruncated);
    }
    if !(bytes[0] == 0x42 && bytes[1] == 0x4D && bytes[2] == 0x4F && bytes[3] == 0x4E && bytes[4]
        == 0x01) {
        proof {
            let head = bytes@.take(5);
            assert(head[0] == bytes@[0] && head[1] == bytes@[1] && head[2] == bytes@[2] && head[3]
                == bytes@[3] && head[4] == bytes@[4]);
        }
        return Err(BmonError::NotBmon);
    }
    assert(bytes@.take(5) =~= raw_magic());
    let ghost all = records_from(bytes@.skip(5));
    let mut records: Vec<ReplayRecord> = Vec::new();
    let mut at: usize = 5;
    proof {
        if let Ok(others) = all {
            assert(others =~= records.deep_view() + others);
        }
    }
    while at < bytes.len()
        invariant
            5 <= at <= bytes@.len(),
            capture_records(bytes@) == all,
            match (all, records_from(bytes@.skip(at as int))) {
                (Ok(every), Ok(others)) => every == records.deep_view() + others,
                (Err(first), Err(error)) => first == error,
                _ => false,
            },
        decreases bytes@.len() - at,
    {
        proof {
            record_at_shrinks(bytes@.skip(at as int));
            reveal(record_at);
        }
        let (timestamp, after_timestamp) = match read_raw_string_or_eof(bytes, at) {
            Ok(Some(found)) => found,
            Ok(None) => {
                return Ok(records);
            },
            Err(error) => {
                return Err(error);
            },
        };
        let (record, next) = match read_record_after(bytes, timestamp, after_timestamp) {
            Ok(found) => found,
            Err(error) => {
                return Err(error);
            },
        };
        let ghost before = records.deep_view();
        let ghost value = record.deep_view();
        records.push(record);
        assert(records.deep_view() =~= before.push(value));
        proof {
            if let Ok(others) = records_from(bytes@.skip(next as int)) {
                assert(before + (seq![value] + others) =~= before.push(value) + others);
            }
        }
        at = next;
    }
    proof {
        assert(bytes@.skip(at as int) =~= Seq::<u8>::empty());
        if let Ok(every) = all {
            assert(every =~= records.deep_view());
        }
    }
    Ok(records)
}

/// Whether a packet can be captured and read back.
pub open spec fn capturable(record: ReplayRecordView) -> bool {
    fits(record.timestamp) && fits(record.service_uuid) && fits(record.characteristic_uuid)
        && record.data.len() <= MAX_PAYLOAD_BYTES
}

/// A packet as it is read back: an unknown direction becomes a question mark.
pub open spec fn replayed(record: ReplayRecordView) -> ReplayRecordView {
    ReplayRecordView { direction: label_of(code_of(record.direction)), ..record }
}

/// The bytes of records, one after the other.
pub open spec fn all_record_bytes(records: Seq<ReplayRecordView>) -> Seq<u8>
    decreases records.len(),
{
    if records.len() == 0 {
        Seq::empty()
    } else {
        record_bytes(records[0]) + all_record_bytes(records.skip(1))
    }
}

/// A text field is read back, whatever follows it.
proof fn string_reads_back(value: Seq<char>, later: Seq<u8>)
    requires
        fits(value),
    ensures
        string_at(string_field(value) + later) == Ok::<(Seq<char>, Seq<u8>), BmonError>(
            (value, later),
        ),
{
    let bytes = encode_utf8(value);
    let n = bytes.len();
    let rest = string_field(value) + later;
    reveal(string_at);
    reveal(string_field);
    reveal_with_fuel(le_bytes, 3);
    assert(n % 256 + 256 * ((n / 256) % 256) == n) by (nonlinear_arith)
        requires
            n < 0x1_0000,
    ;
    assert(rest[0] == (n % 256) as u8);
    assert(rest[1] == ((n / 256) % 256) as u8);
    assert(rest.skip(2).take(n as int) =~= bytes);
    assert(rest.skip(2).skip(n as int) =~= later);
    encode_utf8_valid_utf8(value);
    encode_utf8_decode_utf8(value);
}

/// A payload is read back, whatever follows it.
proof fn payload_reads_back(data: Seq<u8>, later: Seq<u8>)
    requires
        data.len() <= MAX_PAYLOAD_BYTES,
    ensures
        payload_at(le_bytes(data.len(), 4) + data + later) == Ok::<(Seq<u8>, Seq<u8>), BmonError>(
            (data, later),
        ),
{
    let n = data.len();
    let head = le_bytes(n, 4);
    let rest = head + data + later;
    reveal(payload_at);
    reveal_with_fuel(le_bytes, 5);
    assert(head.len() == 4);
    assert(rest.take(4) =~= head);
    let little = crate::protocol::Endian::Little;
    assert(numbers::unsigned_value(head, little) == n) by {
        reveal_with_fuel(numbers::unsigned_value, 5);
        assert(n % 256 + 256 * ((n / 256) % 256 + 256 * ((n / 256 / 256) % 256 + 256 * ((n / 256
            / 256 / 256) % 256))) == n) by (nonlinear_arith)
            requires
                n <= 16_777_216,
        ;
    }
    assert(rest.subrange(4, 4 + n as int) =~= data);
    assert(rest.skip(4 + n as int) =~= later);
}

/// A record is read back, whatever follows it.
proof fn record_reads_back(record: ReplayRecordView, later: Seq<u8>)
    requires
        capturable(record),
    ensures
        record_at(record_bytes(record) + later) == Ok::<(ReplayRecordView, Seq<u8>), BmonError>(
            (replayed(record), later),
        ),
{
    let payload = le_bytes(record.data.len(), 4) + record.data + later;
    let name = string_field(record.characteristic_uuid) + payload;
    let service = string_field(record.service_uuid) + name;
    let tail = seq![code_of(record.direction)] + service;
    assert(record_bytes(record) + later =~= string_field(record.timestamp) + tail);
    string_reads_back(record.timestamp, tail);
    assert(tail.skip(1) =~= service);
    string_reads_back(record.service_uuid, name);
    string_reads_back(record.characteristic_uuid, payload);
    payload_reads_back(record.data, later);
    reveal(record_at);
    reveal(record_after);
}

proof fn records_read_back(records: Seq<ReplayRecordView>)
    requires
        forall|i: int| 0 <= i < records.len() ==> capturable(#[trigger] records[i]),
    ensures
        records_from(all_record_bytes(records)) == Ok::<Seq<ReplayRecordView>, BmonError>(
            records.map_values(|record: ReplayRecordView| replayed(record)),
        ),
    decreases records.len(),
{
    let wanted = records.map_values(|record: ReplayRecordView| replayed(record));
    if records.len() == 0 {
        assert(wanted =~= Seq::empty());
    } else {
        let others = records.skip(1);
        let later = all_record_bytes(others);
        records_read_back(others);
        record_reads_back(records[0], later);
        record_at_shrinks(record_bytes(records[0]) + later);
        let wanted_later = others.map_values(|record: ReplayRecordView| replayed(record));
        assert(wanted =~= seq![replayed(records[0])] + wanted_later);
    }
}

/// A capture reads back as it was written: every record comes back, in order, with its texts and
/// its payload; a direction other than `RX`, `RD` and `TX` comes back as `?`.
pub proof fn capture_reads_back(records: Seq<ReplayRecordView>)
    requires
        forall|i: int| 0 <= i < records.len() ==> capturable(#[trigger] records[i]),
    ensures
        capture_records(raw_magic() + all_record_bytes(records)) == Ok::<
            Seq<ReplayRecordView>,
            BmonError,
        >(records.map_values(|record: ReplayRecordView| replayed(record))),
{
    let bytes = raw_magic() + all_record_bytes(records);
    assert(bytes.take(5) =~= raw_magic());
    assert(bytes.skip(5) =~= all_record_bytes(records));
    records_read_back(records);
}

/// No record that is read has a payload over the limit, whatever the file claims.
pub proof fn read_payloads_are_bounded(bytes: Seq<u8>, i: int)
    requires
        capture_records(bytes) is Ok,
        0 <= i < capture_records(bytes)->Ok_0.len(),
    ensures
        capture_records(bytes)->Ok_0[i].data.len() <= MAX_PAYLOAD_BYTES,
{
    payloads_are_bounded(bytes.skip(5), i);
}

proof fn payloads_are_bounded(rest: Seq<u8>, i: int)
    requires
        records_from(rest) is Ok,
        0 <= i < records_from(rest)->Ok_0.len(),
    ensures
        records_from(rest)->Ok_0[i].data.len() <= MAX_PAYLOAD_BYTES,
    decreases rest.len(),
{
    if rest.len() > 0 {
        record_at_shrinks(rest);
        reveal(record_at);
        reveal(record_after);
        reveal(payload_at);
        let (record, later) = record_at(rest)->Ok_0;
        let others = records_from(later)->Ok_0;
        assert(records_from(rest)->Ok_0 == seq![record] + others);
        if i > 0 {
            payloads_are_bounded(later, i - 1);
        }
    }
}

/// A text field that is cut short is refused.
proof fn cut_string_is_refused(value: Seq<char>, k: int)
    requires
        fits(value),
        0 <= k < string_field(value).len(),
    ensures
        string_at(string_field(value).take(k)) is Err,
{
    reveal(string_at);
    reveal(string_field);
    reveal_with_fuel(le_bytes, 3);
    let bytes = encode_utf8(value);
    let n = bytes.len();
    let part = string_field(value).take(k);
    assert(n % 256 + 256 * ((n / 256) % 256) == n) by (nonlinear_arith)
        requires
            n < 0x1_0000,
    ;
    if k >= 2 {
        assert(part[0] == (n % 256) as u8);
        assert(part[1] == ((n / 256) % 256) as u8);
        assert(part.skip(2).len() == k - 2);
    }
}

/// A payload that is cut short is refused.
proof fn cut_payload_is_refused(data: Seq<u8>, k: int)
    requires
        data.len() <= MAX_PAYLOAD_BYTES,
        0 <= k < 4 + data.len(),
    ensures
        payload_at((le_bytes(data.len(), 4) + data).take(k)) is Err,
{
    reveal(payload_at);
    reveal_with_fuel(le_bytes, 5);
    let n = data.len();
    let head = le_bytes(n, 4);
    let part = (head + data).take(k);
    if k >= 4 {
        assert(part.take(4) =~= head);
        let little = crate::protocol::Endian::Little;
        assert(numbers::unsigned_value(head, little) == n) by {
            reveal_with_fuel(numbers::unsigned_value, 5);
            assert(n % 256 + 256 * ((n / 256) % 256 + 256 * ((n / 256 / 256) % 256 + 256 * ((n
                / 256 / 256 / 256) % 256))) == n) by (nonlinear_arith)
                requires
                    n <= 16_777_216,
            ;
        }
    }
}

/// A record that is cut short is refused.
proof fn cut_record_is_refused(record: ReplayRecordView, k: int)
    requires
        capturable(record),
        0 < k < record_bytes(record).len(),
    ensures
        record_at(record_bytes(record).take(k)) is Err,
{
    reveal(record_at);
    reveal(record_after);
    let payload = le_bytes(record.data.len(), 4) + record.data;
    let name = string_field(record.characteristic_uuid);
    let service = string_field(record.service_uuid);
    let stamp = string_field(record.timestamp);
    let code = seq![code_of(record.direction)];
    let whole = record_bytes(record);
    let part = whole.take(k);
    assert(le_bytes(record.data.len(), 4).len() == 4) by {
        reveal_with_fuel(le_bytes, 5);
    }
    assert(whole =~= stamp + (code + (service + (name + payload))));
    let a = stamp.len() as int;
    let b = a + 1 + service.len();
    let c = b + name.len();
    if k < a {
        assert(part =~= stamp.take(k));
        cut_string_is_refused(record.timestamp, k);
    } else {
        let after_stamp = (code + (service + (name + payload))).take(k - a);
        assert(part =~= stamp + after_stamp);
        string_reads_back(record.timestamp, after_stamp);
        if k > a {
            let after_code = after_stamp.skip(1);
            if k < b {
                assert(after_code =~= service.take(k - a - 1));
                cut_string_is_refused(record.service_uuid, k - a - 1);
            } else {
                let after_service = (name + payload).take(k - b);
                assert(after_code =~= service + after_service);
                string_reads_back(record.service_uuid, after_service);
                if k < c {
                    assert(after_service =~= name.take(k - b));
                    cut_string_is_refused(record.characteristic_uuid, k - b);
                } else {
                    let after_name = payload.take(k - c);
                    assert(after_service =~= name + after_name);
                    string_reads_back(record.characteristic_uuid, after_name);
                    cut_payload_is_refused(record.data, k - c);
                }
            }
        }
    }
}

proof fn cut_records_are_refused(records: Seq<ReplayRecordView>, last: ReplayRecordView, k: int)
    requires
        forall|i: int| 0 <= i < records.len() ==> capturable(#[trigger] records[i]),
        capturable(last),
        0 < k < record_bytes(last).len(),
    ensures
        records_from(all_record_bytes(records) + record_bytes(last).take(k)) is Err,
    decreases records.len(),
{
    let tail = record_bytes(last).take(k);
    let whole = all_record_bytes(records) + tail;
    if records.len() == 0 {
        assert(whole =~= tail);
        cut_record_is_refused(last, k);
    } else {
        let others = records.skip(1);
        let later = all_record_bytes(others) + tail;
        cut_records_are_refused(others, last, k);
        assert(whole =~= record_bytes(records[0]) + later);
        record_reads_back(records[0], later);
        record_at_shrinks(whole);
    }
}

/// A capture that ends within a record is refused, not read in part.
pub proof fn cut_captures_are_refused(
    records: Seq<ReplayRecordView>,
    last: ReplayRecordView,
    k: int,
)
    requires
        forall|i: int| 0 <= i < records.len() ==> capturable(#[trigger] records[i]),
        capturable(last),
        0 < k < record_bytes(last).len(),
    ensures
        capture_records(raw_magic() + all_record_bytes(records) + record_bytes(last).take(k)) is Err,
{
    let rest = all_record_bytes(records) + record_bytes(last).take(k);
    let bytes = raw_magic() + all_record_bytes(records) + record_bytes(last).take(k);
    assert(bytes.skip(5) =~= rest);
    cut_records_are_refused(records, last, k);
}

/// The three directions come back as they were.
pub proof fn known_directions_read_back(direction: Seq<char>)
    requires
        direction == "RX"@ || direction == "RD"@ || direction == "TX"@,
    ensures
        label_of(code_of(direction)) == direction,
{
}

/// What a capture session hands out over its life is the header followed by the bytes of each
/// record, so writing one more capturable record adds exactly its bytes.
pub proof fn capturable_records_are_written_whole(record: ReplayRecordView)
    requires
        capturable(record),
    ensures
        written(record) == (record_bytes(record), Ok::<(), CaptureError>(())),
{
}

/// A packet as a capture file holds it: each text with the number of its UTF-8 bytes before it, in
/// two bytes, the direction as a code between the timestamp and the service, and the payload with
/// its length before it, in four bytes. Every number stands with its low byte first.
pub open spec fn laid_out(record: ReplayRecordView) -> Seq<u8> {
    let stamp = encode_utf8(record.timestamp);
    let service = encode_utf8(record.service_uuid);
    let name = encode_utf8(record.characteristic_uuid);
    let n = record.data.len();
    let code: u8 = if record.direction == "RX"@ {
        1
    } else if record.direction == "RD"@ {
        2
    } else if record.direction == "TX"@ {
        3
    } else {
        0
    };
    seq![(stamp.len() % 256) as u8, (stamp.len() / 256) as u8] + stamp + seq![code] + seq![
        (service.len() % 256) as u8,
        (service.len() / 256) as u8,
    ] + service + seq![(name.len() % 256) as u8, (name.len() / 256) as u8] + name + seq![
        (n % 256) as u8,
        (n / 256 % 256) as u8,
        (n / 65_536 % 256) as u8,
        (n / 16_777_216 % 256) as u8,
    ] + record.data
}

/// A capture file starts with `BMON` and the number one, and each packet that fits is written in
/// the layout of the format. One with a text of more than 65535 bytes is refused.
pub proof fn packets_are_written_in_the_format(record: ReplayRecordView)
    ensures
        raw_magic() == seq!['B' as u8, 'M' as u8, 'O' as u8, 'N' as u8, 1u8],
        encode_utf8(record.timestamp).len() <= 65_535 && encode_utf8(record.service_uuid).len()
            <= 65_535 && encode_utf8(record.characteristic_uuid).len() <= 65_535 ==> written(record)
            == (laid_out(record), Ok::<(), CaptureError>(())),
        encode_utf8(record.timestamp).len() > 65_535 || encode_utf8(record.service_uuid).len()
            > 65_535 || encode_utf8(record.characteristic_uuid).len() > 65_535 ==> written(record).1
            == Err::<(), CaptureError>(CaptureError::StringTooLong),
{
    assert(raw_magic() =~= seq!['B' as u8, 'M' as u8, 'O' as u8, 'N' as u8, 1u8]);
    if fits(record.timestamp) && fits(record.service_uuid) && fits(record.characteristic_uuid) {
        text_field_layout(record.timestamp);
        text_field_layout(record.service_uuid);
        text_field_layout(record.characteristic_uuid);
        number_layout(record.data.len());
        assert(record_bytes(record) =~= laid_out(record));
    }
}

proof fn text_field_layout(value: Seq<char>)
    requires
        fits(value),
    ensures
        ({
            let n = encode_utf8(value).len();
            string_field(value) == seq![(n % 256) as u8, (n / 256) as u8] + encode_utf8(value)
        }),
{
    reveal(string_field);
    reveal_with_fuel(le_bytes, 3);
    let n = encode_utf8(value).len();
    assert(le_bytes(n, 2) =~= seq![(n % 256) as u8, (n / 256) as u8]);
}

proof fn number_layout(n: nat)
    ensures
        le_bytes(n, 4) == seq![
            (n % 256) as u8,
            (n / 256 % 256) as u8,
            (n / 65_536 % 256) as u8,
            (n / 16_777_216 % 256) as u8,
        ],
{
    reveal_with_fuel(le_bytes, 5);
    assert(n / 256 / 256 == n / 65_536);
    assert(n / 256 / 256 / 256 == n / 16_777_216);
    assert(le_bytes(n, 4) =~= seq![
        (n % 256) as u8,
        (n / 256 % 256) as u8,
        (n / 65_536 % 256) as u8,
        (n / 16_777_216 % 256) as u8,
    ]);
}

/// The packets of a capture file, one after the other.
pub open spec fn all_laid_out(records: Seq<ReplayRecordView>) -> Seq<u8>
    decreases records.len(),
{
    if records.len() == 0 {
        Seq::empty()
    } else {
        laid_out(records[0]) + all_laid_out(records.skip(1))
    }
}

/// A file in the format is read as its packets: all of them, in order, with their texts and their
/// payloads of up to sixteen mebibytes. The directions `RX`, `RD` and `TX` are read as they are, any
/// other one as a question mark.
pub proof fn files_in_the_format_are_read(records: Seq<ReplayRecordView>)
    requires
        forall|i: int|
            0 <= i < records.len() ==> encode_utf8((#[trigger] records[i]).timestamp).len()
                <= 65_535 && encode_utf8(records[i].service_uuid).len() <= 65_535 && encode_utf8(
                records[i].characteristic_uuid,
            ).len() <= 65_535 && records[i].data.len() <= 16_777_216,
    ensures
        ({
            let file = seq![0x42u8, 0x4Du8, 0x4Fu8, 0x4Eu8, 1u8] + all_laid_out(records);
            &&& capture_records(file) is Ok
            &&& capture_records(file)->Ok_0.len() == records.len()
            &&& forall|i: int|
                0 <= i < records.len() ==> ({
                    let found = #[trigger] capture_records(file)->Ok_0[i];
                    let known = records[i].direction == "RX"@ || records[i].direction == "RD"@
                        || records[i].direction == "TX"@;
                    &&& found.timestamp == records[i].timestamp
                    &&& found.service_uuid == records[i].service_uuid
                    &&& found.characteristic_uuid == records[i].characteristic_uuid
                    &&& found.data == records[i].data
                    &&& known ==> found.direction == records[i].direction
                    &&& !known ==> found.direction == "?"@
                })
        }),
{
    layouts_agree(records);
    capture_reads_back(records);
    assert(raw_magic() =~= seq![0x42u8, 0x4Du8, 0x4Fu8, 0x4Eu8, 1u8]);
    reveal_strlit("RX");
    reveal_strlit("RD");
    reveal_strlit("TX");
}

proof fn layouts_agree(records: Seq<ReplayRecordView>)
    requires
        forall|i: int| 0 <= i < records.len() ==> capturable(#[trigger] records[i]),
    ensures
        all_laid_out(records) == all_record_bytes(records),
    decreases records.len(),
{
    if records.len() > 0 {
        packets_are_written_in_the_format(records[0]);
        assert forall|i: int| 0 <= i < records.skip(1).len() implies capturable(
            #[trigger] records.skip(1)[i],
        ) by {
            assert(records.skip(1)[i] == records[i + 1]);
        }
        layouts_agree(records.skip(1));
    }
}

/// A file that is shorter than the header, or does not start with it, is no capture.
pub proof fn foreign_files_are_refused(bytes: Seq<u8>)
    ensures
        bytes.len() < 5 ==> capture_records(bytes) == Err::<Seq<ReplayRecordView>, BmonError>(
            BmonError::HeaderTruncated,
        ),
        bytes.len() >= 5 && !(bytes[0] == 0x42 && bytes[1] == 0x4D && bytes[2] == 0x4F && bytes[3]
            == 0x4E && bytes[4] == 1) ==> capture_records(bytes) == Err::<
            Seq<ReplayRecordView>,
            BmonError,
        >(BmonError::NotBmon),
        bytes =~= seq![0x42u8, 0x4Du8, 0x4Fu8, 0x4Eu8, 1u8] ==> capture_records(bytes) == Ok::<
            Seq<ReplayRecordView>,
            BmonError,
        >(Seq::empty()),
{
    if bytes.len() >= 5 {
        let head = bytes.take(5);
        assert(head[0] == bytes[0] && head[1] == bytes[1] && head[2] == bytes[2] && head[3]
            == bytes[3] && head[4] == bytes[4]);
        assert(head == raw_magic() ==> head[0] == 0x42 && head[1] == 0x4D && head[2] == 0x4F
            && head[3] == 0x4E && head[4] == 1);
        if bytes =~= seq![0x42u8, 0x4Du8, 0x4Fu8, 0x4Eu8, 1u8] {
            assert(head =~= raw_magic());
        }
    }
}

/// What is wrong with a text field: its length is cut off, its bytes are cut off, or they are not
/// UTF-8. Otherwise it is the text of as many bytes as the length says, the low byte first.
pub proof fn text_fields_are_checked(rest: Seq<u8>, low: u8, high: u8, bytes: Seq<u8>)
    ensures
        rest.len() < 2 ==> string_at(rest) == Err::<(Seq<char>, Seq<u8>), BmonError>(
            BmonError::StringLengthTruncated,
        ),
        ({
            let length = low + 256 * high;
            let field = seq![low, high] + bytes;
            &&& bytes.len() < length ==> string_at(field) == Err::<
                (Seq<char>, Seq<u8>),
                BmonError,
            >(BmonError::StringTruncated)
            &&& bytes.len() >= length && !valid_utf8(bytes.take(length)) ==> string_at(field)
                == Err::<(Seq<char>, Seq<u8>), BmonError>(BmonError::NotUtf8)
            &&& bytes.len() >= length && valid_utf8(bytes.take(length)) ==> string_at(field)
                == Ok::<(Seq<char>, Seq<u8>), BmonError>(
                (decode_utf8(bytes.take(length)), bytes.skip(length)),
            )
        }),
{
    reveal(string_at);
    let field = seq![low, high] + bytes;
    assert(field.skip(2) =~= bytes);
}

/// What is wrong with a payload: its length is cut off or over sixteen mebibytes, or its bytes are
/// cut off. Otherwise it is as many bytes as the length says, the low byte first.
pub proof fn payloads_are_checked(rest: Seq<u8>, a: u8, b: u8, c: u8, d: u8, bytes: Seq<u8>)
    ensures
        rest.len() < 4 ==> payload_at(rest) == Err::<(Seq<u8>, Seq<u8>), BmonError>(
            BmonError::NumberTruncated,
        ),
        ({
            let length = a + 256 * b + 65_536 * c + 16_777_216 * d;
            let field = seq![a, b, c, d] + bytes;
            &&& length > 16_777_216 ==> payload_at(field) == Err::<(Seq<u8>, Seq<u8>), BmonError>(
                BmonError::PayloadTooLarge(length as usize),
            )
            &&& length <= 16_777_216 && bytes.len() < length ==> payload_at(field) == Err::<
                (Seq<u8>, Seq<u8>),
                BmonError,
            >(BmonError::PayloadTruncated)
            &&& length <= 16_777_216 && bytes.len() >= length ==> payload_at(field) == Ok::<
                (Seq<u8>, Seq<u8>),
                BmonError,
            >((bytes.take(length), bytes.skip(length)))
        }),
{
    reveal(payload_at);
    let field = seq![a, b, c, d] + bytes;
    let length = a + 256 * b + 65_536 * c + 16_777_216 * d;
    assert(field.take(4) =~= seq![a, b, c, d]);
    reveal_with_fuel(numbers::unsigned_value, 5);
    assert(numbers::unsigned_value(seq![a, b, c, d], crate::protocol::Endian::Little) == length);
    if length <= 16_777_216 && bytes.len() >= length {
        assert(field.subrange(4, 4 + length) =~= bytes.take(length));
        assert(field.skip(4 + length) =~= bytes.skip(length));
    }
}

/// A record is read field by field, and the first field that is wrong decides the error.
pub proof fn first_wrong_field_decides(rest: Seq<u8>)
    ensures
        rest.len() > 0 && string_at(rest) is Err ==> records_from(rest) is Err
            && records_from(rest)->Err_0 == string_at(rest)->Err_0,
        string_at(rest) matches Ok((stamp, after)) ==> ({
            &&& after.len() == 0 ==> records_from(rest) == Err::<
                Seq<ReplayRecordView>,
                BmonError,
            >(BmonError::DirectionTruncated)
            &&& after.len() > 0 ==> match string_at(after.skip(1)) {
                Err(error) => records_from(rest) == Err::<Seq<ReplayRecordView>, BmonError>(error),
                Ok((service, later)) => match string_at(later) {
                    Err(error) => records_from(rest) == Err::<Seq<ReplayRecordView>, BmonError>(
                        error,
                    ),
                    Ok((name, end)) => match payload_at(end) {
                        Err(error) => records_from(rest) == Err::<
                            Seq<ReplayRecordView>,
                            BmonError,
                        >(error),
                        Ok((data, next)) => match records_from(next) {
                            Err(error) => records_from(rest) == Err::<
                                Seq<ReplayRecordView>,
                                BmonError,
                            >(error),
                            Ok(others) => records_from(rest) is Ok && records_from(rest)->Ok_0.len()
                                == others.len() + 1 && records_from(rest)->Ok_0[0].timestamp
                                == stamp && records_from(rest)->Ok_0[0].service_uuid == service
                                && records_from(rest)->Ok_0[0].characteristic_uuid == name
                                && records_from(rest)->Ok_0[0].data == data,
                        },
                    },
                },
            }
        }),
{
    reveal(record_at);
    reveal(record_after);
    reveal(string_at);
}

/// A row of the table shows the packet: its texts, the number of its bytes, the bytes in HEX
/// notation, which reads back as these bytes, and each byte as its ASCII character or a dot.
pub proof fn rows_show_the_packet(record: ReplayRecordView)
    requires
        record.data.len() <= usize::MAX,
    ensures
        ({
            let row = csv_row(record);
            &&& row.timestamp == record.timestamp && row.direction == record.direction
            &&& row.service_uuid == record.service_uuid
            &&& row.characteristic_uuid == record.characteristic_uuid
            &&& row.length == record.data.len()
            &&& codec::hex_result(row.hex) == Ok::<Seq<u8>, Option<Seq<char>>>(record.data)
            &&& row.ascii.len() == record.data.len()
            &&& forall|i: int|
                0 <= i < record.data.len() ==> #[trigger] row.ascii[i] == if 32 <= record.data[i]
                    <= 126 {
                    record.data[i] as char
                } else {
                    '.'
                }
        }),
{
    codec::hex_notation_reads_back(record.data);
}

/// Of a packet that is refused only what stands before the text that is too long is written.
pub proof fn refused_packets_are_written_in_part(record: ReplayRecordView)
    ensures
        ({
            let stamp = encode_utf8(record.timestamp);
            let service = encode_utf8(record.service_uuid);
            let name = encode_utf8(record.characteristic_uuid);
            let code: u8 = if record.direction == "RX"@ {
                1
            } else if record.direction == "RD"@ {
                2
            } else if record.direction == "TX"@ {
                3
            } else {
                0
            };
            let first = seq![(stamp.len() % 256) as u8, (stamp.len() / 256) as u8] + stamp
                + seq![code];
            &&& stamp.len() > 65_535 ==> written(record).0.len() == 0
            &&& stamp.len() <= 65_535 && service.len() > 65_535 ==> written(record).0 == first
            &&& stamp.len() <= 65_535 && service.len() <= 65_535 && name.len() > 65_535 ==> written(
                record,
            ).0 == first + seq![(service.len() % 256) as u8, (service.len() / 256) as u8] + service
        }),
{
    if fits(record.timestamp) {
        text_field_layout(record.timestamp);
        if fits(record.service_uuid) {
            text_field_layout(record.service_uuid);
            let service = encode_utf8(record.service_uuid);
            assert(string_field(record.timestamp) + seq![code_of(record.direction)] + string_field(
                record.service_uuid,
            ) =~= string_field(record.timestamp) + seq![code_of(record.direction)] + seq![
                (service.len() % 256) as u8,
                (service.len() / 256) as u8,
            ] + service);
        }
    }
}

} // verus!
