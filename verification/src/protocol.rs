//! Stream protocol analysis: frame boundaries, checksums and named fields.

use crate::lists;
use crate::numbers;
use crate::numbers::F64Bits;
use crate::plotting;
use crate::plotting::{PlotValueType, ScaledValue};
use crc::{Crc, CRC_16_IBM_SDLC, CRC_16_MODBUS, CRC_16_XMODEM, CRC_8_SMBUS};
use std::collections::VecDeque;
use vstd::prelude::*;
#[allow(unused_imports)]
use vstd::string::*;

verus! {

/// The most bytes that wait for the rest of a frame.
pub const MAX_BUFFER_BYTES: usize = 1_048_576;

/// The longest frame that is cut out of a stream.
pub const MAX_FRAME_BYTES: usize = 65_536;

/// The longest delimiter.
pub const MAX_DELIMITER_BYTES: usize = 256;

/// The last offset at which a length field may stand.
pub const MAX_LENGTH_OFFSET: usize = 4_096;

/// The byte order of a number.
#[derive(Debug, Clone, Copy, PartialEq, Eq, Structural)]
pub enum Endian {
    Little,
    Big,
}

impl Default for Endian {
    fn default() -> (r: Self)
        ensures
            r == Endian::Little,
    {
        Endian::Little
    }
}

impl Endian {
    /// Every value, in the order of the selector.
    pub const ALL: [Endian; 2] = [
        Endian::Little,
        Endian::Big,
    ];

    /// The name shown to the user.
    pub fn label(self) -> (r: &'static str)
        ensures
            r@ == match self {
                Endian::Little => "LE"@,
                Endian::Big => "BE"@,
            },
    {
        match self {
            Endian::Little => "LE",
            Endian::Big => "BE",
        }
    }
}

/// Where one frame ends and the next begins.
#[derive(Debug, PartialEq, Eq)]
pub enum FrameMode {
    /// Every packet is one frame.
    BlePacket,
    /// Every frame has the same length.
    FixedLength {
        length: usize,
    },
    /// A byte sequence ends each frame; `keep` leaves it in the frame.
    Delimiter {
        delimiter: Vec<u8>,
        keep: bool,
    },
    /// Each frame holds its length.
    LengthField {
        offset: usize,
        width: usize,
        endian: Endian,
        adjustment: i32,
    },
}

/// The mathematical value of [`FrameMode`].
#[verifier::ext_equal]
pub enum FrameModeView {
    BlePacket,
    FixedLength { length: usize },
    Delimiter { delimiter: Seq<u8>, keep: bool },
    LengthField { offset: usize, width: usize, endian: Endian, adjustment: i32 },
}

impl DeepView for FrameMode {
    type V = FrameModeView;

    open spec fn deep_view(&self) -> FrameModeView {
        match *self {
            FrameMode::BlePacket => FrameModeView::BlePacket,
            FrameMode::FixedLength { length } => FrameModeView::FixedLength {
                length,
            },
            FrameMode::Delimiter { delimiter, keep } => FrameModeView::Delimiter {
                delimiter: delimiter@,
                keep,
            },
            FrameMode::LengthField { offset, width, endian, adjustment } => FrameModeView::LengthField {
                offset,
                width,
                endian,
                adjustment,
            },
        }
    }
}

impl Clone for FrameMode {
    fn clone(&self) -> (r: Self)
        ensures
            r.deep_view() == self.deep_view(),
    {
        match self {
            FrameMode::BlePacket => FrameMode::BlePacket,
            FrameMode::FixedLength { length } => FrameMode::FixedLength {
                length: *length,
            },
            FrameMode::Delimiter { delimiter, keep } => {
                let delimiter_copy = delimiter.clone();
                assert(delimiter_copy@ =~= delimiter@);
                FrameMode::Delimiter {
                    delimiter: delimiter_copy,
                    keep: *keep,
                }
            },
            FrameMode::LengthField { offset, width, endian, adjustment } => FrameMode::LengthField {
                offset: *offset,
                width: *width,
                endian: *endian,
                adjustment: *adjustment,
            },
        }
    }
}

impl Default for FrameMode {
    fn default() -> (r: Self)
        ensures
            r.deep_view() == FrameModeView::BlePacket,
    {
        FrameMode::BlePacket
    }
}

impl FrameMode {
    /// The name shown to the user.
    pub fn label(&self) -> (r: &'static str)
        ensures
            r@ == match self.deep_view() {
                FrameModeView::BlePacket => "BLE packet"@,
                FrameModeView::FixedLength { .. } => "Fixed length"@,
                FrameModeView::Delimiter { .. } => "Delimiter"@,
                FrameModeView::LengthField { .. } => "Length field"@,
            },
    {
        match self {
            FrameMode::BlePacket => "BLE packet",
            FrameMode::FixedLength { .. } => "Fixed length",
            FrameMode::Delimiter { .. } => "Delimiter",
            FrameMode::LengthField { .. } => "Length field",
        }
    }

    /// Whether two modes are the same.
    pub fn same(&self, other: &FrameMode) -> (r: bool)
        ensures
            r == (self.deep_view() == other.deep_view()),
    {
        match (self, other) {
            (FrameMode::BlePacket, FrameMode::BlePacket) => true,
            (FrameMode::FixedLength { length: a }, FrameMode::FixedLength { length: b }) => *a == *b,
            (
                FrameMode::Delimiter { delimiter: a, keep: a_in },
                FrameMode::Delimiter { delimiter: b, keep: b_in },
            ) => same_bytes(a.as_slice(), b.as_slice()) && *a_in == *b_in,
            (
                FrameMode::LengthField { offset: a, width: a_width, endian: a_order, adjustment: a_add },
                FrameMode::LengthField { offset: b, width: b_width, endian: b_order, adjustment: b_add },
            ) => *a == *b && *a_width == *b_width && *a_order == *b_order && *a_add == *b_add,
            _ => false,
        }
    }
}

/// Whether two byte strings are equal.
pub fn same_bytes(a: &[u8], b: &[u8]) -> (r: bool)
    ensures
        r == (a@ == b@),
{
    if a.len() != b.len() {
        return false;
    }
    let mut i: usize = 0;
    while i < a.len()
        invariant
            i <= a@.len(),
            a@.len() == b@.len(),
            forall|j: int| 0 <= j < i ==> a@[j] == b@[j],
        decreases a@.len() - i,
    {
        if a[i] != b[i] {
            return false;
        }
        i = i + 1;
    }
    assert(a@ =~= b@);
    true
}

/// The checksum at the end of each frame.
#[derive(Debug, Clone, Copy, PartialEq, Eq, Structural)]
pub enum CrcMode {
    NoCrc,
    Crc8SmbusTail,
    Crc16ModbusLeTail,
    Crc16ModbusBeTail,
    Crc16XmodemBeTail,
    Crc16IbmSdlcLeTail,
}

impl Default for CrcMode {
    fn default() -> (r: Self)
        ensures
            r == CrcMode::NoCrc,
    {
        CrcMode::NoCrc
    }
}

impl CrcMode {
    /// Every value, in the order of the selector.
    pub const ALL: [CrcMode; 6] = [
        CrcMode::NoCrc,
        CrcMode::Crc8SmbusTail,
        CrcMode::Crc16ModbusLeTail,
        CrcMode::Crc16ModbusBeTail,
        CrcMode::Crc16XmodemBeTail,
        CrcMode::Crc16IbmSdlcLeTail,
    ];

    /// The name shown to the user.
    pub fn label(self) -> (r: &'static str)
        ensures
            r@ == match self {
                CrcMode::NoCrc => "None"@,
                CrcMode::Crc8SmbusTail => "CRC-8/SMBUS tail"@,
                CrcMode::Crc16ModbusLeTail => "CRC-16/MODBUS LE tail"@,
                CrcMode::Crc16ModbusBeTail => "CRC-16/MODBUS BE tail"@,
                CrcMode::Crc16XmodemBeTail => "CRC-16/XMODEM BE tail"@,
                CrcMode::Crc16IbmSdlcLeTail => "CRC-16/IBM-SDLC LE tail"@,
            },
    {
        match self {
            CrcMode::NoCrc => "None",
            CrcMode::Crc8SmbusTail => "CRC-8/SMBUS tail",
            CrcMode::Crc16ModbusLeTail => "CRC-16/MODBUS LE tail",
            CrcMode::Crc16ModbusBeTail => "CRC-16/MODBUS BE tail",
            CrcMode::Crc16XmodemBeTail => "CRC-16/XMODEM BE tail",
            CrcMode::Crc16IbmSdlcLeTail => "CRC-16/IBM-SDLC LE tail",
        }
    }
}

/// How many bytes a checksum takes.
pub open spec fn crc_width(mode: CrcMode) -> nat {
    match mode {
        CrcMode::NoCrc => 0,
        CrcMode::Crc8SmbusTail => 1,
        _ => 2,
    }
}

impl CrcMode {
    /// How many bytes the checksum takes.
    pub fn width(self) -> (r: usize)
        ensures
            r == crc_width(self),
    {
        match self {
            CrcMode::NoCrc => 0,
            CrcMode::Crc8SmbusTail => 1,
            _ => 2,
        }
    }
}

/// What became of the checksum of a frame.
#[derive(Debug, Clone, Copy, PartialEq, Eq, Structural)]
pub enum CrcStatus {
    /// No checksum is expected.
    Disabled,
    Valid,
    Invalid,
    /// The frame has no room for the checksum and a body.
    TooShort,
}

impl CrcStatus {
    /// The name shown to the user.
    pub fn label(self) -> (r: &'static str)
        ensures
            r@ == match self {
                CrcStatus::Disabled => "-"@,
                CrcStatus::Valid => "OK"@,
                CrcStatus::Invalid => "BAD"@,
                CrcStatus::TooShort => "SHORT"@,
            },
    {
        match self {
            CrcStatus::Disabled => "-",
            CrcStatus::Valid => "OK",
            CrcStatus::Invalid => "BAD",
            CrcStatus::TooShort => "SHORT",
        }
    }
}

/// A named value in a frame.
#[derive(Debug, PartialEq)]
pub struct FieldDefinition {
    pub name: String,
    pub offset: usize,
    pub value_type: PlotValueType,
    pub scale: F64Bits,
    pub bias: F64Bits,
}

/// The mathematical value of [`FieldDefinition`].
#[verifier::ext_equal]
pub struct FieldDefinitionView {
    pub name: Seq<char>,
    pub offset: usize,
    pub value_type: PlotValueType,
    pub scale: F64Bits,
    pub bias: F64Bits,
}

impl DeepView for FieldDefinition {
    type V = FieldDefinitionView;

    open spec fn deep_view(&self) -> FieldDefinitionView {
        FieldDefinitionView {
            name: self.name@,
            offset: self.offset,
            value_type: self.value_type,
            scale: self.scale,
            bias: self.bias,
        }
    }
}

impl Clone for FieldDefinition {
    fn clone(&self) -> (r: Self)
        ensures
            r.deep_view() == self.deep_view(),
    {
        FieldDefinition {
            name: self.name.clone(),
            offset: self.offset,
            value_type: self.value_type,
            scale: self.scale,
            bias: self.bias,
        }
    }
}

/// The field of a new configuration.
pub open spec fn default_field() -> FieldDefinitionView {
    FieldDefinitionView {
        name: "value"@,
        offset: 0,
        value_type: PlotValueType::U8,
        scale: F64Bits { bits: numbers::ONE_BITS },
        bias: F64Bits { bits: 0 },
    }
}

impl Default for FieldDefinition {
    fn default() -> (r: Self)
        ensures
            r.deep_view() == default_field(),
    {
        FieldDefinition {
            name: "value".to_owned(),
            offset: 0,
            value_type: PlotValueType::U8,
            scale: F64Bits::one(),
            bias: F64Bits::zero(),
        }
    }
}

/// How a stream is cut into frames and what they hold.
#[derive(Debug, PartialEq)]
pub struct ProtocolConfig {
    pub enabled: bool,
    pub frame_mode: FrameMode,
    pub crc: CrcMode,
    pub fields: Vec<FieldDefinition>,
}

/// The mathematical value of [`ProtocolConfig`].
#[verifier::ext_equal]
pub struct ProtocolConfigView {
    pub enabled: bool,
    pub frame_mode: FrameModeView,
    pub crc: CrcMode,
    pub fields: Seq<FieldDefinitionView>,
}

impl DeepView for ProtocolConfig {
    type V = ProtocolConfigView;

    open spec fn deep_view(&self) -> ProtocolConfigView {
        ProtocolConfigView {
            enabled: self.enabled,
            frame_mode: self.frame_mode.deep_view(),
            crc: self.crc,
            fields: self.fields.deep_view(),
        }
    }
}

impl Clone for ProtocolConfig {
    fn clone(&self) -> (r: Self)
        ensures
            r.deep_view() == self.deep_view(),
    {
        let r = ProtocolConfig {
            enabled: self.enabled,
            frame_mode: self.frame_mode.clone(),
            crc: self.crc,
            fields: self.fields.clone(),
        };
        assert(r.fields.deep_view() =~= self.fields.deep_view());
        r
    }
}

/// A configuration that is off.
pub open spec fn default_config() -> ProtocolConfigView {
    ProtocolConfigView {
        enabled: false,
        frame_mode: FrameModeView::BlePacket,
        crc: CrcMode::NoCrc,
        fields: seq![default_field()],
    }
}

impl Default for ProtocolConfig {
    fn default() -> (r: Self)
        ensures
            r.deep_view() == default_config(),
    {
        let mut fields: Vec<FieldDefinition> = Vec::new();
        fields.push(FieldDefinition::default());
        assert(fields.deep_view() =~= seq![default_field()]);
        ProtocolConfig {
            enabled: false,
            frame_mode: FrameMode::BlePacket,
            crc: CrcMode::NoCrc,
            fields,
        }
    }
}

/// Whether two fields are equal, with the scale and the bias compared as numbers.
pub open spec fn same_field(a: FieldDefinitionView, b: FieldDefinitionView) -> bool {
    a.name == b.name && a.offset == b.offset && a.value_type == b.value_type && numbers::equal_64(
        a.scale,
        b.scale,
    ) && numbers::equal_64(a.bias, b.bias)
}

/// Whether two configurations are equal, with their fields compared by [`same_field`].
pub open spec fn same_config(a: ProtocolConfigView, b: ProtocolConfigView) -> bool {
    a.enabled == b.enabled && a.frame_mode == b.frame_mode && a.crc == b.crc && a.fields.len()
        == b.fields.len() && forall|i: int|
        0 <= i < a.fields.len() ==> same_field(#[trigger] a.fields[i], b.fields[i])
}

impl FieldDefinition {
    fn same(&self, other: &FieldDefinition) -> (r: bool)
        ensures
            r == same_field(self.deep_view(), other.deep_view()),
    {
        self.name == other.name && self.offset == other.offset && self.value_type
            == other.value_type && self.scale == other.scale && self.bias == other.bias
    }
}

impl ProtocolConfig {
    /// Whether two configurations are equal. A field whose scale or bias is NaN equals none.
    pub fn same(&self, other: &ProtocolConfig) -> (r: bool)
        ensures
            r == same_config(self.deep_view(), other.deep_view()),
    {
        if self.enabled != other.enabled || !self.frame_mode.same(&other.frame_mode) || self.crc
            != other.crc || self.fields.len() != other.fields.len() {
            return false;
        }
        let ghost mine = self.deep_view().fields;
        let ghost theirs = other.deep_view().fields;
        let mut i: usize = 0;
        while i < self.fields.len()
            invariant
                i <= self.fields@.len(),
                self.fields@.len() == other.fields@.len(),
                mine == self.deep_view().fields,
                theirs == other.deep_view().fields,
                forall|j: int| 0 <= j < i ==> same_field(#[trigger] mine[j], theirs[j]),
            decreases self.fields@.len() - i,
        {
            assert(mine[i as int] == self.fields@[i as int].deep_view());
            assert(theirs[i as int] == other.fields@[i as int].deep_view());
            if !self.fields[i].same(&other.fields[i]) {
                return false;
            }
            i = i + 1;
        }
        true
    }
}

/// A field with its value in one frame; the value is missing where the frame does not hold it.
#[derive(Debug, PartialEq)]
pub struct DecodedField {
    pub name: String,
    pub value: Option<ScaledValue>,
}

/// The mathematical value of [`DecodedField`].
#[verifier::ext_equal]
pub struct DecodedFieldView {
    pub name: Seq<char>,
    pub value: Option<ScaledValue>,
}

impl DeepView for DecodedField {
    type V = DecodedFieldView;

    open spec fn deep_view(&self) -> DecodedFieldView {
        DecodedFieldView {
            name: self.name@,
            value: self.value,
        }
    }
}

impl Clone for DecodedField {
    fn clone(&self) -> (r: Self)
        ensures
            r.deep_view() == self.deep_view(),
    {
        DecodedField {
            name: self.name.clone(),
            value: self.value,
        }
    }
}

/// A frame with its checksum verdict and its fields.
#[derive(Debug, PartialEq)]
pub struct DecodedFrame {
    pub data: Vec<u8>,
    pub crc: CrcStatus,
    pub fields: Vec<DecodedField>,
}

/// The mathematical value of [`DecodedFrame`].
#[verifier::ext_equal]
pub struct DecodedFrameView {
    pub data: Seq<u8>,
    pub crc: CrcStatus,
    pub fields: Seq<DecodedFieldView>,
}

impl DeepView for DecodedFrame {
    type V = DecodedFrameView;

    open spec fn deep_view(&self) -> DecodedFrameView {
        DecodedFrameView {
            data: self.data@,
            crc: self.crc,
            fields: self.fields.deep_view(),
        }
    }
}

impl Clone for DecodedFrame {
    fn clone(&self) -> (r: Self)
        ensures
            r.deep_view() == self.deep_view(),
    {
        let r = DecodedFrame {
            data: self.data.clone(),
            crc: self.crc,
            fields: self.fields.clone(),
        };
        assert(r.data@ =~= self.data@);
        assert(r.fields.deep_view() =~= self.fields.deep_view());
        r
    }
}

/// A decoder that turns packets into frames.
pub trait ProtocolDecoder {
    /// Takes over a configuration.
    fn configure(&mut self, config: &ProtocolConfig);

    /// Forgets the bytes that wait for the rest of a frame.
    fn reset(&mut self);

    /// Takes a packet and returns the frames that it completes.
    fn push(&mut self, data: &[u8]) -> (r: Vec<DecodedFrame>);

    /// How many bytes wait for the rest of a frame.
    fn buffered_bytes(&self) -> (r: usize);
}

/// The value of a field in a frame.
pub open spec fn decoded_field(data: Seq<u8>, field: FieldDefinitionView) -> DecodedFieldView {
    DecodedFieldView {
        name: field.name,
        value: match plotting::value_at(data, field.offset as nat, field.value_type) {
            Some(raw) => Some(ScaledValue { raw, scale: field.scale, bias: field.bias }),
            None => None,
        },
    }
}

/// A frame with its checksum verdict and the value of every configured field.
pub open spec fn decoded_frame(data: Seq<u8>, config: ProtocolConfigView) -> DecodedFrameView {
    DecodedFrameView {
        data,
        crc: crc_status(data, config.crc),
        fields: Seq::new(config.fields.len(), |i: int| decoded_field(data, config.fields[i])),
    }
}

/// Checks the checksum of a frame and reads its fields.
pub fn decode_frame(data: Vec<u8>, config: &ProtocolConfig) -> (r: DecodedFrame)
    ensures
        r.deep_view() == decoded_frame(data@, config.deep_view()),
{
    let crc = validate_crc(data.as_slice(), config.crc);
    let mut fields: Vec<DecodedField> = Vec::new();
    let ghost all = config.deep_view().fields;
    let mut i: usize = 0;
    while i < config.fields.len()
        invariant
            i <= config.fields@.len(),
            all == config.deep_view().fields,
            fields.deep_view() =~= Seq::new(i as nat, |j: int| decoded_field(data@, all[j])),
        decreases config.fields@.len() - i,
    {
        let field = &config.fields[i];
        assert(all[i as int] == field.deep_view());
        let value = match plotting::decode_value(data.as_slice(), field.offset, field.value_type) {
            Some(raw) => Some(ScaledValue { raw, scale: field.scale, bias: field.bias }),
            None => None,
        };
        let ghost before = fields.deep_view();
        fields.push(DecodedField { name: field.name.clone(), value });
        assert(fields.deep_view() =~= before.push(decoded_field(data@, all[i as int])));
        i = i + 1;
    }
    DecodedFrame { data, crc, fields }
}

/// The CRC-8/SMBUS checksum of a byte string, as the `crc` crate computes it.
pub uninterp spec fn crc_8_smbus(body: Seq<u8>) -> u8;

/// The CRC-16/MODBUS checksum of a byte string, as the `crc` crate computes it.
pub uninterp spec fn crc_16_modbus(body: Seq<u8>) -> u16;

/// The CRC-16/XMODEM checksum of a byte string, as the `crc` crate computes it.
pub uninterp spec fn crc_16_xmodem(body: Seq<u8>) -> u16;

/// The CRC-16/IBM-SDLC checksum of a byte string, as the `crc` crate computes it.
pub uninterp spec fn crc_16_ibm_sdlc(body: Seq<u8>) -> u16;

/// `crc::Crc::<u8>::checksum` for the algorithm `CRC_8_SMBUS`: the result depends on the bytes
/// alone.
#[verifier::external_body]
fn checksum_8_smbus(body: &[u8]) -> (r: u8)
    ensures
        r == crc_8_smbus(body@),
{
    Crc::<u8>::new(&CRC_8_SMBUS).checksum(body)
}

/// `crc::Crc::<u16>::checksum` for the algorithm `CRC_16_MODBUS`: the result depends on the
/// bytes alone.
#[verifier::external_body]
fn checksum_16_modbus(body: &[u8]) -> (r: u16)
    ensures
        r == crc_16_modbus(body@),
{
    Crc::<u16>::new(&CRC_16_MODBUS).checksum(body)
}

/// `crc::Crc::<u16>::checksum` for the algorithm `CRC_16_XMODEM`: the result depends on the
/// bytes alone.
#[verifier::external_body]
fn checksum_16_xmodem(body: &[u8]) -> (r: u16)
    ensures
        r == crc_16_xmodem(body@),
{
    Crc::<u16>::new(&CRC_16_XMODEM).checksum(body)
}

/// `crc::Crc::<u16>::checksum` for the algorithm `CRC_16_IBM_SDLC`: the result depends on the
/// bytes alone.
#[verifier::external_body]
fn checksum_16_ibm_sdlc(body: &[u8]) -> (r: u16)
    ensures
        r == crc_16_ibm_sdlc(body@),
{
    Crc::<u16>::new(&CRC_16_IBM_SDLC).checksum(body)
}

/// The checksum that a mode asks for.
pub open spec fn checksum_of(body: Seq<u8>, mode: CrcMode) -> u16 {
    match mode {
        CrcMode::NoCrc => 0,
        CrcMode::Crc8SmbusTail => crc_8_smbus(body) as u16,
        CrcMode::Crc16ModbusLeTail => crc_16_modbus(body),
        CrcMode::Crc16ModbusBeTail => crc_16_modbus(body),
        CrcMode::Crc16XmodemBeTail => crc_16_xmodem(body),
        CrcMode::Crc16IbmSdlcLeTail => crc_16_ibm_sdlc(body),
    }
}

/// A checksum as it stands at the end of a frame.
pub open spec fn crc_tail(mode: CrcMode, checksum: u16) -> Seq<u8> {
    let low = (checksum % 256) as u8;
    let high = (checksum / 256) as u8;
    match mode {
        CrcMode::NoCrc => seq![],
        CrcMode::Crc8SmbusTail => seq![low],
        CrcMode::Crc16ModbusLeTail => seq![low, high],
        CrcMode::Crc16ModbusBeTail => seq![high, low],
        CrcMode::Crc16XmodemBeTail => seq![high, low],
        CrcMode::Crc16IbmSdlcLeTail => seq![low, high],
    }
}

/// The frame without its checksum.
pub open spec fn crc_body(frame: Seq<u8>, mode: CrcMode) -> Seq<u8> {
    frame.take(frame.len() - crc_width(mode))
}

/// The verdict on a frame whose body has the given checksum.
pub open spec fn crc_verdict(frame: Seq<u8>, mode: CrcMode, checksum: u16) -> CrcStatus {
    if mode == CrcMode::NoCrc {
        CrcStatus::Disabled
    } else if frame.len() <= crc_width(mode) {
        CrcStatus::TooShort
    } else if frame == crc_body(frame, mode) + crc_tail(mode, checksum) {
        CrcStatus::Valid
    } else {
        CrcStatus::Invalid
    }
}

/// The verdict on a frame.
pub open spec fn crc_status(frame: Seq<u8>, mode: CrcMode) -> CrcStatus {
    crc_verdict(frame, mode, checksum_of(crc_body(frame, mode), mode))
}

/// Holds the end of a frame against the checksum of its body. A one-byte checksum is given in
/// the low byte.
pub fn judge_crc(frame: &[u8], mode: CrcMode, checksum: u16) -> (r: CrcStatus)
    ensures
        r == crc_verdict(frame@, mode, checksum),
{
    let width: usize = mode.width();
    if width == 0 {
        return CrcStatus::Disabled;
    }
    if frame.len() <= width {
        return CrcStatus::TooShort;
    }
    let body_len: usize = frame.len() - width;
    let low: u8 = (checksum % 256) as u8;
    let high: u8 = (checksum / 256) as u8;
    let first: u8 = frame[body_len];
    let ghost expected = crc_body(frame@, mode) + crc_tail(mode, checksum);
    let valid = match mode {
        CrcMode::NoCrc => true,
        CrcMode::Crc8SmbusTail => first == low,
        CrcMode::Crc16ModbusLeTail | CrcMode::Crc16IbmSdlcLeTail => first == low
            && frame[body_len + 1] == high,
        CrcMode::Crc16ModbusBeTail | CrcMode::Crc16XmodemBeTail => first == high
            && frame[body_len + 1] == low,
    };
    proof {
        assert(expected.len() == frame@.len());
        assert(expected[body_len as int] == crc_tail(mode, checksum)[0]);
        if width == 2 {
            assert(expected[body_len + 1] == crc_tail(mode, checksum)[1]);
        }
        if valid {
            assert(frame@ =~= expected);
        }
    }
    if valid {
        CrcStatus::Valid
    } else {
        CrcStatus::Invalid
    }
}

/// Checks the checksum at the end of a frame.
pub fn validate_crc(frame: &[u8], mode: CrcMode) -> (r: CrcStatus)
    ensures
        r == crc_status(frame@, mode),
{
    let width: usize = mode.width();
    if width == 0 {
        return CrcStatus::Disabled;
    }
    if frame.len() <= width {
        return CrcStatus::TooShort;
    }
    let body = vstd::slice::slice_subrange(frame, 0, frame.len() - width);
    assert(body@ =~= crc_body(frame@, mode));
    let checksum: u16 = match mode {
        CrcMode::NoCrc => 0,
        CrcMode::Crc8SmbusTail => checksum_8_smbus(body) as u16,
        CrcMode::Crc16ModbusLeTail => checksum_16_modbus(body),
        CrcMode::Crc16ModbusBeTail => checksum_16_modbus(body),
        CrcMode::Crc16XmodemBeTail => checksum_16_xmodem(body),
        CrcMode::Crc16IbmSdlcLeTail => checksum_16_ibm_sdlc(body),
    };
    judge_crc(frame, mode, checksum)
}

/// A frame that ends in the checksum of what stands before it is valid.
pub proof fn appended_checksum_is_valid(body: Seq<u8>, mode: CrcMode)
    requires
        body.len() > 0,
        mode != CrcMode::NoCrc,
    ensures
        crc_status(body + crc_tail(mode, checksum_of(body, mode)), mode) == CrcStatus::Valid,
{
    let frame = body + crc_tail(mode, checksum_of(body, mode));
    assert(crc_body(frame, mode) =~= body);
}

/// Of all frames with one body, only the one that ends in the checksum is valid.
pub proof fn other_tail_is_invalid(body: Seq<u8>, tail: Seq<u8>, mode: CrcMode)
    requires
        body.len() > 0,
        mode != CrcMode::NoCrc,
        tail.len() == crc_width(mode),
        tail != crc_tail(mode, checksum_of(body, mode)),
    ensures
        crc_status(body + tail, mode) == CrcStatus::Invalid,
{
    let frame = body + tail;
    let right = body + crc_tail(mode, checksum_of(body, mode));
    assert(crc_body(frame, mode) =~= body);
    assert(frame.skip(body.len() as int) =~= tail);
    assert(right.skip(body.len() as int) =~= crc_tail(mode, checksum_of(body, mode)));
}

/// What the start of a buffer allows.
pub enum Taken {
    /// The first `consumed` bytes make up a frame.
    Frame { consumed: nat, output: Seq<u8> },
    /// The frame is not complete.
    NeedMore,
    /// No frame begins here.
    DiscardOne,
}

/// The start of a buffer, for frames of one length.
pub open spec fn fixed_taken(buffer: Seq<u8>, length: nat) -> Taken {
    if length == 0 || length > MAX_FRAME_BYTES {
        Taken::DiscardOne
    } else if buffer.len() < length {
        Taken::NeedMore
    } else {
        Taken::Frame { consumed: length, output: buffer.take(length as int) }
    }
}

/// Whether `needle` stands in `hay` at `i`.
pub open spec fn stands_at(hay: Seq<u8>, needle: Seq<u8>, i: int) -> bool {
    0 <= i && i + needle.len() <= hay.len() && hay.subrange(i, i + needle.len()) == needle
}

/// The first position from `i` on at which `needle` stands in `hay`.
pub open spec fn first_from(hay: Seq<u8>, needle: Seq<u8>, i: nat) -> Option<nat>
    decreases hay.len() - i,
{
    if i + needle.len() > hay.len() {
        None
    } else if stands_at(hay, needle, i as int) {
        Some(i)
    } else {
        if i < hay.len() {
            first_from(hay, needle, i + 1)
        } else {
            None
        }
    }
}

/// The start of a buffer, for frames that end in a delimiter.
pub open spec fn delimited_taken(buffer: Seq<u8>, delimiter: Seq<u8>, keep: bool) -> Taken {
    if delimiter.len() == 0 || delimiter.len() > MAX_DELIMITER_BYTES {
        Taken::DiscardOne
    } else {
        match first_from(buffer, delimiter, 0) {
            None => if buffer.len() > MAX_FRAME_BYTES {
                Taken::DiscardOne
            } else {
                Taken::NeedMore
            },
            Some(index) => {
                let consumed = index + delimiter.len();
                if consumed > MAX_FRAME_BYTES {
                    Taken::DiscardOne
                } else {
                    Taken::Frame {
                        consumed,
                        output: buffer.take(
                            if keep {
                                consumed as int
                            } else {
                                index as int
                            },
                        ),
                    }
                }
            },
        }
    }
}

/// The start of a buffer, for frames that hold their length.
pub open spec fn counted_taken(
    buffer: Seq<u8>,
    offset: nat,
    width: nat,
    endian: Endian,
    adjustment: int,
) -> Taken {
    let header_end = offset + width;
    if !(width == 1 || width == 2 || width == 4) || offset > MAX_LENGTH_OFFSET {
        Taken::DiscardOne
    } else if buffer.len() < header_end {
        Taken::NeedMore
    } else {
        let total = numbers::unsigned_value(
            buffer.subrange(offset as int, header_end as int),
            endian,
        ) + adjustment;
        if total < header_end || total > MAX_FRAME_BYTES {
            Taken::DiscardOne
        } else if buffer.len() < total {
            Taken::NeedMore
        } else {
            Taken::Frame { consumed: total as nat, output: buffer.take(total) }
        }
    }
}

/// What the start of a buffer allows in a mode that buffers.
pub open spec fn taken(mode: FrameModeView, buffer: Seq<u8>) -> Taken {
    match mode {
        FrameModeView::BlePacket => Taken::NeedMore,
        FrameModeView::FixedLength { length } => fixed_taken(buffer, length as nat),
        FrameModeView::Delimiter { delimiter, keep } => delimited_taken(
            buffer,
            delimiter,
            keep,
        ),
        FrameModeView::LengthField { offset, width, endian, adjustment } => counted_taken(
            buffer,
            offset as nat,
            width as nat,
            endian,
            adjustment as int,
        ),
    }
}

/// The frames that a buffer holds, and what is left of it.
pub open spec fn framed(mode: FrameModeView, buffer: Seq<u8>) -> (Seq<Seq<u8>>, Seq<u8>)
    decreases buffer.len(),
    via framed_shrinks
{
    if buffer.len() == 0 {
        (Seq::empty(), buffer)
    } else {
        match taken(mode, buffer) {
            Taken::Frame { consumed, output } => {
                let later = framed(mode, buffer.skip(consumed as int));
                (seq![output] + later.0, later.1)
            },
            Taken::NeedMore => (Seq::empty(), buffer),
            Taken::DiscardOne => framed(mode, buffer.skip(1)),
        }
    }
}

#[via_fn]
proof fn framed_shrinks(mode: FrameModeView, buffer: Seq<u8>) {
    taken_fits(mode, buffer);
}

/// A frame takes at least one byte, and no more than there are.
proof fn taken_fits(mode: FrameModeView, buffer: Seq<u8>)
    ensures
        taken(mode, buffer) matches Taken::Frame { consumed, output } ==> 0 < consumed
            <= buffer.len() && consumed <= MAX_FRAME_BYTES && output.len() <= consumed && output
            == buffer.take(output.len() as int),
{
    if let FrameModeView::Delimiter { delimiter, keep } = mode {
        first_from_is_first(buffer, delimiter, 0);
    }
}

/// What [`first_from`] finds stands there, and nothing before it does.
pub proof fn first_from_is_first(hay: Seq<u8>, needle: Seq<u8>, i: nat)
    ensures
        match first_from(hay, needle, i) {
            Some(k) => i <= k && stands_at(hay, needle, k as int) && forall|j: int|
                i <= j < k ==> !stands_at(hay, needle, j),
            None => forall|j: int| i <= j ==> !stands_at(hay, needle, j),
        },
    decreases hay.len() - i,
{
    if i + needle.len() <= hay.len() && !stands_at(hay, needle, i as int) && i < hay.len() {
        first_from_is_first(hay, needle, i + 1);
    }
}

/// The first occurrence is the only position that has nothing before it.
proof fn first_is_unique(hay: Seq<u8>, needle: Seq<u8>, k: nat)
    requires
        stands_at(hay, needle, k as int),
        forall|j: int| 0 <= j < k ==> !stands_at(hay, needle, j),
    ensures
        first_from(hay, needle, 0) == Some(k),
{
    first_from_is_first(hay, needle, 0);
}

/// More bytes do not change what the start of a buffer allows, once that is decided.
proof fn taken_is_settled(mode: FrameModeView, buffer: Seq<u8>, more: Seq<u8>)
    requires
        taken(mode, buffer) !is NeedMore,
    ensures
        taken(mode, buffer + more) == taken(mode, buffer),
{
    let longer = buffer + more;
    taken_fits(mode, buffer);
    match mode {
        FrameModeView::BlePacket => {},
        FrameModeView::FixedLength { length } => {
            assert(longer.take(length as int) =~= buffer.take(length as int)
                || buffer.len() < length);
        },
        FrameModeView::Delimiter { delimiter, keep } => {
            if 0 < delimiter.len() <= MAX_DELIMITER_BYTES {
                first_from_is_first(buffer, delimiter, 0);
                first_from_is_first(longer, delimiter, 0);
                let n = delimiter.len() as int;
                assert forall|j: int| 0 <= j && j + n <= buffer.len() implies stands_at(
                    longer,
                    delimiter,
                    j,
                ) == stands_at(buffer, delimiter, j) by {
                    assert(longer.subrange(j, j + n) =~= buffer.subrange(j, j + n));
                }
                match first_from(buffer, delimiter, 0) {
                    Some(k) => {
                        assert forall|j: int| 0 <= j < k implies !stands_at(
                            longer,
                            delimiter,
                            j,
                        ) by {
                            assert(stands_at(longer, delimiter, j) == stands_at(
                                buffer,
                                delimiter,
                                j,
                            ));
                        }
                        first_is_unique(longer, delimiter, k);
                        let cut = if keep {
                            k + n
                        } else {
                            k as int
                        };
                        assert(longer.take(cut) =~= buffer.take(cut));
                    },
                    None => {
                        match first_from(longer, delimiter, 0) {
                            Some(k) => {
                                if k + n <= buffer.len() {
                                    assert(stands_at(buffer, delimiter, k as int));
                                }
                            },
                            None => {},
                        }
                    },
                }
            }
        },
        FrameModeView::LengthField { offset, width, endian, adjustment } => {
            if buffer.len() >= offset + width {
                assert(longer.subrange(offset as int, offset + width) =~= buffer.subrange(
                    offset as int,
                    offset + width,
                ));
                let total = numbers::unsigned_value(
                    buffer.subrange(offset as int, offset + width),
                    endian,
                ) + adjustment;
                if 0 <= total <= buffer.len() {
                    assert(longer.take(total) =~= buffer.take(total));
                }
            }
        },
    }
}

/// Cutting a buffer that came in two parts gives the frames of the first part, then those of
/// what was left of it together with the second part.
pub proof fn framing_continues(mode: FrameModeView, buffer: Seq<u8>, more: Seq<u8>)
    ensures
        ({
            let first = framed(mode, buffer);
            let second = framed(mode, first.1 + more);
            framed(mode, buffer + more) == (first.0 + second.0, second.1)
        }),
    decreases buffer.len(),
{
    let first = framed(mode, buffer);
    let second = framed(mode, first.1 + more);
    let whole = framed(mode, buffer + more);
    if buffer.len() == 0 {
        assert(buffer + more =~= first.1 + more);
        assert(whole.0 =~= first.0 + second.0);
    } else {
        taken_fits(mode, buffer);
        match taken(mode, buffer) {
            Taken::Frame { consumed, output } => {
                taken_is_settled(mode, buffer, more);
                framing_continues(mode, buffer.skip(consumed as int), more);
                assert((buffer + more).skip(consumed as int) =~= buffer.skip(consumed as int)
                    + more);
                assert(whole.0 =~= first.0 + second.0);
            },
            Taken::NeedMore => {
                assert(whole.0 =~= first.0 + second.0);
            },
            Taken::DiscardOne => {
                taken_is_settled(mode, buffer, more);
                framing_continues(mode, buffer.skip(1), more);
                assert((buffer + more).skip(1) =~= buffer.skip(1) + more);
            },
        }
    }
}

/// What a packet does to a decoder: the frames that come out, and the bytes that wait then.
pub open spec fn pushed(config: ProtocolConfigView, buffer: Seq<u8>, data: Seq<u8>) -> (
    Seq<DecodedFrameView>,
    Seq<u8>,
) {
    if !config.enabled || data.len() == 0 {
        (Seq::empty(), buffer)
    } else if config.frame_mode is BlePacket {
        (seq![decoded_frame(data, config)], buffer)
    } else {
        let cut = framed(
            config.frame_mode,
            lists::newest(buffer + data, MAX_BUFFER_BYTES as nat),
        );
        (Seq::new(cut.0.len(), |i: int| decoded_frame(cut.0[i], config)), cut.1)
    }
}

/// Where a stream is cut does not matter: two packets give the same frames as their bytes in one
/// packet, and leave the same bytes waiting, as long as the buffer does not overflow.
pub proof fn chunks_do_not_matter(
    config: ProtocolConfigView,
    buffer: Seq<u8>,
    first: Seq<u8>,
    second: Seq<u8>,
)
    requires
        !(config.frame_mode is BlePacket),
        buffer.len() + first.len() + second.len() <= MAX_BUFFER_BYTES,
    ensures
        ({
            let one = pushed(config, buffer, first);
            let two = pushed(config, one.1, second);
            pushed(config, buffer, first + second) == (one.0 + two.0, two.1)
        }),
{
    if config.enabled {
        let mode = config.frame_mode;
        framing_continues(mode, buffer + first, second);
        framing_shrinks(mode, buffer + first);
        assert(buffer + (first + second) =~= (buffer + first) + second);
        let one = pushed(config, buffer, first);
        let two = pushed(config, one.1, second);
        let whole = pushed(config, buffer, first + second);
        if second.len() == 0 {
            assert((buffer + first) + second =~= buffer + first);
            assert(first + second =~= first);
        }
        if first.len() == 0 {
            assert(first + second =~= second);
        }
        assert(whole.0 =~= one.0 + two.0);
    } else {
        assert(pushed(config, buffer, first + second).0 =~= Seq::empty() + Seq::empty());
    }
}

/// What waits is the end of what was there.
proof fn framing_shrinks(mode: FrameModeView, buffer: Seq<u8>)
    ensures
        framed(mode, buffer).1.len() <= buffer.len(),
        framed(mode, buffer).1 == buffer.skip(buffer.len() - framed(mode, buffer).1.len()),
    decreases buffer.len(),
{
    let left = framed(mode, buffer).1;
    if buffer.len() == 0 {
        assert(left =~= buffer.skip(0));
    } else {
        taken_fits(mode, buffer);
        match taken(mode, buffer) {
            Taken::Frame { consumed, output } => {
                framing_shrinks(mode, buffer.skip(consumed as int));
                assert(left =~= buffer.skip(buffer.len() - left.len()));
            },
            Taken::NeedMore => {
                assert(left =~= buffer.skip(0));
            },
            Taken::DiscardOne => {
                framing_shrinks(mode, buffer.skip(1));
                assert(left =~= buffer.skip(buffer.len() - left.len()));
            },
        }
    }
}

/// In a mode that buffers, what waits for the rest of a frame is no longer than a frame can be.
proof fn rest_is_short(mode: FrameModeView, buffer: Seq<u8>)
    requires
        !(mode is BlePacket),
    ensures
        framed(mode, buffer).1.len() <= MAX_FRAME_BYTES,
    decreases buffer.len(),
{
    if buffer.len() > 0 {
        taken_fits(mode, buffer);
        match taken(mode, buffer) {
            Taken::Frame { consumed, output } => {
                rest_is_short(mode, buffer.skip(consumed as int));
            },
            Taken::NeedMore => {},
            Taken::DiscardOne => {
                rest_is_short(mode, buffer.skip(1));
            },
        }
    }
}

/// The buffer never holds more than its limit, and no more than the longest frame once a packet
/// went through it. What waits after a packet is the end of what waited before followed by the
/// packet.
pub proof fn buffer_stays_bounded(config: ProtocolConfigView, buffer: Seq<u8>, data: Seq<u8>)
    requires
        buffer.len() <= MAX_BUFFER_BYTES,
    ensures
        pushed(config, buffer, data).1.len() <= MAX_BUFFER_BYTES,
        config.enabled && data.len() > 0 && !(config.frame_mode is BlePacket) ==> pushed(
            config,
            buffer,
            data,
        ).1.len() <= MAX_FRAME_BYTES,
        buffer.len() <= MAX_FRAME_BYTES ==> pushed(config, buffer, data).1.len()
            <= MAX_FRAME_BYTES,
        !(config.frame_mode is BlePacket) ==> pushed(config, buffer, data).1 == (buffer
            + data).skip((buffer + data).len() - pushed(config, buffer, data).1.len())
            || !config.enabled,
{
    let kept = lists::newest(buffer + data, MAX_BUFFER_BYTES as nat);
    framing_shrinks(config.frame_mode, kept);
    let left = pushed(config, buffer, data).1;
    if config.enabled && !(config.frame_mode is BlePacket) {
        if data.len() == 0 {
            assert(left =~= (buffer + data).skip(0));
        } else {
            rest_is_short(config.frame_mode, kept);
            assert(left =~= (buffer + data).skip((buffer + data).len() - left.len()));
        }
    }
}

/// No frame that is cut out of a stream is longer than the limit.
pub proof fn frames_stay_bounded(mode: FrameModeView, buffer: Seq<u8>, i: int)
    requires
        0 <= i < framed(mode, buffer).0.len(),
    ensures
        framed(mode, buffer).0[i].len() <= MAX_FRAME_BYTES,
    decreases buffer.len(),
{
    taken_fits(mode, buffer);
    match taken(mode, buffer) {
        Taken::Frame { consumed, output } => {
            let later = framed(mode, buffer.skip(consumed as int));
            assert(framed(mode, buffer).0 == seq![output] + later.0);
            if i > 0 {
                frames_stay_bounded(mode, buffer.skip(consumed as int), i - 1);
            }
        },
        Taken::NeedMore => {},
        Taken::DiscardOne => {
            frames_stay_bounded(mode, buffer.skip(1), i);
        },
    }
}

/// The bytes of a list of frames, one frame after the other.
pub open spec fn concatenated(frames: Seq<Seq<u8>>) -> Seq<u8>
    decreases frames.len(),
{
    if frames.len() == 0 {
        Seq::empty()
    } else {
        frames[0] + concatenated(frames.skip(1))
    }
}

/// With frames of one length no byte is lost, every frame has that length, and fewer bytes than
/// one frame wait.
pub proof fn fixed_frames_lose_nothing(length: usize, buffer: Seq<u8>)
    requires
        0 < length <= MAX_FRAME_BYTES,
    ensures
        ({
            let cut = framed(FrameModeView::FixedLength { length }, buffer);
            concatenated(cut.0) + cut.1 == buffer && cut.1.len() < length && forall|i: int|
                0 <= i < cut.0.len() ==> (#[trigger] cut.0[i]).len() == length
        }),
    decreases buffer.len(),
{
    let mode = FrameModeView::FixedLength { length };
    let cut = framed(mode, buffer);
    if buffer.len() < length {
        assert(concatenated(cut.0) + cut.1 =~= buffer);
    } else {
        let head = buffer.take(length as int);
        let rest = buffer.skip(length as int);
        fixed_frames_lose_nothing(length, rest);
        let later = framed(mode, rest);
        assert(cut.0 == seq![head] + later.0);
        assert(cut.0.skip(1) =~= later.0);
        assert(concatenated(cut.0) + cut.1 =~= head + (concatenated(later.0) + later.1));
        assert(head + rest =~= buffer);
    }
}

/// A frame that was cut off at a delimiter does not hold the delimiter.
pub proof fn delimited_frames_hold_no_delimiter(
    delimiter: Seq<u8>,
    buffer: Seq<u8>,
    i: int,
    at: int,
)
    requires
        0 <= i < framed(
            (FrameModeView::Delimiter { delimiter, keep: false }),
            buffer,
        ).0.len(),
    ensures
        !stands_at(
            framed((FrameModeView::Delimiter { delimiter, keep: false }), buffer).0[i],
            delimiter,
            at,
        ),
    decreases buffer.len(),
{
    let mode = FrameModeView::Delimiter { delimiter, keep: false };
    taken_fits(mode, buffer);
    match taken(mode, buffer) {
        Taken::Frame { consumed, output } => {
            let later = framed(mode, buffer.skip(consumed as int));
            assert(framed(mode, buffer).0 == seq![output] + later.0);
            if i > 0 {
                delimited_frames_hold_no_delimiter(
                    delimiter,
                    buffer.skip(consumed as int),
                    i - 1,
                    at,
                );
            } else {
                first_from_is_first(buffer, delimiter, 0);
                if stands_at(output, delimiter, at) {
                    assert(output.subrange(at, at + delimiter.len()) =~= buffer.subrange(
                        at,
                        at + delimiter.len(),
                    ));
                    assert(stands_at(buffer, delimiter, at));
                }
            }
        },
        Taken::NeedMore => {},
        Taken::DiscardOne => {
            delimited_frames_hold_no_delimiter(delimiter, buffer.skip(1), i, at);
        },
    }
}

/// The frames one after the other, each followed by `ending`.
pub open spec fn rejoined(frames: Seq<Seq<u8>>, ending: Seq<u8>) -> Seq<u8>
    decreases frames.len(),
{
    if frames.len() == 0 {
        Seq::empty()
    } else {
        frames[0] + ending + rejoined(frames.skip(1), ending)
    }
}

/// Whether every part of a stream up to and with a delimiter, and what follows the last one, is
/// no longer than a frame can be.
pub open spec fn parts_fit(delimiter: Seq<u8>, stream: Seq<u8>) -> bool
    decreases stream.len(),
    via parts_shrink
{
    if delimiter.len() == 0 {
        false
    } else {
        match first_from(stream, delimiter, 0) {
            None => stream.len() <= MAX_FRAME_BYTES,
            Some(index) => index + delimiter.len() <= MAX_FRAME_BYTES && parts_fit(
                delimiter,
                stream.skip((index + delimiter.len()) as int),
            ),
        }
    }
}

#[via_fn]
proof fn parts_shrink(delimiter: Seq<u8>, stream: Seq<u8>) {
    first_from_is_first(stream, delimiter, 0);
}

/// The frames of a delimited stream, each with its delimiter, and what waits give back the
/// stream, whether the delimiter stays in the frames or is dropped from them. This is so exactly
/// where no part of the stream is too long for a frame; otherwise bytes were dropped.
pub proof fn delimited_frames_give_back_the_stream(
    delimiter: Seq<u8>,
    keep: bool,
    stream: Seq<u8>,
)
    requires
        0 < delimiter.len() <= MAX_DELIMITER_BYTES,
    ensures
        ({
            let cut = framed((FrameModeView::Delimiter { delimiter, keep }), stream);
            let ending = if keep {
                Seq::empty()
            } else {
                delimiter
            };
            &&& parts_fit(delimiter, stream) <==> rejoined(cut.0, ending) + cut.1 == stream
            &&& !parts_fit(delimiter, stream) ==> rejoined(cut.0, ending).len() + cut.1.len()
                < stream.len()
        }),
    decreases stream.len(),
{
    let mode = FrameModeView::Delimiter { delimiter, keep };
    let cut = framed(mode, stream);
    let ending = if keep {
        Seq::empty()
    } else {
        delimiter
    };
    first_from_is_first(stream, delimiter, 0);
    if stream.len() == 0 {
        assert(rejoined(cut.0, ending) + cut.1 =~= stream);
    } else {
        taken_fits(mode, stream);
        match taken(mode, stream) {
            Taken::Frame { consumed, output } => {
                let rest = stream.skip(consumed as int);
                delimited_frames_give_back_the_stream(delimiter, keep, rest);
                let later = framed(mode, rest);
                assert(cut.0 == seq![output] + later.0);
                assert(cut.0.skip(1) =~= later.0);
                let index = first_from(stream, delimiter, 0)->0 as int;
                assert(stream.subrange(index, index + delimiter.len()) == delimiter);
                assert(output + ending =~= stream.take(consumed as int));
                assert(stream.take(consumed as int) + rest =~= stream);
                assert(rejoined(cut.0, ending) + cut.1 =~= stream.take(consumed as int) + (
                rejoined(later.0, ending) + later.1));
            },
            Taken::NeedMore => {
                assert(rejoined(cut.0, ending) + cut.1 =~= stream);
            },
            Taken::DiscardOne => {
                delimited_frames_give_back_the_stream(delimiter, keep, stream.skip(1));
            },
        }
    }
}

/// A frame that keeps its delimiter ends in it and holds it nowhere else.
pub proof fn kept_delimiters_end_the_frames(
    delimiter: Seq<u8>,
    buffer: Seq<u8>,
    i: int,
    at: int,
)
    requires
        0 <= i < framed(
            (FrameModeView::Delimiter { delimiter, keep: true }),
            buffer,
        ).0.len(),
    ensures
        ({
            let frame = framed(
                (FrameModeView::Delimiter { delimiter, keep: true }),
                buffer,
            ).0[i];
            stands_at(frame, delimiter, at) <==> at == frame.len() - delimiter.len()
        }),
    decreases buffer.len(),
{
    let mode = FrameModeView::Delimiter { delimiter, keep: true };
    taken_fits(mode, buffer);
    match taken(mode, buffer) {
        Taken::Frame { consumed, output } => {
            let later = framed(mode, buffer.skip(consumed as int));
            assert(framed(mode, buffer).0 == seq![output] + later.0);
            if i > 0 {
                kept_delimiters_end_the_frames(delimiter, buffer.skip(consumed as int), i - 1, at);
            } else {
                first_from_is_first(buffer, delimiter, 0);
                if 0 <= at && at + delimiter.len() <= output.len() {
                    assert(output.subrange(at, at + delimiter.len()) =~= buffer.subrange(
                        at,
                        at + delimiter.len(),
                    ));
                    assert(stands_at(buffer, delimiter, at) == stands_at(output, delimiter, at));
                }
            }
        },
        Taken::NeedMore => {},
        Taken::DiscardOne => {
            kept_delimiters_end_the_frames(delimiter, buffer.skip(1), i, at);
        },
    }
}

/// Whether a mode can find frames at all.
pub open spec fn usable_mode(mode: FrameModeView) -> bool {
    match mode {
        FrameModeView::BlePacket => true,
        FrameModeView::FixedLength { length } => 0 < length <= MAX_FRAME_BYTES,
        FrameModeView::Delimiter { delimiter, .. } => 0 < delimiter.len() <= MAX_DELIMITER_BYTES,
        FrameModeView::LengthField { offset, width, .. } => (width == 1 || width == 2 || width == 4)
            && offset <= MAX_LENGTH_OFFSET,
    }
}

/// Under an unusable mode every byte is dropped and no frame comes out.
pub proof fn unusable_mode_drops_everything(mode: FrameModeView, buffer: Seq<u8>)
    requires
        !usable_mode(mode),
    ensures
        framed(mode, buffer).0.len() == 0,
        framed(mode, buffer).1.len() == 0,
    decreases buffer.len(),
{
    if buffer.len() > 0 {
        unusable_mode_drops_everything(mode, buffer.skip(1));
    }
}

/// The built-in decoder.
pub struct StreamProtocolDecoder {
    config: ProtocolConfig,
    buffer: VecDeque<u8>,
}

/// The mathematical value of [`StreamProtocolDecoder`].
#[verifier::ext_equal]
pub struct StreamProtocolDecoderView {
    /// The configuration in force.
    pub config: ProtocolConfigView,
    /// The bytes that wait for the rest of a frame.
    pub buffer: Seq<u8>,
}

impl DeepView for StreamProtocolDecoder {
    type V = StreamProtocolDecoderView;

    closed spec fn deep_view(&self) -> StreamProtocolDecoderView {
        StreamProtocolDecoderView { config: self.config.deep_view(), buffer: self.buffer@ }
    }
}

/// A decoder under a configuration: a changed configuration drops the bytes that wait.
pub open spec fn configured(
    decoder: StreamProtocolDecoderView,
    config: ProtocolConfigView,
) -> StreamProtocolDecoderView {
    if same_config(decoder.config, config) {
        decoder
    } else {
        StreamProtocolDecoderView { config, buffer: Seq::empty() }
    }
}

/// What was done with the start of the buffer.
enum FrameTake {
    Frame(Vec<u8>),
    NeedMore,
    DiscardOne,
}

/// Whether `took` and the buffer after it are what `wanted` says of the buffer before it.
spec fn took_as(wanted: Taken, before: Seq<u8>, took: FrameTake, after: Seq<u8>) -> bool {
    match wanted {
        Taken::Frame { consumed, output } => {
            &&& took matches FrameTake::Frame(frame)
            &&& frame@ == output
            &&& after == before.skip(consumed as int)
        },
        Taken::NeedMore => took is NeedMore && after == before,
        Taken::DiscardOne => took is DiscardOne && after == before,
    }
}

impl Default for StreamProtocolDecoder {
    fn default() -> (r: Self)
        ensures
            r.deep_view().config == default_config(),
            r.deep_view().buffer == Seq::<u8>::empty(),
    {
        StreamProtocolDecoder { config: ProtocolConfig::default(), buffer: VecDeque::new() }
    }
}

impl ProtocolDecoder for StreamProtocolDecoder {
    fn configure(&mut self, config: &ProtocolConfig)
        ensures
            final(self).deep_view() == configured(old(self).deep_view(), config.deep_view()),
    {
        if !self.config.same(config) {
            self.config = config.clone();
            self.buffer.clear();
        }
    }

    fn reset(&mut self)
        ensures
            final(self).deep_view().config == old(self).deep_view().config,
            final(self).deep_view().buffer == Seq::<u8>::empty(),
    {
        self.buffer.clear();
    }

    fn push(&mut self, data: &[u8]) -> (r: Vec<DecodedFrame>)
        ensures
            final(self).deep_view().config == old(self).deep_view().config,
            (r.deep_view(), final(self).deep_view().buffer) == pushed(
                old(self).deep_view().config,
                old(self).deep_view().buffer,
                data@,
            ),
    {
        if !self.config.enabled || data.len() == 0 {
            let none: Vec<DecodedFrame> = Vec::new();
            assert(none.deep_view() =~= Seq::empty());
            return none;
        }
        let ghost config = self.config.deep_view();
        match &self.config.frame_mode {
            FrameMode::BlePacket => {
                let mut one: Vec<DecodedFrame> = Vec::new();
                one.push(decode_frame(numbers::copied(data), &self.config));
                assert(one.deep_view() =~= seq![decoded_frame(data@, config)]);
                return one;
            },
            _ => {},
        }
        let frame_mode = self.config.frame_mode.clone();
        let ghost mode = config.frame_mode;
        self.append(data);
        let ghost start = self.buffer@;
        let ghost mut cut: Seq<Seq<u8>> = Seq::empty();
        let mut frames: Vec<DecodedFrame> = Vec::new();
        assert(framed(mode, start).0 =~= cut + framed(mode, start).0);
        let mut done = false;
        while !done && self.buffer.len() > 0
            invariant
                self.config.deep_view() == config,
                frame_mode.deep_view() == mode,
                mode == config.frame_mode,
                !(mode is BlePacket),
                frames.deep_view() =~= Seq::new(cut.len(), |i: int| decoded_frame(cut[i], config)),
                framed(mode, start) == (
                    cut + framed(mode, self.buffer@).0,
                    framed(mode, self.buffer@).1,
                ),
                done ==> framed(mode, self.buffer@) == (Seq::<Seq<u8>>::empty(), self.buffer@),
            decreases self.buffer@.len() + (if done {
                0int
            } else {
                1int
            }),
        {
            let ghost before = self.buffer@;
            proof {
                taken_fits(mode, before);
            }
            let next = match &frame_mode {
                FrameMode::BlePacket => FrameTake::NeedMore,
                FrameMode::FixedLength { length } => self.take_fixed(*length),
                FrameMode::Delimiter { delimiter, keep } => self.take_delimited(
                    delimiter.as_slice(),
                    *keep,
                ),
                FrameMode::LengthField { offset, width, endian, adjustment } => {
                    self.take_length_field(*offset, *width, *endian, *adjustment)
                },
            };
            assert(took_as(taken(mode, before), before, next, self.buffer@));
            match next {
                FrameTake::Frame(frame) => {
                    let ghost output = frame@;
                    let ghost earlier = frames.deep_view();
                    frames.push(decode_frame(frame, &self.config));
                    assert(frames.deep_view() =~= earlier.push(decoded_frame(output, config)));
                    proof {
                        let later = framed(mode, self.buffer@);
                        assert(cut + (seq![output] + later.0) =~= cut.push(output) + later.0);
                        cut = cut.push(output);
                    }
                },
                FrameTake::NeedMore => {
                    done = true;
                },
                FrameTake::DiscardOne => {
                    let _ = self.buffer.pop_front();
                    assert(self.buffer@ =~= before.skip(1));
                },
            }
        }
        proof {
            assert(framed(mode, self.buffer@).0 =~= Seq::empty());
            assert(framed(mode, start).0 =~= cut);
            assert(framed(mode, start).1 =~= self.buffer@);
        }
        frames
    }

    fn buffered_bytes(&self) -> (r: usize)
        ensures
            r == self.deep_view().buffer.len(),
    {
        self.buffer.len()
    }
}

impl StreamProtocolDecoder {
    fn append(&mut self, data: &[u8])
        ensures
            final(self).config == old(self).config,
            final(self).buffer@ == lists::newest(
                old(self).buffer@ + data@,
                MAX_BUFFER_BYTES as nat,
            ),
    {
        let ghost before = self.buffer@;
        let mut i: usize = 0;
        while i < data.len()
            invariant
                i <= data@.len(),
                self.config == old(self).config,
                self.buffer@ =~= before + data@.take(i as int),
            decreases data@.len() - i,
        {
            self.buffer.push_back(data[i]);
            i = i + 1;
        }
        let ghost all = before + data@;
        assert(self.buffer@ =~= all);
        lists::keep_newest(&mut self.buffer, MAX_BUFFER_BYTES);
    }

    /// Removes the first bytes of the buffer and returns them.
    fn drain(&mut self, count: usize) -> (r: Vec<u8>)
        requires
            count <= old(self).buffer@.len(),
        ensures
            final(self).config == old(self).config,
            final(self).buffer@ == old(self).buffer@.skip(count as int),
            r@ == old(self).buffer@.take(count as int),
    {
        let ghost before = self.buffer@;
        let mut out: Vec<u8> = Vec::new();
        while out.len() < count
            invariant
                out@.len() <= count <= before.len(),
                self.config == old(self).config,
                out@ =~= before.take(out@.len() as int),
                self.buffer@ =~= before.skip(out@.len() as int),
            decreases count - out@.len(),
        {
            out.push(self.buffer[0]);
            let _ = self.buffer.pop_front();
        }
        out
    }

    fn take_fixed(&mut self, length: usize) -> (r: FrameTake)
        ensures
            final(self).config == old(self).config,
            took_as(
                fixed_taken(old(self).buffer@, length as nat),
                old(self).buffer@,
                r,
                final(self).buffer@,
            ),
    {
        if length == 0 || length > MAX_FRAME_BYTES {
            return FrameTake::DiscardOne;
        }
        if self.buffer.len() < length {
            return FrameTake::NeedMore;
        }
        FrameTake::Frame(self.drain(length))
    }

    fn take_delimited(&mut self, delimiter: &[u8], keep: bool) -> (r: FrameTake)
        ensures
            final(self).config == old(self).config,
            took_as(
                delimited_taken(old(self).buffer@, delimiter@, keep),
                old(self).buffer@,
                r,
                final(self).buffer@,
            ),
    {
        if delimiter.len() == 0 || delimiter.len() > MAX_DELIMITER_BYTES {
            return FrameTake::DiscardOne;
        }
        let buffered: usize = self.buffer.len();
        let index: usize = match find_subslice(&self.buffer, delimiter) {
            Some(index) => index,
            None => {
                return if buffered > MAX_FRAME_BYTES {
                    FrameTake::DiscardOne
                } else {
                    FrameTake::NeedMore
                };
            },
        };
        let consume: usize = index + delimiter.len();
        let output_len: usize = if keep {
            consume
        } else {
            index
        };
        if consume > MAX_FRAME_BYTES {
            return FrameTake::DiscardOne;
        }
        let ghost before = self.buffer@;
        let mut consumed = self.drain(consume);
        consumed.truncate(output_len);
        assert(consumed@ =~= before.take(output_len as int));
        FrameTake::Frame(consumed)
    }

    fn take_length_field(
        &mut self,
        offset: usize,
        width: usize,
        endian: Endian,
        adjustment: i32,
    ) -> (r: FrameTake)
        ensures
            final(self).config == old(self).config,
            took_as(
                counted_taken(
                    old(self).buffer@,
                    offset as nat,
                    width as nat,
                    endian,
                    adjustment as int,
                ),
                old(self).buffer@,
                r,
                final(self).buffer@,
            ),
    {
        if !(width == 1 || width == 2 || width == 4) || offset > MAX_LENGTH_OFFSET {
            return FrameTake::DiscardOne;
        }
        let header_end: usize = offset + width;
        if self.buffer.len() < header_end {
            return FrameTake::NeedMore;
        }
        let mut header: Vec<u8> = Vec::new();
        let ghost wanted = self.buffer@.subrange(offset as int, header_end as int);
        let mut i: usize = offset;
        while i < header_end
            invariant
                offset <= i <= header_end <= self.buffer@.len(),
                wanted == self.buffer@.subrange(offset as int, header_end as int),
                header@ =~= wanted.take(i - offset),
            decreases header_end - i,
        {
            header.push(self.buffer[i]);
            i = i + 1;
        }
        assert(header@ =~= wanted);
        let raw_len: u64 = read_unsigned(header.as_slice(), endian);
        let total: i64 = raw_len as i64 + adjustment as i64;
        if total < header_end as i64 || total <= 0 {
            return FrameTake::DiscardOne;
        }
        if total > MAX_FRAME_BYTES as i64 {
            return FrameTake::DiscardOne;
        }
        let length: usize = total as usize;
        if self.buffer.len() < length {
            return FrameTake::NeedMore;
        }
        FrameTake::Frame(self.drain(length))
    }
}

/// Reads an unsigned integer of one, two or four bytes; other widths give zero.
fn read_unsigned(bytes: &[u8], endian: Endian) -> (r: u64)
    ensures
        bytes@.len() == 1 || bytes@.len() == 2 || bytes@.len() == 4 ==> r
            == numbers::unsigned_value(bytes@, endian) && r < 0x1_0000_0000,
        !(bytes@.len() == 1 || bytes@.len() == 2 || bytes@.len() == 4) ==> r == 0,
{
    let width: usize = bytes.len();
    if width == 1 || width == 2 || width == 4 {
        assert(bytes@.subrange(0, width as int) =~= bytes@);
        numbers::read_unsigned_at(bytes, 0, width, endian)
    } else {
        0
    }
}

/// The first position at which `needle` stands in `haystack`.
fn find_subslice(haystack: &VecDeque<u8>, needle: &[u8]) -> (r: Option<usize>)
    requires
        needle@.len() > 0,
    ensures
        match r {
            Some(index) => first_from(haystack@, needle@, 0) == Some(index as nat) && index
                + needle@.len() <= haystack@.len(),
            None => first_from(haystack@, needle@, 0) is None,
        },
{
    let count: usize = haystack.len();
    let width: usize = needle.len();
    if width > count {
        return None;
    }
    let mut start: usize = 0;
    while start <= count - width
        invariant
            count == haystack@.len(),
            width == needle@.len(),
            0 < width <= count,
            start <= count - width + 1,
            first_from(haystack@, needle@, 0) == first_from(haystack@, needle@, start as nat),
        decreases count - start,
    {
        let mut matched: usize = 0;
        while matched < width && haystack[start + matched] == needle[matched]
            invariant
                count == haystack@.len(),
                width == needle@.len(),
                start + width <= count,
                matched <= width,
                forall|j: int| 0 <= j < matched ==> haystack@[start + j] == needle@[j],
            decreases width - matched,
        {
            matched = matched + 1;
        }
        if matched == width {
            assert(haystack@.subrange(start as int, start + width) =~= needle@);
            assert(stands_at(haystack@, needle@, start as int));
            return Some(start);
        }
        assert(haystack@.subrange(start as int, start + width)[matched as int]
            != needle@[matched as int]);
        assert(!stands_at(haystack@, needle@, start as int));
        start = start + 1;
    }
    None
}

/// The verdict on a frame, for each kind of checksum: a frame that is not longer than the checksum
/// is too short; any other is valid exactly where its last bytes are the checksum of all bytes
/// before them, with the low or the high byte first as the kind has it.
pub proof fn checksums_cover_the_whole_body(frame: Seq<u8>)
    ensures
        crc_status(frame, CrcMode::NoCrc) == CrcStatus::Disabled,
        frame.len() <= 1 ==> crc_status(frame, CrcMode::Crc8SmbusTail) == CrcStatus::TooShort,
        frame.len() <= 2 ==> {
            &&& crc_status(frame, CrcMode::Crc16ModbusLeTail) == CrcStatus::TooShort
            &&& crc_status(frame, CrcMode::Crc16ModbusBeTail) == CrcStatus::TooShort
            &&& crc_status(frame, CrcMode::Crc16XmodemBeTail) == CrcStatus::TooShort
            &&& crc_status(frame, CrcMode::Crc16IbmSdlcLeTail) == CrcStatus::TooShort
        },
        frame.len() > 1 ==> ({
            let n = frame.len() - 1;
            crc_status(frame, CrcMode::Crc8SmbusTail) == if frame[n] == crc_8_smbus(
                frame.take(n),
            ) {
                CrcStatus::Valid
            } else {
                CrcStatus::Invalid
            }
        }),
        frame.len() > 2 ==> ({
            let n = frame.len() - 2;
            let body = frame.take(n);
            let little = frame[n] + 256 * frame[n + 1];
            let big = 256 * frame[n] + frame[n + 1];
            &&& crc_status(frame, CrcMode::Crc16ModbusLeTail) == if little == crc_16_modbus(body) {
                CrcStatus::Valid
            } else {
                CrcStatus::Invalid
            }
            &&& crc_status(frame, CrcMode::Crc16ModbusBeTail) == if big == crc_16_modbus(body) {
                CrcStatus::Valid
            } else {
                CrcStatus::Invalid
            }
            &&& crc_status(frame, CrcMode::Crc16XmodemBeTail) == if big == crc_16_xmodem(body) {
                CrcStatus::Valid
            } else {
                CrcStatus::Invalid
            }
            &&& crc_status(frame, CrcMode::Crc16IbmSdlcLeTail) == if little == crc_16_ibm_sdlc(
                body,
            ) {
                CrcStatus::Valid
            } else {
                CrcStatus::Invalid
            }
        }),
{
    if frame.len() > 1 {
        one_byte_verdict(frame, crc_8_smbus(frame.take(frame.len() - 1)));
    }
    if frame.len() > 2 {
        let body = frame.take(frame.len() - 2);
        two_byte_verdict(frame, CrcMode::Crc16ModbusLeTail, crc_16_modbus(body));
        two_byte_verdict(frame, CrcMode::Crc16ModbusBeTail, crc_16_modbus(body));
        two_byte_verdict(frame, CrcMode::Crc16XmodemBeTail, crc_16_xmodem(body));
        two_byte_verdict(frame, CrcMode::Crc16IbmSdlcLeTail, crc_16_ibm_sdlc(body));
    }
}

proof fn one_byte_verdict(frame: Seq<u8>, checksum: u8)
    requires
        frame.len() > 1,
    ensures
        crc_verdict(frame, CrcMode::Crc8SmbusTail, checksum as u16) == (if frame.last()
            == checksum {
            CrcStatus::Valid
        } else {
            CrcStatus::Invalid
        }),
{
    let n = frame.len() - 1;
    let whole = frame.take(n) + crc_tail(CrcMode::Crc8SmbusTail, checksum as u16);
    assert(whole[n] == checksum);
    if frame.last() == checksum {
        assert(frame =~= whole);
    }
}

proof fn two_byte_verdict(frame: Seq<u8>, mode: CrcMode, checksum: u16)
    requires
        frame.len() > 2,
        mode != CrcMode::NoCrc,
        mode != CrcMode::Crc8SmbusTail,
    ensures
        ({
            let n = frame.len() - 2;
            let found = if mode == CrcMode::Crc16ModbusLeTail || mode
                == CrcMode::Crc16IbmSdlcLeTail {
                frame[n] + 256 * frame[n + 1]
            } else {
                256 * frame[n] + frame[n + 1]
            };
            crc_verdict(frame, mode, checksum) == (if found == checksum {
                CrcStatus::Valid
            } else {
                CrcStatus::Invalid
            })
        }),
{
    let n = frame.len() - 2;
    let tail = crc_tail(mode, checksum);
    let whole = frame.take(n) + tail;
    assert(whole[n] == tail[0]);
    assert(whole[n + 1] == tail[1]);
    let low: int = checksum as int % 256;
    let high: int = checksum as int / 256;
    assert(checksum == low + 256 * high);
    if frame[n] == tail[0] && frame[n + 1] == tail[1] {
        assert(frame =~= whole);
    }
}

/// The verdict for a checksum that was computed already: it stands at the end of the frame, in one
/// byte or in two bytes with the low or the high one first, or the frame is invalid.
pub proof fn given_checksums_are_compared(frame: Seq<u8>, mode: CrcMode, checksum: u16)
    ensures
        mode == CrcMode::NoCrc ==> crc_verdict(frame, mode, checksum) == CrcStatus::Disabled,
        mode == CrcMode::Crc8SmbusTail && checksum < 256 && frame.len() > 1 ==> crc_verdict(
            frame,
            mode,
            checksum,
        ) == (if frame.last() == checksum {
            CrcStatus::Valid
        } else {
            CrcStatus::Invalid
        }),
        (mode == CrcMode::Crc16ModbusLeTail || mode == CrcMode::Crc16IbmSdlcLeTail) && frame.len()
            > 2 ==> crc_verdict(frame, mode, checksum) == (if frame[frame.len() - 2] + 256
            * frame[frame.len() - 1] == checksum {
            CrcStatus::Valid
        } else {
            CrcStatus::Invalid
        }),
        (mode == CrcMode::Crc16ModbusBeTail || mode == CrcMode::Crc16XmodemBeTail) && frame.len()
            > 2 ==> crc_verdict(frame, mode, checksum) == (if 256 * frame[frame.len() - 2]
            + frame[frame.len() - 1] == checksum {
            CrcStatus::Valid
        } else {
            CrcStatus::Invalid
        }),
        mode != CrcMode::NoCrc && frame.len() <= 1 ==> crc_verdict(frame, mode, checksum)
            == CrcStatus::TooShort,
        mode != CrcMode::NoCrc && mode != CrcMode::Crc8SmbusTail && frame.len() == 2
            ==> crc_verdict(frame, mode, checksum) == CrcStatus::TooShort,
{
    if mode == CrcMode::Crc8SmbusTail {
        if checksum < 256 && frame.len() > 1 {
            one_byte_verdict(frame, checksum as u8);
        }
    } else if mode != CrcMode::NoCrc && frame.len() > 2 {
        two_byte_verdict(frame, mode, checksum);
    }
}

/// A decoded frame holds the bytes of the frame, the verdict on its checksum and, in the order of
/// the configuration, each field under its name. A field that lies in the frame has the number
/// that was written there, with its scale and its bias; one that does not lie in it has none, and
/// spoils no other.
pub proof fn decoded_frames_hold_the_written_fields(
    config: ProtocolConfigView,
    i: int,
    before: Seq<u8>,
    after: Seq<u8>,
    n: int,
    short: Seq<u8>,
)
    requires
        0 <= i < config.fields.len(),
        plotting::is_integer_of(n, config.fields[i].value_type),
        config.fields[i].offset == before.len(),
        short.len() <= before.len(),
    ensures
        ({
            let field = config.fields[i];
            let data = before + plotting::written_integer(n, field.value_type) + after;
            let frame = decoded_frame(data, config);
            &&& frame.data == data
            &&& frame.crc == crc_status(data, config.crc)
            &&& frame.fields.len() == config.fields.len()
            &&& frame.fields[i].name == field.name
            &&& frame.fields[i].value == Some(
                ScaledValue {
                    raw: plotting::RawValue::Int(n as i64),
                    scale: field.scale,
                    bias: field.bias,
                },
            )
            &&& decoded_frame(short, config).fields[i].value is None
            &&& decoded_frame(short, config).fields[i].name == field.name
            &&& decoded_frame(short, config).data == short
        }),
{
    let t = config.fields[i].value_type;
    plotting::written_integers_are_read(before, after, n, t);
    plotting::values_depend_on_their_bytes(short, short, before.len(), t);
}

/// Whether a byte string is a message that holds its own length: the bytes at the offset are, in
/// the byte order, its length less the adjustment.
pub open spec fn is_counted_message(
    message: Seq<u8>,
    offset: usize,
    width: usize,
    endian: Endian,
    adjustment: i32,
) -> bool {
    &&& offset + width <= message.len() <= 65_536
    &&& 0 <= message.len() - adjustment < numbers::value_count(width as int)
    &&& message.subrange(offset as int, offset + width) == numbers::written_unsigned(
        message.len() - adjustment,
        width as int,
        endian,
    )
}

/// A message that holds its own length is cut off as one frame, and what follows it is cut by
/// itself.
pub proof fn counted_message_is_the_first_frame(
    message: Seq<u8>,
    rest: Seq<u8>,
    offset: usize,
    width: usize,
    endian: Endian,
    adjustment: i32,
)
    requires
        width == 1 || width == 2 || width == 4,
        offset <= 4_096,
        is_counted_message(message, offset, width, endian, adjustment),
    ensures
        ({
            let mode = FrameModeView::LengthField { offset, width, endian, adjustment };
            let later = framed(mode, rest);
            framed(mode, message + rest) == (seq![message] + later.0, later.1)
        }),
{
    let buffer = message + rest;
    assert(buffer.subrange(offset as int, offset + width) =~= message.subrange(
        offset as int,
        offset + width,
    ));
    numbers::written_integers_read_back(message.len() - adjustment, width as int, endian);
    assert(buffer.take(message.len() as int) =~= message);
    assert(buffer.skip(message.len() as int) =~= rest);
}

/// Messages that hold their own lengths, sent one after the other, come back as these messages,
/// and nothing waits.
pub proof fn counted_messages_come_back(
    config: ProtocolConfigView,
    messages: Seq<Seq<u8>>,
    offset: usize,
    width: usize,
    endian: Endian,
    adjustment: i32,
)
    requires
        config.enabled,
        config.frame_mode == (FrameModeView::LengthField { offset, width, endian, adjustment }),
        width == 1 || width == 2 || width == 4,
        offset <= 4_096,
        forall|i: int|
            0 <= i < messages.len() ==> is_counted_message(
                #[trigger] messages[i],
                offset,
                width,
                endian,
                adjustment,
            ),
        concatenated(messages).len() <= 1_048_576,
    ensures
        ({
            let result = pushed(config, Seq::empty(), concatenated(messages));
            &&& result.0.len() == messages.len()
            &&& forall|i: int|
                0 <= i < messages.len() ==> (#[trigger] result.0[i]).data == messages[i]
            &&& result.1.len() == 0
        }),
{
    counted_messages_are_framed(messages, offset, width, endian, adjustment);
    assert(Seq::<u8>::empty() + concatenated(messages) =~= concatenated(messages));
}

proof fn counted_messages_are_framed(
    messages: Seq<Seq<u8>>,
    offset: usize,
    width: usize,
    endian: Endian,
    adjustment: i32,
)
    requires
        width == 1 || width == 2 || width == 4,
        offset <= 4_096,
        forall|i: int|
            0 <= i < messages.len() ==> is_counted_message(
                #[trigger] messages[i],
                offset,
                width,
                endian,
                adjustment,
            ),
    ensures
        ({
            let mode = FrameModeView::LengthField { offset, width, endian, adjustment };
            &&& framed(mode, concatenated(messages)) == (messages, Seq::<u8>::empty())
            &&& messages.len() > 0 ==> concatenated(messages).len() > 0
        }),
    decreases messages.len(),
{
    let mode = FrameModeView::LengthField { offset, width, endian, adjustment };
    if messages.len() == 0 {
        assert(concatenated(messages) =~= Seq::empty());
        assert(framed(mode, concatenated(messages)).0 =~= messages);
    } else {
        let rest = messages.skip(1);
        assert forall|i: int| 0 <= i < rest.len() implies is_counted_message(
            #[trigger] rest[i],
            offset,
            width,
            endian,
            adjustment,
        ) by {
            assert(rest[i] == messages[i + 1]);
        }
        counted_messages_are_framed(rest, offset, width, endian, adjustment);
        counted_message_is_the_first_frame(
            messages[0],
            concatenated(rest),
            offset,
            width,
            endian,
            adjustment,
        );
        assert(seq![messages[0]] + rest =~= messages);
    }
}

/// Of a message that holds its own length, any beginning waits for the rest.
pub proof fn unfinished_counted_message_waits(
    config: ProtocolConfigView,
    message: Seq<u8>,
    count: int,
    offset: usize,
    width: usize,
    endian: Endian,
    adjustment: i32,
)
    requires
        config.enabled,
        config.frame_mode == (FrameModeView::LengthField { offset, width, endian, adjustment }),
        width == 1 || width == 2 || width == 4,
        offset <= 4_096,
        is_counted_message(message, offset, width, endian, adjustment),
        0 <= count < message.len(),
    ensures
        pushed(config, Seq::empty(), message.take(count)).0.len() == 0,
        pushed(config, Seq::empty(), message.take(count)).1 == message.take(count),
{
    let part = message.take(count);
    assert(Seq::<u8>::empty() + part =~= part);
    if count >= offset + width {
        assert(part.subrange(offset as int, offset + width) =~= message.subrange(
            offset as int,
            offset + width,
        ));
        numbers::written_integers_read_back(message.len() - adjustment, width as int, endian);
    }
}

/// With a length field, every frame is a message that holds its own length.
pub proof fn counted_frames_are_messages(
    buffer: Seq<u8>,
    i: int,
    offset: usize,
    width: usize,
    endian: Endian,
    adjustment: i32,
)
    requires
        0 <= i < framed(
            (FrameModeView::LengthField { offset, width, endian, adjustment }),
            buffer,
        ).0.len(),
    ensures
        is_counted_message(
            framed((FrameModeView::LengthField { offset, width, endian, adjustment }), buffer).0[i],
            offset,
            width,
            endian,
            adjustment,
        ),
    decreases buffer.len(),
{
    let mode = FrameModeView::LengthField { offset, width, endian, adjustment };
    taken_fits(mode, buffer);
    match taken(mode, buffer) {
        Taken::Frame { consumed, output } => {
            let later = framed(mode, buffer.skip(consumed as int));
            assert(framed(mode, buffer).0 == seq![output] + later.0);
            if i > 0 {
                counted_frames_are_messages(
                    buffer.skip(consumed as int),
                    i - 1,
                    offset,
                    width,
                    endian,
                    adjustment,
                );
            } else {
                let header = buffer.subrange(offset as int, offset + width);
                assert(output.subrange(offset as int, offset + width) =~= header);
                numbers::read_integers_are_written_so(header, endian);
            }
        },
        Taken::NeedMore => {},
        Taken::DiscardOne => {
            counted_frames_are_messages(
                buffer.skip(1),
                i,
                offset,
                width,
                endian,
                adjustment,
            );
        },
    }
}

/// Where the length field holds a length that no frame can have, the first byte is dropped and the
/// search goes on behind it.
pub proof fn impossible_lengths_drop_one_byte(
    buffer: Seq<u8>,
    n: int,
    offset: usize,
    width: usize,
    endian: Endian,
    adjustment: i32,
)
    requires
        width == 1 || width == 2 || width == 4,
        offset <= 4_096,
        offset + width <= buffer.len(),
        0 <= n < numbers::value_count(width as int),
        buffer.subrange(offset as int, offset + width) == numbers::written_unsigned(
            n,
            width as int,
            endian,
        ),
        n + adjustment < offset + width || n + adjustment > 65_536,
    ensures
        ({
            let mode = FrameModeView::LengthField { offset, width, endian, adjustment };
            framed(mode, buffer) == framed(mode, buffer.skip(1))
        }),
{
    numbers::written_integers_read_back(n, width as int, endian);
}

/// Bytes in which the delimiter does not begin are cut off at the delimiter behind them, with or
/// without it as the mode says, and what follows is cut by itself.
pub proof fn delimited_message_is_the_first_frame(
    body: Seq<u8>,
    delimiter: Seq<u8>,
    rest: Seq<u8>,
    keep: bool,
)
    requires
        0 < delimiter.len() <= 256,
        body.len() + delimiter.len() <= 65_536,
        forall|i: int|
            0 <= i < body.len() ==> #[trigger] (body + delimiter).subrange(
                i,
                i + delimiter.len(),
            ) != delimiter,
    ensures
        ({
            let mode = FrameModeView::Delimiter { delimiter, keep };
            let later = framed(mode, rest);
            framed(mode, body + delimiter + rest) == (
                seq![
                    if keep {
                        body + delimiter
                    } else {
                        body
                    },
                ] + later.0,
                later.1,
            )
        }),
{
    let buffer = body + delimiter + rest;
    let k = body.len();
    let n = delimiter.len() as int;
    assert(buffer.subrange(k as int, k + n) =~= delimiter);
    assert forall|j: int| 0 <= j < k implies !stands_at(buffer, delimiter, j) by {
        assert(buffer.subrange(j, j + n) =~= (body + delimiter).subrange(j, j + n));
    }
    first_is_unique(buffer, delimiter, k);
    assert(buffer.take(k + n) =~= body + delimiter);
    assert(buffer.take(k as int) =~= body);
    assert(buffer.skip(k + n) =~= rest);
}

/// Bytes without a delimiter wait for it, as long as they fit in a frame.
pub proof fn undelimited_bytes_wait(
    config: ProtocolConfigView,
    bytes: Seq<u8>,
    delimiter: Seq<u8>,
    keep: bool,
)
    requires
        config.enabled,
        config.frame_mode == (FrameModeView::Delimiter { delimiter, keep }),
        0 < delimiter.len() <= 256,
        bytes.len() <= 65_536,
        forall|i: int|
            0 <= i <= bytes.len() - delimiter.len() ==> #[trigger] bytes.subrange(
                i,
                i + delimiter.len(),
            ) != delimiter,
    ensures
        pushed(config, Seq::empty(), bytes).0.len() == 0,
        pushed(config, Seq::empty(), bytes).1 == bytes,
{
    assert(Seq::<u8>::empty() + bytes =~= bytes);
    first_from_is_first(bytes, delimiter, 0);
}

/// A frame of the fixed length is cut off, and what follows it is cut by itself; fewer bytes wait.
pub proof fn fixed_frame_is_the_first_frame(frame: Seq<u8>, rest: Seq<u8>, part: Seq<u8>)
    requires
        0 < frame.len() <= 65_536,
        part.len() < frame.len(),
    ensures
        ({
            let mode = FrameModeView::FixedLength { length: frame.len() as usize };
            let later = framed(mode, rest);
            &&& framed(mode, frame + rest) == (seq![frame] + later.0, later.1)
            &&& framed(mode, part) == (Seq::<Seq<u8>>::empty(), part)
        }),
{
    let buffer = frame + rest;
    assert(buffer.take(frame.len() as int) =~= frame);
    assert(buffer.skip(frame.len() as int) =~= rest);
}

/// What a packet gives: nothing while decoding is off or where the packet is empty; where every
/// packet is a frame, that frame; otherwise the frames that what waited and the packet make up,
/// each decoded by the configuration, and then the rest waits. Beyond one mebibyte the oldest
/// bytes are dropped first.
pub proof fn packets_continue_the_stream(
    config: ProtocolConfigView,
    buffer: Seq<u8>,
    data: Seq<u8>,
)
    ensures
        ({
            let result = pushed(config, buffer, data);
            let all = buffer + data;
            let cut = framed(
                config.frame_mode,
                if all.len() <= 1_048_576 {
                    all
                } else {
                    all.subrange(all.len() - 1_048_576, all.len() as int)
                },
            );
            if !config.enabled || data.len() == 0 {
                result.0.len() == 0 && result.1 == buffer
            } else if config.frame_mode == FrameModeView::BlePacket {
                result.0 == seq![decoded_frame(data, config)] && result.1 == buffer
            } else {
                result.1 == cut.1 && result.0.len() == cut.0.len() && forall|i: int|
                    0 <= i < cut.0.len() ==> (#[trigger] result.0[i]) == decoded_frame(
                        cut.0[i],
                        config,
                    )
            }
        }),
{
    let all = buffer + data;
    if all.len() > 1_048_576 {
        assert(all.subrange(all.len() - 1_048_576, all.len() as int) =~= all.skip(
            all.len() - 1_048_576,
        ));
    }
}

/// A configuration that differs in anything is taken over and drops what waits. One that is the
/// same, with numbers for scale and bias, changes nothing.
pub proof fn changed_settings_start_afresh(
    decoder: StreamProtocolDecoderView,
    config: ProtocolConfigView,
)
    ensures
        ({
            let after = configured(decoder, config);
            let old = decoder.config;
            &&& old.enabled != config.enabled || old.frame_mode != config.frame_mode || old.crc
                != config.crc || old.fields.len() != config.fields.len() || (exists|i: int|
                0 <= i < old.fields.len() && i < config.fields.len() && ((
                #[trigger] old.fields[i]).name != config.fields[i].name || old.fields[i].offset
                    != config.fields[i].offset || old.fields[i].value_type
                    != config.fields[i].value_type || !numbers::equal_64(
                    old.fields[i].scale,
                    config.fields[i].scale,
                ) || !numbers::equal_64(old.fields[i].bias, config.fields[i].bias)))
                ==> after.config == config && after.buffer.len() == 0
            &&& old == config && (forall|i: int|
                0 <= i < old.fields.len() ==> !numbers::nan_64((#[trigger] old.fields[i]).scale)
                    && !numbers::nan_64(old.fields[i].bias)) ==> after == decoder
        }),
{
}

/// A new configuration is off: it takes every packet as a frame without a checksum, with one field
/// for the first byte as it is.
pub proof fn new_configurations_are_off(buffer: Seq<u8>, data: Seq<u8>)
    ensures
        ({
            let config = default_config();
            &&& !config.enabled && config.frame_mode == FrameModeView::BlePacket
            &&& config.crc == CrcMode::NoCrc && config.fields.len() == 1
            &&& config.fields[0].name == "value"@ && config.fields[0].offset == 0
            &&& config.fields[0].value_type == PlotValueType::U8
            &&& config.fields[0].scale.bits == 0x3FF0_0000_0000_0000
            &&& config.fields[0].bias.bits == 0
            &&& pushed(config, buffer, data).0.len() == 0 && pushed(config, buffer, data).1 == buffer
        }),
{
}

} // verus!
