//! Live plot channels and the decoding of primitive values.

use crate::ble::model::CharacteristicKey;
#[allow(unused_imports)]
use crate::ble::model::CharacteristicKeyView;
use crate::lists;
use crate::numbers;
use crate::numbers::{F32Bits, F64Bits};
use crate::protocol::Endian;
use crate::text;
use std::collections::VecDeque;
use vstd::prelude::*;
#[allow(unused_imports)]
use vstd::string::*;

verus! {

/// A primitive type of a value in a packet.
#[derive(Debug, Clone, Copy, PartialEq, Eq, Structural)]
pub enum PlotValueType {
    U8,
    I8,
    U16Le,
    U16Be,
    I16Le,
    I16Be,
    U32Le,
    U32Be,
    I32Le,
    I32Be,
    F32Le,
    F32Be,
}

/// How the bytes of a value are understood.
#[derive(Debug, Clone, Copy, PartialEq, Eq, Structural)]
pub enum NumberKind {
    Unsigned,
    Signed,
    Float,
}

impl Default for PlotValueType {
    fn default() -> (r: Self)
        ensures
            r == PlotValueType::U8,
    {
        PlotValueType::U8
    }
}

/// The number of bytes of a value.
pub open spec fn value_width(t: PlotValueType) -> nat {
    match t {
        PlotValueType::U8 => 1,
        PlotValueType::I8 => 1,
        PlotValueType::U16Le => 2,
        PlotValueType::U16Be => 2,
        PlotValueType::I16Le => 2,
        PlotValueType::I16Be => 2,
        PlotValueType::U32Le => 4,
        PlotValueType::U32Be => 4,
        PlotValueType::I32Le => 4,
        PlotValueType::I32Be => 4,
        PlotValueType::F32Le => 4,
        PlotValueType::F32Be => 4,
    }
}

/// How the bytes of a value are understood.
pub open spec fn value_kind(t: PlotValueType) -> NumberKind {
    match t {
        PlotValueType::U8 => NumberKind::Unsigned,
        PlotValueType::I8 => NumberKind::Signed,
        PlotValueType::U16Le => NumberKind::Unsigned,
        PlotValueType::U16Be => NumberKind::Unsigned,
        PlotValueType::I16Le => NumberKind::Signed,
        PlotValueType::I16Be => NumberKind::Signed,
        PlotValueType::U32Le => NumberKind::Unsigned,
        PlotValueType::U32Be => NumberKind::Unsigned,
        PlotValueType::I32Le => NumberKind::Signed,
        PlotValueType::I32Be => NumberKind::Signed,
        PlotValueType::F32Le => NumberKind::Float,
        PlotValueType::F32Be => NumberKind::Float,
    }
}

/// The byte order of a value.
pub open spec fn value_order(t: PlotValueType) -> Endian {
    match t {
        PlotValueType::U8 => Endian::Little,
        PlotValueType::I8 => Endian::Little,
        PlotValueType::U16Le => Endian::Little,
        PlotValueType::U16Be => Endian::Big,
        PlotValueType::I16Le => Endian::Little,
        PlotValueType::I16Be => Endian::Big,
        PlotValueType::U32Le => Endian::Little,
        PlotValueType::U32Be => Endian::Big,
        PlotValueType::I32Le => Endian::Little,
        PlotValueType::I32Be => Endian::Big,
        PlotValueType::F32Le => Endian::Little,
        PlotValueType::F32Be => Endian::Big,
    }
}

impl PlotValueType {
    /// Every type, in the order of the selector.
    pub const ALL: [PlotValueType; 12] = [
        PlotValueType::U8,
        PlotValueType::I8,
        PlotValueType::U16Le,
        PlotValueType::U16Be,
        PlotValueType::I16Le,
        PlotValueType::I16Be,
        PlotValueType::U32Le,
        PlotValueType::U32Be,
        PlotValueType::I32Le,
        PlotValueType::I32Be,
        PlotValueType::F32Le,
        PlotValueType::F32Be,
    ];

    /// The name shown to the user.
    pub fn label(self) -> (r: &'static str)
        ensures
            r@ == match self {
                PlotValueType::U8 => "u8"@,
                PlotValueType::I8 => "i8"@,
                PlotValueType::U16Le => "u16 LE"@,
                PlotValueType::U16Be => "u16 BE"@,
                PlotValueType::I16Le => "i16 LE"@,
                PlotValueType::I16Be => "i16 BE"@,
                PlotValueType::U32Le => "u32 LE"@,
                PlotValueType::U32Be => "u32 BE"@,
                PlotValueType::I32Le => "i32 LE"@,
                PlotValueType::I32Be => "i32 BE"@,
                PlotValueType::F32Le => "f32 LE"@,
                PlotValueType::F32Be => "f32 BE"@,
            },
    {
        match self {
            PlotValueType::U8 => "u8",
            PlotValueType::I8 => "i8",
            PlotValueType::U16Le => "u16 LE",
            PlotValueType::U16Be => "u16 BE",
            PlotValueType::I16Le => "i16 LE",
            PlotValueType::I16Be => "i16 BE",
            PlotValueType::U32Le => "u32 LE",
            PlotValueType::U32Be => "u32 BE",
            PlotValueType::I32Le => "i32 LE",
            PlotValueType::I32Be => "i32 BE",
            PlotValueType::F32Le => "f32 LE",
            PlotValueType::F32Be => "f32 BE",
        }
    }

    /// The number of bytes of a value.
    pub fn width(self) -> (r: usize)
        ensures
            r == value_width(self),
    {
        match self {
            PlotValueType::U8 => 1,
            PlotValueType::I8 => 1,
            PlotValueType::U16Le => 2,
            PlotValueType::U16Be => 2,
            PlotValueType::I16Le => 2,
            PlotValueType::I16Be => 2,
            PlotValueType::U32Le => 4,
            PlotValueType::U32Be => 4,
            PlotValueType::I32Le => 4,
            PlotValueType::I32Be => 4,
            PlotValueType::F32Le => 4,
            PlotValueType::F32Be => 4,
        }
    }

    fn kind(self) -> (r: NumberKind)
        ensures
            r == value_kind(self),
    {
        match self {
            PlotValueType::U8 => NumberKind::Unsigned,
            PlotValueType::I8 => NumberKind::Signed,
            PlotValueType::U16Le => NumberKind::Unsigned,
            PlotValueType::U16Be => NumberKind::Unsigned,
            PlotValueType::I16Le => NumberKind::Signed,
            PlotValueType::I16Be => NumberKind::Signed,
            PlotValueType::U32Le => NumberKind::Unsigned,
            PlotValueType::U32Be => NumberKind::Unsigned,
            PlotValueType::I32Le => NumberKind::Signed,
            PlotValueType::I32Be => NumberKind::Signed,
            PlotValueType::F32Le => NumberKind::Float,
            PlotValueType::F32Be => NumberKind::Float,
        }
    }

    fn order(self) -> (r: Endian)
        ensures
            r == value_order(self),
    {
        match self {
            PlotValueType::U8 => Endian::Little,
            PlotValueType::I8 => Endian::Little,
            PlotValueType::U16Le => Endian::Little,
            PlotValueType::U16Be => Endian::Big,
            PlotValueType::I16Le => Endian::Little,
            PlotValueType::I16Be => Endian::Big,
            PlotValueType::U32Le => Endian::Little,
            PlotValueType::U32Be => Endian::Big,
            PlotValueType::I32Le => Endian::Little,
            PlotValueType::I32Be => Endian::Big,
            PlotValueType::F32Le => Endian::Little,
            PlotValueType::F32Be => Endian::Big,
        }
    }
}

/// A primitive value as it stands in a packet.
#[derive(Debug, Clone, Copy, PartialEq)]
pub enum RawValue {
    /// An integer.
    Int(i64),
    /// A finite single-precision number.
    Float(F32Bits),
}

/// The number `raw * scale + bias`.
#[derive(Debug, Clone, Copy, PartialEq)]
pub struct ScaledValue {
    pub raw: RawValue,
    pub scale: F64Bits,
    pub bias: F64Bits,
}

/// The value of a type at an offset, where the packet holds all its bytes and it is finite.
pub open spec fn value_at(data: Seq<u8>, offset: nat, t: PlotValueType) -> Option<RawValue> {
    let width = value_width(t);
    if offset + width > data.len() {
        None
    } else {
        let unsigned = numbers::unsigned_value(
            data.subrange(offset as int, (offset + width) as int),
            value_order(t),
        );
        match value_kind(t) {
            NumberKind::Unsigned => Some(RawValue::Int(unsigned as i64)),
            NumberKind::Signed => Some(
                RawValue::Int(numbers::signed_value(unsigned, width) as i64),
            ),
            NumberKind::Float => {
                let number = F32Bits { bits: unsigned as u32 };
                if numbers::finite_32(number) {
                    Some(RawValue::Float(number))
                } else {
                    None
                }
            },
        }
    }
}

/// Decodes the value of a type at an offset.
pub fn decode_value(data: &[u8], offset: usize, value_type: PlotValueType) -> (r: Option<RawValue>)
    ensures
        r == value_at(data@, offset as nat, value_type),
{
    let width: usize = value_type.width();
    let end: usize = match offset.checked_add(width) {
        Some(end) => end,
        None => {
            assert(data.len() <= usize::MAX);
            return None;
        },
    };
    if end > data.len() {
        return None;
    }
    let unsigned: u64 = numbers::read_unsigned_at(data, offset, width, value_type.order());
    match value_type.kind() {
        NumberKind::Unsigned => Some(RawValue::Int(unsigned as i64)),
        NumberKind::Signed => {
            let half: i64 = if width == 1 {
                0x80
            } else if width == 2 {
                0x8000
            } else {
                0x8000_0000
            };
            let value: i64 = unsigned as i64;
            if value >= half {
                Some(RawValue::Int(value - 2 * half))
            } else {
                Some(RawValue::Int(value))
            }
        },
        NumberKind::Float => {
            let number = F32Bits { bits: unsigned as u32 };
            if number.is_finite() {
                Some(RawValue::Float(number))
            } else {
                None
            }
        },
    }
}

/// What a plot channel shows.
#[derive(Debug, PartialEq)]
pub struct PlotChannelConfig {
    pub name: String,
    pub enabled: bool,
    /// The characteristic whose notifications are plotted.
    pub source: Option<CharacteristicKey>,
    pub offset: usize,
    pub value_type: PlotValueType,
    pub scale: F64Bits,
    pub bias: F64Bits,
}

/// The mathematical value of [`PlotChannelConfig`].
#[verifier::ext_equal]
pub struct PlotChannelConfigView {
    pub name: Seq<char>,
    pub enabled: bool,
    pub source: Option<CharacteristicKeyView>,
    pub offset: usize,
    pub value_type: PlotValueType,
    pub scale: F64Bits,
    pub bias: F64Bits,
}

impl DeepView for PlotChannelConfig {
    type V = PlotChannelConfigView;

    open spec fn deep_view(&self) -> PlotChannelConfigView {
        PlotChannelConfigView {
            name: self.name@,
            enabled: self.enabled,
            source: self.source.deep_view(),
            offset: self.offset,
            value_type: self.value_type,
            scale: self.scale,
            bias: self.bias,
        }
    }
}

impl Clone for PlotChannelConfig {
    fn clone(&self) -> (r: Self)
        ensures
            r.deep_view() == self.deep_view(),
    {
        PlotChannelConfig {
            name: self.name.clone(),
            enabled: self.enabled,
            source: self.source.clone(),
            offset: self.offset,
            value_type: self.value_type,
            scale: self.scale,
            bias: self.bias,
        }
    }
}

/// A channel without a source.
pub open spec fn idle_channel(name: Seq<char>) -> PlotChannelConfigView {
    PlotChannelConfigView {
        name,
        enabled: false,
        source: None,
        offset: 0,
        value_type: PlotValueType::U8,
        scale: F64Bits { bits: numbers::ONE_BITS },
        bias: F64Bits { bits: 0 },
    }
}

impl Default for PlotChannelConfig {
    fn default() -> (r: Self)
        ensures
            r.deep_view() == idle_channel("CH1"@),
    {
        PlotChannelConfig {
            name: "CH1".to_owned(),
            enabled: false,
            source: None,
            offset: 0,
            value_type: PlotValueType::U8,
            scale: F64Bits::one(),
            bias: F64Bits::zero(),
        }
    }
}

/// One point of a plot: the number of the sample and its value.
#[derive(Debug, Clone, Copy, PartialEq)]
pub struct PlotSample {
    pub number: u64,
    pub value: F64Bits,
}

/// A plot channel with its newest samples.
pub struct PlotChannel {
    pub config: PlotChannelConfig,
    pub samples: VecDeque<PlotSample>,
    /// How many samples have been taken since the channel was cleared.
    pub counter: u64,
}

/// The mathematical value of [`PlotChannel`].
#[verifier::ext_equal]
pub struct PlotChannelView {
    pub config: PlotChannelConfigView,
    pub samples: Seq<PlotSample>,
    pub counter: u64,
}

impl DeepView for PlotChannel {
    type V = PlotChannelView;

    open spec fn deep_view(&self) -> PlotChannelView {
        PlotChannelView {
            config: self.config.deep_view(),
            samples: self.samples@,
            counter: self.counter,
        }
    }
}

/// A channel without samples.
pub open spec fn empty_channel(config: PlotChannelConfigView) -> PlotChannelView {
    PlotChannelView { config, samples: Seq::empty(), counter: 0 }
}

/// A channel after a packet whose reading has the given value.
pub open spec fn sampled(
    channel: PlotChannelView,
    source: CharacteristicKeyView,
    data: Seq<u8>,
    value: F64Bits,
    max_points: nat,
) -> PlotChannelView {
    if channel_reading(channel.config, source, data) is None || !numbers::finite_64(value) {
        channel
    } else {
        let number: u64 = if channel.counter == u64::MAX {
            u64::MAX
        } else {
            (channel.counter + 1) as u64
        };
        PlotChannelView {
            samples: lists::newest(channel.samples.push(PlotSample { number, value }), max_points),
            counter: number,
            ..channel
        }
    }
}

/// What a channel takes from a packet: the value at its offset, where the channel is on and the
/// packet comes from its source.
pub open spec fn channel_reading(
    config: PlotChannelConfigView,
    source: CharacteristicKeyView,
    data: Seq<u8>,
) -> Option<ScaledValue> {
    if !config.enabled || config.source != Some(source) {
        None
    } else {
        match value_at(data, config.offset as nat, config.value_type) {
            Some(raw) => Some(ScaledValue { raw, scale: config.scale, bias: config.bias }),
            None => None,
        }
    }
}

impl PlotChannel {
    /// A channel without samples.
    pub fn new(config: PlotChannelConfig) -> (r: Self)
        ensures
            r.deep_view() == empty_channel(config.deep_view()),
    {
        PlotChannel { config, samples: VecDeque::new(), counter: 0 }
    }

    /// What the channel takes from a packet. The sample's value is `raw * scale + bias`.
    pub fn reading(&self, source: &CharacteristicKey, data: &[u8]) -> (r: Option<ScaledValue>)
        ensures
            r == channel_reading(self.config.deep_view(), source.deep_view(), data@),
    {
        if !self.config.enabled {
            return None;
        }
        match &self.config.source {
            Some(own) => {
                if !own.same(source) {
                    return None;
                }
            },
            None => {
                return None;
            },
        }
        match decode_value(data, self.config.offset, self.config.value_type) {
            Some(raw) => Some(
                ScaledValue { raw, scale: self.config.scale, bias: self.config.bias },
            ),
            None => None,
        }
    }

    /// Takes a sample from a packet. `value` is the number that [`PlotChannel::reading`] stands
    /// for; a number that is not finite is passed over. The newest `max_points` samples stay.
    pub fn ingest(
        &mut self,
        source: &CharacteristicKey,
        data: &[u8],
        value: F64Bits,
        max_points: usize,
    )
        ensures
            final(self).deep_view() == sampled(
                old(self).deep_view(),
                source.deep_view(),
                data@,
                value,
                max_points as nat,
            ),
    {
        if self.reading(source, data).is_none() || !value.is_finite() {
            return;
        }
        let counter: u64 = self.counter.saturating_add(1);
        self.counter = counter;
        let ghost all = self.samples@.push(PlotSample { number: counter, value });
        self.samples.push_back(PlotSample { number: counter, value });
        lists::keep_newest(&mut self.samples, max_points);
        assert(self.samples@ =~= lists::newest(all, max_points as nat));
    }

    /// Drops the samples and starts the numbering anew.
    pub fn clear(&mut self)
        ensures
            final(self).deep_view() == empty_channel(old(self).deep_view().config),
    {
        self.samples.clear();
        self.counter = 0;
    }
}

/// A channel never keeps more samples than asked for, and the newest sample is the last one.
pub proof fn samples_stay_bounded(
    channel: PlotChannelView,
    source: CharacteristicKeyView,
    data: Seq<u8>,
    value: F64Bits,
    max_points: nat,
)
    requires
        channel_reading(channel.config, source, data) is Some,
        numbers::finite_64(value),
        channel.counter < u64::MAX,
        max_points > 0,
    ensures
        ({
            let after = sampled(channel, source, data, value, max_points);
            &&& after.samples.len() <= max_points
            &&& after.samples.last() == (PlotSample {
                number: (channel.counter + 1) as u64,
                value,
            })
        }),
{
}

/// An integer that is read lies in the range of its type.
pub proof fn integers_are_in_range(data: Seq<u8>, offset: nat, t: PlotValueType)
    requires
        value_at(data, offset, t) is Some,
    ensures
        value_at(data, offset, t)->0 matches RawValue::Int(n) ==> match t {
            PlotValueType::U8 => 0 <= n <= 255,
            PlotValueType::I8 => -128 <= n <= 127,
            PlotValueType::U16Le | PlotValueType::U16Be => 0 <= n <= 65_535,
            PlotValueType::I16Le | PlotValueType::I16Be => -32_768 <= n <= 32_767,
            PlotValueType::U32Le | PlotValueType::U32Be => 0 <= n <= 4_294_967_295,
            PlotValueType::I32Le | PlotValueType::I32Be => -2_147_483_648 <= n <= 2_147_483_647,
            PlotValueType::F32Le | PlotValueType::F32Be => false,
        },
{
    let width = value_width(t);
    let bytes = data.subrange(offset as int, (offset + width) as int);
    reveal_with_fuel(numbers::unsigned_value, 5);
    let order = value_order(t);
    if width == 1 {
        assert(numbers::unsigned_value(bytes, order) < 0x100);
    } else if width == 2 {
        assert(numbers::unsigned_value(bytes, order) < 0x1_0000);
    } else {
        assert(numbers::unsigned_value(bytes, order) < 0x1_0000_0000);
    }
}

/// The four channels of a new installation.
pub fn default_channels() -> (r: Vec<PlotChannelConfig>)
    ensures
        r.deep_view() == Seq::new(
            4,
            |i: int| idle_channel("CH"@ + text::decimal((i + 1) as nat)),
        ),
{
    let mut out: Vec<PlotChannelConfig> = Vec::new();
    let mut index: u64 = 1;
    while index <= 4
        invariant
            1 <= index <= 5,
            out.deep_view() =~= Seq::new(
                (index - 1) as nat,
                |i: int| idle_channel("CH"@ + text::decimal((i + 1) as nat)),
            ),
        decreases 5 - index,
    {
        let number = text::decimal_text(index);
        let name = text::joined("CH", number.as_str());
        let ghost before = out.deep_view();
        let base = PlotChannelConfig::default();
        out.push(PlotChannelConfig { name, ..base });
        assert(out.deep_view() =~= before.push(idle_channel("CH"@ + text::decimal(index as nat))));
        index = index + 1;
    }
    out
}

/// How an integer is written in a type: the low byte first in a type of the little byte order, the
/// high byte first in one of the big byte order, and negative numbers in two's complement.
pub open spec fn written_integer(n: int, t: PlotValueType) -> Seq<u8> {
    let u = if n >= 0 {
        n
    } else {
        match t {
            PlotValueType::U8 | PlotValueType::I8 => n + 256,
            PlotValueType::U16Le | PlotValueType::I16Le | PlotValueType::U16Be
            | PlotValueType::I16Be => n + 65_536,
            _ => n + 4_294_967_296,
        }
    };
    let a = (u % 256) as u8;
    let b = (u / 256 % 256) as u8;
    let c = (u / 65_536 % 256) as u8;
    let d = (u / 16_777_216 % 256) as u8;
    match t {
        PlotValueType::U8 | PlotValueType::I8 => seq![a],
        PlotValueType::U16Le | PlotValueType::I16Le => seq![a, b],
        PlotValueType::U16Be | PlotValueType::I16Be => seq![b, a],
        PlotValueType::U32Le | PlotValueType::I32Le | PlotValueType::F32Le => seq![a, b, c, d],
        PlotValueType::U32Be | PlotValueType::I32Be | PlotValueType::F32Be => seq![d, c, b, a],
    }
}

/// Whether an integer can be written in a type.
pub open spec fn is_integer_of(n: int, t: PlotValueType) -> bool {
    match t {
        PlotValueType::U8 => 0 <= n <= 255,
        PlotValueType::I8 => -128 <= n <= 127,
        PlotValueType::U16Le | PlotValueType::U16Be => 0 <= n <= 65_535,
        PlotValueType::I16Le | PlotValueType::I16Be => -32_768 <= n <= 32_767,
        PlotValueType::U32Le | PlotValueType::U32Be => 0 <= n <= 4_294_967_295,
        PlotValueType::I32Le | PlotValueType::I32Be => -2_147_483_648 <= n <= 2_147_483_647,
        PlotValueType::F32Le | PlotValueType::F32Be => false,
    }
}

/// An integer that was written in a type is read back where it stands, whatever stands before and
/// after it.
pub proof fn written_integers_are_read(
    before: Seq<u8>,
    after: Seq<u8>,
    n: int,
    t: PlotValueType,
)
    requires
        is_integer_of(n, t),
    ensures
        value_at(before + written_integer(n, t) + after, before.len(), t) == Some(
            RawValue::Int(n as i64),
        ),
{
    let bytes = written_integer(n, t);
    let width = bytes.len() as int;
    let data = before + bytes + after;
    assert(data.subrange(before.len() as int, before.len() + width) =~= bytes);
    let u = if n < 0 {
        n + numbers::value_count(width)
    } else {
        n
    };
    assert(bytes =~= numbers::written_unsigned(u, width, value_order(t)));
    numbers::written_integers_read_back(u, width, value_order(t));
}

/// A single-precision number that was written is read back where it stands, bit for bit; one that
/// is infinite or no number, with the largest exponent, gives no value.
pub proof fn written_floats_are_read(before: Seq<u8>, after: Seq<u8>, bits: u32, big: bool)
    ensures
        ({
            let t = if big {
                PlotValueType::F32Be
            } else {
                PlotValueType::F32Le
            };
            value_at(before + written_integer(bits as int, t) + after, before.len(), t) == (if bits
                / 0x80_0000 % 256 == 255 {
                None
            } else {
                Some(RawValue::Float(F32Bits { bits }))
            })
        }),
{
    let t = if big {
        PlotValueType::F32Be
    } else {
        PlotValueType::F32Le
    };
    let n = bits as int;
    let bytes = written_integer(n, t);
    let data = before + bytes + after;
    assert(data.subrange(before.len() as int, (before.len() + 4) as int) =~= bytes);
    assert(bytes =~= numbers::written_unsigned(n, 4, value_order(t)));
    numbers::written_integers_read_back(n, 4, value_order(t));
}

/// A value depends on the bytes of its own place only, and there is none where the data end before
/// that place does.
pub proof fn values_depend_on_their_bytes(
    data: Seq<u8>,
    other: Seq<u8>,
    offset: nat,
    t: PlotValueType,
)
    ensures
        ({
            let width: int = match t {
                PlotValueType::U8 | PlotValueType::I8 => 1,
                PlotValueType::U16Le | PlotValueType::U16Be | PlotValueType::I16Le
                | PlotValueType::I16Be => 2,
                _ => 4,
            };
            &&& offset + width > data.len() ==> value_at(data, offset, t) is None
            &&& offset + width <= data.len() && offset + width <= other.len() && (forall|i: int|
                offset <= i < offset + width ==> data[i] == other[i]) ==> value_at(
                data,
                offset,
                t,
            ) == value_at(other, offset, t)
            &&& offset + width <= data.len() && !(t is F32Le) && !(t is F32Be) ==> value_at(
                data,
                offset,
                t,
            ) is Some
        }),
{
    let width = value_width(t);
    if offset + width <= data.len() && offset + width <= other.len() && (forall|i: int|
        offset <= i < offset + width ==> data[i] == other[i]) {
        assert(data.subrange(offset as int, (offset + width) as int) =~= other.subrange(
            offset as int,
            (offset + width) as int,
        ));
    }
}

/// A channel takes a sample only from its own source, only while it is enabled, and only a number.
/// A sample goes behind the others, under the next number, and the oldest ones make room; nothing
/// else of the channel changes.
pub proof fn channels_take_their_own_samples(
    channel: PlotChannelView,
    source: CharacteristicKeyView,
    data: Seq<u8>,
    value: F64Bits,
    max_points: nat,
)
    ensures
        ({
            let after = sampled(channel, source, data, value, max_points);
            let taken = channel.config.enabled && channel.config.source == Some(source)
                && value_at(data, channel.config.offset as nat, channel.config.value_type) is Some
                && numbers::finite_64(value);
            let all = channel.samples.push(PlotSample { number: after.counter, value });
            &&& !taken ==> after == channel
            &&& after.config == channel.config
            &&& taken && channel.counter < u64::MAX ==> after.counter == channel.counter + 1
            &&& taken && channel.counter == u64::MAX ==> after.counter == u64::MAX
            &&& taken && all.len() <= max_points ==> after.samples == all
            &&& taken && all.len() > max_points ==> after.samples.len() == max_points && forall|
                i: int,
            |
                0 <= i < max_points ==> #[trigger] after.samples[i] == all[all.len() - max_points
                    + i]
        }),
{
}

/// The reading of a channel is the value at its place with its scale and its bias.
pub proof fn readings_carry_scale_and_bias(
    config: PlotChannelConfigView,
    source: CharacteristicKeyView,
    before: Seq<u8>,
    after: Seq<u8>,
    n: int,
)
    requires
        is_integer_of(n, config.value_type),
        config.offset == before.len(),
    ensures
        ({
            let data = before + written_integer(n, config.value_type) + after;
            let reading = channel_reading(config, source, data);
            &&& config.enabled && config.source == Some(source) ==> reading == Some(
                ScaledValue {
                    raw: RawValue::Int(n as i64),
                    scale: config.scale,
                    bias: config.bias,
                },
            )
            &&& !config.enabled || config.source != Some(source) ==> reading is None
        }),
{
    written_integers_are_read(before, after, n, config.value_type);
}

/// A new channel is off, shows nothing yet, and takes unsigned bytes from the start of a packet as
/// they are.
pub proof fn new_channels_are_off(name: Seq<char>)
    ensures
        ({
            let config = idle_channel(name);
            let channel = empty_channel(config);
            &&& config.name == name && !config.enabled && config.source is None
            &&& config.offset == 0 && config.value_type == PlotValueType::U8
            &&& config.scale.bits == 0x3FF0_0000_0000_0000 && config.bias.bits == 0
            &&& channel.config == config && channel.samples.len() == 0 && channel.counter == 0
        }),
{
}

} // verus!
