//! Protocol presets: the built-in ones and those that the user saved.

use crate::naming;
use crate::numbers::F64Bits;
#[allow(unused_imports)]
use crate::numbers::ONE_BITS;
use crate::plotting::PlotValueType;
use crate::protocol::{CrcMode, Endian, FieldDefinition, FrameMode, ProtocolConfig};
#[allow(unused_imports)]
use crate::protocol::{FieldDefinitionView, FrameModeView, ProtocolConfigView};
use crate::sorting;
use crate::sorting::Ranked;
use crate::text;
use std::path::PathBuf;
use vstd::prelude::*;
#[allow(unused_imports)]
use vstd::string::*;

verus! {

/// A named protocol configuration.
#[derive(Debug, PartialEq)]
pub struct ProtocolPreset {
    pub name: String,
    pub description: String,
    pub config: ProtocolConfig,
    pub saved_at: String,
}

/// The mathematical value of [`ProtocolPreset`].
#[verifier::ext_equal]
pub struct ProtocolPresetView {
    pub name: Seq<char>,
    pub description: Seq<char>,
    pub config: ProtocolConfigView,
    pub saved_at: Seq<char>,
}

impl DeepView for ProtocolPreset {
    type V = ProtocolPresetView;

    open spec fn deep_view(&self) -> ProtocolPresetView {
        ProtocolPresetView {
            name: self.name@,
            description: self.description@,
            config: self.config.deep_view(),
            saved_at: self.saved_at@,
        }
    }
}

impl Clone for ProtocolPreset {
    fn clone(&self) -> (r: Self)
        ensures
            r.deep_view() == self.deep_view(),
    {
        ProtocolPreset {
            name: self.name.clone(),
            description: self.description.clone(),
            config: self.config.clone(),
            saved_at: self.saved_at.clone(),
        }
    }
}

/// A preset and where it comes from.
#[derive(Debug)]
pub struct StoredProtocolPreset {
    pub preset: ProtocolPreset,
    pub path: Option<PathBuf>,
    pub built_in: bool,
}

/// The mathematical value of [`StoredProtocolPreset`].
#[verifier::ext_equal]
pub struct StoredProtocolPresetView {
    pub preset: ProtocolPresetView,
    pub path: Option<PathBuf>,
    pub built_in: bool,
}

impl DeepView for StoredProtocolPreset {
    type V = StoredProtocolPresetView;

    open spec fn deep_view(&self) -> StoredProtocolPresetView {
        StoredProtocolPresetView {
            preset: self.preset.deep_view(),
            path: self.path,
            built_in: self.built_in,
        }
    }
}

impl Clone for StoredProtocolPreset {
    fn clone(&self) -> (r: Self)
        ensures
            r.deep_view() == self.deep_view(),
    {
        StoredProtocolPreset {
            preset: self.preset.clone(),
            path: self.path.clone(),
            built_in: self.built_in,
        }
    }
}

/// A preset with one field.
pub open spec fn simple_preset(
    name: Seq<char>,
    description: Seq<char>,
    frame_mode: FrameModeView,
    crc: CrcMode,
) -> ProtocolPresetView {
    ProtocolPresetView {
        name,
        description,
        config: ProtocolConfigView {
            enabled: true,
            frame_mode,
            crc,
            fields: seq![crate::protocol::default_field()],
        },
        saved_at: Seq::empty(),
    }
}

/// A preset with one field.
fn preset(name: &str, description: &str, frame_mode: FrameMode, crc: CrcMode) -> (r: ProtocolPreset)
    ensures
        r.deep_view() == simple_preset(name@, description@, frame_mode.deep_view(), crc),
{
    let mut fields: Vec<FieldDefinition> = Vec::new();
    fields.push(FieldDefinition::default());
    assert(fields.deep_view() =~= seq![crate::protocol::default_field()]);
    ProtocolPreset {
        name: name.to_owned(),
        description: description.to_owned(),
        config: ProtocolConfig { enabled: true, frame_mode, crc, fields },
        saved_at: String::new(),
    }
}

/// An unsigned byte as it stands.
pub open spec fn byte_field(name: Seq<char>, offset: usize) -> FieldDefinitionView {
    FieldDefinitionView {
        name,
        offset,
        value_type: PlotValueType::U8,
        scale: F64Bits { bits: ONE_BITS },
        bias: F64Bits { bits: 0 },
    }
}

fn byte_at(name: &str, offset: usize) -> (r: FieldDefinition)
    ensures
        r.deep_view() == byte_field(name@, offset),
{
    FieldDefinition {
        name: name.to_owned(),
        offset,
        value_type: PlotValueType::U8,
        scale: F64Bits::one(),
        bias: F64Bits::zero(),
    }
}

/// The preset for Modbus RTU frames.
pub open spec fn modbus_preset() -> ProtocolPresetView {
    ProtocolPresetView {
        name: "Modbus RTU in BLE packet"@,
        description: "一个 BLE Notification 对应一个 Modbus RTU 帧，尾部 CRC16/MODBUS LE"@,
        config: ProtocolConfigView {
            enabled: true,
            frame_mode: FrameModeView::BlePacket,
            crc: CrcMode::Crc16ModbusLeTail,
            fields: seq![byte_field("slave"@, 0), byte_field("function"@, 1)],
        },
        saved_at: Seq::empty(),
    }
}

/// The presets that come with the application.
pub open spec fn standard_presets() -> Seq<ProtocolPresetView> {
    seq![
        simple_preset(
            "Raw BLE packet"@,
            "每个 Notification 作为一帧"@,
            FrameModeView::BlePacket,
            CrcMode::NoCrc,
        ),
        simple_preset(
            "CRLF text lines"@,
            "以 0D 0A 分隔文本/ASCII 数据"@,
            FrameModeView::Delimiter { delimiter: seq![0x0Du8, 0x0Au8], keep: false },
            CrcMode::NoCrc,
        ),
        simple_preset(
            "Fixed 20 bytes"@,
            "典型固定长度传感器帧"@,
            FrameModeView::FixedLength { length: 20 },
            CrcMode::NoCrc,
        ),
        simple_preset(
            "u8 length prefix"@,
            "首字节是总帧长度"@,
            FrameModeView::LengthField {
                offset: 0,
                width: 1,
                endian: Endian::Little,
                adjustment: 0,
            },
            CrcMode::NoCrc,
        ),
        modbus_preset(),
    ]
}

/// The presets that come with the application.
pub fn built_in_presets() -> (r: Vec<ProtocolPreset>)
    ensures
        r.deep_view() == standard_presets(),
{
    let mut delimiter: Vec<u8> = Vec::new();
    delimiter.push(0x0D);
    delimiter.push(0x0A);
    assert(delimiter@ =~= seq![0x0Du8, 0x0Au8]);
    let mut fields: Vec<FieldDefinition> = Vec::new();
    fields.push(byte_at("slave", 0));
    fields.push(byte_at("function", 1));
    assert(fields.deep_view() =~= seq![byte_field("slave"@, 0), byte_field("function"@, 1)]);
    let mut out: Vec<ProtocolPreset> = Vec::new();
    out.push(
        preset(
            "Raw BLE packet",
            "每个 Notification 作为一帧",
            FrameMode::BlePacket,
            CrcMode::NoCrc,
        ),
    );
    out.push(
        preset(
            "CRLF text lines",
            "以 0D 0A 分隔文本/ASCII 数据",
            FrameMode::Delimiter { delimiter, keep: false },
            CrcMode::NoCrc,
        ),
    );
    out.push(
        preset(
            "Fixed 20 bytes",
            "典型固定长度传感器帧",
            FrameMode::FixedLength { length: 20 },
            CrcMode::NoCrc,
        ),
    );
    out.push(
        preset(
            "u8 length prefix",
            "首字节是总帧长度",
            FrameMode::LengthField { offset: 0, width: 1, endian: Endian::Little, adjustment: 0 },
            CrcMode::NoCrc,
        ),
    );
    out.push(
        ProtocolPreset {
            name: "Modbus RTU in BLE packet".to_owned(),
            description: "一个 BLE Notification 对应一个 Modbus RTU 帧，尾部 CRC16/MODBUS LE".to_owned(),
            config: ProtocolConfig {
                enabled: true,
                frame_mode: FrameMode::BlePacket,
                crc: CrcMode::Crc16ModbusLeTail,
                fields,
            },
            saved_at: String::new(),
        },
    );
    assert(out.deep_view() =~= standard_presets());
    out
}

/// Every built-in preset is switched on and has a name.
pub proof fn built_in_presets_are_ready(i: int)
    requires
        0 <= i < standard_presets().len(),
    ensures
        standard_presets()[i].config.enabled,
        standard_presets()[i].name.len() > 0,
        crate::protocol::usable_mode(standard_presets()[i].config.frame_mode),
{
    reveal_strlit("Raw BLE packet");
    reveal_strlit("CRLF text lines");
    reveal_strlit("Fixed 20 bytes");
    reveal_strlit("u8 length prefix");
    reveal_strlit("Modbus RTU in BLE packet");
}

impl Ranked for StoredProtocolPreset {
    open spec fn in_rank(a: StoredProtocolPresetView, b: StoredProtocolPresetView) -> bool {
        text::text_le(a.preset.name, b.preset.name)
    }

    fn not_after(&self, other: &Self) -> (r: bool) {
        text::text_not_after(self.preset.name.as_str(), other.preset.name.as_str())
    }
}

/// The presets that the user saved, in the order in which they are offered.
pub open spec fn custom_presets(found: Seq<StoredProtocolPresetView>) -> Seq<
    StoredProtocolPresetView,
> {
    sorting::sorted_by(
        found,
        |a: StoredProtocolPresetView, b: StoredProtocolPresetView|
            StoredProtocolPreset::in_rank(a, b),
    )
}

/// Every preset: the built-in ones, then those of the user by name where they could be read.
pub open spec fn all_presets(custom: Option<Seq<StoredProtocolPresetView>>) -> Seq<
    StoredProtocolPresetView,
> {
    standard_presets().map_values(
        |preset: ProtocolPresetView|
            StoredProtocolPresetView { preset, path: None, built_in: true },
    ) + match custom {
        Some(found) => custom_presets(found),
        None => Seq::empty(),
    }
}

/// Every preset, given those of the user where they could be read.
pub fn load_all(custom: Option<Vec<StoredProtocolPreset>>) -> (r: Vec<StoredProtocolPreset>)
    ensures
        r.deep_view() == all_presets(custom.deep_view()),
{
    let presets = built_in_presets();
    let ghost standard = presets.deep_view();
    let mut result: Vec<StoredProtocolPreset> = Vec::new();
    let mut i: usize = 0;
    while i < presets.len()
        invariant
            i <= presets@.len(),
            standard == presets.deep_view(),
            result.deep_view() =~= standard.take(i as int).map_values(
                |preset: ProtocolPresetView|
                    StoredProtocolPresetView { preset, path: None, built_in: true },
            ),
        decreases presets@.len() - i,
    {
        let ghost before = result.deep_view();
        assert(standard[i as int] == presets@[i as int].deep_view());
        result.push(
            StoredProtocolPreset { preset: presets[i].clone(), path: None, built_in: true },
        );
        assert(result.deep_view() =~= before.push(
            StoredProtocolPresetView { preset: standard[i as int], path: None, built_in: true },
        ));
        i = i + 1;
    }
    assert(standard.take(i as int) =~= standard);
    let ghost built_in = result.deep_view();
    match custom {
        Some(found) => {
            let mut own = found;
            sorting::stable_sort(&mut own);
            let ghost sorted = own.deep_view();
            result.append(&mut own);
            assert(result.deep_view() =~= built_in + sorted);
        },
        None => {
            assert(result.deep_view() =~= built_in + Seq::empty());
        },
    }
    result
}

/// The built-in presets come first, whatever the user saved.
pub proof fn built_in_presets_come_first(custom: Option<Seq<StoredProtocolPresetView>>, i: int)
    requires
        0 <= i < standard_presets().len(),
    ensures
        all_presets(custom)[i].built_in,
        all_presets(custom)[i].preset == standard_presets()[i],
{
}

/// The file name for a preset, without its extension.
pub fn sanitize_file_name(input: &str) -> (r: String)
    ensures
        r@ == naming::safe_name(input@, "preset"@),
{
    naming::safe_file_name(input, "preset")
}

/// What is written for a preset, and the name of its file.
pub fn save_custom(preset: ProtocolPreset, saved_at: String) -> (r: (ProtocolPreset, String))
    ensures
        r.0.deep_view() == (ProtocolPresetView { saved_at: saved_at@, ..preset.deep_view() }),
        r.1@ == naming::safe_name(preset.name@, "preset"@) + ".json"@,
{
    let stem = sanitize_file_name(preset.name.as_str());
    let file_name = text::joined(stem.as_str(), ".json");
    (ProtocolPreset { saved_at, ..preset }, file_name)
}

/// The presets of the user are offered by name, and none is lost.
pub proof fn custom_presets_are_sorted_by_name(found: Seq<StoredProtocolPresetView>)
    ensures
        custom_presets(found).to_multiset() == found.to_multiset(),
        custom_presets(found).len() == found.len(),
        forall|i: int, j: int|
            0 <= i < j < custom_presets(found).len() ==> text::text_le(
                (#[trigger] custom_presets(found)[i]).preset.name,
                (#[trigger] custom_presets(found)[j]).preset.name,
            ),
{
    let rank = |a: StoredProtocolPresetView, b: StoredProtocolPresetView|
        StoredProtocolPreset::in_rank(a, b);
    assert forall|a: StoredProtocolPresetView, b: StoredProtocolPresetView| #[trigger]
        rank(a, b) || rank(b, a) by {
        text::text_order_is_total(a.preset.name, b.preset.name);
    }
    assert forall|
        a: StoredProtocolPresetView,
        b: StoredProtocolPresetView,
        c: StoredProtocolPresetView,
    | #[trigger]
        rank(a, b) && #[trigger] rank(b, c) implies rank(a, c) by {
        text::text_order_is_transitive(a.preset.name, b.preset.name, c.preset.name);
    }
    sorting::sorting_sorts(found, rank);
    sorting::sorting_keeps_items(found, rank);
    let sorted = custom_presets(found);
    assert forall|i: int, j: int| 0 <= i < j < sorted.len() implies text::text_le(
        (#[trigger] sorted[i]).preset.name,
        (#[trigger] sorted[j]).preset.name,
    ) by {
        assert(rank(sorted[i], sorted[j]));
    }
}

} // verus!
