//! The settings of the protocol analyzer.

use crate::ble::model::CharacteristicKey;
#[allow(unused_imports)]
use crate::ble::model::CharacteristicKeyView;
use crate::codec;
use crate::codec::HexError;
use crate::protocol;
use crate::protocol::{Endian, FieldDefinition, FrameMode, ProtocolConfig};
#[allow(unused_imports)]
use crate::protocol::{FieldDefinitionView, FrameModeView, ProtocolConfigView};
use crate::protocol_preset::{ProtocolPreset, StoredProtocolPreset};
#[allow(unused_imports)]
use crate::protocol_preset::{ProtocolPresetView, StoredProtocolPresetView};
use crate::text;
use vstd::prelude::*;
#[allow(unused_imports)]
use vstd::string::*;

verus! {

/// The most fields of a configuration.
pub const MAX_FIELDS: usize = 32;

/// The settings of the protocol analyzer.
#[derive(Debug)]
pub struct ProtocolPanel {
    /// The characteristic whose packets are decoded.
    pub source: Option<CharacteristicKey>,
    pub config: ProtocolConfig,
    /// The delimiter as the user writes it.
    pub delimiter_hex: String,
    pub presets: Vec<StoredProtocolPreset>,
    pub selected_preset: Option<usize>,
    pub preset_name: String,
}

/// The mathematical value of [`ProtocolPanel`].
#[verifier::ext_equal]
pub struct ProtocolPanelView {
    pub source: Option<CharacteristicKeyView>,
    pub config: ProtocolConfigView,
    pub delimiter_hex: Seq<char>,
    pub presets: Seq<StoredProtocolPresetView>,
    pub selected_preset: Option<usize>,
    pub preset_name: Seq<char>,
}

impl DeepView for ProtocolPanel {
    type V = ProtocolPanelView;

    open spec fn deep_view(&self) -> ProtocolPanelView {
        ProtocolPanelView {
            source: self.source.deep_view(),
            config: self.config.deep_view(),
            delimiter_hex: self.delimiter_hex@,
            presets: self.presets.deep_view(),
            selected_preset: self.selected_preset,
            preset_name: self.preset_name@,
        }
    }
}

/// The kinds of framing.
#[derive(Debug, Clone, Copy, PartialEq, Eq, Structural)]
pub enum FrameKind {
    BlePacket,
    FixedLength,
    Delimiter,
    LengthField,
}

/// The kind of a framing.
pub open spec fn kind_of(mode: FrameModeView) -> FrameKind {
    match mode {
        FrameModeView::BlePacket => FrameKind::BlePacket,
        FrameModeView::FixedLength { .. } => FrameKind::FixedLength,
        FrameModeView::Delimiter { .. } => FrameKind::Delimiter,
        FrameModeView::LengthField { .. } => FrameKind::LengthField,
    }
}

/// The framing with which a kind starts.
pub open spec fn initial_mode(kind: FrameKind) -> FrameModeView {
    match kind {
        FrameKind::BlePacket => FrameModeView::BlePacket,
        FrameKind::FixedLength => FrameModeView::FixedLength { length: 8 },
        FrameKind::Delimiter => FrameModeView::Delimiter {
            delimiter: seq![0x0Du8, 0x0Au8],
            keep: false,
        },
        FrameKind::LengthField => FrameModeView::LengthField {
            offset: 0,
            width: 1,
            endian: Endian::Little,
            adjustment: 0,
        },
    }
}

/// The delimiter text after a framing was taken over.
pub open spec fn delimiter_text(mode: FrameModeView, text: Seq<char>) -> Seq<char> {
    match mode {
        FrameModeView::Delimiter { delimiter, .. } => codec::hex_text(delimiter),
        _ => text,
    }
}

/// The panel after another kind of framing was chosen.
pub open spec fn with_kind(v: ProtocolPanelView, kind: FrameKind) -> ProtocolPanelView {
    if kind == kind_of(v.config.frame_mode) {
        v
    } else {
        ProtocolPanelView {
            config: ProtocolConfigView { frame_mode: initial_mode(kind), ..v.config },
            delimiter_hex: delimiter_text(initial_mode(kind), v.delimiter_hex),
            ..v
        }
    }
}

/// The panel after a preset was chosen.
pub open spec fn with_preset(v: ProtocolPanelView, index: usize) -> ProtocolPanelView {
    if index < v.presets.len() {
        let preset = v.presets[index as int].preset;
        ProtocolPanelView {
            selected_preset: Some(index),
            preset_name: preset.name,
            config: preset.config,
            delimiter_hex: delimiter_text(preset.config.frame_mode, v.delimiter_hex),
            ..v
        }
    } else {
        v
    }
}

/// The name under which the configuration is saved.
pub open spec fn saved_name(v: ProtocolPanelView) -> Seq<char> {
    if text::trim(v.preset_name).len() == 0 {
        "Custom Protocol"@
    } else {
        text::trim(v.preset_name)
    }
}

/// What became of the delimiter text.
#[derive(Debug)]
pub enum DelimiterCheck {
    /// The framing has no delimiter.
    Unused,
    /// The delimiter was taken over.
    Taken,
    /// The text denotes no byte; the delimiter stays as it was.
    Empty,
    /// The text cannot be read; the delimiter stays as it was.
    Invalid(HexError),
}

impl FrameMode {
    /// The kind of the framing.
    pub fn kind(&self) -> (r: FrameKind)
        ensures
            r == kind_of(self.deep_view()),
    {
        match self {
            FrameMode::BlePacket => FrameKind::BlePacket,
            FrameMode::FixedLength { .. } => FrameKind::FixedLength,
            FrameMode::Delimiter { .. } => FrameKind::Delimiter,
            FrameMode::LengthField { .. } => FrameKind::LengthField,
        }
    }
}

fn mode_for(kind: FrameKind) -> (r: FrameMode)
    ensures
        r.deep_view() == initial_mode(kind),
{
    match kind {
        FrameKind::BlePacket => FrameMode::BlePacket,
        FrameKind::FixedLength => FrameMode::FixedLength { length: 8 },
        FrameKind::Delimiter => {
            let mut delimiter: Vec<u8> = Vec::new();
            delimiter.push(0x0D);
            delimiter.push(0x0A);
            assert(delimiter@ =~= seq![0x0Du8, 0x0Au8]);
            FrameMode::Delimiter { delimiter, keep: false }
        },
        FrameKind::LengthField => FrameMode::LengthField {
            offset: 0,
            width: 1,
            endian: Endian::Little,
            adjustment: 0,
        },
    }
}

/// The delimiter text of a framing, where it has a delimiter.
pub fn delimiter_of(mode: &FrameMode, fallback: &String) -> (r: String)
    ensures
        r@ == delimiter_text(mode.deep_view(), fallback@),
{
    match mode {
        FrameMode::Delimiter { delimiter, .. } => codec::format_hex(delimiter.as_slice()),
        _ => fallback.clone(),
    }
}

impl ProtocolPanel {
    /// Chooses another kind of framing. Tells whether anything changed.
    pub fn switch_kind(&mut self, kind: FrameKind) -> (r: bool)
        ensures
            final(self).deep_view() == with_kind(old(self).deep_view(), kind),
            r == (kind != kind_of(old(self).deep_view().config.frame_mode)),
    {
        if kind == self.config.frame_mode.kind() {
            return false;
        }
        self.config.frame_mode = mode_for(kind);
        self.delimiter_hex = delimiter_of(&self.config.frame_mode, &self.delimiter_hex);
        true
    }

    /// Takes over the delimiter text.
    pub fn apply_delimiter(&mut self) -> (r: DelimiterCheck)
        requires
            codec::is_hex_readable(old(self).delimiter_hex@),
        ensures
            ({
                let v = old(self).deep_view();
                match (v.config.frame_mode, codec::hex_result(v.delimiter_hex)) {
                    (FrameModeView::Delimiter { keep, .. }, Ok(delimiter)) => if delimiter.len()
                        > 0 {
                        r is Taken && final(self).deep_view() == (ProtocolPanelView {
                            config: ProtocolConfigView {
                                frame_mode: FrameModeView::Delimiter { delimiter, keep },
                                ..v.config
                            },
                            ..v
                        })
                    } else {
                        r is Empty && final(self).deep_view() == v
                    },
                    (FrameModeView::Delimiter { .. }, Err(token)) => {
                        &&& final(self).deep_view() == v
                        &&& r matches DelimiterCheck::Invalid(error)
                        &&& match error {
                            HexError::OddLength => token is None,
                            HexError::InvalidByte(found) => token == Some(found@),
                        }
                    },
                    _ => r is Unused && final(self).deep_view() == v,
                }
            }),
    {
        let keep = match &self.config.frame_mode {
            FrameMode::Delimiter { keep, .. } => *keep,
            _ => {
                return DelimiterCheck::Unused;
            },
        };
        match codec::parse_hex(self.delimiter_hex.as_str()) {
            Ok(delimiter) => if delimiter.len() > 0 {
                self.config.frame_mode = FrameMode::Delimiter { delimiter, keep };
                DelimiterCheck::Taken
            } else {
                DelimiterCheck::Empty
            },
            Err(error) => DelimiterCheck::Invalid(error),
        }
    }

    /// Adds a field, up to the limit.
    pub fn add_field(&mut self)
        ensures
            final(self).deep_view() == ({
                let v = old(self).deep_view();
                if v.config.fields.len() < MAX_FIELDS {
                    ProtocolPanelView {
                        config: ProtocolConfigView {
                            fields: v.config.fields.push(
                                FieldDefinitionView {
                                    name: "field"@ + text::decimal(
                                        (v.config.fields.len() + 1) as nat,
                                    ),
                                    ..protocol::default_field()
                                },
                            ),
                            ..v.config
                        },
                        ..v
                    }
                } else {
                    v
                }
            }),
    {
        if self.config.fields.len() < MAX_FIELDS {
            let ghost before = self.config.fields.deep_view();
            let number = text::decimal_text((self.config.fields.len() + 1) as u64);
            let base = FieldDefinition::default();
            let added = FieldDefinition { name: text::joined("field", number.as_str()), ..base };
            let ghost value = added.deep_view();
            self.config.fields.push(added);
            assert(self.config.fields.deep_view() =~= before.push(value));
        }
    }

    /// Removes a field.
    pub fn remove_field(&mut self, index: usize)
        requires
            index < old(self).config.fields@.len(),
        ensures
            final(self).deep_view() == (ProtocolPanelView {
                config: ProtocolConfigView {
                    fields: old(self).deep_view().config.fields.remove(index as int),
                    ..old(self).deep_view().config
                },
                ..old(self).deep_view()
            }),
    {
        let ghost before = self.config.fields.deep_view();
        let _ = self.config.fields.remove(index);
        assert(self.config.fields.deep_view() =~= before.remove(index as int));
    }

    /// Takes over a preset. Returns its name, where there is such a preset.
    pub fn apply_preset(&mut self, index: usize) -> (r: Option<String>)
        ensures
            final(self).deep_view() == with_preset(old(self).deep_view(), index),
            match r {
                Some(name) => index < old(self).presets@.len() && name@ == old(
                    self,
                ).deep_view().presets[index as int].preset.name,
                None => index >= old(self).presets@.len(),
            },
    {
        if index >= self.presets.len() {
            return None;
        }
        let ghost all = self.presets.deep_view();
        assert(all[index as int] == self.presets@[index as int].deep_view());
        let preset = self.presets[index].preset.clone();
        self.selected_preset = Some(index);
        self.preset_name = preset.name.clone();
        self.delimiter_hex = delimiter_of(&preset.config.frame_mode, &self.delimiter_hex);
        self.config = preset.config;
        Some(preset.name)
    }

    /// The preset under which the configuration is saved.
    pub fn preset_to_save(&self) -> (r: ProtocolPreset)
        ensures
            r.deep_view() == (ProtocolPresetView {
                name: saved_name(self.deep_view()),
                description: "用户保存的协议配置"@,
                config: self.deep_view().config,
                saved_at: Seq::empty(),
            }),
    {
        let trimmed = text::trimmed(self.preset_name.as_str());
        let name = if trimmed.as_str().is_empty() {
            "Custom Protocol".to_owned()
        } else {
            trimmed
        };
        ProtocolPreset {
            name,
            description: "用户保存的协议配置".to_owned(),
            config: self.config.clone(),
            saved_at: String::new(),
        }
    }

    /// Takes the presets as they are after one was saved, and its place among them.
    pub fn preset_saved(
        &mut self,
        name: String,
        presets: Vec<StoredProtocolPreset>,
        position: Option<usize>,
    )
        ensures
            final(self).deep_view() == (ProtocolPanelView {
                presets: presets.deep_view(),
                selected_preset: position,
                preset_name: name@,
                ..old(self).deep_view()
            }),
    {
        self.presets = presets;
        self.selected_preset = position;
        self.preset_name = name;
    }
}

/// Every kind of framing starts with settings that can find frames.
pub proof fn initial_modes_are_usable(kind: FrameKind)
    ensures
        protocol::usable_mode(initial_mode(kind)),
        kind_of(initial_mode(kind)) == kind,
{
}

/// Choosing another kind of framing starts it with settings of that kind and keeps everything else
/// of the configuration; choosing the kind in force changes nothing.
pub proof fn other_kinds_start_afresh(v: ProtocolPanelView, kind: FrameKind)
    ensures
        ({
            let after = with_kind(v, kind);
            &&& kind_of(after.config.frame_mode) == kind
            &&& kind_of(v.config.frame_mode) == kind ==> after == v
            &&& after.config.crc == v.config.crc && after.config.fields == v.config.fields
            &&& after.config.enabled == v.config.enabled && after.source == v.source
            &&& kind_of(v.config.frame_mode) != kind ==> protocol::usable_mode(
                after.config.frame_mode,
            )
            &&& kind_of(v.config.frame_mode) != kind ==> (
            after.config.frame_mode matches FrameModeView::Delimiter { delimiter, .. }
                ==> codec::hex_result(after.delimiter_hex) == Ok::<Seq<u8>, Option<Seq<char>>>(
                delimiter,
            ))
            &&& kind != FrameKind::Delimiter ==> after.delimiter_hex == v.delimiter_hex
        }),
{
    codec::hex_notation_reads_back(seq![0x0Du8, 0x0Au8]);
}

/// A preset brings its configuration and its name, with the text of its delimiter, which reads back
/// as the delimiter; a preset that is not there changes nothing.
pub proof fn presets_bring_their_configuration(v: ProtocolPanelView, index: usize)
    ensures
        index >= v.presets.len() ==> with_preset(v, index) == v,
        index < v.presets.len() ==> ({
            let after = with_preset(v, index);
            let preset = v.presets[index as int].preset;
            &&& after.config == preset.config && after.preset_name == preset.name
            &&& after.selected_preset == Some(index) && after.presets == v.presets
            &&& after.source == v.source
            &&& preset.config.frame_mode matches FrameModeView::Delimiter { delimiter, .. }
                ==> codec::hex_result(after.delimiter_hex) == Ok::<Seq<u8>, Option<Seq<char>>>(
                delimiter,
            )
        }),
{
    if index < v.presets.len() {
        if let FrameModeView::Delimiter { delimiter, .. } =
            v.presets[index as int].preset.config.frame_mode {
            codec::hex_notation_reads_back(delimiter);
        }
    }
}

/// A configuration is saved under the name that was given, without the white space around it, or
/// under a name of its own where none was given.
pub proof fn configurations_are_saved_under_their_names(
    v: ProtocolPanelView,
    left: Seq<char>,
    name: Seq<char>,
    right: Seq<char>,
)
    requires
        forall|i: int| 0 <= i < left.len() ==> text::is_space(#[trigger] left[i]),
        forall|i: int| 0 <= i < right.len() ==> text::is_space(#[trigger] right[i]),
        name.len() > 0 ==> !text::is_space(name[0]) && !text::is_space(name.last()),
        v.preset_name == left + name + right,
    ensures
        name.len() > 0 ==> saved_name(v) == name,
        name.len() == 0 ==> saved_name(v) == "Custom Protocol"@,
{
    text::trimming_drops_the_ends(left, name, right);
}

/// The settings with which each kind of framing starts: eight bytes, a line end that is dropped, or
/// one byte at the start that holds the length of the whole frame.
pub proof fn kinds_start_with_common_settings()
    ensures
        initial_mode(FrameKind::BlePacket) == FrameModeView::BlePacket,
        initial_mode(FrameKind::FixedLength) == (FrameModeView::FixedLength { length: 8 }),
        initial_mode(FrameKind::Delimiter) == (FrameModeView::Delimiter {
            delimiter: seq![13u8, 10u8],
            keep: false,
        }),
        initial_mode(FrameKind::LengthField) == (FrameModeView::LengthField {
            offset: 0,
            width: 1,
            endian: Endian::Little,
            adjustment: 0,
        }),
{
}

} // verus!
