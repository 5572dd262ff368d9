//! The boundary to protocol plugins: plain packets in, plain frames out.

use crate::numbers::F64Bits;
use crate::text;
use vstd::prelude::*;
#[allow(unused_imports)]
use vstd::string::*;

verus! {

/// The version of the boundary; a change that breaks plugins raises it.
pub const PROTOCOL_PLUGIN_API_MAJOR: u16 = 1;

/// The revision of the boundary; an addition raises it.
pub const PROTOCOL_PLUGIN_API_MINOR: u16 = 0;

/// What a plugin says of itself.
#[derive(Debug, PartialEq, Eq)]
pub struct ProtocolPluginManifest {
    pub id: String,
    pub name: String,
    pub version: String,
    pub api_major: u16,
    pub api_minor: u16,
    pub description: String,
}

/// The mathematical value of [`ProtocolPluginManifest`].
#[verifier::ext_equal]
pub struct ProtocolPluginManifestView {
    pub id: Seq<char>,
    pub name: Seq<char>,
    pub version: Seq<char>,
    pub api_major: u16,
    pub api_minor: u16,
    pub description: Seq<char>,
}

impl DeepView for ProtocolPluginManifest {
    type V = ProtocolPluginManifestView;

    open spec fn deep_view(&self) -> ProtocolPluginManifestView {
        ProtocolPluginManifestView {
            id: self.id@,
            name: self.name@,
            version: self.version@,
            api_major: self.api_major,
            api_minor: self.api_minor,
            description: self.description@,
        }
    }
}

impl Clone for ProtocolPluginManifest {
    fn clone(&self) -> (r: Self)
        ensures
            r.deep_view() == self.deep_view(),
    {
        ProtocolPluginManifest {
            id: self.id.clone(),
            name: self.name.clone(),
            version: self.version.clone(),
            api_major: self.api_major,
            api_minor: self.api_minor,
            description: self.description.clone(),
        }
    }
}

/// A packet handed to a plugin.
#[derive(Debug, PartialEq, Eq)]
pub struct PluginPacket {
    pub timestamp: String,
    pub service_uuid: String,
    pub characteristic_uuid: String,
    pub payload: Vec<u8>,
}

/// The mathematical value of [`PluginPacket`].
#[verifier::ext_equal]
pub struct PluginPacketView {
    pub timestamp: Seq<char>,
    pub service_uuid: Seq<char>,
    pub characteristic_uuid: Seq<char>,
    pub payload: Seq<u8>,
}

impl DeepView for PluginPacket {
    type V = PluginPacketView;

    open spec fn deep_view(&self) -> PluginPacketView {
        PluginPacketView {
            timestamp: self.timestamp@,
            service_uuid: self.service_uuid@,
            characteristic_uuid: self.characteristic_uuid@,
            payload: self.payload@,
        }
    }
}

impl Clone for PluginPacket {
    fn clone(&self) -> (r: Self)
        ensures
            r.deep_view() == self.deep_view(),
    {
        let r = PluginPacket {
            timestamp: self.timestamp.clone(),
            service_uuid: self.service_uuid.clone(),
            characteristic_uuid: self.characteristic_uuid.clone(),
            payload: self.payload.clone(),
        };
        assert(r.payload@ =~= self.payload@);
        r
    }
}

/// A value in a frame of a plugin: a number, a text, or both.
#[derive(Debug, PartialEq)]
pub struct PluginField {
    pub name: String,
    pub value: Option<F64Bits>,
    pub text: Option<String>,
}

/// The mathematical value of [`PluginField`].
#[verifier::ext_equal]
pub struct PluginFieldView {
    pub name: Seq<char>,
    pub value: Option<F64Bits>,
    pub text: Option<Seq<char>>,
}

impl DeepView for PluginField {
    type V = PluginFieldView;

    open spec fn deep_view(&self) -> PluginFieldView {
        PluginFieldView {
            name: self.name@,
            value: self.value,
            text: self.text.deep_view(),
        }
    }
}

impl Clone for PluginField {
    fn clone(&self) -> (r: Self)
        ensures
            r.deep_view() == self.deep_view(),
    {
        PluginField {
            name: self.name.clone(),
            value: self.value,
            text: self.text.clone(),
        }
    }
}

/// A frame that a plugin has found.
#[derive(Debug, PartialEq)]
pub struct PluginFrame {
    pub protocol: String,
    pub frame_type: Option<String>,
    pub payload: Vec<u8>,
    pub fields: Vec<PluginField>,
    pub warnings: Vec<String>,
}

/// The mathematical value of [`PluginFrame`].
#[verifier::ext_equal]
pub struct PluginFrameView {
    pub protocol: Seq<char>,
    pub frame_type: Option<Seq<char>>,
    pub payload: Seq<u8>,
    pub fields: Seq<PluginFieldView>,
    pub warnings: Seq<Seq<char>>,
}

impl DeepView for PluginFrame {
    type V = PluginFrameView;

    open spec fn deep_view(&self) -> PluginFrameView {
        PluginFrameView {
            protocol: self.protocol@,
            frame_type: self.frame_type.deep_view(),
            payload: self.payload@,
            fields: self.fields.deep_view(),
            warnings: self.warnings.deep_view(),
        }
    }
}

impl Clone for PluginFrame {
    fn clone(&self) -> (r: Self)
        ensures
            r.deep_view() == self.deep_view(),
    {
        let r = PluginFrame {
            protocol: self.protocol.clone(),
            frame_type: self.frame_type.clone(),
            payload: self.payload.clone(),
            fields: self.fields.clone(),
            warnings: self.warnings.clone(),
        };
        assert(r.payload@ =~= self.payload@);
        assert(r.fields.deep_view() =~= self.fields.deep_view());
        assert(r.warnings.deep_view() =~= self.warnings.deep_view());
        r
    }
}

/// A protocol engine behind the boundary. It sees packets and returns frames, and nothing else
/// of the application.
pub trait ProtocolPlugin: Send {
    /// What the plugin says of itself.
    fn manifest(&self) -> (r: &ProtocolPluginManifest);

    /// Forgets everything.
    fn reset(&mut self);

    /// Takes a packet and returns the frames that it completes.
    fn push(&mut self, packet: &PluginPacket) -> (r: Vec<PluginFrame>);
}

/// The name of the boundary with its version.
pub fn host_api_label() -> (r: String)
    ensures
        r@ == "Protocol Plugin API "@ + text::decimal(PROTOCOL_PLUGIN_API_MAJOR as nat) + "."@
            + text::decimal(PROTOCOL_PLUGIN_API_MINOR as nat),
{
    let major = text::decimal_text(PROTOCOL_PLUGIN_API_MAJOR as u64);
    let minor = text::decimal_text(PROTOCOL_PLUGIN_API_MINOR as u64);
    let mut out = text::joined("Protocol Plugin API ", major.as_str());
    out.append(".");
    out.append(minor.as_str());
    out
}

} // verus!
