//! Device profiles: the settings that belong to one device.

use crate::ble::model::CharacteristicKey;
#[allow(unused_imports)]
use crate::ble::model::CharacteristicKeyView;
use crate::naming;
use crate::plotting::PlotChannelConfig;
#[allow(unused_imports)]
use crate::plotting::PlotChannelConfigView;
use crate::protocol::ProtocolConfig;
#[allow(unused_imports)]
use crate::protocol::ProtocolConfigView;
use crate::sorting;
use crate::sorting::Ranked;
use crate::text;
use std::path::PathBuf;
use vstd::prelude::*;
#[allow(unused_imports)]
use vstd::string::*;

verus! {

/// The settings for a device.
#[derive(Debug, PartialEq)]
pub struct DeviceProfile {
    pub name: String,
    pub device_id: Option<String>,
    pub address: Option<String>,
    /// The characteristic that is selected after connecting.
    pub characteristic: Option<CharacteristicKey>,
    pub auto_reconnect: bool,
    pub write_with_response: bool,
    pub tx_hex: String,
    pub protocol_source: Option<CharacteristicKey>,
    pub protocol: ProtocolConfig,
    pub plot_channels: Vec<PlotChannelConfig>,
    pub periodic_interval_ms: u64,
    pub tx_history: Vec<String>,
    pub scan_name_filter: String,
    pub scan_service_filter: String,
    pub scan_min_rssi: i16,
    pub saved_at: String,
}

/// The mathematical value of [`DeviceProfile`].
#[verifier::ext_equal]
pub struct DeviceProfileView {
    pub name: Seq<char>,
    pub device_id: Option<Seq<char>>,
    pub address: Option<Seq<char>>,
    pub characteristic: Option<CharacteristicKeyView>,
    pub auto_reconnect: bool,
    pub write_with_response: bool,
    pub tx_hex: Seq<char>,
    pub protocol_source: Option<CharacteristicKeyView>,
    pub protocol: ProtocolConfigView,
    pub plot_channels: Seq<PlotChannelConfigView>,
    pub periodic_interval_ms: u64,
    pub tx_history: Seq<Seq<char>>,
    pub scan_name_filter: Seq<char>,
    pub scan_service_filter: Seq<char>,
    pub scan_min_rssi: i16,
    pub saved_at: Seq<char>,
}

impl DeepView for DeviceProfile {
    type V = DeviceProfileView;

    open spec fn deep_view(&self) -> DeviceProfileView {
        DeviceProfileView {
            name: self.name@,
            device_id: self.device_id.deep_view(),
            address: self.address.deep_view(),
            characteristic: self.characteristic.deep_view(),
            auto_reconnect: self.auto_reconnect,
            write_with_response: self.write_with_response,
            tx_hex: self.tx_hex@,
            protocol_source: self.protocol_source.deep_view(),
            protocol: self.protocol.deep_view(),
            plot_channels: self.plot_channels.deep_view(),
            periodic_interval_ms: self.periodic_interval_ms,
            tx_history: self.tx_history.deep_view(),
            scan_name_filter: self.scan_name_filter@,
            scan_service_filter: self.scan_service_filter@,
            scan_min_rssi: self.scan_min_rssi,
            saved_at: self.saved_at@,
        }
    }
}

impl Clone for DeviceProfile {
    fn clone(&self) -> (r: Self)
        ensures
            r.deep_view() == self.deep_view(),
    {
        let r = DeviceProfile {
            name: self.name.clone(),
            device_id: self.device_id.clone(),
            address: self.address.clone(),
            characteristic: self.characteristic.clone(),
            auto_reconnect: self.auto_reconnect,
            write_with_response: self.write_with_response,
            tx_hex: self.tx_hex.clone(),
            protocol_source: self.protocol_source.clone(),
            protocol: self.protocol.clone(),
            plot_channels: self.plot_channels.clone(),
            periodic_interval_ms: self.periodic_interval_ms,
            tx_history: self.tx_history.clone(),
            scan_name_filter: self.scan_name_filter.clone(),
            scan_service_filter: self.scan_service_filter.clone(),
            scan_min_rssi: self.scan_min_rssi,
            saved_at: self.saved_at.clone(),
        };
        assert(r.plot_channels.deep_view() =~= self.plot_channels.deep_view());
        assert(r.tx_history.deep_view() =~= self.tx_history.deep_view());
        r
    }
}

/// A profile and its file.
#[derive(Debug)]
pub struct StoredProfile {
    pub path: PathBuf,
    pub profile: DeviceProfile,
}

/// The mathematical value of [`StoredProfile`].
#[verifier::ext_equal]
pub struct StoredProfileView {
    pub path: PathBuf,
    pub profile: DeviceProfileView,
}

impl DeepView for StoredProfile {
    type V = StoredProfileView;

    open spec fn deep_view(&self) -> StoredProfileView {
        StoredProfileView {
            path: self.path,
            profile: self.profile.deep_view(),
        }
    }
}

impl Clone for StoredProfile {
    fn clone(&self) -> (r: Self)
        ensures
            r.deep_view() == self.deep_view(),
    {
        StoredProfile {
            path: self.path.clone(),
            profile: self.profile.clone(),
        }
    }
}

/// The sending interval of a profile that does not give one.
pub fn default_periodic_interval_ms() -> (r: u64)
    ensures
        r == 1_000,
{
    1_000
}

/// The signal limit of a profile that does not give one.
pub fn default_scan_min_rssi() -> (r: i16)
    ensures
        r == -127,
{
    -127
}

impl Ranked for StoredProfile {
    open spec fn in_rank(a: StoredProfileView, b: StoredProfileView) -> bool {
        text::text_le(a.profile.name, b.profile.name)
    }

    fn not_after(&self, other: &Self) -> (r: bool) {
        text::text_not_after(self.profile.name.as_str(), other.profile.name.as_str())
    }
}

/// The profiles that were found, in the order in which they are offered.
pub open spec fn offered_profiles(found: Seq<StoredProfileView>) -> Seq<StoredProfileView> {
    sorting::sorted_by(
        found,
        |a: StoredProfileView, b: StoredProfileView| StoredProfile::in_rank(a, b),
    )
}

/// Puts the profiles that were found in the order in which they are offered.
pub fn load_profiles(found: Vec<StoredProfile>) -> (r: Vec<StoredProfile>)
    ensures
        r.deep_view() == offered_profiles(found.deep_view()),
{
    let mut profiles = found;
    sorting::stable_sort(&mut profiles);
    profiles
}

/// Profiles are offered by name, and none is lost.
pub proof fn profiles_are_sorted_by_name(found: Seq<StoredProfileView>)
    ensures
        offered_profiles(found).to_multiset() == found.to_multiset(),
        forall|i: int, j: int|
            0 <= i < j < offered_profiles(found).len() ==> text::text_le(
                (#[trigger] offered_profiles(found)[i]).profile.name,
                (#[trigger] offered_profiles(found)[j]).profile.name,
            ),
{
    let rank = |a: StoredProfileView, b: StoredProfileView| StoredProfile::in_rank(a, b);
    assert forall|a: StoredProfileView, b: StoredProfileView| #[trigger]
        rank(a, b) || rank(b, a) by {
        text::text_order_is_total(a.profile.name, b.profile.name);
    }
    assert forall|a: StoredProfileView, b: StoredProfileView, c: StoredProfileView| #[trigger]
        rank(a, b) && #[trigger] rank(b, c) implies rank(a, c) by {
        text::text_order_is_transitive(a.profile.name, b.profile.name, c.profile.name);
    }
    sorting::sorting_sorts(found, rank);
    sorting::sorting_keeps_items(found, rank);
    let sorted = offered_profiles(found);
    assert forall|i: int, j: int| 0 <= i < j < sorted.len() implies text::text_le(
        (#[trigger] sorted[i]).profile.name,
        (#[trigger] sorted[j]).profile.name,
    ) by {
        assert(rank(sorted[i], sorted[j]));
    }
}

/// The file name for a profile, without its extension.
pub fn sanitize_file_name(input: &str) -> (r: String)
    ensures
        r@ == naming::safe_name(input@, "profile"@),
{
    naming::safe_file_name(input, "profile")
}

/// What is written for a profile, and the name of its file.
pub fn save_profile(profile: DeviceProfile, saved_at: String) -> (r: (DeviceProfile, String))
    ensures
        r.0.deep_view() == (DeviceProfileView { saved_at: saved_at@, ..profile.deep_view() }),
        r.1@ == naming::safe_name(profile.name@, "profile"@) + ".json"@,
{
    let stem = sanitize_file_name(profile.name.as_str());
    let file_name = text::joined(stem.as_str(), ".json");
    (DeviceProfile { saved_at, ..profile }, file_name)
}

} // verus!
