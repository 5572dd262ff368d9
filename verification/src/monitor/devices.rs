//! The list of discovered devices.

use crate::ble::model::DeviceInfo;
#[allow(unused_imports)]
use crate::ble::model::DeviceInfoView;
use crate::ble::scan;
use crate::ble::scan::ScanFilter;
#[allow(unused_imports)]
use crate::ble::scan::ScanFilterView;
use crate::sorting;
use crate::sorting::Ranked;
use crate::text;
use vstd::prelude::*;
#[allow(unused_imports)]
use vstd::string::*;

verus! {

/// The discovered devices, the strongest signal first, and the filter on them.
#[derive(Debug)]
pub struct DevicePanel {
    pub filter: ScanFilter,
    pub devices: Vec<DeviceInfo>,
    pub selected_id: Option<String>,
}

/// The mathematical value of [`DevicePanel`].
#[verifier::ext_equal]
pub struct DevicePanelView {
    pub filter: ScanFilterView,
    pub devices: Seq<DeviceInfoView>,
    pub selected_id: Option<Seq<char>>,
}

impl DeepView for DevicePanel {
    type V = DevicePanelView;

    open spec fn deep_view(&self) -> DevicePanelView {
        DevicePanelView {
            filter: self.filter.deep_view(),
            devices: self.devices.deep_view(),
            selected_id: self.selected_id.deep_view(),
        }
    }
}

/// The signal of a device by which it is ranked.
pub open spec fn rank_signal(device: DeviceInfoView) -> i16 {
    match device.rssi {
        Some(rssi) => rssi,
        None => i16::MIN,
    }
}

impl Ranked for DeviceInfo {
    open spec fn in_rank(a: DeviceInfoView, b: DeviceInfoView) -> bool {
        rank_signal(a) > rank_signal(b) || (rank_signal(a) == rank_signal(b) && text::text_le(
            a.name,
            b.name,
        ))
    }

    fn not_after(&self, other: &Self) -> (r: bool) {
        let own: i16 = match self.rssi {
            Some(rssi) => rssi,
            None => i16::MIN,
        };
        let theirs: i16 = match other.rssi {
            Some(rssi) => rssi,
            None => i16::MIN,
        };
        own > theirs || (own == theirs && text::text_not_after(
            self.name.as_str(),
            other.name.as_str(),
        ))
    }
}

/// The devices in the order of the list.
pub open spec fn ranked(devices: Seq<DeviceInfoView>) -> Seq<DeviceInfoView> {
    sorting::sorted_by(
        devices,
        |a: DeviceInfoView, b: DeviceInfoView| DeviceInfo::in_rank(a, b),
    )
}

/// The first device with an id, or the number of devices.
pub open spec fn device_position(devices: Seq<DeviceInfoView>, id: Seq<char>) -> int
    decreases devices.len(),
{
    if devices.len() == 0 || devices[0].id == id {
        0
    } else {
        1 + device_position(devices.skip(1), id)
    }
}

/// The list after a device was seen: it takes the place of the entry with its id, or is added;
/// the first device that is ever seen is selected.
pub open spec fn with_device(v: DevicePanelView, device: DeviceInfoView) -> DevicePanelView {
    let at = device_position(v.devices, device.id);
    if at < v.devices.len() {
        DevicePanelView { devices: ranked(v.devices.update(at, device)), ..v }
    } else {
        DevicePanelView {
            devices: ranked(v.devices.push(device)),
            selected_id: match v.selected_id {
                Some(id) => Some(id),
                None => Some(device.id),
            },
            ..v
        }
    }
}

/// The list after a new signal reading; a reading for an unknown device changes nothing.
pub open spec fn with_rssi(v: DevicePanelView, id: Seq<char>, rssi: i16) -> DevicePanelView {
    let at = device_position(v.devices, id);
    if at < v.devices.len() {
        DevicePanelView {
            devices: ranked(
                v.devices.update(at, DeviceInfoView { rssi: Some(rssi), ..v.devices[at] }),
            ),
            ..v
        }
    } else {
        v
    }
}

/// The first device with an id or an address, or the number of devices.
pub open spec fn profile_position(
    devices: Seq<DeviceInfoView>,
    id: Option<Seq<char>>,
    address: Option<Seq<char>>,
) -> int
    decreases devices.len(),
{
    if devices.len() == 0 || id == Some(devices[0].id) || address == Some(devices[0].address) {
        0
    } else {
        1 + profile_position(devices.skip(1), id, address)
    }
}

/// The list after a profile asked for a device.
pub open spec fn with_selection(
    v: DevicePanelView,
    id: Option<Seq<char>>,
    address: Option<Seq<char>>,
) -> DevicePanelView {
    let at = profile_position(v.devices, id, address);
    if at < v.devices.len() {
        DevicePanelView { selected_id: Some(v.devices[at].id), ..v }
    } else {
        v
    }
}

/// The device that is selected.
pub open spec fn chosen_device(v: DevicePanelView) -> Option<DeviceInfoView> {
    match v.selected_id {
        Some(id) => if device_position(v.devices, id) < v.devices.len() {
            Some(v.devices[device_position(v.devices, id)])
        } else {
            None
        },
        None => None,
    }
}

impl DevicePanel {
    fn position(&self, id: &String) -> (r: usize)
        ensures
            r == device_position(self.deep_view().devices, id@),
            r <= self.devices@.len(),
    {
        let ghost all = self.devices.deep_view();
        let mut i: usize = 0;
        assert(all.skip(0) =~= all);
        while i < self.devices.len()
            invariant
                i <= self.devices@.len(),
                all == self.devices.deep_view(),
                device_position(all, id@) == i + device_position(all.skip(i as int), id@),
            decreases self.devices@.len() - i,
        {
            assert(all.skip(i as int)[0] == self.devices@[i as int].deep_view());
            if self.devices[i].id == *id {
                return i;
            }
            assert(all.skip(i as int).skip(1) =~= all.skip(i + 1));
            i = i + 1;
        }
        i
    }

    /// Takes a device that was seen.
    pub fn upsert_device(&mut self, device: DeviceInfo)
        ensures
            final(self).deep_view() == with_device(old(self).deep_view(), device.deep_view()),
    {
        let ghost before = self.deep_view();
        let ghost value = device.deep_view();
        let at: usize = self.position(&device.id);
        if at < self.devices.len() {
            self.devices.set(at, device);
            assert(self.devices.deep_view() =~= before.devices.update(at as int, value));
        } else {
            if self.selected_id.is_none() {
                self.selected_id = Some(device.id.clone());
            }
            self.devices.push(device);
            assert(self.devices.deep_view() =~= before.devices.push(value));
        }
        sorting::stable_sort(&mut self.devices);
    }

    /// Takes a new signal reading.
    pub fn update_rssi(&mut self, id: &String, rssi: i16)
        ensures
            final(self).deep_view() == with_rssi(old(self).deep_view(), id@, rssi),
    {
        let ghost before = self.deep_view();
        let at: usize = self.position(id);
        if at < self.devices.len() {
            let known = self.devices[at].clone();
            let changed = DeviceInfo { rssi: Some(rssi), ..known };
            let ghost value = changed.deep_view();
            self.devices.set(at, changed);
            assert(self.devices.deep_view() =~= before.devices.update(at as int, value));
            sorting::stable_sort(&mut self.devices);
        }
    }

    /// Forgets every device.
    pub fn clear(&mut self)
        ensures
            final(self).deep_view() == (DevicePanelView {
                devices: Seq::empty(),
                selected_id: None,
                ..old(self).deep_view()
            }),
    {
        self.devices.clear();
        self.selected_id = None;
        assert(self.devices.deep_view() =~= Seq::empty());
    }

    /// The device that is selected.
    pub fn selected_device(&self) -> (r: Option<&DeviceInfo>)
        ensures
            match (r, chosen_device(self.deep_view())) {
                (Some(device), Some(wanted)) => device.deep_view() == wanted,
                (None, None) => true,
                _ => false,
            },
    {
        match &self.selected_id {
            Some(id) => {
                let at: usize = self.position(id);
                if at < self.devices.len() {
                    Some(&self.devices[at])
                } else {
                    None
                }
            },
            None => None,
        }
    }

    /// Selects the first device with the id or the address of a profile.
    pub fn select_for_profile(&mut self, id: &Option<String>, address: &Option<String>)
        ensures
            final(self).deep_view() == with_selection(
                old(self).deep_view(),
                id.deep_view(),
                address.deep_view(),
            ),
    {
        let ghost all = self.devices.deep_view();
        let ghost asked = id.deep_view();
        let ghost placed = address.deep_view();
        let mut i: usize = 0;
        assert(all.skip(0) =~= all);
        while i < self.devices.len()
            invariant
                i <= self.devices@.len(),
                all == self.devices.deep_view(),
                self.deep_view() == old(self).deep_view(),
                asked == id.deep_view(),
                placed == address.deep_view(),
                profile_position(all, asked, placed) == i + profile_position(
                    all.skip(i as int),
                    asked,
                    placed,
                ),
            decreases self.devices@.len() - i,
        {
            assert(all.skip(i as int)[0] == self.devices@[i as int].deep_view());
            let same_id = match id {
                Some(value) => *value == self.devices[i].id,
                None => false,
            };
            let same_address = match address {
                Some(value) => *value == self.devices[i].address,
                None => false,
            };
            if same_id || same_address {
                self.selected_id = Some(self.devices[i].id.clone());
                return;
            }
            assert(all.skip(i as int).skip(1) =~= all.skip(i + 1));
            i = i + 1;
        }
    }

    /// The devices that pass the filter, in the order of the list.
    pub fn visible_devices(&self) -> (r: Vec<DeviceInfo>)
        ensures
            r.deep_view() == self.deep_view().devices.filter(
                |device: DeviceInfoView| scan::passes(device, self.deep_view().filter),
            ),
    {
        let ghost all = self.devices.deep_view();
        let ghost filter = self.filter.deep_view();
        let ghost shown = |device: DeviceInfoView| scan::passes(device, filter);
        let mut out: Vec<DeviceInfo> = Vec::new();
        let mut i: usize = 0;
        proof {
            reveal(Seq::filter);
            assert(all.take(0).filter(shown) =~= Seq::empty());
        }
        while i < self.devices.len()
            invariant
                i <= self.devices@.len(),
                all == self.devices.deep_view(),
                filter == self.filter.deep_view(),
                shown == (|device: DeviceInfoView| scan::passes(device, filter)),
                out.deep_view() =~= all.take(i as int).filter(shown),
            decreases self.devices@.len() - i,
        {
            let ghost before = out.deep_view();
            let ghost next = all.take(i + 1);
            proof {
                reveal(Seq::filter);
                assert(next.drop_last() =~= all.take(i as int));
                assert(next.last() == self.devices@[i as int].deep_view());
            }
            if self.filter.device_matches_scan_filter(&self.devices[i]) {
                out.push(self.devices[i].clone());
                assert(out.deep_view() =~= before.push(all[i as int]));
            }
            i = i + 1;
        }
        assert(all.take(i as int) =~= all);
        assert(shown =~= (|device: DeviceInfoView| scan::passes(device, self.deep_view().filter)));
        out
    }
}

/// Whether no two devices have the same id.
pub open spec fn ids_differ(devices: Seq<DeviceInfoView>) -> bool {
    forall|i: int, j: int|
        0 <= i < j < devices.len() ==> (#[trigger] devices[i]).id != (#[trigger] devices[j]).id
}

proof fn sorting_keeps_ids_apart(
    devices: Seq<DeviceInfoView>,
    rank: spec_fn(DeviceInfoView, DeviceInfoView) -> bool,
)
    requires
        ids_differ(devices),
    ensures
        ids_differ(sorting::sorted_by(devices, rank)),
        forall|i: int|
            0 <= i < sorting::sorted_by(devices, rank).len() ==> devices.contains(
                #[trigger] sorting::sorted_by(devices, rank)[i],
            ),
    decreases devices.len(),
{
    if devices.len() > 0 {
        let rest = devices.drop_last();
        let x = devices.last();
        assert(ids_differ(rest)) by {
            assert forall|i: int, j: int| 0 <= i < j < rest.len() implies (#[trigger] rest[i]).id
                != (#[trigger] rest[j]).id by {
                assert(devices[i].id != devices[j].id);
            }
        }
        sorting_keeps_ids_apart(rest, rank);
        let before = sorting::sorted_by(rest, rank);
        let at = sorting::place_of(before, x, rank);
        sorting::place_is_within(before, x, rank);
        let after = before.insert(at, x);
        assert forall|i: int| 0 <= i < before.len() implies (#[trigger] before[i]).id != x.id by {
            let k = choose|k: int| 0 <= k < rest.len() && rest[k] == before[i];
            assert(devices[k].id != devices[devices.len() - 1].id);
        }
        assert forall|i: int, j: int| 0 <= i < j < after.len() implies (#[trigger] after[i]).id
            != (#[trigger] after[j]).id by {
            if i == at {
                assert(before[j - 1].id != x.id);
            } else if j == at {
                assert(before[i].id != x.id);
            } else {
                let a = if i < at {
                    i
                } else {
                    i - 1
                };
                let b = if j < at {
                    j
                } else {
                    j - 1
                };
                assert(before[a].id != before[b].id);
            }
        }
        assert forall|i: int| 0 <= i < after.len() implies devices.contains(
            #[trigger] after[i],
        ) by {
            if i == at {
                assert(devices[devices.len() - 1] == x);
            } else {
                let a = if i < at {
                    i
                } else {
                    i - 1
                };
                assert(rest.contains(before[a]));
                let k = choose|k: int| 0 <= k < rest.len() && rest[k] == before[a];
                assert(devices[k] == after[i]);
            }
        }
    }
}

proof fn device_position_is_first(devices: Seq<DeviceInfoView>, id: Seq<char>)
    ensures
        0 <= device_position(devices, id) <= devices.len(),
        device_position(devices, id) < devices.len() ==> devices[device_position(devices, id)].id
            == id,
        forall|i: int|
            0 <= i < device_position(devices, id) ==> (#[trigger] devices[i]).id != id,
    decreases devices.len(),
{
    if devices.len() > 0 && devices[0].id != id {
        let rest = devices.skip(1);
        device_position_is_first(rest, id);
        assert forall|i: int| 0 <= i < device_position(devices, id) implies (
        #[trigger] devices[i]).id != id by {
            if i > 0 {
                assert(rest[i - 1].id != id);
            }
        }
    }
}

/// A device is listed once, however often it is seen.
pub proof fn devices_are_listed_once(v: DevicePanelView, device: DeviceInfoView)
    requires
        ids_differ(v.devices),
    ensures
        ids_differ(with_device(v, device).devices),
{
    let rank = |a: DeviceInfoView, b: DeviceInfoView| DeviceInfo::in_rank(a, b);
    device_position_is_first(v.devices, device.id);
    let at = device_position(v.devices, device.id);
    if at < v.devices.len() {
        let changed = v.devices.update(at, device);
        assert forall|i: int, j: int| 0 <= i < j < changed.len() implies (
        #[trigger] changed[i]).id != (#[trigger] changed[j]).id by {
            assert(v.devices[i].id != v.devices[j].id);
        }
        sorting_keeps_ids_apart(changed, rank);
    } else {
        let changed = v.devices.push(device);
        assert forall|i: int, j: int| 0 <= i < j < changed.len() implies (
        #[trigger] changed[i]).id != (#[trigger] changed[j]).id by {
            if j < v.devices.len() {
                assert(v.devices[i].id != v.devices[j].id);
            } else {
                assert(v.devices[i].id != device.id);
            }
        }
        sorting_keeps_ids_apart(changed, rank);
    }
}

/// The list is in order after every change: a stronger signal first, then by name. No device is
/// lost or invented.
pub proof fn devices_are_ranked(devices: Seq<DeviceInfoView>)
    ensures
        ranked(devices).to_multiset() == devices.to_multiset(),
        forall|i: int, j: int|
            0 <= i < j < ranked(devices).len() ==> rank_signal(#[trigger] ranked(devices)[i])
                > rank_signal(#[trigger] ranked(devices)[j]) || (rank_signal(ranked(devices)[i])
                == rank_signal(ranked(devices)[j]) && text::text_le(
                ranked(devices)[i].name,
                ranked(devices)[j].name,
            )),
{
    let rank = |a: DeviceInfoView, b: DeviceInfoView| DeviceInfo::in_rank(a, b);
    assert forall|a: DeviceInfoView, b: DeviceInfoView| #[trigger] rank(a, b) || rank(b, a) by {
        text::text_order_is_total(a.name, b.name);
    }
    assert forall|a: DeviceInfoView, b: DeviceInfoView, c: DeviceInfoView| #[trigger]
        rank(a, b) && #[trigger] rank(b, c) implies rank(a, c) by {
        if rank_signal(a) == rank_signal(b) && rank_signal(b) == rank_signal(c) {
            text::text_order_is_transitive(a.name, b.name, c.name);
        }
    }
    sorting::sorting_sorts(devices, rank);
    sorting::sorting_keeps_items(devices, rank);
    let sorted = ranked(devices);
    assert forall|i: int, j: int| 0 <= i < j < sorted.len() implies rank_signal(
        #[trigger] sorted[i],
    ) > rank_signal(#[trigger] sorted[j]) || (rank_signal(sorted[i]) == rank_signal(sorted[j])
        && text::text_le(sorted[i].name, sorted[j].name)) by {
        assert(rank(sorted[i], sorted[j]));
    }
}

proof fn ranking_keeps_members(devices: Seq<DeviceInfoView>, x: DeviceInfoView)
    ensures
        ranked(devices).contains(x) <==> devices.contains(x),
        ranked(devices).len() == devices.len(),
{
    broadcast use vstd::seq_lib::group_to_multiset_ensures;

    let rank = |a: DeviceInfoView, b: DeviceInfoView| DeviceInfo::in_rank(a, b);
    sorting::sorting_keeps_items(devices, rank);
    assert(ranked(devices).contains(x) <==> ranked(devices).to_multiset().count(x) > 0);
    assert(devices.contains(x) <==> devices.to_multiset().count(x) > 0);
}

/// A device that was seen replaces what was known of it, by its id, and leaves every other device as
/// it is. The first device that is seen is selected, and later ones do not change the selection.
pub proof fn seen_devices_are_brought_up_to_date(
    v: DevicePanelView,
    device: DeviceInfoView,
    x: DeviceInfoView,
)
    requires
        ids_differ(v.devices),
    ensures
        with_device(v, device).devices.contains(x) <==> x == device || v.devices.contains(x) && x.id
            != device.id,
        v.selected_id is Some ==> with_device(v, device).selected_id == v.selected_id,
        v.selected_id is None && v.devices.len() == 0 ==> with_device(v, device).selected_id == Some(
            device.id,
        ),
        with_device(v, device).filter == v.filter,
{
    device_position_is_first(v.devices, device.id);
    let at = device_position(v.devices, device.id);
    if at < v.devices.len() {
        let changed = v.devices.update(at, device);
        ranking_keeps_members(changed, x);
        assert(changed[at] == device);
        if v.devices.contains(x) && x.id != device.id {
            let k = choose|k: int| 0 <= k < v.devices.len() && v.devices[k] == x;
            assert(changed[k] == x);
        }
        if changed.contains(x) && x != device {
            let k = choose|k: int| 0 <= k < changed.len() && changed[k] == x;
            assert(k != at && v.devices[k] == x);
            assert(v.devices[at].id == device.id);
            if k < at {
                assert(v.devices[k].id != v.devices[at].id);
            } else {
                assert(v.devices[at].id != v.devices[k].id);
            }
        }
    } else {
        let changed = v.devices.push(device);
        ranking_keeps_members(changed, x);
        assert(changed[v.devices.len() as int] == device);
        if v.devices.contains(x) {
            let k = choose|k: int| 0 <= k < v.devices.len() && v.devices[k] == x;
            assert(changed[k] == x);
            assert(v.devices[k].id != device.id);
        }
        if changed.contains(x) && x != device {
            let k = choose|k: int| 0 <= k < changed.len() && changed[k] == x;
            assert(k < v.devices.len() && v.devices[k] == x);
            assert(v.devices[k].id != device.id);
        }
    }
}

/// A new reading changes the signal of the device with the id, and nothing else; a reading of an
/// unknown device changes nothing.
pub proof fn readings_change_one_signal(
    v: DevicePanelView,
    id: Seq<char>,
    rssi: i16,
    known: DeviceInfoView,
    x: DeviceInfoView,
)
    requires
        ids_differ(v.devices),
    ensures
        v.devices.contains(known) && known.id == id ==> (with_rssi(v, id, rssi).devices.contains(
            x,
        ) <==> x == (DeviceInfoView { rssi: Some(rssi), ..known }) || v.devices.contains(x) && x.id
            != id),
        (forall|i: int| 0 <= i < v.devices.len() ==> (#[trigger] v.devices[i]).id != id)
            ==> with_rssi(v, id, rssi) == v,
        with_rssi(v, id, rssi).selected_id == v.selected_id,
        with_rssi(v, id, rssi).filter == v.filter,
{
    device_position_is_first(v.devices, id);
    let at = device_position(v.devices, id);
    if v.devices.contains(known) && known.id == id {
        let k = choose|k: int| 0 <= k < v.devices.len() && v.devices[k] == known;
        if at < k {
            assert(v.devices[at].id != v.devices[k].id);
        }
        if k < at {
            assert(v.devices[k].id != id);
        }
        assert(at == k);
        let device = DeviceInfoView { rssi: Some(rssi), ..known };
        let changed = v.devices.update(at, device);
        ranking_keeps_members(changed, x);
        assert(changed[at] == device);
        if v.devices.contains(x) && x.id != id {
            let j = choose|j: int| 0 <= j < v.devices.len() && v.devices[j] == x;
            assert(changed[j] == x);
        }
        if changed.contains(x) && x != device {
            let j = choose|j: int| 0 <= j < changed.len() && changed[j] == x;
            assert(j != at && v.devices[j] == x);
            if j < at {
                assert(v.devices[j].id != v.devices[at].id);
            } else {
                assert(v.devices[at].id != v.devices[j].id);
            }
        }
    }
}

/// The list is in order of the signal, the strongest first and devices without a reading last;
/// devices with the same signal are in the order of their names.
pub proof fn stronger_devices_come_first(devices: Seq<DeviceInfoView>, i: int, j: int)
    requires
        0 <= i < j < ranked(devices).len(),
    ensures
        ({
            let a = ranked(devices)[i];
            let b = ranked(devices)[j];
            &&& a.rssi is Some && b.rssi is Some ==> a.rssi->0 >= b.rssi->0
            &&& a.rssi is None && b.rssi is Some ==> b.rssi->0 == -32_768
            &&& a.rssi == b.rssi ==> text::text_le(a.name, b.name)
        }),
{
    devices_are_ranked(devices);
    let a = ranked(devices)[i];
    let b = ranked(devices)[j];
    assert(rank_signal(a) > rank_signal(b) || (rank_signal(a) == rank_signal(b) && text::text_le(
        a.name,
        b.name,
    )));
}

/// The selected device is the one with the selected id; a profile selects the first device with its
/// id or its address, and keeps the selection where there is none.
pub proof fn selections_follow_the_id(
    v: DevicePanelView,
    i: int,
    id: Option<Seq<char>>,
    address: Option<Seq<char>>,
)
    requires
        0 <= i < v.devices.len(),
    ensures
        v.selected_id == Some(v.devices[i].id) && (forall|j: int|
            0 <= j < i ==> (#[trigger] v.devices[j]).id != v.devices[i].id) ==> chosen_device(v)
            == Some(v.devices[i]),
        v.selected_id is None ==> chosen_device(v) is None,
        (id == Some(v.devices[i].id) || address == Some(v.devices[i].address)) && (forall|j: int|
            0 <= j < i ==> id != Some((#[trigger] v.devices[j]).id) && address != Some(
                v.devices[j].address,
            )) ==> with_selection(v, id, address).selected_id == Some(v.devices[i].id),
        (forall|j: int|
            0 <= j < v.devices.len() ==> id != Some((#[trigger] v.devices[j]).id) && address
                != Some(v.devices[j].address)) ==> with_selection(v, id, address) == v,
        with_selection(v, id, address).devices == v.devices,
        with_selection(v, id, address).filter == v.filter,
{
    profile_position_is_first(v.devices, id, address);
    device_position_is_first(v.devices, v.devices[i].id);
    let at = device_position(v.devices, v.devices[i].id);
    if at < i {
        assert(v.devices[at].id == v.devices[i].id);
    }
    if at > i {
        assert(v.devices[i].id != v.devices[i].id);
    }
    let found = profile_position(v.devices, id, address);
    if found < i {
        assert(id == Some(v.devices[found].id) || address == Some(v.devices[found].address));
    }
}

proof fn profile_position_is_first(
    devices: Seq<DeviceInfoView>,
    id: Option<Seq<char>>,
    address: Option<Seq<char>>,
)
    ensures
        ({
            let at = profile_position(devices, id, address);
            &&& 0 <= at <= devices.len()
            &&& at < devices.len() ==> id == Some(devices[at].id) || address == Some(
                devices[at].address,
            )
            &&& forall|j: int|
                0 <= j < at ==> id != Some((#[trigger] devices[j]).id) && address != Some(
                    devices[j].address,
                )
        }),
    decreases devices.len(),
{
    if !(devices.len() == 0 || id == Some(devices[0].id) || address == Some(devices[0].address)) {
        profile_position_is_first(devices.skip(1), id, address);
        let at = profile_position(devices, id, address);
        assert forall|j: int| 0 <= j < at implies id != Some((#[trigger] devices[j]).id) && address
            != Some(devices[j].address) by {
            if j > 0 {
                assert(devices.skip(1)[j - 1] == devices[j]);
            }
        }
    }
}

/// An id that no device in the list has selects none.
pub proof fn unknown_ids_select_nothing(v: DevicePanelView)
    requires
        v.selected_id is Some,
        forall|i: int| 0 <= i < v.devices.len() ==> Some((#[trigger] v.devices[i]).id)
            != v.selected_id,
    ensures
        chosen_device(v) is None,
{
    device_position_is_first(v.devices, v.selected_id->0);
}

} // verus!
