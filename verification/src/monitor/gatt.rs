//! The services of the connected device and what is selected in them.

use crate::ble::model::{CharacteristicInfo, CharacteristicKey, DescriptorInfo, GattSnapshot, ServiceInfo};
#[allow(unused_imports)]
use crate::ble::model::{
    CharacteristicInfoView, CharacteristicKeyView, DescriptorInfoView, GattSnapshotView,
    ServiceInfoView,
};
use vstd::prelude::*;
#[allow(unused_imports)]
use vstd::string::*;

verus! {

/// The services of the connected device.
#[derive(Debug)]
pub struct GattPanel {
    pub snapshot: GattSnapshot,
    pub selected_characteristic: Option<CharacteristicInfo>,
    pub selected_descriptor: Option<DescriptorInfo>,
    /// The characteristic that a profile asks for, to be selected once the services are known.
    pub pending: Option<CharacteristicKey>,
}

/// The mathematical value of [`GattPanel`].
#[verifier::ext_equal]
pub struct GattPanelView {
    pub snapshot: GattSnapshotView,
    pub selected_characteristic: Option<CharacteristicInfoView>,
    pub selected_descriptor: Option<DescriptorInfoView>,
    pub pending: Option<CharacteristicKeyView>,
}

impl DeepView for GattPanel {
    type V = GattPanelView;

    open spec fn deep_view(&self) -> GattPanelView {
        GattPanelView {
            snapshot: self.snapshot.deep_view(),
            selected_characteristic: self.selected_characteristic.deep_view(),
            selected_descriptor: self.selected_descriptor.deep_view(),
            pending: self.pending.deep_view(),
        }
    }
}

/// The first characteristic of a service with a key.
pub open spec fn in_service(items: Seq<CharacteristicInfoView>, key: CharacteristicKeyView) -> Option<
    CharacteristicInfoView,
>
    decreases items.len(),
{
    if items.len() == 0 {
        None
    } else if items[0].key == key {
        Some(items[0])
    } else {
        in_service(items.skip(1), key)
    }
}

/// The first characteristic of all services with a key.
pub open spec fn in_services(services: Seq<ServiceInfoView>, key: CharacteristicKeyView) -> Option<
    CharacteristicInfoView,
>
    decreases services.len(),
{
    if services.len() == 0 {
        None
    } else {
        match in_service(services[0].characteristics, key) {
            Some(found) => Some(found),
            None => in_services(services.skip(1), key),
        }
    }
}

/// The panel after the services were read: what a profile waits for is selected.
pub open spec fn with_snapshot(v: GattPanelView, snapshot: GattSnapshotView) -> GattPanelView {
    let found = match v.pending {
        Some(key) => in_services(snapshot.services, key),
        None => None,
    };
    GattPanelView {
        snapshot,
        selected_characteristic: match found {
            Some(characteristic) => Some(characteristic),
            None => v.selected_characteristic,
        },
        pending: None,
        ..v
    }
}

/// The panel of no device.
pub open spec fn emptied(v: GattPanelView) -> GattPanelView {
    GattPanelView {
        snapshot: GattSnapshotView { services: Seq::empty() },
        selected_characteristic: None,
        selected_descriptor: None,
        ..v
    }
}

fn find_in_service(items: &Vec<CharacteristicInfo>, key: &CharacteristicKey) -> (r: Option<
    CharacteristicInfo,
>)
    ensures
        r.deep_view() == in_service(items.deep_view(), key.deep_view()),
{
    let ghost all = items.deep_view();
    let mut i: usize = 0;
    assert(all.skip(0) =~= all);
    while i < items.len()
        invariant
            i <= items@.len(),
            all == items.deep_view(),
            in_service(all, key.deep_view()) == in_service(all.skip(i as int), key.deep_view()),
        decreases items@.len() - i,
    {
        assert(all.skip(i as int)[0] == items@[i as int].deep_view());
        if items[i].key.same(key) {
            return Some(items[i].clone());
        }
        assert(all.skip(i as int).skip(1) =~= all.skip(i + 1));
        i = i + 1;
    }
    None
}

/// The first characteristic with a key.
pub fn find_characteristic_info(snapshot: &GattSnapshot, key: &CharacteristicKey) -> (r: Option<
    CharacteristicInfo,
>)
    ensures
        r.deep_view() == in_services(snapshot.deep_view().services, key.deep_view()),
{
    let services = &snapshot.services;
    let ghost all = services.deep_view();
    let mut i: usize = 0;
    assert(all.skip(0) =~= all);
    while i < services.len()
        invariant
            i <= services@.len(),
            all == services.deep_view(),
            all == snapshot.deep_view().services,
            in_services(all, key.deep_view()) == in_services(all.skip(i as int), key.deep_view()),
        decreases services@.len() - i,
    {
        assert(all.skip(i as int)[0] == services@[i as int].deep_view());
        let found = find_in_service(&services[i].characteristics, key);
        if found.is_some() {
            return found;
        }
        assert(all.skip(i as int).skip(1) =~= all.skip(i + 1));
        i = i + 1;
    }
    None
}

impl GattPanel {
    /// A panel of no device.
    pub fn new() -> (r: Self)
        ensures
            r.deep_view() == (GattPanelView {
                snapshot: GattSnapshotView { services: Seq::empty() },
                selected_characteristic: None,
                selected_descriptor: None,
                pending: None,
            }),
    {
        GattPanel {
            snapshot: GattSnapshot::default(),
            selected_characteristic: None,
            selected_descriptor: None,
            pending: None,
        }
    }

    /// Takes the services of the connected device.
    pub fn take_snapshot(&mut self, snapshot: GattSnapshot)
        ensures
            final(self).deep_view() == with_snapshot(old(self).deep_view(), snapshot.deep_view()),
    {
        let found = match &self.pending {
            Some(key) => find_characteristic_info(&snapshot, key),
            None => None,
        };
        self.snapshot = snapshot;
        self.pending = None;
        if found.is_some() {
            self.selected_characteristic = found;
        }
    }

    /// Forgets the services and what was selected in them.
    pub fn clear(&mut self)
        ensures
            final(self).deep_view() == emptied(old(self).deep_view()),
    {
        self.snapshot = GattSnapshot::default();
        self.selected_characteristic = None;
        self.selected_descriptor = None;
    }

    /// Selects a characteristic, and one of its descriptors or none.
    pub fn select(&mut self, characteristic: CharacteristicInfo, descriptor: Option<DescriptorInfo>)
        ensures
            final(self).deep_view() == (GattPanelView {
                selected_characteristic: Some(characteristic.deep_view()),
                selected_descriptor: descriptor.deep_view(),
                ..old(self).deep_view()
            }),
    {
        self.selected_characteristic = Some(characteristic);
        self.selected_descriptor = descriptor;
    }

    /// Selects the characteristic of a profile, now or once the services are known.
    pub fn select_for_profile(&mut self, key: Option<CharacteristicKey>)
        ensures
            final(self).deep_view() == ({
                let found = match key.deep_view() {
                    Some(wanted) => in_services(old(self).deep_view().snapshot.services, wanted),
                    None => None,
                };
                match found {
                    Some(characteristic) => GattPanelView {
                        selected_characteristic: Some(characteristic),
                        pending: None,
                        ..old(self).deep_view()
                    },
                    None => GattPanelView { pending: key.deep_view(), ..old(self).deep_view() },
                }
            }),
    {
        let found = match &key {
            Some(wanted) => find_characteristic_info(&self.snapshot, wanted),
            None => None,
        };
        if found.is_some() {
            self.selected_characteristic = found;
            self.pending = None;
        } else {
            self.pending = key;
        }
    }
}

/// A characteristic that a profile waits for is selected as soon as the services hold it, and is
/// not waited for any longer.
pub proof fn pending_selection_is_honoured(v: GattPanelView, snapshot: GattSnapshotView)
    ensures
        with_snapshot(v, snapshot).pending is None,
        v.pending is Some && in_services(snapshot.services, v.pending->0) is Some
            ==> with_snapshot(v, snapshot).selected_characteristic == in_services(
            snapshot.services,
            v.pending->0,
        ),
{
}

/// The characteristic with a key is the first one with it, service by service, and there is none
/// exactly where no service has it.
pub proof fn characteristics_are_found_by_key(
    services: Seq<ServiceInfoView>,
    key: CharacteristicKeyView,
)
    ensures
        match in_services(services, key) {
            Some(found) => found.key == key && exists|i: int, j: int|
                0 <= i < services.len() && 0 <= j < services[i].characteristics.len() && (
                #[trigger] services[i].characteristics[j]) == found && (forall|k: int|
                    0 <= k < j ==> (#[trigger] services[i].characteristics[k]).key != key) && (
                forall|k: int, l: int|
                    0 <= k < i && 0 <= l < services[k].characteristics.len() ==> (
                    #[trigger] services[k].characteristics[l]).key != key),
            None => forall|i: int, j: int|
                0 <= i < services.len() && 0 <= j < services[i].characteristics.len() ==> (
                #[trigger] services[i].characteristics[j]).key != key,
        },
    decreases services.len(),
{
    if services.len() > 0 {
        let own = services[0].characteristics;
        let rest = services.skip(1);
        characteristics_of_a_service(own, key);
        characteristics_are_found_by_key(rest, key);
        match in_service(own, key) {
            Some(found) => {
                let j = choose|j: int|
                    0 <= j < own.len() && #[trigger] own[j] == found && forall|k: int|
                        0 <= k < j ==> (#[trigger] own[k]).key != key;
                assert(services[0].characteristics[j] == found);
            },
            None => {
                match in_services(rest, key) {
                    Some(found) => {
                        let (i, j) = choose|i: int, j: int|
                            0 <= i < rest.len() && 0 <= j < rest[i].characteristics.len() && (
                            #[trigger] rest[i].characteristics[j]) == found && (forall|k: int|
                                0 <= k < j ==> (#[trigger] rest[i].characteristics[k]).key != key)
                                && (forall|k: int, l: int|
                                0 <= k < i && 0 <= l < rest[k].characteristics.len() ==> (
                                #[trigger] rest[k].characteristics[l]).key != key);
                        assert(services[i + 1] == rest[i]);
                        assert(services[i + 1].characteristics[j] == found);
                        assert forall|k: int, l: int|
                            0 <= k < i + 1 && 0 <= l < services[k].characteristics.len() implies (
                        #[trigger] services[k].characteristics[l]).key != key by {
                            if k > 0 {
                                assert(rest[k - 1] == services[k]);
                                assert(rest[k - 1].characteristics[l].key != key);
                            } else {
                                assert(own[l].key != key);
                            }
                        }
                    },
                    None => {
                        assert forall|i: int, j: int|
                            0 <= i < services.len() && 0 <= j
                                < services[i].characteristics.len() implies (
                        #[trigger] services[i].characteristics[j]).key != key by {
                            if i > 0 {
                                assert(rest[i - 1] == services[i]);
                                assert(rest[i - 1].characteristics[j].key != key);
                            } else {
                                assert(own[j].key != key);
                            }
                        }
                    },
                }
            },
        }
    }
}

proof fn characteristics_of_a_service(
    items: Seq<CharacteristicInfoView>,
    key: CharacteristicKeyView,
)
    ensures
        match in_service(items, key) {
            Some(found) => found.key == key && exists|j: int|
                0 <= j < items.len() && #[trigger] items[j] == found && forall|k: int|
                    0 <= k < j ==> (#[trigger] items[k]).key != key,
            None => forall|j: int| 0 <= j < items.len() ==> (#[trigger] items[j]).key != key,
        },
    decreases items.len(),
{
    if items.len() > 0 {
        if items[0].key == key {
            assert(items[0] == in_service(items, key)->0);
        } else {
            let rest = items.skip(1);
            characteristics_of_a_service(rest, key);
            match in_service(rest, key) {
                Some(found) => {
                    let j = choose|j: int|
                        0 <= j < rest.len() && #[trigger] rest[j] == found && forall|k: int|
                            0 <= k < j ==> (#[trigger] rest[k]).key != key;
                    assert(items[j + 1] == found);
                    assert forall|k: int| 0 <= k < j + 1 implies (#[trigger] items[k]).key != key by {
                        if k > 0 {
                            assert(rest[k - 1] == items[k]);
                        }
                    }
                },
                None => {
                    assert forall|j: int| 0 <= j < items.len() implies (#[trigger] items[j]).key
                        != key by {
                        if j > 0 {
                            assert(rest[j - 1] == items[j]);
                        }
                    }
                },
            }
        }
    }
}

/// New services replace the old ones and keep what is selected, unless a profile waits for one of
/// their characteristics; without a device there are no services and nothing is selected.
pub proof fn services_replace_each_other(v: GattPanelView, snapshot: GattSnapshotView)
    ensures
        ({
            let after = with_snapshot(v, snapshot);
            let gone = emptied(v);
            &&& after.snapshot == snapshot && after.selected_descriptor == v.selected_descriptor
            &&& v.pending is None ==> after.selected_characteristic == v.selected_characteristic
            &&& v.pending matches Some(key) ==> (in_services(snapshot.services, key) is None
                ==> after.selected_characteristic == v.selected_characteristic)
            &&& gone.snapshot.services.len() == 0 && gone.selected_characteristic is None
            &&& gone.selected_descriptor is None && gone.pending == v.pending
        }),
{
}

} // verus!
