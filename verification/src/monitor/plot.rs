//! The plot channels.

use crate::ble::model::CharacteristicKey;
#[allow(unused_imports)]
use crate::ble::model::CharacteristicKeyView;
use crate::monitor::log;
use crate::monitor::log::{LogDirection, LogEntry};
#[allow(unused_imports)]
use crate::monitor::log::LogEntryView;
use crate::numbers::F64Bits;
use crate::plotting;
use crate::plotting::{PlotChannel, PlotChannelConfig, ScaledValue};
#[allow(unused_imports)]
use crate::plotting::{PlotChannelConfigView, PlotChannelView};
use crate::text;
use vstd::prelude::*;
#[allow(unused_imports)]
use vstd::string::*;

verus! {

/// The most plot channels.
pub const MAX_CHANNELS: usize = 8;

/// The plot channels and how many samples each of them keeps.
pub struct PlotPanel {
    pub channels: Vec<PlotChannel>,
    pub max_points: usize,
}

/// The mathematical value of [`PlotPanel`].
#[verifier::ext_equal]
pub struct PlotPanelView {
    pub channels: Seq<PlotChannelView>,
    pub max_points: usize,
}

impl DeepView for PlotPanel {
    type V = PlotPanelView;

    open spec fn deep_view(&self) -> PlotPanelView {
        PlotPanelView {
            channels: self.channels.deep_view(),
            max_points: self.max_points,
        }
    }
}

/// Channels without samples.
pub open spec fn empty_channels(configs: Seq<PlotChannelConfigView>) -> Seq<PlotChannelView> {
    Seq::new(configs.len(), |i: int| plotting::empty_channel(configs[i]))
}

/// The panel with every sample dropped.
pub open spec fn samples_cleared(v: PlotPanelView) -> PlotPanelView {
    PlotPanelView {
        channels: Seq::new(
            v.channels.len(),
            |i: int| plotting::empty_channel(v.channels[i].config),
        ),
        ..v
    }
}

/// A channel that shows a characteristic from now on.
pub open spec fn channel_on(channel: PlotChannelView, key: CharacteristicKeyView) -> PlotChannelView {
    plotting::empty_channel(
        PlotChannelConfigView { source: Some(key), enabled: true, ..channel.config },
    )
}

/// The panel with a characteristic on one channel.
pub open spec fn with_source(v: PlotPanelView, index: int, key: CharacteristicKeyView) -> PlotPanelView {
    if 0 <= index < v.channels.len() {
        PlotPanelView { channels: v.channels.update(index, channel_on(v.channels[index], key)), ..v }
    } else {
        v
    }
}

/// What the channels take from a packet: nothing, unless the device sent it by itself.
pub open spec fn packet_readings(v: PlotPanelView, entry: LogEntryView) -> Seq<Option<ScaledValue>> {
    Seq::new(
        v.channels.len(),
        |i: int|
            if entry.direction == LogDirection::Rx {
                plotting::channel_reading(v.channels[i].config, log::entry_key(entry), entry.data)
            } else {
                None
            },
    )
}

/// The panel after a packet whose readings have the given values.
pub open spec fn with_samples(
    v: PlotPanelView,
    entry: LogEntryView,
    values: Seq<Option<F64Bits>>,
) -> PlotPanelView {
    PlotPanelView {
        channels: Seq::new(
            v.channels.len(),
            |i: int|
                match values[i] {
                    Some(value) if entry.direction == LogDirection::Rx => plotting::sampled(
                        v.channels[i],
                        log::entry_key(entry),
                        entry.data,
                        value,
                        v.max_points as nat,
                    ),
                    _ => v.channels[i],
                },
        ),
        ..v
    }
}

/// Channels without samples.
pub fn channels_from(configs: &Vec<PlotChannelConfig>) -> (r: Vec<PlotChannel>)
    ensures
        r.deep_view() == empty_channels(configs.deep_view()),
{
    let ghost all = configs.deep_view();
    let mut out: Vec<PlotChannel> = Vec::new();
    let mut i: usize = 0;
    while i < configs.len()
        invariant
            i <= configs@.len(),
            all == configs.deep_view(),
            out.deep_view() =~= empty_channels(all).take(i as int),
        decreases configs@.len() - i,
    {
        let ghost before = out.deep_view();
        assert(all[i as int] == configs@[i as int].deep_view());
        out.push(PlotChannel::new(configs[i].clone()));
        assert(out.deep_view() =~= before.push(plotting::empty_channel(all[i as int])));
        i = i + 1;
    }
    assert(out.deep_view() =~= empty_channels(all));
    out
}

impl PlotPanel {
    /// The settings of the channels.
    pub fn configs(&self) -> (r: Vec<PlotChannelConfig>)
        ensures
            r.deep_view() == Seq::new(
                self.channels@.len(),
                |i: int| self.deep_view().channels[i].config,
            ),
    {
        let ghost all = self.deep_view().channels;
        let mut out: Vec<PlotChannelConfig> = Vec::new();
        let mut i: usize = 0;
        while i < self.channels.len()
            invariant
                i <= self.channels@.len(),
                all == self.deep_view().channels,
                out.deep_view() =~= Seq::new(i as nat, |j: int| all[j].config),
            decreases self.channels@.len() - i,
        {
            let ghost before = out.deep_view();
            assert(all[i as int] == self.channels@[i as int].deep_view());
            out.push(self.channels[i].config.clone());
            assert(out.deep_view() =~= before.push(all[i as int].config));
            i = i + 1;
        }
        out
    }

    /// Drops every sample.
    pub fn clear_plot_samples(&mut self)
        ensures
            final(self).deep_view() == samples_cleared(old(self).deep_view()),
    {
        let ghost before = self.deep_view();
        let mut i: usize = 0;
        while i < self.channels.len()
            invariant
                i <= self.channels@.len(),
                self.max_points == before.max_points,
                self.channels@.len() == before.channels.len(),
                forall|j: int|
                    0 <= j < i ==> (#[trigger] self.channels.deep_view()[j])
                        == plotting::empty_channel(before.channels[j].config),
                forall|j: int|
                    i <= j < before.channels.len() ==> (#[trigger] self.channels.deep_view()[j])
                        == before.channels[j],
            decreases self.channels@.len() - i,
        {
            let ghost earlier = self.channels.deep_view();
            assert(earlier[i as int] == self.channels@[i as int].deep_view());
            self.channels[i].clear();
            let ghost cleared = self.channels@[i as int].deep_view();
            assert(self.channels.deep_view() =~= earlier.update(i as int, cleared));
            i = i + 1;
        }
        assert(self.channels.deep_view() =~= samples_cleared(before).channels);
    }

    /// Adds a channel, up to the limit.
    pub fn add_channel(&mut self)
        ensures
            final(self).deep_view() == (if old(self).channels@.len() < MAX_CHANNELS {
                PlotPanelView {
                    channels: old(self).deep_view().channels.push(
                        plotting::empty_channel(
                            plotting::idle_channel(
                                "CH"@ + text::decimal((old(self).channels@.len() + 1) as nat),
                            ),
                        ),
                    ),
                    ..old(self).deep_view()
                }
            } else {
                old(self).deep_view()
            }),
    {
        if self.channels.len() < MAX_CHANNELS {
            let ghost before = self.channels.deep_view();
            let number = text::decimal_text((self.channels.len() + 1) as u64);
            let base = PlotChannelConfig::default();
            let added = PlotChannel::new(
                PlotChannelConfig { name: text::joined("CH", number.as_str()), ..base },
            );
            let ghost value = added.deep_view();
            self.channels.push(added);
            assert(self.channels.deep_view() =~= before.push(value));
        }
    }

    /// Removes the last channel; one always stays.
    pub fn remove_last(&mut self)
        ensures
            final(self).deep_view() == (if old(self).channels@.len() > 1 {
                PlotPanelView {
                    channels: old(self).deep_view().channels.drop_last(),
                    ..old(self).deep_view()
                }
            } else {
                old(self).deep_view()
            }),
    {
        if self.channels.len() > 1 {
            let ghost before = self.channels.deep_view();
            let _ = self.channels.pop();
            assert(self.channels.deep_view() =~= before.drop_last());
        }
    }

    /// Shows a characteristic on a channel.
    pub fn use_source(&mut self, index: usize, key: CharacteristicKey)
        ensures
            final(self).deep_view() == with_source(
                old(self).deep_view(),
                index as int,
                key.deep_view(),
            ),
    {
        if index < self.channels.len() {
            let ghost before = self.channels.deep_view();
            assert(before[index as int] == self.channels@[index as int].deep_view());
            let target = &mut self.channels[index];
            target.config.source = Some(key);
            target.config.enabled = true;
            target.clear();
            proof {
                let changed = self.channels@[index as int].deep_view();
                assert(self.channels.deep_view() =~= before.update(index as int, changed));
            }
        }
    }

    /// What the channels take from a packet.
    pub fn readings(&self, entry: &LogEntry) -> (r: Vec<Option<ScaledValue>>)
        ensures
            r@ == packet_readings(self.deep_view(), entry.deep_view()),
    {
        let ghost v = self.deep_view();
        let ghost wanted = packet_readings(v, entry.deep_view());
        let key = entry.key();
        let mut out: Vec<Option<ScaledValue>> = Vec::new();
        let mut i: usize = 0;
        while i < self.channels.len()
            invariant
                i <= self.channels@.len(),
                v == self.deep_view(),
                key.deep_view() == log::entry_key(entry.deep_view()),
                wanted == packet_readings(v, entry.deep_view()),
                out@ =~= wanted.take(i as int),
            decreases self.channels@.len() - i,
        {
            assert(v.channels[i as int] == self.channels@[i as int].deep_view());
            if entry.direction == LogDirection::Rx {
                out.push(self.channels[i].reading(&key, entry.data.as_slice()));
            } else {
                out.push(None);
            }
            i = i + 1;
        }
        assert(out@ =~= wanted);
        out
    }

    /// Takes the samples of a packet. `values` are the numbers that [`PlotPanel::readings`] stand
    /// for.
    pub fn capture_plot_sample(&mut self, entry: &LogEntry, values: &Vec<Option<F64Bits>>)
        requires
            values@.len() == old(self).channels@.len(),
        ensures
            final(self).deep_view() == with_samples(old(self).deep_view(), entry.deep_view(), values@),
    {
        let ghost before = self.deep_view();
        let ghost wanted = with_samples(before, entry.deep_view(), values@).channels;
        if entry.direction != LogDirection::Rx {
            assert(wanted =~= before.channels);
            return;
        }
        let key = entry.key();
        let max_points: usize = self.max_points;
        let mut i: usize = 0;
        while i < self.channels.len()
            invariant
                i <= self.channels@.len(),
                values@.len() == self.channels@.len(),
                self.max_points == max_points,
                max_points == before.max_points,
                self.channels@.len() == before.channels.len(),
                entry.direction == LogDirection::Rx,
                key.deep_view() == log::entry_key(entry.deep_view()),
                wanted == with_samples(before, entry.deep_view(), values@).channels,
                forall|j: int|
                    0 <= j < i ==> (#[trigger] self.channels.deep_view()[j]) == wanted[j],
                forall|j: int|
                    i <= j < before.channels.len() ==> (#[trigger] self.channels.deep_view()[j])
                        == before.channels[j],
            decreases self.channels@.len() - i,
        {
            let ghost earlier = self.channels.deep_view();
            assert(earlier[i as int] == self.channels@[i as int].deep_view());
            match values[i] {
                Some(value) => {
                    self.channels[i].ingest(&key, entry.data.as_slice(), value, max_points);
                },
                None => {},
            }
            proof {
                let changed = self.channels@[i as int].deep_view();
                assert(self.channels.deep_view() =~= earlier.update(i as int, changed));
            }
            i = i + 1;
        }
        assert(self.channels.deep_view() =~= wanted);
    }
}

/// Clearing the samples leaves no point of any channel and keeps the settings.
pub proof fn clearing_drops_every_sample(v: PlotPanelView, i: int)
    requires
        0 <= i < v.channels.len(),
    ensures
        samples_cleared(v).channels[i].samples.len() == 0,
        samples_cleared(v).channels[i].counter == 0,
        samples_cleared(v).channels[i].config == v.channels[i].config,
{
}

/// A channel that is put on a characteristic shows it from then on: it is switched on, starts without
/// samples and keeps its other settings. The other channels stay as they are.
pub proof fn channels_are_put_on_characteristics(
    v: PlotPanelView,
    index: int,
    other: int,
    key: CharacteristicKeyView,
)
    requires
        0 <= index < v.channels.len(),
        0 <= other < v.channels.len(),
        other != index,
    ensures
        ({
            let after = with_source(v, index, key);
            let channel = after.channels[index];
            let before = v.channels[index].config;
            &&& after.channels.len() == v.channels.len() && after.max_points == v.max_points
            &&& channel.config.source == Some(key) && channel.config.enabled
            &&& channel.samples.len() == 0 && channel.counter == 0
            &&& channel.config.name == before.name && channel.config.offset == before.offset
            &&& channel.config.value_type == before.value_type && channel.config.scale
                == before.scale && channel.config.bias == before.bias
            &&& after.channels[other] == v.channels[other]
        }),
{
}

/// Every channel takes its own reading of a packet that the device sent by itself, and none of any
/// other packet; one channel does not depend on another.
pub proof fn channels_read_by_themselves(
    v: PlotPanelView,
    entry: LogEntryView,
    values: Seq<Option<F64Bits>>,
    i: int,
)
    requires
        values.len() == v.channels.len(),
        0 <= i < v.channels.len(),
    ensures
        ({
            let channel = v.channels[i];
            let key = CharacteristicKeyView {
                service_uuid: entry.service_uuid,
                characteristic_uuid: entry.characteristic_uuid,
            };
            let after = with_samples(v, entry, values);
            &&& packet_readings(v, entry).len() == v.channels.len()
            &&& entry.direction == LogDirection::Rx ==> packet_readings(v, entry)[i]
                == plotting::channel_reading(channel.config, key, entry.data)
            &&& entry.direction != LogDirection::Rx ==> packet_readings(v, entry)[i] is None && after
                == v
            &&& after.channels.len() == v.channels.len() && after.max_points == v.max_points
            &&& values[i] is None ==> after.channels[i] == channel
            &&& entry.direction == LogDirection::Rx ==> (values[i] matches Some(value)
                ==> after.channels[i] == plotting::sampled(
                channel,
                key,
                entry.data,
                value,
                v.max_points as nat,
            ))
        }),
{
    if entry.direction != LogDirection::Rx {
        assert(with_samples(v, entry, values).channels =~= v.channels);
    }
}

/// A channel that is not there cannot be put on a characteristic.
pub proof fn missing_channels_change_nothing(
    v: PlotPanelView,
    index: int,
    key: CharacteristicKeyView,
)
    requires
        index < 0 || index >= v.channels.len(),
    ensures
        with_source(v, index, key) == v,
{
}

/// Channels start without samples, each with its own settings, in order.
pub proof fn channels_start_empty(configs: Seq<PlotChannelConfigView>, i: int)
    requires
        0 <= i < configs.len(),
    ensures
        empty_channels(configs).len() == configs.len(),
        empty_channels(configs)[i].config == configs[i],
        empty_channels(configs)[i].samples.len() == 0,
        empty_channels(configs)[i].counter == 0,
{
}

} // verus!
