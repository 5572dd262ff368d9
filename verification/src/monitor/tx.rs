//! Sending: the texts to send, their history, and the periodic sender.

use crate::ble::model::{BleCommand, CharacteristicInfo, CharacteristicProperties};
#[allow(unused_imports)]
use crate::ble::model::{BleCommandView, CharacteristicInfoView};
use crate::codec;
use crate::text;
use std::collections::VecDeque;
use vstd::prelude::*;
#[allow(unused_imports)]
use vstd::string::*;

verus! {

/// The most texts that the history keeps.
pub const MAX_TX_HISTORY: usize = 100;

/// The shortest sending interval.
pub const MIN_INTERVAL_MS: u64 = 100;

/// What is sent, and when.
#[derive(Debug)]
pub struct TxPanel {
    pub tx_hex: String,
    pub descriptor_hex: String,
    pub write_with_response: bool,
    /// The texts that were sent, the newest first.
    pub history: VecDeque<String>,
    pub periodic_enabled: bool,
    pub periodic_interval_ms: u64,
    /// The clock reading at which the next packet is due.
    pub periodic_next: Option<u64>,
    pub periodic_sent: u64,
}

/// The mathematical value of [`TxPanel`].
#[verifier::ext_equal]
pub struct TxPanelView {
    pub tx_hex: Seq<char>,
    pub descriptor_hex: Seq<char>,
    pub write_with_response: bool,
    pub history: Seq<Seq<char>>,
    pub periodic_enabled: bool,
    pub periodic_interval_ms: u64,
    pub periodic_next: Option<u64>,
    pub periodic_sent: u64,
}

impl DeepView for TxPanel {
    type V = TxPanelView;

    open spec fn deep_view(&self) -> TxPanelView {
        TxPanelView {
            tx_hex: self.tx_hex@,
            descriptor_hex: self.descriptor_hex@,
            write_with_response: self.write_with_response,
            history: self.history.deep_view(),
            periodic_enabled: self.periodic_enabled,
            periodic_interval_ms: self.periodic_interval_ms,
            periodic_next: self.periodic_next,
            periodic_sent: self.periodic_sent,
        }
    }
}

/// The history after a text was sent.
pub open spec fn remembered(history: Seq<Seq<char>>, value: Seq<char>) -> Seq<Seq<char>> {
    let sent = text::trim(value);
    if sent.len() == 0 || (history.len() > 0 && history[0] == sent) {
        history
    } else {
        let all = seq![sent] + history.filter(|item: Seq<char>| item != sent);
        if all.len() > MAX_TX_HISTORY {
            all.take(MAX_TX_HISTORY as int)
        } else {
            all
        }
    }
}

/// What holds of the history: no more texts than its limit, none twice.
pub open spec fn history_wf(history: Seq<Seq<char>>) -> bool {
    history.len() <= MAX_TX_HISTORY && history.no_duplicates()
}

/// The interval in force.
pub open spec fn interval_of(v: TxPanelView) -> u64 {
    if v.periodic_interval_ms >= MIN_INTERVAL_MS {
        v.periodic_interval_ms
    } else {
        MIN_INTERVAL_MS
    }
}

/// Whether a characteristic can be written.
pub open spec fn is_writable(p: CharacteristicProperties) -> bool {
    p.write || p.write_without_response
}

/// Whether a write asks for a response, where the choice is the user's only if the
/// characteristic allows both.
pub open spec fn asks_response(p: CharacteristicProperties, chosen: bool) -> bool {
    if p.write && p.write_without_response {
        chosen
    } else {
        p.write
    }
}

/// The choice of the user, brought in line with what a characteristic allows.
pub open spec fn settled_choice(p: CharacteristicProperties, chosen: bool) -> bool {
    if is_writable(p) {
        asks_response(p, chosen)
    } else {
        chosen
    }
}

/// The command that sends a text to a characteristic, where it can be sent.
pub open spec fn write_command(
    connected: bool,
    target: Option<CharacteristicInfoView>,
    hex: Seq<char>,
    with_response: bool,
) -> Option<BleCommandView> {
    match (target, codec::hex_result(hex)) {
        (Some(characteristic), Ok(data)) if connected && is_writable(characteristic.properties)
            && data.len() > 0 => Some(
            BleCommandView::Write { characteristic: characteristic.key, data, with_response },
        ),
        _ => None,
    }
}

/// Whether the text is read at all: a device is connected and the characteristic is writable.
pub open spec fn may_send(connected: bool, target: Option<CharacteristicInfoView>) -> bool {
    connected && (target matches Some(characteristic) && is_writable(characteristic.properties))
}

/// What the periodic sender does next.
#[derive(Debug)]
pub enum PeriodicStep {
    /// It is off.
    Idle,
    /// It looks again after a while.
    Wait(u64),
    /// It was due: the command to send, where there is one, and the time until it looks again.
    Due {
        command: Option<BleCommand>,
        wait_ms: u64,
    },
}

/// Whether a packet is due.
pub open spec fn is_due(v: TxPanelView, now: u64) -> bool {
    v.periodic_enabled && (v.periodic_next matches Some(deadline) && now >= deadline)
}

/// Whether the periodic sender sets its next deadline: a packet is due, or none was planned yet.
pub open spec fn arms(v: TxPanelView, now: u64) -> bool {
    v.periodic_enabled && (v.periodic_next is None || is_due(v, now))
}

/// Whether the periodic sender can look at the clock: the text of a packet that it has to send
/// can be read, and the deadline that it has to set is a time.
pub open spec fn can_look(
    v: TxPanelView,
    now: u64,
    connected: bool,
    target: Option<CharacteristicInfoView>,
) -> bool {
    &&& is_due(v, now) && may_send(connected, target) ==> codec::is_hex_readable(v.tx_hex)
    &&& arms(v, now) ==> now + interval_of(v) <= u64::MAX
}

/// The panel after the periodic sender has looked at the clock.
pub open spec fn ticked(
    v: TxPanelView,
    now: u64,
    connected: bool,
    target: Option<CharacteristicInfoView>,
) -> TxPanelView {
    if !v.periodic_enabled {
        TxPanelView { periodic_next: None, ..v }
    } else if v.periodic_next is Some && !is_due(v, now) {
        v
    } else {
        let armed = TxPanelView { periodic_next: Some((now + interval_of(v)) as u64), ..v };
        if v.periodic_next is Some && periodic_command(v, connected, target) is Some {
            TxPanelView {
                history: remembered(v.history, v.tx_hex),
                periodic_sent: if v.periodic_sent == u64::MAX {
                    u64::MAX
                } else {
                    (v.periodic_sent + 1) as u64
                },
                ..armed
            }
        } else {
            armed
        }
    }
}

/// The command of the periodic sender.
pub open spec fn periodic_command(
    v: TxPanelView,
    connected: bool,
    target: Option<CharacteristicInfoView>,
) -> Option<BleCommandView> {
    write_command(
        connected,
        target,
        v.tx_hex,
        match target {
            Some(characteristic) => asks_response(characteristic.properties, v.write_with_response),
            None => false,
        },
    )
}

impl TxPanel {
    /// Puts a text at the front of the history.
    pub fn remember_tx(&mut self, value: &str)
        ensures
            final(self).deep_view() == (TxPanelView {
                history: remembered(old(self).deep_view().history, value@),
                ..old(self).deep_view()
            }),
    {
        let sent = text::trimmed(value);
        if sent.as_str().is_empty() {
            return;
        }
        let ghost all = self.history.deep_view();
        if self.history.len() > 0 && self.history[0] == sent {
            assert(all[0] == self.history@[0]@);
            return;
        }
        proof {
            if all.len() > 0 {
                assert(all[0] == self.history@[0]@);
            }
        }
        let ghost other = |item: Seq<char>| item != text::trim(value@);
        let mut kept: VecDeque<String> = VecDeque::new();
        let mut i: usize = 0;
        proof {
            reveal(Seq::filter);
            assert(all.take(0).filter(other) =~= Seq::empty());
        }
        while i < self.history.len()
            invariant
                i <= self.history@.len(),
                all == self.history.deep_view(),
                self.deep_view() == old(self).deep_view(),
                sent@ == text::trim(value@),
                other == (|item: Seq<char>| item != text::trim(value@)),
                kept.deep_view() =~= all.take(i as int).filter(other),
            decreases self.history@.len() - i,
        {
            let ghost before = kept.deep_view();
            let ghost next = all.take(i + 1);
            proof {
                reveal(Seq::filter);
                assert(next.drop_last() =~= all.take(i as int));
                assert(next.last() == self.history@[i as int]@);
            }
            if self.history[i] != sent {
                kept.push_back(self.history[i].clone());
                assert(kept.deep_view() =~= before.push(all[i as int]));
            }
            i = i + 1;
        }
        assert(all.take(i as int) =~= all);
        let ghost rest = kept.deep_view();
        let ghost value_sent = sent@;
        kept.push_front(sent);
        assert(kept.deep_view() =~= seq![value_sent] + rest);
        let ghost whole = kept.deep_view();
        kept.truncate(MAX_TX_HISTORY);
        proof {
            if whole.len() > MAX_TX_HISTORY {
                assert(kept.deep_view() =~= whole.take(MAX_TX_HISTORY as int));
            } else {
                assert(kept.deep_view() =~= whole);
            }
            assert(kept.deep_view() =~= remembered(all, value@));
        }
        self.history = kept;
    }

    /// Takes the history of a profile, up to its limit.
    pub fn set_history(&mut self, items: &Vec<String>)
        ensures
            final(self).deep_view() == (TxPanelView {
                history: if items@.len() > MAX_TX_HISTORY {
                    items.deep_view().take(MAX_TX_HISTORY as int)
                } else {
                    items.deep_view()
                },
                ..old(self).deep_view()
            }),
    {
        let ghost all = items.deep_view();
        let mut taken: VecDeque<String> = VecDeque::new();
        let mut i: usize = 0;
        while i < items.len() && i < MAX_TX_HISTORY
            invariant
                i <= items@.len(),
                i <= MAX_TX_HISTORY,
                all == items.deep_view(),
                taken.deep_view() =~= all.take(i as int),
            decreases items@.len() - i,
        {
            let ghost before = taken.deep_view();
            taken.push_back(items[i].clone());
            assert(taken.deep_view() =~= before.push(all[i as int]));
            i = i + 1;
        }
        proof {
            if items@.len() <= MAX_TX_HISTORY {
                assert(all.take(i as int) =~= all);
            }
        }
        self.history = taken;
    }

    /// The history as a list.
    pub fn history_list(&self) -> (r: Vec<String>)
        ensures
            r.deep_view() == self.deep_view().history,
    {
        let ghost all = self.history.deep_view();
        let mut out: Vec<String> = Vec::new();
        let mut i: usize = 0;
        while i < self.history.len()
            invariant
                i <= self.history@.len(),
                all == self.history.deep_view(),
                out.deep_view() =~= all.take(i as int),
            decreases self.history@.len() - i,
        {
            let ghost before = out.deep_view();
            out.push(self.history[i].clone());
            assert(out.deep_view() =~= before.push(all[i as int]));
            i = i + 1;
        }
        assert(out.deep_view() =~= all);
        out
    }

    /// Brings the choice of a response in line with what a characteristic allows.
    pub fn settle_write_mode(&mut self, properties: CharacteristicProperties)
        ensures
            final(self).deep_view() == (TxPanelView {
                write_with_response: settled_choice(
                    properties,
                    old(self).deep_view().write_with_response,
                ),
                ..old(self).deep_view()
            }),
    {
        if properties.write && properties.write_without_response {
            return;
        }
        if properties.write {
            self.write_with_response = true;
        } else if properties.write_without_response {
            self.write_with_response = false;
        }
    }

    /// The command that sends the text at once, where it can be sent.
    pub fn send_command(&self, connected: bool, target: &Option<CharacteristicInfo>) -> (r: Option<
        BleCommand,
    >)
        requires
            may_send(connected, target.deep_view()) ==> codec::is_hex_readable(self.tx_hex@),
        ensures
            r.deep_view() == write_command(
                connected,
                target.deep_view(),
                self.tx_hex@,
                self.write_with_response,
            ),
    {
        self.command(connected, target, self.write_with_response)
    }

    fn command(
        &self,
        connected: bool,
        target: &Option<CharacteristicInfo>,
        with_response: bool,
    ) -> (r: Option<BleCommand>)
        requires
            may_send(connected, target.deep_view()) ==> codec::is_hex_readable(self.tx_hex@),
        ensures
            r.deep_view() == write_command(
                connected,
                target.deep_view(),
                self.tx_hex@,
                with_response,
            ),
    {
        if !connected {
            return None;
        }
        let characteristic = match target {
            Some(characteristic) => characteristic,
            None => {
                return None;
            },
        };
        if !(characteristic.properties.write || characteristic.properties.write_without_response) {
            return None;
        }
        match codec::parse_hex(self.tx_hex.as_str()) {
            Ok(data) => if data.len() == 0 {
                None
            } else {
                Some(
                    BleCommand::Write {
                        characteristic: characteristic.key.clone(),
                        data,
                        with_response,
                    },
                )
            },
            Err(_) => None,
        }
    }

    /// Whether the periodic sender can look at the clock.
    pub fn can_tick(&self, now: u64, connected: bool, target: &Option<CharacteristicInfo>) -> (r:
        bool)
        ensures
            r == can_look(self.deep_view(), now, connected, target.deep_view()),
    {
        if !self.periodic_enabled {
            return true;
        }
        let due = match self.periodic_next {
            Some(deadline) => now >= deadline,
            None => false,
        };
        if self.periodic_next.is_some() && !due {
            return true;
        }
        let interval: u64 = if self.periodic_interval_ms >= MIN_INTERVAL_MS {
            self.periodic_interval_ms
        } else {
            MIN_INTERVAL_MS
        };
        let writable = match target {
            Some(characteristic) => characteristic.properties.write
                || characteristic.properties.write_without_response,
            None => false,
        };
        now <= u64::MAX - interval && (!due || !connected || !writable || codec::hex_readable(
            self.tx_hex.as_str(),
        ))
    }

    /// Looks at the clock: whether a packet is due, and which.
    pub fn tick_periodic_send(
        &mut self,
        now: u64,
        connected: bool,
        target: &Option<CharacteristicInfo>,
    ) -> (r: PeriodicStep)
        requires
            can_look(old(self).deep_view(), now, connected, target.deep_view()),
        ensures
            final(self).deep_view() == ticked(
                old(self).deep_view(),
                now,
                connected,
                target.deep_view(),
            ),
            ({
                let v = old(self).deep_view();
                match r {
                    PeriodicStep::Idle => !v.periodic_enabled,
                    PeriodicStep::Wait(wait_ms) => v.periodic_enabled && !is_due(v, now) && wait_ms
                        == (match v.periodic_next {
                        Some(deadline) => deadline - now,
                        None => interval_of(v) as int,
                    }),
                    PeriodicStep::Due { command, wait_ms } => is_due(v, now) && wait_ms
                        == interval_of(v) && command.deep_view() == periodic_command(
                        v,
                        connected,
                        target.deep_view(),
                    ),
                }
            }),
    {
        if !self.periodic_enabled {
            self.periodic_next = None;
            return PeriodicStep::Idle;
        }
        let interval: u64 = if self.periodic_interval_ms >= MIN_INTERVAL_MS {
            self.periodic_interval_ms
        } else {
            MIN_INTERVAL_MS
        };
        let deadline: u64 = match self.periodic_next {
            Some(deadline) => deadline,
            None => {
                self.periodic_next = Some(now + interval);
                return PeriodicStep::Wait(interval);
            },
        };
        if now < deadline {
            return PeriodicStep::Wait(deadline - now);
        }
        let ghost before = self.deep_view();
        let with_response = match target {
            Some(characteristic) => if characteristic.properties.write
                && characteristic.properties.write_without_response {
                self.write_with_response
            } else {
                characteristic.properties.write
            },
            None => false,
        };
        let command = self.command(connected, target, with_response);
        self.periodic_next = Some(now + interval);
        if command.is_some() {
            let sent = self.tx_hex.clone();
            self.remember_tx(sent.as_str());
            self.periodic_sent = self.periodic_sent.saturating_add(1);
        }
        PeriodicStep::Due { command, wait_ms: interval }
    }

    /// Switches the periodic sender on or off and starts it anew.
    pub fn set_periodic(&mut self, enabled: bool)
        ensures
            final(self).deep_view() == (TxPanelView {
                periodic_enabled: enabled,
                periodic_next: None,
                periodic_sent: 0,
                ..old(self).deep_view()
            }),
    {
        self.periodic_enabled = enabled;
        self.periodic_next = None;
        self.periodic_sent = 0;
    }

    /// Changes the interval of the periodic sender.
    pub fn set_interval(&mut self, interval_ms: u64)
        ensures
            final(self).deep_view() == (TxPanelView {
                periodic_interval_ms: if interval_ms >= MIN_INTERVAL_MS {
                    interval_ms
                } else {
                    MIN_INTERVAL_MS
                },
                periodic_next: None,
                ..old(self).deep_view()
            }),
    {
        self.periodic_interval_ms = if interval_ms >= MIN_INTERVAL_MS {
            interval_ms
        } else {
            MIN_INTERVAL_MS
        };
        self.periodic_next = None;
    }
}

/// The history stays within its limit and holds no text twice; what was sent last stands first.
pub proof fn history_stays_tidy(history: Seq<Seq<char>>, value: Seq<char>)
    requires
        history_wf(history),
    ensures
        history_wf(remembered(history, value)),
        text::trim(value).len() > 0 ==> remembered(history, value)[0] == text::trim(value),
{
    let sent = text::trim(value);
    if !(sent.len() == 0 || (history.len() > 0 && history[0] == sent)) {
        let other = |item: Seq<char>| item != sent;
        let rest = history.filter(other);
        filter_keeps_distinct(history, other);
        let all = seq![sent] + rest;
        assert(all.no_duplicates()) by {
            assert forall|i: int, j: int|
                0 <= i < all.len() && 0 <= j < all.len() && i != j implies all[i] != all[j] by {
                if i == 0 {
                    filtered_passes(history, other, j - 1);
                } else if j == 0 {
                    filtered_passes(history, other, i - 1);
                } else {
                    assert(rest[i - 1] != rest[j - 1]);
                }
            }
        }
        if all.len() > MAX_TX_HISTORY {
            let cut = all.take(MAX_TX_HISTORY as int);
            assert forall|i: int, j: int|
                0 <= i < cut.len() && 0 <= j < cut.len() && i != j implies cut[i] != cut[j] by {
                assert(all[i] != all[j]);
            }
        }
    }
}

proof fn filtered_passes(
    items: Seq<Seq<char>>,
    pred: spec_fn(Seq<char>) -> bool,
    i: int,
)
    requires
        0 <= i < items.filter(pred).len(),
    ensures
        pred(items.filter(pred)[i]),
        items.contains(items.filter(pred)[i]),
    decreases items.len(),
{
    reveal(Seq::filter);
    if items.len() > 0 {
        let rest = items.drop_last();
        if i < rest.filter(pred).len() {
            filtered_passes(rest, pred, i);
            let k = choose|k: int| 0 <= k < rest.len() && rest[k] == rest.filter(pred)[i];
            assert(items[k] == items.filter(pred)[i]);
        } else {
            assert(items[items.len() - 1] == items.filter(pred)[i]);
        }
    }
}

proof fn filter_keeps_distinct(items: Seq<Seq<char>>, pred: spec_fn(Seq<char>) -> bool)
    requires
        items.no_duplicates(),
    ensures
        items.filter(pred).no_duplicates(),
        items.filter(pred).len() <= items.len(),
    decreases items.len(),
{
    reveal(Seq::filter);
    if items.len() > 0 {
        let rest = items.drop_last();
        assert(rest.no_duplicates()) by {
            assert forall|i: int, j: int|
                0 <= i < rest.len() && 0 <= j < rest.len() && i != j implies rest[i] != rest[j] by {
                assert(items[i] != items[j]);
            }
        }
        filter_keeps_distinct(rest, pred);
        let kept = rest.filter(pred);
        if pred(items.last()) {
            let all = items.filter(pred);
            assert(all =~= kept.push(items.last()));
            assert forall|i: int, j: int|
                0 <= i < all.len() && 0 <= j < all.len() && i != j implies all[i] != all[j] by {
                if i == kept.len() {
                    filtered_passes(rest, pred, j);
                    let k = choose|k: int| 0 <= k < rest.len() && rest[k] == kept[j];
                    assert(items[k] != items[items.len() - 1]);
                } else if j == kept.len() {
                    filtered_passes(rest, pred, i);
                    let k = choose|k: int| 0 <= k < rest.len() && rest[k] == kept[i];
                    assert(items[k] != items[items.len() - 1]);
                } else {
                    assert(kept[i] != kept[j]);
                }
            }
        }
    }
}

/// Between two packets of the periodic sender lies at least the interval.
pub proof fn periodic_packets_keep_their_distance(
    v: TxPanelView,
    first: u64,
    second: u64,
    connected: bool,
    target: Option<CharacteristicInfoView>,
)
    requires
        is_due(v, first),
        first + interval_of(v) <= u64::MAX,
        is_due(ticked(v, first, connected, target), second),
    ensures
        second >= first + interval_of(v),
{
}

/// A text that is sent goes to the front of the history, without the white space around it, and from
/// wherever it stood before; the others keep their order, and of them all the newest hundred stay. A
/// blank text, and one that stands in front already, change nothing.
pub proof fn sent_texts_come_first(
    before: Seq<Seq<char>>,
    sent: Seq<char>,
    after: Seq<Seq<char>>,
    left: Seq<char>,
    right: Seq<char>,
)
    requires
        forall|i: int| 0 <= i < left.len() ==> text::is_space(#[trigger] left[i]),
        forall|i: int| 0 <= i < right.len() ==> text::is_space(#[trigger] right[i]),
        sent.len() > 0 ==> !text::is_space(sent[0]) && !text::is_space(sent.last()),
        !before.contains(sent),
        !after.contains(sent),
        before.len() + after.len() < 100,
    ensures
        sent.len() > 0 ==> remembered(before.push(sent) + after, left + sent + right) == seq![sent]
            + before + after,
        sent.len() > 0 ==> remembered(before + after, left + sent + right) == seq![sent] + before
            + after,
        sent.len() == 0 ==> remembered(before + after, left + sent + right) == before + after,
{
    text::trimming_drops_the_ends(left, sent, right);
    let other = |item: Seq<char>| item != sent;
    reveal(Seq::filter);
    nothing_is_dropped(before, other);
    nothing_is_dropped(after, other);
    Seq::filter_distributes_over_add(before.push(sent), after, other);
    Seq::filter_distributes_over_add(before, after, other);
    assert(before.push(sent).drop_last() =~= before);
    if sent.len() > 0 {
        let known = before.push(sent) + after;
        assert(known.filter(other) =~= before + after);
        assert(seq![sent] + (before + after) =~= seq![sent] + before + after);
        if before.len() == 0 {
            assert(known[0] == sent);
            assert(known =~= seq![sent] + before + after);
        } else {
            assert(known[0] == before[0]);
            assert(before.contains(before[0]));
        }
        if (before + after).len() > 0 {
            assert(before.len() > 0 ==> (before + after)[0] == before[0] && before.contains(
                before[0],
            ));
            assert(before.len() == 0 ==> (before + after)[0] == after[0] && after.contains(
                after[0],
            ));
        }
    }
}

proof fn nothing_is_dropped(items: Seq<Seq<char>>, pred: spec_fn(Seq<char>) -> bool)
    requires
        forall|i: int| 0 <= i < items.len() ==> pred(#[trigger] items[i]),
    ensures
        items.filter(pred) == items,
    decreases items.len(),
{
    reveal(Seq::filter);
    if items.len() > 0 {
        assert(pred(items[items.len() - 1]));
        assert forall|i: int| 0 <= i < items.drop_last().len() implies pred(
            #[trigger] items.drop_last()[i],
        ) by {
            assert(pred(items[i]));
        }
        nothing_is_dropped(items.drop_last(), pred);
        assert(items.drop_last().push(items.last()) =~= items);
    } else {
        assert(items.filter(pred) =~= items);
    }
}

/// A full history loses its oldest text to a new one.
pub proof fn full_histories_lose_the_oldest(history: Seq<Seq<char>>, sent: Seq<char>)
    requires
        history.len() == 100,
        !history.contains(sent),
        sent.len() > 0,
        !text::is_space(sent[0]),
        !text::is_space(sent.last()),
    ensures
        remembered(history, sent) == seq![sent] + history.take(99),
{
    assert(Seq::<char>::empty() + sent + Seq::<char>::empty() =~= sent);
    text::trimming_drops_the_ends(Seq::empty(), sent, Seq::empty());
    nothing_is_dropped(history, |item: Seq<char>| item != sent);
    assert(history.contains(history[0]));
    assert((seq![sent] + history).take(100) =~= seq![sent] + history.take(99));
}

/// Bytes go to the selected characteristic exactly while a device is connected, the characteristic
/// can be written and the text denotes at least one byte; they are those that the text denotes.
pub proof fn bytes_go_to_the_selected_characteristic(
    connected: bool,
    target: CharacteristicInfoView,
    hex: Seq<char>,
    data: Seq<u8>,
    with_response: bool,
)
    requires
        codec::spells(hex, codec::digit_run(data)),
    ensures
        connected && (target.properties.write || target.properties.write_without_response)
            && data.len() > 0 ==> write_command(connected, Some(target), hex, with_response)
            == Some(
            BleCommandView::Write { characteristic: target.key, data, with_response },
        ),
        !connected || !target.properties.write && !target.properties.write_without_response
            || data.len() == 0 ==> write_command(connected, Some(target), hex, with_response)
            is None,
        write_command(connected, None, hex, with_response) is None,
{
    codec::every_hex_spelling_reads_back(hex, data);
}

/// Only where a characteristic can be written with and without a response does the user choose;
/// otherwise the only way that there is is taken.
pub proof fn responses_follow_the_characteristic(p: CharacteristicProperties, chosen: bool)
    ensures
        p.write && p.write_without_response ==> asks_response(p, chosen) == chosen
            && settled_choice(p, chosen) == chosen,
        p.write && !p.write_without_response ==> asks_response(p, chosen) && settled_choice(
            p,
            chosen,
        ),
        !p.write && p.write_without_response ==> !asks_response(p, chosen) && !settled_choice(
            p,
            chosen,
        ),
        !p.write && !p.write_without_response ==> settled_choice(p, chosen) == chosen,
{
}

/// The periodic sender waits one interval, at least a tenth of a second, before its first packet and
/// between packets. A packet that is due is sent, remembered and counted; what cannot be sent is
/// passed over. While the sender is off nothing is planned.
pub proof fn periodic_packets_are_sent_when_due(
    v: TxPanelView,
    now: u64,
    connected: bool,
    target: Option<CharacteristicInfoView>,
)
    requires
        can_look(v, now, connected, target),
    ensures
        ({
            let after = ticked(v, now, connected, target);
            let interval: u64 = if v.periodic_interval_ms < 100 {
                100
            } else {
                v.periodic_interval_ms
            };
            let due = v.periodic_enabled && v.periodic_next is Some && now >= v.periodic_next->0;
            let command = periodic_command(v, connected, target);
            &&& !v.periodic_enabled ==> after.periodic_next is None
            &&& v.periodic_enabled && (v.periodic_next is None || due) ==> after.periodic_next
                == Some((now + interval) as u64)
            &&& v.periodic_enabled && v.periodic_next is Some && !due ==> after == v
            &&& due && command is Some ==> after.history == remembered(v.history, v.tx_hex)
            &&& due && command is Some && v.periodic_sent < u64::MAX ==> after.periodic_sent
                == v.periodic_sent + 1
            &&& !due || command is None ==> after.periodic_sent == v.periodic_sent
                && after.history == v.history
            &&& after.tx_hex == v.tx_hex && after.periodic_enabled == v.periodic_enabled
                && after.write_with_response == v.write_with_response
                && after.periodic_interval_ms == v.periodic_interval_ms
            &&& target matches Some(found) ==> command == write_command(
                connected,
                target,
                v.tx_hex,
                if found.properties.write && found.properties.write_without_response {
                    v.write_with_response
                } else {
                    found.properties.write
                },
            )
        }),
{
}

} // verus!
