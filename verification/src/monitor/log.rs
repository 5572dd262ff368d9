//! The packet log: its entries, counters and filter.

use crate::ble::model::CharacteristicKey;
#[allow(unused_imports)]
use crate::ble::model::CharacteristicKeyView;
use crate::capture;
use crate::codec;
use crate::protocol::{CrcStatus, DecodedField};
#[allow(unused_imports)]
use crate::protocol::DecodedFieldView;
use crate::text;
use std::collections::VecDeque;
use vstd::prelude::*;
#[allow(unused_imports)]
use vstd::string::*;

verus! {

/// How a packet went.
#[derive(Debug, Clone, Copy, PartialEq, Eq, Structural)]
pub enum LogDirection {
    /// The device sent it by itself.
    Rx,
    /// It was read.
    Read,
    /// It was written.
    Tx,
}

/// The short name of a direction.
pub open spec fn direction_text(direction: LogDirection) -> Seq<char> {
    match direction {
        LogDirection::Rx => "RX"@,
        LogDirection::Read => "RD"@,
        LogDirection::Tx => "TX"@,
    }
}

impl LogDirection {
    /// The short name of the direction.
    pub fn label(self) -> (r: &'static str)
        ensures
            r@ == direction_text(self),
    {
        match self {
            LogDirection::Rx => "RX",
            LogDirection::Read => "RD",
            LogDirection::Tx => "TX",
        }
    }
}

/// The direction with a short name.
pub open spec fn direction_named(name: Seq<char>) -> Option<LogDirection> {
    if name == "RX"@ {
        Some(LogDirection::Rx)
    } else if name == "RD"@ {
        Some(LogDirection::Read)
    } else if name == "TX"@ {
        Some(LogDirection::Tx)
    } else {
        None
    }
}

/// The direction with a short name.
pub fn parse_direction(name: &str) -> (r: Option<LogDirection>)
    ensures
        r == direction_named(name@),
{
    if text::same_text(name, "RX") {
        Some(LogDirection::Rx)
    } else if text::same_text(name, "RD") {
        Some(LogDirection::Read)
    } else if text::same_text(name, "TX") {
        Some(LogDirection::Tx)
    } else {
        None
    }
}

/// A direction is known by its short name, in the log as in a capture.
pub proof fn directions_keep_their_names(direction: LogDirection)
    ensures
        direction_named(direction_text(direction)) == Some(direction),
        capture::label_of(capture::code_of(direction_text(direction))) == direction_text(direction),
{
    reveal_strlit("RX");
    reveal_strlit("RD");
    reveal_strlit("TX");
    assert("RX"@[1] != "RD"@[1] && "TX"@[0] != "RX"@[0] && "TX"@[0] != "RD"@[0]);
}

/// A packet in the log.
#[derive(Debug)]
pub struct LogEntry {
    pub timestamp: String,
    pub direction: LogDirection,
    pub service_uuid: String,
    pub characteristic_uuid: String,
    pub data: Vec<u8>,
}

/// The mathematical value of [`LogEntry`].
#[verifier::ext_equal]
pub struct LogEntryView {
    pub timestamp: Seq<char>,
    pub direction: LogDirection,
    pub service_uuid: Seq<char>,
    pub characteristic_uuid: Seq<char>,
    pub data: Seq<u8>,
}

impl DeepView for LogEntry {
    type V = LogEntryView;

    open spec fn deep_view(&self) -> LogEntryView {
        LogEntryView {
            timestamp: self.timestamp@,
            direction: self.direction,
            service_uuid: self.service_uuid@,
            characteristic_uuid: self.characteristic_uuid@,
            data: self.data@,
        }
    }
}

impl Clone for LogEntry {
    fn clone(&self) -> (r: Self)
        ensures
            r.deep_view() == self.deep_view(),
    {
        let r = LogEntry {
            timestamp: self.timestamp.clone(),
            direction: self.direction,
            service_uuid: self.service_uuid.clone(),
            characteristic_uuid: self.characteristic_uuid.clone(),
            data: self.data.clone(),
        };
        assert(r.data@ =~= self.data@);
        r
    }
}

/// A decoded frame in the list of frames.
#[derive(Debug)]
pub struct ProtocolFrameEntry {
    pub sequence: u64,
    pub timestamp: String,
    pub data: Vec<u8>,
    pub crc: CrcStatus,
    pub fields: Vec<DecodedField>,
}

/// The mathematical value of [`ProtocolFrameEntry`].
#[verifier::ext_equal]
pub struct ProtocolFrameEntryView {
    pub sequence: u64,
    pub timestamp: Seq<char>,
    pub data: Seq<u8>,
    pub crc: CrcStatus,
    pub fields: Seq<DecodedFieldView>,
}

impl DeepView for ProtocolFrameEntry {
    type V = ProtocolFrameEntryView;

    open spec fn deep_view(&self) -> ProtocolFrameEntryView {
        ProtocolFrameEntryView {
            sequence: self.sequence,
            timestamp: self.timestamp@,
            data: self.data@,
            crc: self.crc,
            fields: self.fields.deep_view(),
        }
    }
}

impl Clone for ProtocolFrameEntry {
    fn clone(&self) -> (r: Self)
        ensures
            r.deep_view() == self.deep_view(),
    {
        let r = ProtocolFrameEntry {
            sequence: self.sequence,
            timestamp: self.timestamp.clone(),
            data: self.data.clone(),
            crc: self.crc,
            fields: self.fields.clone(),
        };
        assert(r.data@ =~= self.data@);
        assert(r.fields.deep_view() =~= self.fields.deep_view());
        r
    }
}

/// The characteristic of a packet.
pub open spec fn entry_key(entry: LogEntryView) -> CharacteristicKeyView {
    CharacteristicKeyView {
        service_uuid: entry.service_uuid,
        characteristic_uuid: entry.characteristic_uuid,
    }
}

impl LogEntry {
    /// The characteristic of the packet.
    pub fn key(&self) -> (r: CharacteristicKey)
        ensures
            r.deep_view() == entry_key(self.deep_view()),
    {
        CharacteristicKey {
            service_uuid: self.service_uuid.clone(),
            characteristic_uuid: self.characteristic_uuid.clone(),
        }
    }
}

/// Packets and bytes by direction.
#[derive(Debug, Clone, Copy, PartialEq, Eq, Structural)]
pub struct TrafficStats {
    pub rx_packets: u64,
    pub rx_bytes: u64,
    pub read_packets: u64,
    pub read_bytes: u64,
    pub tx_packets: u64,
    pub tx_bytes: u64,
    /// Packets that were not logged because the display was paused.
    pub paused_rx_packets: u64,
}

/// Counters at zero.
pub open spec fn no_traffic() -> TrafficStats {
    TrafficStats {
        rx_packets: 0,
        rx_bytes: 0,
        read_packets: 0,
        read_bytes: 0,
        tx_packets: 0,
        tx_bytes: 0,
        paused_rx_packets: 0,
    }
}

impl Default for TrafficStats {
    fn default() -> (r: Self)
        ensures
            r == no_traffic(),
    {
        TrafficStats {
            rx_packets: 0,
            rx_bytes: 0,
            read_packets: 0,
            read_bytes: 0,
            tx_packets: 0,
            tx_bytes: 0,
            paused_rx_packets: 0,
        }
    }
}

/// Whether the counters can take one more packet.
pub open spec fn has_room(stats: TrafficStats, direction: LogDirection, bytes: nat) -> bool {
    match direction {
        LogDirection::Rx => stats.rx_packets < u64::MAX && stats.rx_bytes + bytes <= u64::MAX,
        LogDirection::Read => stats.read_packets < u64::MAX && stats.read_bytes + bytes <= u64::MAX,
        LogDirection::Tx => stats.tx_packets < u64::MAX && stats.tx_bytes + bytes <= u64::MAX,
    }
}

/// The counters after one more packet.
pub open spec fn counted(stats: TrafficStats, direction: LogDirection, bytes: nat) -> TrafficStats {
    match direction {
        LogDirection::Rx => TrafficStats {
            rx_packets: (stats.rx_packets + 1) as u64,
            rx_bytes: (stats.rx_bytes + bytes) as u64,
            ..stats
        },
        LogDirection::Read => TrafficStats {
            read_packets: (stats.read_packets + 1) as u64,
            read_bytes: (stats.read_bytes + bytes) as u64,
            ..stats
        },
        LogDirection::Tx => TrafficStats {
            tx_packets: (stats.tx_packets + 1) as u64,
            tx_bytes: (stats.tx_bytes + bytes) as u64,
            ..stats
        },
    }
}

impl TrafficStats {
    /// Whether the counters can take one more packet.
    pub fn can_record(&self, direction: LogDirection, bytes: usize) -> (r: bool)
        ensures
            r == has_room(*self, direction, bytes as nat),
    {
        let bytes: u64 = bytes as u64;
        match direction {
            LogDirection::Rx => self.rx_packets < u64::MAX && self.rx_bytes <= u64::MAX - bytes,
            LogDirection::Read => self.read_packets < u64::MAX && self.read_bytes <= u64::MAX
                - bytes,
            LogDirection::Tx => self.tx_packets < u64::MAX && self.tx_bytes <= u64::MAX - bytes,
        }
    }

    /// Counts a packet.
    pub fn record(&mut self, direction: LogDirection, bytes: usize)
        requires
            has_room(*old(self), direction, bytes as nat),
        ensures
            *final(self) == counted(*old(self), direction, bytes as nat),
    {
        let bytes: u64 = bytes as u64;
        match direction {
            LogDirection::Rx => {
                self.rx_packets = self.rx_packets + 1;
                self.rx_bytes = self.rx_bytes + bytes;
            },
            LogDirection::Read => {
                self.read_packets = self.read_packets + 1;
                self.read_bytes = self.read_bytes + bytes;
            },
            LogDirection::Tx => {
                self.tx_packets = self.tx_packets + 1;
                self.tx_bytes = self.tx_bytes + bytes;
            },
        }
    }
}

/// Which packets of the log are shown.
#[derive(Debug, PartialEq, Eq)]
pub struct LogFilter {
    /// A part of the time, a UUID, the HEX or the ASCII notation.
    pub text: String,
    pub show_rx: bool,
    pub show_read: bool,
    pub show_tx: bool,
}

/// The mathematical value of [`LogFilter`].
#[verifier::ext_equal]
pub struct LogFilterView {
    pub text: Seq<char>,
    pub show_rx: bool,
    pub show_read: bool,
    pub show_tx: bool,
}

impl DeepView for LogFilter {
    type V = LogFilterView;

    open spec fn deep_view(&self) -> LogFilterView {
        LogFilterView {
            text: self.text@,
            show_rx: self.show_rx,
            show_read: self.show_read,
            show_tx: self.show_tx,
        }
    }
}

/// Whether packets of a direction are shown.
pub open spec fn direction_shown(filter: LogFilterView, direction: LogDirection) -> bool {
    match direction {
        LogDirection::Rx => filter.show_rx,
        LogDirection::Read => filter.show_read,
        LogDirection::Tx => filter.show_tx,
    }
}

/// Whether `part` stands in the lower case of `whole`.
pub open spec fn holds(whole: Seq<char>, part: Seq<char>) -> bool {
    text::occurs_in(part, text::lower_text(whole))
}

/// What is looked for.
pub open spec fn log_query(filter: LogFilterView) -> Seq<char> {
    text::lower_text(text::trim(filter.text))
}

/// Whether a packet is shown under a query in lower case.
pub open spec fn entry_matches(filter: LogFilterView, entry: LogEntryView, query: Seq<char>) -> bool {
    direction_shown(filter, entry.direction) && (query.len() == 0 || holds(entry.timestamp, query)
        || holds(entry.service_uuid, query) || holds(entry.characteristic_uuid, query) || holds(
        codec::hex_text(entry.data),
        query,
    ) || holds(entry.data.map_values(|b: u8| codec::ascii_char(b)), query))
}

/// Whether a packet is shown.
pub open spec fn entry_shown(filter: LogFilterView, entry: LogEntryView) -> bool {
    entry_matches(filter, entry, log_query(filter))
}

fn text_holds(whole: &str, part: &[char]) -> (r: bool)
    ensures
        r == holds(whole@, part@),
{
    let chars = text::chars_of(whole);
    let lower = text::lower_chars(&chars);
    text::chars_occur_in(part, &lower)
}

impl LogFilter {
    /// Whether a packet is shown under a query in lower case.
    pub fn log_matches(&self, entry: &LogEntry, query: &[char]) -> (r: bool)
        ensures
            r == entry_matches(self.deep_view(), entry.deep_view(), query@),
    {
        let shown = match entry.direction {
            LogDirection::Rx => self.show_rx,
            LogDirection::Read => self.show_read,
            LogDirection::Tx => self.show_tx,
        };
        if !shown {
            return false;
        }
        if query.len() == 0 {
            return true;
        }
        if text_holds(entry.timestamp.as_str(), query) || text_holds(
            entry.service_uuid.as_str(),
            query,
        ) || text_holds(entry.characteristic_uuid.as_str(), query) {
            return true;
        }
        let hex = codec::format_hex(entry.data.as_slice());
        let ascii = codec::format_ascii(entry.data.as_slice());
        text_holds(hex.as_str(), query) || text_holds(ascii.as_str(), query)
    }

    /// The packets that are shown, in the order of the log.
    pub fn visible_entries(&self, logs: &VecDeque<LogEntry>) -> (r: Vec<LogEntry>)
        ensures
            r.deep_view() == logs.deep_view().filter(
                |entry: LogEntryView| entry_shown(self.deep_view(), entry),
            ),
    {
        let trimmed = text::trimmed_chars(self.text.as_str());
        let query = text::lower_chars(&trimmed);
        let ghost all = logs.deep_view();
        let ghost shown = |entry: LogEntryView| entry_shown(self.deep_view(), entry);
        let mut out: Vec<LogEntry> = Vec::new();
        let mut i: usize = 0;
        proof {
            reveal(Seq::filter);
            assert(all.take(0).filter(shown) =~= Seq::empty());
        }
        while i < logs.len()
            invariant
                i <= logs@.len(),
                all == logs.deep_view(),
                query@ == log_query(self.deep_view()),
                shown == (|entry: LogEntryView| entry_shown(self.deep_view(), entry)),
                out.deep_view() =~= all.take(i as int).filter(shown),
            decreases logs@.len() - i,
        {
            let ghost before = out.deep_view();
            let ghost next = all.take(i + 1);
            proof {
                reveal(Seq::filter);
                assert(next.drop_last() =~= all.take(i as int));
                assert(next.last() == logs@[i as int].deep_view());
            }
            if self.log_matches(&logs[i], &query) {
                out.push(logs[i].clone());
                assert(out.deep_view() =~= before.push(all[i as int]));
            }
            i = i + 1;
        }
        assert(all.take(i as int) =~= all);
        out
    }
}

/// A packet is counted once, with its bytes, under its own direction, and under no other.
pub proof fn packets_are_counted_by_direction(
    stats: TrafficStats,
    direction: LogDirection,
    bytes: nat,
)
    requires
        has_room(stats, direction, bytes),
    ensures
        ({
            let after = counted(stats, direction, bytes);
            let one = |d: LogDirection| if direction == d { 1int } else { 0int };
            let more = |d: LogDirection| if direction == d { bytes as int } else { 0int };
            &&& after.rx_packets == stats.rx_packets + one(LogDirection::Rx)
            &&& after.rx_bytes == stats.rx_bytes + more(LogDirection::Rx)
            &&& after.read_packets == stats.read_packets + one(LogDirection::Read)
            &&& after.read_bytes == stats.read_bytes + more(LogDirection::Read)
            &&& after.tx_packets == stats.tx_packets + one(LogDirection::Tx)
            &&& after.tx_bytes == stats.tx_bytes + more(LogDirection::Tx)
            &&& after.paused_rx_packets == stats.paused_rx_packets
        }),
{
}

/// A packet is shown where its direction is shown and the text of the filter, without the white
/// space around it, stands in its time, a UUID, its bytes in HEX notation or as ASCII characters,
/// small and capital letters alike. A blank text asks for nothing.
pub proof fn log_filters_look_everywhere(
    filter: LogFilterView,
    entry: LogEntryView,
    left: Seq<char>,
    part: Seq<char>,
    right: Seq<char>,
)
    requires
        forall|i: int| 0 <= i < left.len() ==> text::is_space(#[trigger] left[i]),
        forall|i: int| 0 <= i < right.len() ==> text::is_space(#[trigger] right[i]),
        part.len() > 0 ==> !text::is_space(part[0]) && !text::is_space(part.last()),
        filter.text == left + part + right,
    ensures
        entry_shown(filter, entry) <==> ({
            &&& entry.direction == LogDirection::Rx ==> filter.show_rx
            &&& entry.direction == LogDirection::Read ==> filter.show_read
            &&& entry.direction == LogDirection::Tx ==> filter.show_tx
            &&& part.len() == 0 || text::holds_words(entry.timestamp, part) || text::holds_words(
                entry.service_uuid,
                part,
            ) || text::holds_words(entry.characteristic_uuid, part) || text::holds_words(
                codec::hex_text(entry.data),
                part,
            ) || text::holds_words(
                entry.data.map_values(|b: u8| if 32 <= b <= 126 { b as char } else { '.' }),
                part,
            )
        }),
{
    text::trimming_drops_the_ends(left, part, right);
    text::words_are_found_in_lower_case(part, entry.timestamp);
    text::words_are_found_in_lower_case(part, entry.service_uuid);
    text::words_are_found_in_lower_case(part, entry.characteristic_uuid);
    text::words_are_found_in_lower_case(part, codec::hex_text(entry.data));
    let ascii = entry.data.map_values(|b: u8| codec::ascii_char(b));
    assert(ascii =~= entry.data.map_values(|b: u8| if 32 <= b <= 126 { b as char } else { '.' }));
    text::words_are_found_in_lower_case(part, ascii);
}

/// The characteristic of a packet is named by its two UUIDs.
pub proof fn packets_name_their_characteristic(entry: LogEntryView)
    ensures
        entry_key(entry).service_uuid == entry.service_uuid,
        entry_key(entry).characteristic_uuid == entry.characteristic_uuid,
{
}

} // verus!
