//! Texts of the window that do not depend on the language.

use crate::ble::model::{DeviceInfo, ManufacturerDataEntry, ServiceDataEntry};
#[allow(unused_imports)]
use crate::ble::model::{DeviceInfoView, ManufacturerDataEntryView, ServiceDataEntryView};
use crate::codec;
use crate::text;
use vstd::prelude::*;
#[allow(unused_imports)]
use vstd::string::*;

verus! {

/// The decimal notation of an integer.
pub open spec fn signed_decimal(n: int) -> Seq<char> {
    if n < 0 {
        "-"@ + text::decimal((-n) as nat)
    } else {
        text::decimal(n as nat)
    }
}

/// The decimal notation of a signal strength.
pub fn signed_text(n: i16) -> (r: String)
    ensures
        r@ == signed_decimal(n as int),
{
    let wide: i64 = n as i64;
    if wide < 0 {
        let digits = text::decimal_text((-wide) as u64);
        text::joined("-", digits.as_str())
    } else {
        text::decimal_text(wide as u64)
    }
}

/// A number as four upper-case hexadecimal digits behind `0x`.
pub open spec fn hex_word(n: u16) -> Seq<char> {
    "0x"@ + codec::byte_hex((n / 256) as u8) + codec::byte_hex((n % 256) as u8)
}

/// A number as four upper-case hexadecimal digits behind `0x`.
pub fn hex_word_text(n: u16) -> (r: String)
    ensures
        r@ == hex_word(n),
{
    let high: [u8; 1] = [(n / 256) as u8];
    let low: [u8; 1] = [(n % 256) as u8];
    let high_text = codec::format_hex(&high);
    let low_text = codec::format_hex(&low);
    let head = text::joined("0x", high_text.as_str());
    text::joined(head.as_str(), low_text.as_str())
}

/// The signal of a device in the list.
pub open spec fn signal_label(rssi: Option<i16>) -> Seq<char> {
    match rssi {
        Some(value) => signed_decimal(value as int) + " dBm"@,
        None => "RSSI -"@,
    }
}

/// The entry of a device in the list: a mark where it is connected, its name, its signal and its
/// address.
pub open spec fn device_row(device: DeviceInfoView, connected: bool) -> Seq<char> {
    let mark = if connected {
        "● "@
    } else {
        ""@
    };
    mark + device.name + "\n"@ + signal_label(device.rssi) + "  "@ + device.address
}

/// The entry of a device in the list.
pub fn device_row_text(device: &DeviceInfo, connected: bool) -> (r: String)
    ensures
        r@ == device_row(device.deep_view(), connected),
{
    let mark = if connected {
        "● "
    } else {
        ""
    };
    let mut out = text::joined(mark, device.name.as_str());
    out.append("\n");
    match device.rssi {
        Some(value) => {
            let number = signed_text(value);
            let signal = text::joined(number.as_str(), " dBm");
            out.append(signal.as_str());
        },
        None => {
            out.append("RSSI -");
        },
    }
    out.append("  ");
    out.append(device.address.as_str());
    out
}

/// A number, or a hyphen where there is none.
pub fn signed_or_hyphen(value: Option<i16>) -> (r: String)
    ensures
        r@ == match value {
            Some(n) => signed_decimal(n as int),
            None => "-"@,
        },
{
    match value {
        Some(n) => signed_text(n),
        None => "-".to_owned(),
    }
}

/// The appearance of a device in both notations, or a hyphen.
pub fn appearance_text(value: Option<u16>) -> (r: String)
    ensures
        r@ == match value {
            Some(n) => hex_word(n) + " ("@ + text::decimal(n as nat) + ")"@,
            None => "-"@,
        },
{
    match value {
        Some(n) => {
            let mut out = hex_word_text(n);
            out.append(" (");
            let number = text::decimal_text(n as u64);
            out.append(number.as_str());
            out.append(")");
            out
        },
        None => "-".to_owned(),
    }
}

/// The line for the data of a manufacturer.
pub fn manufacturer_line(entry: &ManufacturerDataEntry) -> (r: String)
    ensures
        r@ == hex_word(entry.company_id) + ": "@ + codec::hex_text(entry.data@),
{
    let mut out = hex_word_text(entry.company_id);
    out.append(": ");
    let hex = codec::format_hex(entry.data.as_slice());
    out.append(hex.as_str());
    out
}

/// The line for the data of a service.
pub fn service_data_line(entry: &ServiceDataEntry) -> (r: String)
    ensures
        r@ == entry.service_uuid@ + ": "@ + codec::hex_text(entry.data@),
{
    let mut out = text::joined(entry.service_uuid.as_str(), ": ");
    let hex = codec::format_hex(entry.data.as_slice());
    out.append(hex.as_str());
    out
}

/// A negative number has a hyphen before its digits, any other one only its digits, and the digits
/// denote its size.
pub proof fn signed_notation_denotes_its_number(n: int)
    ensures
        n >= 0 ==> text::number_of_digits(signed_decimal(n)) == n,
        n < 0 ==> signed_decimal(n)[0] == '-' && text::number_of_digits(signed_decimal(n).skip(1))
            == -n,
{
    reveal_strlit("-");
    if n >= 0 {
        text::decimal_notation_denotes_its_number(n as nat);
    } else {
        text::decimal_notation_denotes_its_number((-n) as nat);
        assert(signed_decimal(n).skip(1) =~= text::decimal((-n) as nat));
    }
}

/// A word is written as `0x` and four hexadecimal digits that denote it.
pub proof fn words_are_written_in_four_digits(n: u16)
    ensures
        hex_word(n).len() == 6,
        hex_word(n)[0] == '0' && hex_word(n)[1] == 'x',
        text::hex_number(hex_word(n).skip(2)) == n,
{
    reveal_strlit("0x");
    let high = codec::byte_hex((n / 256) as u8);
    let low = codec::byte_hex((n % 256) as u8);
    let digits = hex_word(n).skip(2);
    assert(digits =~= high + low);
    reveal_with_fuel(text::hex_number, 5);
    let three = digits.drop_last();
    let two = three.drop_last();
    let one = two.drop_last();
    assert(one.drop_last() =~= Seq::<char>::empty());
    assert(digits.last() == low[1] && three.last() == low[0] && two.last() == high[1]
        && one.last() == high[0]);
    let a = n as int / 256;
    let b = n as int % 256;
    assert(a == 16 * (a / 16) + a % 16);
    assert(b == 16 * (b / 16) + b % 16);
}

/// The entry of a device shows its name, its signal and its address, behind a mark where it is
/// connected.
pub proof fn entries_show_the_device(device: DeviceInfoView)
    ensures
        device_row(device, false) == device.name + "\n"@ + signal_label(device.rssi) + "  "@
            + device.address,
        device_row(device, true) == "● "@ + device_row(device, false),
        device.rssi matches Some(value) ==> signal_label(device.rssi) == signed_decimal(
            value as int,
        ) + " dBm"@,
        device.rssi is None ==> signal_label(device.rssi) == "RSSI -"@,
{
    reveal_strlit("");
    assert(""@ + device.name =~= device.name);
    assert(device_row(device, true) =~= "● "@ + device_row(device, false));
}

} // verus!
