//! The collector of the liquid cooler: one status report of the device,
//! rendered as a fragment.

use vstd::prelude::*;
use vstd::string::*;
use crate::text::{decimal, is_block, is_decimal, is_decimal_text, push_decimal};

verus! {

/// USB vendor id of the cooler.
pub const KRAKEN_X52_VID: u16 = 0x1e71;

/// USB product id of the cooler.
pub const KRAKEN_X52_PID: u16 = 0x170e;

/// A speed in revolutions per minute, as the report holds it in two bytes,
/// the high one first.
pub open spec fn speed(high: u8, low: u8) -> nat {
    (high * 256 + low) as nat
}

/// The fragment of a status report. Bytes 3 and 4 hold the fan's speed,
/// bytes 5 and 6 the pump's; `liquid_temp` is the temperature that bytes 1
/// and 2 hold, whole degrees and tenths, as a decimal text.
pub open spec fn aio_fragment(report: Seq<u8>, liquid_temp: Seq<char>) -> Seq<char> {
    "aio_liquid_temp "@ + liquid_temp + "\naio_fan_speed "@ + decimal(speed(report[3], report[4]))
        + "\naio_pump_speed "@ + decimal(speed(report[5], report[6])) + "\n"@
}

/// Renders a status report as a fragment of three lines, each a name and a
/// decimal value. A temperature that is no decimal value gives no fragment.
pub fn get_aio_metrics(report: &[u8; 64], liquid_temp: &str) -> (out: Option<String>)
    ensures
        match out {
            Some(text) => is_decimal_text(liquid_temp@) && text@ == aio_fragment(
                report@,
                liquid_temp@,
            ) && is_block(text@),
            None => !is_decimal_text(liquid_temp@),
        },
{
    if !is_decimal(liquid_temp) {
        return None;
    }
    let fan_speed: u64 = report[3] as u64 * 256 + report[4] as u64;
    let pump_speed: u64 = report[5] as u64 * 256 + report[6] as u64;
    let mut out = String::from_str("aio_liquid_temp ");
    out.append(liquid_temp);
    out.append("\naio_fan_speed ");
    push_decimal(&mut out, fan_speed);
    out.append("\naio_pump_speed ");
    push_decimal(&mut out, pump_speed);
    out.append("\n");
    proof {
        reveal_strlit("\n");
        assert(out@.last() == '\n');
        assert(out@ =~= aio_fragment(report@, liquid_temp@));
    }
    Some(out)
}

} // verus!
