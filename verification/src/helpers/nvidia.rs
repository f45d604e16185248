//! The collector of the NVIDIA card: the report of `nvidia-smi`, rendered
//! as a fragment.

use vstd::prelude::*;
use vstd::string::*;
use crate::text::{
    first_word, get_first_word, is_block, metric_line, push_line, texts, ParseError,
    ParseErrorKind,
};

verus! {

/// The report of `nvidia-smi`, as far as it is exported.
#[derive(Clone, Debug, PartialEq)]
pub struct NvidiaSmiLog {
    pub gpu: Gpu,
}

/// The readings of the card.
#[derive(Clone, Debug, PartialEq)]
pub struct Gpu {
    pub fan_speed: String,
    pub temperature: Temperature,
    pub power_readings: PowerReadings,
    pub clocks: Clocks,
    pub bar1_memory_usage: MemoryUsage,
    pub fb_memory_usage: MemoryUsage,
    pub utilization: Utilization,
}

#[derive(Clone, Debug, PartialEq)]
pub struct Temperature {
    pub gpu_temp: String,
}

#[derive(Clone, Debug, PartialEq)]
pub struct PowerReadings {
    pub power_draw: String,
}

#[derive(Clone, Debug, PartialEq)]
pub struct Clocks {
    pub graphics_clock: String,
    pub sm_clock: String,
    pub mem_clock: String,
    pub video_clock: String,
}

#[derive(Clone, Debug, PartialEq)]
pub struct MemoryUsage {
    pub total: String,
    pub used: String,
    pub free: String,
}

#[derive(Clone, Debug, PartialEq)]
pub struct Utilization {
    pub gpu_util: String,
    pub memory_util: String,
    pub encoder_util: String,
    pub decoder_util: String,
}

/// The metric name at a place of the fragment.
pub open spec fn nvidia_metric(place: int) -> Seq<char> {
    if place == 0 {
        "nvidia_temp"@
    } else if place == 1 {
        "nvidia_power_draw"@
    } else if place == 2 {
        "nvidia_graphics_clock"@
    } else if place == 3 {
        "nvidia_sm_clock"@
    } else if place == 4 {
        "nvidia_mem_clock"@
    } else if place == 5 {
        "nvidia_video_clock"@
    } else if place == 6 {
        "nvidia_fan_speed"@
    } else if place == 7 {
        "nvidia_fb_memory_total"@
    } else if place == 8 {
        "nvidia_fb_memory_free"@
    } else if place == 9 {
        "nvidia_fb_memory_used"@
    } else if place == 10 {
        "nvidia_bar1_memory_total"@
    } else if place == 11 {
        "nvidia_bar1_memory_free"@
    } else if place == 12 {
        "nvidia_bar1_memory_used"@
    } else if place == 13 {
        "nvidia_utilization_gpu"@
    } else if place == 14 {
        "nvidia_utilization_mem"@
    } else if place == 15 {
        "nvidia_utilization_enc"@
    } else {
        "nvidia_utilization_dec"@
    }
}

/// The readings of a report, each a number followed by its unit, in the
/// order in which they are exported.
pub open spec fn nvidia_readings(log: NvidiaSmiLog) -> Seq<Seq<char>> {
    seq![
        log.gpu.temperature.gpu_temp@,
        log.gpu.power_readings.power_draw@,
        log.gpu.clocks.graphics_clock@,
        log.gpu.clocks.sm_clock@,
        log.gpu.clocks.mem_clock@,
        log.gpu.clocks.video_clock@,
        log.gpu.fan_speed@,
        log.gpu.fb_memory_usage.total@,
        log.gpu.fb_memory_usage.free@,
        log.gpu.fb_memory_usage.used@,
        log.gpu.bar1_memory_usage.total@,
        log.gpu.bar1_memory_usage.free@,
        log.gpu.bar1_memory_usage.used@,
        log.gpu.utilization.gpu_util@,
        log.gpu.utilization.memory_util@,
        log.gpu.utilization.encoder_util@,
        log.gpu.utilization.decoder_util@,
    ]
}

/// The line of one reading.
pub open spec fn nvidia_line(place: int, value: Seq<char>) -> Seq<char> {
    metric_line(nvidia_metric(place), value)
}

/// The fragment of the first `n` readings, each exported by its first
/// word, or the first of them that has no word.
pub open spec fn nvidia_fragment(readings: Seq<Seq<char>>, n: nat) -> Result<Seq<char>, ParseError>
    decreases n,
{
    if n == 0 {
        Ok(Seq::empty())
    } else {
        match nvidia_fragment(readings, (n - 1) as nat) {
            Err(e) => Err(e),
            Ok(before) => match first_word(readings[n - 1]) {
                Some(value) => Ok(before + nvidia_line(n - 1, value)),
                None => Err(
                    ParseError { line: (n - 1) as usize, kind: ParseErrorKind::MissingField },
                ),
            },
        }
    }
}

fn nvidia_metric_name(place: usize) -> (name: &'static str)
    requires
        place < 17,
    ensures
        name@ == nvidia_metric(place as int),
{
    if place == 0 {
        "nvidia_temp"
    } else if place == 1 {
        "nvidia_power_draw"
    } else if place == 2 {
        "nvidia_graphics_clock"
    } else if place == 3 {
        "nvidia_sm_clock"
    } else if place == 4 {
        "nvidia_mem_clock"
    } else if place == 5 {
        "nvidia_video_clock"
    } else if place == 6 {
        "nvidia_fan_speed"
    } else if place == 7 {
        "nvidia_fb_memory_total"
    } else if place == 8 {
        "nvidia_fb_memory_free"
    } else if place == 9 {
        "nvidia_fb_memory_used"
    } else if place == 10 {
        "nvidia_bar1_memory_total"
    } else if place == 11 {
        "nvidia_bar1_memory_free"
    } else if place == 12 {
        "nvidia_bar1_memory_used"
    } else if place == 13 {
        "nvidia_utilization_gpu"
    } else if place == 14 {
        "nvidia_utilization_mem"
    } else if place == 15 {
        "nvidia_utilization_enc"
    } else {
        "nvidia_utilization_dec"
    }
}

/// The readings of a report in the order in which they are exported.
fn readings_of(log: &NvidiaSmiLog) -> (fields: Vec<String>)
    ensures
        fields@.len() == 17,
        texts(fields@) == nvidia_readings(*log),
{
    let mut fields: Vec<String> = Vec::new();
    fields.push(log.gpu.temperature.gpu_temp.clone());
    fields.push(log.gpu.power_readings.power_draw.clone());
    fields.push(log.gpu.clocks.graphics_clock.clone());
    fields.push(log.gpu.clocks.sm_clock.clone());
    fields.push(log.gpu.clocks.mem_clock.clone());
    fields.push(log.gpu.clocks.video_clock.clone());
    fields.push(log.gpu.fan_speed.clone());
    fields.push(log.gpu.fb_memory_usage.total.clone());
    fields.push(log.gpu.fb_memory_usage.free.clone());
    fields.push(log.gpu.fb_memory_usage.used.clone());
    fields.push(log.gpu.bar1_memory_usage.total.clone());
    fields.push(log.gpu.bar1_memory_usage.free.clone());
    fields.push(log.gpu.bar1_memory_usage.used.clone());
    fields.push(log.gpu.utilization.gpu_util.clone());
    fields.push(log.gpu.utilization.memory_util.clone());
    fields.push(log.gpu.utilization.encoder_util.clone());
    fields.push(log.gpu.utilization.decoder_util.clone());
    assert(texts(fields@) =~= nvidia_readings(*log));
    fields
}

/// Renders a report as a fragment. A reading without a word fails the
/// report; the error gives its place among the readings.
pub fn get_nvidia_metrics(log: &NvidiaSmiLog) -> (out: Result<String, ParseError>)
    ensures
        match out {
            Ok(text) => nvidia_fragment(nvidia_readings(*log), 17) == Ok::<Seq<char>, ParseError>(
                text@,
            ) && is_block(text@),
            Err(e) => nvidia_fragment(nvidia_readings(*log), 17) == Err::<Seq<char>, ParseError>(e),
        },
{
    let fields = readings_of(log);
    let ghost readings = nvidia_readings(*log);
    let mut out = String::new();
    let mut place: usize = 0;
    while place < 17
        invariant
            place <= 17,
            fields@.len() == 17,
            readings == texts(fields@),
            readings == nvidia_readings(*log),
            nvidia_fragment(readings, place as nat) == Ok::<Seq<char>, ParseError>(out@),
            is_block(out@),
        decreases 17 - place,
    {
        proof {
            assert(readings[place as int] == fields@[place as int]@);
        }
        match get_first_word(fields[place].as_str()) {
            Some(value) => {
                push_line(&mut out, nvidia_metric_name(place), value.as_str());
            },
            None => {
                proof {
                    lemma_nvidia_error_stays(readings, (place + 1) as nat, 17);
                }
                return Err(ParseError { line: place, kind: ParseErrorKind::MissingField });
            },
        }
        place += 1;
    }
    Ok(out)
}

/// Once a reading has no word, the readings after it change nothing.
pub proof fn lemma_nvidia_error_stays(readings: Seq<Seq<char>>, n: nat, m: nat)
    requires
        n <= m,
        nvidia_fragment(readings, n) is Err,
    ensures
        nvidia_fragment(readings, m) == nvidia_fragment(readings, n),
    decreases m,
{
    if m > n {
        lemma_nvidia_error_stays(readings, n, (m - 1) as nat);
    }
}

} // verus!
