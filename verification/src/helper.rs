//! Collectors that read the output of command-line tools: `liquidctl` for
//! the liquid cooler, `sensors -j` for the board's sensors, and the
//! `hddtemp` service with two disks.

use vstd::prelude::*;
use vstd::string::*;
use crate::pattern::{
    capture_one, captures, group_value, groups_view, regex_captures, regex_compiles,
    single_capture, value_from_groups, MatchError,
};
use crate::text::{is_block, is_decimal_text, metric_line, push_line, texts};

verus! {

/// The pattern of the line that holds the liquid's temperature.
pub open spec fn liquid_temp_pattern() -> Seq<char> {
    "Liquid temperature\\s+([0-9.]+)\\s+\u{b0}C$"@
}

/// The pattern of the line that holds the fan's speed.
pub open spec fn fan_speed_pattern() -> Seq<char> {
    "Fan speed\\s+([0-9]+)\\s+rpm$"@
}

/// The pattern of the line that holds the pump's speed.
pub open spec fn pump_speed_pattern() -> Seq<char> {
    "Pump speed\\s+([0-9]+)\\s+rpm$"@
}

/// The readings of the cooler, as decimal texts; a reading that no line
/// held yet is `None`.
#[derive(Clone, Debug, PartialEq, Eq)]
pub struct AioReadings {
    pub temp: Option<String>,
    pub fan_speed: Option<String>,
    pub pump_speed: Option<String>,
}

/// Mathematical value of [`AioReadings`].
pub struct AioView {
    pub temp: Option<Seq<char>>,
    pub fan_speed: Option<Seq<char>>,
    pub pump_speed: Option<Seq<char>>,
}

/// The text of a reading, where there is one.
pub open spec fn reading_view(reading: Option<String>) -> Option<Seq<char>> {
    match reading {
        Some(text) => Some(text@),
        None => None,
    }
}

impl View for AioReadings {
    type V = AioView;

    open spec fn view(&self) -> AioView {
        AioView {
            temp: reading_view(self.temp),
            fan_speed: reading_view(self.fan_speed),
            pump_speed: reading_view(self.pump_speed),
        }
    }
}

impl AioView {
    /// No reading yet.
    pub open spec fn none() -> AioView {
        AioView { temp: None, fan_speed: None, pump_speed: None }
    }

    /// Whether every reading that is there is a decimal value.
    pub open spec fn decimal(self) -> bool {
        &&& self.temp matches Some(text) ==> is_decimal_text(text)
        &&& self.fan_speed matches Some(text) ==> is_decimal_text(text)
        &&& self.pump_speed matches Some(text) ==> is_decimal_text(text)
    }

    /// Whether all three readings are there.
    pub open spec fn complete(self) -> bool {
        self.temp is Some && self.fan_speed is Some && self.pump_speed is Some
    }
}

/// The readings after one more line of status: the line replaces the
/// reading whose pattern it matches, the temperature's being tried first,
/// then the fan's, then the pump's. A line that matches none changes
/// nothing.
pub open spec fn aio_after_line(v: AioView, line: Seq<char>) -> Result<AioView, MatchError> {
    match single_capture(liquid_temp_pattern(), line) {
        Err(e) => Err(e),
        Ok(Some(temp)) => Ok(AioView { temp: Some(temp), ..v }),
        Ok(None) => match single_capture(fan_speed_pattern(), line) {
            Err(e) => Err(e),
            Ok(Some(fan_speed)) => Ok(AioView { fan_speed: Some(fan_speed), ..v }),
            Ok(None) => match single_capture(pump_speed_pattern(), line) {
                Err(e) => Err(e),
                Ok(Some(pump_speed)) => Ok(AioView { pump_speed: Some(pump_speed), ..v }),
                Ok(None) => Ok(v),
            },
        },
    }
}

/// The readings after the first `n` lines of status.
pub open spec fn aio_readings(lines: Seq<Seq<char>>, n: nat) -> Result<AioView, MatchError>
    decreases n,
{
    if n == 0 {
        Ok(AioView::none())
    } else {
        match aio_readings(lines, (n - 1) as nat) {
            Err(e) => Err(e),
            Ok(v) => aio_after_line(v, lines[n - 1]),
        }
    }
}

/// The fragment of the cooler's three readings.
pub open spec fn aio_fragment(v: AioView) -> Seq<char> {
    metric_line("aio_liquid_temp"@, v.temp->0) + metric_line("aio_fan_speed"@, v.fan_speed->0)
        + metric_line("aio_pump_speed"@, v.pump_speed->0)
}

/// What the lines of status give: the fragment where each of the three
/// readings stands in some line, an error where a line fails or a reading
/// is missing.
pub open spec fn aio_outcome(lines: Seq<Seq<char>>) -> Result<Seq<char>, MatchError> {
    match aio_readings(lines, lines.len()) {
        Err(e) => Err(e),
        Ok(v) => if v.complete() {
            Ok(aio_fragment(v))
        } else {
            Err(MatchError::NoMatch)
        },
    }
}

/// Takes one more line of status into the readings.
pub fn read_aio_line(readings: &mut AioReadings, line: &str) -> (r: Result<(), MatchError>)
    ensures
        match r {
            Ok(_) => aio_after_line(old(readings)@, line@) == Ok::<AioView, MatchError>(
                final(readings)@,
            ),
            Err(e) => aio_after_line(old(readings)@, line@) == Err::<AioView, MatchError>(e)
                && final(readings)@ == old(readings)@,
        },
        old(readings)@.decimal() ==> final(readings)@.decimal(),
{
    match capture_one("Liquid temperature\\s+([0-9.]+)\\s+\u{b0}C$", line) {
        Err(e) => {
            return Err(e);
        },
        Ok(Some(temp)) => {
            readings.temp = Some(temp);
            return Ok(());
        },
        Ok(None) => {},
    }
    match capture_one("Fan speed\\s+([0-9]+)\\s+rpm$", line) {
        Err(e) => {
            return Err(e);
        },
        Ok(Some(fan_speed)) => {
            readings.fan_speed = Some(fan_speed);
            return Ok(());
        },
        Ok(None) => {},
    }
    match capture_one("Pump speed\\s+([0-9]+)\\s+rpm$", line) {
        Err(e) => Err(e),
        Ok(Some(pump_speed)) => {
            readings.pump_speed = Some(pump_speed);
            Ok(())
        },
        Ok(None) => Ok(()),
    }
}

/// Renders the cooler's readings as a fragment; `None` where one of the
/// three is missing.
pub fn render_aio(readings: &AioReadings) -> (out: Option<String>)
    ensures
        match out {
            Some(text) => readings@.complete() && text@ == aio_fragment(readings@) && is_block(
                text@,
            ),
            None => !readings@.complete(),
        },
{
    match (&readings.temp, &readings.fan_speed, &readings.pump_speed) {
        (Some(temp), Some(fan_speed), Some(pump_speed)) => {
            let mut out = String::new();
            push_line(&mut out, "aio_liquid_temp", temp.as_str());
            push_line(&mut out, "aio_fan_speed", fan_speed.as_str());
            push_line(&mut out, "aio_pump_speed", pump_speed.as_str());
            assert(out@ =~= aio_fragment(readings@));
            Some(out)
        },
        _ => None,
    }
}

/// Renders the lines of `liquidctl status` as a fragment of three lines,
/// each a name and a decimal value: of each reading the last line that
/// holds it counts. Status in which a reading stands in no line gives no
/// fragment.
pub fn get_aio_metrics(lines: &Vec<String>) -> (out: Result<String, MatchError>)
    ensures
        match out {
            Ok(text) => aio_outcome(texts(lines@)) == Ok::<Seq<char>, MatchError>(text@)
                && is_block(text@),
            Err(e) => aio_outcome(texts(lines@)) == Err::<Seq<char>, MatchError>(e),
        },
        out is Ok ==> {
            let v = aio_readings(texts(lines@), lines@.len())->Ok_0;
            v.complete() && v.decimal()
        },
        lines@.len() == 0 ==> out == Err::<String, MatchError>(MatchError::NoMatch),
{
    let mut readings = AioReadings { temp: None, fan_speed: None, pump_speed: None };
    let mut i: usize = 0;
    while i < lines.len()
        invariant
            i <= lines.len(),
            aio_readings(texts(lines@), i as nat) == Ok::<AioView, MatchError>(readings@),
            readings@.decimal(),
        decreases lines.len() - i,
    {
        proof {
            assert(texts(lines@)[i as int] == lines@[i as int]@);
        }
        match read_aio_line(&mut readings, lines[i].as_str()) {
            Ok(_) => {},
            Err(e) => {
                proof {
                    lemma_aio_error_stays(texts(lines@), (i + 1) as nat, lines@.len());
                }
                return Err(e);
            },
        }
        i += 1;
    }
    match render_aio(&readings) {
        Some(text) => Ok(text),
        None => Err(MatchError::NoMatch),
    }
}

/// Once a line fails, the lines after it change nothing.
pub proof fn lemma_aio_error_stays(lines: Seq<Seq<char>>, n: nat, m: nat)
    requires
        n <= m,
        aio_readings(lines, n) is Err,
    ensures
        aio_readings(lines, m) == aio_readings(lines, n),
    decreases m,
{
    if m > n {
        lemma_aio_error_stays(lines, n, (m - 1) as nat);
    }
}

/// The pattern of a reply of the `hddtemp` service with two disks; its two
/// groups are their temperatures.
pub open spec fn hddtemp_pattern() -> Seq<char> {
    r"\|CT1000MX500SSD4\|([0-9.]+)\|C\|.+\|Samsung SSD 860 EVO M.2\|([0-9.]+)\|C\|.*$"@
}

/// The fragment of the two temperatures that the groups of a reply hold.
/// Each of groups 1 and 2 must be there and be a decimal value; the first
/// that is not decides the error.
pub open spec fn hddtemp_lines(groups: Seq<Option<Seq<char>>>) -> Result<Seq<char>, MatchError> {
    match group_value(groups, 1) {
        Err(e) => Err(e),
        Ok(first) => match group_value(groups, 2) {
            Err(e) => Err(e),
            Ok(second) => Ok(
                metric_line("hddtemp_crucial_mx500_temp"@, first) + metric_line(
                    "hddtemp_samsung_860_evo_temp"@,
                    second,
                ),
            ),
        },
    }
}

/// Renders the groups of a reply.
pub fn hddtemp_from_groups(groups: &Vec<Option<String>>) -> (out: Result<String, MatchError>)
    ensures
        match out {
            Ok(text) => hddtemp_lines(groups_view(groups@)) == Ok::<Seq<char>, MatchError>(text@)
                && is_block(text@),
            Err(e) => hddtemp_lines(groups_view(groups@)) == Err::<Seq<char>, MatchError>(e),
        },
{
    let first = match value_from_groups(groups, 1) {
        Ok(text) => text,
        Err(e) => return Err(e),
    };
    let second = match value_from_groups(groups, 2) {
        Ok(text) => text,
        Err(e) => return Err(e),
    };
    let mut out = String::new();
    push_line(&mut out, "hddtemp_crucial_mx500_temp", first.as_str());
    push_line(&mut out, "hddtemp_samsung_860_evo_temp", second.as_str());
    assert(out@ =~= hddtemp_lines(groups_view(groups@))->Ok_0);
    Ok(out)
}

/// What a reply of the service gives: its fragment where it matches the
/// pattern with two decimal values, else the reason why it gives none.
pub open spec fn hddtemp_outcome(reply: Seq<char>) -> Result<Seq<char>, MatchError> {
    if !regex_compiles(hddtemp_pattern()) {
        Err(MatchError::BadPattern)
    } else {
        match regex_captures(hddtemp_pattern(), reply) {
            None => Err(MatchError::NoMatch),
            Some(groups) => hddtemp_lines(groups),
        }
    }
}

/// Renders a reply of the service as a fragment.
pub fn get_hddtemp_metrics(reply: &str) -> (out: Result<String, MatchError>)
    ensures
        match out {
            Ok(text) => hddtemp_outcome(reply@) == Ok::<Seq<char>, MatchError>(text@) && is_block(
                text@,
            ),
            Err(e) => hddtemp_outcome(reply@) == Err::<Seq<char>, MatchError>(e),
        },
{
    let found = match captures(
        r"\|CT1000MX500SSD4\|([0-9.]+)\|C\|.+\|Samsung SSD 860 EVO M.2\|([0-9.]+)\|C\|.*$",
        reply,
    ) {
        Ok(found) => found,
        Err(_) => return Err(MatchError::BadPattern),
    };
    match found {
        None => Err(MatchError::NoMatch),
        Some(groups) => hddtemp_from_groups(&groups),
    }
}

/// The metric name at a place of the fragment of the board's sensors.
pub open spec fn sensor_metric(place: int) -> Seq<char> {
    if place == 0 {
        "lm_sensors_tctl"@
    } else if place == 1 {
        "lm_sensors_tdie"@
    } else if place == 2 {
        "lm_sensors_cpu_temp"@
    } else if place == 3 {
        "lm_sensors_mb_temp"@
    } else if place == 4 {
        "lm_sensors_chipset_temp"@
    } else if place == 5 {
        "lm_sensors_cpu_fan"@
    } else if place == 6 {
        "lm_sensors_chassis_fan"@
    } else if place == 7 {
        "lm_sensors_core_voltage"@
    } else if place == 8 {
        "lm_sensors_plus_5_voltage"@
    } else if place == 9 {
        "lm_sensors_plus_12_voltage"@
    } else {
        "lm_sensors_3vsb_voltage"@
    }
}

/// Where the reading of a place stands in the document that `sensors -j`
/// prints: the chip, the feature and the input.
pub open spec fn sensor_path_text(place: int) -> (Seq<char>, Seq<char>, Seq<char>) {
    if place == 0 {
        ("k10temp-pci-00c3"@, "Tctl"@, "temp1_input"@)
    } else if place == 1 {
        ("k10temp-pci-00c3"@, "Tdie"@, "temp2_input"@)
    } else if place == 2 {
        ("asuswmisensors-isa-0000"@, "CPU Temperature"@, "temp1_input"@)
    } else if place == 3 {
        ("asuswmisensors-isa-0000"@, "Motherboard Temperature"@, "temp2_input"@)
    } else if place == 4 {
        ("asuswmisensors-isa-0000"@, "Chipset Temperature"@, "temp3_input"@)
    } else if place == 5 {
        ("asuswmisensors-isa-0000"@, "CPU Fan"@, "fan1_input"@)
    } else if place == 6 {
        ("asuswmisensors-isa-0000"@, "Chassis Fan 2"@, "fan3_input"@)
    } else if place == 7 {
        ("asuswmisensors-isa-0000"@, "CPU Core Voltage"@, "in0_input"@)
    } else if place == 8 {
        ("asuswmisensors-isa-0000"@, "+5V Voltage"@, "in2_input"@)
    } else if place == 9 {
        ("asuswmisensors-isa-0000"@, "+12V Voltage"@, "in1_input"@)
    } else {
        ("asuswmisensors-isa-0000"@, "3VSB Voltage"@, "in3_input"@)
    }
}

/// The lines of the first `n` readings.
pub open spec fn sensor_lines(values: Seq<Seq<char>>, n: nat) -> Seq<char>
    decreases n,
{
    if n == 0 {
        Seq::empty()
    } else {
        sensor_lines(values, (n - 1) as nat) + metric_line(sensor_metric(n - 1), values[n - 1])
    }
}

fn sensor_metric_name(place: usize) -> (name: &'static str)
    requires
        place < 11,
    ensures
        name@ == sensor_metric(place as int),
{
    if place == 0 {
        "lm_sensors_tctl"
    } else if place == 1 {
        "lm_sensors_tdie"
    } else if place == 2 {
        "lm_sensors_cpu_temp"
    } else if place == 3 {
        "lm_sensors_mb_temp"
    } else if place == 4 {
        "lm_sensors_chipset_temp"
    } else if place == 5 {
        "lm_sensors_cpu_fan"
    } else if place == 6 {
        "lm_sensors_chassis_fan"
    } else if place == 7 {
        "lm_sensors_core_voltage"
    } else if place == 8 {
        "lm_sensors_plus_5_voltage"
    } else if place == 9 {
        "lm_sensors_plus_12_voltage"
    } else {
        "lm_sensors_3vsb_voltage"
    }
}

/// Where the reading of a place stands in the document that `sensors -j`
/// prints.
pub fn sensor_path(place: usize) -> (out: Option<(&'static str, &'static str, &'static str)>)
    ensures
        match out {
            Some(path) => place < 11 && (path.0@, path.1@, path.2@) == sensor_path_text(
                place as int,
            ),
            None => place >= 11,
        },
{
    if place >= 11 {
        return None;
    }
    Some(sensor_path_at(place))
}

fn sensor_path_at(place: usize) -> (path: (&'static str, &'static str, &'static str))
    requires
        place < 11,
    ensures
        (path.0@, path.1@, path.2@) == sensor_path_text(place as int),
{
    if place == 0 {
        ("k10temp-pci-00c3", "Tctl", "temp1_input")
    } else if place == 1 {
        ("k10temp-pci-00c3", "Tdie", "temp2_input")
    } else if place == 2 {
        ("asuswmisensors-isa-0000", "CPU Temperature", "temp1_input")
    } else if place == 3 {
        ("asuswmisensors-isa-0000", "Motherboard Temperature", "temp2_input")
    } else if place == 4 {
        ("asuswmisensors-isa-0000", "Chipset Temperature", "temp3_input")
    } else if place == 5 {
        ("asuswmisensors-isa-0000", "CPU Fan", "fan1_input")
    } else if place == 6 {
        ("asuswmisensors-isa-0000", "Chassis Fan 2", "fan3_input")
    } else if place == 7 {
        ("asuswmisensors-isa-0000", "CPU Core Voltage", "in0_input")
    } else if place == 8 {
        ("asuswmisensors-isa-0000", "+5V Voltage", "in2_input")
    } else if place == 9 {
        ("asuswmisensors-isa-0000", "+12V Voltage", "in1_input")
    } else {
        ("asuswmisensors-isa-0000", "3VSB Voltage", "in3_input")
    }
}

/// Renders the eleven readings of the board's sensors, given in the order
/// of their places, as a fragment. `None` for any other number of readings.
pub fn get_lm_sensor_metrics(values: &Vec<String>) -> (out: Option<String>)
    ensures
        match out {
            Some(text) => values@.len() == 11 && text@ == sensor_lines(texts(values@), 11)
                && is_block(text@),
            None => values@.len() != 11,
        },
{
    if values.len() != 11 {
        return None;
    }
    let mut out = String::new();
    let mut place: usize = 0;
    while place < 11
        invariant
            place <= 11,
            values@.len() == 11,
            out@ == sensor_lines(texts(values@), place as nat),
            is_block(out@),
        decreases 11 - place,
    {
        proof {
            assert(texts(values@)[place as int] == values@[place as int]@);
        }
        push_line(&mut out, sensor_metric_name(place), values[place].as_str());
        place += 1;
    }
    Some(out)
}

} // verus!
