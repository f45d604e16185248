//! Session over the in-process sensor library.
//!
//! The library's device tree is walked by the caller; this module decides
//! which of the subfeatures found are kept, under which metric name, when the
//! walk has to be repeated, and how the readings are rendered. A reading is
//! the decimal text of the value that the library gave.
//!
//! The index keeps its entries in the order in which their metrics were
//! first found, and no metric twice.

use vstd::prelude::*;
use vstd::string::*;
use crate::text::{is_block, metric_line, optional_texts, push_line, same_text};

verus! {

/// A read re-runs the tree walk when it is the tenth since the last walk.
pub const FEATURE_INIT_COUNT: u32 = 10;

/// Flag bit of a subfeature whose value can be read.
pub const SENSORS_MODE_R: u32 = 1;

/// What a value query needs: the chip, by the reference the program gave it
/// during the walk, and the number of the subfeature on that chip.
#[derive(Clone, Copy, Debug, PartialEq, Eq, Structural)]
pub struct SensorValueWrapper {
    pub chip: u64,
    pub subfeature_number: i32,
}

/// One subfeature as the tree walk found it.
pub struct DetectedSubfeature {
    pub chip: u64,
    pub prefix: String,
    pub name: String,
    pub number: i32,
    pub flags: u32,
}

/// Mathematical value of a [`DetectedSubfeature`].
pub struct DetectedView {
    pub chip: u64,
    pub prefix: Seq<char>,
    pub name: Seq<char>,
    pub number: i32,
    pub flags: u32,
}

impl View for DetectedSubfeature {
    type V = DetectedView;

    open spec fn view(&self) -> DetectedView {
        DetectedView {
            chip: self.chip,
            prefix: self.prefix@,
            name: self.name@,
            number: self.number,
            flags: self.flags,
        }
    }
}

/// One line of the sensor index: a metric name and where its value is read.
pub struct IndexEntry {
    pub metric: String,
    pub handle: SensorValueWrapper,
}

/// Mathematical value of an [`IndexEntry`].
pub struct EntryView {
    pub metric: Seq<char>,
    pub handle: SensorValueWrapper,
}

impl View for IndexEntry {
    type V = EntryView;

    open spec fn view(&self) -> EntryView {
        EntryView { metric: self.metric@, handle: self.handle }
    }
}

/// The walk's findings as mathematical values.
pub open spec fn detected_views(detected: Seq<DetectedSubfeature>) -> Seq<DetectedView> {
    detected.map_values(|d: DetectedSubfeature| d@)
}

/// The index entries as mathematical values.
pub open spec fn entry_views(entries: Seq<IndexEntry>) -> Seq<EntryView> {
    entries.map_values(|e: IndexEntry| e@)
}

/// The key of a subfeature: the chip's prefix, a slash, the subfeature's name.
pub open spec fn subfeature_key(prefix: Seq<char>, name: Seq<char>) -> Seq<char> {
    prefix + "/"@ + name
}

/// The metric name under which a key is exported, for the keys of interest.
pub open spec fn metric_for(key: Seq<char>) -> Option<Seq<char>> {
    if key == "k10temp/temp1_input"@ {
        Some("lm_sensors_tctl"@)
    } else if key == "k10temp/temp2_input"@ {
        Some("lm_sensors_tdie"@)
    } else if key == "asus_wmi_sensors/temp1_input"@ {
        Some("lm_sensors_cpu_temp"@)
    } else if key == "asus_wmi_sensors/temp2_input"@ {
        Some("lm_sensors_mb_temp"@)
    } else if key == "asus_wmi_sensors/temp3_input"@ {
        Some("lm_sensors_chipset_temp"@)
    } else if key == "asus_wmi_sensors/fan1_input"@ {
        Some("lm_sensors_cpu_fan"@)
    } else if key == "asus_wmi_sensors/fan3_input"@ {
        Some("lm_sensors_chassis_fan"@)
    } else if key == "asus_wmi_sensors/fan4_input"@ {
        Some("lm_sensors_chassis_fan_3"@)
    } else if key == "asus_wmi_sensors/in0_input"@ {
        Some("lm_sensors_core_voltage"@)
    } else if key == "asus_wmi_sensors/in2_input"@ {
        Some("lm_sensors_plus_5_voltage"@)
    } else if key == "asus_wmi_sensors/in1_input"@ {
        Some("lm_sensors_plus_12_voltage"@)
    } else if key == "asus_wmi_sensors/in3_input"@ {
        Some("lm_sensors_plus_3vsb_voltage"@)
    } else if key == "kraken2/temp1_input"@ {
        Some("aio_liquid_temp"@)
    } else if key == "kraken2/fan1_input"@ {
        Some("aio_fan_speed"@)
    } else if key == "kraken2/fan2_input"@ {
        Some("aio_pump_speed"@)
    } else if key == "amdgpu/in0_input"@ {
        Some("amdgpu_vddgfx_voltage"@)
    } else if key == "amdgpu/fan1_input"@ {
        Some("amdgpu_fan1_speed"@)
    } else if key == "amdgpu/temp2_input"@ {
        Some("amdgpu_junction_temp"@)
    } else if key == "amdgpu/temp3_input"@ {
        Some("amdgpu_mem_temp"@)
    } else if key == "amdgpu/power1_average"@ {
        Some("amdgpu_slowppt_wattage"@)
    } else if key == "iwlwifi_1/temp1_input"@ {
        Some("wireless_temp"@)
    } else if key == "hidpp_battery_0/in0_input"@ {
        Some("mouse_battery_voltage"@)
    } else {
        None
    }
}

/// The metric name of a subfeature the index keeps: it is readable and its
/// key is one of interest. `None` for every other subfeature.
pub open spec fn wanted_metric(d: DetectedView) -> Option<Seq<char>> {
    if d.flags & SENSORS_MODE_R != 0 {
        metric_for(subfeature_key(d.prefix, d.name))
    } else {
        None
    }
}

/// The handle that a subfeature gets in the index.
pub open spec fn handle_of(d: DetectedView) -> SensorValueWrapper {
    SensorValueWrapper { chip: d.chip, subfeature_number: d.number }
}

/// Whether some entry of the index carries the metric name.
pub open spec fn has_metric(index: Seq<EntryView>, metric: Seq<char>) -> bool {
    exists|i: int| 0 <= i < index.len() && (#[trigger] index[i]).metric == metric
}

/// An entry as it stands after `entry` was entered: replaced where it carries
/// the same metric name, unchanged elsewhere.
pub open spec fn retargeted(e: EntryView, entry: EntryView) -> EntryView {
    if e.metric == entry.metric {
        entry
    } else {
        e
    }
}

/// The index after a metric was found at a handle: a metric already present
/// keeps its place and takes the new handle, a new metric goes to the end.
pub open spec fn with_entry(index: Seq<EntryView>, entry: EntryView) -> Seq<EntryView> {
    if has_metric(index, entry.metric) {
        index.map_values(|e: EntryView| retargeted(e, entry))
    } else {
        index.push(entry)
    }
}

/// The index that a tree walk gives: its findings taken in order, each kept
/// subfeature entered under its metric name.
pub open spec fn build_index(detected: Seq<DetectedView>) -> Seq<EntryView>
    decreases detected.len(),
{
    if detected.len() == 0 {
        Seq::empty()
    } else {
        let before = build_index(detected.drop_last());
        let d = detected.last();
        match wanted_metric(d) {
            Some(metric) => with_entry(before, EntryView { metric, handle: handle_of(d) }),
            None => before,
        }
    }
}

/// No metric name stands twice in the index.
pub open spec fn distinct_metrics(index: Seq<EntryView>) -> bool {
    forall|i: int, j: int|
        0 <= i < j < index.len() ==> (#[trigger] index[i]).metric != (#[trigger] index[j]).metric
}

/// Entering a metric keeps the names of an index distinct.
pub proof fn lemma_with_entry_distinct(index: Seq<EntryView>, entry: EntryView)
    requires
        distinct_metrics(index),
    ensures
        distinct_metrics(with_entry(index, entry)),
{
    let after = with_entry(index, entry);
    if has_metric(index, entry.metric) {
        assert forall|i: int, j: int| 0 <= i < j < after.len() implies (#[trigger] after[i]).metric
            != (#[trigger] after[j]).metric by {
            assert(after[i].metric == index[i].metric);
            assert(after[j].metric == index[j].metric);
        }
    } else {
        assert forall|i: int, j: int| 0 <= i < j < after.len() implies (#[trigger] after[i]).metric
            != (#[trigger] after[j]).metric by {
            if j < index.len() {
                assert(after[i] == index[i]);
                assert(after[j] == index[j]);
            } else {
                assert(after[i] == index[i]);
                assert(after[j] == entry);
            }
        }
    }
}

/// Every index that a tree walk gives has distinct metric names.
pub proof fn lemma_build_index_distinct(detected: Seq<DetectedView>)
    ensures
        distinct_metrics(build_index(detected)),
    decreases detected.len(),
{
    if detected.len() > 0 {
        lemma_build_index_distinct(detected.drop_last());
        let d = detected.last();
        match wanted_metric(d) {
            Some(metric) => {
                lemma_with_entry_distinct(
                    build_index(detected.drop_last()),
                    EntryView {
                        metric,
                        handle: SensorValueWrapper { chip: d.chip, subfeature_number: d.number },
                    },
                );
            },
            None => {},
        }
    }
}

/// The place, among the findings of a walk, of the last subfeature that is
/// kept under the metric name; `None` where none is.
pub open spec fn last_found(detected: Seq<DetectedView>, metric: Seq<char>) -> Option<int>
    decreases detected.len(),
{
    if detected.len() == 0 {
        None
    } else if wanted_metric(detected.last()) == Some(metric) {
        Some(detected.len() - 1)
    } else {
        last_found(detected.drop_last(), metric)
    }
}

/// The place that [`last_found`] gives is one of a subfeature kept under the
/// metric name, and no later subfeature is kept under it.
pub proof fn lemma_last_found(detected: Seq<DetectedView>, metric: Seq<char>)
    ensures
        match last_found(detected, metric) {
            Some(at) => {
                &&& 0 <= at < detected.len()
                &&& wanted_metric(detected[at]) == Some(metric)
                &&& forall|k: int|
                    at < k < detected.len() ==> wanted_metric(#[trigger] detected[k]) != Some(
                        metric,
                    )
            },
            None => forall|k: int|
                0 <= k < detected.len() ==> wanted_metric(#[trigger] detected[k]) != Some(metric),
        },
    decreases detected.len(),
{
    if detected.len() > 0 && wanted_metric(detected.last()) != Some(metric) {
        let head = detected.drop_last();
        lemma_last_found(head, metric);
        match last_found(head, metric) {
            Some(at) => {
                assert(head[at] == detected[at]);
                assert forall|k: int| at < k < detected.len() implies wanted_metric(
                    #[trigger] detected[k],
                ) != Some(metric) by {
                    if k < head.len() {
                        assert(head[k] == detected[k]);
                    }
                }
            },
            None => {
                assert forall|k: int| 0 <= k < detected.len() implies wanted_metric(
                    #[trigger] detected[k],
                ) != Some(metric) by {
                    if k < head.len() {
                        assert(head[k] == detected[k]);
                    }
                }
            },
        }
    }
}

/// What the index holds: a metric name stands in it exactly where the walk
/// found a subfeature that is kept under it, and its entry carries the
/// handle of the last such subfeature.
pub proof fn lemma_index_holds_last_found(detected: Seq<DetectedView>, metric: Seq<char>)
    ensures
        has_metric(build_index(detected), metric) <==> last_found(detected, metric) is Some,
        forall|i: int|
            0 <= i < build_index(detected).len() && (#[trigger] build_index(detected)[i]).metric
                == metric ==> last_found(detected, metric) is Some && build_index(
                detected,
            )[i].handle == handle_of(detected[last_found(detected, metric)->0]),
    decreases detected.len(),
{
    let index = build_index(detected);
    if detected.len() > 0 {
        let before = build_index(detected.drop_last());
        let d = detected.last();
        lemma_index_holds_last_found(detected.drop_last(), metric);
        lemma_last_found(detected.drop_last(), metric);
        match wanted_metric(d) {
            Some(m) => {
                let entry = EntryView { metric: m, handle: handle_of(d) };
                assert(index == with_entry(before, entry));
                if has_metric(before, m) {
                    assert forall|i: int| 0 <= i < index.len() implies (#[trigger] index[i]).metric
                        == before[i].metric by {}
                    if has_metric(before, metric) {
                        let w = choose|i: int|
                            0 <= i < before.len() && (#[trigger] before[i]).metric == metric;
                        assert(index[w].metric == metric);
                    }
                    if has_metric(index, metric) {
                        let w = choose|i: int|
                            0 <= i < index.len() && (#[trigger] index[i]).metric == metric;
                        assert(before[w].metric == metric);
                    }
                    assert forall|i: int|
                        0 <= i < index.len() && (#[trigger] index[i]).metric
                            == metric implies last_found(detected, metric) is Some
                        && index[i].handle == handle_of(
                        detected[last_found(detected, metric)->0],
                    ) by {
                        assert(before[i].metric == metric);
                        if m != metric {
                            assert(index[i] == before[i]);
                            assert(detected.drop_last()[last_found(detected.drop_last(), metric)->0]
                                == detected[last_found(detected.drop_last(), metric)->0]);
                        }
                    }
                } else {
                    assert(index == before.push(entry));
                    if has_metric(before, metric) {
                        let w = choose|i: int|
                            0 <= i < before.len() && (#[trigger] before[i]).metric == metric;
                        assert(index[w].metric == metric);
                    }
                    if m == metric {
                        assert(index[before.len() as int].metric == metric);
                    }
                    if has_metric(index, metric) {
                        let w = choose|i: int|
                            0 <= i < index.len() && (#[trigger] index[i]).metric == metric;
                        if w < before.len() {
                            assert(before[w].metric == metric);
                        }
                    }
                    assert forall|i: int|
                        0 <= i < index.len() && (#[trigger] index[i]).metric
                            == metric implies last_found(detected, metric) is Some
                        && index[i].handle == handle_of(
                        detected[last_found(detected, metric)->0],
                    ) by {
                        if i < before.len() {
                            assert(before[i].metric == metric);
                            assert(index[i] == before[i]);
                            assert(m != metric);
                            assert(detected.drop_last()[last_found(detected.drop_last(), metric)->0]
                                == detected[last_found(detected.drop_last(), metric)->0]);
                        }
                    }
                }
            },
            None => {
                assert forall|i: int|
                    0 <= i < index.len() && (#[trigger] index[i]).metric
                        == metric implies last_found(detected, metric) is Some && index[i].handle
                    == handle_of(detected[last_found(detected, metric)->0]) by {
                    assert(detected.drop_last()[last_found(detected.drop_last(), metric)->0]
                        == detected[last_found(detected.drop_last(), metric)->0]);
                }
            },
        }
    }
}

/// Whether a string holds exactly the text of `lit`.
fn text_is(s: &String, lit: &str) -> (r: bool)
    ensures
        r == (s@ == lit@),
{
    same_text(s.as_str(), lit)
}

/// The key of a subfeature, built from the chip's prefix and its name.
fn make_key(prefix: &String, name: &String) -> (key: String)
    ensures
        key@ == subfeature_key(prefix@, name@),
{
    let mut key = prefix.clone();
    key.append("/");
    key.append(name.as_str());
    key
}

/// Looks a key up among the keys of interest.
fn metric_name(key: &String) -> (r: Option<&'static str>)
    ensures
        match r {
            Some(m) => metric_for(key@) == Some(m@),
            None => metric_for(key@) is None,
        },
{
    if text_is(key, "k10temp/temp1_input") {
        Some("lm_sensors_tctl")
    } else if text_is(key, "k10temp/temp2_input") {
        Some("lm_sensors_tdie")
    } else if text_is(key, "asus_wmi_sensors/temp1_input") {
        Some("lm_sensors_cpu_temp")
    } else if text_is(key, "asus_wmi_sensors/temp2_input") {
        Some("lm_sensors_mb_temp")
    } else if text_is(key, "asus_wmi_sensors/temp3_input") {
        Some("lm_sensors_chipset_temp")
    } else if text_is(key, "asus_wmi_sensors/fan1_input") {
        Some("lm_sensors_cpu_fan")
    } else if text_is(key, "asus_wmi_sensors/fan3_input") {
        Some("lm_sensors_chassis_fan")
    } else if text_is(key, "asus_wmi_sensors/fan4_input") {
        Some("lm_sensors_chassis_fan_3")
    } else if text_is(key, "asus_wmi_sensors/in0_input") {
        Some("lm_sensors_core_voltage")
    } else if text_is(key, "asus_wmi_sensors/in2_input") {
        Some("lm_sensors_plus_5_voltage")
    } else if text_is(key, "asus_wmi_sensors/in1_input") {
        Some("lm_sensors_plus_12_voltage")
    } else if text_is(key, "asus_wmi_sensors/in3_input") {
        Some("lm_sensors_plus_3vsb_voltage")
    } else if text_is(key, "kraken2/temp1_input") {
        Some("aio_liquid_temp")
    } else if text_is(key, "kraken2/fan1_input") {
        Some("aio_fan_speed")
    } else if text_is(key, "kraken2/fan2_input") {
        Some("aio_pump_speed")
    } else if text_is(key, "amdgpu/in0_input") {
        Some("amdgpu_vddgfx_voltage")
    } else if text_is(key, "amdgpu/fan1_input") {
        Some("amdgpu_fan1_speed")
    } else if text_is(key, "amdgpu/temp2_input") {
        Some("amdgpu_junction_temp")
    } else if text_is(key, "amdgpu/temp3_input") {
        Some("amdgpu_mem_temp")
    } else if text_is(key, "amdgpu/power1_average") {
        Some("amdgpu_slowppt_wattage")
    } else if text_is(key, "iwlwifi_1/temp1_input") {
        Some("wireless_temp")
    } else if text_is(key, "hidpp_battery_0/in0_input") {
        Some("mouse_battery_voltage")
    } else {
        None
    }
}

/// Enters a metric at a handle into the index.
fn enter(index: &mut Vec<IndexEntry>, metric: &str, handle: SensorValueWrapper)
    ensures
        entry_views(final(index)@) == with_entry(
            entry_views(old(index)@),
            EntryView { metric: metric@, handle },
        ),
{
    let ghost before = entry_views(index@);
    let ghost entry = EntryView { metric: metric@, handle };
    let mut found = false;
    let mut j: usize = 0;
    while j < index.len()
        invariant
            j <= index.len(),
            index.len() == before.len(),
            entry == (EntryView { metric: metric@, handle }),
            found == has_metric(before.take(j as int), metric@),
            forall|k: int| 0 <= k < j ==> (#[trigger] index@[k])@ == retargeted(before[k], entry),
            forall|k: int| j <= k < index.len() ==> (#[trigger] index@[k])@ == before[k],
        decreases index.len() - j,
    {
        let same = text_is(&index[j].metric, metric);
        proof {
            let head = before.take(j as int);
            let next = before.take(j as int + 1);
            if has_metric(next, metric@) {
                let w = choose|i: int| 0 <= i < next.len() && (#[trigger] next[i]).metric == metric@;
                if w < j {
                    assert(head[w] == next[w]);
                }
            }
            if has_metric(head, metric@) {
                let w = choose|i: int| 0 <= i < head.len() && (#[trigger] head[i]).metric == metric@;
                assert(next[w] == head[w]);
            }
            if same {
                assert(next[j as int].metric == metric@);
            }
        }
        let ghost prior = index@;
        if same {
            index.set(j, IndexEntry { metric: String::from_str(metric), handle });
            found = true;
        }
        proof {
            assert(prior[j as int]@ == before[j as int]);
            assert(index@[j as int]@ == retargeted(before[j as int], entry));
            assert forall|k: int| 0 <= k < j + 1 implies (#[trigger] index@[k])@ == retargeted(
                before[k],
                entry,
            ) by {
                if k < j {
                    assert(index@[k] == prior[k]);
                }
            }
        }
        j += 1;
    }
    proof {
        assert(before.take(j as int) =~= before);
    }
    if found {
        proof {
            assert(entry_views(index@) =~= before.map_values(|e: EntryView| retargeted(e, entry)));
        }
    } else {
        index.push(IndexEntry { metric: String::from_str(metric), handle });
        proof {
            assert(entry_views(index@) =~= before.push(entry));
        }
    }
}

/// Builds the index from the findings of a tree walk.
fn index_from(detected: &Vec<DetectedSubfeature>) -> (index: Vec<IndexEntry>)
    ensures
        entry_views(index@) == build_index(detected_views(detected@)),
{
    let ghost all = detected_views(detected@);
    let mut index: Vec<IndexEntry> = Vec::new();
    let mut i: usize = 0;
    proof {
        assert(all.take(0) =~= Seq::<DetectedView>::empty());
        assert(entry_views(index@) =~= Seq::<EntryView>::empty());
    }
    while i < detected.len()
        invariant
            i <= detected.len(),
            all == detected_views(detected@),
            entry_views(index@) == build_index(all.take(i as int)),
        decreases detected.len() - i,
    {
        let d = &detected[i];
        proof {
            assert(all.take(i as int + 1).drop_last() =~= all.take(i as int));
            assert(all.take(i as int + 1).last() == d@);
        }
        if d.flags & SENSORS_MODE_R != 0 {
            let key = make_key(&d.prefix, &d.name);
            match metric_name(&key) {
                Some(metric) => {
                    enter(
                        &mut index,
                        metric,
                        SensorValueWrapper { chip: d.chip, subfeature_number: d.number },
                    );
                },
                None => {},
            }
        }
        i += 1;
    }
    proof {
        assert(all.take(i as int) =~= all);
    }
    index
}

/// What a read has to do before the values are queried.
#[derive(Clone, Copy, Debug, PartialEq, Eq, Structural)]
pub enum ReadPlan {
    /// The index stands: query the values through it.
    Serve,
    /// Walk the device tree and hand the findings to [`LmSensors::init`]
    /// first; with `setup`, set the sensor library up before the walk.
    Enumerate { setup: bool },
}

/// Why a set of readings gives no fragment.
#[derive(Clone, Copy, Debug, PartialEq, Eq, Structural)]
pub enum ReadError {
    /// The readings are not one for each entry of the index.
    WrongCount,
    /// The query for the entry at this place of the index failed.
    QueryFailed(usize),
}

/// Mathematical value of a session.
pub struct SessionView {
    /// The sensor index, in the order in which its lines are rendered.
    pub index: Seq<EntryView>,
    /// How many tree walks were taken in; it stops counting at `u32::MAX`.
    pub init_count: nat,
    /// How many reads were served since the last tree walk.
    pub reads: nat,
}

impl SessionView {
    /// The session's invariant.
    pub open spec fn wf(self) -> bool {
        &&& distinct_metrics(self.index)
        &&& self.reads < FEATURE_INIT_COUNT
        &&& self.init_count <= u32::MAX
        &&& self.init_count == 0 ==> self.index.len() == 0 && self.reads == 0
    }

    /// What the next read has to do: walk the tree where none was taken in
    /// yet or where this read is the tenth since the last walk.
    pub open spec fn next_plan(self) -> ReadPlan {
        if self.init_count == 0 {
            ReadPlan::Enumerate { setup: true }
        } else if self.reads + 1 >= FEATURE_INIT_COUNT {
            ReadPlan::Enumerate { setup: false }
        } else {
            ReadPlan::Serve
        }
    }

    /// The session after a read was begun: a read that is served is counted,
    /// one that asks for a walk changes nothing.
    pub open spec fn after_begin_read(self) -> SessionView {
        if self.next_plan() == ReadPlan::Serve {
            SessionView { reads: self.reads + 1, ..self }
        } else {
            self
        }
    }

    /// The session after a tree walk was taken in.
    pub open spec fn after_init(self, detected: Seq<DetectedView>) -> SessionView {
        SessionView {
            index: build_index(detected),
            init_count: if self.init_count < u32::MAX {
                self.init_count + 1
            } else {
                self.init_count
            },
            reads: 0,
        }
    }

    /// The session after `n` reads were begun in a row.
    pub open spec fn after_reads(self, n: nat) -> SessionView
        decreases n,
    {
        if n == 0 {
            self
        } else {
            self.after_reads((n - 1) as nat).after_begin_read()
        }
    }
}

/// The lines of the first `n` entries of the index, each with its reading.
pub open spec fn render_readings(
    index: Seq<EntryView>,
    values: Seq<Option<Seq<char>>>,
    n: nat,
) -> Seq<char>
    decreases n,
{
    if n == 0 {
        Seq::empty()
    } else {
        render_readings(index, values, (n - 1) as nat) + metric_line(
            index[n - 1].metric,
            match values[n - 1] {
                Some(text) => text,
                None => Seq::empty(),
            },
        )
    }
}

/// The place of the first reading that is missing, if any is.
pub open spec fn first_missing(values: Seq<Option<Seq<char>>>, at: int) -> bool {
    &&& 0 <= at < values.len()
    &&& values[at] is None
    &&& forall|k: int| 0 <= k < at ==> (#[trigger] values[k]) is Some
}

/// A session over the sensor library: the index of the sensors of interest
/// and the count of walks and reads that decides when it is rebuilt.
pub struct LmSensors {
    subfeatures: Vec<IndexEntry>,
    init_count: u32,
    reads: u32,
}

impl View for LmSensors {
    type V = SessionView;

    closed spec fn view(&self) -> SessionView {
        SessionView {
            index: entry_views(self.subfeatures@),
            init_count: self.init_count as nat,
            reads: self.reads as nat,
        }
    }
}

/// A session that has not seen the sensor library yet: its index is empty.
pub fn get_lm_sensors() -> (session: LmSensors)
    ensures
        session@.wf(),
        session@.index.len() == 0,
        session@.init_count == 0,
        session@.reads == 0,
{
    LmSensors { subfeatures: Vec::new(), init_count: 0, reads: 0 }
}

impl LmSensors {
    /// Takes in the findings of a tree walk: the index is rebuilt from them
    /// alone, the walk is counted and the count of reads starts again.
    pub fn init(&mut self, detected: &Vec<DetectedSubfeature>)
        ensures
            final(self)@ == old(self)@.after_init(detected_views(detected@)),
            final(self)@.wf(),
            final(self)@.init_count > 0,
    {
        let index = index_from(detected);
        proof {
            lemma_build_index_distinct(detected_views(detected@));
        }
        self.subfeatures = index;
        if self.init_count < u32::MAX {
            self.init_count = self.init_count + 1;
        }
        self.reads = 0;
    }

    /// Whether the sensor library has to be set up before the next walk:
    /// only before the first one.
    pub fn needs_setup(&self) -> (r: bool)
        ensures
            r == (self@.init_count == 0),
    {
        self.init_count == 0
    }

    /// Whether the sensor library has to be cleaned up when the session
    /// ends: where the index holds an entry.
    pub fn needs_cleanup(&self) -> (r: bool)
        ensures
            r == (self@.index.len() > 0),
    {
        self.subfeatures.len() > 0
    }

    /// Begins a read and says what it has to do first.
    pub fn begin_read(&mut self) -> (plan: ReadPlan)
        requires
            old(self)@.wf(),
        ensures
            plan == old(self)@.next_plan(),
            final(self)@ == old(self)@.after_begin_read(),
            final(self)@.wf(),
    {
        if self.init_count == 0 {
            ReadPlan::Enumerate { setup: true }
        } else if self.reads + 1 >= FEATURE_INIT_COUNT {
            ReadPlan::Enumerate { setup: false }
        } else {
            self.reads = self.reads + 1;
            ReadPlan::Serve
        }
    }

    /// The handles to query, in the order of the index.
    pub fn handles(&self) -> (out: Vec<SensorValueWrapper>)
        ensures
            out@.len() == self@.index.len(),
            forall|i: int| 0 <= i < out@.len() ==> out@[i] == (#[trigger] self@.index[i]).handle,
    {
        let mut out: Vec<SensorValueWrapper> = Vec::new();
        let mut i: usize = 0;
        while i < self.subfeatures.len()
            invariant
                i <= self.subfeatures.len(),
                out@.len() == i,
                forall|k: int| 0 <= k < i ==> out@[k] == (#[trigger] self.subfeatures@[k]).handle,
            decreases self.subfeatures.len() - i,
        {
            out.push(self.subfeatures[i].handle);
            i += 1;
        }
        out
    }

    /// The metric names, in the order of the index.
    pub fn metrics(&self) -> (out: Vec<String>)
        ensures
            out@.len() == self@.index.len(),
            forall|i: int| 0 <= i < out@.len() ==> (#[trigger] out@[i])@ == self@.index[i].metric,
    {
        let mut out: Vec<String> = Vec::new();
        let mut i: usize = 0;
        while i < self.subfeatures.len()
            invariant
                i <= self.subfeatures.len(),
                out@.len() == i,
                forall|k: int| 0 <= k < i ==> (#[trigger] out@[k])@ == self.subfeatures@[k].metric@,
            decreases self.subfeatures.len() - i,
        {
            out.push(self.subfeatures[i].metric.clone());
            i += 1;
        }
        out
    }

    /// Renders the readings, one for each entry of the index and in its
    /// order, as a fragment. A reading that is `None` stands for a query that
    /// failed: the first of them fails the whole read.
    pub fn get_lm_sensor_metrics(&self, values: &Vec<Option<String>>) -> (out: Result<
        String,
        ReadError,
    >)
        ensures
            match out {
                Ok(text) => {
                    &&& values@.len() == self@.index.len()
                    &&& forall|k: int| 0 <= k < values@.len() ==> (#[trigger] values@[k]) is Some
                    &&& text@ == render_readings(
                        self@.index,
                        optional_texts(values@),
                        self@.index.len(),
                    )
                    &&& is_block(text@)
                },
                Err(ReadError::WrongCount) => values@.len() != self@.index.len(),
                Err(ReadError::QueryFailed(at)) => {
                    &&& values@.len() == self@.index.len()
                    &&& first_missing(optional_texts(values@), at as int)
                },
            },
    {
        if values.len() != self.subfeatures.len() {
            return Err(ReadError::WrongCount);
        }
        let ghost index = self@.index;
        let ghost readings = optional_texts(values@);
        let mut out = String::new();
        let mut i: usize = 0;
        while i < self.subfeatures.len()
            invariant
                i <= self.subfeatures.len(),
                values@.len() == self.subfeatures@.len(),
                index == entry_views(self.subfeatures@),
                readings == optional_texts(values@),
                forall|k: int| 0 <= k < i ==> (#[trigger] values@[k]) is Some,
                out@ == render_readings(index, readings, i as nat),
                is_block(out@),
            decreases self.subfeatures.len() - i,
        {
            match &values[i] {
                Some(text) => {
                    let entry = &self.subfeatures[i];
                    push_line(&mut out, entry.metric.as_str(), text.as_str());
                    proof {
                        assert(index[i as int].metric == entry.metric@);
                        assert(readings[i as int] == Some(text@));
                        assert(out@ =~= render_readings(index, readings, i as nat) + metric_line(
                            entry.metric@,
                            text@,
                        ));
                    }
                },
                None => {
                    proof {
                        assert(readings[i as int] is None);
                        assert forall|k: int| 0 <= k < i implies (#[trigger] readings[k]) is Some by {
                            assert(values@[k] is Some);
                        }
                    }
                    return Err(ReadError::QueryFailed(i));
                },
            }
            i += 1;
        }
        Ok(out)
    }
}

/// Re-enumeration cadence: of the reads that follow a tree walk, the first
/// nine are served from the index as the walk left it, and the tenth asks for
/// a new walk.
pub proof fn lemma_reenumeration_cadence(s: SessionView, n: nat)
    requires
        s.wf(),
        s.init_count > 0,
        s.reads == 0,
        n < FEATURE_INIT_COUNT,
    ensures
        s.after_reads(n).index == s.index,
        s.after_reads(n).init_count == s.init_count,
        s.after_reads(n).reads == n,
        n + 1 < FEATURE_INIT_COUNT ==> s.after_reads(n).next_plan() == ReadPlan::Serve,
        n + 1 == FEATURE_INIT_COUNT ==> s.after_reads(n).next_plan() == (ReadPlan::Enumerate {
            setup: false,
        }),
    decreases n,
{
    if n > 0 {
        lemma_reenumeration_cadence(s, (n - 1) as nat);
    }
}

/// A read that asks for a walk leaves the session as it was, so it asks
/// again until a walk is taken in; the walk then starts a new round.
pub proof fn lemma_walk_restarts_cadence(s: SessionView, detected: Seq<DetectedView>)
    requires
        s.wf(),
    ensures
        s.next_plan() != ReadPlan::Serve ==> s.after_begin_read() == s,
        s.after_init(detected).wf(),
        s.after_init(detected).init_count > 0,
        s.after_init(detected).reads == 0,
        s.after_init(detected).index == build_index(detected),
{
    lemma_build_index_distinct(detected);
}

} // verus!
