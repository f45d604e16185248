//! The streaming collector: lines of `radeontop` output are parsed as they
//! come, the latest sample is kept with the time at which it was seen, and a
//! read serves it only while it is fresh.
//!
//! A value is a decimal text. [`parse_line`] hands the values out as the
//! line writes them, and only values that are digits with at most one point;
//! the cache renders the values that were stored, as they were stored.
//! Bringing a value into the form under which it is exported is a conversion
//! through floating point and is done by the caller between the two.

use vstd::prelude::*;
use vstd::string::*;
use crate::pattern::{
    captures, group_text, groups_view, has_groups, regex_captures, regex_compiles, MatchError,
};
use crate::text::{is_block, is_decimal, is_decimal_text, metric_line, push_line, same_text};

verus! {

/// A sample is served for this many seconds after it was seen.
pub const MAX_RESULT_LIFE: u64 = 20;

/// The line that `radeontop` prints before its first sample.
pub open spec fn radeontop_prelude() -> Seq<char> {
    "Dumping to -, until termination."@
}

/// The pattern of a sample line; its fifteen groups are the values of
/// [`Stats`], in the order of the line.
pub open spec fn line_pattern() -> Seq<char> {
    r"^[\d.]+: bus \w+, gpu ([\d.]+)%, ee ([\d.]+)%, vgt ([\d.]+)%, ta ([\d.]+)%, sx ([\d.]+)%, sh ([\d.]+)%, spi ([\d.]+)%, sc ([\d.]+)%, pa ([\d.]+)%, db ([\d.]+)%, cb ([\d.]+)%, vram ([\d.]+)% ([\d.]+)mb, gtt ([\d.]+)% ([\d.]+)mb"@
}

/// The pattern of the clock readings at the end of a sample line; its four
/// groups are the values of [`ClkStats`].
pub open spec fn clk_pattern() -> Seq<char> {
    r"mclk ([\d.]+)% ([\d.]+)ghz, sclk ([\d.]+)% ([\d.]+)ghz$"@
}

/// The utilisation values of one sample.
#[derive(Clone, Debug)]
pub struct Stats {
    pub gpu: String,
    pub ee: String,
    pub vgt: String,
    pub ta: String,
    pub sx: String,
    pub sh: String,
    pub spi: String,
    pub sc: String,
    pub pa: String,
    pub db: String,
    pub cb: String,
    pub vram_percent: String,
    pub vram: String,
    pub gtt_percent: String,
    pub gtt: String,
}

/// Mathematical value of [`Stats`].
pub struct StatsView {
    pub gpu: Seq<char>,
    pub ee: Seq<char>,
    pub vgt: Seq<char>,
    pub ta: Seq<char>,
    pub sx: Seq<char>,
    pub sh: Seq<char>,
    pub spi: Seq<char>,
    pub sc: Seq<char>,
    pub pa: Seq<char>,
    pub db: Seq<char>,
    pub cb: Seq<char>,
    pub vram_percent: Seq<char>,
    pub vram: Seq<char>,
    pub gtt_percent: Seq<char>,
    pub gtt: Seq<char>,
}

impl View for Stats {
    type V = StatsView;

    open spec fn view(&self) -> StatsView {
        StatsView {
            gpu: self.gpu@,
            ee: self.ee@,
            vgt: self.vgt@,
            ta: self.ta@,
            sx: self.sx@,
            sh: self.sh@,
            spi: self.spi@,
            sc: self.sc@,
            pa: self.pa@,
            db: self.db@,
            cb: self.cb@,
            vram_percent: self.vram_percent@,
            vram: self.vram@,
            gtt_percent: self.gtt_percent@,
            gtt: self.gtt@,
        }
    }
}

/// The clock readings of one sample.
#[derive(Clone, Debug)]
pub struct ClkStats {
    pub mclk_percent: String,
    pub mclk: String,
    pub sclk_percent: String,
    pub sclk: String,
}

/// Mathematical value of [`ClkStats`].
pub struct ClkStatsView {
    pub mclk_percent: Seq<char>,
    pub mclk: Seq<char>,
    pub sclk_percent: Seq<char>,
    pub sclk: Seq<char>,
}

impl View for ClkStats {
    type V = ClkStatsView;

    open spec fn view(&self) -> ClkStatsView {
        ClkStatsView {
            mclk_percent: self.mclk_percent@,
            mclk: self.mclk@,
            sclk_percent: self.sclk_percent@,
            sclk: self.sclk@,
        }
    }
}

/// What one sample line holds: the utilisation values and, where the line
/// has them, the clock readings.
#[derive(Clone, Debug)]
pub struct ParsedRecord {
    pub stats: Stats,
    pub clk: Option<ClkStats>,
}

/// Mathematical value of a [`ParsedRecord`].
pub struct RecordView {
    pub stats: StatsView,
    pub clk: Option<ClkStatsView>,
}

impl View for ParsedRecord {
    type V = RecordView;

    open spec fn view(&self) -> RecordView {
        RecordView {
            stats: self.stats@,
            clk: match self.clk {
                Some(clk) => Some(clk@),
                None => None,
            },
        }
    }
}

/// The utilisation values that the groups of a sample line hold.
pub open spec fn stats_of_groups(groups: Seq<Option<Seq<char>>>) -> StatsView {
    StatsView {
        gpu: groups[1]->0,
        ee: groups[2]->0,
        vgt: groups[3]->0,
        ta: groups[4]->0,
        sx: groups[5]->0,
        sh: groups[6]->0,
        spi: groups[7]->0,
        sc: groups[8]->0,
        pa: groups[9]->0,
        db: groups[10]->0,
        cb: groups[11]->0,
        vram_percent: groups[12]->0,
        vram: groups[13]->0,
        gtt_percent: groups[14]->0,
        gtt: groups[15]->0,
    }
}

/// The clock readings that the groups of the clock pattern hold.
pub open spec fn clk_of_groups(groups: Seq<Option<Seq<char>>>) -> ClkStatsView {
    ClkStatsView {
        mclk_percent: groups[1]->0,
        mclk: groups[2]->0,
        sclk_percent: groups[3]->0,
        sclk: groups[4]->0,
    }
}

/// Takes the utilisation values out of the groups of a sample line: there
/// are values exactly where groups 1 to 15 are all there.
pub fn parse_stdout_line(groups: &Vec<Option<String>>) -> (out: Option<Stats>)
    ensures
        match out {
            Some(stats) => has_groups(groups_view(groups@), 15) && stats@ == stats_of_groups(
                groups_view(groups@),
            ),
            None => !has_groups(groups_view(groups@), 15),
        },
{
    if groups.len() <= 15 {
        return None;
    }
    let gpu = match group_text(groups, 1) {
        Some(text) => text,
        None => return None,
    };
    let ee = match group_text(groups, 2) {
        Some(text) => text,
        None => return None,
    };
    let vgt = match group_text(groups, 3) {
        Some(text) => text,
        None => return None,
    };
    let ta = match group_text(groups, 4) {
        Some(text) => text,
        None => return None,
    };
    let sx = match group_text(groups, 5) {
        Some(text) => text,
        None => return None,
    };
    let sh = match group_text(groups, 6) {
        Some(text) => text,
        None => return None,
    };
    let spi = match group_text(groups, 7) {
        Some(text) => text,
        None => return None,
    };
    let sc = match group_text(groups, 8) {
        Some(text) => text,
        None => return None,
    };
    let pa = match group_text(groups, 9) {
        Some(text) => text,
        None => return None,
    };
    let db = match group_text(groups, 10) {
        Some(text) => text,
        None => return None,
    };
    let cb = match group_text(groups, 11) {
        Some(text) => text,
        None => return None,
    };
    let vram_percent = match group_text(groups, 12) {
        Some(text) => text,
        None => return None,
    };
    let vram = match group_text(groups, 13) {
        Some(text) => text,
        None => return None,
    };
    let gtt_percent = match group_text(groups, 14) {
        Some(text) => text,
        None => return None,
    };
    let gtt = match group_text(groups, 15) {
        Some(text) => text,
        None => return None,
    };
    let stats = Stats { gpu, ee, vgt, ta, sx, sh, spi, sc, pa, db, cb, vram_percent, vram, gtt_percent, gtt };
    Some(stats)
}

/// Takes the clock readings out of the groups of the clock pattern: there
/// are readings exactly where groups 1 to 4 are all there.
pub fn parse_clk_captures(groups: &Vec<Option<String>>) -> (out: Option<ClkStats>)
    ensures
        match out {
            Some(clk) => has_groups(groups_view(groups@), 4) && clk@ == clk_of_groups(
                groups_view(groups@),
            ),
            None => !has_groups(groups_view(groups@), 4),
        },
{
    if groups.len() <= 4 {
        return None;
    }
    let mclk_percent = match group_text(groups, 1) {
        Some(text) => text,
        None => return None,
    };
    let mclk = match group_text(groups, 2) {
        Some(text) => text,
        None => return None,
    };
    let sclk_percent = match group_text(groups, 3) {
        Some(text) => text,
        None => return None,
    };
    let sclk = match group_text(groups, 4) {
        Some(text) => text,
        None => return None,
    };
    let clk = ClkStats { mclk_percent, mclk, sclk_percent, sclk };
    Some(clk)
}

/// The lines of the utilisation values.
pub open spec fn render_stats(stats: StatsView) -> Seq<char> {
    metric_line("amdgpu_radeontop_gpu"@, stats.gpu)
        + metric_line("amdgpu_radeontop_ee"@, stats.ee)
        + metric_line("amdgpu_radeontop_vgt"@, stats.vgt)
        + metric_line("amdgpu_radeontop_ta"@, stats.ta)
        + metric_line("amdgpu_radeontop_sx"@, stats.sx)
        + metric_line("amdgpu_radeontop_sh"@, stats.sh)
        + metric_line("amdgpu_radeontop_spi"@, stats.spi)
        + metric_line("amdgpu_radeontop_sc"@, stats.sc)
        + metric_line("amdgpu_radeontop_pa"@, stats.pa)
        + metric_line("amdgpu_radeontop_db"@, stats.db)
        + metric_line("amdgpu_radeontop_cb"@, stats.cb)
        + metric_line("amdgpu_radeontop_vram_percent"@, stats.vram_percent)
        + metric_line("amdgpu_radeontop_vram"@, stats.vram)
        + metric_line("amdgpu_radeontop_gtt_percent"@, stats.gtt_percent)
        + metric_line("amdgpu_radeontop_gtt"@, stats.gtt)
}

/// The lines of the clock readings.
pub open spec fn render_clk(clk: ClkStatsView) -> Seq<char> {
    metric_line("amdgpu_radeontop_mclk_percent"@, clk.mclk_percent)
        + metric_line("amdgpu_radeontop_mclk"@, clk.mclk)
        + metric_line("amdgpu_radeontop_sclk_percent"@, clk.sclk_percent)
        + metric_line("amdgpu_radeontop_sclk"@, clk.sclk)
}

/// The fragment of a sample: the utilisation lines, then the clock lines
/// where the sample has clock readings.
pub open spec fn render_record(record: RecordView) -> Seq<char> {
    match record.clk {
        Some(clk) => render_stats(record.stats) + render_clk(clk),
        None => render_stats(record.stats),
    }
}

fn push_stats(out: &mut String, stats: &Stats)
    ensures
        final(out)@ == old(out)@ + render_stats(stats@),
        is_block(final(out)@),
{
    push_line(out, "amdgpu_radeontop_gpu", stats.gpu.as_str());
    push_line(out, "amdgpu_radeontop_ee", stats.ee.as_str());
    push_line(out, "amdgpu_radeontop_vgt", stats.vgt.as_str());
    push_line(out, "amdgpu_radeontop_ta", stats.ta.as_str());
    push_line(out, "amdgpu_radeontop_sx", stats.sx.as_str());
    push_line(out, "amdgpu_radeontop_sh", stats.sh.as_str());
    push_line(out, "amdgpu_radeontop_spi", stats.spi.as_str());
    push_line(out, "amdgpu_radeontop_sc", stats.sc.as_str());
    push_line(out, "amdgpu_radeontop_pa", stats.pa.as_str());
    push_line(out, "amdgpu_radeontop_db", stats.db.as_str());
    push_line(out, "amdgpu_radeontop_cb", stats.cb.as_str());
    push_line(out, "amdgpu_radeontop_vram_percent", stats.vram_percent.as_str());
    push_line(out, "amdgpu_radeontop_vram", stats.vram.as_str());
    push_line(out, "amdgpu_radeontop_gtt_percent", stats.gtt_percent.as_str());
    push_line(out, "amdgpu_radeontop_gtt", stats.gtt.as_str());
    assert(out@ =~= old(out)@ + render_stats(stats@));
}

fn push_clk(out: &mut String, clk: &ClkStats)
    ensures
        final(out)@ == old(out)@ + render_clk(clk@),
        is_block(final(out)@),
{
    push_line(out, "amdgpu_radeontop_mclk_percent", clk.mclk_percent.as_str());
    push_line(out, "amdgpu_radeontop_mclk", clk.mclk.as_str());
    push_line(out, "amdgpu_radeontop_sclk_percent", clk.sclk_percent.as_str());
    push_line(out, "amdgpu_radeontop_sclk", clk.sclk.as_str());
    assert(out@ =~= old(out)@ + render_clk(clk@));
}

/// Whether every utilisation value is a decimal value.
pub open spec fn stats_are_decimal(stats: StatsView) -> bool {
    &&& is_decimal_text(stats.gpu)
    &&& is_decimal_text(stats.ee)
    &&& is_decimal_text(stats.vgt)
    &&& is_decimal_text(stats.ta)
    &&& is_decimal_text(stats.sx)
    &&& is_decimal_text(stats.sh)
    &&& is_decimal_text(stats.spi)
    &&& is_decimal_text(stats.sc)
    &&& is_decimal_text(stats.pa)
    &&& is_decimal_text(stats.db)
    &&& is_decimal_text(stats.cb)
    &&& is_decimal_text(stats.vram_percent)
    &&& is_decimal_text(stats.vram)
    &&& is_decimal_text(stats.gtt_percent)
    &&& is_decimal_text(stats.gtt)
}

/// Whether every clock reading is a decimal value.
pub open spec fn clk_is_decimal(clk: ClkStatsView) -> bool {
    &&& is_decimal_text(clk.mclk_percent)
    &&& is_decimal_text(clk.mclk)
    &&& is_decimal_text(clk.sclk_percent)
    &&& is_decimal_text(clk.sclk)
}

/// Whether every utilisation value is a decimal value.
pub fn stats_valid(stats: &Stats) -> (r: bool)
    ensures
        r == stats_are_decimal(stats@),
{
    is_decimal(stats.gpu.as_str())
        && is_decimal(stats.ee.as_str())
        && is_decimal(stats.vgt.as_str())
        && is_decimal(stats.ta.as_str())
        && is_decimal(stats.sx.as_str())
        && is_decimal(stats.sh.as_str())
        && is_decimal(stats.spi.as_str())
        && is_decimal(stats.sc.as_str())
        && is_decimal(stats.pa.as_str())
        && is_decimal(stats.db.as_str())
        && is_decimal(stats.cb.as_str())
        && is_decimal(stats.vram_percent.as_str())
        && is_decimal(stats.vram.as_str())
        && is_decimal(stats.gtt_percent.as_str())
        && is_decimal(stats.gtt.as_str())
}

/// Whether every clock reading is a decimal value.
pub fn clk_valid(clk: &ClkStats) -> (r: bool)
    ensures
        r == clk_is_decimal(clk@),
{
    is_decimal(clk.mclk_percent.as_str())
        && is_decimal(clk.mclk.as_str())
        && is_decimal(clk.sclk_percent.as_str())
        && is_decimal(clk.sclk.as_str())
}

/// The clock readings that a sample line holds, `found` being what the
/// clock pattern found in it: they are there exactly where the pattern
/// matched with its four groups and each of them is a decimal value.
pub open spec fn clk_of_found(found: Option<Seq<Option<Seq<char>>>>) -> Option<ClkStatsView> {
    match found {
        Some(groups) => if has_groups(groups, 4) && clk_is_decimal(clk_of_groups(groups)) {
            Some(clk_of_groups(groups))
        } else {
            None
        },
        None => None,
    }
}

/// The record that the groups of a sample line hold, `groups` being those of
/// the line pattern and `clk_found` what the clock pattern found. Groups 1
/// to 15 must all be there and each must be a decimal value; the clock
/// readings are taken where they are whole and left out where they are not.
pub open spec fn record_of_groups(
    groups: Seq<Option<Seq<char>>>,
    clk_found: Option<Seq<Option<Seq<char>>>>,
) -> Result<RecordView, MatchError> {
    if !has_groups(groups, 15) {
        Err(MatchError::MissingGroup)
    } else if !stats_are_decimal(stats_of_groups(groups)) {
        Err(MatchError::BadValue)
    } else {
        Ok(RecordView { stats: stats_of_groups(groups), clk: clk_of_found(clk_found) })
    }
}

/// Builds the record of a sample line from what the two patterns found.
pub fn record_from_groups(
    groups: &Vec<Option<String>>,
    clk_groups: &Option<Vec<Option<String>>>,
) -> (out: Result<ParsedRecord, MatchError>)
    ensures
        match out {
            Ok(record) => record_of_groups(
                groups_view(groups@),
                crate::pattern::captures_view(*clk_groups),
            ) == Ok::<RecordView, MatchError>(record@),
            Err(e) => record_of_groups(
                groups_view(groups@),
                crate::pattern::captures_view(*clk_groups),
            ) == Err::<RecordView, MatchError>(e),
        },
{
    let stats = match parse_stdout_line(groups) {
        Some(stats) => stats,
        None => return Err(MatchError::MissingGroup),
    };
    if !stats_valid(&stats) {
        return Err(MatchError::BadValue);
    }
    let clk = match clk_groups {
        Some(found) => match parse_clk_captures(found) {
            Some(clk) => if clk_valid(&clk) {
                Some(clk)
            } else {
                None
            },
            None => None,
        },
        None => None,
    };
    Ok(ParsedRecord { stats, clk })
}

/// What a line of output means: the prelude is passed over, a sample line
/// gives its record, and any other line is an error, as is a pattern that
/// does not compile.
pub open spec fn line_outcome(line: Seq<char>) -> Result<Option<RecordView>, MatchError> {
    if line == radeontop_prelude() {
        Ok(None)
    } else if !regex_compiles(line_pattern()) {
        Err(MatchError::BadPattern)
    } else {
        match regex_captures(line_pattern(), line) {
            None => Err(MatchError::NoMatch),
            Some(groups) => if !regex_compiles(clk_pattern()) {
                Err(MatchError::BadPattern)
            } else {
                match record_of_groups(groups, regex_captures(clk_pattern(), line)) {
                    Ok(record) => Ok(Some(record)),
                    Err(e) => Err(e),
                }
            },
        }
    }
}

/// Reads one line of output. The values of the record are the texts of the
/// line, as they stand in it, and each of them is a decimal value.
pub fn parse_line(line: &str) -> (out: Result<Option<ParsedRecord>, MatchError>)
    ensures
        match out {
            Ok(Some(record)) => line_outcome(line@) == Ok::<Option<RecordView>, MatchError>(
                Some(record@),
            ) && stats_are_decimal(record@.stats) && (record@.clk matches Some(clk)
                ==> clk_is_decimal(clk)),
            Ok(None) => line_outcome(line@) == Ok::<Option<RecordView>, MatchError>(None),
            Err(e) => line_outcome(line@) == Err::<Option<RecordView>, MatchError>(e),
        },
{
    if same_text(line, "Dumping to -, until termination.") {
        return Ok(None);
    }
    let found = match captures(
        r"^[\d.]+: bus \w+, gpu ([\d.]+)%, ee ([\d.]+)%, vgt ([\d.]+)%, ta ([\d.]+)%, sx ([\d.]+)%, sh ([\d.]+)%, spi ([\d.]+)%, sc ([\d.]+)%, pa ([\d.]+)%, db ([\d.]+)%, cb ([\d.]+)%, vram ([\d.]+)% ([\d.]+)mb, gtt ([\d.]+)% ([\d.]+)mb",
        line,
    ) {
        Ok(found) => found,
        Err(_) => return Err(MatchError::BadPattern),
    };
    let groups = match found {
        Some(groups) => groups,
        None => return Err(MatchError::NoMatch),
    };
    let clk_groups = match captures(
        r"mclk ([\d.]+)% ([\d.]+)ghz, sclk ([\d.]+)% ([\d.]+)ghz$",
        line,
    ) {
        Ok(found) => found,
        Err(_) => return Err(MatchError::BadPattern),
    };
    match record_from_groups(&groups, &clk_groups) {
        Ok(record) => Ok(Some(record)),
        Err(e) => Err(e),
    }
}

/// Whether a sample seen at `observed_at` may still be served at `now`: its
/// age is at most the staleness window. A sample that the clock dates after
/// `now` has a negative age and is served.
pub open spec fn is_fresh(observed_at: u64, now: u64) -> bool {
    now - observed_at <= MAX_RESULT_LIFE
}

/// Mathematical value of the cache: the latest record, if any line was
/// parsed yet, and the time at which it was seen.
pub struct SnapshotView {
    pub stats: Option<RecordView>,
    pub observed_at: u64,
}

impl SnapshotView {
    /// What a read at `now` serves: the record's fragment while it is
    /// fresh, the empty fragment before the first record and after the
    /// window has passed.
    pub open spec fn fragment(self, now: u64) -> Seq<char> {
        match self.stats {
            Some(record) => if is_fresh(self.observed_at, now) {
                render_record(record)
            } else {
                Seq::empty()
            },
            None => Seq::empty(),
        }
    }
}

/// The cache of the streaming collector: the latest record and the time at
/// which it was seen.
pub struct StreamingSnapshot {
    stats: Option<ParsedRecord>,
    observed_at: u64,
}

impl View for StreamingSnapshot {
    type V = SnapshotView;

    closed spec fn view(&self) -> SnapshotView {
        SnapshotView {
            stats: match self.stats {
                Some(record) => Some(record@),
                None => None,
            },
            observed_at: self.observed_at,
        }
    }
}

impl StreamingSnapshot {
    /// The cache before the first record.
    pub fn new() -> (cache: StreamingSnapshot)
        ensures
            cache@.stats is None,
            cache@.observed_at == 0,
    {
        StreamingSnapshot { stats: None, observed_at: 0 }
    }

    /// Replaces the cached record, whole, by one seen at `now`.
    pub fn store(&mut self, record: ParsedRecord, now: u64)
        ensures
            final(self)@ == (SnapshotView { stats: Some(record@), observed_at: now }),
    {
        self.stats = Some(record);
        self.observed_at = now;
    }

    /// Whether a record was stored yet.
    pub fn has_record(&self) -> (r: bool)
        ensures
            r == self@.stats is Some,
    {
        self.stats.is_some()
    }

    /// The time at which the cached record was seen; 0 before the first.
    pub fn observed_at(&self) -> (t: u64)
        ensures
            t == self@.observed_at,
    {
        self.observed_at
    }
}

/// Serves the cache at `now`: the fragment of the cached record while it is
/// fresh, else the empty fragment.
pub fn get_radeontop_stats(cache: &StreamingSnapshot, now: u64) -> (out: String)
    ensures
        out@ == cache@.fragment(now),
        is_block(out@),
        cache@.stats is None ==> out@.len() == 0,
        now - cache@.observed_at > MAX_RESULT_LIFE ==> out@.len() == 0,
        out@.len() > 0 ==> cache@.stats is Some && now - cache@.observed_at <= MAX_RESULT_LIFE,
{
    let mut out = String::new();
    match &cache.stats {
        None => {},
        Some(record) => {
            let fresh = now <= cache.observed_at || now - cache.observed_at <= MAX_RESULT_LIFE;
            if fresh {
                push_stats(&mut out, &record.stats);
                match &record.clk {
                    Some(clk) => {
                        push_clk(&mut out, clk);
                    },
                    None => {},
                }
                assert(out@ =~= render_record(record@));
            }
        },
    }
    out
}

} // verus!
