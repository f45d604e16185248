use desktop_exporter::pattern::MatchError;
use desktop_exporter::helpers::amd_radeontop::{
    clk_valid, get_radeontop_stats, parse_clk_captures, parse_line, parse_stdout_line,
    record_from_groups, stats_valid, ClkStats, ParsedRecord, Stats, StreamingSnapshot,
    MAX_RESULT_LIFE,
};

const SAMPLE: &str = "1732491561.725899: bus 09, gpu 100.00%, ee 0.00%, vgt 100.00%, ta 100.00%, sx 100.00%, sh 100.00%, spi 100.00%, sc 100.00%, pa 0.00%, db 100.00%, cb 100.00%, vram 8.29% 1351.82mb, gtt 6.52% 517.27mb, mclk 9.60% 0.096ghz, sclk 2.97% 0.079ghz";

const SAMPLE_WITHOUT_CLOCKS: &str = "1732491561.725899: bus 09, gpu 1.00%, ee 2.00%, vgt 3.00%, ta 4.00%, sx 5.00%, sh 6.00%, spi 7.00%, sc 8.00%, pa 9.00%, db 10.00%, cb 11.00%, vram 12.00% 13.5mb, gtt 14.00% 15.5mb";

fn stats() -> Stats {
    Stats {
        gpu: "1".to_string(),
        ee: "2".to_string(),
        vgt: "3".to_string(),
        ta: "4".to_string(),
        sx: "5".to_string(),
        sh: "6".to_string(),
        spi: "7".to_string(),
        sc: "8".to_string(),
        pa: "9".to_string(),
        db: "10".to_string(),
        cb: "11".to_string(),
        vram_percent: "12".to_string(),
        vram: "13.5".to_string(),
        gtt_percent: "14".to_string(),
        gtt: "15.5".to_string(),
    }
}

fn clk() -> ClkStats {
    ClkStats {
        mclk_percent: "9.6".to_string(),
        mclk: "0.096".to_string(),
        sclk_percent: "2.97".to_string(),
        sclk: "0.079".to_string(),
    }
}

const STATS_LINES: &str = "amdgpu_radeontop_gpu 1\namdgpu_radeontop_ee 2\namdgpu_radeontop_vgt 3\namdgpu_radeontop_ta 4\namdgpu_radeontop_sx 5\namdgpu_radeontop_sh 6\namdgpu_radeontop_spi 7\namdgpu_radeontop_sc 8\namdgpu_radeontop_pa 9\namdgpu_radeontop_db 10\namdgpu_radeontop_cb 11\namdgpu_radeontop_vram_percent 12\namdgpu_radeontop_vram 13.5\namdgpu_radeontop_gtt_percent 14\namdgpu_radeontop_gtt 15.5\n";

const CLK_LINES: &str = "amdgpu_radeontop_mclk_percent 9.6\namdgpu_radeontop_mclk 0.096\namdgpu_radeontop_sclk_percent 2.97\namdgpu_radeontop_sclk 0.079\n";

fn groups(n: usize) -> Vec<Option<String>> {
    (0..n).map(|i| Some(format!("g{}", i))).collect()
}

fn numbers(n: usize) -> Vec<Option<String>> {
    (0..n).map(|i| Some(format!("{}.5", i))).collect()
}

#[test]
fn empty_cache_serves_the_empty_fragment() {
    let cache = StreamingSnapshot::new();
    assert!(!cache.has_record());
    assert_eq!(cache.observed_at(), 0);
    assert_eq!(get_radeontop_stats(&cache, 0), "");
    assert_eq!(get_radeontop_stats(&cache, 5), "");
    assert_eq!(get_radeontop_stats(&cache, u64::MAX), "");
}

#[test]
fn snapshot_of_nineteen_seconds_is_served() {
    let mut cache = StreamingSnapshot::new();
    cache.store(ParsedRecord { stats: stats(), clk: None }, 1000 - 19);
    assert_eq!(get_radeontop_stats(&cache, 1000), STATS_LINES);
}

#[test]
fn snapshot_of_twenty_one_seconds_is_not_served() {
    let mut cache = StreamingSnapshot::new();
    cache.store(ParsedRecord { stats: stats(), clk: None }, 1000 - 21);
    assert_eq!(get_radeontop_stats(&cache, 1000), "");
}

#[test]
fn snapshot_at_the_edge_of_the_window_is_served() {
    assert_eq!(MAX_RESULT_LIFE, 20);
    let mut cache = StreamingSnapshot::new();
    cache.store(ParsedRecord { stats: stats(), clk: None }, 1000 - 20);
    assert_eq!(get_radeontop_stats(&cache, 1000), STATS_LINES);
    assert_eq!(get_radeontop_stats(&cache, 999), STATS_LINES);
    assert_eq!(get_radeontop_stats(&cache, 1001), "");
}

#[test]
fn snapshot_seen_after_the_read_is_served() {
    let mut cache = StreamingSnapshot::new();
    cache.store(ParsedRecord { stats: stats(), clk: None }, 1000);
    assert_eq!(get_radeontop_stats(&cache, 990), STATS_LINES);
    assert_eq!(get_radeontop_stats(&cache, 0), STATS_LINES);
}

#[test]
fn snapshot_at_the_end_of_time_is_handled() {
    let mut cache = StreamingSnapshot::new();
    cache.store(ParsedRecord { stats: stats(), clk: None }, 0);
    assert_eq!(get_radeontop_stats(&cache, u64::MAX), "");
    cache.store(ParsedRecord { stats: stats(), clk: None }, u64::MAX - 20);
    assert_eq!(get_radeontop_stats(&cache, u64::MAX), STATS_LINES);
}

#[test]
fn clock_lines_follow_the_utilisation_lines() {
    let mut cache = StreamingSnapshot::new();
    cache.store(ParsedRecord { stats: stats(), clk: Some(clk()) }, 50);
    assert_eq!(get_radeontop_stats(&cache, 60), format!("{}{}", STATS_LINES, CLK_LINES));
}

#[test]
fn store_replaces_the_whole_record() {
    let mut cache = StreamingSnapshot::new();
    cache.store(ParsedRecord { stats: stats(), clk: Some(clk()) }, 50);
    let mut later = stats();
    later.gpu = "77".to_string();
    cache.store(ParsedRecord { stats: later, clk: None }, 55);
    assert!(cache.has_record());
    assert_eq!(cache.observed_at(), 55);
    let text = get_radeontop_stats(&cache, 60);
    assert!(text.starts_with("amdgpu_radeontop_gpu 77\n"));
    assert!(!text.contains("mclk"));
    assert_eq!(get_radeontop_stats(&cache, 76), "");
}

#[test]
fn prelude_is_passed_over() {
    assert!(matches!(parse_line("Dumping to -, until termination."), Ok(None)));
}

#[test]
fn sample_line_gives_its_values_as_written() {
    let record = parse_line(SAMPLE).unwrap().unwrap();
    assert_eq!(record.stats.gpu, "100.00");
    assert_eq!(record.stats.ee, "0.00");
    assert_eq!(record.stats.vgt, "100.00");
    assert_eq!(record.stats.pa, "0.00");
    assert_eq!(record.stats.cb, "100.00");
    assert_eq!(record.stats.vram_percent, "8.29");
    assert_eq!(record.stats.vram, "1351.82");
    assert_eq!(record.stats.gtt_percent, "6.52");
    assert_eq!(record.stats.gtt, "517.27");
    let clk = record.clk.unwrap();
    assert_eq!(clk.mclk_percent, "9.60");
    assert_eq!(clk.mclk, "0.096");
    assert_eq!(clk.sclk_percent, "2.97");
    assert_eq!(clk.sclk, "0.079");
}

#[test]
fn sample_line_without_clocks_has_no_clock_readings() {
    let record = parse_line(SAMPLE_WITHOUT_CLOCKS).unwrap().unwrap();
    assert!(record.clk.is_none());
    assert_eq!(record.stats.gpu, "1.00");
    assert_eq!(record.stats.sx, "5.00");
    assert_eq!(record.stats.gtt, "15.5");
}

#[test]
fn other_lines_are_errors() {
    assert_eq!(parse_line("").unwrap_err(), MatchError::NoMatch);
    assert_eq!(parse_line("Dumping to -, until termination").unwrap_err(), MatchError::NoMatch);
    assert_eq!(parse_line("gpu 100.00%").unwrap_err(), MatchError::NoMatch);
    assert_eq!(
        parse_line("mclk 9.60% 0.096ghz, sclk 2.97% 0.079ghz").unwrap_err(),
        MatchError::NoMatch
    );
}

#[test]
fn parsed_line_is_served_after_it_is_stored() {
    let record = parse_line(SAMPLE_WITHOUT_CLOCKS).unwrap().unwrap();
    let mut cache = StreamingSnapshot::new();
    cache.store(record, 7);
    let text = get_radeontop_stats(&cache, 8);
    assert!(text.starts_with("amdgpu_radeontop_gpu 1.00\namdgpu_radeontop_ee 2.00\n"));
    assert!(text.ends_with("amdgpu_radeontop_gtt 15.5\n"));
}

#[test]
fn sixteen_groups_give_the_fifteen_values_in_order() {
    let stats = parse_stdout_line(&groups(16)).unwrap();
    assert_eq!(stats.gpu, "g1");
    assert_eq!(stats.ee, "g2");
    assert_eq!(stats.vgt, "g3");
    assert_eq!(stats.ta, "g4");
    assert_eq!(stats.sx, "g5");
    assert_eq!(stats.sh, "g6");
    assert_eq!(stats.spi, "g7");
    assert_eq!(stats.sc, "g8");
    assert_eq!(stats.pa, "g9");
    assert_eq!(stats.db, "g10");
    assert_eq!(stats.cb, "g11");
    assert_eq!(stats.vram_percent, "g12");
    assert_eq!(stats.vram, "g13");
    assert_eq!(stats.gtt_percent, "g14");
    assert_eq!(stats.gtt, "g15");
}

#[test]
fn too_few_or_missing_groups_give_no_values() {
    assert!(parse_stdout_line(&groups(15)).is_none());
    assert!(parse_stdout_line(&Vec::new()).is_none());
    let mut holed = groups(16);
    holed[9] = None;
    assert!(parse_stdout_line(&holed).is_none());
    let mut without_whole = groups(16);
    without_whole[0] = None;
    assert!(parse_stdout_line(&without_whole).is_some());
}

#[test]
fn five_groups_give_the_four_clock_readings_in_order() {
    let clk = parse_clk_captures(&groups(5)).unwrap();
    assert_eq!(clk.mclk_percent, "g1");
    assert_eq!(clk.mclk, "g2");
    assert_eq!(clk.sclk_percent, "g3");
    assert_eq!(clk.sclk, "g4");
    assert!(parse_clk_captures(&groups(4)).is_none());
    let mut holed = groups(5);
    holed[4] = None;
    assert!(parse_clk_captures(&holed).is_none());
}

#[test]
fn record_takes_clock_readings_only_where_they_are_whole() {
    let with = record_from_groups(&numbers(16), &Some(numbers(5))).unwrap();
    assert_eq!(with.stats.gpu, "1.5");
    assert_eq!(with.stats.gtt, "15.5");
    assert_eq!(with.clk.unwrap().sclk, "4.5");
    let without = record_from_groups(&numbers(16), &None).unwrap();
    assert!(without.clk.is_none());
    let short = record_from_groups(&numbers(16), &Some(numbers(3))).unwrap();
    assert!(short.clk.is_none());
    let not_numbers = record_from_groups(&numbers(16), &Some(groups(5))).unwrap();
    assert!(not_numbers.clk.is_none());
}

#[test]
fn record_needs_fifteen_values_that_are_numbers() {
    assert_eq!(
        record_from_groups(&numbers(10), &Some(numbers(5))).unwrap_err(),
        MatchError::MissingGroup
    );
    assert_eq!(record_from_groups(&groups(16), &None).unwrap_err(), MatchError::BadValue);
    let mut one_bad = numbers(16);
    one_bad[15] = Some("1.2.3".to_string());
    assert_eq!(record_from_groups(&one_bad, &None).unwrap_err(), MatchError::BadValue);
    let mut only_point = numbers(16);
    only_point[1] = Some(".".to_string());
    assert_eq!(record_from_groups(&only_point, &None).unwrap_err(), MatchError::BadValue);
    let mut holed = numbers(16);
    holed[4] = None;
    assert_eq!(record_from_groups(&holed, &None).unwrap_err(), MatchError::MissingGroup);
}

#[test]
fn sample_line_with_a_value_that_is_no_number_is_an_error() {
    assert_eq!(
        parse_line(&SAMPLE.replace("gpu 100.00%", "gpu 1.2.3%")).unwrap_err(),
        MatchError::BadValue
    );
    assert_eq!(
        parse_line(&SAMPLE_WITHOUT_CLOCKS.replace("15.5mb", "..mb")).unwrap_err(),
        MatchError::BadValue
    );
    assert_eq!(parse_line("gpu busy").unwrap_err(), MatchError::NoMatch);
}

#[test]
fn clock_readings_that_are_no_numbers_are_left_out() {
    let record = parse_line(&SAMPLE.replace("mclk 9.60%", "mclk 9.6.0%")).unwrap().unwrap();
    assert!(record.clk.is_none());
    assert_eq!(record.stats.gpu, "100.00");
}

#[test]
fn every_value_of_a_parsed_record_reads_as_a_number() {
    let record = parse_line(SAMPLE).unwrap().unwrap();
    assert!(stats_valid(&record.stats));
    assert!(clk_valid(record.clk.as_ref().unwrap()));
    assert!(record.stats.vram.parse::<f64>().is_ok());
    let mut bad = stats();
    assert!(stats_valid(&bad));
    bad.sh = "6 ".to_string();
    assert!(!stats_valid(&bad));
    let mut bad_clk = clk();
    assert!(clk_valid(&bad_clk));
    bad_clk.mclk = String::new();
    assert!(!clk_valid(&bad_clk));
}
