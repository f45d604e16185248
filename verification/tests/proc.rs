use desktop_exporter::helpers::proc_meminfo::get_proc_memifo;
use desktop_exporter::helpers::proc_netdev::get_proc_netdev;
use desktop_exporter::helpers::proc_stat::get_proc_stat;
use desktop_exporter::text::{ParseError, ParseErrorKind};

fn lines(text: &str) -> Vec<String> {
    text.lines().map(|l| l.to_string()).collect()
}

#[test]
fn proc_stat_renders_cpu_lines_and_known_counters() {
    let input = "cpu  10 20 30 40 50 60 70 80 90 100\ncpu0 1 2 3\nintr 5 6 7\nctxt 12345\nbtime 1700000000\nprocesses 77\nprocs_running 2\nprocs_blocked 0\nsoftirq 9 9 9\n";
    let expected = "procstat_cpu_user_hz 10\nprocstat_cpu_nice_hz 20\nprocstat_cpu_system_hz 30\nprocstat_cpu_idle_hz 40\nprocstat_cpu_iowait_hz 50\nprocstat_cpu_irq_hz 60\nprocstat_cpu_softirq_hz 70\nprocstat_cpu_steal_hz 80\nprocstat_cpu_guest_hz 90\nprocstat_cpu_guestnice_hz 100\nprocstat_cpu0_user_hz 1\nprocstat_cpu0_nice_hz 2\nprocstat_cpu0_system_hz 3\nprocstat_ctxt 12345\nprocstat_btime_seconds 1700000000\nprocstat_processes 77\nprocstat_procs_running 2\nprocstat_procs_blocked 0\n";
    assert_eq!(get_proc_stat(&lines(input)), Ok(expected.to_string()));
}

#[test]
fn proc_stat_keeps_ten_counters_of_a_cpu_line() {
    let out = get_proc_stat(&lines("cpu 1 2 3 4 5 6 7 8 9 10 11 12")).unwrap();
    assert_eq!(out.lines().count(), 10);
    assert!(out.ends_with("procstat_cpu_guestnice_hz 10\n"));
    assert_eq!(get_proc_stat(&lines("cpu")), Ok(String::new()));
}

#[test]
fn proc_stat_looks_at_the_start_of_the_line_for_cpu() {
    assert_eq!(get_proc_stat(&lines(" cpu 1 2")), Ok(String::new()));
    assert_eq!(
        get_proc_stat(&lines("cpufreq 1")),
        Ok("procstat_cpufreq_user_hz 1\n".to_string())
    );
    assert_eq!(get_proc_stat(&lines("\tctxt\t5\t6")), Ok("procstat_ctxt 5\n".to_string()));
}

#[test]
fn proc_stat_exports_procs_softirq_under_the_name_of_procs_blocked() {
    assert_eq!(
        get_proc_stat(&lines("procs_softirq 4")),
        Ok("procstat_procs_blocked 4\n".to_string())
    );
}

#[test]
fn proc_stat_of_no_lines_is_empty() {
    assert_eq!(get_proc_stat(&Vec::new()), Ok(String::new()));
}

#[test]
fn proc_stat_fails_at_the_first_line_without_a_word() {
    assert_eq!(
        get_proc_stat(&lines("ctxt 1\n\nctxt 2\n   \n")),
        Err(ParseError { line: 1, kind: ParseErrorKind::MissingField })
    );
    assert_eq!(
        get_proc_stat(&vec![" \t ".to_string()]),
        Err(ParseError { line: 0, kind: ParseErrorKind::MissingField })
    );
}

#[test]
fn proc_stat_fails_at_a_known_counter_without_value() {
    assert_eq!(
        get_proc_stat(&lines("intr\nbtime\n")),
        Err(ParseError { line: 1, kind: ParseErrorKind::MissingField })
    );
}

#[test]
fn proc_meminfo_renders_known_lines_in_bytes() {
    let input = "MemTotal:       16316412 kB\nMemFree:          123456 kB\nUnknownThing:          9 kB\nHugePages_Total:       0\nDirty:                 3 kB\nSReclaimable:          2 kB\nCommitted_AS:          1 kB\n";
    let expected = "procmeminfo_mem_total_bytes 16708005888\nprocmeminfo_mem_free_bytes 126418944\nprocmeminfo_huge_pages_total_bytes 0\nprocmeminfo_swap_dirty_bytes 3072\nprocmeminfo_sreclaiamble_bytes 2048\nprocmeminfo_commited_as_bytes 1024\n";
    assert_eq!(get_proc_memifo(&lines(input)), Ok(expected.to_string()));
}

#[test]
fn proc_meminfo_passes_over_unknown_lines_whatever_their_value() {
    assert_eq!(get_proc_memifo(&lines("Foo: bar kB\nFoo: 1\nFoo: x kB more words")), Ok(String::new()));
}

#[test]
fn proc_meminfo_needs_two_words_on_every_line() {
    assert_eq!(
        get_proc_memifo(&lines("MemTotal: 1 kB\n\n")),
        Err(ParseError { line: 1, kind: ParseErrorKind::MissingField })
    );
    assert_eq!(
        get_proc_memifo(&lines("MemTotal:")),
        Err(ParseError { line: 0, kind: ParseErrorKind::MissingField })
    );
    assert_eq!(
        get_proc_memifo(&lines("Foo:")),
        Err(ParseError { line: 0, kind: ParseErrorKind::MissingField })
    );
}

#[test]
fn proc_meminfo_refuses_another_unit() {
    assert_eq!(
        get_proc_memifo(&lines("MemTotal: 1 MB")),
        Err(ParseError { line: 0, kind: ParseErrorKind::BadUnit })
    );
    assert_eq!(
        get_proc_memifo(&lines("Foo: 1 kb")),
        Err(ParseError { line: 0, kind: ParseErrorKind::BadUnit })
    );
}

#[test]
fn proc_meminfo_refuses_a_value_that_is_no_number() {
    for bad in ["MemTotal: x kB", "MemTotal: -1 kB", "MemTotal: 1.5 kB", "MemTotal: + kB", "MemTotal: 18446744073709551616 kB"] {
        assert_eq!(
            get_proc_memifo(&lines(bad)),
            Err(ParseError { line: 0, kind: ParseErrorKind::BadNumber })
        );
    }
    assert_eq!(
        get_proc_memifo(&lines("MemTotal: +7 kB")),
        Ok("procmeminfo_mem_total_bytes 7168\n".to_string())
    );
}

#[test]
fn proc_meminfo_refuses_a_value_too_large_for_bytes() {
    assert_eq!(
        get_proc_memifo(&lines("MemTotal: 18014398509481983 kB")),
        Ok("procmeminfo_mem_total_bytes 18446744073709550592\n".to_string())
    );
    assert_eq!(
        get_proc_memifo(&lines("MemTotal: 18014398509481984 kB")),
        Err(ParseError { line: 0, kind: ParseErrorKind::TooLarge })
    );
}

#[test]
fn proc_netdev_renders_the_sixteen_counters_of_each_interface() {
    let input = "Inter-|   Receive                                                |  Transmit\n face |bytes    packets errs drop fifo frame compressed multicast|bytes    packets errs drop fifo colls carrier compressed\n    lo: 1 2 3 4 5 6 7 8 9 10 11 12 13 14 15 16\n";
    let expected = "procnetdev_rx_bytes{label=\"lo\"} 1\nprocnetdev_rx_packets_bytes{label=\"lo\"} 2\nprocnetdev_rx_errs_bytes{label=\"lo\"} 3\nprocnetdev_rx_drop_bytes{label=\"lo\"} 4\nprocnetdev_rx_fifo_bytes{label=\"lo\"} 5\nprocnetdev_rx_frame_bytes{label=\"lo\"} 6\nprocnetdev_rx_compressed_bytes{label=\"lo\"} 7\nprocnetdev_rx_multicast_bytes{label=\"lo\"} 8\nprocnetdev_tx_bytes{label=\"lo\"} 9\nprocnetdev_tx_packets_bytes{label=\"lo\"} 10\nprocnetdev_tx_errs_bytes{label=\"lo\"} 11\nprocnetdev_tx_drop_bytes{label=\"lo\"} 12\nprocnetdev_tx_fifo_bytes{label=\"lo\"} 13\nprocnetdev_tx_colls_bytes{label=\"lo\"} 14\nprocnetdev_tx_carrier_bytes{label=\"lo\"} 15\nprocnetdev_tx_compressed_bytes{label=\"lo\"} 16\n";
    assert_eq!(get_proc_netdev(&lines(input)), Ok(expected.to_string()));
}

#[test]
fn proc_netdev_passes_over_lines_that_name_no_interface() {
    assert_eq!(get_proc_netdev(&lines("face |bytes\neth0:123 1 2\neth0 : 1")), Ok(String::new()));
    assert_eq!(get_proc_netdev(&Vec::new()), Ok(String::new()));
}

#[test]
fn proc_netdev_takes_a_lone_colon_as_the_unnamed_interface() {
    let out = get_proc_netdev(&lines(": 1 2 3 4 5 6 7 8 9 10 11 12 13 14 15 16")).unwrap();
    assert!(out.starts_with("procnetdev_rx_bytes{label=\"\"} 1\n"));
}

#[test]
fn proc_netdev_fails_at_an_interface_with_another_number_of_counters() {
    assert_eq!(
        get_proc_netdev(&lines("lo: 1 2 3 4 5 6 7 8 9 10 11 12 13 14 15 16\neth0: 1 2 3\n")),
        Err(ParseError { line: 1, kind: ParseErrorKind::FieldCount })
    );
    assert_eq!(
        get_proc_netdev(&lines("lo: 1 2 3 4 5 6 7 8 9 10 11 12 13 14 15 16 17")),
        Err(ParseError { line: 0, kind: ParseErrorKind::FieldCount })
    );
    assert_eq!(
        get_proc_netdev(&lines("lo:")),
        Err(ParseError { line: 0, kind: ParseErrorKind::FieldCount })
    );
}

#[test]
fn proc_netdev_fails_at_a_line_without_a_word() {
    assert_eq!(
        get_proc_netdev(&lines("face |bytes\n\n")),
        Err(ParseError { line: 1, kind: ParseErrorKind::MissingField })
    );
}
