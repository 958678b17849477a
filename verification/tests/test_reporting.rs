use web_radio::reporting::{report_tick, total_bytes};

#[test]
fn totals_sum_every_listener() {
    let stats = vec![(0usize, 1000u64, 0u64), (1, 24, 0), (2, 0, 0)];
    assert_eq!(total_bytes(&stats), 1024);
    assert_eq!(total_bytes(&Vec::new()), 0);
}

#[test]
fn first_tick_reports_no_throughput() {
    let stats = vec![(0usize, 4096u64, 0u64)];
    let line = report_tick(&stats, None, 2_000_000);
    assert_eq!(line.clients, 1);
    assert_eq!(line.total_bytes, 4096);
    assert_eq!(line.kib_sent, 4);
    assert_eq!(line.kib_per_second, 0);
}

#[test]
fn throughput_is_the_delta_over_this_tick_alone() {
    // 4096 bytes grew to 8192 over two seconds: 2048 bytes/s = 2 KiB/s.
    let stats = vec![(0usize, 8192u64, 0u64)];
    let line = report_tick(&stats, Some(4096), 2_000_000);
    assert_eq!(line.kib_per_second, 2);

    // No elapsed time yields zero, not a division error.
    let line = report_tick(&stats, Some(4096), 0);
    assert_eq!(line.kib_per_second, 0);

    // A total that shrank (a listener left) counts as no delta.
    let line = report_tick(&stats, Some(9000), 1_000_000);
    assert_eq!(line.kib_per_second, 0);
}
