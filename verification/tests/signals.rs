use telemetry_agent::signals::collect;
use telemetry_agent::signals::read_dirty_pages;
use telemetry_agent::signals::read_fragmentation;
use telemetry_agent::signals::read_load_avg;
use telemetry_agent::signals::read_procs_blocked;
use telemetry_agent::signals::CollectionError;
use telemetry_agent::signals::SignalSource;

#[test]
fn fragmentation_of_empty_table_is_zero() {
    let r = read_fragmentation(b"");
    assert_eq!(r.huge_free_pages, 0);
    assert_eq!(r.total_free_pages, 0);
}

#[test]
fn fragmentation_of_all_zero_table_is_zero() {
    let table = b"Node 0, zone Normal 0 0 0 0 0 0 0 0 0 0 0\n";
    let r = read_fragmentation(table);
    assert_eq!(r.huge_free_pages, 0);
    assert_eq!(r.total_free_pages, 0);
}

#[test]
fn fragmentation_index_lies_between_zero_and_one() {
    let table = b"Node 0, zone DMA 1 2 3 4 5 6 7 8 9 10 11\nNode 0, zone Normal 100 50 20 10 5 2 1 0 0 1 2\n";
    let r = read_fragmentation(table);
    assert!(r.huge_free_pages <= r.total_free_pages);
    let index = r.huge_free_pages as f64 / r.total_free_pages as f64;
    assert!(0.0 <= index && index <= 1.0);
}

#[test]
fn fragmentation_of_known_row() {
    // Counts for orders 0..=10; each order k holds 2^k pages per block.
    let counts: [u64; 11] = [100, 50, 20, 10, 5, 2, 1, 0, 0, 1, 2];
    let mut expected_total: u64 = 0;
    let mut expected_huge: u64 = 0;
    for (order, c) in counts.iter().enumerate() {
        expected_total += c * (1u64 << order);
        if order >= 9 {
            expected_huge += c * (1u64 << order);
        }
    }
    assert_eq!(expected_huge, 2560);
    let table = b"Node 0, zone Normal 100 50 20 10 5 2 1 0 0 1 2\n";
    let r = read_fragmentation(table);
    assert_eq!(r.total_free_pages, expected_total);
    assert_eq!(r.huge_free_pages, 2560);
    let index = r.huge_free_pages as f64 / r.total_free_pages as f64;
    assert_eq!(index, 2560.0 / expected_total as f64);
}

#[test]
fn fragmentation_skips_short_rows() {
    // Fewer than fifteen tokens: the row contributes nothing.
    let table = b"Node 0, zone DMA 1 2 3\nNode 0, zone Normal 0 0 0 0 0 0 0 0 0 1 0\n";
    let r = read_fragmentation(table);
    assert_eq!(r.huge_free_pages, 512);
    assert_eq!(r.total_free_pages, 512);
}

#[test]
fn fragmentation_reads_unparsable_count_as_zero() {
    let table = b"Node 0, zone Normal abc 0 0 0 0 0 0 0 0 0 1\n";
    let r = read_fragmentation(table);
    assert_eq!(r.total_free_pages, 1024);
    assert_eq!(r.huge_free_pages, 1024);
}

#[test]
fn procs_blocked_absent_key_yields_zero() {
    let table = b"cpu 1 2 3\nctxt 5\nprocs_running 4\n";
    assert_eq!(read_procs_blocked(table), Ok(0));
}

#[test]
fn procs_blocked_reads_value() {
    let table = b"cpu 1 2 3\nprocs_blocked 7\nsoftirq 9\n";
    assert_eq!(read_procs_blocked(table), Ok(7));
}

#[test]
fn procs_blocked_without_value_yields_zero() {
    let table = b"procs_blocked\n";
    assert_eq!(read_procs_blocked(table), Ok(0));
}

#[test]
fn procs_blocked_unparsable_value_is_malformed() {
    let table = b"procs_blocked seven\n";
    assert_eq!(
        read_procs_blocked(table),
        Err(CollectionError::Malformed(SignalSource::SchedulerStats))
    );
}

#[test]
fn procs_blocked_oversized_value_is_malformed() {
    let table = b"procs_blocked 4294967296\n";
    assert_eq!(
        read_procs_blocked(table),
        Err(CollectionError::Malformed(SignalSource::SchedulerStats))
    );
}

#[test]
fn procs_blocked_takes_first_matching_line() {
    let table = b"procs_blocked 3\nprocs_blocked 9\n";
    assert_eq!(read_procs_blocked(table), Ok(3));
}

#[test]
fn dirty_pages_scale_by_page_size() {
    let table = b"nr_free_pages 100\nnr_dirty 10\nnr_writeback 0\n";
    assert_eq!(read_dirty_pages(table), Ok(40960));
}

#[test]
fn dirty_pages_absent_key_yields_zero() {
    let table = b"nr_free_pages 100\nnr_writeback 0\n";
    assert_eq!(read_dirty_pages(table), Ok(0));
}

#[test]
fn dirty_pages_unparsable_value_is_malformed() {
    let table = b"nr_dirty lots\n";
    assert_eq!(
        read_dirty_pages(table),
        Err(CollectionError::Malformed(SignalSource::VmStat))
    );
}

#[test]
fn dirty_pages_too_large_to_scale_is_malformed() {
    // One page more than what still fits in bytes.
    let table = b"nr_dirty 4503599627370496\n";
    assert_eq!(
        read_dirty_pages(table),
        Err(CollectionError::Malformed(SignalSource::VmStat))
    );
}

#[test]
fn load_avg_reads_first_token_in_hundredths() {
    let line = b"0.42 0.38 0.31 2/345 6789";
    assert_eq!(read_load_avg(line), Ok(42));
}

#[test]
fn load_avg_of_empty_line_is_zero() {
    assert_eq!(read_load_avg(b""), Ok(0));
}

#[test]
fn load_avg_reads_whole_numbers() {
    assert_eq!(read_load_avg(b"3 0.10 0.05 1/1 1"), Ok(300));
    assert_eq!(read_load_avg(b"12.5"), Ok(1250));
}

#[test]
fn numeric_tokens_may_carry_a_plus_sign() {
    assert_eq!(read_procs_blocked(b"procs_blocked +7\n"), Ok(7));
    assert_eq!(read_load_avg(b"+0.42 0.38"), Ok(42));
}

#[test]
fn load_avg_with_more_than_two_fraction_digits_is_malformed() {
    assert_eq!(
        read_load_avg(b"0.425 0.38 0.31"),
        Err(CollectionError::Malformed(SignalSource::LoadAvg))
    );
}

#[test]
fn load_avg_without_integer_part_is_malformed() {
    assert_eq!(
        read_load_avg(b".5 0.38 0.31"),
        Err(CollectionError::Malformed(SignalSource::LoadAvg))
    );
}

#[test]
fn load_avg_unparsable_token_is_malformed() {
    assert_eq!(
        read_load_avg(b"high 0.38 0.31"),
        Err(CollectionError::Malformed(SignalSource::LoadAvg))
    );
}

#[test]
fn collect_gathers_all_four_signals() {
    let buddy = b"Node 0, zone Normal 100 50 20 10 5 2 1 0 0 1 2\n";
    let stat = b"cpu 1 2 3\nprocs_blocked 7\n";
    let vmstat = b"nr_dirty 10\n";
    let loadavg = b"0.42 0.38 0.31 2/345 6789\n";
    let s = collect(buddy, stat, vmstat, loadavg).unwrap();
    assert_eq!(s.mem_frag.huge_free_pages, 2560);
    assert_eq!(s.mem_frag.total_free_pages, 3128);
    assert_eq!(s.procs_blocked, 7);
    assert_eq!(s.dirty_pages_bytes, 40960);
    assert_eq!(s.load_avg_1m_centi, 42);
}

#[test]
fn collect_aborts_on_first_failing_source() {
    let buddy = b"";
    let bad_stat = b"procs_blocked seven\n";
    let bad_vmstat = b"nr_dirty lots\n";
    let bad_loadavg = b"high";
    assert_eq!(
        collect(buddy, bad_stat, bad_vmstat, bad_loadavg),
        Err(CollectionError::Malformed(SignalSource::SchedulerStats))
    );
    assert_eq!(
        collect(buddy, b"procs_blocked 1\n", bad_vmstat, bad_loadavg),
        Err(CollectionError::Malformed(SignalSource::VmStat))
    );
    assert_eq!(
        collect(buddy, b"procs_blocked 1\n", b"nr_dirty 1\n", bad_loadavg),
        Err(CollectionError::Malformed(SignalSource::LoadAvg))
    );
}

#[test]
fn collect_of_missing_keys_defaults_to_zero() {
    let s = collect(b"", b"", b"", b"").unwrap();
    assert_eq!(s.mem_frag.total_free_pages, 0);
    assert_eq!(s.procs_blocked, 0);
    assert_eq!(s.dirty_pages_bytes, 0);
    assert_eq!(s.load_avg_1m_centi, 0);
}
