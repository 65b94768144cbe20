use heim::calibration::clock_ticks_from;
use heim::pipeline::{
    apply_filter, io_counters_from, io_counters_physical_from, parse_records, CounterStream,
};
use heim::source::read_source;
use heim::{clock_ticks, ClockTicks, ErrorKind, LinuxProvider, Provider};

#[test]
fn parse_records_yields_one_record_per_line_in_order() {
    let lines = vec![
        String::from("8 0 sda 100 5 51200 10 20 2 10240 20"),
        String::from("8 1 sda1 7 0 64 1 3 0 32 2"),
    ];
    let recs = parse_records(&lines).unwrap();
    assert_eq!(recs.len(), 2);
    assert_eq!(recs[0].device_name(), "sda");
    assert_eq!(recs[1].device_name(), "sda1");
    assert_eq!(recs[1].read_count, 7);
    assert_eq!(recs[1].write_bytes.get(), 32 * 512);
}

#[test]
fn parse_records_fails_on_the_first_malformed_line() {
    let lines = vec![
        String::from("8 0 sda 100 5 51200 10 20 2 10240 20"),
        String::from("8 1 sda1 oops 0 64 1 3 0 32 2"),
    ];
    let err = parse_records(&lines).unwrap_err();
    assert_eq!(err.kind(), ErrorKind::ParseInt);
}

#[test]
fn parse_records_of_no_lines_is_empty() {
    let recs = parse_records(&Vec::new()).unwrap();
    assert!(recs.is_empty());
}

#[test]
fn stream_yields_each_record_on_demand_then_ends() {
    let lines = vec![
        String::from("8 0 sda 100 5 51200 10 20 2 10240 20"),
        String::from("8 1 sda1 7 0 64 1 3 0 32 2"),
    ];
    let mut en = CounterStream::from_lines(lines);
    let first = en.next().unwrap().unwrap();
    assert_eq!(first.device_name(), "sda");
    let second = en.next().unwrap().unwrap();
    assert_eq!(second.device_name(), "sda1");
    assert!(en.next().is_none());
    // Exhausted and not restartable.
    assert!(en.next().is_none());
}

#[test]
fn stream_ends_at_the_first_malformed_line() {
    let lines = vec![
        String::from("8 0 sda 100 5 51200 10 20 2 10240 20"),
        String::from("this is no counter line"),
        String::from("8 1 sda1 7 0 64 1 3 0 32 2"),
    ];
    let mut en = CounterStream::from_lines(lines);
    assert!(en.next().unwrap().is_ok());
    let err = en.next().unwrap().unwrap_err();
    assert_eq!(err.kind(), ErrorKind::Parse);
    // The failure terminates the enumeration: nothing follows it.
    assert!(en.next().is_none());
}

#[test]
fn stream_of_missing_source_does_not_open() {
    match CounterStream::open("/definitely/not/a/kernel/table") {
        Ok(_) => panic!("a missing source must not open"),
        Err(err) => assert_eq!(err.kind(), ErrorKind::Io),
    }
}

#[test]
fn missing_source_fails_immediately_with_io_error() {
    let err = io_counters_from("/definitely/not/a/kernel/table").unwrap_err();
    assert_eq!(err.kind(), ErrorKind::Io);
    let err = io_counters_physical_from("/definitely/not/a/kernel/table").unwrap_err();
    assert_eq!(err.kind(), ErrorKind::Io);
    let err = read_source("/definitely/not/a/kernel/table").unwrap_err();
    assert_eq!(err.kind(), ErrorKind::Io);
}

#[test]
fn filter_stage_keeps_flagged_records_in_order() {
    let lines = vec![
        String::from("8 0 sda 100 5 51200 10 20 2 10240 20"),
        String::from("8 1 sda1 7 0 64 1 3 0 32 2"),
        String::from("8 16 sdb 9 1 128 2 4 1 64 3"),
    ];
    let recs = parse_records(&lines).unwrap();
    let keep = vec![true, false, true];
    let kept = apply_filter(recs, &keep);
    assert_eq!(kept.len(), 2);
    assert_eq!(kept[0].device_name(), "sda");
    assert_eq!(kept[1].device_name(), "sdb");

    // Filtering what was already kept, with every flag true, changes
    // nothing: the filter removes elements and does nothing else.
    let again = apply_filter(kept, &vec![true, true]);
    assert_eq!(again.len(), 2);
    assert_eq!(again[0].device_name(), "sda");
    assert_eq!(again[1].device_name(), "sdb");
}

#[test]
fn physical_devices_are_a_subsequence_of_all_devices() {
    // Live kernel data: only the subset-and-order relation is stable.
    if let Ok(all) = io_counters_from("/proc/diskstats") {
        let physical = io_counters_physical_from("/proc/diskstats").unwrap();
        let all_names: Vec<String> = all
            .iter()
            .map(|r| r.device_name().to_string())
            .collect();
        let mut next: usize = 0;
        for rec in &physical {
            let name = rec.device_name().to_string();
            while next < all_names.len() && all_names[next] != name {
                next += 1;
            }
            assert!(next < all_names.len(), "record not in the full sequence in order");
            next += 1;
        }
    }
}

#[test]
fn clock_ticks_is_positive_on_this_machine() {
    let ticks = clock_ticks().unwrap();
    assert!(ticks > 0);
}

#[test]
fn calibration_is_invariant_across_accesses() {
    let mut cell = ClockTicks::new();
    let first = cell.get().unwrap();
    let second = cell.get().unwrap();
    let third = cell.get().unwrap();
    assert_eq!(first, second);
    assert_eq!(second, third);
    assert_eq!(cell.cached_value(), Some(first));
}

#[test]
fn failed_query_is_fatal_and_caches_nothing() {
    assert_eq!(clock_ticks_from(-1).unwrap_err().kind(), ErrorKind::Io);
    assert_eq!(clock_ticks_from(0).unwrap_err().kind(), ErrorKind::Io);
    assert_eq!(clock_ticks_from(100).unwrap(), 100);

    let mut cell = ClockTicks::new();
    let err = cell.settle(-1).unwrap_err();
    assert_eq!(err.kind(), ErrorKind::Io);
    assert_eq!(cell.cached_value(), None);
    // A later access attempts the query again and may now succeed.
    assert_eq!(cell.settle(100).unwrap(), 100);
    assert_eq!(cell.cached_value(), Some(100));
    assert_eq!(cell.get().unwrap(), 100);
}

#[test]
fn provider_exposes_the_same_operations() {
    let provider = LinuxProvider;
    let ticks = provider.clock_ticks().unwrap();
    assert!(ticks > 0);
    // The enumerations go through the same verified pipeline.
    let full = provider.io_counters();
    let physical = provider.io_counters_physical();
    assert_eq!(full.is_ok(), physical.is_ok());
}
