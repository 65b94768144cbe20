use heim::counters::probe_path;
use heim::parse::{parse_u64, split_columns, split_into_lines};
use heim::{Error, ErrorKind, Information, IoCounters, Time};

#[test]
fn well_formed_line_round_trips_each_field() {
    let line = "8 0 sda 100 5 51200 10 20 2 10240 20";
    let rec = IoCounters::from_str(line).unwrap();
    assert_eq!(rec.device_name(), "sda");
    assert_eq!(rec.read_count, 100);
    assert_eq!(rec.read_merged_count, 5);
    assert_eq!(rec.read_bytes.get(), 51200 * 512);
    assert_eq!(rec.write_count, 20);
    assert_eq!(rec.write_merged_count, 2);
    assert_eq!(rec.write_bytes.get(), 10240 * 512);
    assert_eq!(rec.busy_time.get(), 20);
}

#[test]
fn newer_kernel_columns_are_ignored() {
    let line = "8 0 sda 100 5 51200 10 20 2 10240 20 0 30 40 1 2 3 4";
    let rec = IoCounters::from_str(line).unwrap();
    assert_eq!(rec.device_name(), "sda");
    assert_eq!(rec.read_count, 100);
    assert_eq!(rec.read_bytes.get(), 51200 * 512);
    assert_eq!(rec.write_bytes.get(), 10240 * 512);
    assert_eq!(rec.busy_time.get(), 20);
}

#[test]
fn sector_counts_scale_by_512_bytes() {
    let line = "8 16 sdb 1 0 100 0 1 0 100 5";
    let rec = IoCounters::from_str(line).unwrap();
    assert_eq!(rec.read_bytes.get(), 51200);
    assert_eq!(rec.write_bytes.get(), 51200);
}

#[test]
fn extra_whitespace_is_no_failure() {
    let line = "   8  0\tsda  100 5 51200 10 20 2 10240 20  ";
    let rec = IoCounters::from_str(line).unwrap();
    assert_eq!(rec.device_name(), "sda");
    assert_eq!(rec.busy_time.get(), 20);
}

#[test]
fn short_line_fails_with_structural_error() {
    let line = "8 0 sda 100";
    let err = IoCounters::from_str(line).unwrap_err();
    assert_eq!(err.kind(), ErrorKind::Parse);
    assert_eq!(err.message(), "Unable to parse");
}

#[test]
fn empty_line_fails_with_structural_error() {
    let err = IoCounters::from_str("").unwrap_err();
    assert_eq!(err.kind(), ErrorKind::Parse);
}

#[test]
fn non_numeric_column_fails_with_integer_error() {
    let line = "8 0 sda abc 5 51200 10 20 2 10240 20";
    let err = IoCounters::from_str(line).unwrap_err();
    assert_eq!(err.kind(), ErrorKind::ParseInt);
}

#[test]
fn oversized_column_fails_with_integer_error() {
    let line = "8 0 sda 100 5 99999999999999999999 10 20 2 10240 20";
    let err = IoCounters::from_str(line).unwrap_err();
    assert_eq!(err.kind(), ErrorKind::ParseInt);
}

#[test]
fn sector_scaling_overflow_fails_with_structural_error() {
    // 2^63 sectors fit a u64, but scaling them to bytes does not.
    let line = "8 0 sda 100 5 9223372036854775808 10 20 2 10240 20";
    let err = IoCounters::from_str(line).unwrap_err();
    assert_eq!(err.kind(), ErrorKind::Parse);
}

#[test]
fn split_columns_on_mixed_whitespace() {
    let cols = split_columns(" a  b\tc\r\nd ");
    assert_eq!(cols, vec!["a", "b", "c", "d"]);
}

#[test]
fn split_columns_of_blank_text_is_empty() {
    let cols = split_columns(" \t ");
    assert!(cols.is_empty());
}

#[test]
fn split_into_lines_drops_only_the_trailing_break() {
    assert_eq!(split_into_lines("a\nb\n"), vec!["a", "b"]);
    assert_eq!(split_into_lines("a\n\nb"), vec!["a", "", "b"]);
    assert_eq!(split_into_lines(""), Vec::<String>::new());
    assert_eq!(split_into_lines("\n"), vec![""]);
}

#[test]
fn parse_u64_reads_decimal_numbers_exactly() {
    assert_eq!(parse_u64("0").unwrap(), 0);
    assert_eq!(parse_u64("123").unwrap(), 123);
    assert_eq!(parse_u64("18446744073709551615").unwrap(), u64::MAX);
}

#[test]
fn parse_u64_rejects_what_is_not_a_number() {
    assert_eq!(parse_u64("").unwrap_err().kind(), ErrorKind::ParseInt);
    assert_eq!(parse_u64("12x").unwrap_err().kind(), ErrorKind::ParseInt);
    assert_eq!(parse_u64("-1").unwrap_err().kind(), ErrorKind::ParseInt);
    assert_eq!(
        parse_u64("18446744073709551616").unwrap_err().kind(),
        ErrorKind::ParseInt
    );
}

#[test]
fn probe_path_escapes_slashes() {
    assert_eq!(probe_path("sda"), "/sys/block/sda");
    assert_eq!(probe_path("cciss/c0d0"), "/sys/block/cciss!c0d0");
    assert_eq!(probe_path(""), "/sys/block/");
}

#[test]
fn error_constructors_carry_their_kind() {
    assert_eq!(Error::new(ErrorKind::FromUtf8).kind(), ErrorKind::FromUtf8);
    assert_eq!(Error::last_os_error().kind(), ErrorKind::Io);
    let e = Error::with_detail(ErrorKind::Io, String::from("no such file"));
    assert_eq!(e.message(), "no such file");
}

#[test]
fn unit_tags_keep_their_raw_values() {
    assert_eq!(Information::new(51200).get(), 51200);
    assert_eq!(Time::new(7).get(), 7);
}
