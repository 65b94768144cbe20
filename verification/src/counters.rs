//! Typed disk I/O counter records, parsed from one line of the
//! kernel's disk counter table.

use vstd::prelude::*;

use crate::errors::{Error, ErrorKind};
use crate::parse::{dec_val, parses_to_u64, split_columns, parse_u64, tokens};
use crate::units::{Information, Time};

verus! {

/// Sector size used by the kernel's counter table. The kernel reports
/// sector counts in units of 512 bytes whatever the hardware sector
/// size is, so byte quantities are raw counts scaled by this constant.
pub const DISK_SECTOR_SIZE: u64 = 512;

/// I/O counters of one disk device: one snapshot, immutable once
/// parsed.
#[derive(Debug)]
pub struct IoCounters {
    /// Device name, for instance `sda`.
    pub name: String,
    /// Reads completed.
    pub read_count: u64,
    /// Writes completed.
    pub write_count: u64,
    /// Bytes read, scaled from the raw sector count.
    pub read_bytes: Information,
    /// Bytes written, scaled from the raw sector count.
    pub write_bytes: Information,
    /// Time the device spent busy with I/O.
    pub busy_time: Time,
    /// Reads merged before reaching the device.
    pub read_merged_count: u64,
    /// Writes merged before reaching the device.
    pub write_merged_count: u64,
}

/// Whether scaling a raw sector count to bytes stays within `u64`.
pub open spec fn scaled_in_range(col: Seq<char>) -> bool {
    DISK_SECTOR_SIZE * dec_val(col) <= u64::MAX
}

/// Whether one line of the kernel's disk counter table is well formed:
/// at least the documented columns, with each consumed column a
/// decimal number whose plain or scaled value fits its target type.
///
/// The columns of the documented layout, in order: device numbers
/// (two columns, skipped), device name, reads completed, reads merged,
/// sectors read, time reading (skipped), writes completed, writes
/// merged, sectors written, busy time. Columns added by newer kernel
/// revisions are ignored, never an error.
pub open spec fn line_parses(s: Seq<char>) -> bool {
    let f = tokens(s);
    &&& f.len() >= 11
    &&& parses_to_u64(f[3])
    &&& parses_to_u64(f[4])
    &&& parses_to_u64(f[5])
    &&& scaled_in_range(f[5])
    &&& parses_to_u64(f[7])
    &&& parses_to_u64(f[8])
    &&& parses_to_u64(f[9])
    &&& scaled_in_range(f[9])
    &&& parses_to_u64(f[10])
}

/// Whether `rec` holds exactly the values of the well-formed line `s`,
/// field by field, with sector counts scaled to bytes.
pub open spec fn record_matches_line(rec: IoCounters, s: Seq<char>) -> bool {
    let f = tokens(s);
    &&& rec.name@ == f[2]
    &&& rec.read_count == dec_val(f[3])
    &&& rec.read_merged_count == dec_val(f[4])
    &&& rec.read_bytes.bytes == DISK_SECTOR_SIZE * dec_val(f[5])
    &&& rec.write_count == dec_val(f[7])
    &&& rec.write_merged_count == dec_val(f[8])
    &&& rec.write_bytes.bytes == DISK_SECTOR_SIZE * dec_val(f[9])
    &&& rec.busy_time.seconds == dec_val(f[10])
}

/// The kind of error a malformed line produces: a structural error for
/// a line with too few columns or a scaled value out of range, and an
/// integer-parse error for the first numeric column that fails,
/// checked in column order.
pub open spec fn line_error_kind(s: Seq<char>) -> ErrorKind {
    let f = tokens(s);
    if f.len() < 11 {
        ErrorKind::Parse
    } else if !parses_to_u64(f[3]) {
        ErrorKind::ParseInt
    } else if !parses_to_u64(f[4]) {
        ErrorKind::ParseInt
    } else if !parses_to_u64(f[5]) {
        ErrorKind::ParseInt
    } else if !scaled_in_range(f[5]) {
        ErrorKind::Parse
    } else if !parses_to_u64(f[7]) {
        ErrorKind::ParseInt
    } else if !parses_to_u64(f[8]) {
        ErrorKind::ParseInt
    } else if !parses_to_u64(f[9]) {
        ErrorKind::ParseInt
    } else if !scaled_in_range(f[9]) {
        ErrorKind::Parse
    } else {
        ErrorKind::ParseInt
    }
}

/// A device name character as it appears in the probe path: the
/// kernel exposes a device under a name with `/` turned into `!`.
pub open spec fn escape_char(c: char) -> char {
    if c == '/' {
        '!'
    } else {
        c
    }
}

/// A device name as it appears under the probe directory.
pub open spec fn escaped_name(name: Seq<char>) -> Seq<char> {
    name.map_values(|c: char| escape_char(c))
}

/// The filesystem path probed to classify a device as physical.
pub open spec fn probe_path_spec(name: Seq<char>) -> Seq<char> {
    "/sys/block/"@ + escaped_name(name)
}

/// Builds the probe path for a device name: the escaped name under the
/// block device directory.
pub fn probe_path(name: &str) -> (r: String)
    ensures
        r@ == probe_path_spec(name@),
{
    let mut out = String::from_str("/sys/block/");
    let n = name.unicode_len();
    let mut i: usize = 0;
    proof {
        assert(out@ + escaped_name(name@.take(0)) =~= out@);
    }
    while i < n
        invariant
            n == name@.len(),
            i <= n,
            out@ == "/sys/block/"@ + escaped_name(name@.take(i as int)),
        decreases n - i,
    {
        let c = name.get_char(i);
        if c == '/' {
            out.append("!");
            proof {
                reveal_strlit("!");
                assert("!"@ =~= seq!['!']);
                assert(escaped_name(name@.take(i as int + 1)) =~= escaped_name(
                    name@.take(i as int),
                ) + seq!['!']);
                assert(("/sys/block/"@ + escaped_name(name@.take(i as int))) + seq!['!'] =~= "/sys/block/"@
                    + escaped_name(name@.take(i as int + 1)));
            }
        } else {
            let piece = name.substring_char(i, i + 1);
            out.append(piece);
            proof {
                assert(piece@ =~= seq![name@[i as int]]);
                assert(escaped_name(name@.take(i as int + 1)) =~= escaped_name(
                    name@.take(i as int),
                ) + seq![name@[i as int]]);
                assert(("/sys/block/"@ + escaped_name(name@.take(i as int))) + seq![name@[i as int]]
                    =~= "/sys/block/"@ + escaped_name(name@.take(i as int + 1)));
            }
        }
        i = i + 1;
    }
    proof {
        assert(name@.take(n as int) =~= name@);
    }
    out
}

/// Relies on `nix::unistd::access` with `F_OK`: returns whether the
/// path names an existing file. A name that cannot form a C path
/// (interior NUL) makes the call fail and counts as absent.
#[verifier::external_body]
fn path_exists(path: &str) -> bool {
    nix::unistd::access(path, nix::unistd::AccessFlags::F_OK).is_ok()
}

impl IoCounters {
    /// Whether this record names a physical storage device, decided by
    /// a blocking existence check of the probe path derived from the
    /// device name. The result depends on the live filesystem, so
    /// nothing more is promised of it.
    pub fn is_storage_device(&self) -> bool {
        let path = probe_path(self.name.as_str());
        path_exists(path.as_str())
    }

    /// The name of the device these counters belong to.
    pub fn device_name(&self) -> (r: &str)
        ensures
            r@ == self.name@,
    {
        self.name.as_str()
    }

    /// Parses one line of the kernel's disk counter table.
    ///
    /// Succeeds exactly on well-formed lines and then returns each
    /// column at its typed value; any malformed line gives a parse
    /// error naming what failed, never a partial record.
    pub fn from_str(s: &str) -> (r: Result<IoCounters, Error>)
        ensures
            line_parses(s@) ==> (r matches Ok(rec) && record_matches_line(rec, s@)),
            !line_parses(s@) ==> (r matches Err(e) && e.spec_kind() == line_error_kind(s@)),
    {
        let cols = split_columns(s);
        if cols.len() < 11 {
            return Err(Error::new(ErrorKind::Parse));
        }
        let name = cols[2].clone();
        let read_count = match parse_u64(cols[3].as_str()) {
            Ok(v) => v,
            Err(e) => return Err(e),
        };
        let read_merged_count = match parse_u64(cols[4].as_str()) {
            Ok(v) => v,
            Err(e) => return Err(e),
        };
        let read_sectors = match parse_u64(cols[5].as_str()) {
            Ok(v) => v,
            Err(e) => return Err(e),
        };
        let read_bytes = match read_sectors.checked_mul(DISK_SECTOR_SIZE) {
            Some(b) => Information::new(b),
            None => return Err(Error::new(ErrorKind::Parse)),
        };
        let write_count = match parse_u64(cols[7].as_str()) {
            Ok(v) => v,
            Err(e) => return Err(e),
        };
        let write_merged_count = match parse_u64(cols[8].as_str()) {
            Ok(v) => v,
            Err(e) => return Err(e),
        };
        let write_sectors = match parse_u64(cols[9].as_str()) {
            Ok(v) => v,
            Err(e) => return Err(e),
        };
        let write_bytes = match write_sectors.checked_mul(DISK_SECTOR_SIZE) {
            Some(b) => Information::new(b),
            None => return Err(Error::new(ErrorKind::Parse)),
        };
        let busy_seconds = match parse_u64(cols[10].as_str()) {
            Ok(v) => v,
            Err(e) => return Err(e),
        };
        Ok(IoCounters {
            name,
            read_count,
            write_count,
            read_bytes,
            write_bytes,
            busy_time: Time::new(busy_seconds),
            read_merged_count,
            write_merged_count,
        })
    }
}

} // verus!
