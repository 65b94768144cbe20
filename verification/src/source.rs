//! Reading a kernel text source whole: a virtual file opened
//! read-only, read in chunks, and decoded as UTF-8 text.
//!
//! The OS calls stand behind trusted wrappers; the read loop and every
//! decision on what came back are verified.

use vstd::prelude::*;

use crate::errors::{Error, ErrorKind};
use vstd::utf8::{encode_utf8, valid_utf8};

verus! {

/// Largest size, in bytes, accepted of a kernel text source. Kernel
/// counter tables are tiny; a source that keeps growing past this
/// bound is reported as an I/O error rather than read without end.
pub const MAX_SOURCE_BYTES: usize = 1048576;

/// Size of one read request.
const READ_CHUNK_BYTES: usize = 4096;

/// Relies on `nix::fcntl::open` with `O_RDONLY`: opens the file
/// read-only and returns its descriptor, or the failure's description.
#[verifier::external_body]
fn open_read_only(path: &str) -> Result<i32, String> {
    match nix::fcntl::open(path, nix::fcntl::OFlag::O_RDONLY, nix::sys::stat::Mode::empty()) {
        Ok(fd) => Ok(fd),
        Err(e) => Err(String::from(e.desc())),
    }
}

/// Relies on `nix::unistd::read`: reads at most `READ_CHUNK_BYTES`
/// bytes from the descriptor. An empty result means end of file.
#[verifier::external_body]
fn read_some(fd: i32) -> (r: Result<Vec<u8>, String>)
    ensures
        r matches Ok(v) ==> v@.len() <= READ_CHUNK_BYTES,
{
    let mut buf = vec![0u8; READ_CHUNK_BYTES];
    match nix::unistd::read(fd, &mut buf) {
        Ok(n) => {
            buf.truncate(n);
            Ok(buf)
        },
        Err(e) => Err(String::from(e.desc())),
    }
}

/// Relies on `nix::unistd::close`: releases the descriptor.
#[verifier::external_body]
fn close_fd(fd: i32) {
    let _ = nix::unistd::close(fd);
}

/// Relies on `String::from_utf8`: succeeds exactly on valid UTF-8 and
/// returns the text those bytes encode.
#[verifier::external_body]
fn bytes_to_string(v: Vec<u8>) -> (r: Result<String, String>)
    ensures
        r is Ok <==> valid_utf8(v@),
        r matches Ok(s) ==> encode_utf8(s@) == v@,
{
    match String::from_utf8(v) {
        Ok(s) => Ok(s),
        Err(e) => Err(e.to_string()),
    }
}

/// Reads a kernel text source whole and decodes it as text.
///
/// Any failure to open or read the source is an I/O error, reported at
/// once; a source that is not UTF-8 text is a decode error. The source
/// handle is released on every path out.
pub fn read_source(path: &str) -> (r: Result<String, Error>)
    ensures
        r matches Err(e) ==> (e.spec_kind() == ErrorKind::Io || e.spec_kind()
            == ErrorKind::FromUtf8),
{
    let fd = match open_read_only(path) {
        Ok(fd) => fd,
        Err(m) => {
            return Err(Error::with_detail(ErrorKind::Io, m));
        },
    };
    let mut data: Vec<u8> = Vec::new();
    let mut done = false;
    while !done
        invariant
            data@.len() <= MAX_SOURCE_BYTES,
        decreases MAX_SOURCE_BYTES - data@.len(), (if done {
            0int
        } else {
            1int
        }),
    {
        let mut chunk = match read_some(fd) {
            Ok(c) => c,
            Err(m) => {
                close_fd(fd);
                return Err(Error::with_detail(ErrorKind::Io, m));
            },
        };
        if chunk.len() == 0 {
            done = true;
        } else {
            if chunk.len() > MAX_SOURCE_BYTES - data.len() {
                close_fd(fd);
                return Err(Error::with_detail(
                    ErrorKind::Io,
                    String::from_str("kernel text source too large"),
                ));
            }
            data.append(&mut chunk);
        }
    }
    close_fd(fd);
    match bytes_to_string(data) {
        Ok(text) => Ok(text),
        Err(m) => Err(Error::with_detail(ErrorKind::FromUtf8, m)),
    }
}

} // verus!
