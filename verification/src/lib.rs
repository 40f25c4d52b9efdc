//! Read-only access to the memory of another running process.
//!
//! A process is located by numeric identifier, a loaded module is resolved to
//! its base address, and byte-exact reads of the target's address space are
//! decoded into fixed-width integers, booleans and NUL-terminated strings.
//! The syscall-based backend ([`LinuxProcess`]) lives here in full; the
//! decision logic shared with a handle-based backend stands in [`windows`].

use vstd::prelude::*;

pub mod decode;
pub mod linux;
pub mod maps;
pub mod windows;

pub use linux::open_process;
pub use linux::LinuxProcess;

verus! {

/// Errors that can be caught when trying to read process memory.
///
/// Open, enumerate and resolve operations never produce these: they report
/// absence instead. Errors are reserved for read operations, where the caller
/// must distinguish why a read did not produce the requested bytes.
#[derive(Clone, Copy, Debug, PartialEq, Eq, Structural)]
pub enum MemoryReadError {
    /// The read call itself failed at the given address.
    InaccessibleMemoryAddress { address: usize },
    /// The read call succeeded but returned fewer bytes than requested.
    LessBytesRead { expected: usize, actual: usize },
    /// An underlying OS error, carried as the raw OS error number.
    IOError { code: i32 },
}

impl From<i32> for MemoryReadError {
    /// Wraps a raw OS error number as an I/O error.
    fn from(code: i32) -> (r: MemoryReadError) {
        MemoryReadError::IOError { code }
    }
}

impl vstd::std_specs::convert::FromSpecImpl<i32> for MemoryReadError {
    open spec fn obeys_from_spec() -> bool {
        true
    }

    open spec fn from_spec(code: i32) -> MemoryReadError {
        MemoryReadError::IOError { code }
    }
}

/// What may be reported by a read of `expected` bytes at `address`, whatever
/// the target's memory holds: each error kind carries the right fields.
pub open spec fn valid_read_error(e: MemoryReadError, address: usize, expected: usize) -> bool {
    match e {
        MemoryReadError::InaccessibleMemoryAddress { address: a } => a == address,
        MemoryReadError::LessBytesRead { expected: exp, actual } => exp == expected
            && actual < exp,
        MemoryReadError::IOError { code: _ } => true,
    }
}

/// How a NUL-terminated string read relates to the raw bytes it accumulated:
/// the terminating zero byte is excluded, and the bytes decode as UTF-8 or
/// degrade to the empty string.
pub open spec fn string_read_result(bs: Seq<u8>, chars: Seq<char>) -> bool {
    &&& forall|j: int| 0 <= j < bs.len() ==> bs[j] != 0
    &&& vstd::utf8::valid_utf8(bs) ==> chars == vstd::utf8::decode_utf8(bs)
    &&& !vstd::utf8::valid_utf8(bs) ==> chars == Seq::<char>::empty()
}

/// A string value that some run of zero-free bytes can account for: what a
/// NUL-terminated read promises of its result, whatever the target held.
pub open spec fn string_read_ok(chars: Seq<char>) -> bool {
    exists|bs: Seq<u8>| string_read_result(bs, chars)
}

/// A NUL-terminated read whose very first byte was the terminator
/// accumulated no bytes, and such a read returns exactly the empty string.
pub proof fn lemma_string_read_empty(chars: Seq<char>)
    requires
        string_read_result(Seq::<u8>::empty(), chars),
    ensures
        chars == Seq::<char>::empty(),
{
    assert(vstd::utf8::valid_utf8(Seq::<u8>::empty()));
    assert(vstd::utf8::decode_utf8(Seq::<u8>::empty()) =~= Seq::<char>::empty());
}

/// A fresh byte buffer of the requested length, to be filled by a read.
fn zeroed(n: usize) -> (v: Vec<u8>)
    ensures
        v@.len() == n,
{
    let mut v: Vec<u8> = Vec::new();
    let mut k: usize = 0;
    while k < n
        invariant
            v@.len() == k,
            k <= n,
        decreases n - k,
    {
        v.push(0);
        k = k + 1;
    }
    v
}

/// The capability contract shared by every backend: one raw byte-read
/// primitive, with all typed accessors layered uniformly on top of it, so no
/// backend duplicates decode logic.
///
/// Module resolution (`base_address`) stands apart from this trait: resolving
/// a module reads an OS source, which the surrounding platform layer supplies.
pub trait Process {
    /// Reads exactly `buffer.len()` bytes of the target's memory at `address`
    /// into `buffer`, or reports a structured error. The buffer keeps its
    /// length either way: a read is never silently partial.
    fn read_bytes(&self, address: usize, buffer: &mut Vec<u8>) -> (r: Result<
        (),
        MemoryReadError,
    >)
        ensures
            final(buffer)@.len() == old(buffer)@.len(),
            r matches Err(e) ==> valid_read_error(e, address, old(buffer)@.len() as usize),
    ;

    /// Reads one byte at `address`.
    fn read_u8(&self, address: usize) -> (r: Result<u8, MemoryReadError>)
        ensures
            r matches Err(e) ==> valid_read_error(e, address, 1),
    {
        let mut buffer = zeroed(1);
        match self.read_bytes(address, &mut buffer) {
            Ok(()) => Ok(buffer[0]),
            Err(e) => Err(e),
        }
    }

    /// Reads one byte at `address`; the value is `true` only when the stored
    /// byte is exactly `1` — any other byte, zero or not, reads as `false`.
    fn read_bool(&self, address: usize) -> (r: Result<bool, MemoryReadError>)
        ensures
            r matches Err(e) ==> valid_read_error(e, address, 1),
    {
        match self.read_u8(address) {
            Ok(b) => Ok(crate::decode::decode_bool(b)),
            Err(e) => Err(e),
        }
    }

    /// Reads 4 bytes at `address` and decodes them as a little-endian `u32`.
    fn read_u32(&self, address: usize) -> (r: Result<u32, MemoryReadError>)
        ensures
            r matches Err(e) ==> valid_read_error(e, address, 4),
    {
        let mut buffer = zeroed(4);
        match self.read_bytes(address, &mut buffer) {
            Ok(()) => Ok(crate::decode::decode_u32_le(&buffer)),
            Err(e) => Err(e),
        }
    }

    /// Reads 8 bytes at `address` and decodes them as a little-endian `u64`.
    fn read_u64(&self, address: usize) -> (r: Result<u64, MemoryReadError>)
        ensures
            r matches Err(e) ==> valid_read_error(e, address, 8),
    {
        let mut buffer = zeroed(8);
        match self.read_bytes(address, &mut buffer) {
            Ok(()) => Ok(crate::decode::decode_u64_le(&buffer)),
            Err(e) => Err(e),
        }
    }

    /// Reads 16 bytes at `address` and decodes them as a little-endian `u128`.
    fn read_u128(&self, address: usize) -> (r: Result<u128, MemoryReadError>)
        ensures
            r matches Err(e) ==> valid_read_error(e, address, 16),
    {
        let mut buffer = zeroed(16);
        match self.read_bytes(address, &mut buffer) {
            Ok(()) => Ok(crate::decode::decode_u128_le(&buffer)),
            Err(e) => Err(e),
        }
    }

    /// Reads 4 bytes at `address` and decodes them as a little-endian
    /// two's-complement `i32`.
    fn read_i32(&self, address: usize) -> (r: Result<i32, MemoryReadError>)
        ensures
            r matches Err(e) ==> valid_read_error(e, address, 4),
    {
        let mut buffer = zeroed(4);
        match self.read_bytes(address, &mut buffer) {
            Ok(()) => Ok(crate::decode::decode_i32_le(&buffer)),
            Err(e) => Err(e),
        }
    }

    /// Reads 8 bytes at `address` and decodes them as a little-endian
    /// two's-complement `i64`.
    fn read_i64(&self, address: usize) -> (r: Result<i64, MemoryReadError>)
        ensures
            r matches Err(e) ==> valid_read_error(e, address, 8),
    {
        let mut buffer = zeroed(8);
        match self.read_bytes(address, &mut buffer) {
            Ok(()) => Ok(crate::decode::decode_i64_le(&buffer)),
            Err(e) => Err(e),
        }
    }

    /// Reads bytes one at a time starting at `address` until the first zero
    /// byte, which is excluded, and decodes the accumulated run as UTF-8,
    /// substituting the empty string when it is not a valid encoding. There
    /// is no length bound: the read goes on until a terminator or a failing
    /// read stops it.
    fn read_string(&self, address: usize) -> (r: Result<String, MemoryReadError>)
        ensures
            r matches Ok(s) ==> string_read_ok(s@),
            r matches Err(MemoryReadError::LessBytesRead { expected, actual }) ==> expected == 1
                && actual == 0,
            r matches Err(MemoryReadError::InaccessibleMemoryAddress { address: a }) ==> a
                >= address,
    {
        let mut buffer: Vec<u8> = Vec::new();
        let mut index: usize = 0;
        loop
            invariant
                forall|j: int| 0 <= j < buffer@.len() ==> buffer@[j] != 0,
            decreases usize::MAX - index,
        {
            if usize::MAX - address < index {
                // The next byte would lie past the last address of the
                // address space, so no read can reach it; the boundary is
                // reported as the inaccessible location.
                return Err(MemoryReadError::InaccessibleMemoryAddress { address: usize::MAX });
            }
            let ch = match self.read_u8(address + index) {
                Ok(c) => c,
                Err(e) => return Err(e),
            };
            if ch == 0 {
                break ;
            }
            buffer.push(ch);
            if index == usize::MAX {
                return Err(MemoryReadError::InaccessibleMemoryAddress { address: usize::MAX });
            }
            index = index + 1;
        }
        let ghost bs = buffer@;
        let s = crate::decode::bytes_to_string_or_empty(buffer);
        proof {
            assert(string_read_result(bs, s@));
            assert(string_read_ok(s@));
        }
        Ok(s)
    }
}

} // verus!
