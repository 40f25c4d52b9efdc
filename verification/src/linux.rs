//! The syscall-based backend: a process is addressed by its numeric
//! identifier alone, and memory is read with one scatter/gather syscall per
//! request. No persistent OS resource is held, so there is nothing to
//! release.

use crate::valid_read_error;
use crate::MemoryReadError;
use crate::Process;
use vstd::prelude::*;

verus! {

/// An open target process of the syscall-based backend: simply its numeric
/// identifier.
#[derive(Clone, Copy, Debug, PartialEq, Eq, Structural)]
pub struct LinuxProcess {
    pub pid: u32,
}

/// Probes whether the identifier names a running process the caller may
/// access, without touching it.
///
/// Relies on `nix::sys::signal::kill` with no signal: the call performs only
/// the existence and permission checks and sends nothing, succeeding exactly
/// when a process with this identifier runs and may be reached. Whether one
/// does is the system's state at this instant, so nothing is stated of the
/// result. Zero and out-of-range identifiers are kept out: the OS call would
/// read them as a process group or a wrapped number, not a process.
#[verifier::external_body]
fn probe_process(pid: u32) -> bool
    requires
        1 <= pid <= 0x7FFF_FFFF,
{
    nix::sys::signal::kill(nix::unistd::Pid::from_raw(pid as i32), None).is_ok()
}

/// Turns the outcome of an open probe into a handle: a handle exists exactly
/// when the probe reached a running process, and it carries the probed
/// identifier. Opening is a best-effort probe, so a failure is an absent
/// value, never an error.
pub fn open_checked(pid: u32, alive: bool) -> (r: Option<LinuxProcess>)
    ensures
        r is Some <==> alive,
        r matches Some(p) ==> p.pid == pid,
{
    if alive {
        Some(LinuxProcess { pid })
    } else {
        None
    }
}

/// Opens the process with the given identifier: a present handle when the
/// identifier names a running process the caller may reach, an absent value
/// when it does not or access is denied — never an error.
///
/// On this backend the handle holds no OS resource, only the identifier, so
/// opening is a probe and nothing needs releasing.
pub fn open_process(pid: u32) -> (r: Option<LinuxProcess>)
    ensures
        r matches Some(p) ==> p.pid == pid,
{
    // An identifier of zero or above the OS identifier width names no
    // process, so there is nothing to probe.
    let alive = if 1 <= pid && pid <= 0x7FFF_FFFF {
        probe_process(pid)
    } else {
        false
    };
    open_checked(pid, alive)
}

/// Whether every byte of `s` is an ASCII decimal digit.
pub open spec fn all_dec_digits(s: Seq<u8>) -> bool {
    forall|i: int| 0 <= i < s.len() ==> 48 <= #[trigger] s[i] <= 57
}

/// The number that `s` spells in decimal, most significant digit first.
pub open spec fn dec_value(s: Seq<u8>) -> nat
    decreases s.len(),
{
    if s.len() == 0 {
        0
    } else {
        10 * dec_value(s.drop_last()) + (s.last() - 48) as nat
    }
}

/// The process identifier that `s` spells: present exactly when `s` is a
/// nonempty run of decimal digits whose value fits an identifier.
pub open spec fn pid_of_text(s: Seq<u8>) -> Option<u32> {
    if s.len() > 0 && all_dec_digits(s) && dec_value(s) <= u32::MAX {
        Some(dec_value(s) as u32)
    } else {
        None
    }
}

/// Dropping trailing digits never increases the spelled value.
proof fn lemma_dec_value_prefix(s: Seq<u8>, k: int)
    requires
        0 <= k <= s.len(),
    ensures
        dec_value(s.subrange(0, k)) <= dec_value(s),
    decreases s.len(),
{
    if k < s.len() {
        assert(s.drop_last().subrange(0, k) =~= s.subrange(0, k));
        lemma_dec_value_prefix(s.drop_last(), k);
    } else {
        assert(s.subrange(0, k) =~= s);
    }
}

/// Parses the text of a process identifier, as the name of a per-process
/// entry of the OS process listing spells it. An entry whose name is not a
/// plain decimal number is no process entry and parses to an absent value.
pub fn parse_pid(text: &Vec<u8>) -> (r: Option<u32>)
    ensures
        r == pid_of_text(text@),
{
    let n = text.len();
    if n == 0 {
        return None;
    }
    let mut acc: u64 = 0;
    let mut i: usize = 0;
    while i < n
        invariant
            i <= n == text@.len(),
            acc as nat == dec_value(text@.subrange(0, i as int)),
            acc <= u32::MAX as u64,
            forall|j: int| 0 <= j < i ==> 48 <= #[trigger] text@[j] <= 57,
        decreases n - i,
    {
        let b = text[i];
        if b < 48 || b > 57 {
            return None;
        }
        acc = acc * 10 + (b - 48) as u64;
        proof {
            assert(text@.subrange(0, i + 1).drop_last() =~= text@.subrange(0, i as int));
            assert(text@.subrange(0, i + 1).last() == text@[i as int]);
        }
        if acc > u32::MAX as u64 {
            proof {
                lemma_dec_value_prefix(text@, i + 1);
            }
            return None;
        }
        i = i + 1;
    }
    proof {
        assert(text@.subrange(0, i as int) =~= text@);
    }
    Some(acc as u32)
}

/// One entry of the OS process listing, as the platform layer hands it in:
/// the text naming the entry (a process identifier when the entry is one)
/// and the first line of that process's memory-map source.
pub struct MapsEntry {
    pub pid_text: Vec<u8>,
    pub first_line: Vec<u8>,
}

/// The identifiers of the processes that a name-based enumeration opens, in
/// listing order: those entries whose first map line, trimmed, ends with the
/// queried name and whose entry name spells an identifier. Entries that
/// spell no identifier are skipped, not reported as errors.
pub open spec fn matched_pids(entries: Seq<MapsEntry>, name: Seq<u8>) -> Seq<u32>
    decreases entries.len(),
{
    if entries.len() == 0 {
        Seq::empty()
    } else {
        let rest = matched_pids(entries.skip(1), name);
        if crate::maps::line_matches_spec(entries[0].first_line@, name) {
            match pid_of_text(entries[0].pid_text@) {
                Some(p) => seq![p] + rest,
                None => rest,
            }
        } else {
            rest
        }
    }
}

/// Enumeration distributes over splitting the listing.
proof fn lemma_matched_pids_concat(a: Seq<MapsEntry>, b: Seq<MapsEntry>, name: Seq<u8>)
    ensures
        matched_pids(a + b, name) == matched_pids(a, name) + matched_pids(b, name),
    decreases a.len(),
{
    if a.len() == 0 {
        assert(a + b =~= b);
        assert(matched_pids(a, name) + matched_pids(b, name) =~= matched_pids(b, name));
    } else {
        assert((a + b).skip(1) =~= a.skip(1) + b);
        lemma_matched_pids_concat(a.skip(1), b, name);
        assert((a + b)[0] == a[0]);
        if crate::maps::line_matches_spec(a[0].first_line@, name) {
            match pid_of_text(a[0].pid_text@) {
                Some(p) => {
                    assert(seq![p] + (matched_pids(a.skip(1), name) + matched_pids(b, name))
                        =~= (seq![p] + matched_pids(a.skip(1), name)) + matched_pids(b, name));
                },
                None => {},
            }
        }
    }
}

/// Enumeration of a single entry, spelled out.
proof fn lemma_matched_pids_single(e: MapsEntry, name: Seq<u8>)
    ensures
        matched_pids(seq![e], name) == (if crate::maps::line_matches_spec(e.first_line@, name) {
            match pid_of_text(e.pid_text@) {
                Some(p) => seq![p],
                None => Seq::<u32>::empty(),
            }
        } else {
            Seq::<u32>::empty()
        }),
{
    let s = seq![e];
    assert(s.skip(1) =~= Seq::<MapsEntry>::empty());
    assert(matched_pids(Seq::<MapsEntry>::empty(), name) == Seq::<u32>::empty());
    assert(s[0] == e);
    if crate::maps::line_matches_spec(e.first_line@, name) {
        match pid_of_text(e.pid_text@) {
            Some(p) => {
                assert(seq![p] + Seq::<u32>::empty() =~= seq![p]);
            },
            None => {},
        }
    }
}

/// Opens every process of the listing whose first map line matches the
/// queried name, in listing order. A listing with no matching entry gives an
/// empty sequence, never an error.
pub fn find_by_name_in_entries(entries: &Vec<MapsEntry>, name: &Vec<u8>) -> (r: Vec<LinuxProcess>)
    ensures
        r@.map_values(|p: LinuxProcess| p.pid) == matched_pids(entries@, name@),
        (forall|i: int|
            0 <= i < entries@.len() ==> !crate::maps::line_matches_spec(
                entries@[i].first_line@,
                name@,
            )) ==> r@.len() == 0,
{
    let n = entries.len();
    let mut r: Vec<LinuxProcess> = Vec::new();
    proof {
        assert(entries@.subrange(0, 0) =~= Seq::<MapsEntry>::empty());
        assert(r@.map_values(|p: LinuxProcess| p.pid) =~= Seq::<u32>::empty());
    }
    let mut i: usize = 0;
    while i < n
        invariant
            i <= n == entries@.len(),
            r@.map_values(|p: LinuxProcess| p.pid) == matched_pids(
                entries@.subrange(0, i as int),
                name@,
            ),
        decreases n - i,
    {
        let ghost prefix = entries@.subrange(0, i as int);
        let ghost single = seq![entries@[i as int]];
        proof {
            assert(entries@.subrange(0, i + 1) =~= prefix + single);
            lemma_matched_pids_concat(prefix, single, name@);
            lemma_matched_pids_single(entries@[i as int], name@);
        }
        if crate::maps::line_matches(&entries[i].first_line, name) {
            match parse_pid(&entries[i].pid_text) {
                Some(pid) => {
                    // An entry stands in the listing only because this
                    // process's map source was read moments ago: that read
                    // is the existence and access check, so the handle is
                    // taken without a second probe.
                    match open_checked(pid, true) {
                        Some(p) => {
                            let ghost before = r@;
                            r.push(p);
                            proof {
                                assert(r@.map_values(|q: LinuxProcess| q.pid) =~= before.map_values(
                                    |q: LinuxProcess| q.pid,
                                ).push(p.pid));
                                assert(matched_pids(single, name@) =~= seq![pid]);
                                assert(r@.map_values(|q: LinuxProcess| q.pid) =~= matched_pids(
                                    prefix + single,
                                    name@,
                                ));
                            }
                        },
                        None => {
                            proof {
                                assert(false);
                            }
                        },
                    }
                },
                None => {
                    proof {
                        assert(matched_pids(single, name@) =~= Seq::<u32>::empty());
                        assert(matched_pids(prefix + single, name@) =~= matched_pids(
                            prefix,
                            name@,
                        ));
                    }
                },
            }
        } else {
            proof {
                assert(matched_pids(single, name@) =~= Seq::<u32>::empty());
                assert(matched_pids(prefix + single, name@) =~= matched_pids(prefix, name@));
            }
        }
        i = i + 1;
    }
    proof {
        assert(entries@.subrange(0, n as int) =~= entries@);
        if forall|j: int|
            0 <= j < entries@.len() ==> !crate::maps::line_matches_spec(
                entries@[j].first_line@,
                name@,
            ) {
            lemma_matched_pids_no_match(entries@, name@);
        }
    }
    r
}

/// When no entry matches, the enumeration is empty.
proof fn lemma_matched_pids_no_match(entries: Seq<MapsEntry>, name: Seq<u8>)
    requires
        forall|i: int|
            0 <= i < entries.len() ==> !crate::maps::line_matches_spec(
                entries[i].first_line@,
                name,
            ),
    ensures
        matched_pids(entries, name).len() == 0,
    decreases entries.len(),
{
    if entries.len() > 0 {
        assert forall|i: int| 0 <= i < entries.skip(1).len() implies !crate::maps::line_matches_spec(
            entries.skip(1)[i].first_line@,
            name,
        ) by {
            assert(entries.skip(1)[i] == entries[i + 1]);
        }
        lemma_matched_pids_no_match(entries.skip(1), name);
    }
}

/// Issues one scatter/gather read of the target's address space, with a
/// single local/remote vector pair.
///
/// Relies on `nix::sys::uio::process_vm_readv`: it reads at most
/// `buffer.len()` bytes at `address` in the target's memory into the start of
/// `buffer`, returning how many bytes it read, or the raw OS error number of
/// the failed call. What lands in the buffer depends on the target process,
/// so nothing is stated of the contents.
#[verifier::external_body]
fn vm_read(pid: u32, address: usize, buffer: &mut Vec<u8>) -> (r: Result<usize, i32>)
    ensures
        final(buffer)@.len() == old(buffer)@.len(),
        r matches Ok(n) ==> n <= old(buffer)@.len(),
{
    let len = buffer.len();
    let local = &mut buffer[..];
    let mut local_iov = [std::io::IoSliceMut::new(local)];
    let remote_iov = [nix::sys::uio::RemoteIoVec { base: address, len }];
    let pid = nix::unistd::Pid::from_raw(pid as i32);
    match nix::sys::uio::process_vm_readv(pid, &mut local_iov, &remote_iov) {
        Ok(n) => Ok(n),
        Err(e) => Err(std::io::Error::from(e).raw_os_error().unwrap_or(0)),
    }
}

/// How one read syscall of `expected` bytes resolves on this backend: a
/// failed call is an I/O error carrying the OS-reported cause, a count short
/// of `expected` returned fewer bytes than requested, and exactly the full
/// count succeeds. No other outcome exists.
pub fn linux_read_outcome(expected: usize, r: Result<usize, i32>) -> (out: Result<
    (),
    MemoryReadError,
>)
    ensures
        r matches Err(code) ==> out == Err::<(), MemoryReadError>(
            (MemoryReadError::IOError { code }),
        ),
        r matches Ok(n) ==> out == (if n == expected {
            Ok::<(), MemoryReadError>(())
        } else {
            Err::<(), MemoryReadError>((MemoryReadError::LessBytesRead { expected, actual: n }))
        }),
{
    match r {
        Err(code) => Err(MemoryReadError::IOError { code }),
        Ok(n) => {
            if n != expected {
                Err(MemoryReadError::LessBytesRead { expected, actual: n })
            } else {
                Ok(())
            }
        },
    }
}

impl Process for LinuxProcess {
    /// One read syscall, resolved through [`linux_read_outcome`]: `Ok` only
    /// when the call transferred exactly `buffer.len()` bytes, a failing
    /// call as an I/O error with the OS-reported cause, a short but
    /// non-failing read as `LessBytesRead`.
    fn read_bytes(&self, address: usize, buffer: &mut Vec<u8>) -> (r: Result<
        (),
        MemoryReadError,
    >)
        ensures
            final(buffer)@.len() == old(buffer)@.len(),
            r matches Err(e) ==> valid_read_error(e, address, old(buffer)@.len() as usize),
            r matches Err(e) ==> !(e is InaccessibleMemoryAddress),
    {
        let expected = buffer.len();
        let outcome = vm_read(self.pid, address, buffer);
        linux_read_outcome(expected, outcome)
    }
}

} // verus!
