//! Decision logic of the handle-based backend.
//!
//! On that platform a process is opened into a kernel handle, modules are
//! enumerated through snapshot and module-listing calls, and memory is read
//! with one remote-read call per request. Those calls, and the handle's
//! scoped release, live in the platform layer around this library; every
//! decision taken on their results stands here, verified: how one read call
//! resolves to bytes or a structured error, and how a module's reported base
//! name is matched case-insensitively against a query.

use crate::MemoryReadError;
use vstd::prelude::*;

verus! {

/// How one remote-read call of `expected` bytes at `address` resolves: a
/// failing call is an inaccessible address, a short but non-failing call
/// returned fewer bytes than requested, and only the full count succeeds.
pub fn read_bytes_outcome(
    address: usize,
    expected: usize,
    call_succeeded: bool,
    bytes_read: usize,
) -> (r: Result<(), MemoryReadError>)
    ensures
        !call_succeeded ==> r == Err::<(), MemoryReadError>(
            (MemoryReadError::InaccessibleMemoryAddress { address }),
        ),
        call_succeeded && bytes_read != expected ==> r == Err::<(), MemoryReadError>(
            (MemoryReadError::LessBytesRead { expected, actual: bytes_read }),
        ),
        call_succeeded && bytes_read == expected ==> r == Ok::<(), MemoryReadError>(()),
{
    if !call_succeeded {
        Err(MemoryReadError::InaccessibleMemoryAddress { address })
    } else if bytes_read != expected {
        Err(MemoryReadError::LessBytesRead { expected, actual: bytes_read })
    } else {
        Ok(())
    }
}

/// The bytes of a text lowered case-insensitively: what a module name looks
/// like once case is folded away.
pub uninterp spec fn lower_bytes_of(s: Seq<char>) -> Seq<u8>;

/// Folds the case of a name.
///
/// Relies on `str::to_lowercase`: the lowercased text is a function of the
/// characters alone, so two equal names always fold to the same bytes.
#[verifier::external_body]
fn lowercase_bytes(s: &str) -> (r: Vec<u8>)
    ensures
        r@ == lower_bytes_of(s@),
{
    s.to_lowercase().into_bytes()
}

/// Whether two byte runs are equal.
fn bytes_eq(a: &Vec<u8>, b: &Vec<u8>) -> (r: bool)
    ensures
        r == (a@ == b@),
{
    let n = a.len();
    if n != b.len() {
        return false;
    }
    let mut i: usize = 0;
    while i < n
        invariant
            i <= n == a@.len() == b@.len(),
            forall|j: int| 0 <= j < i ==> a@[j] == b@[j],
        decreases n - i,
    {
        if a[i] != b[i] {
            return false;
        }
        i = i + 1;
    }
    proof {
        assert(a@ =~= b@);
    }
    true
}

/// Whether a module's reported base name matches the queried module name
/// with case folded away: the case-insensitive comparison that module
/// resolution on the handle-based backend decides by.
pub fn module_name_matches(base_name: &str, module_name: &str) -> (r: bool)
    ensures
        r == (lower_bytes_of(base_name@) == lower_bytes_of(module_name@)),
{
    let a = lowercase_bytes(base_name);
    let b = lowercase_bytes(module_name);
    bytes_eq(&a, &b)
}

/// One entry of a process snapshot, as the platform layer hands it in: the
/// process's identifier and the bytes of its executable file name.
pub struct SnapshotEntry {
    pub pid: u32,
    pub exe_name: Vec<u8>,
}

/// The identifiers of the processes that a name-based enumeration on the
/// handle-based backend selects, in snapshot order: those entries whose
/// executable file name equals the queried name exactly — not the
/// case-insensitive or suffix match of the other lookups.
pub open spec fn snapshot_matched_pids(entries: Seq<SnapshotEntry>, name: Seq<u8>) -> Seq<u32>
    decreases entries.len(),
{
    if entries.len() == 0 {
        Seq::empty()
    } else {
        let rest = snapshot_matched_pids(entries.skip(1), name);
        if entries[0].exe_name@ == name {
            seq![entries[0].pid] + rest
        } else {
            rest
        }
    }
}

/// Selection distributes over splitting the snapshot.
proof fn lemma_snapshot_matched_concat(a: Seq<SnapshotEntry>, b: Seq<SnapshotEntry>, name: Seq<u8>)
    ensures
        snapshot_matched_pids(a + b, name) == snapshot_matched_pids(a, name)
            + snapshot_matched_pids(b, name),
    decreases a.len(),
{
    if a.len() == 0 {
        assert(a + b =~= b);
        assert(snapshot_matched_pids(a, name) + snapshot_matched_pids(b, name)
            =~= snapshot_matched_pids(b, name));
    } else {
        assert((a + b).skip(1) =~= a.skip(1) + b);
        lemma_snapshot_matched_concat(a.skip(1), b, name);
        assert((a + b)[0] == a[0]);
        if a[0].exe_name@ == name {
            assert(seq![a[0].pid] + (snapshot_matched_pids(a.skip(1), name)
                + snapshot_matched_pids(b, name)) =~= (seq![a[0].pid] + snapshot_matched_pids(
                a.skip(1),
                name,
            )) + snapshot_matched_pids(b, name));
        }
    }
}

/// Selection of a single entry, spelled out.
proof fn lemma_snapshot_matched_single(e: SnapshotEntry, name: Seq<u8>)
    ensures
        snapshot_matched_pids(seq![e], name) == (if e.exe_name@ == name {
            seq![e.pid]
        } else {
            Seq::<u32>::empty()
        }),
{
    let s = seq![e];
    assert(s.skip(1) =~= Seq::<SnapshotEntry>::empty());
    assert(snapshot_matched_pids(Seq::<SnapshotEntry>::empty(), name) == Seq::<u32>::empty());
    assert(s[0] == e);
    if e.exe_name@ == name {
        assert(seq![e.pid] + Seq::<u32>::empty() =~= seq![e.pid]);
    }
}

/// When no entry's executable name equals the query, nothing is selected.
proof fn lemma_snapshot_matched_none(entries: Seq<SnapshotEntry>, name: Seq<u8>)
    requires
        forall|i: int| 0 <= i < entries.len() ==> entries[i].exe_name@ != name,
    ensures
        snapshot_matched_pids(entries, name).len() == 0,
    decreases entries.len(),
{
    if entries.len() > 0 {
        assert forall|i: int| 0 <= i < entries.skip(1).len() implies entries.skip(1)[i].exe_name@
            != name by {
            assert(entries.skip(1)[i] == entries[i + 1]);
        }
        lemma_snapshot_matched_none(entries.skip(1), name);
    }
}

/// Selects, in snapshot order, the identifiers of every process whose
/// executable file name equals `name` exactly. A snapshot with no matching
/// entry gives an empty sequence, never an error.
pub fn matching_snapshot_pids(entries: &Vec<SnapshotEntry>, name: &Vec<u8>) -> (r: Vec<u32>)
    ensures
        r@ == snapshot_matched_pids(entries@, name@),
        (forall|i: int| 0 <= i < entries@.len() ==> entries@[i].exe_name@ != name@) ==> r@.len()
            == 0,
{
    let n = entries.len();
    let mut r: Vec<u32> = Vec::new();
    proof {
        assert(entries@.subrange(0, 0) =~= Seq::<SnapshotEntry>::empty());
    }
    let mut i: usize = 0;
    while i < n
        invariant
            i <= n == entries@.len(),
            r@ == snapshot_matched_pids(entries@.subrange(0, i as int), name@),
        decreases n - i,
    {
        let ghost prefix = entries@.subrange(0, i as int);
        let ghost single = seq![entries@[i as int]];
        proof {
            assert(entries@.subrange(0, i + 1) =~= prefix + single);
            lemma_snapshot_matched_concat(prefix, single, name@);
            lemma_snapshot_matched_single(entries@[i as int], name@);
        }
        if bytes_eq(&entries[i].exe_name, name) {
            r.push(entries[i].pid);
            proof {
                assert(r@ =~= snapshot_matched_pids(prefix, name@) + seq![
                    entries@[i as int].pid,
                ]);
            }
        } else {
            proof {
                assert(snapshot_matched_pids(prefix + single, name@) =~= snapshot_matched_pids(
                    prefix,
                    name@,
                ));
            }
        }
        i = i + 1;
    }
    proof {
        assert(entries@.subrange(0, n as int) =~= entries@);
        if forall|j: int| 0 <= j < entries@.len() ==> entries@[j].exe_name@ != name@ {
            lemma_snapshot_matched_none(entries@, name@);
        }
    }
    r
}

} // verus!
