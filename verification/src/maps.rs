//! The memory-map text source of the syscall-based backend.
//!
//! Each process exposes a line-oriented listing of its virtual memory
//! regions, one region per line, of the form
//! `start-end perms offset dev inode [pathname]` with `start` and `end` as
//! hexadecimal addresses. Only two readings of it exist here: whether a
//! line, trimmed, ends with a queried name, and the `start` field of a
//! matching line. The surrounding platform layer delivers the lines as raw
//! bytes; everything that interprets them stands here, verified.
//!
//! Lines of this source are ASCII, so trimming strips the ASCII whitespace
//! bytes, and a name is matched byte for byte against the line's tail.

use crate::LinuxProcess;
use vstd::prelude::*;

verus! {

/// The ASCII whitespace bytes: space, tab, line feed, vertical tab, form
/// feed and carriage return.
pub open spec fn is_ascii_whitespace(b: u8) -> bool {
    b == 32 || (9 <= b <= 13)
}

/// `s` without its leading whitespace.
pub open spec fn trim_front(s: Seq<u8>) -> Seq<u8>
    decreases s.len(),
{
    if s.len() > 0 && is_ascii_whitespace(s[0]) {
        trim_front(s.skip(1))
    } else {
        s
    }
}

/// `s` without its trailing whitespace.
pub open spec fn trim_back(s: Seq<u8>) -> Seq<u8>
    decreases s.len(),
{
    if s.len() > 0 && is_ascii_whitespace(s.last()) {
        trim_back(s.drop_last())
    } else {
        s
    }
}

/// `s` without leading and trailing whitespace.
///
/// Trimming is byte-level and strips ASCII whitespace only: the kernel
/// formats this source in ASCII, so no other whitespace can occur in it.
pub open spec fn trimmed(s: Seq<u8>) -> Seq<u8> {
    trim_back(trim_front(s))
}

/// Whether `s` ends with `suffix`.
pub open spec fn ends_with(s: Seq<u8>, suffix: Seq<u8>) -> bool {
    suffix.len() <= s.len() && s.skip((s.len() - suffix.len()) as int) == suffix
}

/// Whether a line of the memory-map source, trimmed, ends with the queried
/// name: the suffix match both lookups of this source build on.
pub open spec fn line_matches_spec(line: Seq<u8>, name: Seq<u8>) -> bool {
    ends_with(trimmed(line), name)
}

/// Decides [`line_matches_spec`] on raw bytes.
pub fn line_matches(line: &Vec<u8>, name: &Vec<u8>) -> (r: bool)
    ensures
        r == line_matches_spec(line@, name@),
{
    proof {
        assert(line@.skip(0) =~= line@);
    }
    let mut start: usize = 0;
    while start < line.len() && (line[start] == 32 || (9 <= line[start] && line[start] <= 13))
        invariant
            start <= line@.len(),
            trim_front(line@) == trim_front(line@.skip(start as int)),
        decreases line@.len() - start,
    {
        proof {
            assert(line@.skip(start as int).skip(1) =~= line@.skip(start as int + 1));
        }
        start = start + 1;
    }
    proof {
        assert(trim_front(line@) == line@.skip(start as int));
        assert(line@.skip(start as int) =~= line@.subrange(start as int, line@.len() as int));
    }
    let mut end: usize = line.len();
    while end > start && (line[end - 1] == 32 || (9 <= line[end - 1] && line[end - 1] <= 13))
        invariant
            start <= end <= line@.len(),
            trim_front(line@) == line@.skip(start as int),
            trimmed(line@) == trim_back(line@.subrange(start as int, end as int)),
        decreases end,
    {
        proof {
            assert(line@.subrange(start as int, end as int).drop_last() =~= line@.subrange(
                start as int,
                end as int - 1,
            ));
        }
        end = end - 1;
    }
    let ghost t = line@.subrange(start as int, end as int);
    proof {
        assert(trimmed(line@) == t);
    }
    let m = name.len();
    if end - start < m {
        return false;
    }
    let off = end - m;
    let ghost d = t.len() - name@.len();
    let mut i: usize = 0;
    while i < m
        invariant
            i <= m == name@.len(),
            start <= off == end - m <= end <= line@.len(),
            t == line@.subrange(start as int, end as int),
            t == trimmed(line@),
            d == t.len() - name@.len() >= 0,
            forall|j: int| 0 <= j < i ==> line@[off + j] == name@[j],
        decreases m - i,
    {
        if line[off + i] != name[i] {
            proof {
                assert(t.skip(d)[i as int] == line@[off + i]);
            }
            return false;
        }
        i = i + 1;
    }
    proof {
        assert(t.skip(d) =~= name@);
    }
    true
}

/// Whether `b` is an ASCII hexadecimal digit.
pub open spec fn is_hex_digit(b: u8) -> bool {
    (48 <= b <= 57) || (65 <= b <= 70) || (97 <= b <= 102)
}

/// The value of an ASCII hexadecimal digit, either case.
pub open spec fn hex_digit_value(b: u8) -> nat {
    if 48 <= b <= 57 {
        (b - 48) as nat
    } else if 65 <= b <= 70 {
        (b - 55) as nat
    } else {
        (b - 87) as nat
    }
}

/// Whether every byte of `s` is a hexadecimal digit.
pub open spec fn all_hex_digits(s: Seq<u8>) -> bool {
    forall|i: int| 0 <= i < s.len() ==> is_hex_digit(s[i])
}

/// The number that `s` spells in hexadecimal, most significant digit first.
pub open spec fn hex_value(s: Seq<u8>) -> nat
    decreases s.len(),
{
    if s.len() == 0 {
        0
    } else {
        16 * hex_value(s.drop_last()) + hex_digit_value(s.last())
    }
}

/// The address that `s` spells: present exactly when `s` is a nonempty run
/// of hexadecimal digits whose value fits the host's address width. A sign
/// is not accepted: the `start` field of this source is a bare digit run.
pub open spec fn hex_address(s: Seq<u8>) -> Option<usize> {
    if s.len() > 0 && all_hex_digits(s) && hex_value(s) <= usize::MAX {
        Some(hex_value(s) as usize)
    } else {
        None
    }
}

/// The index of the first `-` in `s`, or `s.len()` when there is none: the
/// `start` field of a map line ends there.
pub open spec fn dash_pos(s: Seq<u8>) -> int
    decreases s.len(),
{
    if s.len() == 0 {
        0
    } else if s[0] == 45 {
        0
    } else {
        1 + dash_pos(s.skip(1))
    }
}

/// What [`dash_pos`] finds: the earliest `-`, with none before it.
proof fn lemma_dash_pos(s: Seq<u8>)
    ensures
        0 <= dash_pos(s) <= s.len(),
        forall|j: int| 0 <= j < dash_pos(s) ==> s[j] != 45,
        dash_pos(s) < s.len() ==> s[dash_pos(s)] == 45,
    decreases s.len(),
{
    if s.len() == 0 {
    } else if s[0] == 45 {
    } else {
        lemma_dash_pos(s.skip(1));
        assert forall|j: int| 0 <= j < dash_pos(s) implies s[j] != 45 by {
            if j > 0 {
                assert(s.skip(1)[j - 1] != 45);
            }
        }
    }
}

/// Dropping the last digit never increases the spelled value.
proof fn lemma_hex_value_prefix(s: Seq<u8>, k: int)
    requires
        0 <= k <= s.len(),
    ensures
        hex_value(s.subrange(0, k)) <= hex_value(s),
    decreases s.len(),
{
    if k < s.len() {
        assert(s.drop_last().subrange(0, k) =~= s.subrange(0, k));
        lemma_hex_value_prefix(s.drop_last(), k);
    } else {
        assert(s.subrange(0, k) =~= s);
    }
}

/// Parses the `start` field of a map line: the leading hexadecimal address,
/// read up to the first `-`. Absent when that prefix is empty, holds a byte
/// that is no hexadecimal digit, or spells a value too wide for an address.
pub fn parse_map_line_address(line: &Vec<u8>) -> (r: Option<usize>)
    ensures
        r == hex_address(line@.subrange(0, dash_pos(line@))),
{
    proof {
        lemma_dash_pos(line@);
    }
    let mut d: usize = 0;
    while d < line.len() && line[d] != 45
        invariant
            d <= line@.len(),
            forall|j: int| 0 <= j < d ==> line@[j] != 45,
        decreases line@.len() - d,
    {
        d = d + 1;
    }
    proof {
        if dash_pos(line@) < d {
            assert(line@[dash_pos(line@)] != 45);
        }
        if dash_pos(line@) > d {
            assert(d < line@.len());
        }
        assert(d == dash_pos(line@));
    }
    let ghost p = line@.subrange(0, d as int);
    if d == 0 {
        return None;
    }
    let mut acc: u128 = 0;
    let mut i: usize = 0;
    while i < d
        invariant
            i <= d <= line@.len(),
            d == dash_pos(line@),
            p == line@.subrange(0, d as int),
            acc as nat == hex_value(p.subrange(0, i as int)),
            acc <= usize::MAX as u128,
            forall|j: int| 0 <= j < i ==> is_hex_digit(p[j]),
        decreases d - i,
    {
        let b = line[i];
        let v: u8 = if 48 <= b && b <= 57 {
            b - 48
        } else if 65 <= b && b <= 70 {
            b - 55
        } else if 97 <= b && b <= 102 {
            b - 87
        } else {
            proof {
                assert(!is_hex_digit(p[i as int]));
            }
            return None;
        };
        acc = acc * 16 + v as u128;
        proof {
            assert(p.subrange(0, i + 1).drop_last() =~= p.subrange(0, i as int));
            assert(p.subrange(0, i + 1).last() == p[i as int]);
        }
        if acc > usize::MAX as u128 {
            proof {
                lemma_hex_value_prefix(p, i + 1);
            }
            return None;
        }
        i = i + 1;
    }
    proof {
        assert(p.subrange(0, i as int) =~= p);
    }
    Some(acc as usize)
}

/// The resolved base address over a sequence of map lines: the parsed
/// `start` field of the first line that matches the module name, absent when
/// no line matches or that first matching line does not parse.
pub open spec fn base_address_spec(lines: Seq<Seq<u8>>, name: Seq<u8>) -> Option<usize>
    decreases lines.len(),
{
    if lines.len() == 0 {
        None
    } else if line_matches_spec(lines[0], name) {
        hex_address(lines[0].subrange(0, dash_pos(lines[0])))
    } else {
        base_address_spec(lines.skip(1), name)
    }
}

/// When no line matches, no base address is resolved.
proof fn lemma_base_address_no_match(lines: Seq<Seq<u8>>, name: Seq<u8>)
    requires
        forall|i: int| 0 <= i < lines.len() ==> !line_matches_spec(lines[i], name),
    ensures
        base_address_spec(lines, name) is None,
    decreases lines.len(),
{
    if lines.len() > 0 {
        assert(!line_matches_spec(lines[0], name));
        assert forall|i: int| 0 <= i < lines.skip(1).len() implies !line_matches_spec(
            lines.skip(1)[i],
            name,
        ) by {
            assert(lines.skip(1)[i] == lines[i + 1]);
        }
        lemma_base_address_no_match(lines.skip(1), name);
    }
}

/// Finds the base address of a named module among the lines of the target's
/// memory-map source: the first line whose trimmed content ends with
/// `module_name` decides, and its leading hexadecimal `start` field is the
/// answer. A module not present in the target yields an absent value, never
/// an error.
pub fn base_address_in_maps(lines: &Vec<Vec<u8>>, module_name: &Vec<u8>) -> (r: Option<usize>)
    ensures
        r == base_address_spec(lines.deep_view(), module_name@),
        (forall|i: int|
            0 <= i < lines@.len() ==> !line_matches_spec(lines.deep_view()[i], module_name@))
            ==> r is None,
{
    let ghost dv = lines.deep_view();
    proof {
        assert(dv.len() == lines@.len());
        assert(dv.skip(0) =~= dv);
    }
    let n = lines.len();
    let mut i: usize = 0;
    while i < n
        invariant
            i <= n == lines@.len(),
            dv == lines.deep_view(),
            dv.len() == lines@.len(),
            base_address_spec(dv, module_name@) == base_address_spec(
                dv.skip(i as int),
                module_name@,
            ),
            forall|j: int| 0 <= j < i ==> !line_matches_spec(dv[j], module_name@),
        decreases n - i,
    {
        proof {
            assert(dv[i as int] == lines@[i as int].deep_view());
            assert(lines@[i as int].deep_view() =~= lines@[i as int]@);
        }
        if line_matches(&lines[i], module_name) {
            return parse_map_line_address(&lines[i]);
        }
        proof {
            assert(dv.skip(i as int)[0] == dv[i as int]);
            assert(dv.skip(i as int).skip(1) =~= dv.skip(i as int + 1));
        }
        i = i + 1;
    }
    proof {
        lemma_base_address_no_match(dv, module_name@);
    }
    None
}

} // verus!
