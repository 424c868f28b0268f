//! Name and path rules of the file service: upload temporary names, listing
//! filter, mount-path syntax, the storage-permission heuristic and the HTTP
//! `Range` header.

use vstd::prelude::*;
use vstd::string::StringSliceAdditionalSpecFns;
use crate::error::AppError;
use crate::saf_tree::{first_index, lemma_first_index, find_char, absent_from};
use crate::text::{
    chars_end_with, chars_of, chars_range, chars_start_with, lower, parse_u64, parse_u64_spec,
    seq_ends_with, seq_starts_with, to_lower, trim_end_char, trim_end_chars,
};

verus! {

/// Prefix of upload temporary files.
pub const UPLOAD_PART_PREFIX: &'static str = ".bedcode-upload-";
/// Suffix of upload temporary files.
pub const UPLOAD_PART_SUFFIX: &'static str = ".part";

/// Whether a file name is an upload temporary file (`.bedcode-upload-*.part`).
pub fn is_upload_part_name(name: &str) -> (r: bool)
    ensures
        r == (seq_starts_with(name@, ".bedcode-upload-"@) && seq_ends_with(name@, ".part"@)),
{
    let cs = chars_of(name);
    chars_start_with(cs.as_slice(), chars_of(".bedcode-upload-").as_slice()) && chars_end_with(
        cs.as_slice(),
        chars_of(".part").as_slice(),
    )
}

/// Listing filter: every `*.part` temporary file is hidden.
pub fn is_filtered_listing_name(name: &str) -> (r: bool)
    ensures
        r == seq_ends_with(name@, ".part"@),
{
    chars_end_with(chars_of(name).as_slice(), chars_of(".part").as_slice())
}

/// Characters allowed in a mount path.
pub open spec fn mount_char_ok(c: char) -> bool {
    ('a' <= c <= 'z') || ('0' <= c <= '9') || c == '-' || c == '_'
}

/// A mount path is 1 to 64 bytes of `[a-z0-9-_]`.
pub open spec fn mount_path_ok(s: &str) -> bool {
    &&& 0 < (s.spec_bytes().len() as usize) <= 64
    &&& forall|i: int| 0 <= i < s@.len() ==> mount_char_ok(#[trigger] s@[i])
}

/// Validates a mount path (URL-segment safe: `^[a-z0-9-_]+$`, 1 to 64 bytes).
pub fn validate_mount_path(mount_path: &str) -> (r: Result<(), AppError>)
    ensures
        r is Ok <==> mount_path_ok(mount_path),
        r matches Err(e) ==> e is InvalidInput,
{
    let n = mount_path.len();
    if n == 0 || n > 64 {
        return Err(AppError::InvalidInput("mount path must be 1-64 chars".to_string()));
    }
    let cs = chars_of(mount_path);
    let mut i: usize = 0;
    while i < cs.len()
        invariant
            i <= cs.len(),
            cs@ == mount_path@,
            forall|j: int| 0 <= j < i ==> mount_char_ok(#[trigger] cs@[j]),
        decreases cs.len() - i,
    {
        let c = cs[i];
        if !(('a' <= c && c <= 'z') || ('0' <= c && c <= '9') || c == '-' || c == '_') {
            assert(!mount_char_ok(mount_path@[i as int]));
            return Err(AppError::InvalidInput("mount path must match ^[a-z0-9-_]+$".to_string()));
        }
        i += 1;
    }
    Ok(())
}

/// Backslashes replaced by `/`.
pub open spec fn forward_slashes(s: Seq<char>) -> Seq<char> {
    s.map_values(|c: char| if c == '\\' { '/' } else { c })
}

/// Normalized form of a path: forward slashes, no trailing `/`, ASCII lowercase.
pub open spec fn normalized_path(s: Seq<char>) -> Seq<char> {
    lower(trim_end_char(forward_slashes(s), '/'))
}

/// Whether reading `path` may need the all-files access permission: it lies under
/// `/storage/emulated/0` but not under its `android/data` (case-insensitive;
/// both prefixes are ASCII without `k` and end in a digit or `a`, so ASCII
/// lowercasing decides them exactly as Unicode lowercasing does).
pub open spec fn needs_all_files(path: Seq<char>) -> bool {
    let n = normalized_path(path);
    seq_starts_with(n, "/storage/emulated/0"@) && !seq_starts_with(n, "/storage/emulated/0/android/data"@)
}

/// Whether listing `path` may need the all-files access permission (an empty
/// listing there most likely means the permission is missing).
pub fn needs_all_files_access(path: &str) -> (r: bool)
    ensures
        r == needs_all_files(path@),
{
    let cs = chars_of(path);
    let mut fwd: Vec<char> = Vec::new();
    let mut i: usize = 0;
    while i < cs.len()
        invariant
            i <= cs.len(),
            fwd@ == forward_slashes(cs@.take(i as int)),
        decreases cs.len() - i,
    {
        let c = cs[i];
        fwd.push(if c == '\\' { '/' } else { c });
        proof {
            assert(forward_slashes(cs@.take(i + 1)) =~= forward_slashes(cs@.take(i as int)).push(
                if c == '\\' { '/' } else { c },
            ));
        }
        i += 1;
    }
    proof {
        assert(cs@.take(cs.len() as int) =~= cs@);
    }
    let n = to_lower(trim_end_chars(fwd.as_slice(), '/').as_slice());
    chars_start_with(n.as_slice(), chars_of("/storage/emulated/0").as_slice()) && !chars_start_with(
        n.as_slice(),
        chars_of("/storage/emulated/0/android/data").as_slice(),
    )
}

/// Single-range `Range` header: `bytes=<start>-[<end>]` with no `,`; the start
/// must lie inside the file and an end must not precede the start. Numbers
/// follow std's `u64` parsing.
pub open spec fn range_of(value: Seq<char>, file_len: u64) -> Option<(u64, Option<u64>)> {
    if !seq_starts_with(value, "bytes="@) {
        None
    } else {
        let spec = value.skip(6);
        let d = first_index(spec, '-');
        if first_index(spec, ',') >= 0 || d < 0 {
            None
        } else {
            match parse_u64_spec(spec.take(d)) {
                None => None,
                Some(start) => if start >= file_len {
                    None
                } else if spec.len() == d + 1 {
                    Some((start, None))
                } else {
                    match parse_u64_spec(spec.skip(d + 1)) {
                        None => None,
                        Some(end) => if end < start { None } else { Some((start, Some(end))) },
                    }
                },
            }
        }
    }
}

/// Parses a single-range `Range` header against the file length.
pub fn parse_range_header(value: &str, file_len: u64) -> (r: Option<(u64, Option<u64>)>)
    ensures
        r == range_of(value@, file_len),
{
    proof {
        reveal_strlit("bytes=");
    }
    let cs = chars_of(value);
    if !chars_start_with(cs.as_slice(), chars_of("bytes=").as_slice()) {
        return None;
    }
    let spec = chars_range(cs.as_slice(), 6, cs.len());
    assert(spec@ =~= value@.skip(6));
    proof {
        lemma_first_index(spec@, ',');
        lemma_first_index(spec@, '-');
    }
    match find_char(spec.as_slice(), ',', 0) {
        Some(_) => return None,
        None => {},
    }
    let d = match find_char(spec.as_slice(), '-', 0) {
        Some(d) => d,
        None => return None,
    };
    let start_s = chars_range(spec.as_slice(), 0, d);
    assert(start_s@ =~= spec@.take(d as int));
    let start = match parse_u64(start_s.as_slice()) {
        Some(v) => v,
        None => return None,
    };
    if start >= file_len {
        return None;
    }
    if spec.len() == d + 1 {
        return Some((start, None));
    }
    let end_s = chars_range(spec.as_slice(), d + 1, spec.len());
    assert(end_s@ =~= spec@.skip(d + 1));
    let end = match parse_u64(end_s.as_slice()) {
        Some(v) => v,
        None => return None,
    };
    if end < start {
        return None;
    }
    Some((start, Some(end)))
}

} // verus!
