//! The ownership heuristic: does the clipboard's new content look like a
//! capture of the trusted screenshot tool?

use vstd::prelude::*;
use vstd::string::*;

verus! {

/// The executable that hosts the screenshot tool.
pub const EXPECTED_PROCESS_NAME: &'static str = "svchost.exe";

/// The clipboard format of a device-independent bitmap.
pub const CF_DIB: u32 = 8;

/// Position just after the last `'\\'` among the first `n` characters of
/// `s`; 0 when there is none.
pub open spec fn segment_start_before(s: Seq<char>, n: int) -> int
    decreases n,
{
    if n <= 0 {
        0
    } else if s[n - 1] == '\\' {
        n
    } else {
        segment_start_before(s, n - 1)
    }
}

/// The last segment of a `'\\'`-separated path.
pub open spec fn final_segment(path: Seq<char>) -> Seq<char> {
    path.subrange(segment_start_before(path, path.len() as int), path.len() as int)
}

/// The character code of `c`, with ASCII capitals lowered.
pub open spec fn ascii_lower(c: char) -> u32 {
    if 'A' <= c && c <= 'Z' {
        (c as u32 + 32) as u32
    } else {
        c as u32
    }
}

/// `a` and `b` are equal but for the case of ASCII letters.
pub open spec fn eq_ignore_ascii_case(a: Seq<char>, b: Seq<char>) -> bool {
    a.len() == b.len() && forall|i: int| 0 <= i < a.len() ==> ascii_lower(#[trigger] a[i])
        == ascii_lower(b[i])
}

/// The process-identity signal: the final segment of the owner's executable
/// path is the expected host's name, in any case.
pub open spec fn is_expected_process(image_path: Seq<char>) -> bool {
    eq_ignore_ascii_case(final_segment(image_path), EXPECTED_PROCESS_NAME@)
}

fn lower_code(c: char) -> (r: u32)
    ensures
        r == ascii_lower(c),
{
    if 'A' <= c && c <= 'Z' {
        c as u32 + 32
    } else {
        c as u32
    }
}

/// Whether the executable at `image_path` (a `'\\'`-separated path, as the
/// system reports it) is the process that hosts the screenshot tool.
pub fn process_name_matches(image_path: &str) -> (r: bool)
    ensures
        r == is_expected_process(image_path@),
{
    let len = image_path.unicode_len();
    let mut start = len;
    while start > 0 && image_path.get_char(start - 1) != '\\'
        invariant
            len == image_path@.len(),
            start <= len,
            segment_start_before(image_path@, start as int) == segment_start_before(
                image_path@,
                len as int,
            ),
        decreases start,
    {
        start = start - 1;
    }
    let expected = EXPECTED_PROCESS_NAME;
    let expected_len = expected.unicode_len();
    if len - start != expected_len {
        return false;
    }
    let ghost segment = final_segment(image_path@);
    let mut i: usize = 0;
    while i < expected_len
        invariant
            len == image_path@.len(),
            start <= len,
            start == segment_start_before(image_path@, len as int),
            segment == image_path@.subrange(start as int, len as int),
            expected@ == EXPECTED_PROCESS_NAME@,
            expected_len == expected@.len(),
            len - start == expected_len,
            i <= expected_len,
            forall|j: int| 0 <= j < i ==> ascii_lower(#[trigger] segment[j]) == ascii_lower(
                expected@[j],
            ),
        decreases expected_len - i,
    {
        if lower_code(image_path.get_char(start + i)) != lower_code(expected.get_char(i)) {
            assert(segment[i as int] == image_path@[start + i]);
            return false;
        }
        i = i + 1;
    }
    true
}

/// Whether the clipboard's content is likely a capture of the screenshot
/// tool, from the path of the executable that owns the clipboard and from
/// the first format of the preference list (a bitmap only) that the
/// clipboard offers, if any.
///
/// With `require_format` off, the format signal is left out.
pub fn clipboard_owned_by_snip_and_sketch(
    image_path: &str,
    priority_format: Option<u32>,
    require_format: bool,
) -> (r: bool)
    ensures
        r == (is_expected_process(image_path@) && (!require_format || priority_format is Some)),
{
    let process_name_heuristic = process_name_matches(image_path);
    let format_heuristic = !require_format || priority_format.is_some();
    process_name_heuristic && format_heuristic
}

} // verus!
