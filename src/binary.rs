//! Whether a changed file's content is binary: a decision taken in steps,
//! each on what the previous step asked to be looked up.

use vstd::prelude::*;
use vstd::utf8::{encode_scalar, encode_utf8, valid_utf8};

use crate::status::StatusCode;
use crate::text::{lossy_text, lossy_text_of, utf8_text};

verus! {

/// `needle` occurs in `hay`.
pub open spec fn contains_text(hay: Seq<char>, needle: Seq<char>) -> bool {
    exists|i: int| 0 <= i && i + needle.len() <= hay.len() && #[trigger] hay.subrange(i, i + needle.len()) == needle
}

/// Relies on `str::contains` with a `&str` pattern: whether `needle` occurs in `hay`.
#[verifier::external_body]
fn text_contains(hay: &str, needle: &str) -> (r: bool)
    ensures
        r == contains_text(hay@, needle@),
{
    hay.contains(needle)
}

/// The content-type probe reports a binary charset and not an empty file.
pub open spec fn probe_says_binary(report: Seq<char>) -> bool {
    contains_text(report, "charset=binary"@) && !contains_text(report, "inode/x-empty"@)
}

/// Content is binary when it holds a NUL byte or is not valid UTF-8.
pub open spec fn binary_content(content: Seq<u8>) -> bool {
    content.contains(0u8) || !valid_utf8(content)
}

/// The whole policy: a deletion or a missing file is not binary; otherwise
/// the probe's verdict of binary stands, and failing that the content decides.
pub open spec fn binary_verdict(
    status: StatusCode,
    exists: bool,
    probe_stdout: Seq<u8>,
    content: Seq<u8>,
) -> bool {
    if status == StatusCode::Deleted || !exists {
        false
    } else if probe_says_binary(lossy_text_of(probe_stdout)) {
        true
    } else {
        binary_content(content)
    }
}

/// The next step of the decision.
#[derive(Debug, Clone, Copy, PartialEq, Eq, Structural)]
pub enum BinaryCheck {
    /// The decision is taken.
    Known(bool),
    /// Whether the file exists is needed.
    Locate,
    /// The content-type probe's output is needed.
    Probe,
    /// The file's content is needed.
    ReadContent,
}

/// The first step: a deletion is decided at once, with nothing looked up.
pub fn binary_check_start(status: StatusCode) -> (r: BinaryCheck)
    ensures
        status == StatusCode::Deleted ==> r == BinaryCheck::Known(false),
        status != StatusCode::Deleted ==> r == BinaryCheck::Locate,
{
    match status {
        StatusCode::Deleted => BinaryCheck::Known(false),
        _ => BinaryCheck::Locate,
    }
}

/// The step after looking for the file: a missing file is not binary.
pub fn binary_check_located(exists: bool) -> (r: BinaryCheck)
    ensures
        exists ==> r == BinaryCheck::Probe,
        !exists ==> r == BinaryCheck::Known(false),
{
    if exists {
        BinaryCheck::Probe
    } else {
        BinaryCheck::Known(false)
    }
}

/// The step after the probe ran: its report of a binary charset decides.
pub fn binary_check_probed(probe_stdout: &[u8]) -> (r: BinaryCheck)
    ensures
        probe_says_binary(lossy_text_of(probe_stdout@)) ==> r == BinaryCheck::Known(true),
        !probe_says_binary(lossy_text_of(probe_stdout@)) ==> r == BinaryCheck::ReadContent,
{
    let report = lossy_text(probe_stdout);
    if text_contains(report.as_str(), "charset=binary") && !text_contains(
        report.as_str(),
        "inode/x-empty",
    ) {
        BinaryCheck::Known(true)
    } else {
        BinaryCheck::ReadContent
    }
}

/// The last step: the content is binary when it holds a NUL byte or is not
/// valid UTF-8.
pub fn content_is_binary(content: &[u8]) -> (r: bool)
    ensures
        r == binary_content(content@),
{
    let n = content.len();
    let mut i: usize = 0;
    while i < n
        invariant
            0 <= i <= n,
            n == content@.len(),
            forall|j: int| 0 <= j < i ==> content@[j] != 0u8,
        decreases n - i,
    {
        if content[i] == 0u8 {
            assert(content@[i as int] == 0u8);
            return true;
        }
        i += 1;
    }
    utf8_text(content).is_none()
}

/// The decision taken with everything at hand: whether the file exists, the
/// probe's output and the content. Each is consulted only where the policy
/// reaches it.
pub fn is_binary(status: StatusCode, exists: bool, probe_stdout: &[u8], content: &[u8]) -> (r:
    bool)
    ensures
        r == binary_verdict(status, exists, probe_stdout@, content@),
{
    let mut step = binary_check_start(status);
    if let BinaryCheck::Locate = step {
        step = binary_check_located(exists);
    }
    if let BinaryCheck::Probe = step {
        step = binary_check_probed(probe_stdout);
    }
    match step {
        BinaryCheck::Known(b) => b,
        _ => content_is_binary(content),
    }
}

/// A deletion is never binary, and content that holds a NUL byte or is not
/// valid UTF-8 is binary whatever the probe reports. The encoding of any
/// text without a NUL character (an empty file, a file of newlines,
/// multi-byte characters) is not binary content, so such a file is binary
/// only where the probe reports a binary charset for it.
pub proof fn lemma_binary_edge_cases(exists: bool, probe_stdout: Seq<u8>, content: Seq<u8>)
    ensures
        !binary_verdict(StatusCode::Deleted, exists, probe_stdout, content),
        forall|s: StatusCode|
            s != StatusCode::Deleted && exists && binary_content(content)
                ==> #[trigger] binary_verdict(s, exists, probe_stdout, content),
        forall|s: StatusCode|
            !binary_content(content) && !probe_says_binary(lossy_text_of(probe_stdout))
                ==> !#[trigger] binary_verdict(s, exists, probe_stdout, content),
        forall|t: Seq<char>| !t.contains('\0') ==> !binary_content(#[trigger] encode_utf8(t)),
{
    assert forall|t: Seq<char>| !t.contains('\0') implies !binary_content(
        #[trigger] encode_utf8(t),
    ) by {
        lemma_encode_without_nul(t);
    }
}

/// Text without a NUL character encodes to bytes without a zero byte.
proof fn lemma_encode_without_nul(t: Seq<char>)
    requires
        !t.contains('\0'),
    ensures
        !encode_utf8(t).contains(0u8),
        valid_utf8(encode_utf8(t)),
    decreases t.len(),
{
    vstd::utf8::encode_utf8_valid_utf8(t);
    if t.len() > 0 {
        let rest = t.drop_first();
        assert(!rest.contains('\0')) by {
            if rest.contains('\0') {
                let k = choose|k: int| 0 <= k < rest.len() && rest[k] == '\0';
                assert(t[k + 1] == '\0');
            }
        }
        lemma_encode_without_nul(rest);
        let v = t[0] as u32;
        assert(v != 0) by {
            vstd::utf8::char_u32_cast(t[0], v);
            assert(t[0] != '\0');
        }
        let head = encode_scalar(v);
        assert(!head.contains(0u8)) by {
            assert(((v & 0x7F) as u8 != 0) || !(v <= 0x7F)) by (bit_vector)
                requires
                    v != 0,
            ;
            assert(0xC0u8 | ((v >> 6) & 0x1F) as u8 != 0) by (bit_vector);
            assert(0xE0u8 | ((v >> 12) & 0x0F) as u8 != 0) by (bit_vector);
            assert(0xF0u8 | ((v >> 18) & 0x7) as u8 != 0) by (bit_vector);
            assert(0x80u8 | (v & 0x3F) as u8 != 0) by (bit_vector);
            assert(0x80u8 | ((v >> 6) & 0x3F) as u8 != 0) by (bit_vector);
            assert(0x80u8 | ((v >> 12) & 0x3F) as u8 != 0) by (bit_vector);
        }
        assert(encode_utf8(t) == head + encode_utf8(rest));
        let e = encode_utf8(t);
        assert forall|k: int| 0 <= k < e.len() implies e[k] != 0u8 by {
            if k < head.len() {
                assert(e[k] == head[k]);
            } else {
                assert(e[k] == encode_utf8(rest)[k - head.len()]);
            }
        }
    }
}

} // verus!
