use crate::error::DownloadError;
use crate::text::{decimal, parse_u64, parsed_u64, push_decimal};
use vstd::prelude::*;
use vstd::string::*;

verus! {

/// What a probe learns of the remote resource.
#[derive(Debug, Clone, Copy, PartialEq, Eq, Structural)]
pub struct RemoteMetadata {
    pub content_length: Option<u64>,
    pub range_supported: bool,
}

/// The unit that a remote names when it serves byte ranges.
pub open spec fn range_unit() -> Seq<char> {
    seq!['b', 'y', 't', 'e', 's']
}

/// Whether `needle` stands in `hay` at offset `at`.
pub open spec fn occurs_at(hay: Seq<char>, needle: Seq<char>, at: int) -> bool {
    &&& 0 <= at
    &&& at + needle.len() <= hay.len()
    &&& hay.subrange(at, at + needle.len()) == needle
}

/// Whether `needle` stands somewhere in `hay`.
pub open spec fn occurs_in(hay: Seq<char>, needle: Seq<char>) -> bool {
    exists|at: int| occurs_at(hay, needle, at)
}

/// Whether a status code reports success: 200 to 299.
pub open spec fn is_success(status: u16) -> bool {
    200 <= status <= 299
}

/// The size that a length header announces, where it is there and spells a
/// number.
pub open spec fn announced_length(header: Option<Seq<char>>) -> Option<u64> {
    match header {
        Some(text) => parsed_u64(text),
        None => None,
    }
}

/// Whether a ranges header announces byte ranges: it is there and names the
/// unit.
pub open spec fn announces_ranges(header: Option<Seq<char>>) -> bool {
    match header {
        Some(text) => occurs_in(text, range_unit()),
        None => false,
    }
}

/// The text of a range header for the bytes from `start` to `end_inclusive`.
pub open spec fn range_header_text(start: u64, end_inclusive: u64) -> Seq<char> {
    "bytes="@ + decimal(start as nat) + "-"@ + decimal(end_inclusive as nat)
}

fn matches_at(hay: &str, needle: &str, at: usize, hay_len: usize, needle_len: usize) -> (found:
    bool)
    requires
        hay_len == hay@.len(),
        needle_len == needle@.len(),
        at + needle_len <= hay_len,
    ensures
        found == occurs_at(hay@, needle@, at as int),
{
    let mut k: usize = 0;
    while k < needle_len
        invariant
            hay_len == hay@.len(),
            needle_len == needle@.len(),
            at + needle_len <= hay_len,
            k <= needle_len,
            forall|j: int| 0 <= j < k ==> hay@[at + j] == needle@[j],
        decreases needle_len - k,
    {
        if hay.get_char(at + k) != needle.get_char(k) {
            proof {
                let part = hay@.subrange(at as int, at + needle_len);
                assert(part[k as int] == hay@[at + k]);
            }
            return false;
        }
        k = k + 1;
    }
    assert(hay@.subrange(at as int, at + needle_len) =~= needle@);
    true
}

/// Whether `needle` stands somewhere in `hay`.
pub fn contains(hay: &str, needle: &str) -> (found: bool)
    ensures
        found == occurs_in(hay@, needle@),
{
    let hay_len: usize = hay.unicode_len();
    let needle_len: usize = needle.unicode_len();
    if needle_len > hay_len {
        return false;
    }
    if needle_len == 0 {
        assert(hay@.subrange(0, 0) =~= needle@);
        assert(occurs_at(hay@, needle@, 0));
        return true;
    }
    let last: usize = hay_len - needle_len;
    let mut at: usize = 0;
    while at <= last
        invariant
            hay_len == hay@.len(),
            needle_len == needle@.len(),
            last == hay_len - needle_len,
            needle_len > 0,
            at <= last + 1,
            forall|j: int| 0 <= j < at ==> !occurs_at(hay@, needle@, j),
        decreases last + 1 - at,
    {
        if matches_at(hay, needle, at, hay_len, needle_len) {
            return true;
        }
        at = at + 1;
    }
    false
}

/// Whether a ranges header announces byte ranges.
pub fn accepts_byte_ranges(header: Option<&str>) -> (supported: bool)
    ensures
        supported == announces_ranges(
            match header {
                Some(text) => Some(text@),
                None => None,
            },
        ),
{
    match header {
        Some(text) => {
            proof {
                reveal_strlit("bytes");
                assert("bytes"@ =~= range_unit());
            }
            contains(text, "bytes")
        },
        None => false,
    }
}

/// The size that a length header announces.
pub fn parse_content_length(header: Option<&str>) -> (length: Option<u64>)
    ensures
        length == announced_length(
            match header {
                Some(text) => Some(text@),
                None => None,
            },
        ),
{
    match header {
        Some(text) => parse_u64(text),
        None => None,
    }
}

impl RemoteMetadata {
    /// Reads the answer to a probe: the status code and the two headers, each
    /// as text where the remote sent it and it is text. A status outside
    /// 200 to 299 is an error that carries the status.
    pub fn from_probe(status: u16, content_length: Option<&str>, accept_ranges: Option<&str>) -> (
        outcome: Result<RemoteMetadata, DownloadError>)
        ensures
            is_success(status) ==> outcome == Ok::<RemoteMetadata, DownloadError>(
                RemoteMetadata {
                    content_length: announced_length(
                        match content_length {
                            Some(text) => Some(text@),
                            None => None,
                        },
                    ),
                    range_supported: announces_ranges(
                        match accept_ranges {
                            Some(text) => Some(text@),
                            None => None,
                        },
                    ),
                },
            ),
            !is_success(status) ==> outcome == Err::<RemoteMetadata, DownloadError>(
                DownloadError::Probe(status),
            ),
    {
        if status < 200 || status > 299 {
            return Err(DownloadError::Probe(status));
        }
        Ok(
            RemoteMetadata {
                content_length: parse_content_length(content_length),
                range_supported: accepts_byte_ranges(accept_ranges),
            },
        )
    }
}

/// The value of the range header that asks for the bytes from `start` to
/// `end_inclusive`.
pub fn range_header(start: u64, end_inclusive: u64) -> (text: String)
    ensures
        text@ == range_header_text(start, end_inclusive),
{
    let mut text = String::from_str("bytes=");
    push_decimal(&mut text, start);
    text.append("-");
    push_decimal(&mut text, end_inclusive);
    text
}

} // verus!
