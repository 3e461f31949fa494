//! The download request grammar.
//!
//! A download request body is the bytes the client sends after the command
//! byte, read up to and including the first terminator byte `|`. The grammar
//! is `filename=<name>|`, where `<name>` is a nonempty run of bytes
//! excluding the terminator. Matching is leftmost-first over the whole
//! buffer: the earliest position where the full pattern matches wins, and
//! the name runs from right after the marker to the first terminator after
//! it. Everything beyond the matched terminator is ignored.

use vstd::prelude::*;
use vstd::slice::{slice_subrange, slice_to_vec};
use crate::error::FileServerError;

verus! {

/// The byte that terminates a request: `|`.
pub const TERMINATOR: u8 = 124;

/// The bytes of the marker `filename=`.
pub open spec fn marker() -> Seq<u8> {
    seq![102u8, 105u8, 108u8, 101u8, 110u8, 97u8, 109u8, 101u8, 61u8]
}

/// The marker `filename=` stands at position `i` of `b`.
pub open spec fn spec_marker_at(b: Seq<u8>, i: int) -> bool {
    &&& 0 <= i
    &&& i + 9 <= b.len()
    &&& b.subrange(i, i + 9) == marker()
}

/// The full pattern matches at position `i` with its terminator at `j`: the
/// marker, then at least one byte, none of them the terminator, then the
/// terminator itself.
pub open spec fn spec_match_range(b: Seq<u8>, i: int, j: int) -> bool {
    &&& spec_marker_at(b, i)
    &&& i + 9 < j < b.len()
    &&& b[j] == TERMINATOR
    &&& forall|k: int| i + 9 <= k < j ==> b[k] != TERMINATOR
}

/// The full pattern matches starting at position `i`.
pub open spec fn spec_matches_at(b: Seq<u8>, i: int) -> bool {
    exists|j: int| spec_match_range(b, i, j)
}

/// Some position of `b` starts a full match of the request grammar.
pub open spec fn spec_has_request(b: Seq<u8>) -> bool {
    exists|i: int| spec_matches_at(b, i)
}

/// The marker `filename=` stands at position `i` of `buf`.
fn is_marker_at(buf: &[u8], i: usize) -> (r: bool)
    requires
        i + 9 <= buf@.len(),
    ensures
        r == spec_marker_at(buf@, i as int),
{
    let r = buf[i] == 102 && buf[i + 1] == 105 && buf[i + 2] == 108 && buf[i + 3] == 101 && buf[i
        + 4] == 110 && buf[i + 5] == 97 && buf[i + 6] == 109 && buf[i + 7] == 101 && buf[i + 8]
        == 61;
    proof {
        let s = buf@.subrange(i as int, i as int + 9);
        assert(s[0] == buf@[i as int]);
        assert(s[1] == buf@[i as int + 1]);
        assert(s[2] == buf@[i as int + 2]);
        assert(s[3] == buf@[i as int + 3]);
        assert(s[4] == buf@[i as int + 4]);
        assert(s[5] == buf@[i as int + 5]);
        assert(s[6] == buf@[i as int + 6]);
        assert(s[7] == buf@[i as int + 7]);
        assert(s[8] == buf@[i as int + 8]);
        if r {
            assert(s =~= marker());
        }
    }
    r
}

/// The position of the first terminator byte at or after `start`, if any.
fn find_terminator_from(buf: &[u8], start: usize) -> (r: Option<usize>)
    requires
        start <= buf@.len(),
    ensures
        match r {
            Some(j) => start <= j < buf@.len() && buf@[j as int] == TERMINATOR && forall|k: int|
                start <= k < j ==> buf@[k] != TERMINATOR,
            None => forall|k: int| start <= k < buf@.len() ==> buf@[k] != TERMINATOR,
        },
{
    let n = buf.len();
    let mut j = start;
    while j < n
        invariant
            start <= j <= n,
            n == buf@.len(),
            forall|k: int| start <= k < j ==> buf@[k] != TERMINATOR,
        decreases n - j,
    {
        if buf[j] == TERMINATOR {
            return Some(j);
        }
        j += 1;
    }
    None
}

/// Parse the filename out of a request body.
///
/// Returns the name captured by the leftmost full match of
/// `filename=<name>|`, or a `FailedToParseRequest` when no position of the
/// buffer starts one.
pub fn extract_file_name(buf: &[u8]) -> (r: Result<Vec<u8>, FileServerError>)
    ensures
        match r {
            Ok(name) => {
                &&& exists|i: int, j: int|
                    {
                        &&& #[trigger] spec_match_range(buf@, i, j)
                        &&& name@ == buf@.subrange(i + 9, j)
                        &&& forall|i2: int| 0 <= i2 < i ==> !spec_matches_at(buf@, i2)
                    }
                &&& spec_has_request(buf@)
            },
            Err(e) => {
                &&& e matches FileServerError::FailedToParseRequest(m) && m@
                    == "file name not found"@
                &&& !spec_has_request(buf@)
            },
        },
{
    let n = buf.len();
    if n >= 9 {
        let mut i: usize = 0;
        while i <= n - 9
            invariant
                n == buf@.len(),
                9 <= n,
                i <= n - 9 + 1,
                forall|i2: int| 0 <= i2 < i ==> !spec_matches_at(buf@, i2),
            decreases n - i,
        {
            if is_marker_at(buf, i) {
                match find_terminator_from(buf, i + 9) {
                    Some(j) => {
                        if j > i + 9 {
                            // the leftmost full match: capture the name
                            let name = slice_to_vec(slice_subrange(buf, i + 9, j));
                            proof {
                                assert(spec_match_range(buf@, i as int, j as int));
                                assert(spec_matches_at(buf@, i as int));
                                assert(spec_has_request(buf@));
                            }
                            return Ok(name);
                        } else {
                            // empty capture: the terminator sits right after
                            // the marker, so no match starts here
                            proof {
                                assert forall|j2: int| !spec_match_range(buf@, i as int, j2) by {
                                    if spec_match_range(buf@, i as int, j2) {
                                        assert(buf@[i as int + 9] != TERMINATOR);
                                    }
                                }
                                assert(!spec_matches_at(buf@, i as int));
                            }
                        }
                    },
                    None => {
                        // no terminator anywhere after the marker: no match
                        // can start here or anywhere later
                        proof {
                            assert forall|i2: int| !spec_matches_at(buf@, i2) by {
                                if spec_matches_at(buf@, i2) {
                                    let j2 = choose|j2: int| spec_match_range(buf@, i2, j2);
                                    if i2 < i {
                                        assert(!spec_matches_at(buf@, i2));
                                    } else {
                                        assert(i as int + 9 <= j2 < buf@.len());
                                        assert(buf@[j2] != TERMINATOR);
                                    }
                                }
                            }
                        }
                        return Err(
                            FileServerError::FailedToParseRequest("file name not found".to_owned()),
                        );
                    },
                }
            } else {
                // the marker is absent here, so nothing matches here
                proof {
                    assert(!spec_matches_at(buf@, i as int));
                }
            }
            i += 1;
        }
        proof {
            assert forall|i2: int| !spec_matches_at(buf@, i2) by {
                if spec_matches_at(buf@, i2) {
                    let j2 = choose|j2: int| spec_match_range(buf@, i2, j2);
                    assert(0 <= i2 && i2 + 9 <= buf@.len());
                    assert(i2 < i);
                }
            }
        }
    } else {
        proof {
            assert forall|i2: int| !spec_matches_at(buf@, i2) by {
                if spec_matches_at(buf@, i2) {
                    let j2 = choose|j2: int| spec_match_range(buf@, i2, j2);
                    assert(i2 + 9 <= buf@.len());
                }
            }
        }
    }
    Err(FileServerError::FailedToParseRequest("file name not found".to_owned()))
}

} // verus!
