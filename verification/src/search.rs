//! Locating sentinel markers in log content and slicing out the previous
//! command's output.
//!
//! The log is an opaque byte stream; markers are found by substring search
//! from the right. The context of interest runs from the start of the line
//! holding the second-to-last marker up to the start of the line holding the
//! last marker — everything after the last marker belongs to the command
//! still in progress and is excluded — with every marker token removed.

use vstd::prelude::*;

use crate::errors::WtgError;
use crate::log::{marker_bytes, new_command_msg};
use crate::text::copy_range;

verus! {

/// `needle` stands in `hay` at position `i`.
pub open spec fn occurs_at(hay: Seq<u8>, needle: Seq<u8>, i: int) -> bool {
    0 <= i && i + needle.len() <= hay.len() && hay.subrange(i, i + needle.len() as int) == needle
}

/// `needle` stands somewhere in `hay`.
pub open spec fn has_occurrence(hay: Seq<u8>, needle: Seq<u8>) -> bool {
    exists|i: int| occurs_at(hay, needle, i)
}

/// `i` is the rightmost position where `needle` stands in `hay`.
pub open spec fn is_last_occurrence(hay: Seq<u8>, needle: Seq<u8>, i: int) -> bool {
    occurs_at(hay, needle, i) && forall|j: int| i < j ==> !occurs_at(hay, needle, j)
}

/// The rightmost occurrence is unique.
pub proof fn lemma_last_occurrence_unique(hay: Seq<u8>, needle: Seq<u8>, i: int, j: int)
    requires
        is_last_occurrence(hay, needle, i),
        is_last_occurrence(hay, needle, j),
    ensures
        i == j,
{
}

/// Truncating behind an occurrence neither makes nor unmakes it.
pub proof fn lemma_occurs_in_take(hay: Seq<u8>, needle: Seq<u8>, end: int, i: int)
    requires
        0 <= i,
        i + needle.len() <= end <= hay.len(),
    ensures
        occurs_at(hay, needle, i) == occurs_at(hay.take(end), needle, i),
{
    assert(hay.take(end).subrange(i, i + needle.len() as int) =~= hay.subrange(
        i,
        i + needle.len() as int,
    ));
}

/// An occurrence inside a window of `hay` is an occurrence in `hay`.
pub proof fn lemma_occurs_in_subrange(hay: Seq<u8>, needle: Seq<u8>, a: int, b: int, i: int)
    requires
        0 <= a <= b <= hay.len(),
        0 <= i,
        i + needle.len() <= b - a,
    ensures
        occurs_at(hay.subrange(a, b), needle, i) == occurs_at(hay, needle, a + i),
{
    assert(hay.subrange(a, b).subrange(i, i + needle.len() as int) =~= hay.subrange(
        a + i,
        a + i + needle.len() as int,
    ));
}

/// Whether `needle` stands in `hay` at position `i`, checked byte by byte.
pub fn matches_at(hay: &[u8], needle: &[u8], i: usize) -> (r: bool)
    requires
        i + needle@.len() <= hay@.len(),
    ensures
        r == occurs_at(hay@, needle@, i as int),
{
    let hlen = hay.len();
    let mut j: usize = 0;
    while j < needle.len()
        invariant
            hlen == hay@.len(),
            i + needle@.len() <= hay@.len(),
            j <= needle@.len(),
            forall|k: int| 0 <= k < j ==> hay@[i + k] == needle@[k],
        decreases needle@.len() - j,
    {
        if hay[i + j] != needle[j] {
            proof {
                assert(hay@.subrange(i as int, i + needle@.len() as int)[j as int] == hay@[i + j]);
            }
            return false;
        }
        j += 1;
    }
    proof {
        assert(hay@.subrange(i as int, i + needle@.len() as int) =~= needle@);
    }
    true
}

/// Rightmost occurrence of `needle` within the first `end` bytes of `hay`,
/// or `None` when the needle does not stand there at all.
pub fn rfind_within(hay: &[u8], end: usize, needle: &[u8]) -> (r: Option<usize>)
    requires
        end <= hay@.len(),
        needle@.len() >= 1,
    ensures
        match r {
            Some(i) => i + needle@.len() <= end && is_last_occurrence(
                hay@.take(end as int),
                needle@,
                i as int,
            ),
            None => !has_occurrence(hay@.take(end as int), needle@),
        },
{
    if end < needle.len() {
        proof {
            assert forall|i: int| !occurs_at(hay@.take(end as int), needle@, i) by {
                assert(hay@.take(end as int).len() == end);
            }
        }
        return None;
    }
    let mut i: usize = end - needle.len();
    loop
        invariant
            needle@.len() >= 1,
            end <= hay@.len(),
            i + needle@.len() <= end,
            forall|j: int| i < j ==> !occurs_at(hay@.take(end as int), needle@, j),
        decreases i,
    {
        if matches_at(hay, needle, i) {
            proof {
                lemma_occurs_in_take(hay@, needle@, end as int, i as int);
            }
            return Some(i);
        }
        proof {
            lemma_occurs_in_take(hay@, needle@, end as int, i as int);
        }
        if i == 0 {
            proof {
                assert forall|j: int| !occurs_at(hay@.take(end as int), needle@, j) by {
                    if j > 0 {
                    } else if j == 0 {
                        assert(!occurs_at(hay@.take(end as int), needle@, 0));
                    }
                }
            }
            return None;
        }
        i -= 1;
    }
}

/// The start of the line that position `end` belongs to: one past the last
/// line feed strictly before `end`, or the start of the text.
pub open spec fn spec_line_start(s: Seq<u8>, end: int) -> int
    decreases end,
{
    if end <= 0 {
        0
    } else if s[end - 1] == 10 {
        end
    } else {
        spec_line_start(s, end - 1)
    }
}

/// A line start lies between the start of the text and the position itself.
pub proof fn lemma_line_start_bounds(s: Seq<u8>, end: int)
    requires
        0 <= end,
    ensures
        0 <= spec_line_start(s, end) <= end,
    decreases end,
{
    if end > 0 && s[end - 1] != 10 {
        lemma_line_start_bounds(s, end - 1);
    }
}

/// Line starts do not cross: a later position has a line start at least as
/// far right.
pub proof fn lemma_line_start_monotone(s: Seq<u8>, a: int, b: int)
    requires
        0 <= a <= b,
    ensures
        spec_line_start(s, a) <= spec_line_start(s, b),
    decreases b - a,
{
    if a < b {
        lemma_line_start_monotone(s, a, b - 1);
        if s[b - 1] == 10 {
            lemma_line_start_bounds(s, a);
        }
    }
}

/// Start of the line holding position `end`, searching `hay[..end]` for the
/// last line feed.
pub fn line_start_before(hay: &[u8], end: usize) -> (r: usize)
    requires
        end <= hay@.len(),
    ensures
        r == spec_line_start(hay@, end as int),
        r <= end,
{
    let mut i: usize = end;
    loop
        invariant
            i <= end <= hay@.len(),
            spec_line_start(hay@, end as int) == spec_line_start(hay@, i as int),
        decreases i,
    {
        if i == 0 {
            return 0;
        }
        if hay[i - 1] == 10 {
            return i;
        }
        i -= 1;
    }
}

/// Leftmost-first removal of every sentinel token from a byte string.
pub open spec fn spec_strip_markers(s: Seq<u8>) -> Seq<u8>
    decreases s.len(),
{
    if s.len() >= marker_bytes().len() && s.subrange(0, marker_bytes().len() as int)
        == marker_bytes() {
        spec_strip_markers(s.skip(marker_bytes().len() as int))
    } else if s.len() == 0 {
        s
    } else {
        seq![s[0]] + spec_strip_markers(s.drop_first())
    }
}

/// A text without the sentinel token is left unchanged by stripping.
pub proof fn lemma_strip_no_marker(s: Seq<u8>)
    requires
        !has_occurrence(s, marker_bytes()),
    ensures
        spec_strip_markers(s) == s,
    decreases s.len(),
{
    let m = marker_bytes();
    if s.len() == 0 {
    } else {
        if s.len() >= m.len() && s.subrange(0, m.len() as int) == m {
            assert(occurs_at(s, m, 0));
            assert(false);
        }
        assert forall|i: int| !occurs_at(s.drop_first(), m, i) by {
            if 0 <= i && i + m.len() <= s.drop_first().len() {
                assert(s.drop_first() =~= s.subrange(1, s.len() as int));
                lemma_occurs_in_subrange(s, m, 1, s.len() as int, i);
                assert(!occurs_at(s, m, 1 + i));
            }
        }
        assert(!has_occurrence(s.drop_first(), m));
        lemma_strip_no_marker(s.drop_first());
        assert(seq![s[0]] + s.drop_first() =~= s);
    }
}

/// Copy of a byte string with every sentinel token removed, leftmost first.
pub fn strip_markers(src: &[u8]) -> (r: Vec<u8>)
    ensures
        r@ == spec_strip_markers(src@),
{
    let marker = new_command_msg();
    let mlen = marker.len();
    let mut out: Vec<u8> = Vec::new();
    let mut i: usize = 0;
    proof {
        assert(src@.skip(0) =~= src@);
    }
    while i < src.len()
        invariant
            i <= src@.len(),
            marker@ == marker_bytes(),
            mlen == marker_bytes().len(),
            spec_strip_markers(src@) == out@ + spec_strip_markers(src@.skip(i as int)),
        decreases src@.len() - i,
    {
        let ghost rest = src@.skip(i as int);
        if src.len() - i >= mlen && matches_at(src, marker.as_slice(), i) {
            proof {
                assert(rest.subrange(0, mlen as int) =~= src@.subrange(i as int, i + mlen));
                assert(rest.subrange(0, mlen as int) == marker_bytes());
                assert(spec_strip_markers(rest) == spec_strip_markers(rest.skip(mlen as int)));
                assert(rest.skip(mlen as int) =~= src@.skip(i + mlen));
            }
            i += mlen;
        } else {
            proof {
                if src@.len() - i >= mlen {
                    assert(rest.subrange(0, mlen as int) =~= src@.subrange(i as int, i + mlen));
                    assert(!(rest.subrange(0, mlen as int) == marker_bytes()));
                } else {
                    assert(rest.len() < mlen);
                }
                assert(rest.len() > 0);
                assert(rest[0] == src@[i as int]);
                assert(spec_strip_markers(rest) == seq![src@[i as int]] + spec_strip_markers(
                    rest.drop_first(),
                ));
                assert(rest.drop_first() =~= src@.skip(i + 1));
                assert(out@ + (seq![src@[i as int]] + spec_strip_markers(src@.skip(i + 1))) =~= (out@
                    + seq![src@[i as int]]) + spec_strip_markers(src@.skip(i + 1)));
            }
            out.push(src[i]);
            i += 1;
        }
    }
    proof {
        assert(src@.skip(src@.len() as int) =~= Seq::<u8>::empty());
        assert(out@ + spec_strip_markers(Seq::<u8>::empty()) =~= out@);
    }
    out
}

/// At least two (non-overlapping) sentinel tokens stand in the log: some
/// command has completed since the session began.
pub open spec fn has_two_markers(log: Seq<u8>) -> bool {
    exists|p: int, q: int|
        p + marker_bytes().len() <= q && occurs_at(log, marker_bytes(), p) && occurs_at(
            log,
            marker_bytes(),
            q,
        )
}

/// The context a log yields, given the positions of its last marker `q` and
/// of the last marker `p` before that one: the text from the start of `p`'s
/// line up to the start of `q`'s line, marker tokens removed.
pub open spec fn spec_extract_context(log: Seq<u8>, q: int, p: int) -> Seq<u8> {
    spec_strip_markers(log.subrange(spec_line_start(log, p), spec_line_start(log, q)))
}

/// When each of the last two sentinel markers stands at the start of its own
/// line, the extracted context is exactly the text strictly between the two
/// markers: the token at the head of the window is stripped, and no other
/// token can stand inside it.
pub proof fn lemma_context_exact(log: Seq<u8>, q: int, p: int)
    requires
        is_last_occurrence(log, marker_bytes(), q),
        is_last_occurrence(log.take(q), marker_bytes(), p),
        spec_line_start(log, p) == p,
        spec_line_start(log, q) == q,
    ensures
        spec_extract_context(log, q, p) == log.subrange(p + marker_bytes().len(), q),
{
    let m = marker_bytes();
    assert(occurs_at(log.take(q), m, p));
    assert(p + m.len() <= q);
    assert(q <= log.len());
    lemma_occurs_in_take(log, m, q, p);
    assert(occurs_at(log, m, p));
    let sl = log.subrange(p, q);
    assert(sl.subrange(0, m.len() as int) =~= log.subrange(p, p + m.len() as int));
    assert(sl.subrange(0, m.len() as int) == m);
    assert(spec_strip_markers(sl) == spec_strip_markers(sl.skip(m.len() as int)));
    let mid = log.subrange(p + m.len() as int, q);
    assert(sl.skip(m.len() as int) =~= mid);
    assert forall|i: int| !occurs_at(mid, m, i) by {
        if 0 <= i && i + m.len() <= mid.len() {
            lemma_occurs_in_subrange(log, m, p + m.len() as int, q, i);
            if occurs_at(mid, m, i) {
                assert(occurs_at(log, m, p + m.len() + i));
                lemma_occurs_in_take(log, m, q, p + m.len() + i);
                assert(occurs_at(log.take(q), m, p + m.len() + i));
                assert(false);
            }
        }
    }
    assert(!has_occurrence(mid, m));
    lemma_strip_no_marker(mid);
}

/// Extract the previous command's output from log content. Everything after
/// the last sentinel marker belongs to the command still in progress and is
/// excluded; the text returned runs from the start of the line holding the
/// second-to-last marker up to the start of the line holding the last one,
/// with every marker token removed. Fails when fewer than two markers stand
/// in the log: no command has completed yet in this session.
pub fn extract_context_from_log(log: &[u8], logfile: String) -> (r: Result<Vec<u8>, WtgError>)
    ensures
        (r is Ok) == has_two_markers(log@),
        r matches Ok(v) ==> exists|q: int, p: int|
            is_last_occurrence(log@, marker_bytes(), q) && is_last_occurrence(
                log@.take(q),
                marker_bytes(),
                p,
            ) && v@ == spec_extract_context(log@, q, p),
        r matches Err(e) ==> e matches WtgError::NoCommandRun { logfile: lf } && lf@ == logfile@,
{
    let marker = new_command_msg();
    proof {
        assert(log@.take(log@.len() as int) =~= log@);
    }
    let last = rfind_within(log, log.len(), marker.as_slice());
    match last {
        None => {
            proof {
                assert(!has_two_markers(log@)) by {
                    if has_two_markers(log@) {
                        let (p, q) = choose|p: int, q: int|
                            p + marker_bytes().len() <= q && occurs_at(log@, marker_bytes(), p)
                                && occurs_at(log@, marker_bytes(), q);
                        assert(occurs_at(log@.take(log@.len() as int), marker_bytes(), q));
                        assert(false);
                    }
                }
            }
            Err(WtgError::NoCommandRun { logfile })
        },
        Some(q) => {
            let second = rfind_within(log, q, marker.as_slice());
            match second {
                None => {
                    proof {
                        assert(!has_two_markers(log@)) by {
                            if has_two_markers(log@) {
                                let (p2, q2) = choose|p2: int, q2: int|
                                    p2 + marker_bytes().len() <= q2 && occurs_at(
                                        log@,
                                        marker_bytes(),
                                        p2,
                                    ) && occurs_at(log@, marker_bytes(), q2);
                                assert(q2 <= q);
                                assert(p2 + marker_bytes().len() <= q);
                                lemma_occurs_in_take(log@, marker_bytes(), q as int, p2);
                                assert(occurs_at(log@.take(q as int), marker_bytes(), p2));
                                assert(false);
                            }
                        }
                    }
                    Err(WtgError::NoCommandRun { logfile })
                },
                Some(p) => {
                    proof {
                        lemma_occurs_in_take(log@, marker_bytes(), q as int, p as int);
                        assert(occurs_at(log@, marker_bytes(), p as int));
                        assert(is_last_occurrence(log@, marker_bytes(), q as int));
                        assert(occurs_at(log@, marker_bytes(), q as int));
                        assert(has_two_markers(log@));
                        lemma_line_start_monotone(log@, p as int, q as int);
                    }
                    let ls_prev = line_start_before(log, p);
                    let ls_last = line_start_before(log, q);
                    let window = copy_range(log, ls_prev, ls_last);
                    let ctx = strip_markers(window.as_slice());
                    proof {
                        assert(ctx@ == spec_extract_context(log@, q as int, p as int));
                        assert(is_last_occurrence(log@.take(q as int), marker_bytes(), p as int));
                    }
                    Ok(ctx)
                },
            }
        },
    }
}

} // verus!
