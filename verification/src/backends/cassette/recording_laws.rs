//! What holds of what is kept of a stream, and of what is played back.

use std::collections::hash_map::DefaultHasher;

use crate::backends::cassette::fingerprint::{fingerprint, hex_fixed, text_writes};
use crate::backends::cassette::provider::{is_replay, miss, recorded, StreamItem};
use crate::backends::cassette::store::{
    candidate, is_baseline, label_for, law_baseline_is_unique, shared, Baseline, RecordingView,
};
use crate::text::digit;
use crate::types::{ErrorView, EventView};
use vstd::prelude::*;
use vstd::std_specs::hash::*;
use vstd::utf8::encode_utf8;

verus! {

/// A stream is kept as a whole: under the fingerprint of its request, with the request and
/// the step, and with each of its events in its place.
pub proof fn law_recording_is_whole(
    m: Map<Seq<char>, RecordingView>,
    text: Seq<char>,
    step: Option<Seq<char>>,
    s: Seq<StreamItem>,
)
    requires
        forall|i: int| 0 <= i < s.len() ==> (#[trigger] s[i]) is Ok,
    ensures
        recorded(m, text, step, s).contains_key(fingerprint(text)),
        ({
            let r = recorded(m, text, step, s)[fingerprint(text)];
            &&& r.request == Some(text)
            &&& r.step == step
            &&& r.events.len() == s.len()
            &&& forall|i: int| 0 <= i < s.len() ==> #[trigger] r.events[i] == (s[i]->Ok_0)@
        }),
{
}

/// A request whose answer has been kept is answered with that answer, event by event, and
/// with nothing else.
pub proof fn law_answer_is_played_back(
    m: Map<Seq<char>, RecordingView>,
    text: Seq<char>,
    step: Option<Seq<char>>,
    s: Seq<StreamItem>,
    asked: Option<Seq<char>>,
    r: Result<Seq<EventView>, ErrorView>,
)
    requires
        forall|i: int| 0 <= i < s.len() ==> (#[trigger] s[i]) is Ok,
        is_replay(recorded(m, text, step, s), text, asked, r),
    ensures
        r matches Ok(out) && out.len() == s.len() && forall|i: int|
            0 <= i < s.len() ==> #[trigger] out[i] == (s[i]->Ok_0)@,
{
    law_recording_is_whole(m, text, step, s);
}

/// How many bytes two texts share at their front is the length of the longest front that
/// they have in common.
pub proof fn law_shared_front(a: Seq<u8>, b: Seq<u8>)
    ensures
        shared(a, b) <= a.len(),
        shared(a, b) <= b.len(),
        a.take(shared(a, b) as int) == b.take(shared(a, b) as int),
        shared(a, b) < a.len() && shared(a, b) < b.len() ==> a[shared(a, b) as int] != b[shared(
            a,
            b,
        ) as int],
    decreases a.len(),
{
    let n = shared(a, b) as int;
    if a.len() > 0 && b.len() > 0 && a[0] == b[0] {
        let x = a.skip(1);
        let y = b.skip(1);
        law_shared_front(x, y);
        let k = shared(x, y) as int;
        assert forall|i: int| 0 <= i < n implies a.take(n)[i] == b.take(n)[i] by {
            if i > 0 {
                assert(x.take(k)[i - 1] == y.take(k)[i - 1]);
            }
        }
        assert(a.take(n) =~= b.take(n));
        if k < x.len() && k < y.len() {
            assert(x[k] != y[k]);
        }
    } else {
        assert(a.take(0) =~= b.take(0));
    }
}

/// The recording that a miss is held against is one whose request was kept, and of those
/// that count none shares a longer front with the request.
pub proof fn law_closest_recording_is_chosen(
    want: Seq<char>,
    step: Option<Seq<char>>,
    m: Map<Seq<char>, RecordingView>,
    fp: Seq<char>,
    request: Seq<char>,
    by: Seq<char>,
    other: Seq<char>,
)
    requires
        is_baseline(want, step, m, Some((fp, request, by))),
        m.contains_key(other),
        m[other].request is Some,
        label_for(step, m) is Some ==> m[other].step == step,
    ensures
        m.contains_key(fp),
        m[fp].request == Some(request),
        shared(encode_utf8(want), encode_utf8(m[other].request->0)) <= shared(
            encode_utf8(want),
            encode_utf8(request),
        ),
{
    let label = label_for(step, m);
    assert(candidate(m, label, other));
    assert(candidate(m, label, fp));
}

/// There is a recording to hold a miss against as soon as one request was kept.
pub proof fn law_miss_is_held_against_something(
    want: Seq<char>,
    step: Option<Seq<char>>,
    m: Map<Seq<char>, RecordingView>,
    fp: Seq<char>,
    b: Baseline,
)
    requires
        m.contains_key(fp),
        m[fp].request is Some,
        is_baseline(want, step, m, b),
    ensures
        b is Some,
{
    assert(candidate(m, None, fp));
}

/// A miss tells what it was held against: its fingerprint, its request and how it was
/// found.
pub proof fn law_miss_tells_the_baseline(
    m: Map<Seq<char>, RecordingView>,
    text: Seq<char>,
    step: Option<Seq<char>>,
    r: Result<Seq<EventView>, ErrorView>,
    b: Baseline,
)
    requires
        !m.contains_key(fingerprint(text)),
        is_replay(m, text, step, r),
        is_baseline(text, step, m, b),
    ensures
        r matches Err(
            ErrorView::CassetteMiss {
                want_fp,
                want_canon,
                baseline_fp,
                baseline_canon,
                baseline_selected_by,
            },
        ) && want_fp == fingerprint(text) && want_canon == text && match b {
            Some((fp, request, by)) => baseline_fp == Some(fp) && baseline_canon == Some(request)
                && baseline_selected_by == Some(by),
            None => baseline_fp is None && baseline_canon is None && baseline_selected_by is None,
        },
{
    let c = choose|c: Baseline| #[trigger]
        is_baseline(text, step, m, c) && r == Err::<Seq<EventView>, ErrorView>(
            miss(text, c),
        );
    law_baseline_is_unique(text, step, m, b, c);
}

/// The value of a digit in base sixteen.
pub open spec fn digit_value(c: char) -> int {
    if '0' <= c && c <= '9' {
        c as int - 0x30
    } else {
        c as int - 0x57
    }
}

/// The number that digits in base sixteen write.
pub open spec fn hex_value(s: Seq<char>) -> int
    decreases s.len(),
{
    if s.len() == 0 {
        0
    } else {
        hex_value(s.drop_last()) * 16 + digit_value(s.last())
    }
}

/// The largest number that so many digits in base sixteen write, and one.
pub open spec fn hex_range(width: nat) -> nat
    decreases width,
{
    if width == 0 {
        1
    } else {
        16 * hex_range((width - 1) as nat)
    }
}

/// A number in so many digits is read as that number: different numbers are written
/// differently, and all at the same length.
pub proof fn law_hex_read_back(n: nat, width: nat)
    requires
        n < hex_range(width),
    ensures
        hex_fixed(n, width).len() == width,
        hex_value(hex_fixed(n, width)) == n,
    decreases width,
{
    if width > 0 {
        law_hex_read_back(n / 16, (width - 1) as nat);
        let s = hex_fixed(n, width);
        assert(s.drop_last() =~= hex_fixed(n / 16, (width - 1) as nat));
        assert(s.last() == digit(n % 16));
    }
}

/// Two texts have the same fingerprint only where they have the same hash, and each
/// fingerprint has sixteen digits.
pub proof fn law_fingerprint_tells_the_hash(a: Seq<char>, b: Seq<char>)
    ensures
        fingerprint(a).len() == 16,
        fingerprint(a) == fingerprint(b) ==> DefaultHasher::spec_finish(text_writes(a))
            == DefaultHasher::spec_finish(text_writes(b)),
{
    reveal_with_fuel(hex_range, 17);
    assert(hex_range(16) == 0x1_0000_0000_0000_0000);
    law_hex_read_back(DefaultHasher::spec_finish(text_writes(a)) as nat, 16);
    law_hex_read_back(DefaultHasher::spec_finish(text_writes(b)) as nat, 16);
}

/// A recording is told to have been found by its label where one with the label of the
/// call is there, and by its front otherwise.
pub proof fn law_baseline_tells_how_it_was_found(
    want: Seq<char>,
    step: Option<Seq<char>>,
    m: Map<Seq<char>, RecordingView>,
    fp: Seq<char>,
    request: Seq<char>,
    by: Seq<char>,
)
    requires
        is_baseline(want, step, m, Some((fp, request, by))),
    ensures
        ({
            let labelled = step is Some && step->0.len() > 0 && exists|other: Seq<char>|
                #[trigger] m.contains_key(other) && m[other].request is Some && m[other].step
                    == step;
            &&& labelled ==> by == "label"@ && m[fp].step == step
            &&& !labelled ==> by == "prefix"@
        }),
{
    if step is Some && step->0.len() > 0 {
        if exists|other: Seq<char>| #[trigger]
            m.contains_key(other) && m[other].request is Some && m[other].step == step {
            let other = choose|other: Seq<char>| #[trigger]
                m.contains_key(other) && m[other].request is Some && m[other].step == step;
            assert(candidate(m, step, other));
        }
        if label_for(step, m) is Some {
            let other = choose|other: Seq<char>| #[trigger] candidate(m, step, other);
            assert(m.contains_key(other));
        }
    }
}

} // verus!
