//! What has been recorded, and the choice of the recording that a request which is
//! not among it has to be compared with.

use crate::backends::cassette::file::{recording_json, recording_value, recordings_value};
use crate::json::{Json, JsonView};
use crate::text::{
    is_empty, lemma_less_total, lemma_less_transitive, less, opt_slice, opt_str, same, text_less,
};
use crate::types::{events, ChatEvent, EventView};
use vstd::prelude::*;
use vstd::string::*;
use vstd::utf8::*;

verus! {

/// The attribute of a call that names the step which it belongs to.
pub const STEP_ATTR: &'static str = "cassette.step";

/// One recorded call: the events, the text of the request where it was kept, and
/// the label that the caller gave it.
#[derive(Debug)]
pub struct Recording {
    pub request: Option<String>,
    pub step: Option<String>,
    pub events: Vec<ChatEvent>,
}

/// What a recording says.
pub struct RecordingView {
    pub request: Option<Seq<char>>,
    pub step: Option<Seq<char>>,
    pub events: Seq<EventView>,
}

impl View for Recording {
    type V = RecordingView;

    open spec fn view(&self) -> RecordingView {
        RecordingView {
            request: opt_str(self.request),
            step: opt_str(self.step),
            events: events(self.events@),
        }
    }
}

impl Recording {
    /// A recording of which the request was not kept.
    pub fn from_events(events: Vec<ChatEvent>) -> (r: Recording)
        ensures
            r@ == (RecordingView {
                request: None,
                step: None,
                events: crate::types::events(events@),
            }),
    {
        Recording { request: None, step: None, events }
    }
}

/// The recordings by their fingerprint.
pub open spec fn recordings(s: Seq<(String, Recording)>) -> Map<Seq<char>, RecordingView>
    decreases s.len(),
{
    if s.len() == 0 {
        Map::empty()
    } else {
        recordings(s.drop_last()).insert(s.last().0@, s.last().1@)
    }
}

/// No fingerprint occurs twice.
pub open spec fn distinct(s: Seq<(String, Recording)>) -> bool {
    forall|i: int, j: int| 0 <= i < j < s.len() ==> (#[trigger] s[i]).0@ != (#[trigger] s[j]).0@
}

proof fn lemma_recordings(s: Seq<(String, Recording)>)
    requires
        distinct(s),
    ensures
        forall|i: int|
            0 <= i < s.len() ==> recordings(s).contains_key((#[trigger] s[i]).0@)
                && recordings(s)[s[i].0@] == s[i].1@,
        forall|fp: Seq<char>| #[trigger]
            recordings(s).contains_key(fp) ==> exists|i: int|
                0 <= i < s.len() && (#[trigger] s[i]).0@ == fp,
        recordings(s).dom().finite(),
        recordings(s).dom().len() == s.len(),
    decreases s.len(),
{
    if s.len() > 0 {
        let front = s.drop_last();
        assert(distinct(front)) by {
            assert forall|i: int, j: int| 0 <= i < j < front.len() implies (#[trigger] front[i]).0@
                != (#[trigger] front[j]).0@ by {
                assert(front[i] == s[i] && front[j] == s[j]);
            }
        }
        lemma_recordings(front);
        let last = s.last();
        assert(!recordings(front).contains_key(last.0@)) by {
            if recordings(front).contains_key(last.0@) {
                let i = choose|i: int| 0 <= i < front.len() && (#[trigger] front[i]).0@ == last.0@;
                assert(s[i] == front[i]);
                assert(s[i].0@ != s[s.len() - 1].0@);
            }
        }
        assert forall|i: int| 0 <= i < s.len() implies recordings(s).contains_key(
            (#[trigger] s[i]).0@,
        ) && recordings(s)[s[i].0@] == s[i].1@ by {
            if i < s.len() - 1 {
                assert(front[i] == s[i]);
                assert(s[i].0@ != s[s.len() - 1].0@);
            }
        }
        assert forall|fp: Seq<char>| #[trigger] recordings(s).contains_key(fp) implies exists|
            i: int,
        |
            0 <= i < s.len() && (#[trigger] s[i]).0@ == fp by {
            if fp == last.0@ {
                assert(s[s.len() - 1].0@ == fp);
            } else {
                let i = choose|i: int| 0 <= i < front.len() && (#[trigger] front[i]).0@ == fp;
                assert(s[i] == front[i]);
            }
        }
    }
}

proof fn lemma_recordings_update(s: Seq<(String, Recording)>, k: int, rec: Recording)
    requires
        distinct(s),
        0 <= k < s.len(),
    ensures
        recordings(s.update(k, (s[k].0, rec))) == recordings(s).insert(s[k].0@, rec@),
        distinct(s.update(k, (s[k].0, rec))),
{
    let t = s.update(k, (s[k].0, rec));
    assert(distinct(t)) by {
        assert forall|i: int, j: int| 0 <= i < j < t.len() implies (#[trigger] t[i]).0@ != (
        #[trigger] t[j]).0@ by {
            assert(s[i].0@ != s[j].0@);
        }
    }
    lemma_recordings(s);
    lemma_recordings(t);
    let m = recordings(t);
    let n = recordings(s).insert(s[k].0@, rec@);
    assert forall|fp: Seq<char>| #[trigger] m.contains_key(fp) implies n.contains_key(fp) && m[fp]
        == n[fp] by {
        let i = choose|i: int| 0 <= i < t.len() && (#[trigger] t[i]).0@ == fp;
        assert(m[t[i].0@] == t[i].1@);
        if i != k {
            assert(s[i] == t[i]);
            assert(t[i].0@ != t[k].0@);
        }
    }
    assert forall|fp: Seq<char>| #[trigger] n.contains_key(fp) implies m.contains_key(fp) by {
        if fp == s[k].0@ {
            assert(t[k].0@ == fp);
        } else {
            let i = choose|i: int| 0 <= i < s.len() && (#[trigger] s[i]).0@ == fp;
            assert(t[i].0@ == fp);
        }
    }
    assert(m =~= n);
}

/// The recordings of a session, each under the fingerprint of its request.
#[derive(Debug)]
pub struct Cassette {
    entries: Vec<(String, Recording)>,
}

impl View for Cassette {
    type V = Map<Seq<char>, RecordingView>;

    closed spec fn view(&self) -> Map<Seq<char>, RecordingView> {
        recordings(self.entries@)
    }
}

impl Cassette {
    #[verifier::type_invariant]
    spec fn well_formed(self) -> bool {
        distinct(self.entries@)
    }

    /// A cassette without recordings.
    pub fn new() -> (r: Cassette)
        ensures
            r@ == Map::<Seq<char>, RecordingView>::empty(),
    {
        Cassette { entries: Vec::new() }
    }

    /// The number of recordings.
    pub fn len(&self) -> (r: usize)
        ensures
            self@.dom().finite(),
            r == self@.dom().len(),
    {
        proof {
            use_type_invariant(self);
            lemma_recordings(self.entries@);
        }
        self.entries.len()
    }

    fn position(&self, fp: &str) -> (r: Option<usize>)
        ensures
            match r {
                Some(k) => k < self.entries@.len() && self.entries@[k as int].0@ == fp@
                    && self@.contains_key(fp@) && self@[fp@] == self.entries@[k as int].1@,
                None => !self@.contains_key(fp@) && forall|i: int|
                    0 <= i < self.entries@.len() ==> (#[trigger] self.entries@[i]).0@ != fp@,
            },
    {
        proof {
            use_type_invariant(self);
            lemma_recordings(self.entries@);
        }
        let mut i: usize = 0;
        while i < self.entries.len()
            invariant
                i <= self.entries@.len(),
                forall|j: int| 0 <= j < i ==> (#[trigger] self.entries@[j]).0@ != fp@,
                forall|i: int|
                    0 <= i < self.entries@.len() ==> recordings(self.entries@).contains_key(
                        (#[trigger] self.entries@[i]).0@,
                    ) && recordings(self.entries@)[self.entries@[i].0@] == self.entries@[i].1@,
            decreases self.entries@.len() - i,
        {
            if same(self.entries[i].0.as_str(), fp) {
                return Some(i);
            }
            i += 1;
        }
        None
    }

    /// The recording under a fingerprint.
    pub fn get(&self, fp: &str) -> (r: Option<&Recording>)
        ensures
            match r {
                Some(rec) => self@.contains_key(fp@) && rec@ == self@[fp@],
                None => !self@.contains_key(fp@),
            },
    {
        match self.position(fp) {
            Some(k) => Some(&self.entries[k].1),
            None => None,
        }
    }

    /// Puts a recording under a fingerprint, in place of one that is there.
    pub fn insert(&mut self, fp: String, rec: Recording)
        ensures
            final(self)@ == old(self)@.insert(fp@, rec@),
    {
        let found: Option<usize> = self.position(fp.as_str());
        proof {
            use_type_invariant(&*self);
        }
        let mut entries: Vec<(String, Recording)> = Vec::new();
        core::mem::swap(&mut entries, &mut self.entries);
        let ghost before = entries@;
        match found {
            Some(k) => {
                let key: String = entries[k].0.clone();
                proof {
                    lemma_recordings_update(before, k as int, rec);
                }
                entries.set(k, (key, rec));
                assert(recordings(entries@) == recordings(before).insert(fp@, rec@)) by {
                    lemma_same_keys(entries@, before.update(k as int, (before[k as int].0, rec)));
                }
                assert(distinct(entries@)) by {
                    let t = before.update(k as int, (before[k as int].0, rec));
                    assert forall|i: int, j: int| 0 <= i < j < entries@.len() implies (
                    #[trigger] entries@[i]).0@ != (#[trigger] entries@[j]).0@ by {
                        assert(t[i].0@ != t[j].0@);
                    }
                }
            },
            None => {
                entries.push((fp, rec));
                assert(entries@.drop_last() =~= before);
                assert(distinct(entries@)) by {
                    assert forall|i: int, j: int| 0 <= i < j < entries@.len() implies (
                    #[trigger] entries@[i]).0@ != (#[trigger] entries@[j]).0@ by {
                        assert(entries@[i] == before[i]);
                        if j < before.len() {
                            assert(entries@[j] == before[j]);
                        }
                    }
                }
            },
        }
        self.entries = entries;
    }

    /// The recordings as JSON, each under its fingerprint.
    pub fn to_json(&self) -> (r: Json)
        ensures
            r@ == recordings_value(self@),
    {
        let ghost f = |r: RecordingView| recording_value(r);
        let ghost all = self.entries@;
        let mut out: Json = Json::object();
        let mut i: usize = 0;
        assert(out@->Obj_0 =~= recordings(all.take(0)).map_values(f));
        while i < self.entries.len()
            invariant
                i <= self.entries@.len(),
                all == self.entries@,
                f == (|r: RecordingView| recording_value(r)),
                out@ == JsonView::Obj(recordings(all.take(i as int)).map_values(f)),
            decreases self.entries@.len() - i,
        {
            out = out.with(self.entries[i].0.as_str(), recording_json(&self.entries[i].1));
            assert(all.take(i + 1).drop_last() =~= all.take(i as int));
            assert(out@->Obj_0 =~= recordings(all.take(i + 1)).map_values(f));
            i += 1;
        }
        assert(all.take(all.len() as int) =~= all);
        out
    }

    /// Takes all recordings out.
    pub fn take(&mut self) -> (r: Cassette)
        ensures
            r@ == old(self)@,
            final(self)@ == Map::<Seq<char>, RecordingView>::empty(),
    {
        proof {
            use_type_invariant(&*self);
        }
        let mut entries: Vec<(String, Recording)> = Vec::new();
        core::mem::swap(&mut entries, &mut self.entries);
        Cassette { entries }
    }
}

proof fn lemma_same_keys(a: Seq<(String, Recording)>, b: Seq<(String, Recording)>)
    requires
        a.len() == b.len(),
        forall|i: int| 0 <= i < a.len() ==> (#[trigger] a[i]).0@ == b[i].0@ && a[i].1 == b[i].1,
    ensures
        recordings(a) == recordings(b),
    decreases a.len(),
{
    if a.len() > 0 {
        lemma_same_keys(a.drop_last(), b.drop_last());
        assert(a[a.len() - 1].0@ == b[a.len() - 1].0@);
    }
}

/// How many bytes two texts have in common at their front.
pub open spec fn shared(a: Seq<u8>, b: Seq<u8>) -> nat
    decreases a.len(),
{
    if a.len() == 0 || b.len() == 0 || a[0] != b[0] {
        0
    } else {
        1 + shared(a.skip(1), b.skip(1))
    }
}

/// Counts the bytes that two texts have in common at their front.
fn shared_bytes(a: &str, b: &str) -> (r: usize)
    ensures
        r == shared(encode_utf8(a@), encode_utf8(b@)),
{
    let x: &[u8] = a.as_bytes();
    let y: &[u8] = b.as_bytes();
    let ghost whole = shared(x@, y@);
    let n: usize = x.len();
    let m: usize = y.len();
    let mut i: usize = 0;
    assert(x@.skip(0) =~= x@);
    assert(y@.skip(0) =~= y@);
    while i < n && i < m && x[i] == y[i]
        invariant
            n == x@.len(),
            m == y@.len(),
            i <= n,
            i <= m,
            whole == i + shared(x@.skip(i as int), y@.skip(i as int)),
        decreases n - i,
    {
        assert(x@.skip(i as int).skip(1) =~= x@.skip(i + 1));
        assert(y@.skip(i as int).skip(1) =~= y@.skip(i + 1));
        i += 1;
    }
    i
}

/// Whether a recording can be compared with: its request was kept and, where a
/// label is asked for, it has that label.
pub open spec fn comparable(r: RecordingView, label: Option<Seq<char>>) -> bool {
    r.request is Some && (label is Some ==> r.step == label)
}

/// Whether the recording under a fingerprint is a candidate.
pub open spec fn candidate(
    m: Map<Seq<char>, RecordingView>,
    label: Option<Seq<char>>,
    fp: Seq<char>,
) -> bool {
    m.contains_key(fp) && comparable(m[fp], label)
}

/// How close a recorded request is to the wanted one.
pub open spec fn closeness(want: Seq<char>, r: RecordingView) -> nat {
    shared(encode_utf8(want), encode_utf8(r.request->0))
}

/// Whether a recording is preferred to another: it is closer or, where they are
/// equally close, its fingerprint is greater.
pub open spec fn preferred(
    want: Seq<char>,
    fp: Seq<char>,
    r: RecordingView,
    other_fp: Seq<char>,
    other: RecordingView,
) -> bool {
    ||| closeness(want, r) > closeness(want, other)
    ||| closeness(want, r) == closeness(want, other) && text_less(other_fp, fp)
}

/// Whether a candidate is preferred to all others.
pub open spec fn is_best(
    want: Seq<char>,
    m: Map<Seq<char>, RecordingView>,
    label: Option<Seq<char>>,
    fp: Seq<char>,
) -> bool {
    &&& candidate(m, label, fp)
    &&& forall|other: Seq<char>| #[trigger]
        candidate(m, label, other) && other != fp ==> preferred(want, fp, m[fp], other, m[other])
}

/// The label to go by: that of the call, if it has one and some candidate has it.
pub open spec fn label_for(
    want_step: Option<Seq<char>>,
    m: Map<Seq<char>, RecordingView>,
) -> Option<Seq<char>> {
    if want_step is Some && want_step->0.len() > 0 && exists|fp: Seq<char>| #[trigger]
        candidate(m, want_step, fp) {
        want_step
    } else {
        None
    }
}

/// What a choice says: the fingerprint, the request, and how it was found.
pub type Baseline = Option<(Seq<char>, Seq<char>, Seq<char>)>;

/// Whether a choice is the right one: the best of those with the label of the call,
/// else the best of all, and none if no request was kept.
pub open spec fn is_baseline(
    want: Seq<char>,
    want_step: Option<Seq<char>>,
    m: Map<Seq<char>, RecordingView>,
    r: Baseline,
) -> bool {
    let label = label_for(want_step, m);
    match r {
        None => forall|fp: Seq<char>| !#[trigger] candidate(m, None, fp),
        Some((fp, request, by)) => {
            &&& is_best(want, m, label, fp)
            &&& m[fp].request == Some(request)
            &&& by == if label is Some {
                "label"@
            } else {
                "prefix"@
            }
        },
    }
}

/// What a choice says.
pub open spec fn choice_view(r: Option<(&str, &str, &'static str)>) -> Baseline {
    match r {
        Some((fp, request, by)) => Some((fp@, request@, by@)),
        None => None,
    }
}

/// Whether an entry is preferred to all others before an index.
spec fn best_before(
    want: Seq<char>,
    s: Seq<(String, Recording)>,
    label: Option<Seq<char>>,
    best: Option<usize>,
    i: int,
) -> bool {
    match best {
        None => forall|j: int| 0 <= j < i ==> !comparable((#[trigger] s[j]).1@, label),
        Some(k) => {
            &&& k < i
            &&& comparable(s[k as int].1@, label)
            &&& forall|j: int|
                0 <= j < i && j != k && comparable((#[trigger] s[j]).1@, label) ==> preferred(
                    want,
                    s[k as int].0@,
                    s[k as int].1@,
                    s[j].0@,
                    s[j].1@,
                )
        },
    }
}

proof fn lemma_preferred_transitive(
    want: Seq<char>,
    f: Seq<char>,
    a: RecordingView,
    g: Seq<char>,
    b: RecordingView,
    h: Seq<char>,
    c: RecordingView,
)
    requires
        preferred(want, f, a, g, b),
        preferred(want, g, b, h, c),
    ensures
        preferred(want, f, a, h, c),
{
    if closeness(want, a) == closeness(want, b) && closeness(want, b) == closeness(want, c) {
        lemma_less_transitive(h, g, f);
    }
}

impl Cassette {
    /// Finds the best candidate.
    fn best(&self, want: &str, label: Option<&str>) -> (r: Option<usize>)
        ensures
            match r {
                Some(k) => k < self.entries@.len() && self@.contains_key(
                    self.entries@[k as int].0@,
                ) && self@[self.entries@[k as int].0@] == self.entries@[k as int].1@ && is_best(
                    want@,
                    self@,
                    opt_slice(label),
                    self.entries@[k as int].0@,
                ),
                None => forall|fp: Seq<char>| !#[trigger] candidate(self@, opt_slice(label), fp),
            },
    {
        proof {
            use_type_invariant(self);
            lemma_recordings(self.entries@);
        }
        let ghost lab = opt_slice(label);
        let mut best: Option<usize> = None;
        let mut i: usize = 0;
        while i < self.entries.len()
            invariant
                i <= self.entries@.len(),
                lab == opt_slice(label),
                distinct(self.entries@),
                best_before(want@, self.entries@, lab, best, i as int),
            decreases self.entries@.len() - i,
        {
            if may_compare(&self.entries[i].1, label) {
                match best {
                    None => {
                        best = Some(i);
                    },
                    Some(k) => {
                        assert(self.entries@[k as int].0@ != self.entries@[i as int].0@);
                        if prefer(want, &self.entries[i], &self.entries[k]) {
                            best = Some(i);
                            proof {
                                lemma_takes_over(want@, self.entries@, lab, k, i);
                            }
                        }
                    },
                }
            }
            i += 1;
        }
        proof {
            lemma_best_of_all(want@, self.entries@, lab, best);
        }
        best
    }
}

/// Whether a recording can be compared with.
fn may_compare(r: &Recording, label: Option<&str>) -> (b: bool)
    ensures
        b == comparable(r@, opt_slice(label)),
{
    if r.request.is_none() {
        return false;
    }
    match label {
        None => true,
        Some(l) => match &r.step {
            Some(s) => same(s.as_str(), l),
            None => false,
        },
    }
}

/// Whether a recording is preferred to another; where not, the other is preferred.
fn prefer(want: &str, a: &(String, Recording), b: &(String, Recording)) -> (r: bool)
    requires
        a.1@.request is Some,
        b.1@.request is Some,
        a.0@ != b.0@,
    ensures
        r == preferred(want@, a.0@, a.1@, b.0@, b.1@),
        !r ==> preferred(want@, b.0@, b.1@, a.0@, a.1@),
{
    proof {
        lemma_less_total(a.0@, b.0@);
    }
    match (&a.1.request, &b.1.request) {
        (Some(x), Some(y)) => {
            let n: usize = shared_bytes(want, x.as_str());
            let m: usize = shared_bytes(want, y.as_str());
            n > m || (n == m && less(b.0.as_str(), a.0.as_str()))
        },
        _ => false,
    }
}

proof fn lemma_takes_over(
    want: Seq<char>,
    s: Seq<(String, Recording)>,
    label: Option<Seq<char>>,
    k: usize,
    i: usize,
)
    requires
        i < s.len(),
        best_before(want, s, label, Some(k), i as int),
        comparable(s[i as int].1@, label),
        preferred(want, s[i as int].0@, s[i as int].1@, s[k as int].0@, s[k as int].1@),
    ensures
        best_before(want, s, label, Some(i), i + 1),
{
    assert forall|j: int|
        0 <= j < i + 1 && j != i && comparable((#[trigger] s[j]).1@, label) implies preferred(
        want,
        s[i as int].0@,
        s[i as int].1@,
        s[j].0@,
        s[j].1@,
    ) by {
        if j != k {
            lemma_preferred_transitive(
                want,
                s[i as int].0@,
                s[i as int].1@,
                s[k as int].0@,
                s[k as int].1@,
                s[j].0@,
                s[j].1@,
            );
        }
    }
}

proof fn lemma_best_of_all(
    want: Seq<char>,
    s: Seq<(String, Recording)>,
    label: Option<Seq<char>>,
    best: Option<usize>,
)
    requires
        distinct(s),
        best_before(want, s, label, best, s.len() as int),
    ensures
        match best {
            Some(k) => k < s.len() && recordings(s).contains_key(s[k as int].0@) && recordings(
                s,
            )[s[k as int].0@] == s[k as int].1@ && is_best(
                want,
                recordings(s),
                label,
                s[k as int].0@,
            ),
            None => forall|fp: Seq<char>| !#[trigger] candidate(recordings(s), label, fp),
        },
{
    lemma_recordings(s);
    let m = recordings(s);
    match best {
        None => {
            assert forall|fp: Seq<char>| !#[trigger] candidate(m, label, fp) by {
                if candidate(m, label, fp) {
                    let i = choose|i: int| 0 <= i < s.len() && (#[trigger] s[i]).0@ == fp;
                    assert(m[s[i].0@] == s[i].1@);
                }
            }
        },
        Some(k) => {
            let fp = s[k as int].0@;
            assert forall|other: Seq<char>| #[trigger]
                candidate(m, label, other) && other != fp implies preferred(
                want,
                fp,
                m[fp],
                other,
                m[other],
            ) by {
                let i = choose|i: int| 0 <= i < s.len() && (#[trigger] s[i]).0@ == other;
                assert(m[s[i].0@] == s[i].1@);
            }
        },
    }
}

/// Chooses the recording that a request which was not recorded has to be compared
/// with, and says how it was found.
pub fn pick_baseline<'a>(want: &str, want_step: Option<&str>, cassette: &'a Cassette) -> (r: Option<
    (&'a str, &'a str, &'static str),
>)
    ensures
        is_baseline(want@, opt_slice(want_step), cassette@, choice_view(r)),
{
    match want_step {
        Some(step) if !is_empty(step) => {
            if let Some(k) = cassette.best(want, want_step) {
                assert(candidate(cassette@, opt_slice(want_step), cassette.entries@[k as int].0@));
                let e: &(String, Recording) = &cassette.entries[k];
                if let Some(q) = &e.1.request {
                    return Some((e.0.as_str(), q.as_str(), "label"));
                }
            }
        },
        _ => {},
    }
    assert(label_for(opt_slice(want_step), cassette@) is None);
    if let Some(k) = cassette.best(want, None) {
        let e: &(String, Recording) = &cassette.entries[k];
        if let Some(q) = &e.1.request {
            return Some((e.0.as_str(), q.as_str(), "prefix"));
        }
    }
    None
}

/// The choice depends on what was recorded alone: no two choices are right.
pub proof fn law_baseline_is_unique(
    want: Seq<char>,
    want_step: Option<Seq<char>>,
    m: Map<Seq<char>, RecordingView>,
    a: Baseline,
    b: Baseline,
)
    requires
        is_baseline(want, want_step, m, a),
        is_baseline(want, want_step, m, b),
    ensures
        a == b,
{
    let label = label_for(want_step, m);
    match (a, b) {
        (Some((f, q, x)), Some((g, r, y))) => {
            assert(candidate(m, label, f) && candidate(m, label, g));
            lemma_less_total(f, g);
        },
        (Some((f, q, x)), None) => {
            assert(candidate(m, label, f));
            assert(candidate(m, None, f));
        },
        (None, Some((g, r, y))) => {
            assert(candidate(m, label, g));
            assert(candidate(m, None, g));
        },
        (None, None) => {},
    }
}

/// A label of the call that some kept request carries decides: the choice has that
/// label, however close another recording is.
pub proof fn law_label_beats_closeness(
    want: Seq<char>,
    step: Seq<char>,
    m: Map<Seq<char>, RecordingView>,
    labelled: Seq<char>,
    r: Baseline,
)
    requires
        step.len() > 0,
        candidate(m, Some(step), labelled),
        is_baseline(want, Some(step), m, r),
    ensures
        r is Some,
        m[(r->0).0].step == Some(step),
        (r->0).2 == "label"@,
{
    assert(candidate(m, None, labelled));
}

/// The label of the step that a call belongs to, among the attributes of the call.
pub fn step_of(attributes: &Json) -> (r: Option<&str>)
    ensures
        opt_slice(r) == attributes@.at(STEP_ATTR@).as_str(),
{
    attributes.str_at(STEP_ATTR)
}

} // verus!
