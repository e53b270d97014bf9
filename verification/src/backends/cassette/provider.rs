//! The two modes of a cassette: recording what another provider answers, and
//! playing it back.

use crate::backends::cassette::file::{
    file_in, file_lasts, file_value, flush_text, is_file_read, CassetteFile, FileError, FileView,
};
use crate::backends::cassette::fingerprint::{fingerprint, fingerprint_of};
use crate::backends::cassette::request::{canon, canon_request};
use crate::backends::cassette::store::{
    is_baseline, pick_baseline, Baseline, Cassette, Recording, RecordingView,
};
use crate::capabilities::Capabilities;
use crate::json::{serde_parse, serde_pretty};
use crate::text::{opt_slice, opt_str};
use crate::types::{
    copy_events, emit, events, events_result, ChatEvent, ChatRequest, ErrorView, EventView,
    ProviderError,
};
use vstd::prelude::*;
use vstd::string::*;

verus! {

/// The items of a stream, as far as they are free of errors.
pub type StreamItem = Result<ChatEvent, ProviderError>;

/// The error for a request that was not recorded: what was asked for, and the
/// recording to compare it with.
pub open spec fn miss(text: Seq<char>, baseline: Baseline) -> ErrorView {
    ErrorView::CassetteMiss {
        want_fp: fingerprint(text),
        want_canon: text,
        baseline_fp: match baseline {
            Some((fp, request, by)) => Some(fp),
            None => None,
        },
        baseline_canon: match baseline {
            Some((fp, request, by)) => Some(request),
            None => None,
        },
        baseline_selected_by: match baseline {
            Some((fp, request, by)) => Some(by),
            None => None,
        },
    }
}

/// Whether an answer from the recordings is the right one: the recorded events, or
/// an error that names the recording to compare with.
pub open spec fn is_replay(
    m: Map<Seq<char>, RecordingView>,
    text: Seq<char>,
    step: Option<Seq<char>>,
    r: Result<Seq<EventView>, ErrorView>,
) -> bool {
    if m.contains_key(fingerprint(text)) {
        r == Ok::<Seq<EventView>, ErrorView>(m[fingerprint(text)].events)
    } else {
        exists|b: Baseline| #[trigger]
            is_baseline(text, step, m, b) && r == Err::<Seq<EventView>, ErrorView>(miss(text, b))
    }
}

/// Answers a request from the recordings.
pub fn replay_events(cassette: &Cassette, text: &str, step: Option<&str>) -> (r: Result<
    Vec<ChatEvent>,
    ProviderError,
>)
    ensures
        is_replay(cassette@, text@, opt_slice(step), events_result(r)),
{
    let fp: String = fingerprint_of(text);
    match cassette.get(fp.as_str()) {
        Some(rec) => Ok(copy_events(&rec.events)),
        None => {
            let picked: Option<(&str, &str, &'static str)> = pick_baseline(text, step, cassette);
            let ghost b = crate::backends::cassette::store::choice_view(picked);
            assert(is_baseline(text@, opt_slice(step), cassette@, b));
            let want_canon: String = text.to_owned();
            let e: ProviderError = match picked {
                Some((bfp, request, by)) => ProviderError::CassetteMiss {
                    want_fp: fp,
                    want_canon,
                    baseline_fp: Some(bfp.to_owned()),
                    baseline_canon: Some(request.to_owned()),
                    baseline_selected_by: Some(by.to_owned()),
                },
                None => ProviderError::CassetteMiss {
                    want_fp: fp,
                    want_canon,
                    baseline_fp: None,
                    baseline_canon: None,
                    baseline_selected_by: None,
                },
            };
            assert(e@ == miss(text@, b));
            Err(e)
        },
    }
}

/// The events of a stream that is free of errors.
pub open spec fn clean_events(s: Seq<StreamItem>) -> Option<Seq<EventView>> {
    if forall|i: int| 0 <= i < s.len() ==> (#[trigger] s[i]) is Ok {
        Some(s.map_values(|x: StreamItem| (x->Ok_0)@))
    } else {
        None
    }
}

/// Copies the events of a stream that is free of errors.
fn copy_clean(s: &Vec<StreamItem>) -> (r: Option<Vec<ChatEvent>>)
    ensures
        match r {
            Some(v) => clean_events(s@) == Some(events(v@)),
            None => clean_events(s@) is None,
        },
{
    let ghost whole = s@.map_values(|x: StreamItem| (x->Ok_0)@);
    let mut out: Vec<ChatEvent> = Vec::new();
    let mut i: usize = 0;
    assert(events(out@) =~= whole.take(0));
    while i < s.len()
        invariant
            i <= s@.len(),
            whole == s@.map_values(|x: StreamItem| (x->Ok_0)@),
            forall|j: int| 0 <= j < i ==> (#[trigger] s@[j]) is Ok,
            events(out@) == whole.take(i as int),
        decreases s@.len() - i,
    {
        match &s[i] {
            Ok(e) => {
                emit(&mut out, e.clone());
                assert(whole.take(i + 1) =~= whole.take(i as int).push((s@[i as int]->Ok_0)@));
            },
            Err(_) => {
                assert(!(s@[i as int] is Ok));
                return None;
            },
        }
        i += 1;
    }
    assert(whole.take(s@.len() as int) =~= whole);
    Some(out)
}

/// The recordings after a stream has gone by: one that is free of errors is kept,
/// in place of an earlier one for the same request.
pub open spec fn recorded(
    m: Map<Seq<char>, RecordingView>,
    text: Seq<char>,
    step: Option<Seq<char>>,
    s: Seq<StreamItem>,
) -> Map<Seq<char>, RecordingView> {
    match clean_events(s) {
        Some(e) => m.insert(
            fingerprint(text),
            RecordingView { request: Some(text), step, events: e },
        ),
        None => m,
    }
}

/// Keeps a stream that is free of errors. Says whether it was kept, so that the
/// cassette has to be written out.
pub fn record_events(
    cassette: &mut Cassette,
    text: &str,
    step: Option<String>,
    stream: &Vec<StreamItem>,
) -> (r: bool)
    ensures
        final(cassette)@ == recorded(old(cassette)@, text@, opt_str(step), stream@),
        r == (clean_events(stream@) is Some),
{
    match copy_clean(stream) {
        Some(kept) => {
            let rec: Recording = Recording {
                request: Some(text.to_owned()),
                step,
                events: kept,
            };
            assert(rec@ == (RecordingView {
                request: Some(text@),
                step: opt_str(step),
                events: events(kept@),
            }));
            cassette.insert(fingerprint_of(text), rec);
            true
        },
        None => false,
    }
}

/// What to do with a request.
pub enum CassetteStep {
    /// Answer with these events.
    Reply(Vec<ChatEvent>),
    /// Refuse with this error.
    Refuse(ProviderError),
    /// Ask the recorded provider, and hand back what it answers together with this
    /// text of the request.
    Forward { canon: String },
}

/// A provider that answers from recordings, or keeps what another provider answers.
pub struct CassetteProvider {
    id: String,
    capabilities: Capabilities,
    recording: bool,
    cassette: Cassette,
}

/// What such a provider holds: its name, what it says it can do, whether it records,
/// and the recordings.
pub struct ProviderView {
    pub id: Seq<char>,
    pub capabilities: Capabilities,
    pub recording: bool,
    pub recordings: Map<Seq<char>, RecordingView>,
}

impl View for CassetteProvider {
    type V = ProviderView;

    closed spec fn view(&self) -> ProviderView {
        ProviderView {
            id: self.id@,
            capabilities: self.capabilities,
            recording: self.recording,
            recordings: self.cassette@,
        }
    }
}

impl ProviderView {
    /// What is kept in a file.
    pub open spec fn file(self) -> FileView {
        FileView { profile: Some(self.capabilities), recordings: self.recordings }
    }
}

/// What an answer says: the items of its stream, or the error in its place.
pub open spec fn stream_result(r: Result<Vec<StreamItem>, ProviderError>) -> Result<
    Seq<StreamItem>,
    ErrorView,
> {
    match r {
        Ok(s) => Ok(s@),
        Err(e) => Err(e@),
    }
}

/// Whether a request was answered with `r`, and left the provider with `after`. One that
/// records hands on what the recorded provider answers, and keeps it; one that answers
/// from recordings asks no other, and stays as it is.
pub open spec fn is_streamed(
    before: ProviderView,
    req: ChatRequest,
    model: Seq<char>,
    step: Option<Seq<char>>,
    inner: Result<Seq<StreamItem>, ErrorView>,
    r: Result<Seq<StreamItem>, ErrorView>,
    after: ProviderView,
) -> bool {
    if before.recording {
        r == inner && after == (ProviderView {
            recordings: match inner {
                Ok(s) => recorded(before.recordings, canon(req, model), step, s),
                Err(_) => before.recordings,
            },
            ..before
        })
    } else {
        after == before && match r {
            Ok(s) => clean_events(s) is Some && is_replay(
                before.recordings,
                canon(req, model),
                step,
                Ok(clean_events(s)->0),
            ),
            Err(e) => is_replay(before.recordings, canon(req, model), step, Err(e)),
        }
    }
}

/// The events as the items of a stream.
fn as_stream(all: Vec<ChatEvent>) -> (r: Vec<StreamItem>)
    ensures
        clean_events(r@) == Some(events(all@)),
{
    let mut out: Vec<StreamItem> = Vec::new();
    let mut i: usize = 0;
    while i < all.len()
        invariant
            i <= all@.len(),
            out@.len() == i,
            forall|j: int| 0 <= j < i ==> (#[trigger] out@[j]) is Ok && (out@[j]->Ok_0)@ == all@[j]@,
        decreases all@.len() - i,
    {
        out.push(Ok(all[i].clone()));
        i += 1;
    }
    assert(out@.map_values(|x: StreamItem| (x->Ok_0)@) =~= events(all@));
    out
}

/// What a provider that answers from recordings says it can do: what the recorded one
/// could, or else what is usual.
pub open spec fn advertised(caps: Option<Capabilities>, usual: Capabilities) -> Capabilities {
    match caps {
        Some(c) => c,
        None => usual,
    }
}

impl CassetteProvider {
    /// One that answers from recordings, with the capabilities that are usual for it.
    pub fn replay(id: &str, cassette: Cassette, usual: Capabilities) -> (r: CassetteProvider)
        ensures
            r@ == (ProviderView {
                id: id@,
                capabilities: usual,
                recording: false,
                recordings: cassette@,
            }),
    {
        CassetteProvider::replay_with_caps(id, cassette, None, usual)
    }

    /// One that answers from recordings, with the capabilities of the provider that was
    /// recorded where they are known.
    pub fn replay_with_caps(
        id: &str,
        cassette: Cassette,
        caps: Option<Capabilities>,
        usual: Capabilities,
    ) -> (r: CassetteProvider)
        ensures
            r@ == (ProviderView {
                id: id@,
                capabilities: advertised(caps, usual),
                recording: false,
                recordings: cassette@,
            }),
    {
        let capabilities: Capabilities = match caps {
            Some(c) => c,
            None => usual,
        };
        CassetteProvider { id: id.to_owned(), capabilities, recording: false, cassette }
    }

    /// One that answers from the recordings in the text of a file.
    pub fn replay_from_file(id: &str, text: &str, usual: Capabilities) -> (r: Result<
        CassetteProvider,
        FileError,
    >)
        ensures
            match r {
                Ok(p) => serde_parse(text@) is Ok && file_in(text@) is Some && p@ == (ProviderView {
                    id: id@,
                    capabilities: advertised((file_in(text@)->0).profile, usual),
                    recording: false,
                    recordings: (file_in(text@)->0).recordings,
                }),
                Err(e) => is_file_read(text@, Err(e)),
            },
    {
        match CassetteFile::from_text(text) {
            Ok(f) => Ok(
                CassetteProvider::replay_with_caps(id, f.recordings, f.capabilities, usual),
            ),
            Err(e) => Err(e),
        }
    }

    /// One that records a provider with these capabilities.
    pub fn record(id: &str, inner: Capabilities) -> (r: CassetteProvider)
        ensures
            r@ == (ProviderView {
                id: id@,
                capabilities: inner,
                recording: true,
                recordings: Map::<Seq<char>, RecordingView>::empty(),
            }),
    {
        CassetteProvider::record_seeded(id, inner, Cassette::new())
    }

    /// One that records, and adds to earlier recordings.
    pub fn record_seeded(id: &str, inner: Capabilities, seed: Cassette) -> (r: CassetteProvider)
        ensures
            r@ == (ProviderView {
                id: id@,
                capabilities: inner,
                recording: true,
                recordings: seed@,
            }),
    {
        CassetteProvider {
            id: id.to_owned(),
            capabilities: inner,
            recording: true,
            cassette: seed,
        }
    }

    /// The name.
    pub fn id(&self) -> (r: &str)
        ensures
            r@ == self@.id,
    {
        self.id.as_str()
    }

    /// What it says it can do.
    pub fn capabilities(&self) -> (r: &Capabilities)
        ensures
            *r == self@.capabilities,
    {
        &self.capabilities
    }

    /// The text to keep in a file. There is none where nothing has been recorded.
    pub fn flush(&self) -> (r: Option<String>)
        ensures
            r is None <==> !self@.recording || self@.recordings.dom() =~= Set::<
                Seq<char>,
            >::empty(),
            r matches Some(text) ==> {
                &&& text@ == serde_pretty(file_value(self@.file()))
                &&& file_lasts(self@.file()) ==> file_in(text@) == Some(self@.file())
            },
    {
        if self.recording {
            flush_text(&self.cassette, &self.capabilities)
        } else {
            None
        }
    }

    /// The recordings.
    pub fn recordings(&self) -> (r: &Cassette)
        ensures
            r@ == self@.recordings,
    {
        &self.cassette
    }

    /// Takes out what was recorded. One that answers from recordings has recorded
    /// nothing, and keeps what it holds.
    pub fn take_captured(&mut self) -> (r: Cassette)
        ensures
            old(self)@.recording ==> r@ == old(self)@.recordings && final(self)@ == (ProviderView {
                recordings: Map::<Seq<char>, RecordingView>::empty(),
                ..old(self)@
            }),
            !old(self)@.recording ==> r@ == Map::<Seq<char>, RecordingView>::empty()
                && final(self)@ == old(self)@,
    {
        if self.recording {
            self.cassette.take()
        } else {
            Cassette::new()
        }
    }

    /// Decides what to do with a request.
    pub fn on_request(&self, req: &ChatRequest, model: &str, step: Option<&str>) -> (r:
        CassetteStep)
        ensures
            match r {
                CassetteStep::Forward { canon: text } => self@.recording && text@ == canon(
                    *req,
                    model@,
                ),
                CassetteStep::Reply(v) => !self@.recording && is_replay(
                    self@.recordings,
                    canon(*req, model@),
                    opt_slice(step),
                    Ok(events(v@)),
                ),
                CassetteStep::Refuse(e) => !self@.recording && is_replay(
                    self@.recordings,
                    canon(*req, model@),
                    opt_slice(step),
                    Err(e@),
                ),
            },
    {
        let text: String = canon_request(req, model);
        if self.recording {
            CassetteStep::Forward { canon: text }
        } else {
            match replay_events(&self.cassette, text.as_str(), step) {
                Ok(v) => CassetteStep::Reply(v),
                Err(e) => CassetteStep::Refuse(e),
            }
        }
    }

    /// Takes note of what the recorded provider answered. Says whether it was kept.
    pub fn on_reply(&mut self, text: &str, step: Option<String>, stream: &Vec<StreamItem>) -> (r:
        bool)
        requires
            old(self)@.recording,
        ensures
            final(self)@ == (ProviderView {
                recordings: recorded(old(self)@.recordings, text@, opt_str(step), stream@),
                ..old(self)@
            }),
            r == (clean_events(stream@) is Some),
    {
        record_events(&mut self.cassette, text, step, stream)
    }

    /// Answers a request. `inner` is what the recorded provider answers to it, which only
    /// one that records looks at. Says as well whether the recordings have to be written
    /// out.
    pub fn stream(
        &mut self,
        req: &ChatRequest,
        model: &str,
        step: Option<String>,
        inner: Result<Vec<StreamItem>, ProviderError>,
    ) -> (r: (Result<Vec<StreamItem>, ProviderError>, bool))
        ensures
            is_streamed(
                old(self)@,
                *req,
                model@,
                opt_str(step),
                stream_result(inner),
                stream_result(r.0),
                final(self)@,
            ),
            r.1 == (old(self)@.recording && (inner matches Ok(s) && clean_events(s@) is Some)),
    {
        let label: Option<&str> = match &step {
            Some(s) => Some(s.as_str()),
            None => None,
        };
        match self.on_request(req, model, label) {
            CassetteStep::Reply(v) => (Ok(as_stream(v)), false),
            CassetteStep::Refuse(e) => (Err(e), false),
            CassetteStep::Forward { canon } => match inner {
                Ok(s) => {
                    let kept: bool = self.on_reply(canon.as_str(), step, &s);
                    (Ok(s), kept)
                },
                Err(e) => (Err(e), false),
            },
        }
    }
}

/// What is recorded is played back as it was: `p` records an answer free of errors, and
/// hands it on as it is; `q`, which still holds that recording, answers the same request
/// with the same events, under whatever step and however often it is asked.
pub proof fn law_streams_play_back(
    p: ProviderView,
    p_after: ProviderView,
    q: ProviderView,
    q_after: ProviderView,
    req: ChatRequest,
    model: Seq<char>,
    step: Option<Seq<char>>,
    inner: Seq<StreamItem>,
    handed_on: Result<Seq<StreamItem>, ErrorView>,
    asked_step: Option<Seq<char>>,
    unused: Result<Seq<StreamItem>, ErrorView>,
    played: Result<Seq<StreamItem>, ErrorView>,
)
    requires
        p.recording,
        clean_events(inner) is Some,
        is_streamed(p, req, model, step, Ok(inner), handed_on, p_after),
        !q.recording,
        ({
            let fp = fingerprint(canon(req, model));
            q.recordings.contains_key(fp) && q.recordings[fp] == p_after.recordings[fp]
        }),
        is_streamed(q, req, model, asked_step, unused, played, q_after),
    ensures
        handed_on == Ok::<Seq<StreamItem>, ErrorView>(inner),
        p_after.recordings.contains_key(fingerprint(canon(req, model))),
        played matches Ok(s) && clean_events(s) == clean_events(inner),
        q_after == q,
{
}

/// A recording stays as it is while requests with other fingerprints are answered.
pub proof fn law_streams_leave_others(
    p: ProviderView,
    p_after: ProviderView,
    req: ChatRequest,
    model: Seq<char>,
    step: Option<Seq<char>>,
    inner: Result<Seq<StreamItem>, ErrorView>,
    r: Result<Seq<StreamItem>, ErrorView>,
    fp: Seq<char>,
)
    requires
        is_streamed(p, req, model, step, inner, r, p_after),
        fp != fingerprint(canon(req, model)),
        p.recordings.contains_key(fp),
    ensures
        p_after.recordings.contains_key(fp),
        p_after.recordings[fp] == p.recordings[fp],
{
}

/// What was recorded is played back as it was: after an answer free of errors has
/// been kept, the same request is answered with the same events.
pub proof fn law_replay_gives_back_what_was_recorded(
    m: Map<Seq<char>, RecordingView>,
    req: ChatRequest,
    model: Seq<char>,
    step: Option<Seq<char>>,
    stream: Seq<StreamItem>,
    asked_step: Option<Seq<char>>,
    r: Result<Seq<EventView>, ErrorView>,
)
    requires
        clean_events(stream) is Some,
        is_replay(recorded(m, canon(req, model), step, stream), canon(req, model), asked_step, r),
    ensures
        r == Ok::<Seq<EventView>, ErrorView>(clean_events(stream)->0),
{
}

/// What was recorded is played back out of its file as well: `text` holds what the
/// recording provider keeps in a file, and the provider that is made from it says that
/// it can do what the recorded one could, and answers with the same events.
pub proof fn law_file_plays_back(
    p: ProviderView,
    req: ChatRequest,
    model: Seq<char>,
    step: Option<Seq<char>>,
    stream: Seq<StreamItem>,
    text: Seq<char>,
    usual: Capabilities,
    asked_step: Option<Seq<char>>,
    r: Result<Seq<EventView>, ErrorView>,
)
    requires
        clean_events(stream) is Some,
        file_in(text) == Some(
            (ProviderView {
                recordings: recorded(p.recordings, canon(req, model), step, stream),
                ..p
            }).file(),
        ),
        is_replay((file_in(text)->0).recordings, canon(req, model), asked_step, r),
    ensures
        r == Ok::<Seq<EventView>, ErrorView>(clean_events(stream)->0),
        advertised((file_in(text)->0).profile, usual) == p.capabilities,
{
}

/// A request that was not recorded is never answered: the answer is an error that
/// carries the fingerprint and the text of the request.
pub proof fn law_miss_is_a_signal(
    m: Map<Seq<char>, RecordingView>,
    req: ChatRequest,
    model: Seq<char>,
    step: Option<Seq<char>>,
    r: Result<Seq<EventView>, ErrorView>,
)
    requires
        !m.contains_key(fingerprint(canon(req, model))),
        is_replay(m, canon(req, model), step, r),
    ensures
        r matches Err(ErrorView::CassetteMiss { want_fp, want_canon, .. }) && want_fp
            == fingerprint(canon(req, model)) && want_canon == canon(req, model),
{
}

/// A stream that holds an error leaves the recordings as they were.
pub proof fn law_failed_stream_is_not_kept(
    m: Map<Seq<char>, RecordingView>,
    text: Seq<char>,
    step: Option<Seq<char>>,
    stream: Seq<StreamItem>,
    i: int,
)
    requires
        0 <= i < stream.len(),
        stream[i] is Err,
    ensures
        recorded(m, text, step, stream) == m,
{
    assert(!(stream[i] is Ok));
}

/// Recording one request leaves the recordings of all others as they were.
pub proof fn law_other_recordings_kept(
    m: Map<Seq<char>, RecordingView>,
    text: Seq<char>,
    step: Option<Seq<char>>,
    stream: Seq<StreamItem>,
    fp: Seq<char>,
)
    requires
        fp != fingerprint(text),
        m.contains_key(fp),
    ensures
        recorded(m, text, step, stream).contains_key(fp),
        recorded(m, text, step, stream)[fp] == m[fp],
{
}

} // verus!
