//! Refreshing the calendar cache: reading the listing of the sources, and the
//! order in which the sources are fetched, retried and given up.

use vstd::prelude::*;
use crate::text::texts;

verus! {

/// How many attempts a source gets where nothing else is asked for.
pub const DEFAULT_MAX_RETRIES: u8 = 3;

/// The seconds to wait after a failed attempt before the next one.
pub const RETRY_DELAY_SECONDS: u64 = 2;

/// Why a refresh cannot go on at all.
#[derive(Clone, Copy, Debug, PartialEq, Eq, Structural)]
pub enum AcquisitionError {
    /// The listing of the sources could not be fetched.
    ListingUnavailable,
    /// The listing is no sequence of names.
    ListingUnreadable,
}

/// The names that the JSON text `text` lists: `Some` where the text is one
/// JSON array of strings, `None` for any other text.
pub uninterp spec fn listed_names(text: Seq<char>) -> Option<Seq<Seq<char>>>;

/// `serde_json::from_str` at the type `Vec<String>`: the strings of a JSON
/// array of strings, or `None` where it reports an error. The outcome depends
/// on the text alone.
#[verifier::external_body]
fn parse_names(text: &str) -> (res: Option<Vec<String>>)
    ensures
        match res {
            Some(names) => listed_names(text@) == Some(texts(names@)),
            None => listed_names(text@) is None,
        },
{
    serde_json::from_str::<Vec<String>>(text).ok()
}

/// Whether a refresh has to run: the cache is missing, it is stale, or the
/// refresh is forced.
pub open spec fn refresh_due(cache_present: bool, stale: bool, force: bool) -> bool {
    !cache_present || stale || force
}

/// Computes `refresh_due`.
pub fn needs_refresh(cache_present: bool, stale: bool, force: bool) -> (due: bool)
    ensures
        due == refresh_due(cache_present, stale, force),
{
    !cache_present || stale || force
}

/// Reads the listing of the sources. The listing counts only as a whole: a
/// text that is not a JSON array of strings gives no names at all.
pub fn read_listing(text: &str) -> (res: Result<Vec<String>, AcquisitionError>)
    ensures
        match res {
            Ok(names) => listed_names(text@) == Some(texts(names@)),
            Err(e) => listed_names(text@) is None && e == AcquisitionError::ListingUnreadable,
        },
{
    match parse_names(text) {
        Some(names) => Ok(names),
        None => Err(AcquisitionError::ListingUnreadable),
    }
}

/// The names of the sources, from what the request for the listing brought:
/// `None` stands for a request that failed. Only a listing that was fetched
/// and lists names counts; in every other case the refresh ends here, with no
/// name to download anything for.
pub open spec fn listing(fetched: Option<Seq<char>>) -> Result<Seq<Seq<char>>, AcquisitionError> {
    match fetched {
        None => Err(AcquisitionError::ListingUnavailable),
        Some(text) => match listed_names(text) {
            Some(names) => Ok(names),
            None => Err(AcquisitionError::ListingUnreadable),
        },
    }
}

/// Works out the names of the sources from what the request for the listing
/// brought; `fetched` is `None` where the request failed. A failed request
/// and a body that lists no names both end the refresh.
pub fn listing_of(fetched: Option<&str>) -> (res: Result<Vec<String>, AcquisitionError>)
    ensures
        match res {
            Ok(names) => listing(
                match fetched {
                    Some(text) => Some(text@),
                    None => None,
                },
            ) == Ok::<Seq<Seq<char>>, AcquisitionError>(texts(names@)),
            Err(e) => listing(
                match fetched {
                    Some(text) => Some(text@),
                    None => None,
                },
            ) == Err::<Seq<Seq<char>>, AcquisitionError>(e),
        },
{
    match fetched {
        Some(text) => read_listing(text),
        None => Err(AcquisitionError::ListingUnavailable),
    }
}

/// What has become of one source.
#[derive(Clone, Copy, Debug, PartialEq, Eq, Structural)]
pub enum SourceState {
    /// Its turn has not come, or its download is still being tried.
    Pending,
    /// Its document has been downloaded.
    Stored,
    /// All its attempts have failed.
    Abandoned,
}

/// How one attempt to download a source came out.
#[derive(Clone, Copy, Debug, PartialEq, Eq, Structural)]
pub enum Attempt {
    /// The document was fetched and stored.
    Stored,
    /// The request failed, was answered with an error, or its body could not
    /// be read: worth another try.
    Failed,
    /// The document was fetched but could not be stored: another try would
    /// fetch it again to no end.
    Unstorable,
}

/// What the pipeline asks for next.
#[derive(Clone, Copy, Debug, PartialEq, Eq, Structural)]
pub enum PipelineAction {
    /// Try to download this source now.
    Fetch { source: usize },
    /// Wait this many seconds, then try this source again.
    WaitThenFetch { source: usize, seconds: u64 },
    /// Every source has had its turn: read what was downloaded.
    Materialize,
}

/// The state of a pipeline as a plain value.
pub struct PipelineModel {
    /// What has become of each source.
    pub states: Seq<SourceState>,
    /// The source whose turn it is; the number of sources when all are done.
    pub current: nat,
    /// How many attempts of the current source have failed.
    pub attempts: nat,
    /// The number of attempts asked for.
    pub max_retries: u8,
}

impl PipelineModel {
    /// How many attempts a source gets: as many as asked for, and one where
    /// none is asked for.
    pub open spec fn allowed(self) -> nat {
        if self.max_retries == 0 {
            1
        } else {
            self.max_retries as nat
        }
    }

    /// Whether every source has had its turn.
    pub open spec fn finished(self) -> bool {
        self.current >= self.states.len()
    }

    /// Whether the state is one that a pipeline can be in: the sources before
    /// the current one are settled, the others pending, and the current one
    /// has attempts left.
    pub open spec fn wf(self) -> bool {
        &&& self.current <= self.states.len()
        &&& self.attempts < self.allowed()
        &&& self.finished() ==> self.attempts == 0
        &&& forall|i: int| 0 <= i < self.current ==> self.states[i] != SourceState::Pending
        &&& forall|i: int|
            self.current <= i < self.states.len() ==> self.states[i] == SourceState::Pending
    }

    /// The state with the current source settled as `settled` and the turn
    /// passed on.
    pub open spec fn settle(self, settled: SourceState) -> PipelineModel {
        PipelineModel {
            states: self.states.update(self.current as int, settled),
            current: self.current + 1,
            attempts: 0,
            max_retries: self.max_retries,
        }
    }

    /// The state after an attempt on the current source. A stored document
    /// settles the source as stored. A document that cannot be stored, and the
    /// last allowed failure, settle it as abandoned. All three pass the turn
    /// on. Any other failure is counted. A finished pipeline stays as it is.
    pub open spec fn after(self, outcome: Attempt) -> PipelineModel {
        if self.finished() {
            self
        } else {
            match outcome {
                Attempt::Stored => self.settle(SourceState::Stored),
                Attempt::Unstorable => self.settle(SourceState::Abandoned),
                Attempt::Failed => if self.attempts + 1 >= self.allowed() {
                    self.settle(SourceState::Abandoned)
                } else {
                    PipelineModel { attempts: self.attempts + 1, ..self }
                },
            }
        }
    }

    /// What a pipeline in this state asks for when no attempt has just
    /// failed.
    pub open spec fn pending_action(self) -> PipelineAction {
        if self.finished() {
            PipelineAction::Materialize
        } else {
            PipelineAction::Fetch { source: self.current as usize }
        }
    }

    /// What the pipeline asks for after an attempt on the current source.
    pub open spec fn action_after(self, outcome: Attempt) -> PipelineAction {
        if !self.finished() && outcome == Attempt::Failed && self.attempts + 1 < self.allowed() {
            PipelineAction::WaitThenFetch {
                source: self.current as usize,
                seconds: RETRY_DELAY_SECONDS,
            }
        } else {
            self.after(outcome).pending_action()
        }
    }

    /// The state after the attempts on the sources have come out as
    /// `outcomes` tells, one after the other.
    pub open spec fn after_all(self, outcomes: Seq<Attempt>) -> PipelineModel
        decreases outcomes.len(),
    {
        if outcomes.len() == 0 {
            self
        } else {
            self.after_all(outcomes.drop_last()).after(outcomes.last())
        }
    }
}

/// The downloads of a refresh: which source is fetched next, when a failed
/// source is tried again, and when it is given up.
pub struct Pipeline {
    states: Vec<SourceState>,
    current: usize,
    attempts: u8,
    max_retries: u8,
}

impl View for Pipeline {
    type V = PipelineModel;

    closed spec fn view(&self) -> PipelineModel {
        PipelineModel {
            states: self.states@,
            current: self.current as nat,
            attempts: self.attempts as nat,
            max_retries: self.max_retries,
        }
    }
}

impl Pipeline {
    /// A pipeline for `sources` sources, none of them tried yet, in which
    /// each source gets `max_retries` attempts, and one attempt where
    /// `max_retries` is zero.
    pub fn new(sources: usize, max_retries: u8) -> (res: Pipeline)
        ensures
            res@.wf(),
            res@.states == Seq::new(sources as nat, |i: int| SourceState::Pending),
            res@.current == 0,
            res@.attempts == 0,
            res@.max_retries == max_retries,
    {
        let mut states: Vec<SourceState> = Vec::new();
        let mut i: usize = 0;
        while i < sources
            invariant
                i <= sources,
                states@ == Seq::new(i as nat, |j: int| SourceState::Pending),
            decreases sources - i,
        {
            states.push(SourceState::Pending);
            i = i + 1;
        }
        Pipeline { states, current: 0, attempts: 0, max_retries }
    }

    /// What the pipeline asks for now, when no attempt has just failed: the
    /// download of the current source, or the reading of the documents when
    /// every source has had its turn.
    pub fn next_action(&self) -> (action: PipelineAction)
        requires
            self@.wf(),
        ensures
            action == self@.pending_action(),
    {
        if self.current < self.states.len() {
            PipelineAction::Fetch { source: self.current }
        } else {
            PipelineAction::Materialize
        }
    }

    /// Takes note of how the attempt on the current source came out, and
    /// says what to do next. The other sources stay as they are.
    pub fn on_attempt(&mut self, outcome: Attempt) -> (action: PipelineAction)
        requires
            old(self)@.wf(),
        ensures
            final(self)@.wf(),
            final(self)@ == old(self)@.after(outcome),
            action == old(self)@.action_after(outcome),
            final(self)@.states.len() == old(self)@.states.len(),
            forall|i: int|
                0 <= i < old(self)@.states.len() && i != old(self)@.current ==> final(self)@.states[i]
                    == old(self)@.states[i],
    {
        if self.current >= self.states.len() {
            return PipelineAction::Materialize;
        }
        let allowed: u8 = if self.max_retries == 0 {
            1
        } else {
            self.max_retries
        };
        let settled = match outcome {
            Attempt::Stored => SourceState::Stored,
            Attempt::Unstorable => SourceState::Abandoned,
            Attempt::Failed => {
                if self.attempts + 1 < allowed {
                    self.attempts = self.attempts + 1;
                    return PipelineAction::WaitThenFetch {
                        source: self.current,
                        seconds: RETRY_DELAY_SECONDS,
                    };
                }
                SourceState::Abandoned
            },
        };
        self.states[self.current] = settled;
        self.current = self.current + 1;
        self.attempts = 0;
        if self.current < self.states.len() {
            PipelineAction::Fetch { source: self.current }
        } else {
            PipelineAction::Materialize
        }
    }

    /// What has become of the source `source`.
    pub fn state_of(&self, source: usize) -> (state: SourceState)
        requires
            source < self@.states.len(),
        ensures
            state == self@.states[source as int],
    {
        self.states[source]
    }

    /// The number of sources.
    pub fn sources(&self) -> (n: usize)
        ensures
            n == self@.states.len(),
    {
        self.states.len()
    }

    /// Whether every source has had its turn.
    pub fn is_finished(&self) -> (done: bool)
        ensures
            done == self@.finished(),
    {
        self.current >= self.states.len()
    }
}

/// An attempt keeps a pipeline well formed and changes no source but the
/// current one.
pub proof fn lemma_attempt_touches_current_only(p: PipelineModel, outcome: Attempt)
    requires
        p.wf(),
    ensures
        p.after(outcome).wf(),
        p.after(outcome).states.len() == p.states.len(),
        p.after(outcome).current >= p.current,
        forall|i: int|
            0 <= i < p.states.len() && i != p.current ==> p.after(outcome).states[i] == p.states[i],
{
}

/// A source that has used up its attempts is abandoned without holding up
/// the others: the pipeline passes on to the next source, or to the reading
/// of the documents after the last one, and every other source is as before.
pub proof fn lemma_exhaustion_passes_on(p: PipelineModel)
    requires
        p.wf(),
        !p.finished(),
        p.attempts + 1 == p.allowed(),
    ensures
        p.after(Attempt::Failed).states[p.current as int] == SourceState::Abandoned,
        p.after(Attempt::Failed).current == p.current + 1,
        p.after(Attempt::Failed).attempts == 0,
        p.action_after(Attempt::Failed) == (if p.current + 1 < p.states.len() {
            PipelineAction::Fetch { source: (p.current + 1) as usize }
        } else {
            PipelineAction::Materialize
        }),
        forall|i: int|
            0 <= i < p.states.len() && i != p.current ==> p.after(Attempt::Failed).states[i]
                == p.states[i],
{
}

/// A document that cannot be stored abandons its source at once, however
/// many attempts are left, and holds up the others no more than a source
/// that has used up its attempts.
pub proof fn lemma_unstorable_passes_on(p: PipelineModel)
    requires
        p.wf(),
        !p.finished(),
    ensures
        p.after(Attempt::Unstorable) == p.settle(SourceState::Abandoned),
        p.after(Attempt::Unstorable).states[p.current as int] == SourceState::Abandoned,
        p.action_after(Attempt::Unstorable) == (if p.current + 1 < p.states.len() {
            PipelineAction::Fetch { source: (p.current + 1) as usize }
        } else {
            PipelineAction::Materialize
        }),
        forall|i: int|
            0 <= i < p.states.len() && i != p.current ==> p.after(Attempt::Unstorable).states[i]
                == p.states[i],
{
}

/// What is settled stays settled: whatever comes of the later attempts, a
/// source that has been stored stays stored and one that has been abandoned
/// stays abandoned.
pub proof fn lemma_settled_stays(p: PipelineModel, outcomes: Seq<Attempt>, source: int)
    requires
        p.wf(),
        0 <= source < p.states.len(),
        p.states[source] != SourceState::Pending,
    ensures
        p.after_all(outcomes).wf(),
        p.after_all(outcomes).states.len() == p.states.len(),
        p.after_all(outcomes).current >= p.current,
        p.after_all(outcomes).states[source] == p.states[source],
    decreases outcomes.len(),
{
    if outcomes.len() > 0 {
        lemma_settled_stays(p, outcomes.drop_last(), source);
        lemma_attempt_touches_current_only(p.after_all(outcomes.drop_last()), outcomes.last());
    }
}

/// A source whose turn it is gets stored by a success at any of its allowed
/// attempts, whatever became of the sources before it.
pub proof fn lemma_success_stores(p: PipelineModel)
    requires
        p.wf(),
        !p.finished(),
    ensures
        p.after(Attempt::Stored).states[p.current as int] == SourceState::Stored,
        p.after(Attempt::Stored).current == p.current + 1,
{
}

/// A failure before the last allowed attempt is followed by the fixed delay
/// and another attempt on the same source.
pub proof fn lemma_failure_retries(p: PipelineModel)
    requires
        p.wf(),
        !p.finished(),
        p.attempts + 1 < p.allowed(),
    ensures
        p.after(Attempt::Failed).current == p.current,
        p.after(Attempt::Failed).attempts == p.attempts + 1,
        p.after(Attempt::Failed).states == p.states,
        p.action_after(Attempt::Failed) == (PipelineAction::WaitThenFetch {
            source: p.current as usize,
            seconds: RETRY_DELAY_SECONDS,
        }),
{
}

} // verus!
