//! The fallback chain: the stores of a platform are tried in order, and the
//! first usable text decides.
//!
//! Only a failed read moves the chain on to the next store. A text that was
//! read and spells no identifier ends the resolution with that error.

use crate::error::Error;
use crate::id::MachineId;
use crate::source::{outcome_model, Outcome, OutcomeModel, Platform, Source};
use crate::text::normalized;
use vstd::prelude::*;

verus! {

/// The result of a resolution as plain values.
pub type Resolution = Result<Seq<u8>, Error>;

/// The plain values of a result.
pub open spec fn result_model(result: Result<MachineId, Error>) -> Resolution {
    match result {
        Ok(id) => Ok(id@),
        Err(e) => Err(e),
    }
}

/// What a raw text that was read comes to: its identifier, or the error that
/// it spells none.
pub open spec fn settle(raw: Seq<char>) -> Resolution {
    match normalized(raw) {
        Some(bytes) => Ok(bytes),
        None => Err(Error::InvalidUuid),
    }
}

/// Whether store `i` gives a usable text and no store before it does.
pub open spec fn first_usable(sources: Seq<Source>, outcomes: Seq<OutcomeModel>, i: int) -> bool {
    &&& 0 <= i < sources.len()
    &&& sources[i].checked(outcomes[i]) is Ok
    &&& forall|j: int| 0 <= j < i ==> (#[trigger] sources[j].checked(outcomes[j])) is Err
}

/// What a chain of stores resolves to, where `outcomes[i]` is what reading
/// `sources[i]` gives: the text of the first store with a usable one decides,
/// and where no store has one, the failure of the last store is reported.
pub open spec fn resolution(sources: Seq<Source>, outcomes: Seq<OutcomeModel>) -> Resolution
    recommends
        sources.len() > 0,
        sources.len() == outcomes.len(),
{
    if exists|i: int| first_usable(sources, outcomes, i) {
        let i = choose|i: int| first_usable(sources, outcomes, i);
        settle(sources[i].checked(outcomes[i])->Ok_0)
    } else {
        Err(Error::IoError(sources.last().checked(outcomes.last())->Err_0))
    }
}

/// How many stores a resolution reads: all up to the first with a usable text,
/// or all of them.
pub open spec fn consulted(sources: Seq<Source>, outcomes: Seq<OutcomeModel>) -> int
    recommends
        sources.len() == outcomes.len(),
{
    if exists|i: int| first_usable(sources, outcomes, i) {
        (choose|i: int| first_usable(sources, outcomes, i)) + 1
    } else {
        sources.len() as int
    }
}

/// The plain values of a run of outcomes.
pub open spec fn outcome_models(outcomes: Seq<Outcome>) -> Seq<OutcomeModel> {
    outcomes.map_values(|outcome: Outcome| outcome_model(outcome))
}

/// Whether `outcomes` holds, for every store that the resolution reads, an
/// answer that `read` can give for it. Of a store that is not read nothing is
/// asked.
pub open spec fn answered_by<F: Fn(Source) -> Outcome>(
    read: F,
    sources: Seq<Source>,
    outcomes: Seq<Outcome>,
) -> bool {
    &&& outcomes.len() == sources.len()
    &&& forall|j: int|
        0 <= j < consulted(sources, outcome_models(outcomes)) ==> call_ensures(
            read,
            (sources[j],),
            #[trigger] outcomes[j],
        )
}

/// Whether `result` is what the stores of `platform` resolve to when they are
/// read through `read`.
pub open spec fn resolved_by<F: Fn(Source) -> Outcome>(
    platform: Platform,
    read: F,
    result: Resolution,
) -> bool {
    exists|outcomes: Seq<Outcome>| #[trigger]
        answered_by(read, platform.sources(), outcomes) && result == resolution(
            platform.sources(),
            outcome_models(outcomes),
        )
}

/// A resolution under way: the platform whose stores are tried, how many of
/// them have failed so far, and the store that is due, which is always the
/// platform's store at that place.
#[derive(Debug)]
pub struct Chain {
    platform: Platform,
    position: usize,
    source: Source,
}

/// What follows an outcome.
#[derive(Debug)]
pub enum Step {
    /// The store failed and another one is due: read the store that this
    /// chain names.
    Read(Chain),
    /// The resolution is over.
    Done(Result<MachineId, Error>),
}

impl Chain {
    #[verifier::type_invariant]
    spec fn in_range(self) -> bool {
        &&& self.position < self.platform.sources().len()
        &&& self.source == self.platform.sources()[self.position as int]
    }

    /// The platform whose stores are tried.
    pub closed spec fn platform(self) -> Platform {
        self.platform
    }

    /// How many stores have failed so far.
    pub closed spec fn position(self) -> int {
        self.position as int
    }

    /// The store that is due.
    pub open spec fn source_of(self) -> Source {
        self.platform().sources()[self.position()]
    }

    /// Whether no store is left after the one that is due.
    pub open spec fn at_last(self) -> bool {
        self.position() + 1 == self.platform().sources().len()
    }

    /// Starts a resolution: the first store of the platform is due.
    pub fn begin(platform: Platform) -> (chain: Chain)
        ensures
            chain.platform() == platform,
            chain.position() == 0,
    {
        Chain { platform, position: 0, source: platform.first_source() }
    }

    /// The store to read next.
    pub fn source(&self) -> (source: Source)
        ensures
            source == self.source_of(),
            0 <= self.position() < self.platform().sources().len(),
    {
        proof {
            use_type_invariant(self);
        }
        self.source
    }

    /// Takes the outcome of reading the store that is due.
    ///
    /// A usable text ends the resolution, with its identifier or with the
    /// error that it spells none. A failed read moves on to the next store,
    /// and after the last store it ends the resolution with that failure.
    pub fn advance(self, outcome: Outcome) -> (step: Step)
        ensures
            match self.source_of().checked(outcome_model(outcome)) {
                Ok(raw) => step matches Step::Done(result) && result_model(result) == settle(raw),
                Err(e) => if self.at_last() {
                    step == Step::Done(Err(Error::IoError(e)))
                } else {
                    &&& step matches Step::Read(next)
                    &&& next.platform() == self.platform()
                    &&& next.position() == self.position() + 1
                },
            },
    {
        proof {
            use_type_invariant(&self);
        }
        match self.source.check(outcome) {
            Ok(raw) => Step::Done(MachineId::parse(raw.as_str())),
            Err(e) => match self.platform.source_at(self.position + 1) {
                Some(source) => Step::Read(
                    Chain { platform: self.platform, position: self.position + 1, source },
                ),
                None => Step::Done(Err(Error::IoError(e))),
            },
        }
    }
}

/// At most one store is the first with a usable text.
pub proof fn lemma_first_usable_unique(
    sources: Seq<Source>,
    outcomes: Seq<OutcomeModel>,
    i: int,
    k: int,
)
    requires
        first_usable(sources, outcomes, i),
        first_usable(sources, outcomes, k),
    ensures
        i == k,
{
    if i < k {
        assert(sources[i].checked(outcomes[i]) is Err);
    } else if k < i {
        assert(sources[k].checked(outcomes[k]) is Err);
    }
}

/// Where store `i` is the first with a usable text, that text decides and
/// no store after it is read.
pub proof fn lemma_resolution_decided(sources: Seq<Source>, outcomes: Seq<OutcomeModel>, i: int)
    requires
        first_usable(sources, outcomes, i),
    ensures
        resolution(sources, outcomes) == settle(sources[i].checked(outcomes[i])->Ok_0),
        consulted(sources, outcomes) == i + 1,
{
    let k = choose|k: int| first_usable(sources, outcomes, k);
    lemma_first_usable_unique(sources, outcomes, i, k);
}

/// Where every store fails, the resolution fails with an access error, that
/// of the last store, and every store was read.
pub proof fn lemma_resolution_exhausted(sources: Seq<Source>, outcomes: Seq<OutcomeModel>)
    requires
        sources.len() > 0,
        forall|j: int| 0 <= j < sources.len() ==> (#[trigger] sources[j].checked(outcomes[j])) is Err,
    ensures
        resolution(sources, outcomes) == Err::<Seq<u8>, Error>(
            Error::IoError(sources.last().checked(outcomes.last())->Err_0),
        ),
        consulted(sources, outcomes) == sources.len(),
{
    assert forall|i: int| !first_usable(sources, outcomes, i) by {
        if 0 <= i < sources.len() {
            assert(sources[i].checked(outcomes[i]) is Err);
        }
    }
}

/// A resolution that fails with an access error has found no usable text in
/// any store: no value is made up when the stores fail, and no failure is
/// reported while a store has a usable text.
pub proof fn lemma_access_error_means_exhausted(sources: Seq<Source>, outcomes: Seq<OutcomeModel>)
    requires
        sources.len() > 0,
    ensures
        resolution(sources, outcomes) is Err && resolution(sources, outcomes)->Err_0 is IoError
            <==> forall|j: int|
            0 <= j < sources.len() ==> (#[trigger] sources[j].checked(outcomes[j])) is Err,
{
    if exists|i: int| first_usable(sources, outcomes, i) {
        let i = choose|i: int| first_usable(sources, outcomes, i);
        assert(sources[i].checked(outcomes[i]) is Ok);
    } else {
        if exists|j: int| 0 <= j < sources.len() && (#[trigger] sources[j].checked(outcomes[j])) is Ok {
            let j = choose|j: int| 0 <= j < sources.len() && (#[trigger] sources[j].checked(outcomes[j])) is Ok;
            lemma_some_first_usable(sources, outcomes, j);
        }
    }
}

/// Where some store up to `bound` has a usable text, one of them is the first.
proof fn lemma_some_first_usable(sources: Seq<Source>, outcomes: Seq<OutcomeModel>, bound: int)
    requires
        0 <= bound < sources.len(),
        sources[bound].checked(outcomes[bound]) is Ok,
    ensures
        exists|i: int| first_usable(sources, outcomes, i),
    decreases bound,
{
    if exists|j: int| 0 <= j < bound && (#[trigger] sources[j].checked(outcomes[j])) is Ok {
        let j = choose|j: int| 0 <= j < bound && (#[trigger] sources[j].checked(outcomes[j])) is Ok;
        lemma_some_first_usable(sources, outcomes, j);
    } else {
        assert(first_usable(sources, outcomes, bound));
    }
}

/// Two runs over the same stores whose reads give the same outcomes, as far
/// as the first run reads, resolve to the same result. What the stores that
/// were not read would have given does not matter.
pub proof fn lemma_same_answers_same_result(
    sources: Seq<Source>,
    first: Seq<OutcomeModel>,
    second: Seq<OutcomeModel>,
)
    requires
        sources.len() > 0,
        first.len() == sources.len(),
        second.len() == sources.len(),
        forall|j: int| 0 <= j < consulted(sources, first) ==> first[j] == second[j],
    ensures
        resolution(sources, first) == resolution(sources, second),
        consulted(sources, first) == consulted(sources, second),
{
    if exists|i: int| first_usable(sources, first, i) {
        let i = choose|i: int| first_usable(sources, first, i);
        assert(first_usable(sources, second, i)) by {
            assert forall|j: int| 0 <= j < i implies (#[trigger] sources[j].checked(second[j])) is Err by {
                assert(sources[j].checked(first[j]) is Err);
            }
        }
        lemma_resolution_decided(sources, first, i);
        lemma_resolution_decided(sources, second, i);
    } else {
        assert forall|j: int| 0 <= j < sources.len() implies (#[trigger] sources[j].checked(
            first[j],
        )) is Err by {
            if sources[j].checked(first[j]) is Ok {
                lemma_some_first_usable(sources, first, j);
            }
        }
        assert forall|j: int| 0 <= j < sources.len() implies (#[trigger] sources[j].checked(
            second[j],
        )) is Err by {
            assert(sources[j].checked(first[j]) is Err);
        }
        lemma_resolution_exhausted(sources, first);
        lemma_resolution_exhausted(sources, second);
    }
}

/// On Linux an unreadable or empty machine-id file hands the decision to the
/// file that D-Bus keeps. A machine-id file with text in it decides alone:
/// the second file is not read, whatever it holds and even where the text
/// spells no identifier.
pub proof fn lemma_linux_fallback(primary: OutcomeModel, secondary: OutcomeModel)
    ensures
        (primary is Err || primary->Ok_0.len() == 0) ==> {
            &&& consulted(Platform::Linux.sources(), seq![primary, secondary]) == 2
            &&& resolution(Platform::Linux.sources(), seq![primary, secondary]) == match secondary {
                Ok(raw) => settle(raw),
                Err(e) => Err(Error::IoError(e)),
            }
        },
        (primary is Ok && primary->Ok_0.len() > 0) ==> {
            &&& consulted(Platform::Linux.sources(), seq![primary, secondary]) == 1
            &&& resolution(Platform::Linux.sources(), seq![primary, secondary]) == settle(
                primary->Ok_0,
            )
        },
        (primary is Err || primary->Ok_0.len() == 0) && secondary is Ok && normalized(
            secondary->Ok_0,
        ) is Some ==> resolution(Platform::Linux.sources(), seq![primary, secondary]) == Ok::<
            Seq<u8>,
            Error,
        >(normalized(secondary->Ok_0)->0),
        primary is Ok && primary->Ok_0.len() > 0 && normalized(primary->Ok_0) is None
            ==> resolution(Platform::Linux.sources(), seq![primary, secondary]) == Err::<
            Seq<u8>,
            Error,
        >(Error::InvalidUuid),
{
    let sources = Platform::Linux.sources();
    let outcomes = seq![primary, secondary];
    if primary is Ok && primary->Ok_0.len() > 0 {
        assert(first_usable(sources, outcomes, 0));
        lemma_resolution_decided(sources, outcomes, 0);
    } else {
        assert(sources[0].checked(outcomes[0]) is Err);
        if secondary is Ok {
            assert(first_usable(sources, outcomes, 1));
            lemma_resolution_decided(sources, outcomes, 1);
        } else {
            assert forall|j: int| 0 <= j < sources.len() implies (#[trigger] sources[j].checked(
                outcomes[j],
            )) is Err by {
                if j == 1 {
                    assert(sources[1].checked(outcomes[1]) is Err);
                }
            }
            lemma_resolution_exhausted(sources, outcomes);
        }
    }
}

/// On the other Unix systems every failure of the kernel control interface
/// hands the decision to the host-id file, and any text that the kernel gave
/// decides alone.
pub proof fn lemma_unix_fallback(kernel: OutcomeModel, file: OutcomeModel)
    ensures
        kernel is Err ==> {
            &&& consulted(Platform::Unix.sources(), seq![kernel, file]) == 2
            &&& resolution(Platform::Unix.sources(), seq![kernel, file]) == match file {
                Ok(raw) => settle(raw),
                Err(e) => Err(Error::IoError(e)),
            }
        },
        kernel is Ok ==> {
            &&& consulted(Platform::Unix.sources(), seq![kernel, file]) == 1
            &&& resolution(Platform::Unix.sources(), seq![kernel, file]) == settle(kernel->Ok_0)
        },
{
    let sources = Platform::Unix.sources();
    let outcomes = seq![kernel, file];
    if kernel is Ok {
        assert(first_usable(sources, outcomes, 0));
        lemma_resolution_decided(sources, outcomes, 0);
    } else {
        assert(sources[0].checked(outcomes[0]) is Err);
        if file is Ok {
            assert(first_usable(sources, outcomes, 1));
            lemma_resolution_decided(sources, outcomes, 1);
        } else {
            assert forall|j: int| 0 <= j < sources.len() implies (#[trigger] sources[j].checked(
                outcomes[j],
            )) is Err by {
                if j == 1 {
                    assert(sources[1].checked(outcomes[1]) is Err);
                }
            }
            lemma_resolution_exhausted(sources, outcomes);
        }
    }
}

/// Windows and macOS have one store and no fallback: its text decides, and
/// its failure is the failure of the resolution.
pub proof fn lemma_single_store(platform: Platform, outcome: OutcomeModel)
    requires
        platform == Platform::Windows || platform == Platform::MacOs,
    ensures
        resolution(platform.sources(), seq![outcome]) == match outcome {
            Ok(raw) => settle(raw),
            Err(e) => Err(Error::IoError(e)),
        },
{
    let sources = platform.sources();
    let outcomes = seq![outcome];
    if outcome is Ok {
        assert(first_usable(sources, outcomes, 0));
        lemma_resolution_decided(sources, outcomes, 0);
    } else {
        assert forall|j: int| 0 <= j < sources.len() implies (#[trigger] sources[j].checked(
            outcomes[j],
        )) is Err by {
            assert(sources[0].checked(outcomes[0]) is Err);
        }
        lemma_resolution_exhausted(sources, outcomes);
    }
}

/// Where each store has one answer only, a resolution through `read` has one
/// result only: what those answers resolve to.
pub proof fn lemma_resolved_of_answers<F: Fn(Source) -> Outcome>(
    platform: Platform,
    read: F,
    answers: spec_fn(Source) -> OutcomeModel,
    result: Resolution,
)
    requires
        forall|source: Source, outcome: Outcome|
            call_ensures(read, (source,), outcome) ==> outcome_model(outcome) == answers(source),
        resolved_by(platform, read, result),
    ensures
        result == resolution(platform.sources(), platform.sources().map_values(answers)),
{
    let sources = platform.sources();
    let outcomes = choose|outcomes: Seq<Outcome>| #[trigger]
        answered_by(read, sources, outcomes) && result == resolution(
            sources,
            outcome_models(outcomes),
        );
    let models = outcome_models(outcomes);
    let sure = sources.map_values(answers);
    assert forall|j: int| 0 <= j < consulted(sources, models) implies models[j] == sure[j] by {
        lemma_consulted_in_range(sources, models);
        assert(call_ensures(read, (sources[j],), outcomes[j]));
    }
    lemma_same_answers_same_result(sources, models, sure);
}

/// Two resolutions of the same machine, one after the other, give the same
/// bytes or the same error, as long as each store answers the second time what
/// it answered the first time.
pub proof fn lemma_deterministic<F: Fn(Source) -> Outcome>(
    platform: Platform,
    read: F,
    first: Resolution,
    second: Resolution,
)
    requires
        forall|source: Source, once: Outcome, again: Outcome|
            call_ensures(read, (source,), once) && call_ensures(read, (source,), again)
                ==> outcome_model(once) == outcome_model(again),
        resolved_by(platform, read, first),
        resolved_by(platform, read, second),
    ensures
        first == second,
{
    let sources = platform.sources();
    let a = choose|outcomes: Seq<Outcome>| #[trigger]
        answered_by(read, sources, outcomes) && first == resolution(
            sources,
            outcome_models(outcomes),
        );
    let b = choose|outcomes: Seq<Outcome>| #[trigger]
        answered_by(read, sources, outcomes) && second == resolution(
            sources,
            outcome_models(outcomes),
        );
    let ma = outcome_models(a);
    let mb = outcome_models(b);
    lemma_consulted_in_range(sources, ma);
    lemma_consulted_in_range(sources, mb);
    if consulted(sources, ma) <= consulted(sources, mb) {
        assert forall|j: int| 0 <= j < consulted(sources, ma) implies ma[j] == mb[j] by {
            assert(call_ensures(read, (sources[j],), a[j]));
            assert(call_ensures(read, (sources[j],), b[j]));
        }
        lemma_same_answers_same_result(sources, ma, mb);
    } else {
        assert forall|j: int| 0 <= j < consulted(sources, mb) implies mb[j] == ma[j] by {
            assert(call_ensures(read, (sources[j],), a[j]));
            assert(call_ensures(read, (sources[j],), b[j]));
        }
        lemma_same_answers_same_result(sources, mb, ma);
    }
}

/// A resolution reads at least one store where there is one, and never more
/// than there are.
pub proof fn lemma_consulted_in_range(sources: Seq<Source>, outcomes: Seq<OutcomeModel>)
    ensures
        consulted(sources, outcomes) <= sources.len(),
        sources.len() > 0 ==> consulted(sources, outcomes) >= 1,
{
    if exists|i: int| first_usable(sources, outcomes, i) {
        let i = choose|i: int| first_usable(sources, outcomes, i);
        assert(first_usable(sources, outcomes, i));
    }
}

} // verus!
