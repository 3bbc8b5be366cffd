//! The identifier itself: sixteen bytes that were read from a valid text.

use crate::chain::{
    answered_by, lemma_resolution_decided, lemma_resolution_exhausted, outcome_models,
    resolved_by, result_model, Chain, Step,
};
use crate::codec;
use crate::error::Error;
use crate::source::{outcome_model, Outcome, Platform, Source};
use crate::text::{canonical_text, lemma_round_trip, normalized, trim_line_end};
use vstd::prelude::*;
use vstd::std_specs::cmp::PartialEqSpecImpl;

verus! {

/// The identifier of a machine: 128 bits, held as sixteen bytes in the order
/// in which their digits are written.
///
/// A value comes from a text that spells an identifier and from nowhere else,
/// and it does not change afterwards.
#[derive(Debug)]
pub struct MachineId {
    bytes: [u8; 16],
}

impl View for MachineId {
    type V = Seq<u8>;

    /// The sixteen bytes.
    closed spec fn view(&self) -> Seq<u8> {
        self.bytes@
    }
}

impl MachineId {
    /// Resolves the identifier of the machine: reads the stores of `platform`
    /// through `read`, in their order, until one gives a usable text, and
    /// reads the identifier from that text.
    ///
    /// The result is an access error where every store failed, and the error
    /// of an invalid identifier where a text was read that spells none; no
    /// store is read after that one. `read` must take every store of the
    /// platform; it is asked for no other.
    pub fn new<F: Fn(Source) -> Outcome>(platform: Platform, read: F) -> (result: Result<
        MachineId,
        Error,
    >)
        requires
            forall|i: int|
                0 <= i < platform.sources().len() ==> call_requires(
                    read,
                    (#[trigger] platform.sources()[i],),
                ),
        ensures
            resolved_by(platform, read, result_model(result)),
    {
        let ghost sources = platform.sources();
        let ghost mut seen: Seq<Outcome> = Seq::empty();
        let mut chain = Chain::begin(platform);
        loop
            invariant
                sources == platform.sources(),
                chain.platform() == platform,
                chain.position() == seen.len(),
                forall|i: int|
                    0 <= i < sources.len() ==> call_requires(read, (#[trigger] sources[i],)),
                forall|j: int|
                    0 <= j < seen.len() ==> call_ensures(read, (sources[j],), #[trigger] seen[j]),
                forall|j: int|
                    0 <= j < seen.len() ==> (#[trigger] sources[j].checked(outcome_model(seen[j])))
                        is Err,
            decreases sources.len() - chain.position(),
        {
            let source = chain.source();
            let outcome = read(source);
            let ghost given = outcome;
            let ghost position = chain.position();
            match chain.advance(outcome) {
                Step::Read(next) => {
                    proof {
                        seen = seen.push(given);
                    }
                    chain = next;
                },
                Step::Done(result) => {
                    proof {
                        let all = Seq::new(
                            sources.len(),
                            |j: int|
                                if j < position {
                                    seen[j]
                                } else {
                                    given
                                },
                        );
                        let models = outcome_models(all);
                        assert forall|j: int| 0 <= j < position implies (
                        #[trigger] sources[j].checked(models[j])) is Err by {
                            assert(sources[j].checked(outcome_model(seen[j])) is Err);
                        }
                        if sources[position].checked(outcome_model(given)) is Ok {
                            lemma_resolution_decided(sources, models, position);
                        } else {
                            assert forall|j: int| 0 <= j < sources.len() implies (
                            #[trigger] sources[j].checked(models[j])) is Err by {
                                if j < position {
                                    assert(sources[j].checked(outcome_model(seen[j])) is Err);
                                }
                            }
                            lemma_resolution_exhausted(sources, models);
                        }
                        assert(answered_by(read, sources, all));
                    }
                    return result;
                },
            }
        }
    }

    /// Reads an identifier from the raw text that an identity store gave.
    ///
    /// One line terminator at the end of the text is dropped. What is left
    /// must be 32 hexadecimal digits, in one run or grouped 8-4-4-4-12 by
    /// hyphens; digits of either case are taken. Any other text is refused,
    /// and nothing is made of a part of it.
    pub fn parse(raw: &str) -> (result: Result<MachineId, Error>)
        ensures
            normalized(raw@) matches Some(bytes) ==> (result matches Ok(id) && id@ == bytes),
            normalized(raw@) is None ==> result == Err::<MachineId, Error>(Error::InvalidUuid),
    {
        let text = trim_line_end(raw);
        let n: usize = text.unicode_len();
        if n != 32 && n != 36 {
            return Err(Error::InvalidUuid);
        }
        match codec::parse_str(text) {
            Some(bytes) => Ok(MachineId { bytes }),
            None => Err(Error::InvalidUuid),
        }
    }

    /// The canonical text: upper-case digits, grouped 8-4-4-4-12, without
    /// braces.
    pub fn to_string(&self) -> (text: String)
        ensures
            text@ == canonical_text(self@),
    {
        codec::format_upper(&self.bytes)
    }

    /// Every identifier has sixteen bytes.
    pub proof fn lemma_len(self)
        ensures
            self@.len() == 16,
    {
    }

    /// The canonical text of an identifier, read back, gives the identifier
    /// again.
    pub proof fn lemma_text_round_trip(self)
        ensures
            normalized(canonical_text(self@)) == Some(self@),
    {
        lemma_round_trip(self@);
    }

    /// Two identifiers with the same bytes are the same identifier.
    pub proof fn lemma_same_bytes(self, other: MachineId)
        ensures
            self@ == other@ <==> self == other,
    {
        if self@ == other@ {
            assert(self.bytes =~= other.bytes);
        }
    }
}

impl AsRef<[u8]> for MachineId {
    /// The sixteen bytes, borrowed.
    fn as_ref(&self) -> (bytes: &[u8])
        ensures
            bytes@ == self@,
    {
        self.bytes.as_slice()
    }
}

impl PartialEq for MachineId {
    /// Byte by byte.
    fn eq(&self, other: &MachineId) -> (equal: bool) {
        let mut i: usize = 0;
        while i < 16
            invariant
                i <= 16,
                forall|k: int| 0 <= k < i ==> self.bytes@[k] == other.bytes@[k],
            decreases 16 - i,
        {
            if self.bytes[i] != other.bytes[i] {
                return false;
            }
            i += 1;
        }
        assert(self.bytes@ =~= other.bytes@);
        true
    }
}

impl PartialEqSpecImpl for MachineId {
    open spec fn obeys_eq_spec() -> bool {
        true
    }

    open spec fn eq_spec(&self, other: &MachineId) -> bool {
        self@ == other@
    }
}

impl Eq for MachineId {

}

} // verus!
