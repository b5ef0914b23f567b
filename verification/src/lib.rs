//! An execution and caching layer for erasure coding.
//!
//! The crate defines the [`ErasureCode`] capability interface that any
//! erasure-coding algorithm must satisfy, and the [`BuildCoder`] factory
//! interface that produces configured coder instances and exposes a stable
//! identity string used as a cache key.  A per-worker [`CoderCache`]
//! amortizes the cost of building a coder across repeated operations, and an
//! [`ErasureCoderPool`] runs the three coding operations against such a
//! cache.  Asynchronous dispatch onto worker threads is deliberately left to
//! the embedding application; the decision logic it needs (cache resolution
//! and the translation of task-queue failures into [`ErrorKind::Other`]) is
//! all here.
//!
//! [`ReplicaCoder`] is a minimal [`ErasureCode`] implementation that simply
//! replicates the input data; it is meant for testing the execution layer,
//! not for production use.
//!
//! [`CoderCache`]: crate::CoderCache
//! [`ErasureCoderPool`]: crate::ErasureCoderPool
//! [`ReplicaCoder`]: crate::replica::ReplicaCoder
use vstd::prelude::*;

mod digits;
mod error;
mod pool;

pub mod liberasurecode;
pub mod replica;

pub use crate::error::{Error, ErrorKind};
pub use crate::pool::{bridge_outcome, CoderCache, ErasureCoderPool};

verus! {

/// An owned fragment: one piece of an encoded fragment set.
pub type FragmentBuf = Vec<u8>;

/// This trait allows for encoding and decoding data by using some erasure
/// coding algorithm.
///
/// The observable behaviour of an implementation is captured by the spec
/// functions `encode_spec` and `decode_spec`: every operation returns exactly
/// what the model says, and leaves the model unchanged (an implementation may
/// mutate internal scratch state, but not what its operations compute).
pub trait ErasureCode: Sized {
    /// Well-formedness of the instance's configuration.
    spec fn wf(&self) -> bool;

    /// The number of data fragments the instance uses.
    spec fn data_fragments_spec(&self) -> usize;

    /// The number of parity fragments the instance uses.
    spec fn parity_fragments_spec(&self) -> usize;

    /// Model of `encode`: the fragment set produced for a payload, or the
    /// kind of error reported for it.
    spec fn encode_spec(&self, data: Seq<u8>) -> Result<Seq<Seq<u8>>, ErrorKind>;

    /// Model of `decode`: the payload recovered from a fragment sequence, or
    /// the kind of error reported for it.
    spec fn decode_spec(&self, fragments: Seq<Seq<u8>>) -> Result<Seq<u8>, ErrorKind>;

    /// Structural laws every implementation must prove: both fragment counts
    /// are positive, their sum fits in `usize`, a successful encoding holds
    /// exactly `data + parity` fragments, and decoding fewer fragments than
    /// `data_fragments_spec()` is rejected as invalid input.
    proof fn lemma_model_laws(&self)
        requires
            self.wf(),
        ensures
            1 <= self.data_fragments_spec(),
            1 <= self.parity_fragments_spec(),
            self.data_fragments_spec() + self.parity_fragments_spec() <= usize::MAX,
            forall|data: Seq<u8>|
                (#[trigger] self.encode_spec(data)) matches Ok(fragments)
                    ==> fragments.len() == self.data_fragments_spec()
                        + self.parity_fragments_spec(),
            forall|fragments: Seq<Seq<u8>>|
                fragments.len() < self.data_fragments_spec()
                    ==> #[trigger] self.decode_spec(fragments)
                        == Err::<Seq<u8>, ErrorKind>(ErrorKind::InvalidInput),
    ;

    /// Returns the number of data fragments that the instance uses when
    /// encoding/decoding data.
    fn data_fragments(&self) -> (n: usize)
        requires
            self.wf(),
        ensures
            n == self.data_fragments_spec(),
    ;

    /// Returns the number of parity fragments that the instance uses when
    /// encoding/decoding data.
    fn parity_fragments(&self) -> (n: usize)
        requires
            self.wf(),
        ensures
            n == self.parity_fragments_spec(),
    ;

    /// The total number of data fragments and parity fragments of the
    /// instance.  The sum is proved not to overflow.
    fn fragments(&self) -> (n: usize)
        requires
            self.wf(),
        ensures
            n == self.data_fragments_spec() + self.parity_fragments_spec(),
    {
        proof {
            self.lemma_model_laws();
        }
        self.data_fragments() + self.parity_fragments()
    }

    /// Encodes the given data to fragments.
    ///
    /// The result vector contains `N` data fragments and `M` parity
    /// fragments (where `N = self.data_fragments()` and
    /// `M = self.parity_fragments()`).
    fn encode(&mut self, data: &[u8]) -> (r: Result<Vec<FragmentBuf>, Error>)
        requires
            old(self).wf(),
        ensures
            final(self).wf(),
            final(self).data_fragments_spec() == old(self).data_fragments_spec(),
            final(self).parity_fragments_spec() == old(self).parity_fragments_spec(),
            forall|d: Seq<u8>| #[trigger] final(self).encode_spec(d) == old(self).encode_spec(d),
            forall|f: Seq<Seq<u8>>| #[trigger] final(self).decode_spec(f) == old(
                self,
            ).decode_spec(f),
            (match r {
                Ok(fragments) => old(self).encode_spec(data@) == Ok::<
                    Seq<Seq<u8>>,
                    ErrorKind,
                >(fragments.deep_view()),
                Err(e) => old(self).encode_spec(data@) == Err::<Seq<Seq<u8>>, ErrorKind>(
                    e.kind_spec(),
                ),
            }),
    ;

    /// Decodes the original data from the given fragments.
    ///
    /// Note whether the correctness of the result data has been validated
    /// depends on the implementations.
    fn decode(&mut self, fragments: &[FragmentBuf]) -> (r: Result<Vec<u8>, Error>)
        requires
            old(self).wf(),
        ensures
            final(self).wf(),
            final(self).data_fragments_spec() == old(self).data_fragments_spec(),
            final(self).parity_fragments_spec() == old(self).parity_fragments_spec(),
            forall|d: Seq<u8>| #[trigger] final(self).encode_spec(d) == old(self).encode_spec(d),
            forall|f: Seq<Seq<u8>>| #[trigger] final(self).decode_spec(f) == old(
                self,
            ).decode_spec(f),
            (match r {
                Ok(data) => old(self).decode_spec(fragments.deep_view()) == Ok::<
                    Seq<u8>,
                    ErrorKind,
                >(data@),
                Err(e) => old(self).decode_spec(fragments.deep_view()) == Err::<
                    Seq<u8>,
                    ErrorKind,
                >(e.kind_spec()),
            }),
    ;

    /// Reconstructs the fragment specified by the given index from other
    /// fragments.
    ///
    /// The provided implementation decodes the payload and re-encodes it; an
    /// implementation with a faster native path may override it, but must
    /// return the same result.  The clauses below state, case by case, the
    /// same function as [`reconstruct_spec`].
    fn reconstruct(&mut self, index: usize, fragments: &[FragmentBuf]) -> (r: Result<
        FragmentBuf,
        Error,
    >)
        requires
            old(self).wf(),
        ensures
            final(self).wf(),
            final(self).data_fragments_spec() == old(self).data_fragments_spec(),
            final(self).parity_fragments_spec() == old(self).parity_fragments_spec(),
            forall|d: Seq<u8>| #[trigger] final(self).encode_spec(d) == old(self).encode_spec(d),
            forall|f: Seq<Seq<u8>>| #[trigger] final(self).decode_spec(f) == old(
                self,
            ).decode_spec(f),
            (match r {
                Ok(fragment) => {
                    &&& index < old(self).data_fragments_spec() + old(self).parity_fragments_spec()
                    &&& old(self).decode_spec(fragments.deep_view()) matches Ok(data) && (old(
                        self,
                    ).encode_spec(data) matches Ok(encoded) && fragment@ == encoded[index as int])
                },
                Err(e) => {
                    ||| index >= old(self).data_fragments_spec() + old(
                        self,
                    ).parity_fragments_spec() && e.kind_spec() == ErrorKind::Other
                    ||| index < old(self).data_fragments_spec() + old(self).parity_fragments_spec()
                        && old(self).decode_spec(fragments.deep_view()) == Err::<
                        Seq<u8>,
                        ErrorKind,
                    >(e.kind_spec())
                    ||| index < old(self).data_fragments_spec() + old(self).parity_fragments_spec()
                        && (old(self).decode_spec(fragments.deep_view()) matches Ok(data) && old(
                        self,
                    ).encode_spec(data) == Err::<Seq<Seq<u8>>, ErrorKind>(e.kind_spec()))
                },
            }),
    {
        let ghost pre = *self;
        let total = self.fragments();
        if index >= total {
            return Err(Error::new(ErrorKind::Other));
        }
        let decoded = match self.decode(fragments) {
            Ok(data) => data,
            Err(e) => {
                return Err(e);
            },
        };
        let ghost mid = *self;
        let encode_result = self.encode(decoded.as_slice());
        proof {
            assert forall|d: Seq<u8>| #[trigger] self.encode_spec(d) == pre.encode_spec(d) by {
                assert(mid.encode_spec(d) == pre.encode_spec(d));
            }
            assert forall|f: Seq<Seq<u8>>| #[trigger] self.decode_spec(f) == pre.decode_spec(
                f,
            ) by {
                assert(mid.decode_spec(f) == pre.decode_spec(f));
            }
            assert(mid.encode_spec(decoded@) == pre.encode_spec(decoded@));
        }
        let mut encoded = match encode_result {
            Ok(fragments) => fragments,
            Err(e) => {
                return Err(e);
            },
        };
        proof {
            pre.lemma_model_laws();
            assert(pre.encode_spec(decoded@) == Ok::<Seq<Seq<u8>>, ErrorKind>(
                encoded.deep_view(),
            ));
            assert(encoded.deep_view().len() == encoded@.len());
        }
        let fragment = encoded.swap_remove(index);
        proof {
            assert(fragment.deep_view() =~= fragment@);
        }
        Ok(fragment)
    }
}

/// Holds when two instances of one codec type have the same observable
/// model: the same well-formedness, fragment counts, and encode/decode
/// behaviour on every input.  The contracts of the [`ErasureCode`]
/// operations guarantee exactly this between the states before and after a
/// call.
pub open spec fn same_model<C: ErasureCode>(a: C, b: C) -> bool {
    &&& a.wf() == b.wf()
    &&& a.data_fragments_spec() == b.data_fragments_spec()
    &&& a.parity_fragments_spec() == b.parity_fragments_spec()
    &&& forall|data: Seq<u8>| #[trigger] b.encode_spec(data) == a.encode_spec(data)
    &&& forall|fragments: Seq<Seq<u8>>| #[trigger] b.decode_spec(fragments) == a.decode_spec(
        fragments,
    )
}

/// Model of `reconstruct`: an index at or past the total fragment count is
/// rejected as `Other`; otherwise the fragments are decoded, the payload is
/// re-encoded, and the fragment at `index` of the fresh fragment set is the
/// result.
pub open spec fn reconstruct_spec<C: ErasureCode>(
    coder: C,
    index: usize,
    fragments: Seq<Seq<u8>>,
) -> Result<Seq<u8>, ErrorKind> {
    if index >= coder.data_fragments_spec() + coder.parity_fragments_spec() {
        Err(ErrorKind::Other)
    } else {
        match coder.decode_spec(fragments) {
            Err(kind) => Err(kind),
            Ok(data) => match coder.encode_spec(data) {
                Err(kind) => Err(kind),
                Ok(encoded) => Ok(encoded[index as int]),
            },
        }
    }
}

/// This trait allows for building instances of an implementation of the
/// [`ErasureCode`] trait.
pub trait BuildCoder: Sized + Clone + Send + 'static {
    /// The type of `ErasureCode` implementation to be built.
    type Coder: ErasureCode;

    /// Well-formedness of the factory's configuration.
    spec fn wf(&self) -> bool;

    /// The characters of the identity string, a pure function of the
    /// configuration.  Factories whose coders are not mutually
    /// fragment-compatible must map to different identities.
    spec fn coder_id_spec(&self) -> Seq<char>;

    /// Model of `build_coder`: the instance this factory builds, or the kind
    /// of error reported when building fails.
    spec fn build_spec(&self) -> Result<Self::Coder, ErrorKind>;

    /// A successfully built coder is well-formed.
    proof fn lemma_built_coder_wf(&self)
        requires
            self.wf(),
        ensures
            self.build_spec() matches Ok(coder) ==> coder.wf(),
    ;

    /// Builds an instance of the `ErasureCode` implementation.
    fn build_coder(&self) -> (r: Result<Self::Coder, Error>)
        requires
            self.wf(),
        ensures
            (match r {
                Ok(coder) => self.build_spec() == Ok::<Self::Coder, ErrorKind>(coder),
                Err(e) => self.build_spec() == Err::<Self::Coder, ErrorKind>(e.kind_spec()),
            }),
    ;

    /// Returns the identifier that distinguishes the kind of instances to be
    /// built.
    ///
    /// The identifier is stable: repeated calls on one factory, and calls on
    /// factories with equal configurations, return the same string.
    fn coder_id(&self) -> (id: String)
        requires
            self.wf(),
        ensures
            id@ == self.coder_id_spec(),
    ;
}

} // verus!
