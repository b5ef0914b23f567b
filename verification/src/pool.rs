//! The per-worker coder cache and the pool front end that runs coding
//! operations against it.
//!
//! A worker thread owns exactly one [`CoderCache`]: a mapping from coder
//! identity to an owned coder instance, unbounded in size, populated lazily
//! on first use of an identity.  Nothing is shared between workers; the only
//! state that crosses threads is the factory, by value.  The asynchronous
//! dispatch itself (task queues, futures) is left to the embedding
//! application: a worker that receives a request calls one of the
//! [`ErasureCoderPool`] operations with its own cache, and the completion
//! side funnels the outcome through [`bridge_outcome`].
use vstd::prelude::*;

use crate::error::{Error, ErrorKind};
use crate::{reconstruct_spec, same_model, BuildCoder, ErasureCode, FragmentBuf};

verus! {

/// A mapping from coder identity to an owned coder instance, scoped to one
/// worker.
pub struct CoderCache<B: BuildCoder> {
    ids: Vec<String>,
    coders: Vec<B::Coder>,
}

impl<B: BuildCoder> CoderCache<B> {
    /// The cached identities, in insertion order.
    pub closed spec fn ids_view(&self) -> Seq<Seq<char>> {
        self.ids@.map_values(|s: String| s@)
    }

    /// The cached coder instances, in insertion order.
    pub closed spec fn coders_seq(&self) -> Seq<B::Coder> {
        self.coders@
    }

    /// Well-formedness: identities and coders pair up, identities are
    /// distinct, and every cached coder is well-formed.
    pub open spec fn wf(&self) -> bool {
        &&& self.ids_view().len() == self.coders_seq().len()
        &&& forall|i: int, j: int|
            0 <= i < j < self.ids_view().len() ==> self.ids_view()[i] != self.ids_view()[j]
        &&& forall|i: int|
            0 <= i < self.coders_seq().len() ==> (#[trigger] self.coders_seq()[i]).wf()
    }

    /// Whether a coder is cached under the given identity.
    pub open spec fn contains_id(&self, id: Seq<char>) -> bool {
        exists|i: int| 0 <= i < self.ids_view().len() && self.ids_view()[i] == id
    }

    /// The position of the given identity in the cache.
    pub open spec fn index_of(&self, id: Seq<char>) -> int {
        choose|i: int| 0 <= i < self.ids_view().len() && self.ids_view()[i] == id
    }

    /// The coder cached under the given identity.
    pub open spec fn coder_for(&self, id: Seq<char>) -> B::Coder {
        self.coders_seq()[self.index_of(id)]
    }

    /// Makes a new, empty cache.
    pub fn new() -> (cache: Self)
        ensures
            cache.wf(),
            cache.ids_view() == Seq::<Seq<char>>::empty(),
    {
        let cache = CoderCache { ids: Vec::new(), coders: Vec::new() };
        proof {
            assert(cache.ids_view() =~= Seq::<Seq<char>>::empty());
        }
        cache
    }

    /// The number of coder instances this cache has built and kept.
    pub fn len(&self) -> (n: usize)
        ensures
            n == self.ids_view().len(),
    {
        self.ids.len()
    }

    /// Whether a coder is cached under the given identity string.
    pub fn has_coder(&self, id: &String) -> (r: bool)
        ensures
            r == self.contains_id(id@),
    {
        match self.find(id) {
            Some(i) => {
                proof {
                    assert(self.contains_id(id@));
                }
                true
            },
            None => false,
        }
    }

    /// Linear scan for an identity.
    fn find(&self, id: &String) -> (r: Option<usize>)
        ensures
            (match r {
                Some(i) => i < self.ids_view().len() && self.ids_view()[i as int] == id@,
                None => !self.contains_id(id@),
            }),
    {
        let len = self.ids.len();
        let mut k: usize = 0;
        while k < len
            invariant
                k <= len,
                len == self.ids@.len(),
                forall|k2: int| 0 <= k2 < k ==> self.ids_view()[k2] != id@,
            decreases len - k,
        {
            if self.ids[k] == *id {
                return Some(k);
            }
            k += 1;
        }
        None
    }

    /// Returns the position of the coder for `builder`'s identity, building
    /// and inserting the coder on a miss.
    fn resolve(&mut self, builder: &B) -> (r: Result<usize, Error>)
        requires
            old(self).wf(),
            builder.wf(),
        ensures
            final(self).wf(),
            (match r {
                Ok(i) => resolved_at(*old(self), *final(self), *builder, i as int),
                Err(e) => {
                    &&& !old(self).contains_id(builder.coder_id_spec())
                    &&& builder.build_spec() == Err::<B::Coder, ErrorKind>(e.kind_spec())
                    &&& *final(self) == *old(self)
                },
            }),
    {
        let id = builder.coder_id();
        match self.find(&id) {
            Some(i) => {
                proof {
                    assert(self.contains_id(id@));
                }
                Ok(i)
            },
            None => {
                let coder = match builder.build_coder() {
                    Ok(coder) => coder,
                    Err(e) => {
                        return Err(e);
                    },
                };
                proof {
                    builder.lemma_built_coder_wf();
                }
                let i = self.ids.len();
                self.ids.push(id);
                self.coders.push(coder);
                proof {
                    assert(self.ids_view() =~= old(self).ids_view().push(
                        builder.coder_id_spec(),
                    ));
                    assert(self.coders_seq().drop_last() =~= old(self).coders_seq());
                    assert forall|a: int, b: int|
                        0 <= a < b < self.ids_view().len() implies self.ids_view()[a]
                        != self.ids_view()[b] by {
                        if b == self.ids_view().len() - 1 {
                            assert(self.ids_view()[a] == old(self).ids_view()[a]);
                        }
                    }
                }
                Ok(i)
            },
        }
    }

    /// Encodes `data` with the coder cached for `builder`'s identity,
    /// building that coder first if it is not cached yet.
    pub fn encode(&mut self, builder: &B, data: &[u8]) -> (r: Result<Vec<FragmentBuf>, Error>)
        requires
            old(self).wf(),
            builder.wf(),
        ensures
            final(self).wf(),
            cache_evolution(*old(self), *final(self), *builder),
            (match r {
                Ok(fragments) => effective_coder(*old(self), *builder) matches Ok(coder)
                    && coder.encode_spec(data@) == Ok::<Seq<Seq<u8>>, ErrorKind>(
                    fragments.deep_view(),
                ),
                Err(e) => match effective_coder(*old(self), *builder) {
                    Ok(coder) => coder.encode_spec(data@) == Err::<Seq<Seq<u8>>, ErrorKind>(
                        e.kind_spec(),
                    ),
                    Err(kind) => kind == e.kind_spec(),
                },
            }),
    {
        let ghost pre = *self;
        let i = match self.resolve(builder) {
            Ok(i) => i,
            Err(e) => {
                return Err(e);
            },
        };
        let ghost resolved = *self;
        proof {
            lemma_effective_is_at(pre, resolved, *builder, i as int);
        }
        let coder = &mut self.coders[i];
        let r = coder.encode(data);
        proof {
            lemma_entry_update(pre, resolved, *self, *builder, i as int);
        }
        r
    }

    /// Decodes the original data from `fragments` with the coder cached for
    /// `builder`'s identity, building that coder first if it is not cached
    /// yet.
    pub fn decode(&mut self, builder: &B, fragments: &[FragmentBuf]) -> (r: Result<Vec<u8>, Error>)
        requires
            old(self).wf(),
            builder.wf(),
        ensures
            final(self).wf(),
            cache_evolution(*old(self), *final(self), *builder),
            (match r {
                Ok(data) => effective_coder(*old(self), *builder) matches Ok(coder)
                    && coder.decode_spec(fragments.deep_view()) == Ok::<Seq<u8>, ErrorKind>(data@),
                Err(e) => match effective_coder(*old(self), *builder) {
                    Ok(coder) => coder.decode_spec(fragments.deep_view()) == Err::<
                        Seq<u8>,
                        ErrorKind,
                    >(e.kind_spec()),
                    Err(kind) => kind == e.kind_spec(),
                },
            }),
    {
        let ghost pre = *self;
        let i = match self.resolve(builder) {
            Ok(i) => i,
            Err(e) => {
                return Err(e);
            },
        };
        let ghost resolved = *self;
        proof {
            lemma_effective_is_at(pre, resolved, *builder, i as int);
        }
        let coder = &mut self.coders[i];
        let r = coder.decode(fragments);
        proof {
            lemma_entry_update(pre, resolved, *self, *builder, i as int);
        }
        r
    }

    /// Reconstructs the fragment at `index` from `fragments` with the coder
    /// cached for `builder`'s identity, building that coder first if it is
    /// not cached yet.
    pub fn reconstruct(&mut self, builder: &B, index: usize, fragments: &[FragmentBuf]) -> (r:
        Result<FragmentBuf, Error>)
        requires
            old(self).wf(),
            builder.wf(),
        ensures
            final(self).wf(),
            cache_evolution(*old(self), *final(self), *builder),
            (match r {
                Ok(fragment) => effective_coder(*old(self), *builder) matches Ok(coder)
                    && reconstruct_spec(coder, index, fragments.deep_view()) == Ok::<
                    Seq<u8>,
                    ErrorKind,
                >(fragment@),
                Err(e) => match effective_coder(*old(self), *builder) {
                    Ok(coder) => reconstruct_spec(coder, index, fragments.deep_view()) == Err::<
                        Seq<u8>,
                        ErrorKind,
                    >(e.kind_spec()),
                    Err(kind) => kind == e.kind_spec(),
                },
            }),
    {
        let ghost pre = *self;
        let i = match self.resolve(builder) {
            Ok(i) => i,
            Err(e) => {
                return Err(e);
            },
        };
        let ghost resolved = *self;
        proof {
            lemma_effective_is_at(pre, resolved, *builder, i as int);
        }
        let coder = &mut self.coders[i];
        let r = coder.reconstruct(index, fragments);
        proof {
            lemma_entry_update(pre, resolved, *self, *builder, i as int);
        }
        r
    }
}

/// The relation `resolve` establishes between the cache before the call, the
/// cache after it, the factory, and the returned position.
spec fn resolved_at<B: BuildCoder>(
    pre: CoderCache<B>,
    resolved: CoderCache<B>,
    builder: B,
    i: int,
) -> bool {
    &&& 0 <= i < resolved.coders_seq().len()
    &&& resolved.ids_view()[i] == builder.coder_id_spec()
    &&& if pre.contains_id(builder.coder_id_spec()) {
        resolved == pre
    } else {
        &&& resolved.ids_view() == pre.ids_view().push(builder.coder_id_spec())
        &&& resolved.coders_seq().len() == pre.coders_seq().len() + 1
        &&& resolved.coders_seq().drop_last() == pre.coders_seq()
        &&& builder.build_spec() == Ok::<B::Coder, ErrorKind>(resolved.coders_seq().last())
        &&& i == pre.ids_view().len()
    }
}

/// The coder that serves a request of `builder` against `cache`: the cached
/// instance when the identity is present, and otherwise whatever the factory
/// builds.
pub open spec fn effective_coder<B: BuildCoder>(cache: CoderCache<B>, builder: B) -> Result<
    B::Coder,
    ErrorKind,
> {
    if cache.contains_id(builder.coder_id_spec()) {
        Ok(cache.coder_for(builder.coder_id_spec()))
    } else {
        builder.build_spec()
    }
}

/// How one cache operation for `builder` changes the cache: on a hit nothing
/// is built and no identity is added or removed; on a miss the newly built
/// coder is appended under the factory's identity (or, when building fails,
/// the cache keeps its entries).  In every case the cached coders keep their
/// observable models.
pub open spec fn cache_evolution<B: BuildCoder>(
    pre: CoderCache<B>,
    post: CoderCache<B>,
    builder: B,
) -> bool {
    &&& if pre.contains_id(builder.coder_id_spec()) || builder.build_spec() is Err {
        post.ids_view() == pre.ids_view()
    } else {
        post.ids_view() == pre.ids_view().push(builder.coder_id_spec())
    }
    &&& post.coders_seq().len() == post.ids_view().len()
    &&& forall|i: int|
        0 <= i < pre.coders_seq().len() ==> same_model(
            pre.coders_seq()[i],
            #[trigger] post.coders_seq()[i],
        )
    &&& !pre.contains_id(builder.coder_id_spec()) ==> (builder.build_spec() matches Ok(built)
        ==> same_model(built, post.coders_seq().last()))
}

/// After `resolve`, the coder at the returned position is the effective
/// coder for the factory, and it is well-formed.
proof fn lemma_effective_is_at<B: BuildCoder>(
    pre: CoderCache<B>,
    resolved: CoderCache<B>,
    builder: B,
    i: int,
)
    requires
        pre.wf(),
        resolved.wf(),
        resolved_at(pre, resolved, builder, i),
    ensures
        effective_coder(pre, builder) == Ok::<B::Coder, ErrorKind>(resolved.coders_seq()[i]),
        resolved.coders_seq()[i].wf(),
{
    let id = builder.coder_id_spec();
    if pre.contains_id(id) {
        let j = pre.index_of(id);
        assert(0 <= j < pre.ids_view().len() && pre.ids_view()[j] == id);
        if i < j {
            assert(pre.ids_view()[i] != pre.ids_view()[j]);
        }
        if j < i {
            assert(pre.ids_view()[j] != pre.ids_view()[i]);
        }
        assert(j == i);
    } else {
        assert(resolved.coders_seq()[i] == resolved.coders_seq().last());
    }
}

/// Replacing the coder at the resolved position by one with the same model
/// is a cache evolution step, and keeps the cache well-formed.
proof fn lemma_entry_update<B: BuildCoder>(
    pre: CoderCache<B>,
    resolved: CoderCache<B>,
    post: CoderCache<B>,
    builder: B,
    i: int,
)
    requires
        pre.wf(),
        resolved.wf(),
        resolved_at(pre, resolved, builder, i),
        post.ids_view() == resolved.ids_view(),
        post.coders_seq().len() == resolved.coders_seq().len(),
        forall|k: int|
            0 <= k < post.coders_seq().len() && k != i ==> #[trigger] post.coders_seq()[k]
                == resolved.coders_seq()[k],
        same_model(resolved.coders_seq()[i], post.coders_seq()[i]),
        post.coders_seq()[i].wf(),
    ensures
        post.wf(),
        cache_evolution(pre, post, builder),
{
    assert forall|k: int|
        0 <= k < post.coders_seq().len() implies (#[trigger] post.coders_seq()[k]).wf() by {
        if k != i {
            assert(post.coders_seq()[k] == resolved.coders_seq()[k]);
        }
    }
    assert forall|k: int|
        0 <= k < pre.coders_seq().len() implies same_model(
        pre.coders_seq()[k],
        #[trigger] post.coders_seq()[k],
    ) by {
        assert(resolved.coders_seq()[k] == pre.coders_seq()[k]);
        if k != i {
            assert(post.coders_seq()[k] == pre.coders_seq()[k]);
        }
    }
    if !pre.contains_id(builder.coder_id_spec()) {
        assert(i == post.coders_seq().len() - 1);
        assert(same_model(resolved.coders_seq().last(), post.coders_seq().last()));
    }
}

/// Pool front end for encoding and decoding data by using an [`ErasureCode`]
/// implementation.
///
/// The pool holds the factory; each worker owns a [`CoderCache`] and hands
/// it to the operation it executes, so that coder instances are reused
/// per-worker instead of being rebuilt on every call.
///
/// [`ErasureCode`]: crate::ErasureCode
#[derive(Debug, Clone)]
pub struct ErasureCoderPool<B> {
    builder: B,
}

impl<B: BuildCoder> ErasureCoderPool<B> {
    /// The factory this pool dispatches with.
    pub closed spec fn builder_spec(&self) -> B {
        self.builder
    }

    /// Makes a new `ErasureCoderPool` instance.
    pub fn new(builder: B) -> (pool: Self)
        ensures
            pool.builder_spec() == builder,
    {
        ErasureCoderPool { builder }
    }

    /// Encodes the given data to fragments on the worker owning `cache`.
    ///
    /// The result vector contains `N` data fragments and `M` parity
    /// fragments (where `N = coder.data_fragments()` and
    /// `M = coder.parity_fragments()`).
    pub fn encode(&self, cache: &mut CoderCache<B>, data: &[u8]) -> (r: Result<
        Vec<FragmentBuf>,
        Error,
    >)
        requires
            old(cache).wf(),
            self.builder_spec().wf(),
        ensures
            final(cache).wf(),
            cache_evolution(*old(cache), *final(cache), self.builder_spec()),
            (match r {
                Ok(fragments) => effective_coder(*old(cache), self.builder_spec()) matches Ok(coder)
                    && coder.encode_spec(data@) == Ok::<Seq<Seq<u8>>, ErrorKind>(
                    fragments.deep_view(),
                ),
                Err(e) => match effective_coder(*old(cache), self.builder_spec()) {
                    Ok(coder) => coder.encode_spec(data@) == Err::<Seq<Seq<u8>>, ErrorKind>(
                        e.kind_spec(),
                    ),
                    Err(kind) => kind == e.kind_spec(),
                },
            }),
    {
        cache.encode(&self.builder, data)
    }

    /// Decodes the original data from the given fragments on the worker
    /// owning `cache`.
    ///
    /// Note whether the correctness of the result data has been validated
    /// depends on the implementations.
    pub fn decode(&self, cache: &mut CoderCache<B>, fragments: &[FragmentBuf]) -> (r: Result<
        Vec<u8>,
        Error,
    >)
        requires
            old(cache).wf(),
            self.builder_spec().wf(),
        ensures
            final(cache).wf(),
            cache_evolution(*old(cache), *final(cache), self.builder_spec()),
            (match r {
                Ok(data) => effective_coder(*old(cache), self.builder_spec()) matches Ok(coder)
                    && coder.decode_spec(fragments.deep_view()) == Ok::<Seq<u8>, ErrorKind>(data@),
                Err(e) => match effective_coder(*old(cache), self.builder_spec()) {
                    Ok(coder) => coder.decode_spec(fragments.deep_view()) == Err::<
                        Seq<u8>,
                        ErrorKind,
                    >(e.kind_spec()),
                    Err(kind) => kind == e.kind_spec(),
                },
            }),
    {
        cache.decode(&self.builder, fragments)
    }

    /// Reconstructs the fragment specified by the given index from other
    /// fragments on the worker owning `cache`.
    pub fn reconstruct(
        &self,
        cache: &mut CoderCache<B>,
        index: usize,
        fragments: &[FragmentBuf],
    ) -> (r: Result<FragmentBuf, Error>)
        requires
            old(cache).wf(),
            self.builder_spec().wf(),
        ensures
            final(cache).wf(),
            cache_evolution(*old(cache), *final(cache), self.builder_spec()),
            (match r {
                Ok(fragment) => effective_coder(*old(cache), self.builder_spec()) matches Ok(coder)
                    && reconstruct_spec(coder, index, fragments.deep_view()) == Ok::<
                    Seq<u8>,
                    ErrorKind,
                >(fragment@),
                Err(e) => match effective_coder(*old(cache), self.builder_spec()) {
                    Ok(coder) => reconstruct_spec(coder, index, fragments.deep_view()) == Err::<
                        Seq<u8>,
                        ErrorKind,
                    >(e.kind_spec()),
                    Err(kind) => kind == e.kind_spec(),
                },
            }),
    {
        cache.reconstruct(&self.builder, index, fragments)
    }
}

/// Adapts the outcome of a worker-pool task to this crate's error taxonomy:
/// a failure of the task queue itself surfaces as [`ErrorKind::Other`] with
/// the queue's description as cause, while a completed task has its own
/// result forwarded unchanged.
pub fn bridge_outcome<T>(outcome: Result<Result<T, Error>, String>) -> (r: Result<T, Error>)
    ensures
        (match outcome {
            Ok(inner) => r == inner,
            Err(cause) => r matches Err(e) && e.kind_spec() == ErrorKind::Other
                && e.message_spec() == cause@,
        }),
{
    match outcome {
        Ok(inner) => inner,
        Err(cause) => Err(Error::with_message(ErrorKind::Other, cause)),
    }
}


} // verus!
