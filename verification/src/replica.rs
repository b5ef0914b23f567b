//! An [`ErasureCode`] implementation that simply replicates the input data.
//!
//! [`ErasureCode`]: crate::ErasureCode
use vstd::prelude::*;
use vstd::slice::slice_to_vec;
use vstd::string::StringExecFns;

use crate::digits::{
    append_decimal, dec_digits, is_digit, lemma_cancel_prefix, lemma_dec_digits_injective,
    lemma_dec_digits_shape, lemma_sep_split_unique,
};
use crate::error::{Error, ErrorKind};
use crate::{reconstruct_spec, BuildCoder, ErasureCode, FragmentBuf};

verus! {

/// The fragment set the replica codec produces for a payload: position `0`
/// holds the full payload, the remaining data-fragment slots are empty, and
/// every parity-fragment slot holds a full copy of the payload.
pub open spec fn replica_fragments(
    data_fragments: usize,
    parity_fragments: usize,
    data: Seq<u8>,
) -> Seq<Seq<u8>> {
    Seq::new(
        (data_fragments + parity_fragments) as nat,
        |i: int|
            if i == 0 || i >= data_fragments {
                data
            } else {
                Seq::<u8>::empty()
            },
    )
}

/// The first non-empty fragment of a fragment sequence, if any.
pub open spec fn first_nonempty(fragments: Seq<Seq<u8>>) -> Option<Seq<u8>>
    decreases fragments.len(),
{
    if fragments.len() == 0 {
        None
    } else if fragments[0].len() > 0 {
        Some(fragments[0])
    } else {
        first_nonempty(fragments.skip(1))
    }
}

/// If the first `k` fragments are empty, scanning may start at `k`.
proof fn lemma_first_nonempty_skip(fragments: Seq<Seq<u8>>, k: int)
    requires
        0 <= k <= fragments.len(),
        forall|i: int| 0 <= i < k ==> (#[trigger] fragments[i]).len() == 0,
    ensures
        first_nonempty(fragments) == first_nonempty(fragments.skip(k)),
    decreases k,
{
    if k > 0 {
        assert(fragments[0].len() == 0);
        let rest = fragments.skip(1);
        assert forall|i: int| 0 <= i < k - 1 implies (#[trigger] rest[i]).len() == 0 by {
            assert(rest[i] == fragments[i + 1]);
        }
        lemma_first_nonempty_skip(rest, k - 1);
        assert(rest.skip(k - 1) =~= fragments.skip(k));
    } else {
        assert(fragments.skip(0) =~= fragments);
    }
}

/// In a sequence whose fragments each are either empty or a copy of the
/// non-empty payload `data`, with at least one copy present, the first
/// non-empty fragment is `data`.
proof fn lemma_first_nonempty_replicas(fragments: Seq<Seq<u8>>, data: Seq<u8>)
    requires
        data.len() > 0,
        forall|i: int| 0 <= i < fragments.len()
            ==> (#[trigger] fragments[i]) == data || fragments[i].len() == 0,
        exists|i: int| 0 <= i < fragments.len() && (#[trigger] fragments[i]) == data,
    ensures
        first_nonempty(fragments) == Some(data),
    decreases fragments.len(),
{
    let w = choose|i: int| 0 <= i < fragments.len() && (#[trigger] fragments[i]) == data;
    if fragments[0].len() > 0 {
        assert(fragments[0] == data);
    } else {
        assert(w != 0);
        let rest = fragments.skip(1);
        assert forall|i: int| 0 <= i < rest.len() implies (#[trigger] rest[i]) == data
            || rest[i].len() == 0 by {
            assert(rest[i] == fragments[i + 1]);
        }
        assert(rest[w - 1] == fragments[w]);
        assert(rest[w - 1] == data);
        lemma_first_nonempty_replicas(rest, data);
    }
}

/// An [`ErasureCode`] implementation that simply replicates the input data.
///
/// Note that this is provided for example and testing purposes only and not
/// intended to use in production.
///
/// [`ErasureCode`]: crate::ErasureCode
#[derive(Debug, Clone, Copy)]
pub struct ReplicaCoder {
    data_fragments: usize,
    parity_fragments: usize,
}

impl ReplicaCoder {
    /// Well-formedness of the configuration: both fragment counts are
    /// positive and their sum fits in `usize`.
    pub open spec fn valid(&self) -> bool {
        &&& 1 <= self.data_fragments_spec()
        &&& 1 <= self.parity_fragments_spec()
        &&& self.data_fragments_spec() + self.parity_fragments_spec() <= usize::MAX
    }

    /// Makes a new `ReplicaCoder` instance.
    pub fn new(data_fragments: usize, parity_fragments: usize) -> (coder: Self)
        requires
            1 <= data_fragments,
            1 <= parity_fragments,
            data_fragments + parity_fragments <= usize::MAX,
        ensures
            coder.valid(),
            coder.data_fragments_spec() == data_fragments,
            coder.parity_fragments_spec() == parity_fragments,
    {
        ReplicaCoder { data_fragments, parity_fragments }
    }
}

/// Whether position `p` of a replica fragment set carries a copy of the
/// payload (position `0` or a parity position).
pub open spec fn carries_payload(coder: ReplicaCoder, p: int) -> bool {
    p == 0 || p >= coder.data_fragments_spec()
}

impl ErasureCode for ReplicaCoder {
    open spec fn wf(&self) -> bool {
        self.valid()
    }

    closed spec fn data_fragments_spec(&self) -> usize {
        self.data_fragments
    }

    closed spec fn parity_fragments_spec(&self) -> usize {
        self.parity_fragments
    }

    /// Encoding always succeeds and yields the replica fragment set.
    open spec fn encode_spec(&self, data: Seq<u8>) -> Result<Seq<Seq<u8>>, ErrorKind> {
        Ok(replica_fragments(self.data_fragments_spec(), self.parity_fragments_spec(), data))
    }

    /// Decoding rejects fewer fragments than `data_fragments` as invalid
    /// input, returns the first non-empty fragment otherwise, and reports
    /// corruption when all supplied fragments are empty.
    open spec fn decode_spec(&self, fragments: Seq<Seq<u8>>) -> Result<Seq<u8>, ErrorKind> {
        if fragments.len() < self.data_fragments_spec() {
            Err(ErrorKind::InvalidInput)
        } else {
            match first_nonempty(fragments) {
                Some(data) => Ok(data),
                None => Err(ErrorKind::CorruptedFragments),
            }
        }
    }

    proof fn lemma_model_laws(&self) {
        assert forall|data: Seq<u8>|
            (#[trigger] self.encode_spec(data)) matches Ok(frs) ==> frs.len()
                == self.data_fragments_spec() + self.parity_fragments_spec() by {
            assert(replica_fragments(self.data_fragments, self.parity_fragments, data).len()
                == self.data_fragments + self.parity_fragments);
        }
        assert forall|fragments: Seq<Seq<u8>>|
            fragments.len() < self.data_fragments_spec() implies #[trigger] self.decode_spec(
            fragments,
        ) == Err::<Seq<u8>, ErrorKind>(ErrorKind::InvalidInput) by {}
    }

    fn data_fragments(&self) -> usize {
        self.data_fragments
    }

    fn parity_fragments(&self) -> usize {
        self.parity_fragments
    }

    fn encode(&mut self, data: &[u8]) -> (r: Result<Vec<FragmentBuf>, Error>)
        ensures
            *final(self) == *old(self),
            r is Ok,
    {
        let n = self.data_fragments;
        let m = self.parity_fragments;
        let mut fragments: Vec<FragmentBuf> = Vec::with_capacity(n + m);
        fragments.push(slice_to_vec(data));
        let mut i: usize = 1;
        while i < n
            invariant
                *self == *old(self),
                n == self.data_fragments,
                m == self.parity_fragments,
                1 <= i <= n,
                fragments@.len() == i,
                fragments@[0]@ == data@,
                forall|k: int| 1 <= k < i ==> (#[trigger] fragments@[k])@ == Seq::<u8>::empty(),
            decreases n - i,
        {
            fragments.push(Vec::new());
            i += 1;
        }
        let mut j: usize = 0;
        while j < m
            invariant
                *self == *old(self),
                n == self.data_fragments,
                m == self.parity_fragments,
                0 <= j <= m,
                n >= 1,
                n + m <= usize::MAX,
                fragments@.len() == n + j,
                fragments@[0]@ == data@,
                forall|k: int| 1 <= k < n ==> (#[trigger] fragments@[k])@ == Seq::<u8>::empty(),
                forall|k: int| n <= k < n + j ==> (#[trigger] fragments@[k])@ == data@,
            decreases m - j,
        {
            fragments.push(slice_to_vec(data));
            j += 1;
        }
        proof {
            assert(fragments.deep_view() =~~= replica_fragments(n, m, data@));
        }
        Ok(fragments)
    }

    fn decode(&mut self, fragments: &[FragmentBuf]) -> (r: Result<Vec<u8>, Error>)
        ensures
            *final(self) == *old(self),
    {
        let flen = fragments.len();
        if flen < self.data_fragments {
            return Err(
                Error::with_message(
                    ErrorKind::InvalidInput,
                    String::from_str("fewer fragments than data_fragments"),
                ),
            );
        }
        let ghost all = fragments.deep_view();
        let mut k: usize = 0;
        while k < flen
            invariant
                0 <= k <= flen,
                flen == fragments@.len(),
                all == fragments.deep_view(),
                *self == *old(self),
                self.valid(),
                self.data_fragments <= flen,
                forall|k2: int| 0 <= k2 < k ==> (#[trigger] all[k2]).len() == 0,
            decreases flen - k,
        {
            let frag = &fragments[k];
            if frag.len() > 0 {
                proof {
                    lemma_first_nonempty_skip(all, k as int);
                    assert(all.skip(k as int)[0] == all[k as int]);
                    assert(first_nonempty(all) == Some(all[k as int]));
                    assert(all[k as int] =~= frag@);
                }
                return Ok(slice_to_vec(frag.as_slice()));
            }
            k += 1;
        }
        proof {
            lemma_first_nonempty_skip(all, flen as int);
            assert(all.skip(flen as int).len() == 0);
            assert(first_nonempty(all.skip(flen as int)) is None);
        }
        Err(
            Error::with_message(
                ErrorKind::CorruptedFragments,
                String::from_str("no replica fragment is found"),
            ),
        )
    }
}

impl BuildCoder for ReplicaCoder {
    type Coder = Self;

    open spec fn wf(&self) -> bool {
        self.valid()
    }

    /// The identity is `replica:` followed by the two fragment counts in
    /// decimal, separated by `:`.
    open spec fn coder_id_spec(&self) -> Seq<char> {
        "replica:"@ + dec_digits(self.data_fragments_spec() as nat) + ":"@ + dec_digits(
            self.parity_fragments_spec() as nat,
        )
    }

    /// Building never fails: the coder is the factory's own configuration.
    open spec fn build_spec(&self) -> Result<Self, ErrorKind> {
        Ok(*self)
    }

    proof fn lemma_built_coder_wf(&self) {
    }

    fn build_coder(&self) -> Result<Self, Error> {
        Ok(*self)
    }

    fn coder_id(&self) -> (id: String)
    {
        let mut id = String::from_str("replica:");
        append_decimal(&mut id, self.data_fragments);
        id.append(":");
        append_decimal(&mut id, self.parity_fragments);
        proof {
            assert(id@ =~= self.coder_id_spec());
        }
        id
    }
}

/// Round trip: any selection of at least `data_fragments` positions from the
/// fragment set encoded for a non-empty payload, among them at least one
/// position that carries the payload, decodes to that payload.
pub proof fn lemma_round_trip(coder: ReplicaCoder, data: Seq<u8>, positions: Seq<int>)
    requires
        coder.valid(),
        data.len() > 0,
        positions.len() >= coder.data_fragments_spec(),
        forall|k: int| 0 <= k < positions.len()
            ==> 0 <= #[trigger] positions[k] < coder.data_fragments_spec()
                + coder.parity_fragments_spec(),
        exists|k: int| 0 <= k < positions.len() && carries_payload(coder, #[trigger] positions[k]),
    ensures
        coder.encode_spec(data) matches Ok(encoded) && coder.decode_spec(
            positions.map_values(|p: int| encoded[p]),
        ) == Ok::<Seq<u8>, ErrorKind>(data),
{
    let encoded = replica_fragments(coder.data_fragments, coder.parity_fragments, data);
    let subset = positions.map_values(|p: int| encoded[p]);
    assert(subset.len() == positions.len());
    assert forall|i: int| 0 <= i < subset.len() implies (#[trigger] subset[i]) == data
        || subset[i].len() == 0 by {
        assert(subset[i] == encoded[positions[i]]);
    }
    let k0 = choose|k: int|
        0 <= k < positions.len() && carries_payload(coder, #[trigger] positions[k]);
    assert(subset[k0] == encoded[positions[k0]]);
    assert(subset[k0] == data);
    lemma_first_nonempty_replicas(subset, data);
}

/// Insufficient input: decoding fewer fragments than `data_fragments` always
/// fails with `InvalidInput`, regardless of content.
pub proof fn lemma_insufficient_input(coder: ReplicaCoder, fragments: Seq<Seq<u8>>)
    requires
        fragments.len() < coder.data_fragments_spec(),
    ensures
        coder.decode_spec(fragments) == Err::<Seq<u8>, ErrorKind>(ErrorKind::InvalidInput),
{
}

/// Reconstruction consistency: for a valid index, reconstructing from the
/// fragment set that omits exactly that position yields the fragment at that
/// position of the original encoding.
pub proof fn lemma_reconstruct_consistency(coder: ReplicaCoder, data: Seq<u8>, index: usize)
    requires
        coder.valid(),
        data.len() > 0,
        index < coder.data_fragments_spec() + coder.parity_fragments_spec(),
    ensures
        coder.encode_spec(data) matches Ok(encoded) && reconstruct_spec(
            coder,
            index,
            encoded.remove(index as int),
        ) == Ok::<Seq<u8>, ErrorKind>(encoded[index as int]),
{
    let n = coder.data_fragments;
    let m = coder.parity_fragments;
    let encoded = replica_fragments(n, m, data);
    let removed = encoded.remove(index as int);
    assert(removed.len() == n + m - 1);
    assert forall|i: int| 0 <= i < removed.len() implies (#[trigger] removed[i]) == data
        || removed[i].len() == 0 by {
        if i < index {
            assert(removed[i] == encoded[i]);
        } else {
            assert(removed[i] == encoded[i + 1]);
        }
    }
    if index == 0 {
        assert(removed[n - 1] == encoded[n as int]);
        assert(removed[n - 1] == data);
    } else {
        assert(removed[0] == encoded[0]);
        assert(removed[0] == data);
    }
    lemma_first_nonempty_replicas(removed, data);
}

/// Cache identity distinctness: two well-formed replica factories with the
/// same identity string have the same configuration; equivalently, factories
/// with different fragment-count pairs have different identities.  Together
/// with `coder_id`'s postcondition (the identity is a pure function of the
/// configuration) this makes the identity a sound cache key.
pub proof fn lemma_coder_id_injective(a: ReplicaCoder, b: ReplicaCoder)
    requires
        a.coder_id_spec() == b.coder_id_spec(),
    ensures
        a == b,
{
    reveal_strlit(":");
    let prefix = "replica:"@;
    let pa = dec_digits(a.data_fragments as nat);
    let qa = dec_digits(a.parity_fragments as nat);
    let pb = dec_digits(b.data_fragments as nat);
    let qb = dec_digits(b.parity_fragments as nat);
    assert(":"@ =~= seq![':']);
    let ra = pa + seq![':'] + qa;
    let rb = pb + seq![':'] + qb;
    assert(a.coder_id_spec() =~= prefix + ra);
    assert(b.coder_id_spec() =~= prefix + rb);
    lemma_cancel_prefix(prefix, ra, rb);
    lemma_dec_digits_shape(a.data_fragments as nat);
    lemma_dec_digits_shape(b.data_fragments as nat);
    assert forall|i: int| 0 <= i < pa.len() implies #[trigger] pa[i] != ':' by {
        assert(is_digit(pa[i]));
    }
    assert forall|i: int| 0 <= i < pb.len() implies #[trigger] pb[i] != ':' by {
        assert(is_digit(pb[i]));
    }
    lemma_sep_split_unique(pa, qa, pb, qb, ':');
    lemma_dec_digits_injective(a.data_fragments as nat, b.data_fragments as nat);
    lemma_dec_digits_injective(a.parity_fragments as nat, b.parity_fragments as nat);
}

} // verus!
