//! Configuration for coders backed by a native erasure-coding engine.
//!
//! The engine itself (its coding mathematics, backend selection and checksum
//! computation) is an external collaborator and is not part of this crate's
//! verified core; running it is left to the embedding application.  What
//! belongs here is the configuration an engine-backed coder is built from —
//! fragment counts, backend variant and checksum mode — and the identity
//! string derived from it, which the execution pool uses as a cache key.
//! The identity is proved to be an injective function of the configuration,
//! so two configurations that would produce incompatible fragments never
//! share a cache entry.
use vstd::prelude::*;
use vstd::string::StringExecFns;

use crate::digits::{
    append_decimal, dec_digits, is_digit, lemma_cancel_prefix, lemma_dec_digits_injective,
    lemma_dec_digits_shape, lemma_sep_split_unique,
};

verus! {

/// The erasure-coding backend variant an engine instance uses.
#[derive(Debug, Clone, Copy, PartialEq, Eq, Hash, Structural)]
pub enum Backend {
    /// Reed-Solomon coding over a Vandermonde matrix.
    JerasureRsVand,

    /// Cauchy-based Reed-Solomon coding (the default).
    JerasureRsCauchy,
}

impl Default for Backend {
    /// Returns `Backend::JerasureRsCauchy`.
    fn default() -> (backend: Self)
        ensures
            backend == Backend::JerasureRsCauchy,
    {
        Backend::JerasureRsCauchy
    }
}

/// The checksum algorithm an engine instance uses for validating decoded
/// data.
#[derive(Debug, Clone, Copy, PartialEq, Eq, Hash, Structural)]
pub enum Checksum {
    /// No checksum (the default).
    NoChecksum,

    /// CRC32.
    Crc32,

    /// MD5.
    Md5,
}

impl Default for Checksum {
    /// Returns `Checksum::NoChecksum`.
    fn default() -> (checksum: Self)
        ensures
            checksum == Checksum::NoChecksum,
    {
        Checksum::NoChecksum
    }
}

/// The label naming a backend variant inside an identity string.
pub open spec fn backend_label(backend: Backend) -> Seq<char> {
    match backend {
        Backend::JerasureRsVand => "JerasureRsVand"@,
        Backend::JerasureRsCauchy => "JerasureRsCauchy"@,
    }
}

/// The label naming a checksum mode inside an identity string.
pub open spec fn checksum_label(checksum: Checksum) -> Seq<char> {
    match checksum {
        Checksum::NoChecksum => "None"@,
        Checksum::Crc32 => "Crc32"@,
        Checksum::Md5 => "Md5"@,
    }
}

impl Backend {
    /// The name of this backend variant.
    pub fn name(&self) -> (s: &'static str)
        ensures
            s@ == backend_label(*self),
    {
        match self {
            Backend::JerasureRsVand => "JerasureRsVand",
            Backend::JerasureRsCauchy => "JerasureRsCauchy",
        }
    }
}

impl Checksum {
    /// The name of this checksum mode.
    pub fn name(&self) -> (s: &'static str)
        ensures
            s@ == checksum_label(*self),
    {
        match self {
            Checksum::NoChecksum => "None",
            Checksum::Crc32 => "Crc32",
            Checksum::Md5 => "Md5",
        }
    }
}

/// Configuration from which an engine-backed coder is built: fragment
/// counts, backend variant and checksum mode.
#[derive(Debug, Clone, Copy)]
pub struct LibErasureCoderBuilder {
    data_fragments: usize,
    parity_fragments: usize,
    backend: Backend,
    checksum: Checksum,
}

impl LibErasureCoderBuilder {
    /// Well-formedness of the configuration: both fragment counts are
    /// positive and their sum fits in `usize`.
    pub open spec fn valid(&self) -> bool {
        &&& 1 <= self.data_fragments_spec()
        &&& 1 <= self.parity_fragments_spec()
        &&& self.data_fragments_spec() + self.parity_fragments_spec() <= usize::MAX
    }

    /// The number of data fragments of the configuration.
    pub closed spec fn data_fragments_spec(&self) -> usize {
        self.data_fragments
    }

    /// The number of parity fragments of the configuration.
    pub closed spec fn parity_fragments_spec(&self) -> usize {
        self.parity_fragments
    }

    /// The backend variant of the configuration.
    pub closed spec fn backend_spec(&self) -> Backend {
        self.backend
    }

    /// The checksum mode of the configuration.
    pub closed spec fn checksum_spec(&self) -> Checksum {
        self.checksum
    }

    /// The identity string's characters: the engine name, the backend and
    /// checksum labels, and the two fragment counts in decimal, separated by
    /// colons.
    pub open spec fn coder_id_spec(&self) -> Seq<char> {
        "liberasurecode:"@ + backend_label(self.backend_spec()) + ":"@ + checksum_label(
            self.checksum_spec(),
        ) + ":"@ + dec_digits(self.data_fragments_spec() as nat) + ":"@ + dec_digits(
            self.parity_fragments_spec() as nat,
        )
    }

    /// Makes a new `LibErasureCoderBuilder` with the default settings.
    pub fn new(data_fragments: usize, parity_fragments: usize) -> (builder: Self)
        requires
            1 <= data_fragments,
            1 <= parity_fragments,
            data_fragments + parity_fragments <= usize::MAX,
        ensures
            builder.valid(),
            builder.data_fragments_spec() == data_fragments,
            builder.parity_fragments_spec() == parity_fragments,
            builder.backend_spec() == Backend::JerasureRsCauchy,
            builder.checksum_spec() == Checksum::NoChecksum,
    {
        LibErasureCoderBuilder {
            data_fragments,
            parity_fragments,
            backend: Backend::default(),
            checksum: Checksum::default(),
        }
    }

    /// Sets the type of the erasure coding backend used by the resulting
    /// instance.
    ///
    /// The default value is `Backend::default()`.
    pub fn backend(self, backend: Backend) -> (builder: Self)
        ensures
            builder.backend_spec() == backend,
            builder.checksum_spec() == self.checksum_spec(),
            builder.data_fragments_spec() == self.data_fragments_spec(),
            builder.parity_fragments_spec() == self.parity_fragments_spec(),
            builder.valid() == self.valid(),
    {
        LibErasureCoderBuilder { backend, ..self }
    }

    /// Sets the checksum algorithm used by the resulting instance.
    ///
    /// The default value is `Checksum::default()`.
    pub fn checksum(self, checksum: Checksum) -> (builder: Self)
        ensures
            builder.checksum_spec() == checksum,
            builder.backend_spec() == self.backend_spec(),
            builder.data_fragments_spec() == self.data_fragments_spec(),
            builder.parity_fragments_spec() == self.parity_fragments_spec(),
            builder.valid() == self.valid(),
    {
        LibErasureCoderBuilder { checksum, ..self }
    }

    /// Returns the identifier that distinguishes the kind of engine-backed
    /// instances this configuration describes.  It is a pure function of
    /// the configuration, and injective by
    /// [`lemma_coder_id_injective`].
    pub fn coder_id(&self) -> (id: String)
        ensures
            id@ == self.coder_id_spec(),
    {
        let mut id = String::from_str("liberasurecode:");
        id.append(self.backend.name());
        id.append(":");
        id.append(self.checksum.name());
        id.append(":");
        append_decimal(&mut id, self.data_fragments);
        id.append(":");
        append_decimal(&mut id, self.parity_fragments);
        proof {
            assert(id@ =~= self.coder_id_spec());
        }
        id
    }
}

/// Backend labels never contain the separator.
proof fn lemma_backend_label_sep_free(backend: Backend)
    ensures
        forall|i: int| 0 <= i < backend_label(backend).len()
            ==> #[trigger] backend_label(backend)[i] != ':',
{
    reveal_strlit("JerasureRsVand");
    reveal_strlit("JerasureRsCauchy");
}

/// Checksum labels never contain the separator.
proof fn lemma_checksum_label_sep_free(checksum: Checksum)
    ensures
        forall|i: int| 0 <= i < checksum_label(checksum).len()
            ==> #[trigger] checksum_label(checksum)[i] != ':',
{
    reveal_strlit("None");
    reveal_strlit("Crc32");
    reveal_strlit("Md5");
}

/// Distinct backend variants have distinct labels.
proof fn lemma_backend_label_injective(x: Backend, y: Backend)
    requires
        backend_label(x) == backend_label(y),
    ensures
        x == y,
{
    reveal_strlit("JerasureRsVand");
    reveal_strlit("JerasureRsCauchy");
    assert(backend_label(Backend::JerasureRsVand).len() == 14);
    assert(backend_label(Backend::JerasureRsCauchy).len() == 16);
}

/// Distinct checksum modes have distinct labels.
proof fn lemma_checksum_label_injective(x: Checksum, y: Checksum)
    requires
        checksum_label(x) == checksum_label(y),
    ensures
        x == y,
{
    reveal_strlit("None");
    reveal_strlit("Crc32");
    reveal_strlit("Md5");
    assert(checksum_label(Checksum::NoChecksum).len() == 4);
    assert(checksum_label(Checksum::Crc32).len() == 5);
    assert(checksum_label(Checksum::Md5).len() == 3);
}

/// Cache identity distinctness: two engine configurations with the same
/// identity string are equal; equivalently, configurations that differ in
/// backend, checksum or either fragment count have different identities.
/// Together with `coder_id`'s postcondition (the identity is a pure
/// function of the configuration) this makes the identity a sound cache
/// key.
#[verifier::rlimit(100)]
pub proof fn lemma_coder_id_injective(a: LibErasureCoderBuilder, b: LibErasureCoderBuilder)
    requires
        a.coder_id_spec() == b.coder_id_spec(),
    ensures
        a == b,
{
    reveal_strlit(":");
    let prefix = "liberasurecode:"@;
    assert(":"@ =~= seq![':']);
    let bla = backend_label(a.backend);
    let blb = backend_label(b.backend);
    let cla = checksum_label(a.checksum);
    let clb = checksum_label(b.checksum);
    let da = dec_digits(a.data_fragments as nat);
    let db = dec_digits(b.data_fragments as nat);
    let pa = dec_digits(a.parity_fragments as nat);
    let pb = dec_digits(b.parity_fragments as nat);
    let resta = bla + seq![':'] + (cla + seq![':'] + (da + seq![':'] + pa));
    let restb = blb + seq![':'] + (clb + seq![':'] + (db + seq![':'] + pb));
    assert(a.coder_id_spec() =~= prefix + resta);
    assert(b.coder_id_spec() =~= prefix + restb);
    lemma_cancel_prefix(prefix, resta, restb);
    lemma_backend_label_sep_free(a.backend);
    lemma_backend_label_sep_free(b.backend);
    lemma_sep_split_unique(
        bla,
        cla + seq![':'] + (da + seq![':'] + pa),
        blb,
        clb + seq![':'] + (db + seq![':'] + pb),
        ':',
    );
    lemma_backend_label_injective(a.backend, b.backend);
    lemma_checksum_label_sep_free(a.checksum);
    lemma_checksum_label_sep_free(b.checksum);
    lemma_sep_split_unique(cla, da + seq![':'] + pa, clb, db + seq![':'] + pb, ':');
    lemma_checksum_label_injective(a.checksum, b.checksum);
    lemma_dec_digits_shape(a.data_fragments as nat);
    lemma_dec_digits_shape(b.data_fragments as nat);
    assert forall|i: int| 0 <= i < da.len() implies #[trigger] da[i] != ':' by {
        assert(is_digit(da[i]));
    }
    assert forall|i: int| 0 <= i < db.len() implies #[trigger] db[i] != ':' by {
        assert(is_digit(db[i]));
    }
    lemma_sep_split_unique(da, pa, db, pb, ':');
    lemma_dec_digits_injective(a.data_fragments as nat, b.data_fragments as nat);
    lemma_dec_digits_injective(a.parity_fragments as nat, b.parity_fragments as nat);
}

} // verus!
