//! Content hashes: BLAKE2bp with a 32-byte digest, rendered as lowercase hex.
//!
//! The hasher is fed in chunks, so a file of any size is hashed with bounded
//! memory; the result depends on the concatenated bytes alone.
use vstd::prelude::*;
use blake2b_simd::blake2bp::State;

verus! {

/// Bytes in a digest: 256 bits.
pub const DIGEST_LEN: usize = 32;

/// Bytes that a caller reads from a file per chunk fed to the hasher.
pub const CHUNK_LEN: usize = 268435456;

#[verifier::external_type_specification]
#[verifier::external_body]
pub struct ExBlake2bpState(State);

/// The BLAKE2bp digest of `input`, unkeyed, with a digest of `length` bytes.
pub uninterp spec fn blake2bp_digest(input: Seq<u8>, length: nat) -> Seq<u8>;

/// The bytes fed to a BLAKE2bp state so far, in order.
pub uninterp spec fn absorbed(state: State) -> Seq<u8>;

/// The digest length that a BLAKE2bp state was made with.
pub uninterp spec fn digest_length(state: State) -> nat;

/// Relies on blake2b_simd's `blake2bp::Params::new`, `hash_length` and
/// `to_state`: a fresh unkeyed state that has absorbed nothing and yields
/// digests of `length` bytes (`hash_length` panics outside 1..=64).
#[verifier::external_body]
fn fresh_state(length: usize) -> (r: State)
    requires
        1 <= length <= 64,
    ensures
        absorbed(r) == Seq::<u8>::empty(),
        digest_length(r) == length,
{
    blake2b_simd::blake2bp::Params::new().hash_length(length).to_state()
}

/// Relies on blake2b_simd's `blake2bp::State::update`: the chunk is appended
/// to the input; the parameters stay.
#[verifier::external_body]
fn absorb(state: &mut State, chunk: &[u8])
    ensures
        absorbed(*final(state)) == absorbed(*old(state)) + chunk@,
        digest_length(*final(state)) == digest_length(*old(state)),
{
    state.update(chunk);
}

/// Relies on blake2b_simd's `blake2bp::State::finalize` and `Hash::as_bytes`:
/// the digest of everything absorbed, `hash_length` bytes long; the state is
/// left as it was.
#[verifier::external_body]
fn finalize(state: &State) -> (r: Vec<u8>)
    ensures
        r@ == blake2bp_digest(absorbed(*state), digest_length(*state)),
        r@.len() == digest_length(*state),
{
    state.finalize().as_bytes().to_vec()
}

/// The lowercase hex digit of a value below 16, as an ASCII byte.
pub open spec fn hex_digit_spec(n: u8) -> u8 {
    if n < 10 {
        (48 + n) as u8
    } else {
        (87 + n) as u8
    }
}

/// Lowercase hex of a byte string, two ASCII digits per byte, high nibble
/// first.
pub open spec fn hex_of(bytes: Seq<u8>) -> Seq<u8>
    decreases bytes.len(),
{
    if bytes.len() == 0 {
        Seq::empty()
    } else {
        let b = bytes.last();
        hex_of(bytes.drop_last()) + seq![hex_digit_spec(b / 16), hex_digit_spec(b % 16)]
    }
}

/// The content hash of a byte string: its 32-byte BLAKE2bp digest in hex.
pub open spec fn content_hash(data: Seq<u8>) -> Seq<u8> {
    hex_of(blake2bp_digest(data, DIGEST_LEN as nat))
}

/// Whether a byte is a lowercase hex digit.
pub open spec fn is_hex_digit(c: u8) -> bool {
    (48 <= c <= 57) || (97 <= c <= 102)
}

fn hex_digit(n: u8) -> (r: u8)
    requires
        n < 16,
    ensures
        r == hex_digit_spec(n),
{
    if n < 10 {
        48 + n
    } else {
        87 + n
    }
}

/// Hex is twice as long as its bytes and holds lowercase hex digits only.
pub proof fn lemma_hex_shape(bytes: Seq<u8>)
    ensures
        hex_of(bytes).len() == 2 * bytes.len(),
        forall|i: int| 0 <= i < hex_of(bytes).len() ==> is_hex_digit(#[trigger] hex_of(bytes)[i]),
    decreases bytes.len(),
{
    if bytes.len() > 0 {
        lemma_hex_shape(bytes.drop_last());
        let b = bytes.last();
        assert(b / 16 < 16 && b % 16 < 16);
    }
}

/// Renders bytes as lowercase hex.
pub fn to_hex(bytes: &[u8]) -> (r: Vec<u8>)
    ensures
        r@ == hex_of(bytes@),
{
    let mut r: Vec<u8> = Vec::new();
    let mut i: usize = 0;
    while i < bytes.len()
        invariant
            0 <= i <= bytes@.len(),
            r@ == hex_of(bytes@.subrange(0, i as int)),
        decreases bytes@.len() - i,
    {
        let b = bytes[i];
        r.push(hex_digit(b / 16));
        r.push(hex_digit(b % 16));
        let ghost next = bytes@.subrange(0, i + 1);
        assert(next.drop_last() == bytes@.subrange(0, i as int));
        assert(next.last() == b);
        i = i + 1;
    }
    assert(bytes@ == bytes@.subrange(0, bytes@.len() as int));
    r
}

/// A streaming content hasher.
pub struct ContentHasher {
    state: State,
}

impl View for ContentHasher {
    type V = Seq<u8>;

    /// The bytes fed so far.
    closed spec fn view(&self) -> Seq<u8> {
        absorbed(self.state)
    }
}

impl ContentHasher {
    /// The hasher yields 32-byte digests.
    pub closed spec fn well_formed(&self) -> bool {
        digest_length(self.state) == DIGEST_LEN
    }

    /// A hasher that has been fed nothing.
    pub fn new() -> (r: ContentHasher)
        ensures
            r.well_formed(),
            r@ == Seq::<u8>::empty(),
    {
        ContentHasher { state: fresh_state(DIGEST_LEN) }
    }

    /// Feeds the next chunk of the stream.
    pub fn update(&mut self, chunk: &[u8])
        requires
            old(self).well_formed(),
        ensures
            final(self).well_formed(),
            final(self)@ == old(self)@ + chunk@,
    {
        absorb(&mut self.state, chunk);
    }

    /// The content hash of everything fed so far, as lowercase hex.
    pub fn finish(&self) -> (r: Vec<u8>)
        requires
            self.well_formed(),
        ensures
            r@ == content_hash(self@),
            r@.len() == 2 * DIGEST_LEN,
    {
        let digest = finalize(&self.state);
        proof {
            lemma_hex_shape(digest@);
        }
        to_hex(digest.as_slice())
    }
}

/// The content hash of a byte string held in memory.
pub fn hash_bytes(data: &[u8]) -> (r: Vec<u8>)
    ensures
        r@ == content_hash(data@),
{
    let mut h = ContentHasher::new();
    h.update(data);
    assert(Seq::<u8>::empty() + data@ == data@);
    h.finish()
}

} // verus!
