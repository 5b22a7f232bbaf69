//! The content digest: XXH3-64 over a stream of chunks, and its rendering in
//! the manifest.

use vstd::prelude::*;
use vstd::string::*;

verus! {

/// The streaming state of `twox_hash::XxHash3_64`, of which nothing is known
/// but what the functions below say.
#[verifier::external_type_specification]
#[verifier::external_body]
pub struct ExXxHash3_64(twox_hash::XxHash3_64);

/// The XXH3-64 digest of `input` under the default seed and secret.
pub uninterp spec fn xxh3_64(input: Seq<u8>) -> u64;

/// The bytes that were written to `state` since it was made, in order.
pub uninterp spec fn absorbed(state: twox_hash::XxHash3_64) -> Seq<u8>;

/// Calls `twox_hash::XxHash3_64::new`: a state with the default seed and
/// secret, to which nothing was written yet.
#[verifier::external_body]
fn xxh3_new() -> (state: twox_hash::XxHash3_64)
    ensures
        absorbed(state) == Seq::<u8>::empty(),
{
    twox_hash::XxHash3_64::new()
}

/// Calls `write` of `std::hash::Hasher` on the state: `input` is appended to
/// what was written. The state counts the bytes in a `usize`, so the total
/// has to fit one.
#[verifier::external_body]
fn xxh3_write(state: &mut twox_hash::XxHash3_64, input: &[u8])
    requires
        absorbed(*old(state)).len() + input@.len() <= usize::MAX,
    ensures
        absorbed(*final(state)) == absorbed(*old(state)) + input@,
{
    std::hash::Hasher::write(state, input)
}

/// Calls `finish` of `std::hash::Hasher` on the state: the digest of all that
/// was written, however it was cut into writes. The state stays as it is.
#[verifier::external_body]
fn xxh3_finish(state: &twox_hash::XxHash3_64) -> (digest: u64)
    ensures
        digest == xxh3_64(absorbed(*state)),
{
    std::hash::Hasher::finish(state)
}

/// A streaming content hasher.
pub struct Hasher {
    state: twox_hash::XxHash3_64,
    len: usize,
}

impl View for Hasher {
    type V = Seq<u8>;

    /// All bytes that the hasher was fed, in order.
    closed spec fn view(&self) -> Seq<u8> {
        absorbed(self.state)
    }
}

impl Hasher {
    /// The hasher's count is the number of bytes it was fed. Every hasher
    /// that this module hands out is well formed.
    pub closed spec fn wf(&self) -> bool {
        self.len == absorbed(self.state).len()
    }

    /// A hasher that was fed nothing.
    pub fn new() -> (hasher: Hasher)
        ensures
            hasher.wf(),
            hasher@ == Seq::<u8>::empty(),
    {
        Hasher { state: xxh3_new(), len: 0 }
    }

    /// The number of bytes fed so far.
    pub fn len(&self) -> (n: usize)
        requires
            self.wf(),
        ensures
            n == self@.len(),
    {
        self.len
    }

    /// Feeds `bytes`.
    pub fn update(&mut self, bytes: &[u8])
        requires
            old(self).wf(),
            old(self)@.len() + bytes@.len() <= usize::MAX,
        ensures
            final(self).wf(),
            final(self)@ == old(self)@ + bytes@,
    {
        xxh3_write(&mut self.state, bytes);
        self.len = self.len + bytes.len();
    }

    /// Feeds `bytes` where the count of all bytes still fits a `usize`, and
    /// says whether it did; the hasher is unchanged where it did not.
    pub fn try_update(&mut self, bytes: &[u8]) -> (fed: bool)
        requires
            old(self).wf(),
        ensures
            final(self).wf(),
            fed == (old(self)@.len() + bytes@.len() <= usize::MAX),
            fed ==> final(self)@ == old(self)@ + bytes@,
            !fed ==> final(self)@ == old(self)@,
    {
        if bytes.len() <= usize::MAX - self.len {
            self.update(bytes);
            true
        } else {
            false
        }
    }

    /// The digest of all bytes fed so far.
    pub fn finalize(&self) -> (digest: u64)
        ensures
            digest == xxh3_64(self@),
    {
        xxh3_finish(&self.state)
    }
}

/// What a hasher holds after it was fed `chunks` one by one on top of
/// `state`.
pub open spec fn fed(state: Seq<u8>, chunks: Seq<Seq<u8>>) -> Seq<u8>
    decreases chunks.len(),
{
    if chunks.len() == 0 {
        state
    } else {
        fed(state + chunks[0], chunks.drop_first())
    }
}

/// The digest of a stream that arrives as `chunks`.
pub open spec fn stream_digest(chunks: Seq<Seq<u8>>) -> u64 {
    xxh3_64(fed(Seq::empty(), chunks))
}

/// Feeding chunks one by one is feeding their concatenation.
pub proof fn lemma_fed_is_concatenation(state: Seq<u8>, chunks: Seq<Seq<u8>>)
    ensures
        fed(state, chunks) == state + chunks.flatten(),
    decreases chunks.len(),
{
    if chunks.len() == 0 {
        assert(chunks.flatten() =~= Seq::<u8>::empty());
        assert(state + chunks.flatten() =~= state);
    } else {
        lemma_fed_is_concatenation(state + chunks[0], chunks.drop_first());
        assert(chunks.flatten() =~= chunks[0] + chunks.drop_first().flatten());
        assert((state + chunks[0]) + chunks.drop_first().flatten() =~= state + chunks.flatten());
    }
}

/// The digest does not depend on how the content was cut into chunks: two
/// streams with the same bytes in the same order have the same digest, which
/// is the digest of those bytes fed at once.
pub proof fn lemma_digest_ignores_chunking(a: Seq<Seq<u8>>, b: Seq<Seq<u8>>)
    requires
        a.flatten() == b.flatten(),
    ensures
        stream_digest(a) == stream_digest(b),
        stream_digest(a) == xxh3_64(a.flatten()),
        stream_digest(a) == stream_digest(seq![a.flatten()]),
{
    lemma_fed_is_concatenation(Seq::empty(), a);
    lemma_fed_is_concatenation(Seq::empty(), b);
    assert(Seq::<u8>::empty() + a.flatten() =~= a.flatten());
    assert(Seq::<u8>::empty() + b.flatten() =~= b.flatten());
    let whole = seq![a.flatten()];
    lemma_fed_is_concatenation(Seq::empty(), whole);
    assert(whole.drop_first() =~= Seq::<Seq<u8>>::empty());
    assert(whole.flatten() =~= whole[0] + whole.drop_first().flatten());
    assert(whole.drop_first().flatten() =~= Seq::<u8>::empty());
    assert(Seq::<u8>::empty() + whole.flatten() =~= a.flatten());
}

/// The bytes of the first `k` chunks are at most as many as the bytes of all
/// chunks.
proof fn lemma_prefix_is_shorter(chunks: Seq<Seq<u8>>, k: int)
    requires
        0 <= k <= chunks.len(),
    ensures
        chunks.take(k).flatten().len() <= chunks.flatten().len(),
    decreases chunks.len() - k,
{
    broadcast use Seq::lemma_flatten_push;

    if k == chunks.len() {
        assert(chunks.take(k) =~= chunks);
    } else {
        assert(chunks.take(k + 1) =~= chunks.take(k).push(chunks[k]));
        lemma_prefix_is_shorter(chunks, k + 1);
    }
}

/// The digest of the content that arrives as `chunks`, in their order: the
/// digest of all their bytes, whatever the cuts. There is none where the
/// bytes are more than a `usize` counts.
pub fn digest_of(chunks: &Vec<Vec<u8>>) -> (digest: Option<u64>)
    ensures
        match digest {
            Some(d) => d == xxh3_64(chunks.deep_view().flatten()) && d == stream_digest(
                chunks.deep_view(),
            ),
            None => chunks.deep_view().flatten().len() > usize::MAX,
        },
{
    broadcast use Seq::lemma_flatten_push;

    let ghost all = chunks.deep_view();
    let mut hasher = Hasher::new();
    let mut i: usize = 0;
    assert(all.take(0) =~= Seq::<Seq<u8>>::empty());
    assert(all.take(0).flatten() =~= Seq::<u8>::empty());
    while i < chunks.len()
        invariant
            i <= chunks.len(),
            all == chunks.deep_view(),
            hasher.wf(),
            hasher@ == all.take(i as int).flatten(),
        decreases chunks.len() - i,
    {
        proof {
            let chunk = chunks[i as int]@;
            assert(all[i as int] =~= chunk);
            assert(all.take(i + 1) =~= all.take(i as int).push(chunk));
            all.take(i as int).lemma_flatten_push(chunk);
            assert(all.take(i + 1).flatten() == all.take(i as int).flatten() + chunk);
            lemma_prefix_is_shorter(all, i + 1);
        }
        if !hasher.try_update(chunks[i].as_slice()) {
            return None;
        }
        i += 1;
    }
    proof {
        assert(all.take(chunks.len() as int) =~= all);
        lemma_digest_ignores_chunking(all, all);
    }
    Some(hasher.finalize())
}

/// The digit of value `d` in lower-case hexadecimal.
pub open spec fn hex_digit(d: int) -> char {
    seq!['0', '1', '2', '3', '4', '5', '6', '7', '8', '9', 'a', 'b', 'c', 'd', 'e', 'f'][d]
}

/// `n` in lower-case hexadecimal, without leading zeros.
pub open spec fn hex_of(n: nat) -> Seq<char>
    decreases n,
{
    if n < 16 {
        seq![hex_digit(n as int)]
    } else {
        hex_of(n / 16).push(hex_digit((n % 16) as int))
    }
}

fn hex_digit_str(d: u64) -> (s: &'static str)
    requires
        d < 16,
    ensures
        s@ == seq![hex_digit(d as int)],
{
    proof {
        reveal_strlit("0");
        reveal_strlit("1");
        reveal_strlit("2");
        reveal_strlit("3");
        reveal_strlit("4");
        reveal_strlit("5");
        reveal_strlit("6");
        reveal_strlit("7");
        reveal_strlit("8");
        reveal_strlit("9");
        reveal_strlit("a");
        reveal_strlit("b");
        reveal_strlit("c");
        reveal_strlit("d");
        reveal_strlit("e");
        reveal_strlit("f");
    }
    let s = match d {
        0 => "0",
        1 => "1",
        2 => "2",
        3 => "3",
        4 => "4",
        5 => "5",
        6 => "6",
        7 => "7",
        8 => "8",
        9 => "9",
        10 => "a",
        11 => "b",
        12 => "c",
        13 => "d",
        14 => "e",
        _ => "f",
    };
    assert(s@ =~= seq![hex_digit(d as int)]);
    s
}

/// Appends `n` in lower-case hexadecimal to `out`.
pub fn push_hex(out: &mut String, n: u64)
    ensures
        final(out)@ == old(out)@ + hex_of(n as nat),
    decreases n,
{
    if n >= 16 {
        push_hex(out, n / 16);
    }
    out.append(hex_digit_str(n % 16));
}

/// A digest as the manifest shows it: lower-case hexadecimal without leading
/// zeros.
pub fn to_hex(digest: u64) -> (text: String)
    ensures
        text@ == hex_of(digest as nat),
{
    let mut text = String::new();
    push_hex(&mut text, digest);
    text
}

} // verus!
