//! The work that a pool hands out and the block header that is hashed for it.

use crate::bytes::{
    law_encoding_reads_back, le_bytes, le_encoding, le_value, lemma_be_encoding_len,
};
use crate::hashing::{double_sha256, sha256_digest, sha256d};
use vstd::arithmetic::power::*;
use vstd::prelude::*;

verus! {

/// One piece of work, as the pool announced it.
#[derive(Clone, Debug)]
pub struct Job {
    pub job_id: String,
    pub prevhash: Vec<u8>,
    pub coinb1: Vec<u8>,
    pub coinb2: Vec<u8>,
    pub merkle_branch: Vec<Vec<u8>>,
    pub version: Vec<u8>,
    pub nbits: Vec<u8>,
    pub ntime: Vec<u8>,
}

/// What a [`Job`] holds.
#[verifier::ext_equal]
pub struct JobView {
    pub job_id: Seq<char>,
    pub prevhash: Seq<u8>,
    pub coinb1: Seq<u8>,
    pub coinb2: Seq<u8>,
    pub merkle_branch: Seq<Seq<u8>>,
    pub version: Seq<u8>,
    pub nbits: Seq<u8>,
    pub ntime: Seq<u8>,
}

/// The contents of each of several byte vectors.
pub open spec fn contents(vectors: Seq<Vec<u8>>) -> Seq<Seq<u8>> {
    Seq::new(vectors.len(), |i: int| vectors[i]@)
}

impl View for Job {
    type V = JobView;

    open spec fn view(&self) -> JobView {
        JobView {
            job_id: self.job_id@,
            prevhash: self.prevhash@,
            coinb1: self.coinb1@,
            coinb2: self.coinb2@,
            merkle_branch: contents(self.merkle_branch@),
            version: self.version@,
            nbits: self.nbits@,
            ntime: self.ntime@,
        }
    }
}

/// Where the four-byte word that holds index `i` begins.
pub open spec fn word_start(i: int) -> int {
    i / 4 * 4
}

/// Where the word that holds index `i` ends in `len` bytes; the last word may
/// be short.
pub open spec fn word_end(i: int, len: int) -> int {
    if word_start(i) + 4 <= len {
        word_start(i) + 4
    } else {
        len
    }
}

/// The bytes with each four-byte word, and a shorter rest, turned round.
pub open spec fn words_swapped(bytes: Seq<u8>) -> Seq<u8> {
    Seq::new(
        bytes.len(),
        |i: int| bytes[word_start(i) + word_end(i, bytes.len() as int) - 1 - i],
    )
}

/// The coinbase transaction that carries the two extra nonces.
pub open spec fn coinbase_of(
    job: JobView,
    extranonce1: Seq<u8>,
    extranonce2: Seq<u8>,
) -> Seq<u8> {
    job.coinb1 + extranonce1 + extranonce2 + job.coinb2
}

/// The Merkle root over a leaf and the branch beside it, leaf end first.
pub open spec fn merkle_root_of(leaf: Seq<u8>, branch: Seq<Seq<u8>>) -> Seq<u8>
    decreases branch.len(),
{
    if branch.len() == 0 {
        leaf
    } else {
        double_sha256(merkle_root_of(leaf, branch.drop_last()) + branch.last())
    }
}

/// Everything in the block header but the nonce.
pub open spec fn header_head_of(job: JobView, merkle_root: Seq<u8>) -> Seq<u8> {
    job.version + words_swapped(job.prevhash) + merkle_root + job.ntime + job.nbits
}

/// The block header: its head and the nonce, the lowest byte first.
pub open spec fn header_of(head: Seq<u8>, nonce: nat) -> Seq<u8> {
    head + le_encoding(nonce, 4)
}

/// Turns each four-byte word of `bytes` round, and the rest where the length is
/// no multiple of four.
pub fn swap_word_order(bytes: &[u8]) -> (swapped: Vec<u8>)
    ensures
        swapped@ == words_swapped(bytes@),
{
    let len: usize = bytes.len();
    let mut swapped: Vec<u8> = Vec::new();
    let mut start: usize = 0;
    while start < len
        invariant
            start <= len,
            len == bytes@.len(),
            start % 4 == 0 || start == len,
            swapped@ == words_swapped(bytes@).take(start as int),
        decreases len - start,
    {
        let end: usize = if len - start >= 4 {
            start + 4
        } else {
            len
        };
        let mut left: usize = end;
        while left > start
            invariant
                start <= left <= end <= len,
                start < len,
                len == bytes@.len(),
                start % 4 == 0,
                end == start + 4 || end == len && len < start + 4,
                swapped@ == words_swapped(bytes@).take(start + end - left),
            decreases left,
        {
            left = left - 1;
            swapped.push(bytes[left]);
            proof {
                let i = start + end - left - 1;
                assert(word_start(i) == start);
                assert(swapped@ =~= words_swapped(bytes@).take(i + 1));
            }
        }
        start = end;
    }
    assert(words_swapped(bytes@).take(len as int) =~= words_swapped(bytes@));
    swapped
}

/// Appends `tail` to `bytes`.
fn append_bytes(bytes: &mut Vec<u8>, tail: &[u8])
    ensures
        final(bytes)@ == old(bytes)@ + tail@,
{
    bytes.extend_from_slice(tail);
    assert(bytes@ =~= old(bytes)@ + tail@);
}

/// Puts the coinbase transaction together from its two halves and the extra
/// nonces between them.
pub fn coinbase(job: &Job, extranonce1: &[u8], extranonce2: &[u8]) -> (bytes: Vec<u8>)
    ensures
        bytes@ == coinbase_of(job@, extranonce1@, extranonce2@),
{
    let mut bytes: Vec<u8> = Vec::new();
    append_bytes(&mut bytes, job.coinb1.as_slice());
    append_bytes(&mut bytes, extranonce1);
    append_bytes(&mut bytes, extranonce2);
    append_bytes(&mut bytes, job.coinb2.as_slice());
    assert(bytes@ =~= coinbase_of(job@, extranonce1@, extranonce2@));
    bytes
}

/// Hashes the coinbase transaction together with the Merkle branch up to the
/// root.
pub fn merkle_root(coinbase: &[u8], branch: &Vec<Vec<u8>>) -> (root: Vec<u8>)
    ensures
        root@ == merkle_root_of(double_sha256(coinbase@), contents(branch@)),
        root@.len() == 32,
{
    let mut root: Vec<u8> = sha256d(coinbase);
    let ghost leaf = double_sha256(coinbase@);
    let ghost siblings = contents(branch@);
    let mut i: usize = 0;
    assert(siblings.take(0) =~= Seq::<Seq<u8>>::empty());
    while i < branch.len()
        invariant
            i <= branch@.len(),
            siblings == contents(branch@),
            root@ == merkle_root_of(leaf, siblings.take(i as int)),
            root@.len() == 32,
        decreases branch@.len() - i,
    {
        let mut pair: Vec<u8> = Vec::new();
        append_bytes(&mut pair, root.as_slice());
        append_bytes(&mut pair, branch[i].as_slice());
        proof {
            assert(siblings.take(i + 1).drop_last() =~= siblings.take(i as int));
            assert(pair@ =~= root@ + siblings[i as int]);
        }
        root = sha256d(pair.as_slice());
        i = i + 1;
    }
    assert(siblings.take(i as int) =~= siblings);
    root
}

/// Puts together everything in the block header but the nonce.
pub fn header_head(job: &Job, merkle_root: &[u8]) -> (head: Vec<u8>)
    ensures
        head@ == header_head_of(job@, merkle_root@),
{
    let mut head: Vec<u8> = Vec::new();
    append_bytes(&mut head, job.version.as_slice());
    append_bytes(&mut head, swap_word_order(job.prevhash.as_slice()).as_slice());
    append_bytes(&mut head, merkle_root);
    append_bytes(&mut head, job.ntime.as_slice());
    append_bytes(&mut head, job.nbits.as_slice());
    assert(head@ =~= header_head_of(job@, merkle_root@));
    head
}

/// The block header with the given nonce.
pub fn header(head: &[u8], nonce: u32) -> (bytes: Vec<u8>)
    ensures
        bytes@ == header_of(head@, nonce as nat),
{
    let mut bytes: Vec<u8> = Vec::new();
    append_bytes(&mut bytes, head);
    append_bytes(&mut bytes, le_bytes(nonce).as_slice());
    assert(bytes@ =~= header_of(head@, nonce as nat));
    bytes
}

/// Swapping the word order twice gives the bytes back.
pub proof fn law_swap_undoes_itself(bytes: Seq<u8>)
    ensures
        words_swapped(words_swapped(bytes)) == bytes,
{
    let once = words_swapped(bytes);
    let len = bytes.len() as int;
    assert forall|i: int| 0 <= i < len implies #[trigger] words_swapped(once)[i] == bytes[i] by {
        let j = word_start(i) + word_end(i, len) - 1 - i;
        assert(word_start(j) == word_start(i));
    }
    assert(words_swapped(once) =~= bytes);
}

/// With fields of the sizes that Bitcoin uses, the header has 80 bytes.
pub proof fn law_header_size(job: JobView, merkle_root: Seq<u8>, nonce: nat)
    requires
        job.version.len() == 4,
        job.prevhash.len() == 32,
        merkle_root.len() == 32,
        job.ntime.len() == 4,
        job.nbits.len() == 4,
    ensures
        header_of(header_head_of(job, merkle_root), nonce).len() == 80,
{
    lemma_be_encoding_len(nonce, 4);
}

/// Different nonces never give the same header, so no hash is tried twice for
/// one header head.
pub proof fn law_nonces_give_different_headers(head: Seq<u8>, a: u32, b: u32)
    requires
        a != b,
    ensures
        header_of(head, a as nat) != header_of(head, b as nat),
{
    if header_of(head, a as nat) == header_of(head, b as nat) {
        lemma_be_encoding_len(a as nat, 4);
        lemma_be_encoding_len(b as nat, 4);
        let n = head.len() as int;
        assert(header_of(head, a as nat).skip(n) =~= le_encoding(a as nat, 4));
        assert(header_of(head, b as nat).skip(n) =~= le_encoding(b as nat, 4));
        law_encoding_reads_back(a as nat, 4);
        law_encoding_reads_back(b as nat, 4);
        assert(pow(256, 4) == 0x1_0000_0000) by {
            reveal_with_fuel(pow, 5);
        }
    }
}

/// Whether some bytes stand in others from an index on.
pub open spec fn stands_at(part: Seq<u8>, whole: Seq<u8>, start: int) -> bool {
    &&& 0 <= start
    &&& start + part.len() <= whole.len()
    &&& forall|i: int| 0 <= i < part.len() ==> #[trigger] part[i] == whole[start + i]
}

/// Every hash of a Merkle branch goes into the root, at every depth: it is joined
/// to what the hashes before it gave, and both are hashed.
pub proof fn law_every_sibling_counts(leaf: Seq<u8>, branch: Seq<Seq<u8>>, hash: Seq<u8>)
    ensures
        merkle_root_of(leaf, Seq::empty()) == leaf,
        merkle_root_of(leaf, branch.push(hash)) == sha256_digest(
            sha256_digest(merkle_root_of(leaf, branch) + hash),
        ),
{
    assert(branch.push(hash).drop_last() =~= branch);
}

/// A Merkle branch may be climbed in two parts: the root over the first is the
/// leaf of the second.
pub proof fn law_branches_join(leaf: Seq<u8>, first: Seq<Seq<u8>>, second: Seq<Seq<u8>>)
    ensures
        merkle_root_of(leaf, first + second) == merkle_root_of(
            merkle_root_of(leaf, first),
            second,
        ),
    decreases second.len(),
{
    if second.len() == 0 {
        assert(first + second =~= first);
    } else {
        law_branches_join(leaf, first, second.drop_last());
        assert((first + second).drop_last() =~= first + second.drop_last());
    }
}

/// The root of a branch with one more hash is the double hash of the root without
/// it and that hash; without a branch the root is the double hash of the coinbase.
pub proof fn law_roots_grow_with_the_branch(
    coinbase: &[u8],
    shorter: &Vec<Vec<u8>>,
    longer: &Vec<Vec<u8>>,
    hash: Seq<u8>,
    lower: Vec<u8>,
    upper: Vec<u8>,
)
    requires
        contents(longer@) == contents(shorter@).push(hash),
        call_ensures(merkle_root, (coinbase, shorter), lower),
        call_ensures(merkle_root, (coinbase, longer), upper),
    ensures
        upper@ == sha256_digest(sha256_digest(lower@ + hash)),
        shorter@.len() == 0 ==> lower@ == sha256_digest(sha256_digest(coinbase@)),
{
    law_every_sibling_counts(double_sha256(coinbase@), contents(shorter@), hash);
    if shorter@.len() == 0 {
        assert(contents(shorter@) =~= Seq::<Seq<u8>>::empty());
    }
}

/// Words are turned round one by one: up to four bytes are turned round as a
/// whole, and behind whole words the rest is turned round on its own.
pub proof fn law_words_are_turned_one_by_one(words: Seq<u8>, rest: Seq<u8>)
    requires
        words.len() % 4 == 0,
    ensures
        words_swapped(words + rest) == words_swapped(words) + words_swapped(rest),
        rest.len() <= 4 ==> words_swapped(rest) == rest.reverse(),
{
    let n = words.len() as int;
    let m = rest.len() as int;
    let whole = words + rest;
    assert forall|i: int| 0 <= i < n + m implies #[trigger] words_swapped(whole)[i] == (
    words_swapped(words) + words_swapped(rest))[i] by {
        if i < n {
            assert(word_start(i) + 4 <= n);
        } else {
            assert(word_start(i) == n + word_start(i - n));
        }
    }
    assert(words_swapped(whole) =~= words_swapped(words) + words_swapped(rest));
    if m <= 4 {
        assert forall|i: int| 0 <= i < m implies #[trigger] words_swapped(rest)[i]
            == rest.reverse()[i] by {
            assert(word_start(i) == 0);
        }
        assert(words_swapped(rest) =~= rest.reverse());
    }
}

/// Turning the words round keeps the length, and within each whole word the byte
/// at one end changes places with the byte at the other.
pub proof fn law_swapped_words(bytes: &[u8], swapped: Vec<u8>, word: int, k: int)
    requires
        call_ensures(swap_word_order, (bytes,), swapped),
        0 <= word,
        4 * word + 4 <= bytes@.len(),
        0 <= k < 4,
    ensures
        swapped@.len() == bytes@.len(),
        swapped@[4 * word + k] == bytes@[4 * word + 3 - k],
{
    assert(word_start(4 * word + k) == 4 * word);
}

/// The coinbase is the first half, the pool's extra nonce, the worker's extra
/// nonce and the second half, with nothing between them or left out.
pub proof fn law_coinbase_layout(
    job: &Job,
    extranonce1: &[u8],
    extranonce2: &[u8],
    bytes: Vec<u8>,
)
    requires
        call_ensures(coinbase, (job, extranonce1, extranonce2), bytes),
    ensures
        ({
            let a = job.coinb1@.len() as int;
            let b = extranonce1@.len() as int;
            let c = extranonce2@.len() as int;
            &&& bytes@.len() == a + b + c + job.coinb2@.len()
            &&& stands_at(job.coinb1@, bytes@, 0)
            &&& stands_at(extranonce1@, bytes@, a)
            &&& stands_at(extranonce2@, bytes@, a + b)
            &&& stands_at(job.coinb2@, bytes@, a + b + c)
        }),
{
}

/// The head of a header is the version, the previous hash with its words turned
/// round, the Merkle root, the time and the bits, with nothing between them or
/// left out.
pub proof fn law_header_head_layout(
    job: &Job,
    root: &[u8],
    prevhash: &[u8],
    swapped: Vec<u8>,
    head: Vec<u8>,
)
    requires
        call_ensures(header_head, (job, root), head),
        prevhash@ == job.prevhash@,
        call_ensures(swap_word_order, (prevhash,), swapped),
    ensures
        ({
            let a = job.version@.len() as int;
            let b = job.prevhash@.len() as int;
            let c = root@.len() as int;
            let d = job.ntime@.len() as int;
            &&& head@.len() == a + b + c + d + job.nbits@.len()
            &&& stands_at(job.version@, head@, 0)
            &&& stands_at(swapped@, head@, a)
            &&& stands_at(root@, head@, a + b)
            &&& stands_at(job.ntime@, head@, a + b + c)
            &&& stands_at(job.nbits@, head@, a + b + c + d)
        }),
{
}

/// A header is its head and four more bytes, which stand for the nonce with the
/// least significant byte first.
pub proof fn law_header_layout(head: &[u8], nonce: u32, bytes: Vec<u8>)
    requires
        call_ensures(header, (head, nonce), bytes),
    ensures
        bytes@.len() == head@.len() + 4,
        stands_at(head@, bytes@, 0),
        le_value(bytes@.skip(head@.len() as int)) == nonce,
{
    lemma_be_encoding_len(nonce as nat, 4);
    law_encoding_reads_back(nonce as nat, 4);
    assert(bytes@.skip(head@.len() as int) =~= le_encoding(nonce as nat, 4));
    assert(pow(256, 4) == 0x1_0000_0000) by {
        reveal_with_fuel(pow, 5);
    }
}

} // verus!
