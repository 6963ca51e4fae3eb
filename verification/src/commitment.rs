use crate::crypto::{sha256_hash, sha256_of};
use crate::envelope::{payload_seq, TransactionEnvelope};
use vstd::prelude::*;
use vstd::relations::{sorted_by, total_ordering};
use vstd::seq_lib::lemma_sorted_unique;

verus! {

broadcast use {vstd::seq_lib::group_to_multiset_ensures, vstd::multiset::group_multiset_axioms};

// ---------------------------------------------------------------------------
// The canonical order on digests: byte-wise lexicographic, a prefix ordered
// before every extension.  This is the order in which per-payload digests are
// concatenated, so that the commitment is independent of submission order.
// ---------------------------------------------------------------------------

pub open spec fn lex_leq(a: Seq<u8>, b: Seq<u8>) -> bool
    decreases a.len(),
{
    if a.len() == 0 {
        true
    } else if b.len() == 0 {
        false
    } else if a[0] < b[0] {
        true
    } else if a[0] > b[0] {
        false
    } else {
        lex_leq(a.drop_first(), b.drop_first())
    }
}

pub open spec fn lex_fn() -> spec_fn(Seq<u8>, Seq<u8>) -> bool {
    |a: Seq<u8>, b: Seq<u8>| lex_leq(a, b)
}

proof fn lemma_lex_refl(a: Seq<u8>)
    ensures
        lex_leq(a, a),
    decreases a.len(),
{
    if a.len() > 0 {
        lemma_lex_refl(a.drop_first());
    }
}

proof fn lemma_lex_connected(a: Seq<u8>, b: Seq<u8>)
    ensures
        lex_leq(a, b) || lex_leq(b, a),
    decreases a.len(),
{
    if a.len() > 0 && b.len() > 0 && a[0] == b[0] {
        lemma_lex_connected(a.drop_first(), b.drop_first());
    }
}

proof fn lemma_lex_antisym(a: Seq<u8>, b: Seq<u8>)
    requires
        lex_leq(a, b),
        lex_leq(b, a),
    ensures
        a == b,
    decreases a.len(),
{
    if a.len() == 0 {
        assert(b.len() == 0);
        assert(a =~= b);
    } else {
        assert(b.len() > 0);
        assert(a[0] == b[0]);
        lemma_lex_antisym(a.drop_first(), b.drop_first());
        assert(a.len() == b.len());
        assert forall|i: int| 0 <= i < a.len() implies a[i] == b[i] by {
            if i > 0 {
                assert(a[i] == a.drop_first()[i - 1]);
                assert(b[i] == b.drop_first()[i - 1]);
            }
        }
        assert(a =~= b);
    }
}

proof fn lemma_lex_trans(a: Seq<u8>, b: Seq<u8>, c: Seq<u8>)
    requires
        lex_leq(a, b),
        lex_leq(b, c),
    ensures
        lex_leq(a, c),
    decreases a.len(),
{
    if a.len() > 0 {
        assert(b.len() > 0);
        assert(c.len() > 0);
        if a[0] == c[0] {
            assert(a[0] == b[0] && b[0] == c[0]);
            lemma_lex_trans(a.drop_first(), b.drop_first(), c.drop_first());
        }
    }
}

/// The lexicographic order on byte sequences is a total order, so sorting by
/// it yields one canonical arrangement of any multiset of digests.
pub proof fn lemma_lex_total_ordering()
    ensures
        total_ordering(lex_fn()),
{
    assert forall|a: Seq<u8>| #[trigger] lex_fn()(a, a) by {
        lemma_lex_refl(a);
    }
    assert forall|a: Seq<u8>, b: Seq<u8>| #[trigger] lex_fn()(a, b) && #[trigger] lex_fn()(b, a)
        implies a == b by {
        lemma_lex_antisym(a, b);
    }
    assert forall|a: Seq<u8>, b: Seq<u8>, c: Seq<u8>|
        #[trigger] lex_fn()(a, b) && #[trigger] lex_fn()(b, c) implies lex_fn()(a, c) by {
        lemma_lex_trans(a, b, c);
    }
    assert forall|a: Seq<u8>, b: Seq<u8>| #[trigger] lex_fn()(a, b) || #[trigger] lex_fn()(b, a) by {
        lemma_lex_connected(a, b);
    }
}

proof fn lemma_lex_skip_step(a: Seq<u8>, b: Seq<u8>, i: int)
    requires
        0 <= i < a.len(),
        i < b.len(),
        a[i] == b[i],
    ensures
        lex_leq(a.skip(i), b.skip(i)) == lex_leq(a.skip(i + 1), b.skip(i + 1)),
{
    assert(a.skip(i).drop_first() =~= a.skip(i + 1));
    assert(b.skip(i).drop_first() =~= b.skip(i + 1));
    assert(a.skip(i)[0] == a[i]);
    assert(b.skip(i)[0] == b[i]);
}

/// Decides the canonical order between two digests.
pub fn lex_le(a: &Vec<u8>, b: &Vec<u8>) -> (r: bool)
    ensures
        r == lex_leq(a@, b@),
{
    let mut i: usize = 0;
    proof {
        assert(a@.skip(0) =~= a@);
        assert(b@.skip(0) =~= b@);
    }
    loop
        invariant
            i <= a@.len(),
            i <= b@.len(),
            lex_leq(a@, b@) == lex_leq(a@.skip(i as int), b@.skip(i as int)),
        decreases a@.len() - i,
    {
        if i >= a.len() {
            proof {
                assert(a@.skip(i as int).len() == 0);
            }
            return true;
        }
        if i >= b.len() {
            proof {
                assert(b@.skip(i as int).len() == 0);
                assert(a@.skip(i as int).len() > 0);
            }
            return false;
        }
        let x = a[i];
        let y = b[i];
        proof {
            assert(a@.skip(i as int)[0] == a@[i as int]);
            assert(b@.skip(i as int)[0] == b@[i as int]);
        }
        if x < y {
            return true;
        }
        if x > y {
            return false;
        }
        proof {
            lemma_lex_skip_step(a@, b@, i as int);
        }
        i += 1;
    }
}

// ---------------------------------------------------------------------------
// Sorting the digest list into the canonical order.
// ---------------------------------------------------------------------------

/// The views of a vector of byte vectors.
pub open spec fn views_of(s: Seq<Vec<u8>>) -> Seq<Seq<u8>> {
    s.map_values(|v: Vec<u8>| v@)
}

/// Copies a byte vector; the copy carries the same bytes.
pub fn clone_bytes(v: &Vec<u8>) -> (r: Vec<u8>)
    ensures
        r@ == v@,
{
    let r = v.clone();
    assert(r@ =~= v@);
    r
}

fn insert_sorted(v: &mut Vec<Vec<u8>>, x: Vec<u8>)
    requires
        sorted_by(views_of(old(v)@), lex_fn()),
    ensures
        sorted_by(views_of(final(v)@), lex_fn()),
        views_of(final(v)@).to_multiset() == views_of(old(v)@).to_multiset().insert(x@),
{
    let ghost orig = views_of(v@);
    let mut p: usize = 0;
    while p < v.len() && lex_le(&v[p], &x)
        invariant
            p <= v@.len(),
            v@ == old(v)@,
            forall|j: int| 0 <= j < p ==> lex_leq(views_of(v@)[j], x@),
        decreases v@.len() - p,
    {
        p += 1;
    }
    proof {
        lemma_lex_total_ordering();
        if (p as int) < orig.len() {
            lemma_lex_connected(orig[p as int], x@);
            assert(lex_leq(x@, orig[p as int]));
        }
    }
    v.insert(p, x);
    proof {
        let after = views_of(v@);
        assert(after =~= orig.insert(p as int, x@)) by {
            orig.insert_ensures(p as int, x@);
            assert(after.len() == orig.len() + 1);
            assert forall|j: int| 0 <= j < after.len() implies after[j] == orig.insert(
                p as int,
                x@,
            )[j] by {
                orig.insert_ensures(p as int, x@);
            }
        }
        assert(sorted_by(after, lex_fn())) by {
            orig.insert_ensures(p as int, x@);
            assert forall|i: int, j: int| 0 <= i < j < after.len() implies #[trigger] lex_fn()(
                after[i],
                after[j],
            ) by {
                if i < p && j < p {
                } else if i < p && j == p {
                    assert(lex_leq(orig[i], x@));
                } else if i == p && j > p {
                    assert(lex_leq(x@, orig[p as int]));
                    if j - 1 > p {
                        assert(lex_fn()(orig[p as int], orig[j - 1]));
                        lemma_lex_trans(x@, orig[p as int], orig[j - 1]);
                    }
                } else if i < p && j > p {
                } else {
                }
            }
        }
        assert(after.to_multiset() == orig.to_multiset().insert(x@));
    }
}

/// Arranges a list of digests into the canonical lexicographic order.
pub fn sort_digests(input: &Vec<Vec<u8>>) -> (r: Vec<Vec<u8>>)
    ensures
        views_of(r@) == views_of(input@).sort_by(lex_fn()),
{
    let mut r: Vec<Vec<u8>> = Vec::new();
    let mut i: usize = 0;
    proof {
        assert(views_of(r@) =~= Seq::<Seq<u8>>::empty());
        assert(views_of(input@).take(0) =~= Seq::<Seq<u8>>::empty());
    }
    while i < input.len()
        invariant
            i <= input@.len(),
            sorted_by(views_of(r@), lex_fn()),
            views_of(r@).to_multiset() == views_of(input@).take(i as int).to_multiset(),
        decreases input@.len() - i,
    {
        let x = clone_bytes(&input[i]);
        insert_sorted(&mut r, x);
        proof {
            assert(views_of(input@).take(i + 1) =~= views_of(input@).take(i as int).push(
                input@[i as int]@,
            ));
        }
        i += 1;
    }
    proof {
        assert(views_of(input@).take(input@.len() as int) =~= views_of(input@));
        lemma_lex_total_ordering();
        views_of(input@).lemma_sort_by_ensures(lex_fn());
        lemma_sorted_unique(views_of(r@), views_of(input@).sort_by(lex_fn()), lex_fn());
        assert(views_of(r@) == views_of(input@).sort_by(lex_fn()));
    }
    r
}

// ---------------------------------------------------------------------------
// The commitment itself: hash each payload, sort the digests, concatenate
// them with the nonce appended last, and hash the concatenation.
// ---------------------------------------------------------------------------

/// The concatenation of a list of byte sequences, in order.
pub open spec fn concat_digests(s: Seq<Seq<u8>>) -> Seq<u8>
    decreases s.len(),
{
    if s.len() == 0 {
        Seq::empty()
    } else {
        concat_digests(s.drop_last()) + s.last()
    }
}

/// The digest of each payload, in payload order.
pub open spec fn digest_list(payloads: Seq<Seq<u8>>) -> Seq<Seq<u8>> {
    payloads.map_values(|p: Seq<u8>| sha256_of(p))
}

/// The bytes that are hashed to form a commitment: the payload digests in
/// canonical order, with the nonce appended last.
pub open spec fn commitment_input(payloads: Seq<Seq<u8>>, nonce: Seq<u8>) -> Seq<u8> {
    concat_digests(digest_list(payloads).sort_by(lex_fn())) + nonce
}

/// The commitment that binds a multiset of payloads to a nonce.
pub open spec fn commitment_of(payloads: Seq<Seq<u8>>, nonce: Seq<u8>) -> Seq<u8> {
    sha256_of(commitment_input(payloads, nonce))
}

/// Computes the binding commitment over a batch's envelopes and nonce.
/// Deterministic and pure: the digest depends only on the multiset of
/// payloads and the nonce, never on the envelopes' order.
pub fn compute_commitment(transactions: &Vec<TransactionEnvelope>, nonce: &Vec<u8>) -> (r: Vec<u8>)
    ensures
        r@ == commitment_of(payload_seq(transactions@), nonce@),
        r@.len() == 32,
{
    let ghost payloads = payload_seq(transactions@);
    let mut hashes: Vec<Vec<u8>> = Vec::new();
    let mut i: usize = 0;
    proof {
        assert(views_of(hashes@) =~= digest_list(payloads).take(0));
    }
    while i < transactions.len()
        invariant
            i <= transactions@.len(),
            payloads == payload_seq(transactions@),
            views_of(hashes@) == digest_list(payloads).take(i as int),
        decreases transactions@.len() - i,
    {
        let h = sha256_hash(transactions[i].tx_bytes.as_slice());
        hashes.push(h);
        proof {
            assert(digest_list(payloads).take(i + 1) =~= digest_list(payloads).take(i as int).push(
                sha256_of(transactions@[i as int].tx_bytes@),
            ));
            assert(views_of(hashes@) =~= digest_list(payloads).take(i + 1));
        }
        i += 1;
    }
    proof {
        assert(digest_list(payloads).take(transactions@.len() as int) =~= digest_list(payloads));
    }
    let sorted = sort_digests(&hashes);
    let ghost canonical = digest_list(payloads).sort_by(lex_fn());
    let mut input: Vec<u8> = Vec::new();
    let mut j: usize = 0;
    proof {
        assert(canonical.take(0) =~= Seq::<Seq<u8>>::empty());
        assert(input@ =~= concat_digests(canonical.take(0)));
    }
    while j < sorted.len()
        invariant
            j <= sorted@.len(),
            views_of(sorted@) == canonical,
            input@ == concat_digests(canonical.take(j as int)),
        decreases sorted@.len() - j,
    {
        extend_bytes(&mut input, &sorted[j]);
        proof {
            assert(canonical.take(j + 1).drop_last() =~= canonical.take(j as int));
            assert(canonical.take(j + 1).last() == canonical[j as int]);
            assert(canonical[j as int] == sorted@[j as int]@);
            assert(input@ == concat_digests(canonical.take(j + 1)));
        }
        j += 1;
    }
    proof {
        assert(canonical.take(sorted@.len() as int) =~= canonical);
    }
    extend_bytes(&mut input, nonce);
    proof {
        assert(input@ == commitment_input(payloads, nonce@));
    }
    sha256_hash(input.as_slice())
}

/// Appends the bytes of `src` to `dst`.
pub fn extend_bytes(dst: &mut Vec<u8>, src: &Vec<u8>)
    ensures
        final(dst)@ == old(dst)@ + src@,
{
    let mut k: usize = 0;
    proof {
        assert(dst@ =~= old(dst)@ + src@.take(0));
    }
    while k < src.len()
        invariant
            k <= src@.len(),
            dst@ == old(dst)@ + src@.take(k as int),
        decreases src@.len() - k,
    {
        dst.push(src[k]);
        proof {
            assert(old(dst)@ + src@.take(k as int) + seq![src@[k as int]] =~= old(dst)@ + src@.take(
                k + 1,
            ));
            assert(dst@ =~= old(dst)@ + src@.take(k + 1));
        }
        k += 1;
    }
    proof {
        assert(src@.take(src@.len() as int) =~= src@);
    }
}

/// Decides whether two byte vectors carry the same bytes.
pub fn bytes_eq(a: &Vec<u8>, b: &Vec<u8>) -> (r: bool)
    ensures
        r == (a@ == b@),
{
    if a.len() != b.len() {
        return false;
    }
    let mut i: usize = 0;
    while i < a.len()
        invariant
            i <= a@.len(),
            a@.len() == b@.len(),
            forall|j: int| 0 <= j < i ==> a@[j] == b@[j],
        decreases a@.len() - i,
    {
        if a[i] != b[i] {
            return false;
        }
        i += 1;
    }
    proof {
        assert(a@ =~= b@);
    }
    true
}

/// Recomputes the commitment over the given envelopes and nonce and compares
/// it with the claimed commitment, byte for byte; no partial matching.
pub fn verify_commitment(
    transactions: &Vec<TransactionEnvelope>,
    nonce: &Vec<u8>,
    claimed_commitment: &Vec<u8>,
) -> (r: bool)
    ensures
        r == (claimed_commitment@ == commitment_of(payload_seq(transactions@), nonce@)),
{
    let computed = compute_commitment(transactions, nonce);
    bytes_eq(claimed_commitment, &computed)
}

// ---------------------------------------------------------------------------
// Order-independence.
// ---------------------------------------------------------------------------

/// Mapping a function over two sequences that hold the same multiset of
/// elements yields two sequences that hold the same multiset of images.
pub proof fn lemma_map_values_multiset<A, B>(s1: Seq<A>, s2: Seq<A>, f: spec_fn(A) -> B)
    requires
        s1.to_multiset() == s2.to_multiset(),
    ensures
        s1.map_values(f).to_multiset() == s2.map_values(f).to_multiset(),
    decreases s1.len(),
{
    if s1.len() == 0 {
        assert(s2.to_multiset().len() == 0);
        assert(s2.len() == 0);
        assert(s1.map_values(f) =~= s2.map_values(f));
    } else {
        let x = s1.last();
        let n = s1.len() - 1;
        assert(s1.remove(n).to_multiset() == s1.to_multiset().remove(x));
        assert(s1.remove(n) =~= s1.drop_last());
        assert(s1.to_multiset().count(x) > 0) by {
            assert(s1.contains(x));
        }
        assert(s2.to_multiset().count(x) > 0);
        assert(s2.contains(x));
        let i = choose|i: int| 0 <= i < s2.len() && s2[i] == x;
        assert(s2.remove(i).to_multiset() == s2.to_multiset().remove(x));
        lemma_map_values_multiset(s1.drop_last(), s2.remove(i), f);
        assert(s1.map_values(f) =~= s1.drop_last().map_values(f).push(f(x)));
        assert(s1.map_values(f).to_multiset() == s1.drop_last().map_values(f).to_multiset().insert(
            f(x),
        ));
        assert(s2.remove(i).map_values(f) =~= s2.map_values(f).remove(i));
        assert(s2.map_values(f).remove(i).to_multiset() == s2.map_values(f).to_multiset().remove(
            s2.map_values(f)[i],
        ));
        assert(s2.map_values(f)[i] == f(x));
        assert(s2.map_values(f).to_multiset().count(f(x)) > 0) by {
            assert(s2.map_values(f).contains(f(x)));
        }
        assert(s2.map_values(f).to_multiset() =~= s2.map_values(f).to_multiset().remove(
            f(x),
        ).insert(f(x)));
        assert(s1.map_values(f).to_multiset() == s2.map_values(f).to_multiset());
    }
}

/// Commitment order-independence over payload lists: two payload lists that
/// hold the same multiset of payloads commit, under the same nonce, to the
/// same digest, whatever order either list is in.
pub proof fn lemma_commitment_order_independent(p1: Seq<Seq<u8>>, p2: Seq<Seq<u8>>, nonce: Seq<u8>)
    requires
        p1.to_multiset() == p2.to_multiset(),
    ensures
        commitment_of(p1, nonce) == commitment_of(p2, nonce),
{
    lemma_map_values_multiset(p1, p2, |p: Seq<u8>| sha256_of(p));
    lemma_lex_total_ordering();
    digest_list(p1).lemma_sort_by_ensures(lex_fn());
    digest_list(p2).lemma_sort_by_ensures(lex_fn());
    lemma_sorted_unique(
        digest_list(p1).sort_by(lex_fn()),
        digest_list(p2).sort_by(lex_fn()),
        lex_fn(),
    );
    assert(digest_list(p1).sort_by(lex_fn()) == digest_list(p2).sort_by(lex_fn()));
}

/// Commitment order-independence over envelopes: any permutation of a batch's
/// envelopes commits, under the same nonce, to the same digest.
pub proof fn lemma_commitment_order_independent_envelopes(
    e1: Seq<TransactionEnvelope>,
    e2: Seq<TransactionEnvelope>,
    nonce: Seq<u8>,
)
    requires
        e1.to_multiset() == e2.to_multiset(),
    ensures
        commitment_of(payload_seq(e1), nonce) == commitment_of(payload_seq(e2), nonce),
{
    lemma_map_values_multiset(e1, e2, |e: TransactionEnvelope| e.tx_bytes@);
    lemma_commitment_order_independent(payload_seq(e1), payload_seq(e2), nonce);
}

} // verus!
