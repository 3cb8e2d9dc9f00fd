//! Helpers shared by the box serializers: four-character codes and the
//! concatenation of per-element encodings.

use vstd::prelude::*;

verus! {

/// The four bytes of a four-character code.
pub open spec fn spec_fourcc(a: u8, b: u8, c: u8, d: u8) -> Seq<u8> {
    seq![a, b, c, d]
}

/// A four-character code as an array.
pub fn fourcc(a: u8, b: u8, c: u8, d: u8) -> (r: [u8; 4])
    ensures
        r@ == spec_fourcc(a, b, c, d),
{
    let r: [u8; 4] = [a, b, c, d];
    assert(r@ =~= spec_fourcc(a, b, c, d));
    r
}

/// The encodings `f(s[0]) + f(s[1]) + ...` of the elements of `s`, in order.
pub open spec fn concat_bytes<T>(s: Seq<T>, f: spec_fn(T) -> Seq<u8>) -> Seq<u8>
    decreases s.len(),
{
    if s.len() == 0 {
        Seq::empty()
    } else {
        concat_bytes(s.drop_last(), f) + f(s.last())
    }
}

/// Encoding one more element appends its encoding.
pub proof fn lemma_concat_bytes_push<T>(s: Seq<T>, i: int, f: spec_fn(T) -> Seq<u8>)
    requires
        0 <= i < s.len(),
    ensures
        concat_bytes(s.take(i + 1), f) == concat_bytes(s.take(i), f) + f(s[i]),
{
    assert(s.take(i + 1).drop_last() =~= s.take(i));
}

/// When every element encodes to `k` bytes, `n` elements encode to `k * n`.
pub proof fn lemma_concat_bytes_len_uniform<T>(s: Seq<T>, f: spec_fn(T) -> Seq<u8>, k: nat)
    requires
        forall|x: T| #[trigger] f(x).len() == k,
    ensures
        concat_bytes(s, f).len() == k * s.len(),
    decreases s.len(),
{
    if s.len() > 0 {
        lemma_concat_bytes_len_uniform(s.drop_last(), f, k);
        let n = s.len() as int;
        assert(k * (n - 1) + k == k * n) by (nonlinear_arith);
    }
}

/// When every element encodes to `k` bytes, the encoding of element `i`
/// stands at bytes `k * i` to `k * i + k`.
pub proof fn lemma_concat_bytes_uniform_at<T>(s: Seq<T>, f: spec_fn(T) -> Seq<u8>, k: nat, i: int)
    requires
        forall|x: T| #[trigger] f(x).len() == k,
        0 <= i < s.len(),
    ensures
        concat_bytes(s, f).len() == k * s.len(),
        0 <= k * i,
        k * i + k <= k * s.len(),
        concat_bytes(s, f).subrange(k * i, k * i + k) == f(s[i]),
{
    lemma_concat_bytes_len_uniform(s, f, k);
    lemma_concat_bytes_len_uniform(s.take(i), f, k);
    lemma_concat_bytes_split(s, i + 1, f);
    lemma_concat_bytes_push(s, i, f);
    assert(0 <= k * i) by (nonlinear_arith)
        requires
            i >= 0,
    ;
    assert(k * i + k <= k * s.len()) by (nonlinear_arith)
        requires
            i + 1 <= s.len(),
    ;
    assert(s.take(i).len() == i);
    assert(concat_bytes(s, f).subrange(k * i, k * i + k) =~= f(s[i]));
}

/// The encoding of a sequence splits at any index into the encodings of the
/// two parts.
pub proof fn lemma_concat_bytes_split<T>(s: Seq<T>, i: int, f: spec_fn(T) -> Seq<u8>)
    requires
        0 <= i <= s.len(),
    ensures
        concat_bytes(s, f) == concat_bytes(s.take(i), f) + concat_bytes(s.skip(i), f),
    decreases s.len(),
{
    if i == s.len() {
        assert(s.take(i) =~= s);
        assert(s.skip(i) =~= Seq::<T>::empty());
        assert(concat_bytes(s, f) =~= concat_bytes(s.take(i), f) + Seq::<u8>::empty());
    } else {
        lemma_concat_bytes_split(s.drop_last(), i, f);
        assert(s.drop_last().take(i) =~= s.take(i));
        assert(s.skip(i).drop_last() =~= s.drop_last().skip(i));
        assert(s.skip(i).last() == s.last());
        assert(concat_bytes(s, f) =~= concat_bytes(s.take(i), f) + concat_bytes(s.skip(i), f));
    }
}

} // verus!

verus! {

/// When every element of `s` encodes to `k` bytes, `s` encodes to `k * n`.
pub proof fn lemma_concat_bytes_len_uniform_in<T>(s: Seq<T>, f: spec_fn(T) -> Seq<u8>, k: nat)
    requires
        forall|i: int| 0 <= i < s.len() ==> #[trigger] f(s[i]).len() == k,
    ensures
        concat_bytes(s, f).len() == k * s.len(),
    decreases s.len(),
{
    if s.len() > 0 {
        let t = s.drop_last();
        assert forall|i: int| 0 <= i < t.len() implies #[trigger] f(t[i]).len() == k by {
            assert(f(s[i]).len() == k);
        }
        lemma_concat_bytes_len_uniform_in(t, f, k);
        assert(f(s[s.len() - 1]).len() == k);
        let n = s.len() as int;
        assert(k * (n - 1) + k == k * n) by (nonlinear_arith);
    }
}

} // verus!
