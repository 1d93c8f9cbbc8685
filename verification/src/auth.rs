use vstd::prelude::*;

use crate::hashing::{hex_lower, hex_lower_of, hmac_sha256, hmac_sha256_of};
use vstd::slice::slice_to_vec;

verus! {

/// `&`, the separator between query components.
pub const AMP: u8 = 38;

/// `=`, the separator between a key and its value.
pub const EQ: u8 = 61;

/// The bytes of `hmac`, the query parameter that carries the signature.
pub open spec fn hmac_key() -> Seq<u8> {
    seq![104u8, 109u8, 97u8, 99u8]
}

/// Length of the prefix of `s` that precedes the first occurrence of `sep`
/// (the whole length when `sep` does not occur).
pub open spec fn sep_prefix_len(s: Seq<u8>, sep: u8) -> nat
    decreases s.len(),
{
    if s.len() == 0 {
        0
    } else if s[0] == sep {
        0
    } else {
        1 + sep_prefix_len(s.drop_first(), sep)
    }
}

pub proof fn lemma_sep_prefix_len_char(s: Seq<u8>, sep: u8, n: nat)
    requires
        n <= s.len(),
        forall|m: int| 0 <= m < n ==> s[m] != sep,
        n < s.len() ==> s[n as int] == sep,
    ensures
        sep_prefix_len(s, sep) == n,
    decreases n,
{
    if n == 0 {
    } else {
        assert(s[0] != sep);
        lemma_sep_prefix_len_char(s.drop_first(), sep, (n - 1) as nat);
    }
}

/// One `key=value` component, split at the first `=`; a component without
/// `=` is a key with an empty value.
pub open spec fn parse_component(c: Seq<u8>) -> (Seq<u8>, Seq<u8>) {
    let k = sep_prefix_len(c, EQ);
    if k < c.len() {
        (c.take(k as int), c.skip(k + 1 as int))
    } else {
        (c, Seq::empty())
    }
}

/// The pairs of a component: none for an empty component, one otherwise.
pub open spec fn component_pairs(c: Seq<u8>) -> Seq<(Seq<u8>, Seq<u8>)> {
    if c.len() == 0 {
        Seq::empty()
    } else {
        seq![parse_component(c)]
    }
}

/// The key/value pairs of a query string: components separated by `&`, in
/// order; empty components contribute no pair.
pub open spec fn parse_query(q: Seq<u8>) -> Seq<(Seq<u8>, Seq<u8>)>
    decreases q.len(),
{
    if q.len() == 0 {
        Seq::empty()
    } else {
        let n = sep_prefix_len(q, AMP);
        if n < q.len() {
            component_pairs(q.take(n as int)) + parse_query(q.skip(n + 1 as int))
        } else {
            component_pairs(q)
        }
    }
}

/// The value of the last pair whose key is `key`, if any.
pub open spec fn last_value_of(pairs: Seq<(Seq<u8>, Seq<u8>)>, key: Seq<u8>) -> Option<Seq<u8>>
    decreases pairs.len(),
{
    if pairs.len() == 0 {
        Option::None
    } else if pairs.last().0 == key {
        Option::Some(pairs.last().1)
    } else {
        last_value_of(pairs.drop_last(), key)
    }
}

/// Byte-lexicographic strict order.
pub open spec fn bytes_lt(a: Seq<u8>, b: Seq<u8>) -> bool
    decreases a.len(),
{
    if b.len() == 0 {
        false
    } else if a.len() == 0 {
        true
    } else if a[0] < b[0] {
        true
    } else if a[0] > b[0] {
        false
    } else {
        bytes_lt(a.drop_first(), b.drop_first())
    }
}

/// Exactly one of `bytes_lt(a, b)`, `a == b`, `bytes_lt(b, a)` holds.
pub proof fn lemma_bytes_lt_trichotomy(a: Seq<u8>, b: Seq<u8>)
    ensures
        bytes_lt(a, b) || bytes_lt(b, a) || a == b,
        bytes_lt(a, b) ==> !bytes_lt(b, a) && a != b,
        bytes_lt(b, a) ==> !bytes_lt(a, b) && a != b,
    decreases a.len(),
{
    if a.len() == 0 && b.len() == 0 {
        assert(a =~= b);
    } else if a.len() != 0 && b.len() != 0 && a[0] == b[0] {
        lemma_bytes_lt_trichotomy(a.drop_first(), b.drop_first());
        if a.drop_first() == b.drop_first() {
            assert forall|i: int| 0 <= i < a.len() implies a[i] == b[i] by {
                if i > 0 {
                    assert(a[i] == a.drop_first()[i - 1]);
                    assert(b[i] == b.drop_first()[i - 1]);
                }
            }
            assert(a =~= b);
        }
        if a == b {
            assert(a.drop_first() =~= b.drop_first());
        }
    } else {
        if a == b && a.len() != 0 {
            assert(a[0] == b[0]);
        }
    }
}

/// Insert a pair into a key-sorted pair list, replacing the entry with an
/// equal key if one is present.
pub open spec fn upsert_sorted(
    ps: Seq<(Seq<u8>, Seq<u8>)>,
    p: (Seq<u8>, Seq<u8>),
) -> Seq<(Seq<u8>, Seq<u8>)>
    decreases ps.len(),
{
    if ps.len() == 0 {
        seq![p]
    } else if bytes_lt(p.0, ps[0].0) {
        seq![p] + ps
    } else if p.0 == ps[0].0 {
        seq![p] + ps.drop_first()
    } else {
        seq![ps[0]] + upsert_sorted(ps.drop_first(), p)
    }
}

/// The canonical parameter list of a pair sequence: every pair but those
/// keyed `hmac`, later pairs overriding earlier ones with the same key,
/// sorted by key in byte-lexicographic order.
pub open spec fn canonical_params(pairs: Seq<(Seq<u8>, Seq<u8>)>) -> Seq<(Seq<u8>, Seq<u8>)>
    decreases pairs.len(),
{
    if pairs.len() == 0 {
        Seq::empty()
    } else {
        let r = canonical_params(pairs.drop_last());
        if pairs.last().0 == hmac_key() {
            r
        } else {
            upsert_sorted(r, pairs.last())
        }
    }
}

/// `key=value` pairs joined by `&`.
pub open spec fn join_params(ps: Seq<(Seq<u8>, Seq<u8>)>) -> Seq<u8>
    decreases ps.len(),
{
    if ps.len() == 0 {
        Seq::empty()
    } else if ps.len() == 1 {
        ps[0].0 + seq![EQ] + ps[0].1
    } else {
        join_params(ps.drop_last()) + seq![AMP] + ps.last().0 + seq![EQ] + ps.last().1
    }
}

/// The canonical string signed by the platform: all query parameters except
/// `hmac`, sorted by key, re-serialized as `key=value` joined by `&`.
pub open spec fn canonical_message(q: Seq<u8>) -> Seq<u8> {
    join_params(canonical_params(parse_query(q)))
}

/// The signature the platform supplies: the value of the last `hmac`
/// parameter of the query.
pub open spec fn hmac_param(q: Seq<u8>) -> Option<Seq<u8>> {
    last_value_of(parse_query(q), hmac_key())
}

/// The digest a correctly signed query must carry: the lowercase hex
/// encoding of the HMAC-SHA256 tag of the canonical message.
pub open spec fn expected_digest(secret: Seq<u8>, q: Seq<u8>) -> Seq<u8> {
    hex_lower_of(hmac_sha256_of(secret, canonical_message(q)))
}

/// A query is authentic exactly when it carries an `hmac` parameter equal
/// to the expected digest.
pub open spec fn spec_verify(secret: Seq<u8>, q: Seq<u8>) -> bool {
    match hmac_param(q) {
        Option::None => false,
        Option::Some(sig) => sig == expected_digest(secret, q),
    }
}

/// A query without an `hmac` parameter is never accepted, and neither is
/// one whose signature differs from the expected digest at any position.
pub proof fn lemma_verify_rejects(secret: Seq<u8>, q: Seq<u8>)
    ensures
        hmac_param(q) is None ==> !spec_verify(secret, q),
        forall|sig: Seq<u8>, i: int|
            hmac_param(q) == Option::Some(sig) && 0 <= i < sig.len() && i
                < expected_digest(secret, q).len() && sig[i] != expected_digest(secret, q)[i]
                ==> !spec_verify(secret, q),
{
}

/// The view of a pair list: each key and value as its byte sequence.
pub open spec fn pairs_view(v: Seq<(Vec<u8>, Vec<u8>)>) -> Seq<(Seq<u8>, Seq<u8>)> {
    v.map_values(|p: (Vec<u8>, Vec<u8>)| (p.0@, p.1@))
}

/// Index of the first `sep` in `q[from..end]`, or `end` when there is none.
fn find_sep(q: &[u8], from: usize, end: usize, sep: u8) -> (j: usize)
    requires
        from <= end <= q@.len(),
    ensures
        from <= j <= end,
        forall|m: int| from <= m < j ==> q@[m] != sep,
        j < end ==> q@[j as int] == sep,
{
    let mut j = from;
    while j < end && q[j] != sep
        invariant
            from <= j <= end <= q@.len(),
            forall|m: int| from <= m < j ==> q@[m] != sep,
        decreases end - j,
    {
        j += 1;
    }
    j
}

/// The bytes `q[a..b]`, copied out.
pub(crate) fn sub_vec(q: &[u8], a: usize, b: usize) -> (r: Vec<u8>)
    requires
        a <= b <= q@.len(),
    ensures
        r@ == q@.subrange(a as int, b as int),
{
    let mut r: Vec<u8> = Vec::new();
    let mut i = a;
    while i < b
        invariant
            a <= i <= b <= q@.len(),
            r@ =~= q@.subrange(a as int, i as int),
        decreases b - i,
    {
        r.push(q[i]);
        i += 1;
        assert(r@ =~= q@.subrange(a as int, i as int));
    }
    r
}

/// Whether two byte strings are equal.
pub fn bytes_eq(a: &[u8], b: &[u8]) -> (r: bool)
    ensures
        r == (a@ == b@),
{
    if a.len() != b.len() {
        assert(a@ != b@);
        return false;
    }
    let mut i: usize = 0;
    while i < a.len()
        invariant
            i <= a@.len() == b@.len(),
            forall|m: int| 0 <= m < i ==> a@[m] == b@[m],
        decreases a@.len() - i,
    {
        if a[i] != b[i] {
            return false;
        }
        i += 1;
    }
    assert(a@ =~= b@);
    true
}

/// Whether `a` precedes `b` in byte-lexicographic order.
pub fn bytes_lt_exec(a: &[u8], b: &[u8]) -> (r: bool)
    ensures
        r == bytes_lt(a@, b@),
{
    let mut i: usize = 0;
    proof {
        assert(a@.skip(0) =~= a@);
        assert(b@.skip(0) =~= b@);
    }
    while i < a.len() && i < b.len() && a[i] == b[i]
        invariant
            i <= a@.len(),
            i <= b@.len(),
            bytes_lt(a@, b@) == bytes_lt(a@.skip(i as int), b@.skip(i as int)),
        decreases a@.len() - i,
    {
        proof {
            let sa = a@.skip(i as int);
            let sb = b@.skip(i as int);
            assert(sa[0] == a@[i as int]);
            assert(sb[0] == b@[i as int]);
            assert(sa.drop_first() =~= a@.skip(i + 1));
            assert(sb.drop_first() =~= b@.skip(i + 1));
        }
        i += 1;
    }
    proof {
        let sa = a@.skip(i as int);
        let sb = b@.skip(i as int);
        if i < a.len() && i < b.len() {
            assert(sa[0] == a@[i as int]);
            assert(sb[0] == b@[i as int]);
        } else if i < b.len() {
            assert(sb.len() > 0 && sa.len() == 0);
        } else {
            assert(sb.len() == 0);
        }
    }
    if i < a.len() && i < b.len() {
        a[i] < b[i]
    } else {
        i < b.len()
    }
}

/// The parsed pairs of a raw query string.
pub fn parse_query_exec(q: &[u8]) -> (pairs: Vec<(Vec<u8>, Vec<u8>)>)
    ensures
        pairs_view(pairs@) == parse_query(q@),
{
    let mut pairs: Vec<(Vec<u8>, Vec<u8>)> = Vec::new();
    let mut i: usize = 0;
    proof {
        assert(q@.skip(0) =~= q@);
        assert(pairs_view(pairs@) =~= Seq::<(Seq<u8>, Seq<u8>)>::empty());
    }
    while i < q.len()
        invariant
            i <= q@.len(),
            parse_query(q@) =~= pairs_view(pairs@) + parse_query(q@.skip(i as int)),
        decreases q@.len() - i,
    {
        let ghost rest = q@.skip(i as int);
        let j = find_sep(q, i, q.len(), AMP);
        proof {
            assert forall|m: int| 0 <= m < j - i implies rest[m] != AMP by {
                assert(rest[m] == q@[i + m]);
            }
            if j < q.len() {
                assert(rest[j - i] == q@[j as int]);
            }
            lemma_sep_prefix_len_char(rest, AMP, (j - i) as nat);
        }
        if j > i {
            let k = find_sep(q, i, j, EQ);
            let ghost comp = rest.take((j - i) as int);
            proof {
                assert(comp =~= q@.subrange(i as int, j as int));
                assert forall|m: int| 0 <= m < k - i implies comp[m] != EQ by {
                    assert(comp[m] == q@[i + m]);
                }
                if k < j {
                    assert(comp[k - i] == q@[k as int]);
                }
                lemma_sep_prefix_len_char(comp, EQ, (k - i) as nat);
            }
            let pair = if k < j {
                (sub_vec(q, i, k), sub_vec(q, k + 1, j))
            } else {
                (sub_vec(q, i, j), Vec::<u8>::new())
            };
            proof {
                if k < j {
                    assert(comp.take((k - i) as int) =~= q@.subrange(i as int, k as int));
                    assert(comp.skip((k - i) + 1 as int) =~= q@.subrange(k + 1, j as int));
                } else {
                    assert(comp =~= q@.subrange(i as int, j as int));
                }
                assert((pair.0@, pair.1@) == parse_component(comp));
            }
            pairs.push(pair);
            proof {
                assert(pairs_view(pairs@) =~= pairs_view(pairs@.drop_last()).push(
                    parse_component(comp),
                ));
            }
        }
        proof {
            if j < q.len() {
                assert(rest.skip((j - i) + 1 as int) =~= q@.skip(j + 1));
            } else {
                assert(rest.take((j - i) as int) =~= rest);
            }
        }
        if j < q.len() {
            i = j + 1;
        } else {
            i = q.len();
            assert(parse_query(q@.skip(i as int)) =~= Seq::<(Seq<u8>, Seq<u8>)>::empty());
        }
    }
    proof {
        assert(parse_query(q@.skip(i as int)) =~= Seq::<(Seq<u8>, Seq<u8>)>::empty());
        assert(pairs_view(pairs@) =~= parse_query(q@));
    }
    pairs
}

/// The value of the last pair keyed `key`, if any.
pub fn last_value_exec(pairs: &Vec<(Vec<u8>, Vec<u8>)>, key: &[u8]) -> (r: Option<Vec<u8>>)
    ensures
        match r {
            Option::None => last_value_of(pairs_view(pairs@), key@) is None,
            Option::Some(v) => last_value_of(pairs_view(pairs@), key@) == Option::Some(v@),
        },
{
    let ghost pv = pairs_view(pairs@);
    let mut r: Option<Vec<u8>> = Option::None;
    let mut i: usize = 0;
    proof {
        assert(pv.take(0) =~= Seq::<(Seq<u8>, Seq<u8>)>::empty());
    }
    while i < pairs.len()
        invariant
            i <= pairs.len(),
            pv == pairs_view(pairs@),
            match r {
                Option::None => last_value_of(pv.take(i as int), key@) is None,
                Option::Some(v) => last_value_of(pv.take(i as int), key@) == Option::Some(v@),
            },
        decreases pairs.len() - i,
    {
        proof {
            assert(pv.take(i + 1).drop_last() =~= pv.take(i as int));
            assert(pv.take(i + 1).last() == pv[i as int]);
        }
        if bytes_eq(pairs[i].0.as_slice(), key) {
            r = Option::Some(slice_to_vec(pairs[i].1.as_slice()));
        }
        i += 1;
    }
    proof {
        assert(pv.take(pairs@.len() as int) =~= pv);
    }
    r
}

/// `upsert_sorted` passes over every leading entry whose key precedes the
/// new key.
proof fn lemma_upsert_split(v: Seq<(Seq<u8>, Seq<u8>)>, p: (Seq<u8>, Seq<u8>), i: int)
    requires
        0 <= i <= v.len(),
        forall|m: int| 0 <= m < i ==> bytes_lt(#[trigger] v[m].0, p.0),
    ensures
        upsert_sorted(v, p) == v.take(i) + upsert_sorted(v.skip(i), p),
    decreases i,
{
    if i == 0 {
        assert(v.skip(0) =~= v);
        assert(v.take(0) + upsert_sorted(v, p) =~= upsert_sorted(v, p));
    } else {
        lemma_bytes_lt_trichotomy(p.0, v[0].0);
        assert(upsert_sorted(v, p) == seq![v[0]] + upsert_sorted(v.drop_first(), p));
        assert forall|m: int| 0 <= m < i - 1 implies bytes_lt(
            #[trigger] v.drop_first()[m].0,
            p.0,
        ) by {
            assert(v.drop_first()[m] == v[m + 1]);
        }
        lemma_upsert_split(v.drop_first(), p, i - 1);
        assert(v.drop_first().take(i - 1) =~= v.take(i).drop_first());
        assert(v.drop_first().skip(i - 1) =~= v.skip(i));
        assert(seq![v[0]] + (v.take(i).drop_first() + upsert_sorted(v.skip(i), p)) =~= v.take(i)
            + upsert_sorted(v.skip(i), p));
    }
}

/// Insert `(key, val)` into a key-sorted pair list, replacing an entry with
/// an equal key.
pub fn upsert_exec(list: &mut Vec<(Vec<u8>, Vec<u8>)>, key: Vec<u8>, val: Vec<u8>)
    ensures
        pairs_view(final(list)@) == upsert_sorted(pairs_view(old(list)@), (key@, val@)),
{
    let ghost v = pairs_view(list@);
    let ghost p = (key@, val@);
    let mut i: usize = 0;
    while i < list.len() && bytes_lt_exec(list[i].0.as_slice(), key.as_slice())
        invariant
            i <= list.len(),
            v == pairs_view(list@),
            *list == *old(list),
            forall|m: int| 0 <= m < i ==> bytes_lt(#[trigger] v[m].0, key@),
        decreases list.len() - i,
    {
        i += 1;
    }
    proof {
        lemma_upsert_split(v, p, i as int);
    }
    if i < list.len() && bytes_eq(list[i].0.as_slice(), key.as_slice()) {
        proof {
            assert(v.skip(i as int)[0] == v[i as int]);
            lemma_bytes_lt_trichotomy(p.0, v.skip(i as int)[0].0);
            assert(upsert_sorted(v.skip(i as int), p) == seq![p] + v.skip(i as int).drop_first());
        }
        list.set(i, (key, val));
        proof {
            assert(pairs_view(list@) =~~= v.take(i as int) + (seq![p] + v.skip(
                i as int,
            ).drop_first()));
        }
    } else {
        proof {
            if i < list.len() {
                assert(v.skip(i as int)[0] == v[i as int]);
                lemma_bytes_lt_trichotomy(p.0, v[i as int].0);
                assert(upsert_sorted(v.skip(i as int), p) == seq![p] + v.skip(i as int));
            } else {
                assert(v.skip(i as int) =~= Seq::<(Seq<u8>, Seq<u8>)>::empty());
                assert(upsert_sorted(v.skip(i as int), p) == seq![p]);
            }
        }
        list.insert(i, (key, val));
        proof {
            if i < v.len() {
                assert(pairs_view(list@) =~~= v.take(i as int) + (seq![p] + v.skip(i as int)));
            } else {
                assert(pairs_view(list@) =~~= v.take(i as int) + seq![p]);
            }
        }
    }
}

/// The bytes of the `hmac` parameter name.
fn hmac_name() -> (r: Vec<u8>)
    ensures
        r@ == hmac_key(),
{
    let r: Vec<u8> = vec![104u8, 109u8, 97u8, 99u8];
    proof {
        assert(r@ =~= hmac_key());
    }
    r
}

/// The canonical parameter list of parsed pairs: `hmac` left out, later
/// bindings overriding earlier ones, sorted by key.
pub fn canonicalize_exec(pairs: &Vec<(Vec<u8>, Vec<u8>)>) -> (r: Vec<(Vec<u8>, Vec<u8>)>)
    ensures
        pairs_view(r@) == canonical_params(pairs_view(pairs@)),
{
    let ghost pv = pairs_view(pairs@);
    let hm = hmac_name();
    let mut r: Vec<(Vec<u8>, Vec<u8>)> = Vec::new();
    let mut i: usize = 0;
    proof {
        assert(pv.take(0) =~= Seq::<(Seq<u8>, Seq<u8>)>::empty());
        assert(pairs_view(r@) =~= Seq::<(Seq<u8>, Seq<u8>)>::empty());
    }
    while i < pairs.len()
        invariant
            i <= pairs.len(),
            pv == pairs_view(pairs@),
            hm@ == hmac_key(),
            pairs_view(r@) == canonical_params(pv.take(i as int)),
        decreases pairs.len() - i,
    {
        proof {
            assert(pv.take(i + 1).drop_last() =~= pv.take(i as int));
            assert(pv.take(i + 1).last() == pv[i as int]);
            assert(pv[i as int] == (pairs@[i as int].0@, pairs@[i as int].1@));
        }
        if !bytes_eq(pairs[i].0.as_slice(), hm.as_slice()) {
            let key = slice_to_vec(pairs[i].0.as_slice());
            let val = slice_to_vec(pairs[i].1.as_slice());
            proof {
                assert((key@, val@) == pv[i as int]);
            }
            upsert_exec(&mut r, key, val);
            proof {
                assert(canonical_params(pv.take(i + 1)) == upsert_sorted(
                    canonical_params(pv.take(i as int)),
                    pv[i as int],
                ));
            }
        } else {
            proof {
                assert(pairs@[i as int].0@ == hm@);
                assert(pairs@[i as int].0@ == hmac_key());
                assert(pv.take(i + 1).last().0 == hmac_key());
                assert(canonical_params(pv.take(i + 1)) == canonical_params(pv.take(i as int)));
            }
        }
        i += 1;
    }
    proof {
        assert(pv.take(pairs@.len() as int) =~= pv);
    }
    r
}

/// Append `src` to `dst`.
pub(crate) fn push_bytes(dst: &mut Vec<u8>, src: &[u8])
    ensures
        final(dst)@ == old(dst)@ + src@,
{
    let mut i: usize = 0;
    while i < src.len()
        invariant
            i <= src@.len(),
            dst@ =~= old(dst)@ + src@.take(i as int),
        decreases src@.len() - i,
    {
        dst.push(src[i]);
        i += 1;
        proof {
            assert(dst@ =~= old(dst)@ + src@.take(i as int));
        }
    }
    proof {
        assert(old(dst)@ + src@.take(src@.len() as int) =~= old(dst)@ + src@);
    }
}

/// `key=value` pairs joined by `&`, as the bytes to be signed.
pub fn join_params_exec(ps: &Vec<(Vec<u8>, Vec<u8>)>) -> (r: Vec<u8>)
    ensures
        r@ == join_params(pairs_view(ps@)),
{
    let ghost pv = pairs_view(ps@);
    let mut r: Vec<u8> = Vec::new();
    let mut i: usize = 0;
    proof {
        assert(pv.take(0) =~= Seq::<(Seq<u8>, Seq<u8>)>::empty());
        assert(r@ =~= join_params(pv.take(0)));
    }
    while i < ps.len()
        invariant
            i <= ps.len(),
            pv == pairs_view(ps@),
            r@ == join_params(pv.take(i as int)),
        decreases ps.len() - i,
    {
        proof {
            assert(pv.take(i + 1).drop_last() =~= pv.take(i as int));
            assert(pv.take(i + 1).last() == pv[i as int]);
            assert(pv.take(i + 1)[0] == pv[0]);
        }
        if i > 0 {
            r.push(AMP);
        }
        push_bytes(&mut r, ps[i].0.as_slice());
        r.push(EQ);
        push_bytes(&mut r, ps[i].1.as_slice());
        proof {
            if i == 0 {
                assert(r@ =~= pv[0].0 + seq![EQ] + pv[0].1);
            } else {
                assert(r@ =~= join_params(pv.take(i as int)) + seq![AMP] + pv[i as int].0 + seq![
                    EQ,
                ] + pv[i as int].1);
            }
            assert(r@ =~= join_params(pv.take(i + 1)));
        }
        i += 1;
    }
    proof {
        assert(pv.take(ps@.len() as int) =~= pv);
    }
    r
}

/// Whether `query` carries a valid platform signature under `secret`: its
/// `hmac` parameter must equal the lowercase hex HMAC-SHA256 digest of the
/// canonical string of its remaining parameters. A query without an `hmac`
/// parameter is rejected. The comparison is plain byte equality; a
/// constant-time comparison would be a hardening refinement, not a change
/// of this contract.
pub fn verify(secret: &[u8], query: &[u8]) -> (r: bool)
    ensures
        r == spec_verify(secret@, query@),
{
    let pairs = parse_query_exec(query);
    let hm = hmac_name();
    let sig = last_value_exec(&pairs, hm.as_slice());
    match sig {
        Option::None => false,
        Option::Some(sig) => {
            let canon = canonicalize_exec(&pairs);
            let msg = join_params_exec(&canon);
            let tag = hmac_sha256(secret, msg.as_slice());
            let digest = hex_lower(tag.as_slice());
            bytes_eq(digest.as_slice(), sig.as_slice())
        },
    }
}

/// The canonical message of a query, as bytes: what `verify` signs.
pub fn canonical_message_exec(query: &[u8]) -> (r: Vec<u8>)
    ensures
        r@ == canonical_message(query@),
{
    let pairs = parse_query_exec(query);
    let canon = canonicalize_exec(&pairs);
    join_params_exec(&canon)
}

/// A key free of both separators.
pub open spec fn clean_key(k: Seq<u8>) -> bool {
    forall|i: int| 0 <= i < k.len() ==> k[i] != AMP && #[trigger] k[i] != EQ
}

/// A value free of the pair separator. A value may carry `=`: a component
/// splits at its first `=` only.
pub open spec fn clean_value(v: Seq<u8>) -> bool {
    forall|i: int| 0 <= i < v.len() ==> #[trigger] v[i] != AMP
}

/// A pair list as canonicalization emits it: separator-free keys and
/// values, no `hmac` key, keys strictly ascending.
pub open spec fn canonical_form(ps: Seq<(Seq<u8>, Seq<u8>)>) -> bool {
    (forall|i: int|
        0 <= i < ps.len() ==> clean_key(#[trigger] ps[i].0) && clean_value(ps[i].1) && ps[i].0
            != hmac_key()) && (forall|i: int, j: int|
        0 <= i < j < ps.len() ==> bytes_lt(#[trigger] ps[i].0, #[trigger] ps[j].0))
}

/// One serialized component parses back into its pair.
proof fn lemma_parse_single_component(k: Seq<u8>, v: Seq<u8>)
    requires
        clean_key(k),
        clean_value(v),
    ensures
        parse_query(k + seq![EQ] + v) == seq![(k, v)],
{
    let j = k + seq![EQ] + v;
    assert(j.len() == k.len() + 1 + v.len());
    assert(j[k.len() as int] == EQ);
    assert forall|m: int| 0 <= m < j.len() implies j[m] != AMP by {
        if m < k.len() {
            assert(j[m] == k[m]);
        } else if m > k.len() {
            assert(j[m] == v[m - k.len() - 1]);
        }
    }
    lemma_sep_prefix_len_char(j, AMP, j.len());
    assert forall|m: int| 0 <= m < k.len() implies j[m] != EQ by {
        assert(j[m] == k[m]);
    }
    lemma_sep_prefix_len_char(j, EQ, k.len());
    assert(j.take(k.len() as int) =~= k);
    assert(j.skip(k.len() + 1 as int) =~= v);
    assert(parse_component(j) == (k, v));
    assert(parse_query(j) =~= seq![(k, v)]);
}

/// Joining puts the first pair, an `&`, and the joined rest.
proof fn lemma_join_front(ps: Seq<(Seq<u8>, Seq<u8>)>)
    requires
        ps.len() >= 2,
    ensures
        join_params(ps) == ps[0].0 + seq![EQ] + ps[0].1 + seq![AMP] + join_params(ps.drop_first()),
    decreases ps.len(),
{
    if ps.len() == 2 {
        assert(ps.drop_last() =~= seq![ps[0]]);
        assert(ps.drop_first() =~= seq![ps[1]]);
        assert(join_params(seq![ps[0]]) == ps[0].0 + seq![EQ] + ps[0].1);
        assert(join_params(seq![ps[1]]) == ps[1].0 + seq![EQ] + ps[1].1);
        assert(join_params(ps) =~= ps[0].0 + seq![EQ] + ps[0].1 + seq![AMP] + join_params(
            ps.drop_first(),
        ));
    } else {
        lemma_join_front(ps.drop_last());
        assert(ps.drop_last().drop_first() =~= ps.drop_first().drop_last());
        assert(ps.drop_last()[0] == ps[0]);
        assert(ps.drop_first().len() >= 2);
        assert(ps.drop_first().last() == ps.last());
        assert(join_params(ps.drop_first()) == join_params(ps.drop_first().drop_last()) + seq![AMP]
            + ps.last().0 + seq![EQ] + ps.last().1);
        assert(join_params(ps) =~= ps[0].0 + seq![EQ] + ps[0].1 + seq![AMP] + join_params(
            ps.drop_first(),
        ));
    }
}

/// A canonical pair list survives the round trip through its serialized
/// form.
proof fn lemma_parse_of_join(ps: Seq<(Seq<u8>, Seq<u8>)>)
    requires
        canonical_form(ps),
    ensures
        parse_query(join_params(ps)) == ps,
    decreases ps.len(),
{
    if ps.len() == 0 {
        assert(parse_query(join_params(ps)) =~= ps);
    } else if ps.len() == 1 {
        assert(join_params(ps) == ps[0].0 + seq![EQ] + ps[0].1);
        lemma_parse_single_component(ps[0].0, ps[0].1);
        assert(seq![(ps[0].0, ps[0].1)] =~= ps);
    } else {
        lemma_join_front(ps);
        let k = ps[0].0;
        let v = ps[0].1;
        let rest = join_params(ps.drop_first());
        let j = join_params(ps);
        assert(j == k + seq![EQ] + v + seq![AMP] + rest);
        let n = k.len() + 1 + v.len();
        assert(j.len() == n + 1 + rest.len());
        assert(j[n as int] == AMP);
        assert forall|m: int| 0 <= m < n implies j[m] != AMP by {
            if m < k.len() {
                assert(j[m] == k[m]);
            } else if m == k.len() {
                assert(j[m] == EQ);
            } else {
                assert(j[m] == v[m - k.len() - 1]);
            }
        }
        lemma_sep_prefix_len_char(j, AMP, n as nat);
        assert(j.take(n as int) =~= k + seq![EQ] + v);
        assert(j.skip(n + 1 as int) =~= rest);
        lemma_parse_single_component(k, v);
        let comp = k + seq![EQ] + v;
        assert(comp.len() > 0);
        assert(sep_prefix_len(comp, AMP) == comp.len()) by {
            assert forall|m: int| 0 <= m < comp.len() implies comp[m] != AMP by {
                assert(comp[m] == j[m]);
            }
            lemma_sep_prefix_len_char(comp, AMP, comp.len());
        }
        assert(parse_query(comp) == component_pairs(comp));
        assert(component_pairs(comp) == seq![(k, v)]);
        assert forall|i: int|
            0 <= i < ps.drop_first().len() implies clean_key(
            #[trigger] ps.drop_first()[i].0,
        ) && clean_value(ps.drop_first()[i].1) && ps.drop_first()[i].0 != hmac_key() by {
            assert(ps.drop_first()[i] == ps[i + 1]);
        }
        assert forall|i: int, m: int|
            0 <= i < m < ps.drop_first().len() implies bytes_lt(
            #[trigger] ps.drop_first()[i].0,
            #[trigger] ps.drop_first()[m].0,
        ) by {
            assert(ps.drop_first()[i] == ps[i + 1]);
            assert(ps.drop_first()[m] == ps[m + 1]);
        }
        lemma_parse_of_join(ps.drop_first());
        assert(parse_query(j) =~= seq![(k, v)] + ps.drop_first());
        assert(seq![(k, v)] + ps.drop_first() =~= ps);
    }
}

/// Canonicalizing a list already in canonical form changes nothing.
proof fn lemma_canon_fixed(ps: Seq<(Seq<u8>, Seq<u8>)>)
    requires
        canonical_form(ps),
    ensures
        canonical_params(ps) == ps,
    decreases ps.len(),
{
    if ps.len() > 0 {
        let prefix = ps.drop_last();
        assert forall|i: int|
            0 <= i < prefix.len() implies clean_key(#[trigger] prefix[i].0) && clean_value(
            prefix[i].1,
        ) && prefix[i].0 != hmac_key() by {
            assert(prefix[i] == ps[i]);
            assert(clean_key(ps[i].0) && clean_value(ps[i].1) && ps[i].0 != hmac_key());
        }
        assert forall|i: int, m: int|
            0 <= i < m < prefix.len() implies bytes_lt(
            #[trigger] prefix[i].0,
            #[trigger] prefix[m].0,
        ) by {
            assert(prefix[i] == ps[i]);
            assert(prefix[m] == ps[m]);
        }
        lemma_canon_fixed(prefix);
        assert(ps.last().0 != hmac_key());
        assert(canonical_params(ps) == upsert_sorted(prefix, ps.last()));
        assert forall|m: int| 0 <= m < prefix.len() implies bytes_lt(
            #[trigger] prefix[m].0,
            ps.last().0,
        ) by {
            assert(prefix[m] == ps[m]);
            assert(ps.last() == ps[ps.len() - 1]);
        }
        lemma_upsert_split(prefix, ps.last(), prefix.len() as int);
        assert(prefix.take(prefix.len() as int) =~= prefix);
        assert(prefix.skip(prefix.len() as int) =~= Seq::<(Seq<u8>, Seq<u8>)>::empty());
        assert(upsert_sorted(Seq::<(Seq<u8>, Seq<u8>)>::empty(), ps.last()) == seq![ps.last()]);
        assert(prefix + seq![ps.last()] =~= ps);
    }
}

/// The signing canonicalization is idempotent: a message already in
/// canonical form is a fixed point, so recomputing the canonical string of
/// a canonical string reproduces it, and with it the digest. This holds of
/// every list in canonical form; a value carrying `&` (as `a&b`) breaks
/// the round trip and is excluded by `canonical_form`.
pub proof fn lemma_canonicalization_idempotent(ps: Seq<(Seq<u8>, Seq<u8>)>, secret: Seq<u8>)
    requires
        canonical_form(ps),
    ensures
        canonical_message(join_params(ps)) == join_params(ps),
        expected_digest(secret, join_params(ps)) == hex_lower_of(
            hmac_sha256_of(secret, join_params(ps)),
        ),
{
    lemma_parse_of_join(ps);
    lemma_canon_fixed(ps);
}

/// The canonical message, and with it the digest a verifier expects, is a
/// function of the secret and the query bytes alone: recomputing it for the
/// same inputs reproduces the same bytes.
pub proof fn lemma_canonicalization_deterministic(
    secret1: Seq<u8>,
    q1: Seq<u8>,
    secret2: Seq<u8>,
    q2: Seq<u8>,
)
    requires
        secret1 == secret2,
        q1 == q2,
    ensures
        canonical_message(q1) == canonical_message(q2),
        expected_digest(secret1, q1) == expected_digest(secret2, q2),
{
}

} // verus!
