//! Stable ordering of table rows by integer sort keys, ascending or
//! descending; rows with equal keys keep their order.
use vstd::prelude::*;

use crate::script::strings::chars_of;

verus! {

/// Whether row `a` comes before row `b` when ordering by `keys`: by key
/// (smaller first when `asc`, larger first otherwise), then by position.
pub open spec fn comes_before(keys: Seq<u64>, asc: bool, a: int, b: int) -> bool {
    if keys[a] == keys[b] {
        a < b
    } else if asc {
        keys[a] < keys[b]
    } else {
        keys[a] > keys[b]
    }
}

/// `order` lists every row of `keys` once, each row before the rows it
/// comes before.
pub open spec fn is_stable_order(keys: Seq<u64>, asc: bool, order: Seq<usize>) -> bool {
    &&& order.len() == keys.len()
    &&& forall|k: int| 0 <= k < order.len() ==> #[trigger] order[k] < keys.len()
    &&& forall|a: int, b: int|
        0 <= a < b < order.len() ==> comes_before(keys, asc, #[trigger] order[a] as int, #[trigger] order[b] as int)
}

/// The rows ordered by `keys` (ascending when `asc`), rows with equal keys
/// in their original order.
pub fn stable_order(keys: &[u64], asc: bool) -> (order: Vec<usize>)
    ensures
        is_stable_order(keys@, asc, order@),
{
    let ghost ks = keys@;
    let mut out: Vec<usize> = Vec::new();
    let mut i: usize = 0;
    while i < keys.len()
        invariant
            ks == keys@,
            i <= ks.len(),
            out@.len() == i,
            forall|k: int| 0 <= k < out@.len() ==> #[trigger] out@[k] < i,
            forall|a: int, b: int|
                0 <= a < b < out@.len() ==> comes_before(ks, asc, #[trigger] out@[a] as int, #[trigger] out@[b] as int),
        decreases ks.len() - i,
    {
        let ki = keys[i];
        let mut p: usize = 0;
        while p < out.len()
            invariant
                ks == keys@,
                i < ks.len(),
                ki == ks[i as int],
                p <= out@.len(),
                forall|k: int| 0 <= k < out@.len() ==> #[trigger] out@[k] < i,
                forall|a: int| 0 <= a < p ==> comes_before(ks, asc, #[trigger] out@[a] as int, i as int),
            ensures
                p <= out@.len(),
                forall|a: int| 0 <= a < p ==> comes_before(ks, asc, #[trigger] out@[a] as int, i as int),
                p < out@.len() ==> comes_before(ks, asc, i as int, out@[p as int] as int),
            decreases out@.len() - p,
        {
            let kp = keys[out[p]];
            let later = if asc { ki < kp } else { ki > kp };
            if later {
                break;
            }
            p = p + 1;
        }
        let ghost old_out = out@;
        proof {
            if p < old_out.len() {
                let x = old_out[p as int] as int;
                assert(comes_before(ks, asc, i as int, x));
                assert forall|b: int| p <= b < old_out.len() implies comes_before(ks, asc, i as int, #[trigger] old_out[b] as int) by {
                    if b > p {
                        assert(comes_before(ks, asc, old_out[p as int] as int, old_out[b] as int));
                    }
                }
            }
        }
        out.insert(p, i);
        assert forall|k: int| 0 <= k < out@.len() implies #[trigger] out@[k] < i + 1 by {
            if k < p {
                assert(out@[k] == old_out[k]);
            } else if k > p {
                assert(out@[k] == old_out[k - 1]);
            }
        }
        assert forall|a: int, b: int|
            0 <= a < b < out@.len() implies comes_before(ks, asc, #[trigger] out@[a] as int, #[trigger] out@[b] as int) by {
            if a < p {
                assert(out@[a] == old_out[a]);
            } else if a > p {
                assert(out@[a] == old_out[a - 1]);
            }
            if b < p {
                assert(out@[b] == old_out[b]);
            } else if b > p {
                assert(out@[b] == old_out[b - 1]);
            }
        }
        i = i + 1;
    }
    out
}

// ── Ordering by text ───────────────────────────────────────────────

/// Whether `a` sorts before `b` as text: character by character by code
/// point, a proper prefix first (the order of Rust's `str` comparison).
pub open spec fn text_less(a: Seq<char>, b: Seq<char>) -> bool
    decreases a.len(),
{
    if a.len() == 0 {
        b.len() > 0
    } else if b.len() == 0 {
        false
    } else if a[0] != b[0] {
        a[0] < b[0]
    } else {
        text_less(a.drop_first(), b.drop_first())
    }
}

/// Of two different texts exactly one sorts first, and no text sorts
/// before itself.
proof fn lemma_text_total(a: Seq<char>, b: Seq<char>)
    ensures
        a != b ==> (text_less(a, b) != text_less(b, a)),
        a == b ==> !text_less(a, b),
    decreases a.len(),
{
    if a.len() == 0 {
        if b.len() == 0 {
            assert(a =~= b);
        }
    } else if b.len() > 0 && a[0] == b[0] {
        lemma_text_total(a.drop_first(), b.drop_first());
        if a.drop_first() == b.drop_first() {
            assert(a =~= seq![a[0]] + a.drop_first());
            assert(b =~= seq![b[0]] + b.drop_first());
        }
    }
}

/// The text order is transitive.
proof fn lemma_text_trans(a: Seq<char>, b: Seq<char>, c: Seq<char>)
    requires
        text_less(a, b),
        text_less(b, c),
    ensures
        text_less(a, c),
    decreases a.len(),
{
    if a.len() > 0 && a[0] == b[0] && b[0] == c[0] {
        lemma_text_trans(a.drop_first(), b.drop_first(), c.drop_first());
    }
}

/// Whether `a` sorts before `b` as text.
pub fn text_before(a: &str, b: &str) -> (r: bool)
    ensures
        r == text_less(a@, b@),
{
    let x = chars_of(a);
    let y = chars_of(b);
    let mut i: usize = 0;
    assert(x@.skip(0) =~= x@);
    assert(y@.skip(0) =~= y@);
    while i < x.len() && i < y.len()
        invariant
            x@ == a@,
            y@ == b@,
            i <= x@.len(),
            i <= y@.len(),
            forall|k: int| 0 <= k < i ==> x@[k] == y@[k],
            text_less(a@, b@) == text_less(x@.skip(i as int), y@.skip(i as int)),
        decreases x@.len() - i,
    {
        if x[i] != y[i] {
            assert(x@.skip(i as int)[0] == x@[i as int]);
            assert(y@.skip(i as int)[0] == y@[i as int]);
            return x[i] < y[i];
        }
        assert(x@.skip(i as int).drop_first() =~= x@.skip(i as int + 1));
        assert(y@.skip(i as int).drop_first() =~= y@.skip(i as int + 1));
        i = i + 1;
    }
    i < y.len()
}

/// Whether row `a` comes before row `b` when ordering by text `keys`.
pub open spec fn comes_before_text(keys: Seq<Seq<char>>, asc: bool, a: int, b: int) -> bool {
    if keys[a] == keys[b] {
        a < b
    } else if asc {
        text_less(keys[a], keys[b])
    } else {
        text_less(keys[b], keys[a])
    }
}

/// `order` lists every row of `keys` once, each row before the rows it
/// comes before.
pub open spec fn is_stable_text_order(keys: Seq<Seq<char>>, asc: bool, order: Seq<usize>) -> bool {
    &&& order.len() == keys.len()
    &&& forall|k: int| 0 <= k < order.len() ==> #[trigger] order[k] < keys.len()
    &&& forall|a: int, b: int|
        0 <= a < b < order.len() ==> comes_before_text(keys, asc, #[trigger] order[a] as int, #[trigger] order[b] as int)
}

/// The views of a list of strings.
pub open spec fn key_texts(v: Seq<String>) -> Seq<Seq<char>> {
    v.map_values(|s: String| s@)
}

proof fn lemma_before_text_trans(keys: Seq<Seq<char>>, asc: bool, a: int, b: int, c: int)
    requires
        comes_before_text(keys, asc, a, b),
        comes_before_text(keys, asc, b, c),
    ensures
        comes_before_text(keys, asc, a, c),
{
    lemma_text_total(keys[a], keys[b]);
    lemma_text_total(keys[b], keys[c]);
    lemma_text_total(keys[a], keys[c]);
    if text_less(keys[a], keys[b]) && text_less(keys[b], keys[c]) {
        lemma_text_trans(keys[a], keys[b], keys[c]);
    }
    if text_less(keys[c], keys[b]) && text_less(keys[b], keys[a]) {
        lemma_text_trans(keys[c], keys[b], keys[a]);
    }
}

/// The rows ordered by text `keys` (ascending when `asc`), rows with equal
/// keys in their original order.
pub fn stable_text_order(keys: &[String], asc: bool) -> (order: Vec<usize>)
    ensures
        is_stable_text_order(key_texts(keys@), asc, order@),
{
    let ghost ks = key_texts(keys@);
    let mut out: Vec<usize> = Vec::new();
    let mut i: usize = 0;
    while i < keys.len()
        invariant
            ks == key_texts(keys@),
            i <= ks.len(),
            out@.len() == i,
            forall|k: int| 0 <= k < out@.len() ==> #[trigger] out@[k] < i,
            forall|a: int, b: int|
                0 <= a < b < out@.len() ==> comes_before_text(ks, asc, #[trigger] out@[a] as int, #[trigger] out@[b] as int),
        decreases ks.len() - i,
    {
        let mut p: usize = 0;
        while p < out.len()
            invariant
                ks == key_texts(keys@),
                i < ks.len(),
                p <= out@.len(),
                forall|k: int| 0 <= k < out@.len() ==> #[trigger] out@[k] < i,
                forall|a: int| 0 <= a < p ==> comes_before_text(ks, asc, #[trigger] out@[a] as int, i as int),
            ensures
                p <= out@.len(),
                forall|a: int| 0 <= a < p ==> comes_before_text(ks, asc, #[trigger] out@[a] as int, i as int),
                p < out@.len() ==> comes_before_text(ks, asc, i as int, out@[p as int] as int),
            decreases out@.len() - p,
        {
            let j = out[p];
            let later = if asc {
                text_before(keys[i].as_str(), keys[j].as_str())
            } else {
                text_before(keys[j].as_str(), keys[i].as_str())
            };
            proof {
                lemma_text_total(ks[i as int], ks[j as int]);
                assert(ks[i as int] == keys@[i as int]@);
                assert(ks[j as int] == keys@[j as int]@);
            }
            if later {
                break;
            }
            p = p + 1;
        }
        let ghost old_out = out@;
        proof {
            if p < old_out.len() {
                assert forall|b: int| p <= b < old_out.len() implies comes_before_text(ks, asc, i as int, #[trigger] old_out[b] as int) by {
                    if b > p {
                        assert(comes_before_text(ks, asc, old_out[p as int] as int, old_out[b] as int));
                        lemma_before_text_trans(ks, asc, i as int, old_out[p as int] as int, old_out[b] as int);
                    }
                }
            }
        }
        out.insert(p, i);
        assert forall|k: int| 0 <= k < out@.len() implies #[trigger] out@[k] < i + 1 by {
            if k < p {
                assert(out@[k] == old_out[k]);
            } else if k > p {
                assert(out@[k] == old_out[k - 1]);
            }
        }
        assert forall|a: int, b: int|
            0 <= a < b < out@.len() implies comes_before_text(ks, asc, #[trigger] out@[a] as int, #[trigger] out@[b] as int) by {
            if a < p {
                assert(out@[a] == old_out[a]);
            } else if a > p {
                assert(out@[a] == old_out[a - 1]);
            }
            if b < p {
                assert(out@[b] == old_out[b]);
            } else if b > p {
                assert(out@[b] == old_out[b - 1]);
            }
        }
        i = i + 1;
    }
    out
}

} // verus!
