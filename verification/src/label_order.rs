//! Why a record's fingerprint does not depend on the order its labels come in: label keys
//! spell their label out unambiguously, and the keys in sorted order depend only on which
//! keys there are.
use vstd::prelude::*;
use crate::text::{decimal, digit_char};
use crate::library_query::{
    lex_lt, lemma_lex_total, lemma_lex_irreflexive, name_order, argmin_from, entry_before,
    lemma_argmin_bounds, lemma_argmin_minimal, lemma_name_order_len,
};
use crate::metadata::opt_view;
use crate::projection::{
    ModLibraryProjectionLabel, ModLibraryProjectionRecord, key_field, opt_key_field, label_key,
    label_keys, label_order, label_bytes, labels_bytes, record_bytes, record_keys, record_order,
    records_bytes, indices, lemma_name_order_in_range,
};
use crate::reinstall::{hex_lower, spec_sha256};

verus! {

proof fn lemma_digit_char_injective(d: nat, e: nat)
    requires
        d < 10,
        e < 10,
    ensures
        digit_char(d) != ':',
        digit_char(d) == digit_char(e) ==> d == e,
{
}

/// A decimal rendering holds digits only, and a single one exactly below ten.
proof fn lemma_decimal_digits(n: nat)
    ensures
        decimal(n).len() >= 1,
        decimal(n).len() == 1 <==> n < 10,
        forall|i: int| 0 <= i < decimal(n).len() ==> #[trigger] decimal(n)[i] != ':',
    decreases n,
{
    lemma_digit_char_injective(n % 10, 0);
    if n >= 10 {
        lemma_decimal_digits(n / 10);
        let d = decimal(n);
        assert forall|i: int| 0 <= i < d.len() implies #[trigger] d[i] != ':' by {
            if i < d.len() - 1 {
                assert(d[i] == decimal(n / 10)[i]);
            }
        }
    }
}

/// Different numbers render differently.
proof fn lemma_decimal_injective(a: nat, b: nat)
    requires
        decimal(a) == decimal(b),
    ensures
        a == b,
    decreases a,
{
    lemma_decimal_digits(a);
    lemma_decimal_digits(b);
    if a < 10 {
        assert(b < 10);
        assert(decimal(a)[0] == digit_char(a));
        assert(decimal(b)[0] == digit_char(b));
        lemma_digit_char_injective(a, b);
    } else {
        assert(b >= 10);
        let da = decimal(a);
        let db = decimal(b);
        assert(da.drop_last() =~= decimal(a / 10));
        assert(db.drop_last() =~= decimal(b / 10));
        lemma_decimal_injective(a / 10, b / 10);
        lemma_digit_char_injective(a % 10, b % 10);
        assert(da.last() == db.last());
    }
}

/// A length-prefixed field can be read back off the front of a key.
proof fn lemma_key_field_prefix(s1: Seq<char>, r1: Seq<char>, s2: Seq<char>, r2: Seq<char>)
    requires
        key_field(s1) + r1 == key_field(s2) + r2,
    ensures
        s1 == s2,
        r1 == r2,
{
    let d1 = decimal(s1.len());
    let d2 = decimal(s2.len());
    let x = key_field(s1) + r1;
    lemma_decimal_digits(s1.len());
    lemma_decimal_digits(s2.len());
    assert(x =~= d1 + (seq![':'] + s1 + r1));
    assert(x =~= d2 + (seq![':'] + s2 + r2));
    assert(x[d1.len() as int] == ':');
    assert(x[d2.len() as int] == ':');
    if d1.len() < d2.len() {
        assert(x[d1.len() as int] == d2[d1.len() as int]);
    } else if d2.len() < d1.len() {
        assert(x[d2.len() as int] == d1[d2.len() as int]);
    }
    assert(d1 =~= x.subrange(0, d1.len() as int));
    assert(d2 =~= x.subrange(0, d2.len() as int));
    lemma_decimal_injective(s1.len(), s2.len());
    let start: int = d1.len() as int + 1;
    assert(s1 =~= x.subrange(start, start + s1.len()));
    assert(s2 =~= x.subrange(start, start + s2.len()));
    assert(r1 =~= x.subrange(start + s1.len(), x.len() as int));
    assert(r2 =~= x.subrange(start + s2.len(), x.len() as int));
}

/// An optional field can be read back off the front of a key.
proof fn lemma_opt_key_field_prefix(
    v1: Option<Seq<char>>,
    r1: Seq<char>,
    v2: Option<Seq<char>>,
    r2: Seq<char>,
)
    requires
        opt_key_field(v1) + r1 == opt_key_field(v2) + r2,
    ensures
        v1 == v2,
        r1 == r2,
{
    let x = opt_key_field(v1) + r1;
    assert(x[0] == opt_key_field(v1)[0]);
    assert(x[0] == opt_key_field(v2)[0]);
    match v1 {
        Some(s1) => {
            match v2 {
                Some(s2) => {
                    assert(x =~= seq!['1'] + (key_field(s1) + r1));
                    assert(x =~= seq!['1'] + (key_field(s2) + r2));
                    assert(key_field(s1) + r1 =~= x.drop_first());
                    assert(key_field(s2) + r2 =~= x.drop_first());
                    lemma_key_field_prefix(s1, r1, s2, r2);
                },
                None => {},
            }
        },
        None => {
            match v2 {
                Some(s2) => {},
                None => {
                    assert(r1 =~= x.drop_first());
                    assert(r2 =~= x.drop_first());
                },
            }
        },
    }
}

/// Labels with the same key have the same fingerprint bytes.
proof fn lemma_label_key_determines_bytes(a: ModLibraryProjectionLabel, b: ModLibraryProjectionLabel)
    requires
        label_key(a) == label_key(b),
    ensures
        label_bytes(a) == label_bytes(b),
{
    let ra = key_field(a.name@) + opt_key_field(opt_view(a.color));
    let rb = key_field(b.name@) + opt_key_field(opt_view(b.color));
    assert(label_key(a) =~= opt_key_field(opt_view(a.category_id)) + ra);
    assert(label_key(b) =~= opt_key_field(opt_view(b.category_id)) + rb);
    lemma_opt_key_field_prefix(opt_view(a.category_id), ra, opt_view(b.category_id), rb);
    lemma_key_field_prefix(a.name@, opt_key_field(opt_view(a.color)), b.name@, opt_key_field(opt_view(b.color)));
    assert(opt_key_field(opt_view(a.color)) + Seq::<char>::empty() =~= opt_key_field(opt_view(a.color)));
    assert(opt_key_field(opt_view(b.color)) + Seq::<char>::empty() =~= opt_key_field(opt_view(b.color)));
    lemma_opt_key_field_prefix(opt_view(a.color), Seq::empty(), opt_view(b.color), Seq::empty());
}

/// The keys at the listed positions.
spec fn keys_at(keys: Seq<Seq<char>>, order: Seq<usize>) -> Seq<Seq<char>> {
    order.map_values(|i: usize| keys[i as int])
}

/// No key comes before an earlier one.
spec fn nondecreasing(ks: Seq<Seq<char>>) -> bool {
    forall|i: int, j: int| 0 <= i < j < ks.len() ==> !lex_lt(#[trigger] ks[j], #[trigger] ks[i])
}

/// Sorting by key keeps the keys and puts them in nondecreasing order.
proof fn lemma_name_order_keys(keys: Seq<Seq<char>>, rem: Seq<usize>)
    requires
        forall|k: int| 0 <= k < rem.len() ==> #[trigger] rem[k] < keys.len(),
    ensures
        keys_at(keys, name_order(keys, keys, rem)).to_multiset() == keys_at(keys, rem).to_multiset(),
        nondecreasing(keys_at(keys, name_order(keys, keys, rem))),
    decreases rem.len(),
{
    broadcast use vstd::seq_lib::group_to_multiset_ensures;
    if rem.len() == 0 {
        assert(keys_at(keys, name_order(keys, keys, rem)) =~= keys_at(keys, rem));
    } else {
        lemma_argmin_bounds(keys, keys, rem, 1, 0);
        let m = argmin_from(keys, keys, rem, 1, 0);
        lemma_lex_irreflexive(keys[rem[0] as int]);
        lemma_argmin_minimal(keys, keys, rem, 1, 0);
        let rest_rem = rem.remove(m);
        assert forall|k: int| 0 <= k < rest_rem.len() implies #[trigger] rest_rem[k] < keys.len() by {
            if k < m {
                assert(rest_rem[k] == rem[k]);
            } else {
                assert(rest_rem[k] == rem[k + 1]);
            }
        }
        lemma_name_order_keys(keys, rest_rem);
        lemma_name_order_len(keys, keys, rest_rem);
        let rest = name_order(keys, keys, rest_rem);
        let order = name_order(keys, keys, rem);
        let head = keys[rem[m] as int];
        assert(order == seq![rem[m]] + rest);
        let ko = keys_at(keys, order);
        let kr = keys_at(keys, rest);
        assert(ko =~= seq![head] + kr);
        assert(keys_at(keys, rest_rem) =~= keys_at(keys, rem).remove(m));
        assert(ko.to_multiset() =~= kr.to_multiset().insert(head)) by {
            vstd::seq_lib::lemma_multiset_commutative(seq![head], kr);
            assert(seq![head].to_multiset() =~= vstd::multiset::Multiset::empty().insert(head)) by {
                assert(Seq::<Seq<char>>::empty().push(head) =~= seq![head]);
            }
        }
        assert(keys_at(keys, rem).to_multiset() =~= keys_at(keys, rem).remove(m).to_multiset().insert(head));
        assert forall|i: int, j: int| 0 <= i < j < ko.len() implies !lex_lt(#[trigger] ko[j], #[trigger] ko[i]) by {
            if i == 0 {
                assert(ko[j] == kr[j - 1]);
                assert(rest_rem.contains(rest[j - 1]));
                let y = choose|y: int| 0 <= y < rest_rem.len() && rest_rem[y] == rest[j - 1];
                let yy = if y < m { y } else { y + 1 };
                assert(rem[yy] == rest[j - 1]);
                assert(!entry_before(keys[rem[yy] as int], keys[rem[yy] as int], head, head));
            } else {
                assert(ko[i] == kr[i - 1] && ko[j] == kr[j - 1]);
            }
        }
    }
}

/// Two nondecreasing key sequences with the same keys are the same sequence.
proof fn lemma_sorted_unique(a: Seq<Seq<char>>, b: Seq<Seq<char>>)
    requires
        nondecreasing(a),
        nondecreasing(b),
        a.to_multiset() == b.to_multiset(),
    ensures
        a == b,
    decreases a.len(),
{
    broadcast use vstd::seq_lib::group_to_multiset_ensures;
    assert(a.len() == a.to_multiset().len() && b.len() == b.to_multiset().len());
    if a.len() > 0 {
        assert(a.to_multiset().count(a[0]) > 0) by {
            assert(a.contains(a[0]));
        }
        assert(b.to_multiset().count(b[0]) > 0) by {
            assert(b.contains(b[0]));
        }
        assert(b.contains(a[0]));
        assert(a.contains(b[0]));
        let ia = choose|i: int| 0 <= i < a.len() && a[i] == b[0];
        let ib = choose|i: int| 0 <= i < b.len() && b[i] == a[0];
        if ia > 0 {
            assert(!lex_lt(a[ia], a[0]));
        }
        if ib > 0 {
            assert(!lex_lt(b[ib], b[0]));
        }
        lemma_lex_total(a[0], b[0]);
        assert(a[0] == b[0]);
        let a1 = a.remove(0);
        let b1 = b.remove(0);
        assert(a1.to_multiset() == a.to_multiset().remove(a[0]));
        assert(b1.to_multiset() == b.to_multiset().remove(b[0]));
        assert forall|i: int, j: int| 0 <= i < j < a1.len() implies !lex_lt(#[trigger] a1[j], #[trigger] a1[i]) by {
            assert(a1[i] == a[i + 1] && a1[j] == a[j + 1]);
        }
        assert forall|i: int, j: int| 0 <= i < j < b1.len() implies !lex_lt(#[trigger] b1[j], #[trigger] b1[i]) by {
            assert(b1[i] == b[i + 1] && b1[j] == b[j + 1]);
        }
        lemma_sorted_unique(a1, b1);
        assert(a =~= seq![a[0]] + a1);
        assert(b =~= seq![b[0]] + b1);
    }
}

/// Mapping keeps equal multisets equal.
proof fn lemma_map_multiset<A, B>(s1: Seq<A>, s2: Seq<A>, f: spec_fn(A) -> B)
    requires
        s1.to_multiset() == s2.to_multiset(),
    ensures
        s1.map_values(f).to_multiset() == s2.map_values(f).to_multiset(),
    decreases s1.len(),
{
    broadcast use vstd::seq_lib::group_to_multiset_ensures;
    assert(s1.len() == s1.to_multiset().len() && s2.len() == s2.to_multiset().len());
    if s1.len() > 0 {
        let x = s1.last();
        assert(s1.contains(x));
        assert(s2.to_multiset().count(x) > 0);
        let j = choose|j: int| 0 <= j < s2.len() && s2[j] == x;
        let t1 = s1.drop_last();
        let t2 = s2.remove(j);
        assert(s1.remove(s1.len() - 1) =~= t1);
        assert(t1.to_multiset() == s1.to_multiset().remove(x));
        assert(t2.to_multiset() == s2.to_multiset().remove(x));
        lemma_map_multiset(t1, t2, f);
        assert(s1.map_values(f) =~= t1.map_values(f).push(f(x)));
        assert(t2.map_values(f) =~= s2.map_values(f).remove(j));
        assert(s2.map_values(f)[j] == f(x));
        assert(s2.map_values(f).to_multiset() =~= t2.map_values(f).to_multiset().insert(f(x)));
    }
}

/// Label bytes in two orders whose labels carry the same keys position by position.
proof fn lemma_labels_bytes_by_keys(
    l1: Seq<ModLibraryProjectionLabel>,
    o1: Seq<usize>,
    l2: Seq<ModLibraryProjectionLabel>,
    o2: Seq<usize>,
)
    requires
        o1.len() == o2.len(),
        forall|i: int| 0 <= i < o1.len() ==> #[trigger] o1[i] < l1.len() && o2[i] < l2.len(),
        keys_at(label_keys(l1), o1) == keys_at(label_keys(l2), o2),
    ensures
        labels_bytes(l1, o1) == labels_bytes(l2, o2),
    decreases o1.len(),
{
    if o1.len() > 0 {
        let n = o1.len() - 1;
        assert(keys_at(label_keys(l1), o1)[n] == keys_at(label_keys(l2), o2)[n]);
        lemma_label_key_determines_bytes(l1[o1[n] as int], l2[o2[n] as int]);
        assert(keys_at(label_keys(l1), o1.drop_last()) =~= keys_at(label_keys(l1), o1).drop_last());
        assert(keys_at(label_keys(l2), o2.drop_last()) =~= keys_at(label_keys(l2), o2).drop_last());
        lemma_labels_bytes_by_keys(l1, o1.drop_last(), l2, o2.drop_last());
    }
}

/// Whatever order a record's labels come in, they give the same fingerprint bytes.
pub proof fn lemma_label_bytes_ignore_order(
    l1: Vec<ModLibraryProjectionLabel>,
    l2: Vec<ModLibraryProjectionLabel>,
)
    requires
        l1@.to_multiset() == l2@.to_multiset(),
    ensures
        labels_bytes(l1@, label_order(l1@)) == labels_bytes(l2@, label_order(l2@)),
{
    broadcast use vstd::seq_lib::group_to_multiset_ensures;
    vstd::std_specs::vec::axiom_spec_len(&l1);
    vstd::std_specs::vec::axiom_spec_len(&l2);
    let s1 = l1@;
    let s2 = l2@;
    let k1 = label_keys(s1);
    let k2 = label_keys(s2);
    assert(s1.len() == s1.to_multiset().len() && s2.len() == s2.to_multiset().len());
    assert(keys_at(k1, indices(s1.len())) =~= k1);
    assert(keys_at(k2, indices(s2.len())) =~= k2);
    lemma_name_order_keys(k1, indices(s1.len()));
    lemma_name_order_keys(k2, indices(s2.len()));
    lemma_map_multiset(s1, s2, |l: ModLibraryProjectionLabel| label_key(l));
    assert(s1.map_values(|l: ModLibraryProjectionLabel| label_key(l)) == k1);
    assert(s2.map_values(|l: ModLibraryProjectionLabel| label_key(l)) == k2);
    lemma_sorted_unique(keys_at(k1, label_order(s1)), keys_at(k2, label_order(s2)));
    lemma_name_order_len(k1, k1, indices(s1.len()));
    lemma_name_order_len(k2, k2, indices(s2.len()));
    let o1 = label_order(s1);
    let o2 = label_order(s2);
    assert forall|i: int| 0 <= i < o1.len() implies #[trigger] o1[i] < s1.len() && o2[i] < s2.len() by {
        assert(indices(s1.len()).contains(o1[i]));
        assert(indices(s2.len()).contains(o2[i]));
    }
    lemma_labels_bytes_by_keys(s1, o1, s2, o2);
}

/// `b` is `a` with its labels listed in another order.
pub open spec fn relabeled(a: ModLibraryProjectionRecord, b: ModLibraryProjectionRecord) -> bool {
    &&& (ModLibraryProjectionRecord { labels: b.labels, ..a }) == b
    &&& a.labels@.to_multiset() == b.labels@.to_multiset()
}

proof fn lemma_records_bytes_relabeled(
    a: Seq<ModLibraryProjectionRecord>,
    b: Seq<ModLibraryProjectionRecord>,
    order: Seq<usize>,
)
    requires
        a.len() == b.len(),
        forall|i: int| 0 <= i < a.len() ==> relabeled(#[trigger] a[i], b[i]),
        forall|k: int| 0 <= k < order.len() ==> #[trigger] order[k] < a.len(),
    ensures
        records_bytes(a, order) == records_bytes(b, order),
    decreases order.len(),
{
    if order.len() > 0 {
        let i = order.last() as int;
        assert(order[order.len() - 1] < a.len());
        assert(relabeled(a[i], b[i]));
        lemma_label_bytes_ignore_order(a[i].labels, b[i].labels);
        lemma_records_bytes_relabeled(a, b, order.drop_last());
    }
}

/// Two catalogs that differ only in the order each record lists its labels in have the same
/// fingerprint.
pub proof fn lemma_fingerprint_ignores_label_order(
    a: Seq<ModLibraryProjectionRecord>,
    b: Seq<ModLibraryProjectionRecord>,
)
    requires
        a.len() == b.len(),
        forall|i: int| 0 <= i < a.len() ==> relabeled(#[trigger] a[i], b[i]),
    ensures
        records_bytes(a, record_order(a)) == records_bytes(b, record_order(b)),
        hex_lower(spec_sha256(records_bytes(a, record_order(a)))) == hex_lower(
            spec_sha256(records_bytes(b, record_order(b))),
        ),
{
    assert(record_keys(a) =~= record_keys(b)) by {
        assert forall|i: int| 0 <= i < a.len() implies #[trigger] record_keys(a)[i] == record_keys(b)[i] by {
            assert(relabeled(a[i], b[i]));
        }
    }
    lemma_name_order_in_range(record_keys(a), indices(a.len()), a.len());
    lemma_records_bytes_relabeled(a, b, record_order(a));
}

} // verus!
