//! Attribute bags: the typed key/value attributes of a transaction
//! (quantities, prices, amounts, dates, free-text strings and enum codes).
//!
//! Each kind of attribute is held as a list of (key, value) pairs in the order
//! they were set; the bag's view of a kind is the map those pairs build, a later
//! pair replacing an earlier one with the same key.
use vstd::prelude::*;
use crate::decimal::Dec;
use crate::types::{AmountType, DateType, PriceType, QuantityType};
use crate::text::owned;

verus! {

/// Keys of the fixed attribute kinds, compared by value.
pub trait SlotKey: Copy + Sized {
    fn same(&self, other: &Self) -> (r: bool)
        ensures
            r == (*self == *other);
}

impl SlotKey for QuantityType {
    fn same(&self, other: &Self) -> (r: bool) {
        *self == *other
    }
}

impl SlotKey for PriceType {
    fn same(&self, other: &Self) -> (r: bool) {
        *self == *other
    }
}

impl SlotKey for AmountType {
    fn same(&self, other: &Self) -> (r: bool) {
        *self == *other
    }
}

impl SlotKey for DateType {
    fn same(&self, other: &Self) -> (r: bool) {
        *self == *other
    }
}

/// The map a list of (key, value) pairs builds, later pairs winning.
pub open spec fn assoc_map<K, V>(v: Seq<(K, V)>) -> Map<K, V>
    decreases v.len(),
{
    if v.len() == 0 {
        Map::empty()
    } else {
        assoc_map(v.drop_last()).insert(v.last().0, v.last().1)
    }
}

/// The map a list of text pairs builds, later pairs winning.
pub open spec fn text_map(v: Seq<(String, String)>) -> Map<Seq<char>, Seq<char>>
    decreases v.len(),
{
    if v.len() == 0 {
        Map::empty()
    } else {
        text_map(v.drop_last()).insert(v.last().0@, v.last().1@)
    }
}

/// Looking a key up in a map, as an option.
pub open spec fn lookup<K, V>(m: Map<K, V>, k: K) -> Option<V> {
    if m.dom().contains(k) {
        Some(m[k])
    } else {
        None
    }
}

/// Pairs after position `i` that do not carry key `k` do not change what `k` maps to.
pub proof fn lemma_assoc_prefix<K, V>(v: Seq<(K, V)>, i: int, k: K)
    requires
        0 <= i <= v.len(),
        forall|j: int| i <= j < v.len() ==> v[j].0 != k,
    ensures
        lookup(assoc_map(v), k) == lookup(assoc_map(v.subrange(0, i)), k),
    decreases v.len() - i,
{
    if i < v.len() {
        let w = v.drop_last();
        lemma_assoc_prefix(w, i, k);
        assert(w.subrange(0, i) =~= v.subrange(0, i));
    } else {
        assert(v.subrange(0, i) =~= v);
    }
}

/// Pairs after position `i` whose key text is not `k` do not change what `k` maps to.
pub proof fn lemma_text_prefix(v: Seq<(String, String)>, i: int, k: Seq<char>)
    requires
        0 <= i <= v.len(),
        forall|j: int| i <= j < v.len() ==> v[j].0@ != k,
    ensures
        lookup(text_map(v), k) == lookup(text_map(v.subrange(0, i)), k),
    decreases v.len() - i,
{
    if i < v.len() {
        let w = v.drop_last();
        lemma_text_prefix(w, i, k);
        assert(w.subrange(0, i) =~= v.subrange(0, i));
    } else {
        assert(v.subrange(0, i) =~= v);
    }
}

/// The map of a concatenation is the first map overridden by the second.
pub proof fn lemma_assoc_concat<K, V>(a: Seq<(K, V)>, b: Seq<(K, V)>)
    ensures
        assoc_map(a + b) == assoc_map(a).union_prefer_right(assoc_map(b)),
    decreases b.len(),
{
    if b.len() == 0 {
        assert(a + b =~= a);
        assert(assoc_map(a).union_prefer_right(assoc_map(b)) =~= assoc_map(a));
    } else {
        lemma_assoc_concat(a, b.drop_last());
        assert((a + b).drop_last() =~= a + b.drop_last());
        assert(assoc_map(a + b) =~= assoc_map(a).union_prefer_right(assoc_map(b)));
    }
}

/// The text map of a concatenation is the first map overridden by the second.
pub proof fn lemma_text_concat(a: Seq<(String, String)>, b: Seq<(String, String)>)
    ensures
        text_map(a + b) == text_map(a).union_prefer_right(text_map(b)),
    decreases b.len(),
{
    if b.len() == 0 {
        assert(a + b =~= a);
        assert(text_map(a).union_prefer_right(text_map(b)) =~= text_map(a));
    } else {
        lemma_text_concat(a, b.drop_last());
        assert((a + b).drop_last() =~= a + b.drop_last());
        assert(text_map(a + b) =~= text_map(a).union_prefer_right(text_map(b)));
    }
}

/// The value of key `k` in a list of pairs: the last pair with that key.
fn assoc_get<K: SlotKey, V: Copy>(v: &Vec<(K, V)>, k: K) -> (r: Option<V>)
    ensures
        r == lookup(assoc_map(v@), k),
{
    let mut i = v.len();
    while i > 0
        invariant
            i <= v.len(),
            forall|j: int| i <= j < v.len() ==> v@[j].0 != k,
        decreases i,
    {
        i = i - 1;
        if v[i].0.same(&k) {
            proof {
                lemma_assoc_prefix(v@, i + 1, k);
                assert(v@.subrange(0, i + 1).drop_last() =~= v@.subrange(0, i as int));
            }
            return Some(v[i].1);
        }
    }
    proof {
        lemma_assoc_prefix(v@, 0, k);
    }
    None
}

/// The value of text key `k` in a list of text pairs: the last pair with that key.
pub(crate) fn text_get(v: &Vec<(String, String)>, k: &str) -> (r: Option<String>)
    ensures
        lookup(text_map(v@), k@) matches Some(x) ==> (r matches Some(s) && s@ == x),
        lookup(text_map(v@), k@) is None ==> r is None,
{
    let mut i = v.len();
    while i > 0
        invariant
            i <= v.len(),
            forall|j: int| i <= j < v.len() ==> v@[j].0@ != k@,
        decreases i,
    {
        i = i - 1;
        if crate::text::str_eq(v[i].0.as_str(), k) {
            proof {
                lemma_text_prefix(v@, i + 1, k@);
                assert(v@.subrange(0, i + 1).drop_last() =~= v@.subrange(0, i as int));
            }
            return Some(v[i].1.clone());
        }
    }
    proof {
        lemma_text_prefix(v@, 0, k@);
    }
    None
}

/// A copy of a list of pairs of plain values.
fn copy_pairs<K: Copy, V: Copy>(v: &Vec<(K, V)>) -> (r: Vec<(K, V)>)
    ensures
        r@ == v@,
{
    let mut r: Vec<(K, V)> = Vec::new();
    let mut i: usize = 0;
    while i < v.len()
        invariant
            i <= v.len(),
            r@ == v@.subrange(0, i as int),
        decreases v.len() - i,
    {
        r.push(v[i]);
        i = i + 1;
        assert(r@ =~= v@.subrange(0, i as int));
    }
    assert(r@ =~= v@);
    r
}

/// A copy of a list of text pairs.
fn copy_text_pairs(v: &Vec<(String, String)>) -> (r: Vec<(String, String)>)
    ensures
        r@ == v@,
{
    let mut r: Vec<(String, String)> = Vec::new();
    let mut i: usize = 0;
    while i < v.len()
        invariant
            i <= v.len(),
            r@ == v@.subrange(0, i as int),
        decreases v.len() - i,
    {
        let k = v[i].0.clone();
        let x = v[i].1.clone();
        r.push((k, x));
        i = i + 1;
        assert(r@ =~= v@.subrange(0, i as int));
    }
    assert(r@ =~= v@);
    r
}

/// A copy of `a` followed by a copy of `b`.
fn concat_pairs<K: Copy, V: Copy>(a: &Vec<(K, V)>, b: &Vec<(K, V)>) -> (r: Vec<(K, V)>)
    ensures
        r@ == a@ + b@,
{
    let mut r = copy_pairs(a);
    let mut i: usize = 0;
    while i < b.len()
        invariant
            i <= b.len(),
            r@ == a@ + b@.subrange(0, i as int),
        decreases b.len() - i,
    {
        r.push(b[i]);
        i = i + 1;
        assert(r@ =~= a@ + b@.subrange(0, i as int));
    }
    assert(b@.subrange(0, b.len() as int) =~= b@);
    r
}

/// A copy of `a` followed by a copy of `b`, for text pairs.
fn concat_text_pairs(a: &Vec<(String, String)>, b: &Vec<(String, String)>) -> (r: Vec<(String, String)>)
    ensures
        r@ == a@ + b@,
{
    let mut r = copy_text_pairs(a);
    let mut i: usize = 0;
    while i < b.len()
        invariant
            i <= b.len(),
            r@ == a@ + b@.subrange(0, i as int),
        decreases b.len() - i,
    {
        let k = b[i].0.clone();
        let x = b[i].1.clone();
        r.push((k, x));
        i = i + 1;
        assert(r@ =~= a@ + b@.subrange(0, i as int));
    }
    assert(b@.subrange(0, b.len() as int) =~= b@);
    r
}

/// The typed attributes of a transaction.  Dates are day numbers counted from
/// 1 January of year 1 (day 1), as chrono's `num_days_from_ce`.
#[derive(Clone, Debug)]
pub struct AttributeBag {
    pub quantities: Vec<(QuantityType, Dec)>,
    pub prices: Vec<(PriceType, Dec)>,
    pub amounts: Vec<(AmountType, Dec)>,
    pub dates: Vec<(DateType, i32)>,
    pub strings: Vec<(String, String)>,
    pub enums: Vec<(String, String)>,
}

/// What an attribute bag holds, kind by kind.
pub struct BagView {
    pub quantities: Map<QuantityType, Dec>,
    pub prices: Map<PriceType, Dec>,
    pub amounts: Map<AmountType, Dec>,
    pub dates: Map<DateType, i32>,
    pub strings: Map<Seq<char>, Seq<char>>,
    pub enums: Map<Seq<char>, Seq<char>>,
}

impl View for AttributeBag {
    type V = BagView;

    open spec fn view(&self) -> BagView {
        BagView {
            quantities: assoc_map(self.quantities@),
            prices: assoc_map(self.prices@),
            amounts: assoc_map(self.amounts@),
            dates: assoc_map(self.dates@),
            strings: text_map(self.strings@),
            enums: text_map(self.enums@),
        }
    }
}

impl AttributeBag {
    /// An empty bag.
    pub fn new() -> (r: AttributeBag)
        ensures
            r@.quantities == Map::<QuantityType, Dec>::empty(),
            r@.prices == Map::<PriceType, Dec>::empty(),
            r@.amounts == Map::<AmountType, Dec>::empty(),
            r@.dates == Map::<DateType, i32>::empty(),
            r@.strings == Map::<Seq<char>, Seq<char>>::empty(),
            r@.enums == Map::<Seq<char>, Seq<char>>::empty(),
    {
        AttributeBag {
            quantities: Vec::new(),
            prices: Vec::new(),
            amounts: Vec::new(),
            dates: Vec::new(),
            strings: Vec::new(),
            enums: Vec::new(),
        }
    }

    /// A copy of the bag, holding the same pairs.
    pub fn duplicate(&self) -> (r: AttributeBag)
        ensures
            r.quantities@ == self.quantities@,
            r.prices@ == self.prices@,
            r.amounts@ == self.amounts@,
            r.dates@ == self.dates@,
            r.strings@ == self.strings@,
            r.enums@ == self.enums@,
    {
        AttributeBag {
            quantities: copy_pairs(&self.quantities),
            prices: copy_pairs(&self.prices),
            amounts: copy_pairs(&self.amounts),
            dates: copy_pairs(&self.dates),
            strings: copy_text_pairs(&self.strings),
            enums: copy_text_pairs(&self.enums),
        }
    }

    /// This bag overridden, kind by kind, by the attributes of `derived`.
    pub fn merge(&self, derived: &AttributeBag) -> (r: AttributeBag)
        ensures
            r@.quantities == self@.quantities.union_prefer_right(derived@.quantities),
            r@.prices == self@.prices.union_prefer_right(derived@.prices),
            r@.amounts == self@.amounts.union_prefer_right(derived@.amounts),
            r@.dates == self@.dates.union_prefer_right(derived@.dates),
            r@.strings == self@.strings.union_prefer_right(derived@.strings),
            r@.enums == self@.enums.union_prefer_right(derived@.enums),
    {
        let r = AttributeBag {
            quantities: concat_pairs(&self.quantities, &derived.quantities),
            prices: concat_pairs(&self.prices, &derived.prices),
            amounts: concat_pairs(&self.amounts, &derived.amounts),
            dates: concat_pairs(&self.dates, &derived.dates),
            strings: concat_text_pairs(&self.strings, &derived.strings),
            enums: concat_text_pairs(&self.enums, &derived.enums),
        };
        proof {
            lemma_assoc_concat(self.quantities@, derived.quantities@);
            lemma_assoc_concat(self.prices@, derived.prices@);
            lemma_assoc_concat(self.amounts@, derived.amounts@);
            lemma_assoc_concat(self.dates@, derived.dates@);
            lemma_text_concat(self.strings@, derived.strings@);
            lemma_text_concat(self.enums@, derived.enums@);
        }
        r
    }

    /// The quantity of kind `t`, if set.
    pub fn get_quantity(&self, t: QuantityType) -> (r: Option<Dec>)
        ensures
            r == lookup(self@.quantities, t),
    {
        assoc_get(&self.quantities, t)
    }

    /// The price of kind `t`, if set.
    pub fn get_price(&self, t: PriceType) -> (r: Option<Dec>)
        ensures
            r == lookup(self@.prices, t),
    {
        assoc_get(&self.prices, t)
    }

    /// The amount of kind `t`, if set.
    pub fn get_amount(&self, t: AmountType) -> (r: Option<Dec>)
        ensures
            r == lookup(self@.amounts, t),
    {
        assoc_get(&self.amounts, t)
    }

    /// The date of kind `t`, if set.
    pub fn get_date(&self, t: DateType) -> (r: Option<i32>)
        ensures
            r == lookup(self@.dates, t),
    {
        assoc_get(&self.dates, t)
    }

    /// The string stored under `key`, if any.
    pub fn get_string(&self, key: &str) -> (r: Option<String>)
        ensures
            lookup(self@.strings, key@) matches Some(x) ==> (r matches Some(s) && s@ == x),
            lookup(self@.strings, key@) is None ==> r is None,
    {
        text_get(&self.strings, key)
    }

    /// The enum code stored under `key`, if any.
    pub fn get_enum(&self, key: &str) -> (r: Option<String>)
        ensures
            lookup(self@.enums, key@) matches Some(x) ==> (r matches Some(s) && s@ == x),
            lookup(self@.enums, key@) is None ==> r is None,
    {
        text_get(&self.enums, key)
    }

    /// Sets the quantity of kind `t`.
    pub fn set_quantity(&mut self, t: QuantityType, v: Dec)
        ensures
            final(self)@.quantities == old(self)@.quantities.insert(t, v),
            final(self)@.prices == old(self)@.prices,
            final(self)@.amounts == old(self)@.amounts,
            final(self)@.dates == old(self)@.dates,
            final(self)@.strings == old(self)@.strings,
            final(self)@.enums == old(self)@.enums,
    {
        self.quantities.push((t, v));
        proof {
            assert(self.quantities@.drop_last() =~= old(self).quantities@);
        }
    }

    /// Sets the price of kind `t`.
    pub fn set_price(&mut self, t: PriceType, v: Dec)
        ensures
            final(self)@.prices == old(self)@.prices.insert(t, v),
            final(self)@.quantities == old(self)@.quantities,
            final(self)@.amounts == old(self)@.amounts,
            final(self)@.dates == old(self)@.dates,
            final(self)@.strings == old(self)@.strings,
            final(self)@.enums == old(self)@.enums,
    {
        self.prices.push((t, v));
        proof {
            assert(self.prices@.drop_last() =~= old(self).prices@);
        }
    }

    /// Sets the amount of kind `t`.
    pub fn set_amount(&mut self, t: AmountType, v: Dec)
        ensures
            final(self)@.amounts == old(self)@.amounts.insert(t, v),
            final(self)@.quantities == old(self)@.quantities,
            final(self)@.prices == old(self)@.prices,
            final(self)@.dates == old(self)@.dates,
            final(self)@.strings == old(self)@.strings,
            final(self)@.enums == old(self)@.enums,
    {
        self.amounts.push((t, v));
        proof {
            assert(self.amounts@.drop_last() =~= old(self).amounts@);
        }
    }

    /// Sets the date of kind `t`.
    pub fn set_date(&mut self, t: DateType, v: i32)
        ensures
            final(self)@.dates == old(self)@.dates.insert(t, v),
            final(self)@.quantities == old(self)@.quantities,
            final(self)@.prices == old(self)@.prices,
            final(self)@.amounts == old(self)@.amounts,
            final(self)@.strings == old(self)@.strings,
            final(self)@.enums == old(self)@.enums,
    {
        self.dates.push((t, v));
        proof {
            assert(self.dates@.drop_last() =~= old(self).dates@);
        }
    }

    /// Stores the string `value` under `key`.
    pub fn set_string(&mut self, key: &str, value: &str)
        ensures
            final(self)@.strings == old(self)@.strings.insert(key@, value@),
            final(self)@.quantities == old(self)@.quantities,
            final(self)@.prices == old(self)@.prices,
            final(self)@.amounts == old(self)@.amounts,
            final(self)@.dates == old(self)@.dates,
            final(self)@.enums == old(self)@.enums,
    {
        self.strings.push((owned(key), owned(value)));
        proof {
            assert(self.strings@.drop_last() =~= old(self).strings@);
        }
    }

    /// Stores the enum code `value` under `key`.
    pub fn set_enum(&mut self, key: &str, value: &str)
        ensures
            final(self)@.enums == old(self)@.enums.insert(key@, value@),
            final(self)@.quantities == old(self)@.quantities,
            final(self)@.prices == old(self)@.prices,
            final(self)@.amounts == old(self)@.amounts,
            final(self)@.dates == old(self)@.dates,
            final(self)@.strings == old(self)@.strings,
    {
        self.enums.push((owned(key), owned(value)));
        proof {
            assert(self.enums@.drop_last() =~= old(self).enums@);
        }
    }
}

} // verus!
