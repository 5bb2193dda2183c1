use vstd::prelude::*;
use vstd::std_specs::cmp::PartialEqSpecImpl;

verus! {

/// The value of one property of a menu entry: a text or a 32-bit integer.
#[derive(Debug)]
pub enum PropertyValue {
    Text(String),
    Int(i32),
}

/// The mathematical value of a [`PropertyValue`].
pub ghost enum ValueView {
    Text(Seq<char>),
    Int(i32),
}

/// The mathematical value of a [`PropertyMap`]: its keys with their values,
/// in the order in which they were first inserted.
pub type Pairs = Seq<(Seq<char>, ValueView)>;

impl View for PropertyValue {
    type V = ValueView;

    open spec fn view(&self) -> ValueView {
        match self {
            PropertyValue::Text(s) => ValueView::Text(s@),
            PropertyValue::Int(i) => ValueView::Int(*i),
        }
    }
}

impl Clone for PropertyValue {
    fn clone(&self) -> (copy: Self)
        ensures
            copy@ == self@,
    {
        match self {
            PropertyValue::Text(s) => PropertyValue::Text(s.clone()),
            PropertyValue::Int(i) => PropertyValue::Int(*i),
        }
    }
}

impl PartialEq for PropertyValue {
    fn eq(&self, other: &Self) -> (equal: bool) {
        match (self, other) {
            (PropertyValue::Text(a), PropertyValue::Text(b)) => *a == *b,
            (PropertyValue::Int(a), PropertyValue::Int(b)) => *a == *b,
            _ => false,
        }
    }
}

impl PartialEqSpecImpl for PropertyValue {
    open spec fn obeys_eq_spec() -> bool {
        true
    }

    open spec fn eq_spec(&self, other: &Self) -> bool {
        self@ == other@
    }
}

impl Eq for PropertyValue {

}

/// The place of the first pair of `pairs` with this key, if there is one.
pub open spec fn position(pairs: Pairs, key: Seq<char>) -> Option<int>
    decreases pairs.len(),
{
    if pairs.len() == 0 {
        None
    } else {
        match position(pairs.drop_last(), key) {
            Some(i) => Some(i),
            None => if pairs.last().0 == key {
                Some(pairs.len() - 1)
            } else {
                None
            },
        }
    }
}

/// The value that `pairs` gives to `key`: that of the first pair with this key.
pub open spec fn lookup(pairs: Pairs, key: Seq<char>) -> Option<ValueView> {
    match position(pairs, key) {
        Some(i) => Some(pairs[i].1),
        None => None,
    }
}

/// No key occurs twice in `pairs`.
pub open spec fn distinct_keys(pairs: Pairs) -> bool {
    forall|i: int, j: int| 0 <= i < j < pairs.len() ==> (#[trigger] pairs[i]).0 != (#[trigger] pairs[j]).0
}

/// `pairs` as a map from keys to values.
pub open spec fn to_map(pairs: Pairs) -> Map<Seq<char>, ValueView> {
    Map::new(|k: Seq<char>| lookup(pairs, k) is Some, |k: Seq<char>| lookup(pairs, k)->0)
}

/// `pairs` after `key` was given `value`: an existing key keeps its place,
/// a new key goes to the end.
pub open spec fn put(pairs: Pairs, key: Seq<char>, value: ValueView) -> Pairs {
    match position(pairs, key) {
        Some(i) => pairs.update(i, (key, value)),
        None => pairs.push((key, value)),
    }
}

/// Whether the key of a pair is one of `requested`.
pub open spec fn is_requested(requested: Seq<Seq<char>>) -> spec_fn((Seq<char>, ValueView)) -> bool {
    |e: (Seq<char>, ValueView)| requested.contains(e.0)
}

/// Whether `pairs` lacks the key of a pair, or gives it another value.
pub open spec fn differs_from(pairs: Pairs) -> spec_fn((Seq<char>, ValueView)) -> bool {
    |e: (Seq<char>, ValueView)| lookup(pairs, e.0) != Some(e.1)
}

/// Whether `pairs` lacks the key of a pair.
pub open spec fn missing_in(pairs: Pairs) -> spec_fn((Seq<char>, ValueView)) -> bool {
    |e: (Seq<char>, ValueView)| lookup(pairs, e.0) is None
}

/// The key of a pair.
pub open spec fn key_of() -> spec_fn((Seq<char>, ValueView)) -> Seq<char> {
    |e: (Seq<char>, ValueView)| e.0
}

/// The pairs of `pairs` whose key is listed in `requested`; all of them where
/// `requested` is empty.
pub open spec fn selected(pairs: Pairs, requested: Seq<Seq<char>>) -> Pairs {
    if requested.len() == 0 {
        pairs
    } else {
        pairs.filter(is_requested(requested))
    }
}

/// The pairs of `new` that `old` does not hold: a key that `old` lacks, or a
/// key to which `old` gives another value. They keep the order of `new`.
pub open spec fn updated_pairs(old: Pairs, new: Pairs) -> Pairs {
    new.filter(differs_from(old))
}

/// The keys of `old` that `new` lacks, in the order of `old`.
pub open spec fn removed_keys(old: Pairs, new: Pairs) -> Seq<Seq<char>> {
    old.filter(missing_in(new)).map_values(key_of())
}

/// The character sequences of a list of strings.
pub open spec fn strings_view(strings: Seq<String>) -> Seq<Seq<char>> {
    strings.map_values(|s: String| s@)
}

/// The character sequences of a list of string slices.
pub open spec fn strs_view(strs: Seq<&str>) -> Seq<Seq<char>> {
    strs.map_values(|s: &str| s@)
}

/// A key that the pair at `i` holds, and no pair before it, has its place at `i`.
pub proof fn lemma_position_first(pairs: Pairs, key: Seq<char>, i: int)
    requires
        0 <= i < pairs.len(),
        pairs[i].0 == key,
        forall|j: int| 0 <= j < i ==> (#[trigger] pairs[j]).0 != key,
    ensures
        position(pairs, key) == Some(i),
        lookup(pairs, key) == Some(pairs[i].1),
    decreases pairs.len(),
{
    if i == pairs.len() - 1 {
        lemma_position_none(pairs.drop_last(), key);
    } else {
        lemma_position_first(pairs.drop_last(), key, i);
    }
}

/// A key that no pair holds has no place.
pub proof fn lemma_position_none(pairs: Pairs, key: Seq<char>)
    requires
        forall|j: int| 0 <= j < pairs.len() ==> (#[trigger] pairs[j]).0 != key,
    ensures
        position(pairs, key) is None,
        lookup(pairs, key) is None,
    decreases pairs.len(),
{
    if pairs.len() > 0 {
        lemma_position_none(pairs.drop_last(), key);
    }
}

/// The place of a key is that of the first pair that holds it; a key without
/// a place occurs in no pair.
pub proof fn lemma_position(pairs: Pairs, key: Seq<char>)
    ensures
        match position(pairs, key) {
            Some(i) => 0 <= i < pairs.len() && pairs[i].0 == key && forall|j: int|
                0 <= j < i ==> (#[trigger] pairs[j]).0 != key,
            None => forall|j: int| 0 <= j < pairs.len() ==> (#[trigger] pairs[j]).0 != key,
        },
    decreases pairs.len(),
{
    if pairs.len() > 0 {
        let front = pairs.drop_last();
        lemma_position(front, key);
        assert(forall|j: int| 0 <= j < front.len() ==> front[j] == pairs[j]);
    }
}

/// Where no key occurs twice, every pair is what a lookup of its key finds.
pub proof fn lemma_lookup_distinct(pairs: Pairs, i: int)
    requires
        distinct_keys(pairs),
        0 <= i < pairs.len(),
    ensures
        position(pairs, pairs[i].0) == Some(i),
        lookup(pairs, pairs[i].0) == Some(pairs[i].1),
{
    lemma_position_first(pairs, pairs[i].0, i);
}

/// `str::eq` of the standard library: two string slices are equal exactly
/// where they hold the same characters.
pub assume_specification[ <str as PartialEq>::eq ](a: &str, b: &str) -> (equal: bool)
    ensures
        equal == (a@ == b@),
;

/// The properties of a menu entry: keys with their values. No key occurs
/// twice, and the pairs keep the order in which their keys were first
/// inserted.
#[derive(Debug)]
pub struct PropertyMap {
    entries: Vec<(String, PropertyValue)>,
}

impl View for PropertyMap {
    type V = Pairs;

    closed spec fn view(&self) -> Pairs {
        Seq::new(self.entries@.len(), |i: int| (self.entries@[i].0@, self.entries@[i].1@))
    }
}

impl PropertyMap {
    /// A map without properties.
    pub fn new() -> (map: Self)
        ensures
            map@ == Pairs::empty(),
    {
        let map = PropertyMap { entries: Vec::new() };
        map
    }

    /// The number of properties.
    pub fn len(&self) -> (n: usize)
        ensures
            n == self@.len(),
    {
        self.entries.len()
    }

    /// Whether the map holds no property.
    pub fn is_empty(&self) -> (empty: bool)
        ensures
            empty == (self@.len() == 0),
    {
        self.entries.len() == 0
    }

    /// The key of the property at place `i`.
    pub fn key(&self, i: usize) -> (key: &String)
        requires
            i < self@.len(),
        ensures
            key@ == self@[i as int].0,
    {
        &self.entries[i].0
    }

    /// The value of the property at place `i`.
    pub fn value(&self, i: usize) -> (value: &PropertyValue)
        requires
            i < self@.len(),
        ensures
            value@ == self@[i as int].1,
    {
        &self.entries[i].1
    }

    /// The place of `key`, if the map holds it.
    pub fn find(&self, key: &str) -> (place: Option<usize>)
        ensures
            match place {
                Some(i) => position(self@, key@) == Some(i as int),
                None => position(self@, key@) is None,
            },
    {
        let mut i: usize = 0;
        while i < self.entries.len()
            invariant
                i <= self.entries.len(),
                forall|j: int| 0 <= j < i ==> (#[trigger] self@[j]).0 != key@,
            decreases self.entries.len() - i,
        {
            if self.entries[i].0.as_str().eq(key) {
                proof {
                    lemma_position_first(self@, key@, i as int);
                }
                return Some(i);
            }
            i += 1;
        }
        proof {
            lemma_position_none(self@, key@);
        }
        None
    }

    /// Whether the map holds `key`.
    pub fn contains_key(&self, key: &str) -> (held: bool)
        ensures
            held == lookup(self@, key@).is_some(),
    {
        self.find(key).is_some()
    }

    /// The value of `key`, if the map holds it.
    pub fn get(&self, key: &str) -> (value: Option<&PropertyValue>)
        ensures
            match value {
                Some(v) => lookup(self@, key@) == Some(v@),
                None => lookup(self@, key@) is None,
            },
    {
        match self.find(key) {
            Some(i) => {
                proof {
                    lemma_position(self@, key@);
                }
                Some(&self.entries[i].1)
            },
            None => None,
        }
    }

    /// Gives `key` the value `value`. A key that the map holds keeps its
    /// place; a new key goes to the end.
    pub fn insert(&mut self, key: String, value: PropertyValue)
        ensures
            final(self)@ == put(old(self)@, key@, value@),
            distinct_keys(old(self)@) ==> distinct_keys(final(self)@),
    {
        proof {
            lemma_position(self@, key@);
            if distinct_keys(self@) {
                lemma_put_distinct(self@, key@, value@);
            }
        }
        match self.find(key.as_str()) {
            Some(i) => {
                self.entries.set(i, (key, value));
                assert(self@ =~= put(old(self)@, key@, value@));
            },
            None => {
                self.entries.push((key, value));
                assert(self@ =~= put(old(self)@, key@, value@));
            },
        }
    }

    /// The properties whose key is listed in `requested`; all of them where
    /// `requested` is empty.
    pub fn select(&self, requested: &[&str]) -> (chosen: PropertyMap)
        ensures
            chosen@ == selected(self@, strs_view(requested@)),
    {
        let ghost wanted = is_requested(strs_view(requested@));
        let mut chosen = PropertyMap::new();
        let mut i: usize = 0;
        while i < self.entries.len()
            invariant
                i <= self.entries.len(),
                wanted == is_requested(strs_view(requested@)),
                requested@.len() == 0 ==> chosen@ == self@.take(i as int),
                requested@.len() > 0 ==> chosen@ == self@.take(i as int).filter(wanted),
            decreases self.entries.len() - i,
        {
            let keep = requested.len() == 0 || holds_str(requested, self.entries[i].0.as_str());
            proof {
                assert(self@.take(i as int + 1) =~= self@.take(i as int).push(self@[i as int]));
                self@.take(i as int).lemma_filter_push(self@[i as int], wanted);
            }
            if keep {
                let ghost before = chosen@;
                chosen.entries.push((self.entries[i].0.clone(), self.entries[i].1.clone()));
            }
            i += 1;
        }
        assert(self@.take(i as int) =~= self@);
        chosen
    }

    /// The properties that `old` does not hold as they are: a key that `old`
    /// lacks, or a key to which `old` gives another value.
    pub fn changed_from(&self, old: &PropertyMap) -> (changed: PropertyMap)
        ensures
            changed@ == updated_pairs(old@, self@),
    {
        let ghost differs = differs_from(old@);
        let mut changed = PropertyMap::new();
        let mut i: usize = 0;
        while i < self.entries.len()
            invariant
                i <= self.entries.len(),
                differs == differs_from(old@),
                changed@ == self@.take(i as int).filter(differs),
            decreases self.entries.len() - i,
        {
            let same = match old.get(self.entries[i].0.as_str()) {
                Some(v) => *v == self.entries[i].1,
                None => false,
            };
            proof {
                assert(self@.take(i as int + 1) =~= self@.take(i as int).push(self@[i as int]));
                self@.take(i as int).lemma_filter_push(self@[i as int], differs);
            }
            if !same {
                let ghost before = changed@;
                changed.entries.push((self.entries[i].0.clone(), self.entries[i].1.clone()));
            }
            i += 1;
        }
        assert(self@.take(i as int) =~= self@);
        changed
    }

    /// The keys that `new` lacks, in the order of this map.
    pub fn keys_missing_in(&self, new: &PropertyMap) -> (missing: Vec<String>)
        ensures
            strings_view(missing@) == removed_keys(self@, new@),
    {
        let ghost lacks = missing_in(new@);
        let mut missing: Vec<String> = Vec::new();
        let mut i: usize = 0;
        while i < self.entries.len()
            invariant
                i <= self.entries.len(),
                lacks == missing_in(new@),
                strings_view(missing@) == self@.take(i as int).filter(lacks).map_values(key_of()),
            decreases self.entries.len() - i,
        {
            let held = new.contains_key(self.entries[i].0.as_str());
            proof {
                assert(self@.take(i as int + 1) =~= self@.take(i as int).push(self@[i as int]));
                self@.take(i as int).lemma_filter_push(self@[i as int], lacks);
            }
            if !held {
                let ghost before = missing@;
                missing.push(self.entries[i].0.clone());
                assert(self@.take(i as int + 1).filter(lacks).map_values(key_of())
                    =~= self@.take(i as int).filter(lacks).map_values(key_of()).push(
                    self@[i as int].0,
                ));
            }
            i += 1;
        }
        assert(self@.take(i as int) =~= self@);
        missing
    }
}

impl Clone for PropertyMap {
    fn clone(&self) -> (copy: Self)
        ensures
            copy@ == self@,
    {
        let mut copy = PropertyMap::new();
        let mut i: usize = 0;
        while i < self.entries.len()
            invariant
                i <= self.entries.len(),
                copy@ == self@.take(i as int),
            decreases self.entries.len() - i,
        {
            let ghost before = copy@;
            copy.entries.push((self.entries[i].0.clone(), self.entries[i].1.clone()));
            assert(copy@ =~= before.push(self@[i as int]));
            i += 1;
        }
        copy
    }
}

impl PropertyMap {
    /// Whether `other` gives every key of this map what this map gives it.
    fn agrees_with(&self, other: &PropertyMap) -> (agrees: bool)
        ensures
            agrees == forall|i: int|
                0 <= i < self@.len() ==> lookup(other@, (#[trigger] self@[i]).0) == lookup(
                    self@,
                    self@[i].0,
                ),
    {
        let mut i: usize = 0;
        while i < self.entries.len()
            invariant
                i <= self.entries.len(),
                forall|j: int|
                    0 <= j < i ==> lookup(other@, (#[trigger] self@[j]).0) == lookup(
                        self@,
                        self@[j].0,
                    ),
            decreases self.entries.len() - i,
        {
            let key = self.entries[i].0.as_str();
            let same = match (self.get(key), other.get(key)) {
                (Some(a), Some(b)) => *a == *b,
                (None, None) => true,
                _ => false,
            };
            if !same {
                assert(lookup(other@, self@[i as int].0) != lookup(self@, self@[i as int].0));
                return false;
            }
            i += 1;
        }
        true
    }
}

impl PartialEq for PropertyMap {
    fn eq(&self, other: &Self) -> (equal: bool) {
        proof {
            lemma_same_map(self@, other@);
        }
        self.agrees_with(other) && other.agrees_with(self)
    }
}

impl PartialEqSpecImpl for PropertyMap {
    open spec fn obeys_eq_spec() -> bool {
        true
    }

    open spec fn eq_spec(&self, other: &Self) -> bool {
        to_map(self@) == to_map(other@)
    }
}

impl Eq for PropertyMap {

}

/// Two lists of pairs are the same map exactly when each gives every key of
/// the other what the other gives it.
pub proof fn lemma_same_map(a: Pairs, b: Pairs)
    ensures
        to_map(a) == to_map(b) <==> {
            &&& forall|i: int|
                0 <= i < a.len() ==> lookup(b, (#[trigger] a[i]).0) == lookup(a, a[i].0)
            &&& forall|i: int|
                0 <= i < b.len() ==> lookup(a, (#[trigger] b[i]).0) == lookup(b, b[i].0)
        },
{
    if to_map(a) == to_map(b) {
        assert forall|k: Seq<char>| lookup(a, k) == lookup(b, k) by {
            assert(to_map(a).contains_key(k) ==> to_map(a)[k] == to_map(b)[k]);
        }
    }
    if (forall|i: int| 0 <= i < a.len() ==> lookup(b, (#[trigger] a[i]).0) == lookup(a, a[i].0))
        && (forall|i: int|
        0 <= i < b.len() ==> lookup(a, (#[trigger] b[i]).0) == lookup(b, b[i].0)) {
        assert forall|k: Seq<char>| lookup(a, k) == lookup(b, k) by {
            lemma_position(a, k);
            lemma_position(b, k);
            if position(a, k) is Some {
            } else if position(b, k) is Some {
            }
        }
        assert(to_map(a) =~= to_map(b));
    }
}

/// Whether `strs` holds a slice with the characters of `wanted`.
pub fn holds_str(strs: &[&str], wanted: &str) -> (held: bool)
    ensures
        held == strs_view(strs@).contains(wanted@),
{
    let mut i: usize = 0;
    while i < strs.len()
        invariant
            i <= strs.len(),
            forall|j: int| 0 <= j < i ==> strs_view(strs@)[j] != wanted@,
        decreases strs.len() - i,
    {
        if strs[i].eq(wanted) {
            assert(strs_view(strs@)[i as int] == wanted@);
            return true;
        }
        i += 1;
    }
    false
}

/// A list of which no element passes a test is empty once it is filtered.
pub proof fn lemma_filter_none<A>(s: Seq<A>, pred: spec_fn(A) -> bool)
    requires
        forall|i: int| 0 <= i < s.len() ==> !pred(#[trigger] s[i]),
    ensures
        s.filter(pred) == Seq::<A>::empty(),
    decreases s.len(),
{
    if s.len() == 0 {
    } else {
        let front = s.drop_last();
        lemma_filter_none(front, pred);
        front.lemma_filter_push(s.last(), pred);
        assert(front.push(s.last()) =~= s);
    }
}

/// Between a list of pairs without a double key and itself, no property is
/// new or has another value, and no key is gone.
pub proof fn lemma_same_pairs(pairs: Pairs)
    requires
        distinct_keys(pairs),
    ensures
        updated_pairs(pairs, pairs) == Pairs::empty(),
        removed_keys(pairs, pairs) == Seq::<Seq<char>>::empty(),
{
    assert forall|i: int| 0 <= i < pairs.len() implies !differs_from(pairs)(#[trigger] pairs[i])
        && !missing_in(pairs)(pairs[i]) by {
        lemma_lookup_distinct(pairs, i);
    }
    lemma_filter_none(pairs, differs_from(pairs));
    lemma_filter_none(pairs, missing_in(pairs));
}

/// A key that no pair holds goes to the end.
pub proof fn lemma_put_new(pairs: Pairs, key: Seq<char>, value: ValueView)
    requires
        forall|j: int| 0 <= j < pairs.len() ==> (#[trigger] pairs[j]).0 != key,
    ensures
        put(pairs, key, value) == pairs.push((key, value)),
{
    lemma_position_none(pairs, key);
}

/// Giving a key a value keeps the keys distinct.
pub proof fn lemma_put_distinct(pairs: Pairs, key: Seq<char>, value: ValueView)
    requires
        distinct_keys(pairs),
    ensures
        distinct_keys(put(pairs, key, value)),
{
    lemma_position(pairs, key);
}

} // verus!
