use vstd::prelude::*;

verus! {

// ---------------------------------------------------------------------------
// The raw structured value of an open-map entry
// ---------------------------------------------------------------------------
/// `serde_json::Value` carries the contents of open-map entries whose shape
/// the library does not interpret; declaring the type lets it stand in
/// fields and signatures, where it is opaque to the verifier.
#[verifier::external_type_specification]
#[verifier::external_body]
pub struct ExValue(serde_json::Value);

/// Relies on `<serde_json::Value as Clone>::clone` (a derived, memberwise
/// clone): the clone is equal to the original value.
pub assume_specification[ <serde_json::Value as Clone>::clone ](
    v: &serde_json::Value,
) -> (r: serde_json::Value)
    ensures
        r == *v,
;

// ---------------------------------------------------------------------------
// Field values of a flat record object
// ---------------------------------------------------------------------------
/// A structured value stored in a flat record object: a string, a boolean,
/// or any other structured value, carried through uninterpreted.
#[derive(Debug, PartialEq)]
pub enum FieldValue {
    Text(String),
    Flag(bool),
    Other(serde_json::Value),
}

/// The mathematical value of a `FieldValue`.
pub enum FieldView {
    Text(Seq<char>),
    Flag(bool),
    Other(serde_json::Value),
}

impl View for FieldValue {
    type V = FieldView;

    open spec fn view(&self) -> FieldView {
        match self {
            FieldValue::Text(s) => FieldView::Text(s@),
            FieldValue::Flag(b) => FieldView::Flag(*b),
            FieldValue::Other(v) => FieldView::Other(*v),
        }
    }
}

impl Clone for FieldValue {
    fn clone(&self) -> (r: Self)
        ensures
            r == *self,
    {
        match self {
            FieldValue::Text(s) => FieldValue::Text(s.clone()),
            FieldValue::Flag(b) => FieldValue::Flag(*b),
            FieldValue::Other(v) => FieldValue::Other(v.clone()),
        }
    }
}

// ---------------------------------------------------------------------------
// Association sequences: the model of a flat object's entries
// ---------------------------------------------------------------------------
/// The value under `key`: the first entry with that key, if any.
pub open spec fn assoc_get<V>(s: Seq<(Seq<char>, V)>, key: Seq<char>) -> Option<V>
    decreases s.len(),
{
    if s.len() == 0 {
        None
    } else if s[0].0 == key {
        Some(s[0].1)
    } else {
        assoc_get(s.drop_first(), key)
    }
}

/// Whether some entry carries `key`.
pub open spec fn assoc_has<V>(s: Seq<(Seq<char>, V)>, key: Seq<char>) -> bool {
    assoc_get(s, key) is Some
}

/// Insert-or-overwrite: the first entry with `key` is replaced in place;
/// with no such entry, a new entry is appended.
pub open spec fn assoc_set<V>(s: Seq<(Seq<char>, V)>, key: Seq<char>, value: V) -> Seq<
    (Seq<char>, V),
>
    decreases s.len(),
{
    if s.len() == 0 {
        seq![(key, value)]
    } else if s[0].0 == key {
        seq![(key, value)] + s.drop_first()
    } else {
        seq![s[0]] + assoc_set(s.drop_first(), key, value)
    }
}

/// The entries whose keys are not in `keys`, in their original order.
pub open spec fn assoc_strip<V>(s: Seq<(Seq<char>, V)>, keys: Set<Seq<char>>) -> Seq<
    (Seq<char>, V),
>
    decreases s.len(),
{
    if s.len() == 0 {
        Seq::empty()
    } else if keys.contains(s[0].0) {
        assoc_strip(s.drop_first(), keys)
    } else {
        seq![s[0]] + assoc_strip(s.drop_first(), keys)
    }
}

/// No two entries share a key.
pub open spec fn assoc_unique<V>(s: Seq<(Seq<char>, V)>) -> bool {
    forall|i: int, j: int| 0 <= i < j < s.len() ==> s[i].0 != s[j].0
}

pub proof fn lemma_assoc_get_append<V>(a: Seq<(Seq<char>, V)>, b: Seq<(Seq<char>, V)>, key: Seq<char>)
    ensures
        assoc_get(a + b, key) == (if assoc_has(a, key) {
            assoc_get(a, key)
        } else {
            assoc_get(b, key)
        }),
    decreases a.len(),
{
    if a.len() == 0 {
        assert(a + b =~= b);
    } else {
        assert((a + b).drop_first() =~= a.drop_first() + b);
        lemma_assoc_get_append(a.drop_first(), b, key);
    }
}

pub proof fn lemma_assoc_strip_append<V>(
    a: Seq<(Seq<char>, V)>,
    b: Seq<(Seq<char>, V)>,
    keys: Set<Seq<char>>,
)
    ensures
        assoc_strip(a + b, keys) == assoc_strip(a, keys) + assoc_strip(b, keys),
    decreases a.len(),
{
    if a.len() == 0 {
        assert(a + b =~= b);
        assert(assoc_strip(a, keys) + assoc_strip(b, keys) =~= assoc_strip(b, keys));
    } else {
        assert((a + b).drop_first() =~= a.drop_first() + b);
        lemma_assoc_strip_append(a.drop_first(), b, keys);
        if !keys.contains(a[0].0) {
            assert(seq![a[0]] + (assoc_strip(a.drop_first(), keys) + assoc_strip(b, keys)) =~= (
            seq![a[0]] + assoc_strip(a.drop_first(), keys)) + assoc_strip(b, keys));
        }
    }
}

pub proof fn lemma_assoc_get_push<V>(s: Seq<(Seq<char>, V)>, e: (Seq<char>, V), key: Seq<char>)
    ensures
        assoc_get(s.push(e), key) == (if assoc_has(s, key) {
            assoc_get(s, key)
        } else if e.0 == key {
            Some(e.1)
        } else {
            None::<V>
        }),
{
    lemma_assoc_get_append(s, seq![e], key);
    assert(s + seq![e] =~= s.push(e));
    assert(seq![e][0] == e);
    assert(seq![e].drop_first() =~= Seq::<(Seq<char>, V)>::empty());
    assert(assoc_get(Seq::<(Seq<char>, V)>::empty(), key) is None);
}

pub proof fn lemma_assoc_strip_push<V>(s: Seq<(Seq<char>, V)>, e: (Seq<char>, V), keys: Set<Seq<char>>)
    ensures
        assoc_strip(s.push(e), keys) == (if keys.contains(e.0) {
            assoc_strip(s, keys)
        } else {
            assoc_strip(s, keys).push(e)
        }),
{
    lemma_assoc_strip_append(s, seq![e], keys);
    assert(s + seq![e] =~= s.push(e));
    assert(seq![e][0] == e);
    assert(seq![e].drop_first() =~= Seq::<(Seq<char>, V)>::empty());
    assert(assoc_strip(Seq::<(Seq<char>, V)>::empty(), keys) =~= Seq::<(Seq<char>, V)>::empty());
    if keys.contains(e.0) {
        assert(assoc_strip(seq![e], keys) =~= Seq::<(Seq<char>, V)>::empty());
        assert(assoc_strip(s, keys) + Seq::<(Seq<char>, V)>::empty() =~= assoc_strip(s, keys));
    } else {
        assert(assoc_strip(seq![e], keys) =~= seq![e]);
        assert(assoc_strip(s, keys) + seq![e] =~= assoc_strip(s, keys).push(e));
    }
}

pub proof fn lemma_assoc_get_singleton<V>(e: (Seq<char>, V), key: Seq<char>)
    ensures
        assoc_get(seq![e], key) == (if e.0 == key {
            Some(e.1)
        } else {
            None::<V>
        }),
{
    assert(seq![e][0] == e);
    assert(seq![e].drop_first() =~= Seq::<(Seq<char>, V)>::empty());
    assert(assoc_get(Seq::<(Seq<char>, V)>::empty(), key) is None);
}

pub proof fn lemma_assoc_strip_singleton<V>(e: (Seq<char>, V), keys: Set<Seq<char>>)
    ensures
        assoc_strip(seq![e], keys) == (if keys.contains(e.0) {
            Seq::<(Seq<char>, V)>::empty()
        } else {
            seq![e]
        }),
{
    assert(seq![e][0] == e);
    assert(seq![e].drop_first() =~= Seq::<(Seq<char>, V)>::empty());
    assert(assoc_strip(Seq::<(Seq<char>, V)>::empty(), keys) =~= Seq::<(Seq<char>, V)>::empty());
    if !keys.contains(e.0) {
        assert(seq![e] + Seq::<(Seq<char>, V)>::empty() =~= seq![e]);
    }
}

pub proof fn lemma_assoc_strip_all_kept<V>(s: Seq<(Seq<char>, V)>, keys: Set<Seq<char>>)
    requires
        forall|i: int| 0 <= i < s.len() ==> !keys.contains(s[i].0),
    ensures
        assoc_strip(s, keys) == s,
    decreases s.len(),
{
    if s.len() > 0 {
        assert(forall|i: int|
            0 <= i < s.drop_first().len() ==> !keys.contains(s.drop_first()[i].0));
        lemma_assoc_strip_all_kept(s.drop_first(), keys);
        assert(seq![s[0]] + s.drop_first() =~= s);
    }
}

pub proof fn lemma_assoc_get_none<V>(s: Seq<(Seq<char>, V)>, key: Seq<char>)
    requires
        forall|i: int| 0 <= i < s.len() ==> s[i].0 != key,
    ensures
        assoc_get(s, key) is None,
    decreases s.len(),
{
    if s.len() > 0 {
        assert(forall|i: int| 0 <= i < s.drop_first().len() ==> s.drop_first()[i].0 != key);
        lemma_assoc_get_none(s.drop_first(), key);
    }
}

pub proof fn lemma_assoc_get_index<V>(s: Seq<(Seq<char>, V)>, i: int)
    requires
        0 <= i < s.len(),
        forall|j: int| 0 <= j < i ==> s[j].0 != s[i].0,
    ensures
        assoc_get(s, s[i].0) == Some(s[i].1),
    decreases i,
{
    if i > 0 {
        assert(forall|j: int|
            0 <= j < i - 1 ==> (#[trigger] s.drop_first()[j]).0 != s.drop_first()[i - 1].0) by {
            assert(forall|j: int| 0 <= j < i - 1 ==> #[trigger] s.drop_first()[j] == s[j + 1]);
        }
        lemma_assoc_get_index(s.drop_first(), i - 1);
    }
}

pub proof fn lemma_assoc_set_update<V>(s: Seq<(Seq<char>, V)>, i: int, key: Seq<char>, value: V)
    requires
        0 <= i < s.len(),
        s[i].0 == key,
        forall|j: int| 0 <= j < i ==> s[j].0 != key,
    ensures
        assoc_set(s, key, value) == s.update(i, (key, value)),
    decreases i,
{
    if i == 0 {
        assert(seq![(key, value)] + s.drop_first() =~= s.update(0, (key, value)));
    } else {
        assert(forall|j: int| 0 <= j < i - 1 ==> s.drop_first()[j] == s[j + 1]);
        lemma_assoc_set_update(s.drop_first(), i - 1, key, value);
        assert(seq![s[0]] + s.drop_first().update(i - 1, (key, value)) =~= s.update(
            i,
            (key, value),
        ));
    }
}

pub proof fn lemma_assoc_set_push<V>(s: Seq<(Seq<char>, V)>, key: Seq<char>, value: V)
    requires
        forall|i: int| 0 <= i < s.len() ==> s[i].0 != key,
    ensures
        assoc_set(s, key, value) == s.push((key, value)),
    decreases s.len(),
{
    if s.len() == 0 {
        assert(seq![(key, value)] =~= s.push((key, value)));
    } else {
        assert(forall|i: int| 0 <= i < s.drop_first().len() ==> s.drop_first()[i].0 != key);
        lemma_assoc_set_push(s.drop_first(), key, value);
        assert(seq![s[0]] + s.drop_first().push((key, value)) =~= s.push((key, value)));
    }
}

pub proof fn lemma_assoc_set_get<V>(s: Seq<(Seq<char>, V)>, key: Seq<char>, value: V)
    ensures
        assoc_get(assoc_set(s, key, value), key) == Some(value),
    decreases s.len(),
{
    if s.len() == 0 {
        let t = seq![(key, value)];
        assert(t[0] == (key, value));
    } else if s[0].0 == key {
        assert((seq![(key, value)] + s.drop_first())[0] == (key, value));
    } else {
        let t = seq![s[0]] + assoc_set(s.drop_first(), key, value);
        assert(t[0] == s[0]);
        assert(t.drop_first() =~= assoc_set(s.drop_first(), key, value));
        lemma_assoc_set_get(s.drop_first(), key, value);
    }
}

pub proof fn lemma_assoc_set_get_other<V>(
    s: Seq<(Seq<char>, V)>,
    key: Seq<char>,
    value: V,
    other: Seq<char>,
)
    requires
        other != key,
    ensures
        assoc_get(assoc_set(s, key, value), other) == assoc_get(s, other),
    decreases s.len(),
{
    if s.len() == 0 {
        let t = seq![(key, value)];
        assert(assoc_set(s, key, value) == t);
        assert(t[0] == (key, value));
        assert(t.drop_first() =~= Seq::<(Seq<char>, V)>::empty());
        assert(assoc_get(Seq::<(Seq<char>, V)>::empty(), other) is None);
        assert(assoc_get(t, other) is None);
        assert(assoc_get(assoc_set(s, key, value), other) == assoc_get(s, other));
    } else if s[0].0 == key {
        let t = seq![(key, value)] + s.drop_first();
        assert(assoc_set(s, key, value) == t);
        assert(t[0] == (key, value));
        assert(t.drop_first() =~= s.drop_first());
        assert(assoc_get(t, other) == assoc_get(s.drop_first(), other));
        assert(assoc_get(assoc_set(s, key, value), other) == assoc_get(s, other));
    } else {
        let t = seq![s[0]] + assoc_set(s.drop_first(), key, value);
        assert(assoc_set(s, key, value) == t);
        assert(t[0] == s[0]);
        assert(t.drop_first() =~= assoc_set(s.drop_first(), key, value));
        lemma_assoc_set_get_other(s.drop_first(), key, value, other);
        assert(assoc_get(assoc_set(s, key, value), other) == assoc_get(s, other));
    }
}

// ---------------------------------------------------------------------------
// Flat objects
// ---------------------------------------------------------------------------
/// A flat structured object: ordered key/value entries over `FieldValue`.
/// It is both the open map of an extensible record's extra fields and the
/// serialized form of such a record.
#[derive(Debug, PartialEq)]
pub struct FlatObject {
    entries: Vec<(String, FieldValue)>,
}

impl View for FlatObject {
    type V = Seq<(Seq<char>, FieldView)>;

    closed spec fn view(&self) -> Seq<(Seq<char>, FieldView)> {
        self.entries@.map(|i: int, e: (String, FieldValue)| (e.0@, e.1@))
    }
}

impl Clone for FlatObject {
    fn clone(&self) -> (r: Self)
        ensures
            r@ == self@,
    {
        let mut entries: Vec<(String, FieldValue)> = Vec::new();
        let mut i: usize = 0;
        while i < self.entries.len()
            invariant
                0 <= i <= self.entries.len(),
                entries@ =~= self.entries@.take(i as int),
            decreases self.entries.len() - i,
        {
            let e = &self.entries[i];
            entries.push((e.0.clone(), e.1.clone()));
            i += 1;
        }
        proof {
            assert(entries@ =~= self.entries@);
        }
        FlatObject { entries }
    }
}

impl FlatObject {
    /// An object with no entries.
    pub fn new() -> (r: Self)
        ensures
            r@ == Seq::<(Seq<char>, FieldView)>::empty(),
    {
        let r = FlatObject { entries: Vec::new() };
        proof {
            assert(r@ =~= Seq::<(Seq<char>, FieldView)>::empty());
        }
        r
    }

    pub fn len(&self) -> (n: usize)
        ensures
            n == self@.len(),
    {
        self.entries.len()
    }

    pub fn entry(&self, i: usize) -> (e: &(String, FieldValue))
        requires
            i < self@.len(),
        ensures
            (e.0@, e.1@) == self@[i as int],
    {
        &self.entries[i]
    }

    /// The value under `key`, or `None` when no entry carries it.
    pub fn get(&self, key: &str) -> (r: Option<&FieldValue>)
        ensures
            match r {
                Some(v) => assoc_get(self@, key@) == Some(v@),
                None => assoc_get(self@, key@) is None,
            },
    {
        let owned = key.to_owned();
        let mut i: usize = 0;
        while i < self.entries.len()
            invariant
                0 <= i <= self.entries.len(),
                owned@ == key@,
                forall|j: int| 0 <= j < i ==> self@[j].0 != key@,
            decreases self.entries.len() - i,
        {
            if self.entries[i].0 == owned {
                proof {
                    lemma_assoc_get_index(self@, i as int);
                }
                return Some(&self.entries[i].1);
            }
            i += 1;
        }
        proof {
            lemma_assoc_get_none(self@, key@);
        }
        None
    }

    /// Inserts or overwrites the entry for `key`.
    pub fn set(&mut self, key: String, value: FieldValue)
        ensures
            final(self)@ == assoc_set(old(self)@, key@, value@),
    {
        let mut i: usize = 0;
        while i < self.entries.len()
            invariant
                0 <= i <= self.entries.len(),
                self == old(self),
                forall|j: int| 0 <= j < i ==> self@[j].0 != key@,
            decreases self.entries.len() - i,
        {
            if self.entries[i].0 == key {
                proof {
                    lemma_assoc_set_update(old(self)@, i as int, key@, value@);
                }
                self.entries[i] = (key, value);
                proof {
                    assert(self@ =~= old(self)@.update(i as int, (key@, value@)));
                }
                return;
            }
            i += 1;
        }
        proof {
            lemma_assoc_set_push(old(self)@, key@, value@);
        }
        self.entries.push((key, value));
        proof {
            assert(self@ =~= old(self)@.push((key@, value@)));
        }
    }

    /// Appends an entry without looking for an existing key.
    pub(crate) fn push_entry(&mut self, key: String, value: FieldValue)
        ensures
            final(self)@ == old(self)@.push((key@, value@)),
    {
        self.entries.push((key, value));
        proof {
            assert(self@ =~= old(self)@.push((key@, value@)));
        }
    }

    /// Removes and returns the first entry.
    pub(crate) fn pop_front(&mut self) -> (r: Option<(String, FieldValue)>)
        ensures
            match r {
                Some(e) => old(self)@.len() > 0 && (e.0@, e.1@) == old(self)@[0] && final(self)@
                    == old(self)@.drop_first(),
                None => old(self)@.len() == 0 && final(self)@ == old(self)@,
            },
    {
        if self.entries.len() == 0 {
            None
        } else {
            let e = self.entries.remove(0);
            proof {
                assert(self@ =~= old(self)@.drop_first());
            }
            Some(e)
        }
    }

    /// The entries as a plain vector, in order.
    pub fn into_entries(self) -> (r: Vec<(String, FieldValue)>)
        ensures
            r@.map(|i: int, e: (String, FieldValue)| (e.0@, e.1@)) == self@,
    {
        self.entries
    }
}

// ---------------------------------------------------------------------------
// Profile documents
// ---------------------------------------------------------------------------
/// A value stored in a serialized profile document: a string, a nested flat
/// record object, or any other structured value carried uninterpreted.
#[derive(Debug, PartialEq)]
pub enum DocValue {
    Text(String),
    Object(FlatObject),
    Other(serde_json::Value),
}

/// The mathematical value of a `DocValue`.
pub enum DocView {
    Text(Seq<char>),
    Object(Seq<(Seq<char>, FieldView)>),
    Other(serde_json::Value),
}

impl View for DocValue {
    type V = DocView;

    open spec fn view(&self) -> DocView {
        match self {
            DocValue::Text(s) => DocView::Text(s@),
            DocValue::Object(o) => DocView::Object(o@),
            DocValue::Other(v) => DocView::Other(*v),
        }
    }
}

/// The serialized form of a whole user profile: ordered key/value entries
/// over `DocValue`.
#[derive(Debug, PartialEq)]
pub struct DocObject {
    entries: Vec<(String, DocValue)>,
}

impl View for DocObject {
    type V = Seq<(Seq<char>, DocView)>;

    closed spec fn view(&self) -> Seq<(Seq<char>, DocView)> {
        self.entries@.map(|i: int, e: (String, DocValue)| (e.0@, e.1@))
    }
}

impl DocObject {
    /// A document with no entries.
    pub fn new() -> (r: Self)
        ensures
            r@ == Seq::<(Seq<char>, DocView)>::empty(),
    {
        let r = DocObject { entries: Vec::new() };
        proof {
            assert(r@ =~= Seq::<(Seq<char>, DocView)>::empty());
        }
        r
    }

    pub fn len(&self) -> (n: usize)
        ensures
            n == self@.len(),
    {
        self.entries.len()
    }

    pub fn entry(&self, i: usize) -> (e: &(String, DocValue))
        requires
            i < self@.len(),
        ensures
            (e.0@, e.1@) == self@[i as int],
    {
        &self.entries[i]
    }

    /// The value under `key`, or `None` when no entry carries it.
    pub fn get(&self, key: &str) -> (r: Option<&DocValue>)
        ensures
            match r {
                Some(v) => assoc_get(self@, key@) == Some(v@),
                None => assoc_get(self@, key@) is None,
            },
    {
        let owned = key.to_owned();
        let mut i: usize = 0;
        while i < self.entries.len()
            invariant
                0 <= i <= self.entries.len(),
                owned@ == key@,
                forall|j: int| 0 <= j < i ==> self@[j].0 != key@,
            decreases self.entries.len() - i,
        {
            if self.entries[i].0 == owned {
                proof {
                    lemma_assoc_get_index(self@, i as int);
                }
                return Some(&self.entries[i].1);
            }
            i += 1;
        }
        proof {
            lemma_assoc_get_none(self@, key@);
        }
        None
    }

    /// Inserts or overwrites the entry for `key`.
    pub fn set(&mut self, key: String, value: DocValue)
        ensures
            final(self)@ == assoc_set(old(self)@, key@, value@),
    {
        let mut i: usize = 0;
        while i < self.entries.len()
            invariant
                0 <= i <= self.entries.len(),
                self == old(self),
                forall|j: int| 0 <= j < i ==> self@[j].0 != key@,
            decreases self.entries.len() - i,
        {
            if self.entries[i].0 == key {
                proof {
                    lemma_assoc_set_update(old(self)@, i as int, key@, value@);
                }
                self.entries[i] = (key, value);
                proof {
                    assert(self@ =~= old(self)@.update(i as int, (key@, value@)));
                }
                return;
            }
            i += 1;
        }
        proof {
            lemma_assoc_set_push(old(self)@, key@, value@);
        }
        self.entries.push((key, value));
        proof {
            assert(self@ =~= old(self)@.push((key@, value@)));
        }
    }

    /// Appends an entry without looking for an existing key.
    pub(crate) fn push_entry(&mut self, key: String, value: DocValue)
        ensures
            final(self)@ == old(self)@.push((key@, value@)),
    {
        self.entries.push((key, value));
        proof {
            assert(self@ =~= old(self)@.push((key@, value@)));
        }
    }

    /// Removes and returns the first entry.
    pub(crate) fn pop_front(&mut self) -> (r: Option<(String, DocValue)>)
        ensures
            match r {
                Some(e) => old(self)@.len() > 0 && (e.0@, e.1@) == old(self)@[0] && final(self)@
                    == old(self)@.drop_first(),
                None => old(self)@.len() == 0 && final(self)@ == old(self)@,
            },
    {
        if self.entries.len() == 0 {
            None
        } else {
            let e = self.entries.remove(0);
            proof {
                assert(self@ =~= old(self)@.drop_first());
            }
            Some(e)
        }
    }

    /// The entries as a plain vector, in order.
    pub fn into_entries(self) -> (r: Vec<(String, DocValue)>)
        ensures
            r@.map(|i: int, e: (String, DocValue)| (e.0@, e.1@)) == self@,
    {
        self.entries
    }
}

} // verus!
