//! The flat key-value store and its items.
use vstd::prelude::*;
use vstd::string::StringExecFns;
use crate::dispersion::{DataType, DispersionData, EvalError, Kind};
use crate::expr::Expr;
use crate::number::Number;

verus! {

/// A single item in the store containing materials data.
#[derive(Debug)]
pub struct Material {
    pub shelf: String,
    pub book: String,
    pub page: String,
    pub comments: String,
    pub references: String,
    pub data: Vec<DispersionData>,
}

/// Whether an entry of this type supplies the real part.
pub open spec fn supplies_real(t: DataType) -> bool {
    t == DataType::Real || t == DataType::Both
}

/// Whether an entry of this type supplies the imaginary part.
pub open spec fn supplies_imaginary(t: DataType) -> bool {
    t == DataType::Imaginary || t == DataType::Both
}

/// The first entry that supplies the real part.
pub open spec fn first_real(data: Seq<DispersionData>) -> Option<DispersionData>
    decreases data.len(),
{
    if data.len() == 0 {
        None
    } else if supplies_real(data[0].spec_data_type()) {
        Some(data[0])
    } else {
        first_real(data.drop_first())
    }
}

/// The first entry that supplies the imaginary part.
pub open spec fn first_imaginary(data: Seq<DispersionData>) -> Option<DispersionData>
    decreases data.len(),
{
    if data.len() == 0 {
        None
    } else if supplies_imaginary(data[0].spec_data_type()) {
        Some(data[0])
    } else {
        first_imaginary(data.drop_first())
    }
}

impl Material {
    /// What `n` returns at wavelength `w`: the real part that the first entry
    /// of type real or both supplies.
    pub open spec fn real_part(&self, w: Number) -> Result<Expr, EvalError> {
        match first_real(self.data@) {
            None => Err(EvalError::NoRealData),
            Some(d) => match d.at(w) {
                Ok((n, _)) => Ok(n),
                Err(e) => Err(e),
            },
        }
    }

    /// What `k` returns at wavelength `w`: the imaginary part that the first
    /// entry of type imaginary or both supplies.
    pub open spec fn imaginary_part(&self, w: Number) -> Result<Expr, EvalError> {
        match first_imaginary(self.data@) {
            None => Err(EvalError::NoImaginaryData),
            Some(d) => match d.at(w) {
                Ok((_, Some(k))) => Ok(k),
                Ok((_, None)) => Err(EvalError::NoImaginaryData),
                Err(e) => Err(e),
            },
        }
    }

    /// Computes the real part of the refractive index of the material at the
    /// given wavelength, as an expression over doubles.
    ///
    /// # Errors
    /// - `NoRealData` if no entry supplies the real part.
    /// - Whatever `interpolate` returns for the first entry that does.
    pub fn n(&self, wavelength: Number) -> (r: Result<Expr, EvalError>)
        ensures
            r == self.real_part(wavelength),
    {
        let mut i: usize = 0;
        assert(self.data@.skip(0) == self.data@);
        while i < self.data.len()
            invariant
                i <= self.data.len(),
                first_real(self.data@) == first_real(self.data@.skip(i as int)),
            decreases self.data.len() - i,
        {
            let d = &self.data[i];
            assert(self.data@.skip(i as int)[0] == *d);
            match d.data_type() {
                DataType::Real | DataType::Both => {
                    return match d.interpolate(wavelength) {
                        Ok((n, _)) => Ok(n),
                        Err(e) => Err(e),
                    };
                },
                DataType::Imaginary => {},
            }
            assert(self.data@.skip(i as int).drop_first() == self.data@.skip(i + 1));
            i += 1;
        }
        Err(EvalError::NoRealData)
    }

    /// Computes the imaginary part of the refractive index of the material at
    /// the given wavelength, as an expression over doubles.
    ///
    /// # Errors
    /// - `NoImaginaryData` if no entry supplies the imaginary part, or the
    ///   first one that does resolves none.
    /// - Whatever `interpolate` returns for the first entry that does.
    pub fn k(&self, wavelength: Number) -> (r: Result<Expr, EvalError>)
        ensures
            r == self.imaginary_part(wavelength),
    {
        let mut i: usize = 0;
        assert(self.data@.skip(0) == self.data@);
        while i < self.data.len()
            invariant
                i <= self.data.len(),
                first_imaginary(self.data@) == first_imaginary(self.data@.skip(i as int)),
            decreases self.data.len() - i,
        {
            let d = &self.data[i];
            assert(self.data@.skip(i as int)[0] == *d);
            match d.data_type() {
                DataType::Imaginary | DataType::Both => {
                    return match d.interpolate(wavelength) {
                        Ok((_, Some(k))) => Ok(k),
                        Ok((_, None)) => Err(EvalError::NoImaginaryData),
                        Err(e) => Err(e),
                    };
                },
                DataType::Real => {},
            }
            assert(self.data@.skip(i as int).drop_first() == self.data@.skip(i + 1));
            i += 1;
        }
        Err(EvalError::NoImaginaryData)
    }
}

/// The first entry that supplies the real part is the one that no entry
/// before it does.
pub proof fn lemma_first_real(data: Seq<DispersionData>, i: int)
    requires
        0 <= i < data.len(),
        supplies_real(data[i].spec_data_type()),
        forall|j: int| 0 <= j < i ==> !supplies_real(#[trigger] data[j].spec_data_type()),
    ensures
        first_real(data) == Some(data[i]),
    decreases i,
{
    if i > 0 {
        let rest = data.drop_first();
        assert forall|j: int| 0 <= j < i - 1 implies !supplies_real(
            #[trigger] rest[j].spec_data_type(),
        ) by {
            assert(rest[j] == data[j + 1]);
        }
        assert(rest[i - 1] == data[i]);
        lemma_first_real(rest, i - 1);
    }
}

/// The first entry that supplies the imaginary part is the one that no entry
/// before it does.
pub proof fn lemma_first_imaginary(data: Seq<DispersionData>, i: int)
    requires
        0 <= i < data.len(),
        supplies_imaginary(data[i].spec_data_type()),
        forall|j: int| 0 <= j < i ==> !supplies_imaginary(#[trigger] data[j].spec_data_type()),
    ensures
        first_imaginary(data) == Some(data[i]),
    decreases i,
{
    if i > 0 {
        let rest = data.drop_first();
        assert forall|j: int| 0 <= j < i - 1 implies !supplies_imaginary(
            #[trigger] rest[j].spec_data_type(),
        ) by {
            assert(rest[j] == data[j + 1]);
        }
        assert(rest[i - 1] == data[i]);
        lemma_first_imaginary(rest, i - 1);
    }
}

/// A material with a tabulated `n` entry and a tabulated `k` entry, the one
/// first among those for the real part and the other first among those for
/// the imaginary part, is asked for `n` at the one and for `k` at the other.
/// Tabulated entries are not interpolated, so both queries end in
/// `NotImplemented`.
pub proof fn lemma_tabulated_pair(material: Material, n: int, k: int, w: Number)
    requires
        0 <= n < material.data@.len(),
        0 <= k < material.data@.len(),
        material.data@[n].spec_kind() == Kind::TabulatedN,
        material.data@[k].spec_kind() == Kind::TabulatedK,
        forall|j: int|
            0 <= j < n ==> !supplies_real(#[trigger] material.data@[j].spec_data_type()),
        forall|j: int|
            0 <= j < k ==> !supplies_imaginary(#[trigger] material.data@[j].spec_data_type()),
    ensures
        first_real(material.data@) == Some(material.data@[n]),
        first_imaginary(material.data@) == Some(material.data@[k]),
        material.real_part(w) == Err::<Expr, EvalError>(EvalError::NotImplemented),
        material.imaginary_part(w) == Err::<Expr, EvalError>(EvalError::NotImplemented),
{
    lemma_first_real(material.data@, n);
    lemma_first_imaginary(material.data@, k);
}

/// One key with its item.
#[derive(Debug)]
struct Entry {
    key: String,
    item: Material,
}

/// Whether no two entries have the same key.
spec fn distinct_keys(entries: Seq<Entry>) -> bool {
    forall|i: int, j: int|
        0 <= i < entries.len() && 0 <= j < entries.len() && entries[i].key@ == entries[j].key@
            ==> i == j
}

/// Whether some entry has the key.
spec fn has_key(entries: Seq<Entry>, key: Seq<char>) -> bool {
    exists|i: int| 0 <= i < entries.len() && #[trigger] entries[i].key@ == key
}

/// The position of an entry with the key.
spec fn position(entries: Seq<Entry>, key: Seq<char>) -> int {
    choose|i: int| 0 <= i < entries.len() && #[trigger] entries[i].key@ == key
}

/// The map that the entries stand for.
spec fn entries_map(entries: Seq<Entry>) -> Map<Seq<char>, Material> {
    Map::new(|key: Seq<char>| has_key(entries, key), |key: Seq<char>| entries[position(entries, key)].item)
}

/// A flat, key-value store for material refractive index data.
///
/// The store is a map from composite keys to items.
#[derive(Debug)]
pub struct Store {
    inner: Vec<Entry>,
}

impl View for Store {
    type V = Map<Seq<char>, Material>;

    closed spec fn view(&self) -> Map<Seq<char>, Material> {
        entries_map(self.inner@)
    }
}

impl Store {
    #[verifier::type_invariant]
    spec fn well_formed(&self) -> bool {
        distinct_keys(self.inner@)
    }

    pub fn new() -> (store: Store)
        ensures
            store@ == Map::<Seq<char>, Material>::empty(),
    {
        let store = Store { inner: Vec::new() };
        assert(store@ =~= Map::<Seq<char>, Material>::empty());
        store
    }

    /// Moves the entries out and leaves the store empty.
    fn take_entries(&mut self) -> (entries: Vec<Entry>)
        ensures
            entries@ == old(self).inner@,
            distinct_keys(entries@),
            final(self).inner@.len() == 0,
    {
        proof {
            use_type_invariant(&*self);
        }
        let mut entries: Vec<Entry> = Vec::new();
        core::mem::swap(&mut self.inner, &mut entries);
        entries
    }

    /// Moves the entries into the store.
    fn put_entries(&mut self, entries: Vec<Entry>)
        requires
            distinct_keys(entries@),
        ensures
            final(self).inner@ == entries@,
    {
        let mut entries = entries;
        core::mem::swap(&mut self.inner, &mut entries);
    }

    /// Returns the item from the store associated with the given key, if it
    /// exists.
    pub fn get(&self, key: &str) -> (r: Option<&Material>)
        ensures
            match r {
                Some(item) => self@.contains_key(key@) && *item == self@[key@],
                None => !self@.contains_key(key@),
            },
    {
        proof {
            use_type_invariant(self);
        }
        match find(&self.inner, key) {
            Some(i) => {
                assert(has_key(self.inner@, key@));
                Some(&self.inner[i].item)
            },
            None => None,
        }
    }

    /// Inserts a new item into the store. An item that the key already had is
    /// replaced.
    pub fn insert(&mut self, key: String, material: Material)
        ensures
            final(self)@ == old(self)@.insert(key@, material),
    {
        let mut entries = self.take_entries();
        match find(&entries, key.as_str()) {
            Some(i) => {
                proof {
                    lemma_remove_entry(entries@, i as int);
                }
                let _ = entries.remove(i);
            },
            None => {},
        }
        let entry = Entry { key, item: material };
        proof {
            lemma_push_entry(entries@, entry);
        }
        entries.push(entry);
        self.put_entries(entries);
        assert(self@ =~= old(self)@.insert(key@, material));
    }

    /// Returns the keys in the store, every key once, in no particular order.
    pub fn keys(&self) -> (keys: Vec<&String>)
        ensures
            keys.len() == self@.dom().len(),
            self@.dom().finite(),
            forall|i: int| 0 <= i < keys.len() ==> self@.contains_key(#[trigger] keys[i]@),
            forall|key: Seq<char>|
                self@.contains_key(key) ==> exists|i: int|
                    0 <= i < keys.len() && #[trigger] keys[i]@ == key,
            forall|i: int, j: int|
                0 <= i < keys.len() && 0 <= j < keys.len() && keys[i]@ == keys[j]@ ==> i == j,
    {
        proof {
            use_type_invariant(self);
            lemma_domain_size(self.inner@);
        }
        let mut keys: Vec<&String> = Vec::new();
        let mut i: usize = 0;
        while i < self.inner.len()
            invariant
                i <= self.inner.len(),
                keys.len() == i,
                forall|j: int| 0 <= j < i ==> #[trigger] keys[j]@ == self.inner[j].key@,
            decreases self.inner.len() - i,
        {
            keys.push(&self.inner[i].key);
            i += 1;
        }
        assert forall|key: Seq<char>| self@.contains_key(key) implies exists|i: int|
            0 <= i < keys.len() && #[trigger] keys[i]@ == key by {
            let p = position(self.inner@, key);
            assert(keys[p]@ == key);
        }
        keys
    }

    /// Removes the item associated with the given key from the store, and
    /// returns it.
    pub fn remove(&mut self, key: &str) -> (r: Option<Material>)
        ensures
            final(self)@ == old(self)@.remove(key@),
            r == if old(self)@.contains_key(key@) {
                Some(old(self)@[key@])
            } else {
                None
            },
    {
        let mut entries = self.take_entries();
        let r = match find(&entries, key) {
            Some(i) => {
                proof {
                    lemma_remove_entry(entries@, i as int);
                }
                assert(has_key(entries@, key@));
                let entry = entries.remove(i);
                Some(entry.item)
            },
            None => None,
        };
        self.put_entries(entries);
        assert(self@ =~= old(self)@.remove(key@));
        r
    }

    /// Keeps the items whose keys the predicate accepts, and removes the
    /// others.
    pub fn retain<P: Fn(&str) -> bool>(&mut self, keep: &P)
        requires
            forall|key: &str| call_requires(keep, (key,)),
        ensures
            forall|key: Seq<char>| #[trigger]
                final(self)@.contains_key(key) ==> old(self)@.contains_key(key) && final(self)@[key]
                    == old(self)@[key] && answers(keep, key, true),
            forall|key: Seq<char>|
                old(self)@.contains_key(key) && !(#[trigger] final(self)@.contains_key(key))
                    ==> answers(keep, key, false),
    {
        let mut entries = self.take_entries();
        let ghost before = entries_map(entries@);
        let mut i: usize = 0;
        while i < entries.len()
            invariant
                i <= entries.len(),
                distinct_keys(entries@),
                forall|key: &str| call_requires(keep, (key,)),
                forall|j: int| 0 <= j < i ==> answers(keep, #[trigger] entries[j].key@, true),
                forall|key: Seq<char>| #[trigger]
                    entries_map(entries@).contains_key(key) ==> before.contains_key(key)
                        && entries_map(entries@)[key] == before[key],
                forall|key: Seq<char>|
                    before.contains_key(key) && !(#[trigger] entries_map(entries@).contains_key(key))
                        ==> answers(keep, key, false),
            decreases entries.len() - i,
        {
            let key = entries[i].key.as_str();
            if keep(key) {
                assert(answers(keep, entries[i as int].key@, true));
                i += 1;
            } else {
                assert(answers(keep, entries[i as int].key@, false));
                proof {
                    lemma_remove_entry(entries@, i as int);
                }
                let _ = entries.remove(i);
            }
        }
        assert forall|key: Seq<char>| #[trigger] entries_map(entries@).contains_key(key) implies answers(
            keep,
            key,
            true,
        ) by {
            let p = position(entries@, key);
            assert(answers(keep, entries[p].key@, true));
        }
        self.put_entries(entries);
    }

    /// Keeps the items whose keys are in the list, and removes the others.
    pub fn retain_keys(&mut self, keys: &Vec<String>)
        ensures
            final(self)@ == old(self)@.restrict(key_set(keys@)),
            key_set(keys@).subset_of(old(self)@.dom()) ==> final(self)@.dom() == key_set(keys@),
    {
        let keep = |key: &str| -> (listed: bool)
            ensures
                listed == key_set(keys@).contains(key@),
            { contains_key(keys, key) };
        self.retain(&keep);
        assert forall|key: Seq<char>| #[trigger]
            self@.contains_key(key) <==> old(self)@.restrict(key_set(keys@)).contains_key(key) by {
            if old(self)@.contains_key(key) && !self@.contains_key(key) {
                assert(answers(&keep, key, false));
            }
            if self@.contains_key(key) {
                assert(answers(&keep, key, true));
            }
        }
        assert(self@ =~= old(self)@.restrict(key_set(keys@)));
        assert(key_set(keys@).subset_of(old(self)@.dom()) ==> self@.dom() =~= key_set(keys@));
    }

    /// Removes the items whose keys are in the list.
    pub fn remove_many(&mut self, keys: &Vec<String>)
        ensures
            final(self)@ == old(self)@.remove_keys(key_set(keys@)),
            final(self)@.dom() == old(self)@.dom().difference(key_set(keys@)),
    {
        let mut i: usize = 0;
        assert(self@ =~= old(self)@.remove_keys(key_set(keys@.take(0))));
        while i < keys.len()
            invariant
                i <= keys.len(),
                self@ == old(self)@.remove_keys(key_set(keys@.take(i as int))),
            decreases keys.len() - i,
        {
            let _ = self.remove(keys[i].as_str());
            assert(self@ =~= old(self)@.remove_keys(key_set(keys@.take(i + 1)))) by {
                assert forall|key: Seq<char>|
                    key_set(keys@.take(i + 1)).contains(key) <==> (key_set(
                        keys@.take(i as int),
                    ).contains(key) || key == keys@[i as int]@) by {
                    if key_set(keys@.take(i + 1)).contains(key) {
                        let p = choose|p: int|
                            0 <= p < keys@.take(i + 1).len() && #[trigger] keys@.take(i + 1)[p]@
                                == key;
                        if p < i {
                            assert(keys@.take(i as int)[p]@ == key);
                        }
                    }
                    if key_set(keys@.take(i as int)).contains(key) {
                        let p = choose|p: int|
                            0 <= p < keys@.take(i as int).len() && #[trigger] keys@.take(
                                i as int,
                            )[p]@ == key;
                        assert(keys@.take(i + 1)[p]@ == key);
                    }
                    if key == keys@[i as int]@ {
                        assert(keys@.take(i + 1)[i as int]@ == key);
                    }
                }
            }
            i += 1;
        }
        assert(keys@.take(keys.len() as int) == keys@);
        assert(self@.dom() =~= old(self)@.dom().difference(key_set(keys@)));
    }

    /// Filters the store by lists of keys: with an allow-list only the listed
    /// items stay; else, with a deny-list, the listed items leave. The
    /// deny-list is ignored when an allow-list is given.
    pub fn filter(&mut self, allow: Option<&Vec<String>>, deny: Option<&Vec<String>>)
        ensures
            final(self)@ == match allow {
                Some(keys) => old(self)@.restrict(key_set(keys@)),
                None => match deny {
                    Some(keys) => old(self)@.remove_keys(key_set(keys@)),
                    None => old(self)@,
                },
            },
    {
        match allow {
            Some(keys) => self.retain_keys(keys),
            None => match deny {
                Some(keys) => self.remove_many(keys),
                None => {},
            },
        }
    }
}

/// Whether the predicate may answer `r` when it is handed the key.
pub open spec fn answers<P: Fn(&str) -> bool>(keep: &P, key: Seq<char>, r: bool) -> bool {
    exists|k: &str| k@ == key && call_ensures(keep, (k,), r)
}

/// The keys that the list holds.
pub open spec fn key_set(keys: Seq<String>) -> Set<Seq<char>> {
    Set::new(|key: Seq<char>| exists|i: int| 0 <= i < keys.len() && #[trigger] keys[i]@ == key)
}

/// Whether the list holds the key.
pub fn contains_key(keys: &Vec<String>, key: &str) -> (r: bool)
    ensures
        r == key_set(keys@).contains(key@),
{
    let wanted = String::from_str(key);
    let mut i: usize = 0;
    while i < keys.len()
        invariant
            i <= keys.len(),
            wanted@ == key@,
            forall|j: int| 0 <= j < i ==> keys[j]@ != key@,
        decreases keys.len() - i,
    {
        if keys[i] == wanted {
            return true;
        }
        i += 1;
    }
    false
}

/// The position of the entry with the key, if there is one.
fn find(entries: &Vec<Entry>, key: &str) -> (r: Option<usize>)
    ensures
        match r {
            Some(i) => i < entries.len() && entries[i as int].key@ == key@,
            None => !has_key(entries@, key@),
        },
{
    let wanted = String::from_str(key);
    let mut i: usize = 0;
    while i < entries.len()
        invariant
            i <= entries.len(),
            wanted@ == key@,
            forall|j: int| 0 <= j < i ==> entries[j].key@ != key@,
        decreases entries.len() - i,
    {
        if entries[i].key == wanted {
            return Some(i);
        }
        i += 1;
    }
    None
}

/// Removing the entry at `i` removes its key from the map and keeps the keys
/// distinct.
proof fn lemma_remove_entry(entries: Seq<Entry>, i: int)
    requires
        distinct_keys(entries),
        0 <= i < entries.len(),
    ensures
        distinct_keys(entries.remove(i)),
        entries_map(entries.remove(i)) == entries_map(entries).remove(entries[i].key@),
        entries_map(entries)[entries[i].key@] == entries[i].item,
{
    let rest = entries.remove(i);
    let gone = entries[i].key@;
    assert forall|q: Seq<char>| has_key(rest, q) <==> (has_key(entries, q) && q != gone) by {
        if has_key(rest, q) {
            let p = position(rest, q);
            if p < i {
                assert(entries[p].key@ == q);
            } else {
                assert(entries[p + 1].key@ == q);
            }
        }
        if has_key(entries, q) && q != gone {
            let p = position(entries, q);
            if p < i {
                assert(rest[p].key@ == q);
            } else {
                assert(rest[p - 1].key@ == q);
            }
        }
    }
    assert forall|q: Seq<char>| has_key(rest, q) implies entries[position(entries, q)].item
        == rest[position(rest, q)].item by {
        let p = position(rest, q);
        if p < i {
            assert(entries[p].key@ == q);
        } else {
            assert(entries[p + 1].key@ == q);
        }
    }
    assert(entries_map(rest) =~= entries_map(entries).remove(gone));
    assert(has_key(entries, gone));
}

/// Appending an entry with a new key inserts it into the map and keeps the
/// keys distinct.
proof fn lemma_push_entry(entries: Seq<Entry>, entry: Entry)
    requires
        distinct_keys(entries),
        !has_key(entries, entry.key@),
    ensures
        distinct_keys(entries.push(entry)),
        entries_map(entries.push(entry)) == entries_map(entries).insert(entry.key@, entry.item),
{
    let more = entries.push(entry);
    let last = entries.len() as int;
    assert(more[last].key@ == entry.key@);
    assert forall|q: Seq<char>| has_key(more, q) <==> (has_key(entries, q) || q == entry.key@) by {
        if has_key(more, q) {
            let p = position(more, q);
            if p < last {
                assert(entries[p].key@ == q);
            }
        }
        if has_key(entries, q) {
            let p = position(entries, q);
            assert(more[p].key@ == q);
        }
    }
    assert forall|q: Seq<char>| has_key(entries, q) implies entries[position(entries, q)].item
        == more[position(more, q)].item by {
        let p = position(entries, q);
        assert(more[p].key@ == q);
    }
    assert(entries_map(more) =~= entries_map(entries).insert(entry.key@, entry.item));
}

/// The map has as many keys as there are entries.
proof fn lemma_domain_size(entries: Seq<Entry>)
    requires
        distinct_keys(entries),
    ensures
        entries_map(entries).dom().finite(),
        entries_map(entries).dom().len() == entries.len(),
    decreases entries.len(),
{
    if entries.len() == 0 {
        assert(entries_map(entries).dom() =~= Set::<Seq<char>>::empty());
    } else {
        let last = entries.len() - 1;
        let front = entries.remove(last);
        lemma_remove_entry(entries, last);
        lemma_domain_size(front);
        assert(has_key(entries, entries[last].key@));
        assert(entries_map(entries).dom() =~= entries_map(front).dom().insert(entries[last].key@));
    }
}

} // verus!
