//! The mutable overlay of the value graph: arrays and dictionaries that can be
//! edited, element by element, through single-use slots.
use vstd::prelude::*;
use crate::fleece::{
    dict_wf,
    items_wf,
    keys_unique,
    stored_of,
    tree_wf,
    double_is_fraction,
    double_truncated,
    entries_of,
    first_index,
    lookup,
    lemma_entries_of,
    lemma_first_index,
    lemma_first_index_at,
    lemma_trees_of,
    tree_of,
    trees_of,
    Array,
    ArrayIterator,
    Dict,
    DictIterator,
    DictKey,
    Entry,
    Node,
    Tree,
    Value,
};

verus! {

/// How deep a mutable copy goes. Containers here never share storage, so
/// every policy gives a copy that is independent of its source; the policy
/// is kept for callers that pass it on to the engine.
#[derive(Clone, Copy, Debug, PartialEq, Eq, Structural)]
pub enum CopyFlags {
    /// Shallow copy of mutable values.
    Default,
    /// Deep copy of mutable values.
    Deep,
    /// Copies of immutable values too.
    CopyImmutables,
    /// Deep copy, immutable values included.
    DeepCopyImmutables,
}

/// Entries after storing a value under a key: the first entry with the key
/// takes the value; with no such entry, a new one is appended.
pub open spec fn dict_put(s: Seq<(Seq<char>, Tree)>, key: Seq<char>, t: Tree) -> Seq<
    (Seq<char>, Tree),
> {
    let i = first_index(s, key);
    if i >= 0 {
        s.update(i, (key, t))
    } else {
        s.push((key, t))
    }
}

/// Entries after removing a key: the first entry with the key goes; with no
/// such entry, nothing changes.
pub open spec fn dict_remove(s: Seq<(Seq<char>, Tree)>, key: Seq<char>) -> Seq<(Seq<char>, Tree)> {
    let i = first_index(s, key);
    if i >= 0 {
        s.remove(i)
    } else {
        s
    }
}

/// Finds the first entry with the given key.
fn find_entry(entries: &Vec<Entry>, key: &str) -> (r: Option<usize>)
    ensures
        match r {
            Some(i) => i < entries@.len() && first_index(entries_of(entries@), key@) == i,
            None => first_index(entries_of(entries@), key@) == -1,
        },
{
    proof { lemma_entries_of(entries@); }
    let ghost s = entries_of(entries@);
    let k = key.to_owned();
    let mut i: usize = 0;
    while i < entries.len()
        invariant
            k@ == key@,
            i <= entries@.len(),
            s == entries_of(entries@),
            s.len() == entries@.len(),
            forall|j: int|
                0 <= j < entries@.len() ==> #[trigger] s[j] == (entries@[j].key@, tree_of(
                    entries@[j].value,
                )),
            forall|j: int| 0 <= j < i ==> s[j].0 != key@,
        decreases entries@.len() - i,
    {
        if entries[i].key == k {
            proof { lemma_first_index_at(s, key@, i as int); }
            return Some(i);
        }
        i = i + 1;
    }
    proof {
        lemma_first_index(s, key@);
        if first_index(s, key@) >= 0 {
            assert(s[first_index(s, key@)].0 != key@);
        }
    }
    None
}

/// Storing under a key keeps keys unique, and adds an entry exactly when the
/// key was absent.
pub proof fn lemma_dict_put(s: Seq<(Seq<char>, Tree)>, key: Seq<char>, t: Tree)
    requires
        keys_unique(s),
    ensures
        keys_unique(dict_put(s, key, t)),
        dict_put(s, key, t).len() == if first_index(s, key) >= 0 {
            s.len()
        } else {
            s.len() + 1
        },
{
    lemma_first_index(s, key);
    let i = first_index(s, key);
    if i >= 0 {
        assert(keys_unique(s.update(i, (key, t))));
    } else {
        assert(keys_unique(s.push((key, t))));
    }
}

/// Removing a key from entries with unique keys keeps them unique, leaves no
/// entry with that key, and drops one entry exactly when the key was there.
pub proof fn lemma_dict_remove(s: Seq<(Seq<char>, Tree)>, key: Seq<char>)
    requires
        keys_unique(s),
    ensures
        keys_unique(dict_remove(s, key)),
        first_index(dict_remove(s, key), key) == -1,
        dict_remove(s, key).len() == if first_index(s, key) >= 0 {
            s.len() - 1
        } else {
            s.len() as int
        },
{
    lemma_first_index(s, key);
    let i = first_index(s, key);
    let r = dict_remove(s, key);
    if i >= 0 {
        assert forall|a: int, b: int|
            0 <= a < r.len() && 0 <= b < r.len() && a != b implies r[a].0 != r[b].0 by {
            let a2 = if a < i {
                a
            } else {
                a + 1
            };
            let b2 = if b < i {
                b
            } else {
                b + 1
            };
            assert(r[a] == s[a2]);
            assert(r[b] == s[b2]);
        }
        assert forall|j: int| 0 <= j < r.len() implies r[j].0 != key by {
            let j2 = if j < i {
                j
            } else {
                j + 1
            };
            assert(r[j] == s[j2]);
        }
    }
    lemma_first_index(r, key);
    if first_index(r, key) >= 0 {
        assert(r[first_index(r, key)].0 != key);
    }
}

/// The first entry with a key, after one more entry is appended.
pub proof fn lemma_first_index_push(s: Seq<(Seq<char>, Tree)>, e: (Seq<char>, Tree), key: Seq<char>)
    ensures
        first_index(s.push(e), key) == if first_index(s, key) >= 0 {
            first_index(s, key)
        } else if e.0 == key {
            s.len() as int
        } else {
            -1
        },
{
    lemma_first_index(s, key);
    let t = s.push(e);
    let f = first_index(s, key);
    if f >= 0 {
        assert(t[f] == s[f]);
        assert forall|j: int| 0 <= j < f implies t[j].0 != key by {
            assert(t[j] == s[j]);
        }
        lemma_first_index_at(t, key, f);
    } else if e.0 == key {
        assert forall|j: int| 0 <= j < s.len() implies t[j].0 != key by {
            assert(t[j] == s[j]);
        }
        lemma_first_index_at(t, key, s.len() as int);
    } else {
        lemma_first_index(t, key);
        let g = first_index(t, key);
        if g >= 0 {
            if g < s.len() {
                assert(t[g] == s[g]);
            }
        }
    }
}

/// Entries after storing each value under its key, in order.
pub open spec fn put_all(s: Seq<(Seq<char>, Tree)>, keys: Seq<Seq<char>>, values: Seq<Tree>) -> Seq<
    (Seq<char>, Tree),
>
    decreases keys.len(),
{
    if keys.len() == 0 || values.len() == 0 {
        s
    } else {
        put_all(dict_put(s, keys[0], values[0]), keys.drop_first(), values.drop_first())
    }
}

/// Storing values under distinct keys, none of them present yet, adds one
/// entry per key: afterwards exactly those keys and the keys present before
/// have a value, each in one entry.
pub proof fn lemma_put_all(s: Seq<(Seq<char>, Tree)>, keys: Seq<Seq<char>>, values: Seq<Tree>)
    requires
        keys_unique(s),
        keys.no_duplicates(),
        values.len() == keys.len(),
        forall|i: int| 0 <= i < keys.len() ==> lookup(s, #[trigger] keys[i]) is None,
    ensures
        keys_unique(put_all(s, keys, values)),
        put_all(s, keys, values).len() == s.len() + keys.len(),
        forall|k: Seq<char>|
            #![trigger lookup(put_all(s, keys, values), k)]
            (lookup(put_all(s, keys, values), k) is Some) <==> (lookup(s, k) is Some
                || keys.contains(k)),
    decreases keys.len(),
{
    if keys.len() > 0 {
        let k0 = keys[0];
        let t = dict_put(s, k0, values[0]);
        let rest = keys.drop_first();
        lemma_dict_put(s, k0, values[0]);
        assert(t == s.push((k0, values[0])));
        assert forall|i: int| 0 <= i < rest.len() implies lookup(t, #[trigger] rest[i]) is None by {
            assert(rest[i] == keys[i + 1]);
            assert(keys[0] != keys[i + 1]);
            lemma_first_index_push(s, (k0, values[0]), rest[i]);
        }
        assert(rest.no_duplicates()) by {
            assert forall|a: int, b: int|
                0 <= a < rest.len() && 0 <= b < rest.len() && a != b implies rest[a] != rest[b] by {
                assert(rest[a] == keys[a + 1]);
                assert(rest[b] == keys[b + 1]);
            }
        }
        lemma_put_all(t, rest, values.drop_first());
        assert(put_all(s, keys, values) == put_all(t, rest, values.drop_first()));
        assert forall|k: Seq<char>|
            #![trigger lookup(put_all(s, keys, values), k)]
            (lookup(put_all(s, keys, values), k) is Some) <==> (lookup(s, k) is Some
                || keys.contains(k)) by {
            assert(lookup(put_all(t, rest, values.drop_first()), k) is Some <==> (lookup(t, k) is Some || rest.contains(k)));
            lemma_first_index_push(s, (k0, values[0]), k);
            if k == k0 {
                assert(keys[0] == k);
            }
            if keys.contains(k) {
                let w = choose|w: int| 0 <= w < keys.len() && keys[w] == k;
                if w > 0 {
                    assert(rest[w - 1] == k);
                }
            }
            if rest.contains(k) {
                let w = choose|w: int| 0 <= w < rest.len() && rest[w] == k;
                assert(keys[w + 1] == k);
            }
        }
    } else {
        assert(put_all(s, keys, values) == s);
        assert forall|k: Seq<char>|
            #![trigger lookup(put_all(s, keys, values), k)]
            (lookup(put_all(s, keys, values), k) is Some) <==> (lookup(s, k) is Some
                || keys.contains(k)) by {
            assert(!keys.contains(k));
        }
    }
}

/// A mutable array. `is_changed` tells whether it has been edited since it
/// was made.
#[derive(Debug)]
pub struct MutableArray {
    items: Vec<Node>,
    changed: bool,
}

impl View for MutableArray {
    type V = Seq<Tree>;

    closed spec fn view(&self) -> Seq<Tree> {
        trees_of(self.items@)
    }
}

impl MutableArray {
    /// The items are well formed.
    #[verifier::type_invariant]
    closed spec fn inv(&self) -> bool {
        items_wf(self@)
    }

    /// Whether the array has been edited since it was made.
    pub closed spec fn changed(&self) -> bool {
        self.changed
    }

    /// A new, empty array.
    pub fn new() -> (r: MutableArray)
        ensures
            r@ == Seq::<Tree>::empty(),
            !r.changed(),
    {
        let r = MutableArray { items: Vec::new(), changed: false };
        assert(r@ =~= Seq::<Tree>::empty());
        r
    }

    /// A mutable copy of an array; a copy of no array is empty.
    pub fn from_array(array: &Array) -> (r: MutableArray)
        ensures
            r@ == (match array@ {
                Some(s) => s,
                None => Seq::empty(),
            }),
            !r.changed(),
    {
        MutableArray::from_array_(array, CopyFlags::Default)
    }

    /// A mutable copy of an array, made with the given copy policy.
    pub fn from_array_(array: &Array, flags: CopyFlags) -> (r: MutableArray)
        ensures
            r@ == (match array@ {
                Some(s) => s,
                None => Seq::empty(),
            }),
            !r.changed(),
    {
        let items = array.copy_items();
        MutableArray { items, changed: false }
    }

    /// Whether the array has been edited since it was made.
    pub fn is_changed(&self) -> (r: bool)
        ensures
            r == self.changed(),
    {
        self.changed
    }

    /// A slot for the item at an index, which must be in range.
    pub fn at<'s>(&'s mut self, index: u32) -> (r: Slot<'s>)
        requires
            (index as int) < old(self)@.len(),
        ensures
            r matches Slot::Item { array, index: i } && *array == *old(self) && i == index
                && *final(self) == *final(array),
    {
        proof { lemma_trees_of(self.items@); }
        Slot::Item { array: self, index: index as usize }
    }

    /// Appends a null item and gives a slot for it.
    pub fn append<'s>(&'s mut self) -> (r: Slot<'s>)
        requires
            old(self)@.len() < u32::MAX,
        ensures
            r matches Slot::Item { array, index: i } && array@ == old(self)@.push(Tree::Null)
                && array.changed() && i == old(self)@.len() && *final(self) == *final(array),
    {
        proof {
            use_type_invariant(&*self);
            lemma_trees_of(self.items@);
        }
        let n = self.items.len();
        let mut items: Vec<Node> = Vec::new();
        std::mem::swap(&mut items, &mut self.items);
        items.push(Node::Null);
        proof {
            lemma_trees_of(items@);
            assert(trees_of(items@) =~= old(self)@.push(Tree::Null));
        }
        self.items = items;
        self.changed = true;
        Slot::Item { array: self, index: n }
    }

    /// Inserts a null item at an index, which may be the length.
    pub fn insert(&mut self, index: u32)
        requires
            (index as int) <= old(self)@.len(),
        ensures
            final(self)@ == old(self)@.insert(index as int, Tree::Null),
            final(self).changed(),
    {
        proof {
            use_type_invariant(&*self);
            lemma_trees_of(self.items@);
        }
        let mut items: Vec<Node> = Vec::new();
        std::mem::swap(&mut items, &mut self.items);
        items.insert(index as usize, Node::Null);
        proof {
            lemma_trees_of(items@);
            assert(trees_of(items@) =~= old(self)@.insert(index as int, Tree::Null));
        }
        self.items = items;
        self.changed = true;
    }

    /// Removes the item at an index; an index out of range changes nothing.
    pub fn remove(&mut self, index: u32)
        ensures
            (index as int) < old(self)@.len() ==> final(self)@ == old(self)@.remove(index as int)
                && final(self).changed(),
            (index as int) >= old(self)@.len() ==> *final(self) == *old(self),
    {
        proof {
            use_type_invariant(&*self);
            lemma_trees_of(self.items@);
        }
        if (index as usize) < self.items.len() {
            let mut items: Vec<Node> = Vec::new();
            std::mem::swap(&mut items, &mut self.items);
            items.remove(index as usize);
            proof {
                lemma_trees_of(items@);
                assert(trees_of(items@) =~= old(self)@.remove(index as int));
            }
            self.items = items;
            self.changed = true;
        }
    }

    /// Removes every item; an empty array is left unchanged.
    pub fn remove_all(&mut self)
        ensures
            final(self)@ == Seq::<Tree>::empty(),
            old(self)@.len() > 0 ==> final(self).changed(),
            old(self)@.len() == 0 ==> *final(self) == *old(self),
    {
        proof { lemma_trees_of(self.items@); }
        if self.items.len() > 0 {
            self.items = Vec::new();
            self.changed = true;
        }
        proof {
            lemma_trees_of(self.items@);
            assert(trees_of(self.items@) =~= Seq::<Tree>::empty());
        }
    }

    /// A view of the array.
    pub fn as_array(&self) -> (r: Array<'_>)
        ensures
            r@ == Some(self@),
    {
        proof { use_type_invariant(self); }
        Array::wrap(&self.items)
    }

    /// The array as a value.
    pub fn as_value(&self) -> (r: Value<'_>)
        ensures
            r@ == Some(Tree::Array(self@)),
    {
        self.as_array().as_value()
    }

    /// The number of items.
    pub fn count(&self) -> (r: u32)
        ensures
            r == self@.len() as u32,
    {
        self.as_array().count()
    }

    /// True when there are no items.
    pub fn empty(&self) -> (r: bool)
        ensures
            r == (self@.len() == 0),
    {
        self.as_array().empty()
    }

    /// The item at an index; no value out of range.
    pub fn get(&self, index: u32) -> (r: Value<'_>)
        ensures
            r@ == (if (index as int) < self@.len() {
                Some(self@[index as int])
            } else {
                None
            }),
    {
        self.as_array().get(index as usize)
    }

    /// A fresh iterator over the items.
    pub fn iter(&self) -> (r: ArrayIterator<'_>)
        ensures
            r.all() == self@,
            r.spec_pos() == 0,
    {
        self.as_array().iter()
    }

    /// Deep equality of content.
    pub fn equals(&self, other: &MutableArray) -> (r: bool)
        ensures
            r == (self@ == other@),
    {
        self.as_array().equals(&other.as_array())
    }

    fn set(&mut self, index: usize, n: Node)
        requires
            index < old(self)@.len(),
            tree_wf(tree_of(n)),
        ensures
            final(self)@ == old(self)@.update(index as int, tree_of(n)),
            final(self).changed(),
    {
        proof {
            use_type_invariant(&*self);
            lemma_trees_of(self.items@);
        }
        let mut items: Vec<Node> = Vec::new();
        std::mem::swap(&mut items, &mut self.items);
        items.set(index, n);
        proof {
            lemma_trees_of(items@);
            assert(trees_of(items@) =~= old(self)@.update(index as int, tree_of(n)));
        }
        self.items = items;
        self.changed = true;
    }
}

impl<'d> Array<'d> {
    /// A mutable copy of this array.
    pub fn mutable_copy(&self) -> (r: MutableArray)
        ensures
            r@ == (match self@ {
                Some(s) => s,
                None => Seq::empty(),
            }),
            !r.changed(),
    {
        MutableArray::from_array(self)
    }
}

/// A mutable dictionary, or no dictionary (what a copy of no dictionary, or
/// `default()`, gives). `is_changed` tells whether it has been edited since it
/// was made. Storing a value into no dictionary makes it a dictionary.
#[derive(Debug)]
pub struct MutableDict {
    entries: Vec<Entry>,
    present: bool,
    changed: bool,
}

impl View for MutableDict {
    type V = Seq<(Seq<char>, Tree)>;

    /// The entries; none for no dictionary.
    closed spec fn view(&self) -> Seq<(Seq<char>, Tree)> {
        entries_of(self.entries@)
    }
}

impl MutableDict {
    /// Keys are unique and values well formed; no dictionary has no entries.
    #[verifier::type_invariant]
    closed spec fn inv(&self) -> bool {
        &&& dict_wf(self@)
        &&& !self.present ==> self.entries@.len() == 0
    }

    /// Whether the dictionary has been edited since it was made.
    pub closed spec fn changed(&self) -> bool {
        self.changed
    }

    /// Whether this is no dictionary at all.
    pub closed spec fn spec_is_none(&self) -> bool {
        !self.present
    }

    /// The dictionary as its views see it: its entries, or none for no
    /// dictionary.
    pub open spec fn dict_view(&self) -> Option<Seq<(Seq<char>, Tree)>> {
        if self.spec_is_none() {
            None
        } else {
            Some(self@)
        }
    }

    /// A new, empty dictionary.
    pub fn new() -> (r: MutableDict)
        ensures
            r@ == Seq::<(Seq<char>, Tree)>::empty(),
            !r.spec_is_none(),
            keys_unique(r@),
            !r.changed(),
    {
        let r = MutableDict { entries: Vec::new(), present: true, changed: false };
        assert(r@ =~= Seq::<(Seq<char>, Tree)>::empty());
        r
    }

    /// True when this is no dictionary at all.
    pub fn is_none(&self) -> (r: bool)
        ensures
            r == self.spec_is_none(),
    {
        !self.present
    }

    /// A mutable copy of a dictionary, equal to it; a copy of no dictionary
    /// is no dictionary.
    pub fn from_dict(dict: &Dict) -> (r: MutableDict)
        ensures
            r.dict_view() == dict@,
            keys_unique(r@),
            !r.changed(),
    {
        MutableDict::from_dict_(dict, CopyFlags::Default)
    }

    /// A mutable copy of a dictionary, made with the given copy policy and
    /// equal to it; a copy of no dictionary is no dictionary.
    pub fn from_dict_(dict: &Dict, flags: CopyFlags) -> (r: MutableDict)
        ensures
            r.dict_view() == dict@,
            keys_unique(r@),
            !r.changed(),
    {
        let entries = dict.copy_entries();
        let present = !dict.is_none();
        proof { lemma_entries_of(entries@); }
        MutableDict { entries, present, changed: false }
    }

    /// Whether the dictionary has been edited since it was made.
    pub fn is_changed(&self) -> (r: bool)
        ensures
            r == self.changed(),
    {
        self.changed
    }

    /// A slot for the value under a key.
    pub fn at<'s>(&'s mut self, key: &str) -> (r: Slot<'s>)
        ensures
            r matches Slot::Entry { dict, key: k } && *dict == *old(self) && k@ == key@
                && *final(self) == *final(dict),
            keys_unique(old(self)@),
    {
        proof { use_type_invariant(&*self); }
        Slot::Entry { dict: self, key: key.to_owned() }
    }

    /// Removes a key; afterwards no entry has it. An absent key changes
    /// nothing.
    pub fn remove(&mut self, key: &str)
        ensures
            final(self)@ == dict_remove(old(self)@, key@),
            final(self).spec_is_none() == old(self).spec_is_none(),
            lookup(final(self)@, key@) is None,
            keys_unique(final(self)@),
            first_index(old(self)@, key@) >= 0 ==> final(self).changed() && final(self)@.len()
                == old(self)@.len() - 1,
            first_index(old(self)@, key@) < 0 ==> *final(self) == *old(self),
    {
        proof {
            use_type_invariant(&*self);
            lemma_entries_of(self.entries@);
            lemma_dict_remove(self@, key@);
        }
        let found = find_entry(&self.entries, key);
        if let Some(i) = found {
            let mut entries: Vec<Entry> = Vec::new();
            std::mem::swap(&mut entries, &mut self.entries);
            entries.remove(i);
            proof {
                lemma_entries_of(entries@);
                assert(entries_of(entries@) =~= old(self)@.remove(i as int));
                assert forall|j: int| 0 <= j < entries_of(entries@).len() implies tree_wf(
                    #[trigger] entries_of(entries@)[j].1,
                ) by {
                    if j >= i {
                        assert(entries_of(entries@)[j] == old(self)@[j + 1]);
                    } else {
                        assert(entries_of(entries@)[j] == old(self)@[j]);
                    }
                }
            }
            self.entries = entries;
            self.changed = true;
        }
    }

    /// Removes every entry; an empty dictionary is left unchanged.
    pub fn remove_all(&mut self)
        ensures
            final(self)@ == Seq::<(Seq<char>, Tree)>::empty(),
            final(self).spec_is_none() == old(self).spec_is_none(),
            keys_unique(final(self)@),
            old(self)@.len() > 0 ==> final(self).changed(),
            old(self)@.len() == 0 ==> *final(self) == *old(self),
    {
        proof { lemma_entries_of(self.entries@); }
        if self.entries.len() > 0 {
            self.entries = Vec::new();
            self.changed = true;
        }
        proof {
            lemma_entries_of(self.entries@);
            assert(entries_of(self.entries@) =~= Seq::<(Seq<char>, Tree)>::empty());
        }
    }

    /// A view of the dictionary; no dictionary for no dictionary.
    pub fn as_dict(&self) -> (r: Dict<'_>)
        ensures
            r@ == self.dict_view(),
            keys_unique(self@),
    {
        proof { use_type_invariant(self); }
        if self.present {
            Dict::wrap(&self.entries)
        } else {
            Dict::none()
        }
    }

    /// The dictionary as a value; no value for no dictionary.
    pub fn as_value(&self) -> (r: Value<'_>)
        ensures
            r@ == (match self.dict_view() {
                Some(s) => Some(Tree::Dict(s)),
                None => None,
            }),
    {
        self.as_dict().as_value()
    }

    /// The number of entries, each with its own key; 0 for no dictionary.
    pub fn count(&self) -> (r: u32)
        ensures
            r == self@.len() as u32,
            keys_unique(self@),
    {
        proof { use_type_invariant(self); }
        self.as_dict().count()
    }

    /// True when there are no entries.
    pub fn empty(&self) -> (r: bool)
        ensures
            r == (self@.len() == 0),
    {
        proof { use_type_invariant(self); }
        self.as_dict().empty()
    }

    /// The value under a key; no value when the key is absent.
    pub fn get(&self, key: &str) -> (r: Value<'_>)
        ensures
            r@ == lookup(self@, key@),
    {
        proof { use_type_invariant(self); }
        self.as_dict().get(key)
    }

    /// The value under a prepared key; no value when the key is absent.
    pub fn get_key(&self, key: &mut DictKey) -> (r: Value<'_>)
        ensures
            r@ == lookup(self@, old(key).key@),
            *final(key) == *old(key),
    {
        proof { use_type_invariant(self); }
        self.as_dict().get_key(key)
    }

    /// A fresh iterator over the entries; it gives each key once.
    pub fn iter(&self) -> (r: DictIterator<'_>)
        ensures
            r.all() == self@,
            keys_unique(r.all()),
            r.spec_pos() == 0,
    {
        proof { use_type_invariant(self); }
        self.as_dict().iter()
    }

    /// Deep equality of content; no dictionary equals only no dictionary.
    pub fn equals(&self, other: &MutableDict) -> (r: bool)
        ensures
            r == (self.dict_view() == other.dict_view()),
    {
        self.as_dict().equals(&other.as_dict())
    }

    fn put(&mut self, key: &str, n: Node)
        requires
            tree_wf(tree_of(n)),
        ensures
            final(self)@ == dict_put(old(self)@, key@, tree_of(n)),
            !final(self).spec_is_none(),
            keys_unique(final(self)@),
            final(self).changed(),
    {
        proof {
            use_type_invariant(&*self);
            lemma_entries_of(self.entries@);
            lemma_dict_put(self@, key@, tree_of(n));
            lemma_first_index(self@, key@);
        }
        let found = find_entry(&self.entries, key);
        let mut entries: Vec<Entry> = Vec::new();
        std::mem::swap(&mut entries, &mut self.entries);
        match found {
            Some(i) => {
                entries.set(i, Entry { key: key.to_owned(), value: n });
                proof {
                    lemma_entries_of(entries@);
                    assert(entries_of(entries@) =~= old(self)@.update(i as int, (key@, tree_of(n))));
                    assert forall|j: int| 0 <= j < entries_of(entries@).len() implies tree_wf(
                        #[trigger] entries_of(entries@)[j].1,
                    ) by {
                        if j != i {
                            assert(entries_of(entries@)[j] == old(self)@[j]);
                        }
                    }
                }
            },
            None => {
                entries.push(Entry { key: key.to_owned(), value: n });
                proof {
                    lemma_entries_of(entries@);
                    assert(entries_of(entries@) =~= old(self)@.push((key@, tree_of(n))));
                    assert forall|j: int| 0 <= j < entries_of(entries@).len() implies tree_wf(
                        #[trigger] entries_of(entries@)[j].1,
                    ) by {
                        if j < old(self)@.len() {
                            assert(entries_of(entries@)[j] == old(self)@[j]);
                        }
                    }
                }
            },
        }
        self.present = true;
        self.entries = entries;
        self.changed = true;
    }
}

impl Default for MutableDict {
    /// No dictionary.
    fn default() -> (r: MutableDict)
        ensures
            r.spec_is_none(),
            r@ == Seq::<(Seq<char>, Tree)>::empty(),
            !r.changed(),
    {
        let r = MutableDict { entries: Vec::new(), present: false, changed: false };
        assert(r@ =~= Seq::<(Seq<char>, Tree)>::empty());
        r
    }
}

impl<'d> Dict<'d> {
    /// A mutable copy of this dictionary, equal to it; a copy of no
    /// dictionary is no dictionary.
    pub fn mutable_copy(&self) -> (r: MutableDict)
        ensures
            r.dict_view() == self@,
            keys_unique(r@),
            !r.changed(),
    {
        MutableDict::from_dict(self)
    }
}

/// After a store of `t` into an array item: the item takes `t`, and the array
/// counts as changed.
pub open spec fn item_stored(before: MutableArray, after: MutableArray, index: usize, t: Tree) -> bool {
    after@ == before@.update(index as int, t) && after.changed()
}

/// After a store of `t` under a dictionary key: the dictionary stores `t`
/// under the key, and counts as changed.
pub open spec fn entry_stored(before: MutableDict, after: MutableDict, key: Seq<char>, t: Tree) -> bool {
    after@ == dict_put(before@, key, t) && !after.spec_is_none() && keys_unique(after@)
        && after.changed()
}

/// A single-use capability to store one value into one element of a mutable
/// array or dictionary. Storing consumes it.
#[derive(Debug)]
pub enum Slot<'s> {
    Item { array: &'s mut MutableArray, index: usize },
    Entry { dict: &'s mut MutableDict, key: String },
}

impl<'s> Slot<'s> {
    /// The slot's element exists (an array index is in range).
    pub open spec fn valid(&self) -> bool {
        match self {
            Slot::Item { array, index } => (*index as int) < array@.len(),
            Slot::Entry { .. } => true,
        }
    }

    fn put(self, n: Node)
        requires
            self.valid(),
            tree_wf(tree_of(n)),
        ensures
            match self {
                Slot::Item { array, index } => item_stored(*array, *final(array), index, tree_of(n)),
                Slot::Entry { dict, key } => entry_stored(*dict, *final(dict), key@, tree_of(n)),
            },
    {
        match self {
            Slot::Item { array, index } => array.set(index, n),
            Slot::Entry { dict, key } => dict.put(key.as_str(), n),
        }
    }

    /// Stores null.
    pub fn put_null(self)
        requires
            self.valid(),
        ensures
            match self {
                Slot::Item { array, index } => item_stored(*array, *final(array), index, Tree::Null),
                Slot::Entry { dict, key } => entry_stored(*dict, *final(dict), key@, Tree::Null),
            },
    {
        self.put(Node::Null)
    }

    /// Stores a boolean.
    pub fn put_bool(self, value: bool)
        requires
            self.valid(),
        ensures
            match self {
                Slot::Item { array, index } => item_stored(*array, *final(array), index, Tree::Bool(value)),
                Slot::Entry { dict, key } => entry_stored(*dict, *final(dict), key@, Tree::Bool(value)),
            },
    {
        self.put(Node::Bool(value))
    }

    /// Stores an integer.
    pub fn put_i64(self, value: i64)
        requires
            self.valid(),
        ensures
            match self {
                Slot::Item { array, index } => item_stored(*array, *final(array), index, Tree::Int(value as int)),
                Slot::Entry { dict, key } => entry_stored(*dict, *final(dict), key@, Tree::Int(value as int)),
            },
    {
        self.put(Node::Int(value))
    }

    /// Stores an unsigned integer.
    pub fn put_u64(self, value: u64)
        requires
            self.valid(),
        ensures
            match self {
                Slot::Item { array, index } => item_stored(*array, *final(array), index, Tree::Int(value as int)),
                Slot::Entry { dict, key } => entry_stored(*dict, *final(dict), key@, Tree::Int(value as int)),
            },
    {
        if value <= 0x7fff_ffff_ffff_ffffu64 {
            self.put(Node::Int(value as i64))
        } else {
            self.put(Node::UInt(value))
        }
    }

    /// Stores a non-integral number, given as its IEEE-754 binary64 bit
    /// pattern and its value truncated toward zero.
    pub fn put_double(self, bits: u64, truncated: i64)
        requires
            self.valid(),
            double_is_fraction(bits),
            truncated as int == double_truncated(bits),
        ensures
            match self {
                Slot::Item { array, index } => item_stored(*array, *final(array), index, Tree::Double(bits, truncated)),
                Slot::Entry { dict, key } => entry_stored(*dict, *final(dict), key@, Tree::Double(bits, truncated)),
            },
    {
        self.put(Node::Double { bits, truncated })
    }

    /// Stores a string.
    pub fn put_string(self, value: &str)
        requires
            self.valid(),
        ensures
            match self {
                Slot::Item { array, index } => item_stored(*array, *final(array), index, Tree::Str(value@)),
                Slot::Entry { dict, key } => entry_stored(*dict, *final(dict), key@, Tree::Str(value@)),
            },
    {
        self.put(Node::Str(value.to_owned()))
    }

    /// Stores binary data.
    pub fn put_data(self, value: &[u8])
        requires
            self.valid(),
        ensures
            match self {
                Slot::Item { array, index } => item_stored(*array, *final(array), index, Tree::Data(value@)),
                Slot::Entry { dict, key } => entry_stored(*dict, *final(dict), key@, Tree::Data(value@)),
            },
    {
        self.put(Node::Data(crate::fleece::copy_bytes(value)))
    }

    /// Stores a copy of a value; storing no value stores null.
    pub fn put_value(self, value: &Value)
        requires
            self.valid(),
        ensures
            match self {
                Slot::Item { array, index } => item_stored(
                    *array,
                    *final(array),
                    index,
                    stored_of(value@),
                ),
                Slot::Entry { dict, key } => entry_stored(
                    *dict,
                    *final(dict),
                    key@,
                    stored_of(value@),
                ),
            },
    {
        let n = value.to_node();
        self.put(n)
    }
}

} // verus!
