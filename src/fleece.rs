//! The self-describing value graph: a decoded tree of values owned by a root
//! container, read through views (`Value`, `Array`, `Dict`) that borrow from
//! the container and so cannot outlive it.
use vstd::prelude::*;

verus! {

broadcast use vstd::std_specs::vec::axiom_vec_index_decreases;

/// The type of a value. `Undefined` is the type of no value at all.
#[derive(Clone, Copy, Debug, PartialEq, Eq, Structural)]
pub enum ValueType {
    Undefined,
    Null,
    Bool,
    Number,
    String,
    Data,
    Array,
    Dict,
}

impl ValueType {
    /// The engine's numeric code of each type: -1 for `Undefined`, then 0 to 6.
    pub open spec fn spec_code(self) -> i32 {
        match self {
            ValueType::Undefined => -1i32,
            ValueType::Null => 0,
            ValueType::Bool => 1,
            ValueType::Number => 2,
            ValueType::String => 3,
            ValueType::Data => 4,
            ValueType::Array => 5,
            ValueType::Dict => 6,
        }
    }

    /// The type with the given numeric code, if there is one.
    pub fn from_i32(code: i32) -> (r: Option<ValueType>)
        ensures
            r is Some <==> -1 <= code <= 6,
            r matches Some(t) ==> t.spec_code() == code,
    {
        match code {
            -1 => Some(ValueType::Undefined),
            0 => Some(ValueType::Null),
            1 => Some(ValueType::Bool),
            2 => Some(ValueType::Number),
            3 => Some(ValueType::String),
            4 => Some(ValueType::Data),
            5 => Some(ValueType::Array),
            6 => Some(ValueType::Dict),
            _ => None,
        }
    }
}

/// Whether encoded data comes from a trusted source (and may skip validation).
#[derive(Clone, Copy, Debug, PartialEq, Eq, Structural)]
pub enum Trust {
    Untrusted,
    Trusted,
}

/// A point in time, in milliseconds since the Unix epoch.
#[derive(Clone, Copy, Debug, PartialEq, Eq, Structural)]
pub struct Timestamp(pub i64);

/// One entry of a dictionary.
#[derive(Debug)]
pub struct Entry {
    pub key: String,
    pub value: Node,
}

/// A decoded value.
#[derive(Debug)]
pub enum Node {
    Null,
    Bool(bool),
    /// A signed integer.
    Int(i64),
    /// An unsigned integer, for values above `i64::MAX`.
    UInt(u64),
    /// A number that is not integral: its IEEE-754 binary64 bit pattern, and
    /// its value truncated toward zero.
    Double { bits: u64, truncated: i64 },
    Str(String),
    Data(Vec<u8>),
    Array(Vec<Node>),
    Dict(Vec<Entry>),
}

/// Two to the power `n`.
pub open spec fn pow2(n: nat) -> nat
    decreases n,
{
    if n == 0 {
        1
    } else {
        2 * pow2((n - 1) as nat)
    }
}

/// The biased exponent field of an IEEE-754 binary64 bit pattern.
pub open spec fn double_exponent(bits: u64) -> int {
    (bits as int / pow2(52) as int) % 2048
}

/// The significand of an IEEE-754 binary64 bit pattern, with its implicit
/// leading bit for a normal number.
pub open spec fn double_significand(bits: u64) -> int {
    let fraction = bits as int % pow2(52) as int;
    if double_exponent(bits) == 0 {
        fraction
    } else {
        fraction + pow2(52)
    }
}

/// How far the significand's binary point lies to the left: the number's
/// magnitude is the significand divided by two to this power.
pub open spec fn double_shift(bits: u64) -> int {
    if double_exponent(bits) == 0 {
        1074
    } else {
        1075 - double_exponent(bits)
    }
}

/// Whether a bit pattern encodes a finite number that is not integral.
pub open spec fn double_is_fraction(bits: u64) -> bool {
    &&& double_exponent(bits) != 2047
    &&& double_shift(bits) > 0
    &&& double_significand(bits) % (pow2(double_shift(bits) as nat) as int) != 0
}

/// The number that a bit pattern encodes, truncated toward zero (for a
/// pattern with `double_is_fraction`).
pub open spec fn double_truncated(bits: u64) -> int {
    let magnitude = double_significand(bits) / (pow2(double_shift(bits) as nat) as int);
    if bits as int >= pow2(63) {
        -magnitude
    } else {
        magnitude
    }
}

/// The mathematical content of a value.
pub enum Tree {
    Null,
    Bool(bool),
    Int(int),
    Double(u64, i64),
    Str(Seq<char>),
    Data(Seq<u8>),
    Array(Seq<Tree>),
    Dict(Seq<(Seq<char>, Tree)>),
}

/// The content of a decoded value.
pub open spec fn tree_of(n: Node) -> Tree
    decreases n,
{
    match n {
        Node::Null => Tree::Null,
        Node::Bool(b) => Tree::Bool(b),
        Node::Int(i) => Tree::Int(i as int),
        Node::UInt(u) => Tree::Int(u as int),
        Node::Double { bits, truncated } => Tree::Double(bits, truncated),
        Node::Str(s) => Tree::Str(s@),
        Node::Data(d) => Tree::Data(d@),
        Node::Array(items) => Tree::Array(trees_of(items@)),
        Node::Dict(entries) => Tree::Dict(entries_of(entries@)),
    }
}

/// The contents of a sequence of values.
pub open spec fn trees_of(s: Seq<Node>) -> Seq<Tree>
    decreases s,
{
    if s.len() == 0 {
        Seq::empty()
    } else {
        trees_of(s.drop_last()).push(tree_of(s.last()))
    }
}

/// The contents of a sequence of dictionary entries.
pub open spec fn entries_of(s: Seq<Entry>) -> Seq<(Seq<char>, Tree)>
    decreases s,
{
    if s.len() == 0 {
        Seq::empty()
    } else {
        entries_of(s.drop_last()).push((s.last().key@, tree_of(s.last().value)))
    }
}

pub proof fn lemma_trees_of(s: Seq<Node>)
    ensures
        trees_of(s).len() == s.len(),
        forall|i: int| 0 <= i < s.len() ==> #[trigger] trees_of(s)[i] == tree_of(s[i]),
    decreases s.len(),
{
    if s.len() > 0 {
        lemma_trees_of(s.drop_last());
        assert forall|i: int| 0 <= i < s.len() implies #[trigger] trees_of(s)[i] == tree_of(
            s[i],
        ) by {
            if i < s.len() - 1 {
                assert(s.drop_last()[i] == s[i]);
            }
        }
    }
}

pub proof fn lemma_entries_of(s: Seq<Entry>)
    ensures
        entries_of(s).len() == s.len(),
        forall|i: int|
            0 <= i < s.len() ==> #[trigger] entries_of(s)[i] == (s[i].key@, tree_of(s[i].value)),
    decreases s.len(),
{
    if s.len() > 0 {
        lemma_entries_of(s.drop_last());
        assert forall|i: int| 0 <= i < s.len() implies #[trigger] entries_of(s)[i] == (
            s[i].key@,
            tree_of(s[i].value),
        ) by {
            if i < s.len() - 1 {
                assert(s.drop_last()[i] == s[i]);
            }
        }
    }
}

/// The type of a value, or of no value.
pub open spec fn type_of(t: Option<Tree>) -> ValueType {
    match t {
        None => ValueType::Undefined,
        Some(Tree::Null) => ValueType::Null,
        Some(Tree::Bool(_)) => ValueType::Bool,
        Some(Tree::Int(_)) => ValueType::Number,
        Some(Tree::Double(_, _)) => ValueType::Number,
        Some(Tree::Str(_)) => ValueType::String,
        Some(Tree::Data(_)) => ValueType::Data,
        Some(Tree::Array(_)) => ValueType::Array,
        Some(Tree::Dict(_)) => ValueType::Dict,
    }
}

/// Whether a value is an integer.
pub open spec fn is_integer_tree(t: Option<Tree>) -> bool {
    t matches Some(Tree::Int(_))
}

/// The signed integer projection of a value: an integer as the 64-bit
/// two's-complement value that holds it, a non-integral number truncated
/// toward zero, a boolean as 0 or 1, anything else 0.
pub open spec fn i64_of(t: Option<Tree>) -> i64 {
    match t {
        Some(Tree::Int(n)) => n as i64,
        Some(Tree::Double(_, tr)) => tr,
        Some(Tree::Bool(b)) => if b { 1 } else { 0 },
        _ => 0,
    }
}

/// The unsigned integer projection of a value: the signed projection as an
/// unsigned 64-bit value, anything but a number or boolean 0.
pub open spec fn u64_of(t: Option<Tree>) -> u64 {
    match t {
        Some(Tree::Int(n)) => n as u64,
        Some(Tree::Double(_, tr)) => tr as u64,
        Some(Tree::Bool(b)) => if b { 1 } else { 0 },
        _ => 0,
    }
}

/// The boolean projection of a value: no value, null and `false` are false,
/// a number is true when its integer projection is not zero, and anything
/// else is true.
pub open spec fn bool_of(t: Option<Tree>) -> bool {
    match t {
        None => false,
        Some(Tree::Null) => false,
        Some(Tree::Bool(b)) => b,
        Some(Tree::Int(n)) => n != 0,
        Some(Tree::Double(_, tr)) => tr != 0,
        _ => true,
    }
}

/// The index of the first entry with a key, or -1 when there is none.
pub open spec fn first_index(s: Seq<(Seq<char>, Tree)>, key: Seq<char>) -> int
    decreases s.len(),
{
    if s.len() == 0 {
        -1
    } else if s[0].0 == key {
        0
    } else {
        let i = first_index(s.drop_first(), key);
        if i < 0 {
            -1
        } else {
            i + 1
        }
    }
}

/// The value stored under a key: that of the first entry with the key.
pub open spec fn lookup(s: Seq<(Seq<char>, Tree)>, key: Seq<char>) -> Option<Tree> {
    let i = first_index(s, key);
    if i >= 0 {
        Some(s[i].1)
    } else {
        None
    }
}

/// `first_index` gives the first entry with the key, or -1 when no entry has it.
pub proof fn lemma_first_index(s: Seq<(Seq<char>, Tree)>, key: Seq<char>)
    ensures
        -1 <= first_index(s, key) < s.len(),
        first_index(s, key) >= 0 ==> s[first_index(s, key)].0 == key,
        forall|j: int|
            0 <= j < s.len() && (first_index(s, key) < 0 || j < first_index(s, key)) ==> s[j].0
                != key,
    decreases s.len(),
{
    if s.len() > 0 && s[0].0 != key {
        lemma_first_index(s.drop_first(), key);
        assert forall|j: int|
            0 <= j < s.len() && (first_index(s, key) < 0 || j < first_index(s, key)) implies s[j].0
            != key by {
            if j > 0 {
                assert(s[j] == s.drop_first()[j - 1]);
            }
        }
    }
}

/// An entry with the key, and none before it, is the first entry with the key.
pub proof fn lemma_first_index_at(s: Seq<(Seq<char>, Tree)>, key: Seq<char>, i: int)
    requires
        0 <= i < s.len(),
        s[i].0 == key,
        forall|j: int| 0 <= j < i ==> s[j].0 != key,
    ensures
        first_index(s, key) == i,
{
    lemma_first_index(s, key);
    let f = first_index(s, key);
    if f < 0 {
        assert(s[i].0 != key);
    } else if f < i {
        assert(s[f].0 != key);
    } else if f > i {
        assert(s[i].0 != key);
    }
}

/// No two entries share a key.
pub open spec fn keys_unique(s: Seq<(Seq<char>, Tree)>) -> bool {
    forall|i: int, j: int| 0 <= i < s.len() && 0 <= j < s.len() && i != j ==> s[i].0 != s[j].0
}

/// A value is well formed when no dictionary in it, at any depth, has two
/// entries with one key (as no decoded dictionary has).
pub open spec fn tree_wf(t: Tree) -> bool
    decreases t,
{
    match t {
        Tree::Array(items) => trees_wf(items),
        Tree::Dict(entries) => keys_unique(entries) && entry_trees_wf(entries),
        _ => true,
    }
}

/// Every value of a sequence is well formed.
pub open spec fn trees_wf(s: Seq<Tree>) -> bool
    decreases s,
{
    if s.len() == 0 {
        true
    } else {
        trees_wf(s.drop_last()) && tree_wf(s.last())
    }
}

/// Every value of a sequence of entries is well formed.
pub open spec fn entry_trees_wf(s: Seq<(Seq<char>, Tree)>) -> bool
    decreases s,
{
    if s.len() == 0 {
        true
    } else {
        entry_trees_wf(s.drop_last()) && tree_wf(s.last().1)
    }
}

/// The items of a well-formed array.
pub open spec fn items_wf(s: Seq<Tree>) -> bool {
    forall|i: int| 0 <= i < s.len() ==> tree_wf(#[trigger] s[i])
}

/// The entries of a well-formed dictionary: unique keys, well-formed values.
pub open spec fn dict_wf(s: Seq<(Seq<char>, Tree)>) -> bool {
    keys_unique(s) && forall|i: int| 0 <= i < s.len() ==> tree_wf(#[trigger] s[i].1)
}

pub proof fn lemma_trees_wf(s: Seq<Tree>)
    ensures
        trees_wf(s) == items_wf(s),
    decreases s.len(),
{
    if s.len() > 0 {
        lemma_trees_wf(s.drop_last());
        assert(forall|i: int| 0 <= i < s.len() - 1 ==> s.drop_last()[i] == s[i]);
    }
}

pub proof fn lemma_entry_trees_wf(s: Seq<(Seq<char>, Tree)>)
    ensures
        entry_trees_wf(s) == (forall|i: int| 0 <= i < s.len() ==> tree_wf(#[trigger] s[i].1)),
    decreases s.len(),
{
    if s.len() > 0 {
        lemma_entry_trees_wf(s.drop_last());
        assert(forall|i: int| 0 <= i < s.len() - 1 ==> s.drop_last()[i] == s[i]);
    }
}

/// An array value is well formed exactly when its items are, and a
/// dictionary value exactly when its entries are.
pub proof fn lemma_tree_wf(t: Tree)
    ensures
        t matches Tree::Array(s) ==> (tree_wf(t) == items_wf(s)),
        t matches Tree::Dict(s) ==> (tree_wf(t) == dict_wf(s)),
{
    match t {
        Tree::Array(s) => lemma_trees_wf(s),
        Tree::Dict(s) => lemma_entry_trees_wf(s),
        _ => {},
    }
}

/// Copies a decoded value.
pub fn copy_node(n: &Node) -> (r: Node)
    ensures
        tree_of(r) == tree_of(*n),
    decreases n,
{
    match n {
        Node::Null => Node::Null,
        Node::Bool(b) => Node::Bool(*b),
        Node::Int(i) => Node::Int(*i),
        Node::UInt(u) => Node::UInt(*u),
        Node::Double { bits, truncated } => Node::Double { bits: *bits, truncated: *truncated },
        Node::Str(s) => Node::Str(s.clone()),
        Node::Data(d) => Node::Data(copy_bytes(d.as_slice())),
        Node::Array(items) => Node::Array(copy_nodes(items)),
        Node::Dict(entries) => Node::Dict(copy_entries(entries)),
    }
}

/// Copies a sequence of decoded values.
pub fn copy_nodes(items: &Vec<Node>) -> (r: Vec<Node>)
    ensures
        trees_of(r@) == trees_of(items@),
    decreases items,
{
    let mut r: Vec<Node> = Vec::new();
    let mut i: usize = 0;
    while i < items.len()
        invariant
            i <= items@.len(),
            r@.len() == i,
            forall|j: int| 0 <= j < i ==> tree_of(#[trigger] r@[j]) == tree_of(items@[j]),
        decreases items@.len() - i,
    {
        assert(decreases_to!(items => items[i as int]));
        let c = copy_node(&items[i]);
        r.push(c);
        i = i + 1;
    }
    proof {
        lemma_trees_of(r@);
        lemma_trees_of(items@);
        assert(trees_of(r@) =~= trees_of(items@));
    }
    r
}

/// Copies a sequence of dictionary entries.
pub fn copy_entries(entries: &Vec<Entry>) -> (r: Vec<Entry>)
    ensures
        entries_of(r@) == entries_of(entries@),
    decreases entries,
{
    let mut r: Vec<Entry> = Vec::new();
    let mut i: usize = 0;
    while i < entries.len()
        invariant
            i <= entries@.len(),
            r@.len() == i,
            forall|j: int|
                0 <= j < i ==> (#[trigger] r@[j]).key@ == entries@[j].key@ && tree_of(r@[j].value)
                    == tree_of(entries@[j].value),
        decreases entries@.len() - i,
    {
        assert(decreases_to!(entries => entries[i as int]));
        let value = copy_node(&entries[i].value);
        let key = entries[i].key.clone();
        r.push(Entry { key, value });
        i = i + 1;
    }
    proof {
        lemma_entries_of(r@);
        lemma_entries_of(entries@);
        assert(entries_of(r@) =~= entries_of(entries@));
    }
    r
}

/// Copies a byte string.
pub fn copy_bytes(d: &[u8]) -> (r: Vec<u8>)
    ensures
        r@ == d@,
{
    let mut r: Vec<u8> = Vec::new();
    let mut i: usize = 0;
    while i < d.len()
        invariant
            i <= d@.len(),
            r@ == d@.subrange(0, i as int),
        decreases d@.len() - i,
    {
        r.push(d[i]);
        i = i + 1;
        assert(r@ =~= d@.subrange(0, i as int));
    }
    assert(r@ =~= d@);
    r
}


/// Whether two byte strings are equal.
fn bytes_equal(a: &[u8], b: &[u8]) -> (r: bool)
    ensures
        r == (a@ == b@),
{
    if a.len() != b.len() {
        return false;
    }
    let mut i: usize = 0;
    while i < a.len()
        invariant
            a@.len() == b@.len(),
            i <= a@.len(),
            forall|j: int| 0 <= j < i ==> a@[j] == b@[j],
        decreases a@.len() - i,
    {
        if a[i] != b[i] {
            return false;
        }
        i = i + 1;
    }
    assert(a@ =~= b@);
    true
}

/// Whether two decoded values have the same content.
pub fn nodes_equal(a: &Node, b: &Node) -> (r: bool)
    ensures
        r == (tree_of(*a) == tree_of(*b)),
    decreases a,
{
    match (a, b) {
        (Node::Null, Node::Null) => true,
        (Node::Bool(x), Node::Bool(y)) => *x == *y,
        (Node::Int(x), Node::Int(y)) => *x == *y,
        (Node::Int(x), Node::UInt(y)) => *x >= 0 && *x as u64 == *y,
        (Node::UInt(x), Node::Int(y)) => *y >= 0 && *y as u64 == *x,
        (Node::UInt(x), Node::UInt(y)) => *x == *y,
        (Node::Double { bits: b1, truncated: t1 }, Node::Double { bits: b2, truncated: t2 }) => {
            *b1 == *b2 && *t1 == *t2
        },
        (Node::Str(x), Node::Str(y)) => *x == *y,
        (Node::Data(x), Node::Data(y)) => bytes_equal(x.as_slice(), y.as_slice()),
        (Node::Array(x), Node::Array(y)) => items_equal(x, y),
        (Node::Dict(x), Node::Dict(y)) => entries_equal(x, y),
        _ => false,
    }
}

/// Whether two sequences of decoded values have the same contents.
pub fn items_equal(a: &Vec<Node>, b: &Vec<Node>) -> (r: bool)
    ensures
        r == (trees_of(a@) == trees_of(b@)),
    decreases a,
{
    proof {
        lemma_trees_of(a@);
        lemma_trees_of(b@);
    }
    if a.len() != b.len() {
        return false;
    }
    let mut i: usize = 0;
    while i < a.len()
        invariant
            a@.len() == b@.len(),
            i <= a@.len(),
            trees_of(a@).len() == a@.len(),
            trees_of(b@).len() == b@.len(),
            forall|k: int| 0 <= k < a@.len() ==> #[trigger] trees_of(a@)[k] == tree_of(a@[k]),
            forall|k: int| 0 <= k < b@.len() ==> #[trigger] trees_of(b@)[k] == tree_of(b@[k]),
            forall|j: int| 0 <= j < i ==> tree_of(#[trigger] a@[j]) == tree_of(b@[j]),
        decreases a@.len() - i,
    {
        assert(decreases_to!(a => a[i as int]));
        if !nodes_equal(&a[i], &b[i]) {
            assert(trees_of(a@)[i as int] != trees_of(b@)[i as int]);
            return false;
        }
        i = i + 1;
    }
    assert(trees_of(a@) =~= trees_of(b@));
    true
}

/// Whether two sequences of dictionary entries have the same contents.
pub fn entries_equal(a: &Vec<Entry>, b: &Vec<Entry>) -> (r: bool)
    ensures
        r == (entries_of(a@) == entries_of(b@)),
    decreases a,
{
    proof {
        lemma_entries_of(a@);
        lemma_entries_of(b@);
    }
    if a.len() != b.len() {
        return false;
    }
    let mut i: usize = 0;
    while i < a.len()
        invariant
            a@.len() == b@.len(),
            i <= a@.len(),
            entries_of(a@).len() == a@.len(),
            entries_of(b@).len() == b@.len(),
            forall|k: int|
                0 <= k < a@.len() ==> #[trigger] entries_of(a@)[k] == (a@[k].key@, tree_of(
                    a@[k].value,
                )),
            forall|k: int|
                0 <= k < b@.len() ==> #[trigger] entries_of(b@)[k] == (b@[k].key@, tree_of(
                    b@[k].value,
                )),
            forall|j: int|
                0 <= j < i ==> (#[trigger] a@[j]).key@ == b@[j].key@ && tree_of(a@[j].value)
                    == tree_of(b@[j].value),
        decreases a@.len() - i,
    {
        assert(decreases_to!(a => a[i as int]));
        if a[i].key != b[i].key {
            assert(entries_of(a@)[i as int] != entries_of(b@)[i as int]);
            return false;
        }
        if !nodes_equal(&a[i].value, &b[i].value) {
            assert(entries_of(a@)[i as int] != entries_of(b@)[i as int]);
            return false;
        }
        i = i + 1;
    }
    assert(entries_of(a@) =~= entries_of(b@));
    true
}

/// Whether a decoded value is well formed: no dictionary in it, at any
/// depth, repeats a key.
pub fn node_is_wf(n: &Node) -> (r: bool)
    ensures
        r == tree_wf(tree_of(*n)),
    decreases n,
{
    proof { lemma_tree_wf(tree_of(*n)); }
    match n {
        Node::Array(items) => items_are_wf(items),
        Node::Dict(entries) => entries_are_wf(entries),
        _ => true,
    }
}

/// Whether every value of a sequence is well formed.
pub fn items_are_wf(items: &Vec<Node>) -> (r: bool)
    ensures
        r == items_wf(trees_of(items@)),
    decreases items,
{
    proof { lemma_trees_of(items@); }
    let mut i: usize = 0;
    while i < items.len()
        invariant
            i <= items@.len(),
            trees_of(items@).len() == items@.len(),
            forall|k: int| 0 <= k < items@.len() ==> #[trigger] trees_of(items@)[k] == tree_of(items@[k]),
            forall|j: int| 0 <= j < i ==> tree_wf(#[trigger] trees_of(items@)[j]),
        decreases items@.len() - i,
    {
        assert(decreases_to!(items => items[i as int]));
        if !node_is_wf(&items[i]) {
            proof { assert(!tree_wf(trees_of(items@)[i as int])); }
            return false;
        }
        i = i + 1;
    }
    true
}

/// Whether a sequence of entries is well formed: unique keys, well-formed
/// values.
pub fn entries_are_wf(entries: &Vec<Entry>) -> (r: bool)
    ensures
        r == dict_wf(entries_of(entries@)),
    decreases entries,
{
    proof { lemma_entries_of(entries@); }
    let ghost s = entries_of(entries@);
    let mut i: usize = 0;
    while i < entries.len()
        invariant
            s == entries_of(entries@),
            i <= entries@.len(),
            s.len() == entries@.len(),
            forall|k: int| 0 <= k < entries@.len() ==> #[trigger] s[k] == (entries@[k].key@, tree_of(entries@[k].value)),
            forall|j: int| 0 <= j < i ==> tree_wf(#[trigger] s[j].1),
            forall|j: int| 0 <= j < i ==> first_index(s, #[trigger] s[j].0) == j,
        decreases entries@.len() - i,
    {
        assert(decreases_to!(entries => entries[i as int]));
        let found = find_key(entries, entries[i].key.as_str());
        match found {
            Some(k) => {
                if k != i {
                    proof {
                        assert(s[k as int].0 == s[i as int].0);
                    }
                    return false;
                }
                proof {
                    assert forall|j: int| 0 <= j < i implies s[j].0 != s[i as int].0 by {
                        assert(s[j] == (entries@[j].key@, tree_of(entries@[j].value)));
                    }
                    lemma_first_index_at(s, s[i as int].0, i as int);
                }
            },
            None => {
                proof { assert(s[i as int].0 == entries@[i as int].key@); }
                return false;
            },
        }
        if !node_is_wf(&entries[i].value) {
            proof { assert(!tree_wf(s[i as int].1)); }
            return false;
        }
        i = i + 1;
    }
    proof {
        assert forall|a: int, b: int| 0 <= a < s.len() && 0 <= b < s.len() && a != b implies s[a].0
            != s[b].0 by {
            if s[a].0 == s[b].0 {
                assert(first_index(s, s[a].0) == a);
                assert(first_index(s, s[b].0) == b);
            }
        }
    }
    true
}

/// Where a view points: nowhere, at a decoded value, or straight at the
/// items of an array or the entries of a dictionary.
#[derive(Clone, Copy, Debug)]
pub enum Ref<'f> {
    Undefined,
    Node(&'f Node),
    Items(&'f Vec<Node>),
    Entries(&'f Vec<Entry>),
}

/// A view of a value, or of no value (`Undefined`), that borrows from the
/// container holding the value.
#[derive(Clone, Copy, Debug)]
pub struct Value<'f> {
    r: Ref<'f>,
}

impl<'f> View for Value<'f> {
    type V = Option<Tree>;

    closed spec fn view(&self) -> Option<Tree> {
        match self.r {
            Ref::Undefined => None,
            Ref::Node(n) => Some(tree_of(*n)),
            Ref::Items(v) => Some(Tree::Array(trees_of(v@))),
            Ref::Entries(v) => Some(Tree::Dict(entries_of(v@))),
        }
    }
}

/// What storing a value stores: its content, or null for no value.
pub open spec fn stored_of(v: Option<Tree>) -> Tree {
    match v {
        Some(t) => t,
        None => Tree::Null,
    }
}

/// The items of an array value, if it is one.
pub open spec fn array_items(t: Option<Tree>) -> Option<Seq<Tree>> {
    match t {
        Some(Tree::Array(s)) => Some(s),
        _ => None,
    }
}

/// The entries of a dictionary value, if it is one.
pub open spec fn dict_entries(t: Option<Tree>) -> Option<Seq<(Seq<char>, Tree)>> {
    match t {
        Some(Tree::Dict(s)) => Some(s),
        _ => None,
    }
}

impl<'f> Value<'f> {
    /// A value is well formed.
    #[verifier::type_invariant]
    closed spec fn inv(&self) -> bool {
        self@ matches Some(t) ==> tree_wf(t)
    }

    /// A copy of the value's content as a tree of its own; null for no value.
    pub fn to_node(&self) -> (r: Node)
        ensures
            tree_of(r) == stored_of(self@),
            tree_wf(tree_of(r)),
    {
        proof { use_type_invariant(self); }
        match self.r {
            Ref::Undefined => Node::Null,
            Ref::Node(n) => copy_node(n),
            Ref::Items(items) => Node::Array(copy_nodes(items)),
            Ref::Entries(entries) => Node::Dict(copy_entries(entries)),
        }
    }

    /// No value.
    pub fn undefined() -> (r: Value<'f>)
        ensures
            r@ is None,
    {
        Value { r: Ref::Undefined }
    }

    /// A view of a decoded value, which must be well formed.
    pub fn wrap(node: &'f Node) -> (r: Value<'f>)
        requires
            tree_wf(tree_of(*node)),
        ensures
            r@ == Some(tree_of(*node)),
    {
        Value { r: Ref::Node(node) }
    }

    /// True when this is no value.
    pub fn is_undefined(&self) -> (r: bool)
        ensures
            r == (self@ is None),
    {
        match self.r {
            Ref::Undefined => true,
            _ => false,
        }
    }

    /// The type of the value; `Undefined` for no value.
    pub fn get_type(&self) -> (r: ValueType)
        ensures
            r == type_of(self@),
    {
        match self.r {
            Ref::Undefined => ValueType::Undefined,
            Ref::Items(_) => ValueType::Array,
            Ref::Entries(_) => ValueType::Dict,
            Ref::Node(n) => match n {
                Node::Null => ValueType::Null,
                Node::Bool(_) => ValueType::Bool,
                Node::Int(_) => ValueType::Number,
                Node::UInt(_) => ValueType::Number,
                Node::Double { .. } => ValueType::Number,
                Node::Str(_) => ValueType::String,
                Node::Data(_) => ValueType::Data,
                Node::Array(_) => ValueType::Array,
                Node::Dict(_) => ValueType::Dict,
            },
        }
    }

    /// True when the value has the given type.
    pub fn is_type(&self, t: ValueType) -> (r: bool)
        ensures
            r == (type_of(self@) == t),
    {
        self.get_type() == t
    }

    /// True when the value is a number, integral or not.
    pub fn is_number(&self) -> (r: bool)
        ensures
            r == (type_of(self@) == ValueType::Number),
    {
        self.is_type(ValueType::Number)
    }

    /// True when the value is an integer.
    pub fn is_integer(&self) -> (r: bool)
        ensures
            r == is_integer_tree(self@),
    {
        match self.r {
            Ref::Node(Node::Int(_)) => true,
            Ref::Node(Node::UInt(_)) => true,
            _ => false,
        }
    }

    /// The value's signed integer projection, 0 for anything that has none.
    pub fn as_i64_or_0(&self) -> (r: i64)
        ensures
            r == i64_of(self@),
    {
        match self.r {
            Ref::Node(Node::Int(i)) => *i,
            Ref::Node(Node::UInt(u)) => *u as i64,
            Ref::Node(Node::Double { truncated, .. }) => *truncated,
            Ref::Node(Node::Bool(b)) => if *b {
                1
            } else {
                0
            },
            _ => 0,
        }
    }

    /// The value's unsigned integer projection, 0 for anything that has none.
    pub fn as_u64_or_0(&self) -> (r: u64)
        ensures
            r == u64_of(self@),
    {
        match self.r {
            Ref::Node(Node::Int(i)) => *i as u64,
            Ref::Node(Node::UInt(u)) => *u,
            Ref::Node(Node::Double { truncated, .. }) => *truncated as u64,
            Ref::Node(Node::Bool(b)) => if *b {
                1
            } else {
                0
            },
            _ => 0,
        }
    }

    /// The value's boolean projection, false for no value.
    pub fn as_bool_or_false(&self) -> (r: bool)
        ensures
            r == bool_of(self@),
    {
        match self.r {
            Ref::Undefined => false,
            Ref::Node(Node::Null) => false,
            Ref::Node(Node::Bool(b)) => *b,
            Ref::Node(Node::Int(i)) => *i != 0,
            Ref::Node(Node::UInt(u)) => *u != 0,
            Ref::Node(Node::Double { truncated, .. }) => *truncated != 0,
            _ => true,
        }
    }

    /// The integer, when the value is an integer; a non-integral number gives
    /// `None`, not a rounded value.
    pub fn as_i64(&self) -> (r: Option<i64>)
        ensures
            r is Some <==> is_integer_tree(self@),
            r matches Some(i) ==> i == i64_of(self@),
    {
        if self.is_integer() {
            Some(self.as_i64_or_0())
        } else {
            None
        }
    }

    /// The integer as unsigned, when the value is an integer.
    pub fn as_u64(&self) -> (r: Option<u64>)
        ensures
            r is Some <==> is_integer_tree(self@),
            r matches Some(u) ==> u == u64_of(self@),
    {
        if self.is_integer() {
            Some(self.as_u64_or_0())
        } else {
            None
        }
    }

    /// The boolean, when the value is a boolean.
    pub fn as_bool(&self) -> (r: Option<bool>)
        ensures
            r is Some <==> type_of(self@) == ValueType::Bool,
            r matches Some(b) ==> self@ == Some(Tree::Bool(b)),
    {
        if self.is_type(ValueType::Bool) {
            Some(self.as_bool_or_false())
        } else {
            None
        }
    }

    /// The value as a point in time, when it is a number: its integer
    /// projection, in milliseconds since the Unix epoch; 0 is no time. A date
    /// written as text is parsed by the engine, not here, so a string (like
    /// every other non-number) gives `None`.
    pub fn as_timestamp(&self) -> (r: Option<Timestamp>)
        ensures
            r is Some <==> (type_of(self@) == ValueType::Number && i64_of(self@) != 0),
            r matches Some(t) ==> t.0 == i64_of(self@),
    {
        if self.is_number() {
            let t = self.as_i64_or_0();
            if t != 0 {
                return Some(Timestamp(t));
            }
        }
        None
    }

    /// The string, when the value is a string; it borrows from the container.
    pub fn as_string(&self) -> (r: Option<&'f str>)
        ensures
            r is Some <==> type_of(self@) == ValueType::String,
            r matches Some(s) ==> self@ == Some(Tree::Str(s@)),
    {
        match self.r {
            Ref::Node(Node::Str(s)) => Some(s.as_str()),
            _ => None,
        }
    }

    /// The bytes, when the value is binary data; they borrow from the container.
    pub fn as_data(&self) -> (r: Option<&'f [u8]>)
        ensures
            r is Some <==> type_of(self@) == ValueType::Data,
            r matches Some(d) ==> self@ == Some(Tree::Data(d@)),
    {
        match self.r {
            Ref::Node(Node::Data(d)) => Some(d.as_slice()),
            _ => None,
        }
    }

    /// The value as an array; no array when it is not one.
    pub fn as_array(&self) -> (r: Array<'f>)
        ensures
            r@ == array_items(self@),
    {
        proof {
            use_type_invariant(self);
            if let Some(t) = self@ {
                lemma_tree_wf(t);
            }
        }
        match self.r {
            Ref::Node(Node::Array(items)) => Array { items: Some(items) },
            Ref::Items(items) => Array { items: Some(items) },
            _ => Array { items: None },
        }
    }

    /// The value as a dictionary; no dictionary when it is not one.
    pub fn as_dict(&self) -> (r: Dict<'f>)
        ensures
            r@ == dict_entries(self@),
    {
        proof {
            use_type_invariant(self);
            if let Some(t) = self@ {
                lemma_tree_wf(t);
            }
        }
        match self.r {
            Ref::Node(Node::Dict(entries)) => Dict { entries: Some(entries) },
            Ref::Entries(entries) => Dict { entries: Some(entries) },
            _ => Dict { entries: None },
        }
    }

    /// Deep equality of content; no value equals only no value.
    pub fn equals(&self, other: &Value) -> (r: bool)
        ensures
            r == (self@ == other@),
    {
        let a = self.as_array();
        let b = other.as_array();
        match (a.items, b.items) {
            (Some(x), Some(y)) => return items_equal(x, y),
            (Some(_), None) => return false,
            (None, Some(_)) => return false,
            (None, None) => {},
        }
        let c = self.as_dict();
        let d = other.as_dict();
        match (c.entries, d.entries) {
            (Some(x), Some(y)) => return entries_equal(x, y),
            (Some(_), None) => return false,
            (None, Some(_)) => return false,
            (None, None) => {},
        }
        match (self.r, other.r) {
            (Ref::Undefined, Ref::Undefined) => true,
            (Ref::Node(x), Ref::Node(y)) => nodes_equal(x, y),
            _ => false,
        }
    }
}

impl<'f> Default for Value<'f> {
    fn default() -> (r: Value<'f>)
        ensures
            r@ is None,
    {
        Value::undefined()
    }
}

impl<'f> PartialEq for Value<'f> {
    fn eq(&self, other: &Value<'f>) -> (r: bool)
        ensures
            r == (self@ == other@),
    {
        self.equals(other)
    }
}

impl<'f> vstd::std_specs::cmp::PartialEqSpecImpl for Value<'f> {
    open spec fn obeys_eq_spec() -> bool {
        true
    }

    open spec fn eq_spec(&self, other: &Value<'f>) -> bool {
        self@ == other@
    }
}

/// A view of an array, or of no array, that borrows from its container.
#[derive(Clone, Copy, Debug)]
pub struct Array<'f> {
    items: Option<&'f Vec<Node>>,
}

impl<'f> View for Array<'f> {
    type V = Option<Seq<Tree>>;

    closed spec fn view(&self) -> Option<Seq<Tree>> {
        match self.items {
            Some(v) => Some(trees_of(v@)),
            None => None,
        }
    }
}

/// The number of items of an array, 0 for no array.
pub open spec fn array_len(a: Option<Seq<Tree>>) -> nat {
    match a {
        Some(s) => s.len(),
        None => 0,
    }
}

/// The item at an index of an array, `None` out of range or for no array.
pub open spec fn array_get(a: Option<Seq<Tree>>, index: int) -> Option<Tree> {
    match a {
        Some(s) => if 0 <= index < s.len() {
            Some(s[index])
        } else {
            None
        },
        None => None,
    }
}

impl<'f> Array<'f> {
    /// The items are well formed.
    #[verifier::type_invariant]
    closed spec fn inv(&self) -> bool {
        self@ matches Some(s) ==> items_wf(s)
    }

    /// A copy of the items; none for no array.
    pub fn copy_items(&self) -> (r: Vec<Node>)
        ensures
            trees_of(r@) == (match self@ {
                Some(s) => s,
                None => Seq::empty(),
            }),
            items_wf(trees_of(r@)),
    {
        proof { use_type_invariant(self); }
        match self.items {
            Some(items) => copy_nodes(items),
            None => {
                let r: Vec<Node> = Vec::new();
                assert(trees_of(r@) =~= Seq::<Tree>::empty());
                r
            },
        }
    }

    /// A view of a sequence of decoded values, which must be well formed.
    pub fn wrap(items: &'f Vec<Node>) -> (r: Array<'f>)
        requires
            items_wf(trees_of(items@)),
        ensures
            r@ == Some(trees_of(items@)),
    {
        Array { items: Some(items) }
    }

    /// No array.
    pub fn none() -> (r: Array<'f>)
        ensures
            r@ is None,
    {
        Array { items: None }
    }

    /// True when this is no array.
    pub fn is_none(&self) -> (r: bool)
        ensures
            r == (self@ is None),
    {
        self.items.is_none()
    }

    /// The array as a value; no value for no array.
    pub fn as_value(&self) -> (r: Value<'f>)
        ensures
            r@ == (match self@ {
                Some(s) => Some(Tree::Array(s)),
                None => None,
            }),
    {
        proof {
            use_type_invariant(self);
            if let Some(s) = self@ {
                lemma_tree_wf(Tree::Array(s));
            }
        }
        match self.items {
            Some(items) => Value { r: Ref::Items(items) },
            None => Value { r: Ref::Undefined },
        }
    }

    /// The number of items, 0 for no array.
    pub fn count(&self) -> (r: u32)
        ensures
            r == array_len(self@) as u32,
    {
        proof {
            use_type_invariant(&*self);
            if let Some(v) = self.items {
                lemma_trees_of(v@);
            }
        }
        match self.items {
            Some(items) => items.len() as u32,
            None => 0,
        }
    }

    /// True when there are no items.
    pub fn empty(&self) -> (r: bool)
        ensures
            r == (array_len(self@) == 0),
    {
        proof {
            use_type_invariant(&*self);
            if let Some(v) = self.items {
                lemma_trees_of(v@);
            }
        }
        match self.items {
            Some(items) => items.len() == 0,
            None => true,
        }
    }

    /// The item at an index; no value out of range.
    pub fn get(&self, index: usize) -> (r: Value<'f>)
        ensures
            r@ == array_get(self@, index as int),
    {
        proof {
            use_type_invariant(&*self);
            if let Some(v) = self.items {
                lemma_trees_of(v@);
            }
        }
        match self.items {
            Some(items) => if index < items.len() {
                proof { assert(tree_wf(trees_of(items@)[index as int])); }
                Value { r: Ref::Node(&items[index]) }
            } else {
                Value { r: Ref::Undefined }
            },
            None => Value { r: Ref::Undefined },
        }
    }

    /// A fresh iterator over the items, from the first.
    pub fn iter(&self) -> (r: ArrayIterator<'f>)
        ensures
            r.all() == (match self@ {
                Some(s) => s,
                None => Seq::empty(),
            }),
            r.spec_pos() == 0,
    {
        proof { use_type_invariant(self); }
        ArrayIterator { items: self.items, pos: 0 }
    }

    /// Deep equality of content.
    pub fn equals(&self, other: &Array) -> (r: bool)
        ensures
            r == (self@ == other@),
    {
        match (self.items, other.items) {
            (Some(x), Some(y)) => items_equal(x, y),
            (None, None) => true,
            _ => false,
        }
    }
}

impl<'f> Default for Array<'f> {
    fn default() -> (r: Array<'f>)
        ensures
            r@ is None,
    {
        Array::none()
    }
}

/// A forward iterator over the items of an array. `pos` is the index of the
/// next item to give.
pub struct ArrayIterator<'f> {
    items: Option<&'f Vec<Node>>,
    pos: usize,
}

impl<'f> ArrayIterator<'f> {
    /// The items are well formed.
    #[verifier::type_invariant]
    closed spec fn inv(&self) -> bool {
        items_wf(self.all())
    }

    /// The index of the next item to give.
    pub closed spec fn spec_pos(&self) -> nat {
        self.pos as nat
    }

    /// The contents of the whole array.
    pub closed spec fn all(&self) -> Seq<Tree> {
        match self.items {
            Some(v) => trees_of(v@),
            None => Seq::empty(),
        }
    }

    /// The number of items left to give, the next one included.
    pub fn count(&self) -> (r: u32)
        ensures
            r == (if self.spec_pos() < self.all().len() {
                self.all().len() - self.spec_pos()
            } else {
                0
            }) as u32,
    {
        proof {
            use_type_invariant(&*self);
            if let Some(v) = self.items {
                lemma_trees_of(v@);
            }
        }
        match self.items {
            Some(items) => if self.pos < items.len() {
                (items.len() - self.pos) as u32
            } else {
                0
            },
            None => 0,
        }
    }

    /// The item at an offset from the next one; no value out of range.
    pub fn get(&self, index: usize) -> (r: Value<'f>)
        ensures
            r@ == (if self.spec_pos() + index < self.all().len() {
                Some(self.all()[self.spec_pos() + index])
            } else {
                None
            }),
    {
        proof {
            use_type_invariant(&*self);
            if let Some(v) = self.items {
                lemma_trees_of(v@);
            }
        }
        match self.items {
            Some(items) => if self.pos < items.len() && index < items.len() - self.pos {
                proof { assert(tree_wf(trees_of(items@)[self.pos + index])); }
                Value { r: Ref::Node(&items[self.pos + index]) }
            } else {
                Value { r: Ref::Undefined }
            },
            None => Value { r: Ref::Undefined },
        }
    }

    /// The next item, or `None` once every item has been given (and on every
    /// call after that).
    pub fn next(&mut self) -> (r: Option<Value<'f>>)
        ensures
            final(self).all() == old(self).all(),
            old(self).spec_pos() < old(self).all().len() ==> {
                &&& r matches Some(v) && v@ == Some(old(self).all()[old(self).spec_pos() as int])
                &&& final(self).spec_pos() == old(self).spec_pos() + 1
            },
            old(self).spec_pos() >= old(self).all().len() ==> r is None && final(self).spec_pos()
                == old(self).spec_pos(),
    {
        proof {
            use_type_invariant(&*self);
            if let Some(v) = self.items {
                lemma_trees_of(v@);
            }
        }
        match self.items {
            Some(items) => if self.pos < items.len() {
                proof { assert(tree_wf(trees_of(items@)[self.pos as int])); }
                let v = Value { r: Ref::Node(&items[self.pos]) };
                self.pos = self.pos + 1;
                Some(v)
            } else {
                None
            },
            None => None,
        }
    }
}

/// A view of a dictionary, or of no dictionary, that borrows from its
/// container.
#[derive(Clone, Copy, Debug)]
pub struct Dict<'f> {
    entries: Option<&'f Vec<Entry>>,
}

impl<'f> View for Dict<'f> {
    type V = Option<Seq<(Seq<char>, Tree)>>;

    closed spec fn view(&self) -> Option<Seq<(Seq<char>, Tree)>> {
        match self.entries {
            Some(v) => Some(entries_of(v@)),
            None => None,
        }
    }
}

/// The number of entries of a dictionary, 0 for no dictionary.
pub open spec fn dict_len(d: Option<Seq<(Seq<char>, Tree)>>) -> nat {
    match d {
        Some(s) => s.len(),
        None => 0,
    }
}

/// The value under a key of a dictionary, `None` when absent or for no
/// dictionary.
pub open spec fn dict_get(d: Option<Seq<(Seq<char>, Tree)>>, key: Seq<char>) -> Option<Tree> {
    match d {
        Some(s) => lookup(s, key),
        None => None,
    }
}

/// Finds the first entry with the given key.
fn find_key(entries: &Vec<Entry>, key: &str) -> (r: Option<usize>)
    ensures
        match r {
            Some(i) => {
                &&& i < entries@.len()
                &&& entries@[i as int].key@ == key@
                &&& forall|j: int| 0 <= j < i ==> entries@[j].key@ != key@
            },
            None => forall|j: int| 0 <= j < entries@.len() ==> entries@[j].key@ != key@,
        },
{
    let k = key.to_owned();
    let mut i: usize = 0;
    while i < entries.len()
        invariant
            k@ == key@,
            i <= entries@.len(),
            forall|j: int| 0 <= j < i ==> entries@[j].key@ != key@,
        decreases entries@.len() - i,
    {
        if entries[i].key == k {
            return Some(i);
        }
        i = i + 1;
    }
    None
}

/// The value under a key of a sequence of entries, from `find_key`'s answer.
proof fn lemma_find_key_lookup(entries: Seq<Entry>, key: Seq<char>, r: Option<usize>)
    requires
        match r {
            Some(i) => {
                &&& i < entries.len()
                &&& entries[i as int].key@ == key
                &&& forall|j: int| 0 <= j < i ==> entries[j].key@ != key
            },
            None => forall|j: int| 0 <= j < entries.len() ==> entries[j].key@ != key,
        },
    ensures
        match r {
            Some(i) => lookup(entries_of(entries), key) == Some(tree_of(entries[i as int].value)),
            None => lookup(entries_of(entries), key) is None,
        },
{
    lemma_entries_of(entries);
    let s = entries_of(entries);
    lemma_first_index(s, key);
    match r {
        Some(i) => {
            assert forall|j: int| 0 <= j < i implies s[j].0 != key by {
                assert(s[j] == (entries[j].key@, tree_of(entries[j].value)));
            }
            lemma_first_index_at(s, key, i as int);
        },
        None => {
            if first_index(s, key) >= 0 {
                let f = first_index(s, key);
                assert(s[f] == (entries[f].key@, tree_of(entries[f].value)));
            }
        },
    }
}

impl<'f> Dict<'f> {
    /// The entries are well formed.
    #[verifier::type_invariant]
    closed spec fn inv(&self) -> bool {
        self@ matches Some(s) ==> dict_wf(s)
    }

    /// A copy of the entries; none for no dictionary.
    pub fn copy_entries(&self) -> (r: Vec<Entry>)
        ensures
            entries_of(r@) == (match self@ {
                Some(s) => s,
                None => Seq::empty(),
            }),
            dict_wf(entries_of(r@)),
    {
        proof { use_type_invariant(self); }
        match self.entries {
            Some(entries) => copy_entries(entries),
            None => {
                let r: Vec<Entry> = Vec::new();
                assert(entries_of(r@) =~= Seq::<(Seq<char>, Tree)>::empty());
                r
            },
        }
    }

    /// A view of a sequence of entries, which must be well formed.
    pub fn wrap(entries: &'f Vec<Entry>) -> (r: Dict<'f>)
        requires
            dict_wf(entries_of(entries@)),
        ensures
            r@ == Some(entries_of(entries@)),
    {
        Dict { entries: Some(entries) }
    }

    /// No dictionary.
    pub fn none() -> (r: Dict<'f>)
        ensures
            r@ is None,
    {
        Dict { entries: None }
    }

    /// True when this is no dictionary.
    pub fn is_none(&self) -> (r: bool)
        ensures
            r == (self@ is None),
    {
        self.entries.is_none()
    }

    /// The dictionary as a value; no value for no dictionary.
    pub fn as_value(&self) -> (r: Value<'f>)
        ensures
            r@ == (match self@ {
                Some(s) => Some(Tree::Dict(s)),
                None => None,
            }),
    {
        proof {
            use_type_invariant(self);
            if let Some(s) = self@ {
                lemma_tree_wf(Tree::Dict(s));
            }
        }
        match self.entries {
            Some(entries) => Value { r: Ref::Entries(entries) },
            None => Value { r: Ref::Undefined },
        }
    }

    /// The number of entries, 0 for no dictionary.
    pub fn count(&self) -> (r: u32)
        ensures
            r == dict_len(self@) as u32,
    {
        proof {
            use_type_invariant(&*self);
            if let Some(v) = self.entries {
                lemma_entries_of(v@);
            }
        }
        match self.entries {
            Some(entries) => entries.len() as u32,
            None => 0,
        }
    }

    /// True when there are no entries.
    pub fn empty(&self) -> (r: bool)
        ensures
            r == (dict_len(self@) == 0),
    {
        proof {
            use_type_invariant(&*self);
            if let Some(v) = self.entries {
                lemma_entries_of(v@);
            }
        }
        match self.entries {
            Some(entries) => entries.len() == 0,
            None => true,
        }
    }

    /// The value under a key; no value when the key is absent.
    pub fn get(&self, key: &str) -> (r: Value<'f>)
        ensures
            r@ == dict_get(self@, key@),
    {
        proof { use_type_invariant(self); }
        match self.entries {
            Some(entries) => {
                let found = find_key(entries, key);
                proof { lemma_find_key_lookup(entries@, key@, found); }
                match found {
                    Some(i) => {
                        proof {
                            lemma_entries_of(entries@);
                            assert(tree_wf(entries_of(entries@)[i as int].1));
                        }
                        Value { r: Ref::Node(&entries[i].value) }
                    },
                    None => Value { r: Ref::Undefined },
                }
            },
            None => Value { r: Ref::Undefined },
        }
    }

    /// The value under a prepared key; no value when the key is absent.
    pub fn get_key(&self, key: &mut DictKey) -> (r: Value<'f>)
        ensures
            r@ == dict_get(self@, old(key).key@),
            *final(key) == *old(key),
    {
        self.get(key.key.as_str())
    }

    /// A fresh iterator over the entries, from the first.
    pub fn iter(&self) -> (r: DictIterator<'f>)
        ensures
            r.all() == (match self@ {
                Some(s) => s,
                None => Seq::empty(),
            }),
            r.spec_pos() == 0,
    {
        proof { use_type_invariant(self); }
        DictIterator { entries: self.entries, pos: 0 }
    }

    /// Deep equality of content.
    pub fn equals(&self, other: &Dict) -> (r: bool)
        ensures
            r == (self@ == other@),
    {
        match (self.entries, other.entries) {
            (Some(x), Some(y)) => entries_equal(x, y),
            (None, None) => true,
            _ => false,
        }
    }
}

impl<'f> Default for Dict<'f> {
    fn default() -> (r: Dict<'f>)
        ensures
            r@ is None,
    {
        Dict::none()
    }
}

/// A key prepared for repeated lookups.
pub struct DictKey {
    pub key: String,
}

impl DictKey {
    /// Prepares a key.
    pub fn new(key: &str) -> (r: DictKey)
        ensures
            r.key@ == key@,
    {
        DictKey { key: key.to_owned() }
    }

    /// The key's text.
    pub fn string(&self) -> (r: &str)
        ensures
            r@ == self.key@,
    {
        self.key.as_str()
    }
}

/// A forward iterator over the entries of a dictionary, each with its key.
/// `pos` is the index of the next entry to give.
pub struct DictIterator<'f> {
    entries: Option<&'f Vec<Entry>>,
    pos: usize,
}

impl<'f> DictIterator<'f> {
    /// The entries are well formed.
    #[verifier::type_invariant]
    closed spec fn inv(&self) -> bool {
        dict_wf(self.all())
    }

    /// The index of the next entry to give.
    pub closed spec fn spec_pos(&self) -> nat {
        self.pos as nat
    }

    /// The contents of the whole dictionary.
    pub closed spec fn all(&self) -> Seq<(Seq<char>, Tree)> {
        match self.entries {
            Some(v) => entries_of(v@),
            None => Seq::empty(),
        }
    }

    /// The number of entries left to give, the next one included.
    pub fn count(&self) -> (r: u32)
        ensures
            r == (if self.spec_pos() < self.all().len() {
                self.all().len() - self.spec_pos()
            } else {
                0
            }) as u32,
    {
        proof {
            use_type_invariant(&*self);
            if let Some(v) = self.entries {
                lemma_entries_of(v@);
            }
        }
        match self.entries {
            Some(entries) => if self.pos < entries.len() {
                (entries.len() - self.pos) as u32
            } else {
                0
            },
            None => 0,
        }
    }

    /// The next entry's key and value, or `None` once every entry has been
    /// given (and on every call after that).
    pub fn next(&mut self) -> (r: Option<(&'f str, Value<'f>)>)
        ensures
            final(self).all() == old(self).all(),
            old(self).spec_pos() < old(self).all().len() ==> {
                &&& r matches Some(kv) && (kv.0@, kv.1@) == (
                    old(self).all()[old(self).spec_pos() as int].0,
                    Some(old(self).all()[old(self).spec_pos() as int].1),
                )
                &&& final(self).spec_pos() == old(self).spec_pos() + 1
            },
            old(self).spec_pos() >= old(self).all().len() ==> r is None && final(self).spec_pos()
                == old(self).spec_pos(),
    {
        proof {
            use_type_invariant(&*self);
            if let Some(v) = self.entries {
                lemma_entries_of(v@);
            }
        }
        match self.entries {
            Some(entries) => if self.pos < entries.len() {
                proof { assert(tree_wf(entries_of(entries@)[self.pos as int].1)); }
                let e = &entries[self.pos];
                let kv = (e.key.as_str(), Value { r: Ref::Node(&e.value) });
                self.pos = self.pos + 1;
                Some(kv)
            } else {
                None
            },
            None => None,
        }
    }
}

/// A decoded document: the root container that owns a value tree. Every view
/// of its values borrows from it.
pub struct Fleece {
    root: Node,
}

impl View for Fleece {
    type V = Tree;

    closed spec fn view(&self) -> Tree {
        tree_of(self.root)
    }
}

impl Fleece {
    /// The tree is well formed.
    #[verifier::type_invariant]
    closed spec fn inv(&self) -> bool {
        tree_wf(self@)
    }

    /// A container owning the given tree, which must be well formed (see
    /// `node_is_wf`).
    pub fn from_node(root: Node) -> (r: Fleece)
        requires
            tree_wf(tree_of(root)),
        ensures
            r@ == tree_of(root),
    {
        Fleece { root }
    }

    /// The root value.
    pub fn root(&self) -> (r: Value<'_>)
        ensures
            r@ == Some(self@),
    {
        proof { use_type_invariant(self); }
        Value::wrap(&self.root)
    }

    /// The root value as an array; no array when it is not one.
    pub fn as_array(&self) -> (r: Array<'_>)
        ensures
            r@ == array_items(Some(self@)),
    {
        self.root().as_array()
    }

    /// The root value as a dictionary; no dictionary when it is not one.
    pub fn as_dict(&self) -> (r: Dict<'_>)
        ensures
            r@ == dict_entries(Some(self@)),
    {
        self.root().as_dict()
    }
}

} // verus!
