//! Attribute values and attribute maps, the payload of every persisted row.
use vstd::prelude::*;

verus! {

broadcast use vstd::std_specs::vec::group_vec_axioms;

} // verus!

verus! {

/// One stored attribute value.
pub enum AttributeValue {
    /// A string.
    S(String),
    /// A number, kept in its decimal text form.
    N(String),
    /// A boolean.
    Bool(bool),
    /// An explicit null.
    Null,
    /// A set of strings (owner sets, relation names).
    Ss(Vec<String>),
    /// A set of numbers, each in its decimal text form.
    Ns(Vec<String>),
    /// Binary data.
    B(Vec<u8>),
    /// A set of binary values.
    Bs(Vec<Vec<u8>>),
    /// A list of values.
    L(Vec<AttributeValue>),
    /// A map of names to values, in order.
    M(Vec<(String, AttributeValue)>),
}

/// The mathematical value of an [`AttributeValue`].
pub enum AttrView {
    S(Seq<char>),
    N(Seq<char>),
    Bool(bool),
    Null,
    Ss(Seq<Seq<char>>),
    Ns(Seq<Seq<char>>),
    B(Seq<u8>),
    Bs(Seq<Seq<u8>>),
    L(Seq<AttrView>),
    M(Seq<(Seq<char>, AttrView)>),
}

pub open spec fn strings_view(v: Seq<String>) -> Seq<Seq<char>> {
    v.map_values(|s: String| s@)
}

/// The mathematical value of an attribute value.
pub open spec fn attr_view(v: AttributeValue) -> AttrView
    decreases v,
{
    match v {
        AttributeValue::S(s) => AttrView::S(s@),
        AttributeValue::N(s) => AttrView::N(s@),
        AttributeValue::Bool(b) => AttrView::Bool(b),
        AttributeValue::Null => AttrView::Null,
        AttributeValue::Ss(v) => AttrView::Ss(strings_view(v@)),
        AttributeValue::Ns(v) => AttrView::Ns(strings_view(v@)),
        AttributeValue::B(b) => AttrView::B(b@),
        AttributeValue::Bs(v) => AttrView::Bs(bytes_view(v@)),
        AttributeValue::L(l) => AttrView::L(list_view(l@)),
        AttributeValue::M(m) => AttrView::M(entries_view(m@)),
    }
}

/// The values of a list, in order.
pub open spec fn list_view(s: Seq<AttributeValue>) -> Seq<AttrView>
    decreases s,
{
    if s.len() == 0 {
        Seq::empty()
    } else {
        list_view(s.drop_last()).push(attr_view(s.last()))
    }
}

/// The entries of a map value, in order.
pub open spec fn entries_view(s: Seq<(String, AttributeValue)>) -> Seq<(Seq<char>, AttrView)>
    decreases s,
{
    if s.len() == 0 {
        Seq::empty()
    } else {
        entries_view(s.drop_last()).push((s.last().0@, attr_view(s.last().1)))
    }
}

pub proof fn lemma_list_view(s: Seq<AttributeValue>)
    ensures
        list_view(s).len() == s.len(),
        forall|i: int| 0 <= i < s.len() ==> #[trigger] list_view(s)[i] == attr_view(s[i]),
    decreases s.len(),
{
    if s.len() > 0 {
        lemma_list_view(s.drop_last());
    }
}

pub proof fn lemma_entries_view(s: Seq<(String, AttributeValue)>)
    ensures
        entries_view(s).len() == s.len(),
        forall|i: int| 0 <= i < s.len() ==> #[trigger] entries_view(s)[i] == (s[i].0@, attr_view(s[i].1)),
    decreases s.len(),
{
    if s.len() > 0 {
        lemma_entries_view(s.drop_last());
    }
}

impl View for AttributeValue {
    type V = AttrView;

    open spec fn view(&self) -> AttrView {
        attr_view(*self)
    }
}

pub open spec fn bytes_view(v: Seq<Vec<u8>>) -> Seq<Seq<u8>> {
    v.map_values(|b: Vec<u8>| b@)
}

/// Copies bytes.
pub fn copy_bytes(v: &Vec<u8>) -> (r: Vec<u8>)
    ensures
        r@ == v@,
{
    let mut r: Vec<u8> = Vec::new();
    let mut i: usize = 0;
    while i < v.len()
        invariant
            i <= v@.len(),
            r@ == v@.subrange(0, i as int),
        decreases v@.len() - i,
    {
        r.push(v[i]);
        i = i + 1;
        assert(r@ =~= v@.subrange(0, i as int));
    }
    assert(r@ =~= v@);
    r
}

/// Copies a vector of binary values.
pub fn copy_byte_strings(v: &Vec<Vec<u8>>) -> (r: Vec<Vec<u8>>)
    ensures
        bytes_view(r@) == bytes_view(v@),
{
    let mut r: Vec<Vec<u8>> = Vec::new();
    let mut i: usize = 0;
    while i < v.len()
        invariant
            i <= v@.len(),
            r@.len() == i,
            forall|j: int| 0 <= j < i ==> (#[trigger] r@[j])@ == v@[j]@,
        decreases v@.len() - i,
    {
        r.push(copy_bytes(&v[i]));
        i = i + 1;
    }
    assert(bytes_view(r@) =~= bytes_view(v@));
    r
}

/// Whether two byte strings are equal.
pub fn bytes_equal(a: &Vec<u8>, b: &Vec<u8>) -> (r: bool)
    ensures
        r == (a@ == b@),
{
    if a.len() != b.len() {
        return false;
    }
    let mut i: usize = 0;
    while i < a.len()
        invariant
            a@.len() == b@.len(),
            i <= a@.len(),
            forall|j: int| 0 <= j < i ==> a@[j] == b@[j],
        decreases a@.len() - i,
    {
        if a[i] != b[i] {
            return false;
        }
        i = i + 1;
    }
    assert(a@ =~= b@);
    true
}

/// Whether two vectors of byte strings are equal.
pub fn byte_strings_equal(a: &Vec<Vec<u8>>, b: &Vec<Vec<u8>>) -> (r: bool)
    ensures
        r == (bytes_view(a@) == bytes_view(b@)),
{
    if a.len() != b.len() {
        assert(bytes_view(a@).len() != bytes_view(b@).len());
        return false;
    }
    let mut i: usize = 0;
    while i < a.len()
        invariant
            a@.len() == b@.len(),
            i <= a@.len(),
            forall|j: int| 0 <= j < i ==> a@[j]@ == b@[j]@,
        decreases a@.len() - i,
    {
        if !bytes_equal(&a[i], &b[i]) {
            assert(bytes_view(a@)[i as int] != bytes_view(b@)[i as int]);
            return false;
        }
        i = i + 1;
    }
    assert(bytes_view(a@) =~= bytes_view(b@));
    true
}

/// Copies a vector of strings.
pub fn copy_strings(v: &Vec<String>) -> (r: Vec<String>)
    ensures
        strings_view(r@) == strings_view(v@),
{
    let mut r: Vec<String> = Vec::new();
    let mut i: usize = 0;
    while i < v.len()
        invariant
            i <= v@.len(),
            r@.len() == i,
            forall|j: int| 0 <= j < i ==> r@[j]@ == v@[j]@,
        decreases v@.len() - i,
    {
        r.push(v[i].clone());
        i = i + 1;
    }
    assert(strings_view(r@) =~= strings_view(v@));
    r
}

impl AttributeValue {
    /// A copy of this value.
    pub fn duplicate(&self) -> (r: AttributeValue)
        ensures
            r@ == self@,
        decreases self,
    {
        match self {
            AttributeValue::S(s) => AttributeValue::S(s.clone()),
            AttributeValue::N(s) => AttributeValue::N(s.clone()),
            AttributeValue::Bool(b) => AttributeValue::Bool(*b),
            AttributeValue::Null => AttributeValue::Null,
            AttributeValue::Ss(v) => AttributeValue::Ss(copy_strings(v)),
            AttributeValue::Ns(v) => AttributeValue::Ns(copy_strings(v)),
            AttributeValue::B(b) => AttributeValue::B(copy_bytes(b)),
            AttributeValue::Bs(v) => AttributeValue::Bs(copy_byte_strings(v)),
            AttributeValue::L(l) => {
                let mut r: Vec<AttributeValue> = Vec::new();
                let mut i: usize = 0;
                while i < l.len()
                    invariant
                        i <= l@.len(),
                        *self == AttributeValue::L(*l),
                        list_view(r@) == list_view(l@.subrange(0, i as int)),
                    decreases l@.len() - i,
                {
                    proof {
                        assert(decreases_to!(*self => (*self)->L_0));
                        assert(decreases_to!(*l => l[i as int]));
                    }
                    let x = l[i].duplicate();
                    let ghost before = r@;
                    r.push(x);
                    proof {
                        assert(r@.drop_last() =~= before);
                        let s = l@.subrange(0, i as int + 1);
                        assert(s.drop_last() =~= l@.subrange(0, i as int));
                    }
                    i = i + 1;
                }
                assert(l@.subrange(0, i as int) =~= l@);
                AttributeValue::L(r)
            },
            AttributeValue::M(m) => {
                let mut r: Vec<(String, AttributeValue)> = Vec::new();
                let mut i: usize = 0;
                while i < m.len()
                    invariant
                        i <= m@.len(),
                        *self == AttributeValue::M(*m),
                        entries_view(r@) == entries_view(m@.subrange(0, i as int)),
                    decreases m@.len() - i,
                {
                    proof {
                        assert(decreases_to!(*self => (*self)->M_0));
                        assert(decreases_to!(*m => m[i as int]));
                        assert(decreases_to!(m[i as int] => m[i as int].1));
                    }
                    let x = m[i].1.duplicate();
                    let ghost before = r@;
                    r.push((m[i].0.clone(), x));
                    proof {
                        assert(r@.drop_last() =~= before);
                        let s = m@.subrange(0, i as int + 1);
                        assert(s.drop_last() =~= m@.subrange(0, i as int));
                    }
                    i = i + 1;
                }
                assert(m@.subrange(0, i as int) =~= m@);
                AttributeValue::M(r)
            },
        }
    }

    /// Whether two values are the same value.
    pub fn same_as(&self, other: &AttributeValue) -> (r: bool)
        ensures
            r == (self@ == other@),
        decreases self,
    {
        match self {
            AttributeValue::S(a) => match other {
                AttributeValue::S(b) => *a == *b,
                _ => false,
            },
            AttributeValue::N(a) => match other {
                AttributeValue::N(b) => *a == *b,
                _ => false,
            },
            AttributeValue::Bool(a) => match other {
                AttributeValue::Bool(b) => *a == *b,
                _ => false,
            },
            AttributeValue::Null => match other {
                AttributeValue::Null => true,
                _ => false,
            },
            AttributeValue::Ss(a) => match other {
                AttributeValue::Ss(b) => strings_equal(a, b),
                _ => false,
            },
            AttributeValue::Ns(a) => match other {
                AttributeValue::Ns(b) => strings_equal(a, b),
                _ => false,
            },
            AttributeValue::B(a) => match other {
                AttributeValue::B(b) => bytes_equal(a, b),
                _ => false,
            },
            AttributeValue::Bs(a) => match other {
                AttributeValue::Bs(b) => byte_strings_equal(a, b),
                _ => false,
            },
            AttributeValue::L(a) => match other {
                AttributeValue::L(b) => {
                    proof {
                        lemma_list_view(a@);
                        lemma_list_view(b@);
                        assert(self@ == AttrView::L(list_view(a@)));
                        assert(other@ == AttrView::L(list_view(b@)));
                    }
                    if a.len() != b.len() {
                        assert(list_view(a@).len() != list_view(b@).len());
                        return false;
                    }
                    let mut i: usize = 0;
                    while i < a.len()
                        invariant
                            i <= a@.len(),
                            a@.len() == b@.len(),
                            *self == AttributeValue::L(*a),
                            self@ == AttrView::L(list_view(a@)),
                            other@ == AttrView::L(list_view(b@)),
                            list_view(a@).len() == a@.len(),
                            list_view(b@).len() == b@.len(),
                            forall|j: int| 0 <= j < a@.len() ==> #[trigger] list_view(a@)[j] == attr_view(a@[j]),
                            forall|j: int| 0 <= j < b@.len() ==> #[trigger] list_view(b@)[j] == attr_view(b@[j]),
                            forall|j: int| 0 <= j < i ==> attr_view(#[trigger] a@[j]) == attr_view(b@[j]),
                        decreases a@.len() - i,
                    {
                        proof {
                            assert(decreases_to!(*self => (*self)->L_0));
                            assert(decreases_to!(*a => a[i as int]));
                        }
                        if !a[i].same_as(&b[i]) {
                            assert(list_view(a@)[i as int] != list_view(b@)[i as int]);
                            return false;
                        }
                        i = i + 1;
                    }
                    assert(list_view(a@) =~= list_view(b@));
                    true
                },
                _ => false,
            },
            AttributeValue::M(a) => match other {
                AttributeValue::M(b) => {
                    proof {
                        lemma_entries_view(a@);
                        lemma_entries_view(b@);
                        assert(self@ == AttrView::M(entries_view(a@)));
                        assert(other@ == AttrView::M(entries_view(b@)));
                    }
                    if a.len() != b.len() {
                        assert(entries_view(a@).len() != entries_view(b@).len());
                        return false;
                    }
                    let mut i: usize = 0;
                    while i < a.len()
                        invariant
                            i <= a@.len(),
                            a@.len() == b@.len(),
                            *self == AttributeValue::M(*a),
                            self@ == AttrView::M(entries_view(a@)),
                            other@ == AttrView::M(entries_view(b@)),
                            entries_view(a@).len() == a@.len(),
                            entries_view(b@).len() == b@.len(),
                            forall|j: int| 0 <= j < a@.len() ==> #[trigger] entries_view(a@)[j] == (a@[j].0@, attr_view(a@[j].1)),
                            forall|j: int| 0 <= j < b@.len() ==> #[trigger] entries_view(b@)[j] == (b@[j].0@, attr_view(b@[j].1)),
                            forall|j: int| 0 <= j < i ==> #[trigger] entries_view(a@)[j] == entries_view(b@)[j],
                        decreases a@.len() - i,
                    {
                        proof {
                            assert(decreases_to!(*self => (*self)->M_0));
                            assert(decreases_to!(*a => a[i as int]));
                            assert(decreases_to!(a[i as int] => a[i as int].1));
                        }
                        if a[i].0 != b[i].0 || !a[i].1.same_as(&b[i].1) {
                            assert(entries_view(a@)[i as int] != entries_view(b@)[i as int]);
                            return false;
                        }
                        i = i + 1;
                    }
                    assert(entries_view(a@) =~= entries_view(b@));
                    true
                },
                _ => false,
            },
        }
    }
}

/// Whether two vectors of strings hold the same strings in the same order.
pub fn strings_equal(a: &Vec<String>, b: &Vec<String>) -> (r: bool)
    ensures
        r == (strings_view(a@) == strings_view(b@)),
{
    if a.len() != b.len() {
        assert(strings_view(a@).len() != strings_view(b@).len());
        return false;
    }
    let mut i: usize = 0;
    while i < a.len()
        invariant
            a@.len() == b@.len(),
            i <= a@.len(),
            forall|j: int| 0 <= j < i ==> a@[j]@ == b@[j]@,
        decreases a@.len() - i,
    {
        if a[i] != b[i] {
            assert(strings_view(a@)[i as int] != strings_view(b@)[i as int]);
            return false;
        }
        i = i + 1;
    }
    assert(strings_view(a@) =~= strings_view(b@));
    true
}

} // verus!

verus! {

/// The entries of an attribute map, in storage order, as mathematical values.
pub type AttrPairs = Seq<(Seq<char>, AttrView)>;

pub open spec fn has_key(p: AttrPairs, k: Seq<char>) -> bool {
    exists|i: int| 0 <= i < p.len() && #[trigger] p[i].0 == k
}

pub open spec fn index_of(p: AttrPairs, k: Seq<char>) -> int {
    choose|i: int| 0 <= i < p.len() && #[trigger] p[i].0 == k
}

/// No key occurs twice.
pub open spec fn unique_keys(p: AttrPairs) -> bool {
    forall|i: int, j: int|
        0 <= i < p.len() && 0 <= j < p.len() && i != j ==> #[trigger] p[i].0 != #[trigger] p[j].0
}

/// The value stored under `k`, if any.
pub open spec fn lookup(p: AttrPairs, k: Seq<char>) -> Option<AttrView> {
    if has_key(p, k) {
        Some(p[index_of(p, k)].1)
    } else {
        None
    }
}

/// Stores `v` under `k`: in place when `k` is present, appended otherwise.
pub open spec fn pairs_insert(p: AttrPairs, k: Seq<char>, v: AttrView) -> AttrPairs {
    if has_key(p, k) {
        p.update(index_of(p, k), (k, v))
    } else {
        p.push((k, v))
    }
}

/// Stores `v` under `k` only when `k` is absent.
pub open spec fn pairs_or_insert(p: AttrPairs, k: Seq<char>, v: AttrView) -> AttrPairs {
    if has_key(p, k) {
        p
    } else {
        p.push((k, v))
    }
}

/// Drops the entry of `k`, if any.
pub open spec fn pairs_remove(p: AttrPairs, k: Seq<char>) -> AttrPairs {
    if has_key(p, k) {
        p.remove(index_of(p, k))
    } else {
        p
    }
}

/// The map that a sequence of entries with unique keys stands for.
pub open spec fn pairs_map(p: AttrPairs) -> Map<Seq<char>, AttrView> {
    Map::new(|k: Seq<char>| has_key(p, k), |k: Seq<char>| p[index_of(p, k)].1)
}

pub proof fn lemma_index_of(p: AttrPairs, i: int)
    requires
        unique_keys(p),
        0 <= i < p.len(),
    ensures
        has_key(p, p[i].0),
        index_of(p, p[i].0) == i,
        lookup(p, p[i].0) == Some(p[i].1),
{
    let k = p[i].0;
    assert(has_key(p, k));
    let j = index_of(p, k);
    assert(p[j].0 == k);
}

/// Reading back after an insert.
pub proof fn lemma_lookup_insert(p: AttrPairs, k: Seq<char>, v: AttrView, q: Seq<char>)
    requires
        unique_keys(p),
    ensures
        unique_keys(pairs_insert(p, k, v)),
        lookup(pairs_insert(p, k, v), q) == if q == k {
            Some(v)
        } else {
            lookup(p, q)
        },
{
    let r = pairs_insert(p, k, v);
    if has_key(p, k) {
        let i = index_of(p, k);
        assert(p[i].0 == k);
        assert forall|a: int, b: int|
            0 <= a < r.len() && 0 <= b < r.len() && a != b implies #[trigger] r[a].0
            != #[trigger] r[b].0 by {
            if a == i {
                assert(p[b].0 != p[i].0);
            } else if b == i {
                assert(p[a].0 != p[i].0);
            } else {
                assert(p[a].0 != p[b].0);
            }
        }
        lemma_index_of(r, i);
        if q != k && has_key(p, q) {
            let j = index_of(p, q);
            assert(p[j].0 == q);
            assert(r[j] == p[j]);
            lemma_index_of(r, j);
        }
        if q != k && has_key(r, q) {
            let j = index_of(r, q);
            assert(r[j].0 == q);
            assert(p[j].0 == q);
        }
    } else {
        assert forall|a: int, b: int|
            0 <= a < r.len() && 0 <= b < r.len() && a != b implies #[trigger] r[a].0
            != #[trigger] r[b].0 by {
            if a == p.len() as int {
                assert(p[b].0 != k);
            } else if b == p.len() as int {
                assert(p[a].0 != k);
            } else {
                assert(p[a].0 != p[b].0);
            }
        }
        lemma_index_of(r, p.len() as int);
        if q != k && has_key(p, q) {
            let j = index_of(p, q);
            assert(p[j].0 == q);
            assert(r[j] == p[j]);
            lemma_index_of(r, j);
        }
        if q != k && has_key(r, q) {
            let j = index_of(r, q);
            assert(r[j].0 == q);
            assert(j < p.len());
            assert(p[j].0 == q);
        }
    }
}

/// Reading back after an insert that keeps a present value.
pub proof fn lemma_lookup_or_insert(p: AttrPairs, k: Seq<char>, v: AttrView, q: Seq<char>)
    requires
        unique_keys(p),
    ensures
        unique_keys(pairs_or_insert(p, k, v)),
        lookup(pairs_or_insert(p, k, v), q) == if q == k && lookup(p, k) is None {
            Some(v)
        } else {
            lookup(p, q)
        },
{
    if !has_key(p, k) {
        lemma_lookup_insert(p, k, v, q);
    }
}

/// Reading back after a removal.
pub proof fn lemma_lookup_remove(p: AttrPairs, k: Seq<char>, q: Seq<char>)
    requires
        unique_keys(p),
    ensures
        unique_keys(pairs_remove(p, k)),
        lookup(pairs_remove(p, k), q) == if q == k {
            None
        } else {
            lookup(p, q)
        },
{
    let r = pairs_remove(p, k);
    if has_key(p, k) {
        let i = index_of(p, k);
        assert(p[i].0 == k);
        assert forall|a: int, b: int|
            0 <= a < r.len() && 0 <= b < r.len() && a != b implies #[trigger] r[a].0
            != #[trigger] r[b].0 by {
            let a2 = if a < i { a } else { a + 1 };
            let b2 = if b < i { b } else { b + 1 };
            assert(r[a] == p[a2]);
            assert(r[b] == p[b2]);
            assert(p[a2].0 != p[b2].0);
        }
        if has_key(r, q) {
            let j = index_of(r, q);
            assert(r[j].0 == q);
            let j2 = if j < i { j } else { j + 1 };
            assert(r[j] == p[j2]);
            assert(q != k);
            lemma_index_of(p, j2);
            lemma_index_of(r, j);
        }
        if q != k && has_key(p, q) {
            let j = index_of(p, q);
            assert(p[j].0 == q);
            assert(j != i);
            let j2 = if j < i { j } else { j - 1 };
            assert(r[j2] == p[j]);
            lemma_index_of(r, j2);
        }
    }
}

/// An attribute map: string keys, each present once, in storage order.
///
/// It is a vector of entries rather than a std `HashMap`: vstd states the
/// behaviour of a `HashMap` only for keys whose hashing and equality it models,
/// and with `String` keys nothing about `insert` or `get` could be proved. The
/// entries also keep the order in which the compiled expressions list them.
pub struct AttrMap {
    entries: Vec<(String, AttributeValue)>,
}

impl View for AttrMap {
    type V = Map<Seq<char>, AttrView>;

    open spec fn view(&self) -> Map<Seq<char>, AttrView> {
        pairs_map(self.pairs())
    }
}

impl AttrMap {
    /// The entries, in storage order.
    pub closed spec fn pairs(&self) -> AttrPairs {
        self.entries@.map_values(|e: (String, AttributeValue)| (e.0@, e.1@))
    }

    /// Every key occurs once.
    pub open spec fn wf(&self) -> bool {
        unique_keys(self.pairs())
    }

    /// An empty map.
    pub fn new() -> (r: AttrMap)
        ensures
            r.pairs() == Seq::<(Seq<char>, AttrView)>::empty(),
            r.wf(),
    {
        let r = AttrMap { entries: Vec::new() };
        assert(r.pairs() =~= Seq::<(Seq<char>, AttrView)>::empty());
        r
    }

    /// The number of entries.
    pub fn len(&self) -> (r: usize)
        ensures
            r == self.pairs().len(),
    {
        self.entries.len()
    }

    /// The key of the entry at `i`.
    pub fn key_at(&self, i: usize) -> (r: &String)
        requires
            i < self.pairs().len(),
        ensures
            r@ == self.pairs()[i as int].0,
    {
        &self.entries[i].0
    }

    /// The value of the entry at `i`.
    pub fn value_at(&self, i: usize) -> (r: &AttributeValue)
        requires
            i < self.pairs().len(),
        ensures
            r@ == self.pairs()[i as int].1,
    {
        &self.entries[i].1
    }

    /// The position of `k`, if present.
    pub fn find(&self, k: &str) -> (r: Option<usize>)
        requires
            self.wf(),
        ensures
            match r {
                Some(i) => i < self.pairs().len() && self.pairs()[i as int].0 == k@ && index_of(
                    self.pairs(),
                    k@,
                ) == i,
                None => !has_key(self.pairs(), k@),
            },
    {
        let key = String::from_str(k);
        let mut i: usize = 0;
        while i < self.entries.len()
            invariant
                i <= self.entries@.len(),
                self.wf(),
                key@ == k@,
                forall|j: int| 0 <= j < i ==> #[trigger] self.pairs()[j].0 != k@,
            decreases self.entries@.len() - i,
        {
            if self.entries[i].0 == key {
                proof {
                    lemma_index_of(self.pairs(), i as int);
                }
                return Some(i);
            }
            i = i + 1;
        }
        None
    }

    /// Whether `k` is present.
    pub fn contains(&self, k: &str) -> (r: bool)
        requires
            self.wf(),
        ensures
            r == has_key(self.pairs(), k@),
    {
        self.find(k).is_some()
    }

    /// The value stored under `k`, if any.
    pub fn get(&self, k: &str) -> (r: Option<&AttributeValue>)
        requires
            self.wf(),
        ensures
            match r {
                Some(v) => lookup(self.pairs(), k@) == Some(v@),
                None => lookup(self.pairs(), k@) is None,
            },
    {
        match self.find(k) {
            Some(i) => Some(&self.entries[i].1),
            None => None,
        }
    }

    /// Stores `v` under `k`, replacing a present value.
    pub fn insert(&mut self, k: String, v: AttributeValue)
        requires
            old(self).wf(),
        ensures
            final(self).wf(),
            final(self).pairs() == pairs_insert(old(self).pairs(), k@, v@),
    {
        proof {
            lemma_lookup_insert(self.pairs(), k@, v@, k@);
        }
        let ghost kv = k@;
        let ghost vv = v@;
        match self.find(k.as_str()) {
            Some(i) => {
                self.entries.set(i, (k, v));
                assert(self.pairs() =~= pairs_insert(old(self).pairs(), kv, vv));
            },
            None => {
                self.entries.push((k, v));
                assert(self.pairs() =~= pairs_insert(old(self).pairs(), kv, vv));
            },
        }
    }

    /// Stores `v` under `k` unless `k` is present.
    pub fn or_insert(&mut self, k: String, v: AttributeValue)
        requires
            old(self).wf(),
        ensures
            final(self).wf(),
            final(self).pairs() == pairs_or_insert(old(self).pairs(), k@, v@),
    {
        proof {
            lemma_lookup_or_insert(self.pairs(), k@, v@, k@);
        }
        let ghost kv = k@;
        let ghost vv = v@;
        if self.find(k.as_str()).is_none() {
            self.entries.push((k, v));
            assert(self.pairs() =~= pairs_or_insert(old(self).pairs(), kv, vv));
        }
    }

    /// Drops the entry of `k`, if any.
    pub fn remove(&mut self, k: &str)
        requires
            old(self).wf(),
        ensures
            final(self).wf(),
            final(self).pairs() == pairs_remove(old(self).pairs(), k@),
    {
        proof {
            lemma_lookup_remove(self.pairs(), k@, k@);
        }
        match self.find(k) {
            Some(i) => {
                self.entries.remove(i);
                assert(self.pairs() =~= pairs_remove(old(self).pairs(), k@));
            },
            None => {},
        }
    }

    /// A copy of this map.
    pub fn duplicate(&self) -> (r: AttrMap)
        ensures
            r.pairs() == self.pairs(),
    {
        let mut entries: Vec<(String, AttributeValue)> = Vec::new();
        let mut i: usize = 0;
        while i < self.entries.len()
            invariant
                i <= self.entries@.len(),
                entries@.len() == i,
                forall|j: int| 0 <= j < i ==> (#[trigger] entries@[j]).0@ == self.entries@[j].0@,
                forall|j: int| 0 <= j < i ==> (#[trigger] entries@[j]).1@ == self.entries@[j].1@,
            decreases self.entries@.len() - i,
        {
            let key = self.entries[i].0.clone();
            let value = self.entries[i].1.duplicate();
            entries.push((key, value));
            assert(entries@[i as int].0@ == self.entries@[i as int].0@);
            i = i + 1;
        }
        let r = AttrMap { entries };
        assert(r.pairs() =~= self.pairs());
        r
    }
}

} // verus!

verus! {

/// `b`'s entries added to `a` where `a` lacks their key, in `b`'s order.
pub open spec fn pairs_union(a: AttrPairs, b: AttrPairs) -> AttrPairs
    decreases b.len(),
{
    if b.len() == 0 {
        a
    } else {
        pairs_or_insert(pairs_union(a, b.drop_last()), b.last().0, b.last().1)
    }
}

/// The two maps agree wherever both have a value.
pub open spec fn compatible(a: Map<Seq<char>, AttrView>, b: Map<Seq<char>, AttrView>) -> bool {
    forall|k: Seq<char>| a.contains_key(k) && b.contains_key(k) ==> a[k] == b[k]
}

pub proof fn lemma_map_insert(p: AttrPairs, k: Seq<char>, v: AttrView)
    requires
        unique_keys(p),
    ensures
        pairs_map(pairs_insert(p, k, v)) == pairs_map(p).insert(k, v),
{
    let r = pairs_insert(p, k, v);
    assert forall|q: Seq<char>| #[trigger] pairs_map(r).contains_key(q) == pairs_map(p).insert(
        k,
        v,
    ).contains_key(q) && (pairs_map(r).contains_key(q) ==> pairs_map(r)[q] == pairs_map(p).insert(
        k,
        v,
    )[q]) by {
        lemma_lookup_insert(p, k, v, q);
    }
    assert(pairs_map(r) =~= pairs_map(p).insert(k, v));
}

pub proof fn lemma_map_prefix(p: AttrPairs, i: int)
    requires
        unique_keys(p),
        0 <= i < p.len(),
    ensures
        unique_keys(p.subrange(0, i)),
        pairs_map(p.subrange(0, i + 1)) == pairs_map(p.subrange(0, i)).insert(p[i].0, p[i].1),
        !pairs_map(p.subrange(0, i)).contains_key(p[i].0),
{
    let q = p.subrange(0, i);
    assert(unique_keys(q)) by {
        assert forall|a: int, b: int|
            0 <= a < q.len() && 0 <= b < q.len() && a != b implies #[trigger] q[a].0
            != #[trigger] q[b].0 by {
            assert(q[a] == p[a]);
            assert(q[b] == p[b]);
        }
    }
    if has_key(q, p[i].0) {
        let j = index_of(q, p[i].0);
        assert(q[j] == p[j]);
    }
    assert(pairs_insert(q, p[i].0, p[i].1) =~= p.subrange(0, i + 1));
    lemma_map_insert(q, p[i].0, p[i].1);
}

impl AttrMap {
    /// Adds the entries of `other`; fails when a key of both holds different
    /// values. On success the map is the union of both.
    pub fn merge_compatible(&mut self, other: &AttrMap) -> (r: bool)
        requires
            old(self).wf(),
            other.wf(),
        ensures
            r == compatible(old(self)@, other@),
            r ==> final(self).wf() && final(self)@ == old(self)@.union_prefer_right(other@)
                && final(self).pairs() == pairs_union(old(self).pairs(), other.pairs()),
    {
        let ghost start = self@;
        let ghost op = other.pairs();
        let mut i: usize = 0;
        assert(op.subrange(0, 0) =~= Seq::<(Seq<char>, AttrView)>::empty());
        assert(pairs_map(op.subrange(0, 0)) =~= Map::<Seq<char>, AttrView>::empty());
        assert(start.union_prefer_right(Map::<Seq<char>, AttrView>::empty()) =~= start);
        while i < other.len()
            invariant
                self.wf(),
                other.wf(),
                op == other.pairs(),
                start == old(self)@,
                self.pairs() == pairs_union(old(self).pairs(), op.subrange(0, i as int)),
                i <= op.len(),
                self@ == start.union_prefer_right(pairs_map(op.subrange(0, i as int))),
                compatible(start, pairs_map(op.subrange(0, i as int))),
            decreases op.len() - i,
        {
            proof {
                lemma_map_prefix(op, i as int);
                lemma_index_of(op, i as int);
            }
            let ghost prefix = pairs_map(op.subrange(0, i as int));
            let ghost next = pairs_map(op.subrange(0, i as int + 1));
            proof {
                let s = op.subrange(0, i as int + 1);
                assert(s.drop_last() =~= op.subrange(0, i as int));
                assert(s.last() == op[i as int]);
            }
            let k = other.key_at(i);
            let v = other.value_at(i);
            let found = match self.get(k.as_str()) {
                Some(cur) => {
                    if !cur.same_as(v) {
                        proof {
                            assert(self@.contains_key(k@));
                            assert(!prefix.contains_key(k@));
                            assert(start.contains_key(k@));
                            assert(self@[k@] == start[k@]);
                            assert(self@[k@] == cur@);
                            assert(other@.contains_key(k@));
                            assert(other@[k@] == v@);
                            assert(!compatible(start, other@));
                        }
                        return false;
                    }
                    proof {
                        assert(self@.contains_key(k@));
                        assert(has_key(self.pairs(), k@));
                        assert(!prefix.contains_key(k@));
                        assert(self@[k@] == cur@);
                        assert(start.contains_key(k@));
                        assert(start[k@] == v@);
                    }
                    true
                },
                None => {
                    proof {
                        assert(!has_key(self.pairs(), k@));
                        assert(!self@.contains_key(k@));
                        assert(!start.contains_key(k@));
                    }
                    false
                },
            };
            if !found {
                proof {
                    lemma_map_insert(self.pairs(), k@, v@);
                }
                self.insert(k.clone(), v.duplicate());
            }
            proof {
                assert(self@ =~= start.union_prefer_right(next));
                assert forall|q: Seq<char>| start.contains_key(q) && next.contains_key(q) implies start[q]
                    == next[q] by {
                    if q != k@ {
                        assert(prefix.contains_key(q));
                    }
                }
            }
            i = i + 1;
        }
        proof {
            assert(op.subrange(0, op.len() as int) =~= op);
        }
        true
    }
}

/// `s` with `x` appended unless already held.
pub open spec fn dedup_push<A>(s: Seq<A>, x: A) -> Seq<A> {
    if s.contains(x) {
        s
    } else {
        s.push(x)
    }
}

/// `a` followed by each element of `b` not held yet, in order.
pub open spec fn seq_union<A>(a: Seq<A>, b: Seq<A>) -> Seq<A>
    decreases b.len(),
{
    if b.len() == 0 {
        a
    } else {
        dedup_push(seq_union(a, b.drop_last()), b.last())
    }
}

/// A union holds the elements of both, and repeats none that `a` did not.
pub proof fn lemma_seq_union<A>(a: Seq<A>, b: Seq<A>)
    ensures
        seq_union(a, b).to_set() == a.to_set() + b.to_set(),
        a.no_duplicates() ==> seq_union(a, b).no_duplicates(),
    decreases b.len(),
{
    if b.len() > 0 {
        let s = seq_union(a, b.drop_last());
        lemma_seq_union(a, b.drop_last());
        lemma_push_to_set(b.drop_last(), b.last());
        assert(b.drop_last().push(b.last()) =~= b);
        if !s.contains(b.last()) {
            lemma_push_to_set(s, b.last());
            if s.no_duplicates() {
                assert forall|i: int, j: int|
                    0 <= i < s.push(b.last()).len() && 0 <= j < s.push(b.last()).len() && i != j
                        implies s.push(b.last())[i] != s.push(b.last())[j] by {
                    if i == s.len() as int {
                        assert(s[j] != b.last());
                    } else if j == s.len() as int {
                        assert(s[i] != b.last());
                    }
                }
            }
        } else {
            assert(s.to_set().contains(b.last()));
            assert(s.to_set().insert(b.last()) =~= s.to_set());
        }
    }
}

/// Pushing adds one element to the set of elements.
pub proof fn lemma_push_to_set<A>(s: Seq<A>, x: A)
    ensures
        s.push(x).to_set() == s.to_set().insert(x),
{
    assert forall|y: A| #[trigger] s.push(x).contains(y) <==> s.contains(y) || y == x by {
        if s.contains(y) {
            let j = choose|j: int| 0 <= j < s.len() && s[j] == y;
            assert(s.push(x)[j] == y);
        }
        if y == x {
            assert(s.push(x)[s.len() as int] == x);
        }
        if s.push(x).contains(y) {
            let j = choose|j: int| 0 <= j < s.len() + 1 && s.push(x)[j] == y;
            if j < s.len() {
                assert(s[j] == y);
            }
        }
    }
    assert(s.push(x).to_set() =~= s.to_set().insert(x));
}

/// Whether `v` holds `s`.
pub fn contains_string(v: &Vec<String>, s: &String) -> (r: bool)
    ensures
        r == strings_view(v@).contains(s@),
{
    let mut i: usize = 0;
    while i < v.len()
        invariant
            i <= v@.len(),
            forall|j: int| 0 <= j < i ==> (#[trigger] v@[j])@ != s@,
        decreases v@.len() - i,
    {
        if v[i] == *s {
            assert(strings_view(v@)[i as int] == s@);
            return true;
        }
        i = i + 1;
    }
    proof {
        if strings_view(v@).contains(s@) {
            let j = choose|j: int| 0 <= j < v@.len() && strings_view(v@)[j] == s@;
            assert(v@[j]@ == s@);
        }
    }
    false
}

/// Appends to `a` each string of `b` that it does not hold yet.
pub fn union_strings(a: &mut Vec<String>, b: Vec<String>)
    ensures
        strings_view(final(a)@) == seq_union(strings_view(old(a)@), strings_view(b@)),
{
    let ghost start = strings_view(a@);
    let mut i: usize = 0;
    while i < b.len()
        invariant
            i <= b@.len(),
            start == strings_view(old(a)@),
            strings_view(a@) == seq_union(start, strings_view(b@.subrange(0, i as int))),
        decreases b@.len() - i,
    {
        let ghost before = a@;
        proof {
            let s = strings_view(b@.subrange(0, i as int + 1));
            assert(s.drop_last() =~= strings_view(b@.subrange(0, i as int)));
            assert(s.last() == b@[i as int]@);
        }
        if !contains_string(a, &b[i]) {
            a.push(b[i].clone());
            assert(strings_view(a@) =~= strings_view(before).push(b@[i as int]@));
        }
        i = i + 1;
    }
    assert(b@.subrange(0, i as int) =~= b@);
}

/// The union of two agreeing entry lists is the union of their maps.
pub proof fn lemma_pairs_union_map(a: AttrPairs, b: AttrPairs)
    requires
        unique_keys(a),
        unique_keys(b),
        compatible(pairs_map(a), pairs_map(b)),
    ensures
        unique_keys(pairs_union(a, b)),
        pairs_map(pairs_union(a, b)) == pairs_map(a).union_prefer_right(pairs_map(b)),
    decreases b.len(),
{
    if b.len() == 0 {
        assert(pairs_map(b) =~= Map::<Seq<char>, AttrView>::empty());
        assert(pairs_map(a).union_prefer_right(pairs_map(b)) =~= pairs_map(a));
    } else {
        let i = b.len() - 1;
        lemma_map_prefix(b, i);
        let b1 = b.subrange(0, i);
        assert(b.drop_last() =~= b1);
        assert(b.subrange(0, i + 1) =~= b);
        let x = b.last();
        assert(x == b[i]);
        assert(compatible(pairs_map(a), pairs_map(b1))) by {
            assert forall|k: Seq<char>| pairs_map(a).contains_key(k) && pairs_map(b1).contains_key(k) implies pairs_map(a)[k] == pairs_map(b1)[k] by {
                assert(pairs_map(b).contains_key(k));
            }
        }
        lemma_pairs_union_map(a, b1);
        let u = pairs_union(a, b1);
        if has_key(u, x.0) {
            assert(pairs_map(u).contains_key(x.0));
            assert(pairs_map(a).contains_key(x.0));
            assert(pairs_map(b).contains_key(x.0));
            assert(pairs_map(a)[x.0] == x.1);
            assert(pairs_map(a).union_prefer_right(pairs_map(b)) =~= pairs_map(a).union_prefer_right(pairs_map(b1)));
        } else {
            assert(pairs_or_insert(u, x.0, x.1) == pairs_insert(u, x.0, x.1));
            lemma_lookup_insert(u, x.0, x.1, x.0);
            lemma_map_insert(u, x.0, x.1);
            assert(pairs_map(a).union_prefer_right(pairs_map(b)) =~= pairs_map(a).union_prefer_right(pairs_map(b1)).insert(x.0, x.1));
        }
    }
}

} // verus!
