//! Attributes of declarations, and the insertion-ordered sets that hold them.

use indexmap::IndexSet;
use vstd::prelude::*;

verus! {

/// Enumeration of supported attributes for declarations.
#[derive(Clone, Debug, Eq, Hash, PartialEq)]
pub enum Attribute {
    /// `__attribute__((alias("foo"), __alias__("foo")))`
    Alias(String),
    /// `__attribute__((always_inline, __always_inline__))`
    AlwaysInline,
    /// `__attribute__((cold, __cold__))`
    Cold,
    /// `__attribute__((gnu_inline, __gnu_inline__))`
    GnuInline,
    /// `__attribute__((no_inline, __no_inline__))`
    NoInline,
    NoReturn,
    NotNull,
    Nullable,
    /// `__attribute__((section("foo"), __section__("foo")))`
    Section(String),
    /// `__attribute__((used, __used__))`
    Used,
    /// `__attribute((visibility("hidden")))`
    Visibility(String),
}

impl Attribute {
    /// Which attribute it is, as a small number.
    pub open spec fn spec_tag(&self) -> u8 {
        match self {
            Attribute::Alias(_) => 0,
            Attribute::AlwaysInline => 1,
            Attribute::Cold => 2,
            Attribute::GnuInline => 3,
            Attribute::NoInline => 4,
            Attribute::NoReturn => 5,
            Attribute::NotNull => 6,
            Attribute::Nullable => 7,
            Attribute::Section(_) => 8,
            Attribute::Used => 9,
            Attribute::Visibility(_) => 10,
        }
    }

    /// The text that the attribute carries; empty where it carries none.
    pub open spec fn text(&self) -> Seq<char> {
        match self {
            Attribute::Alias(s) => s@,
            Attribute::Section(s) => s@,
            Attribute::Visibility(s) => s@,
            _ => Seq::empty(),
        }
    }

    /// What tells two attributes apart: which one it is, and its text.
    pub open spec fn key(&self) -> (u8, Seq<char>) {
        (self.spec_tag(), self.text())
    }

    fn to_key(&self) -> (r: (u8, String))
        ensures
            (r.0, r.1@) == self.key(),
    {
        match self {
            Attribute::Alias(s) => (0, s.clone()),
            Attribute::AlwaysInline => (1, String::new()),
            Attribute::Cold => (2, String::new()),
            Attribute::GnuInline => (3, String::new()),
            Attribute::NoInline => (4, String::new()),
            Attribute::NoReturn => (5, String::new()),
            Attribute::NotNull => (6, String::new()),
            Attribute::Nullable => (7, String::new()),
            Attribute::Section(s) => (8, s.clone()),
            Attribute::Used => (9, String::new()),
            Attribute::Visibility(s) => (10, s.clone()),
        }
    }

    /// The attribute with that key.
    fn from_key(key: &(u8, String)) -> (r: Attribute)
        requires
            is_attribute_key((key.0, key.1@)),
        ensures
            r.key() == (key.0, key.1@),
    {
        assert(key.1@.len() == 0 ==> key.1@ =~= Seq::empty());
        match key.0 {
            0 => Attribute::Alias(key.1.clone()),
            1 => Attribute::AlwaysInline,
            2 => Attribute::Cold,
            3 => Attribute::GnuInline,
            4 => Attribute::NoInline,
            5 => Attribute::NoReturn,
            6 => Attribute::NotNull,
            7 => Attribute::Nullable,
            8 => Attribute::Section(key.1.clone()),
            9 => Attribute::Used,
            _ => Attribute::Visibility(key.1.clone()),
        }
    }

    /// Whether the two are the same attribute with the same text.
    pub fn same(&self, other: &Attribute) -> (r: bool)
        ensures
            r == (self.key() == other.key()),
    {
        let a = self.to_key();
        let b = other.to_key();
        a.0 == b.0 && a.1 == b.1
    }
}

/// The key belongs to an attribute: the number does, and there is a text only
/// where that attribute carries one.
pub open spec fn is_attribute_key(key: (u8, Seq<char>)) -> bool {
    key.0 <= 10 && (key.0 == 0 || key.0 == 8 || key.0 == 10 || key.1.len() == 0)
}

/// `indexmap::IndexSet`, which Verus sees as opaque.
#[verifier::external_type_specification]
#[verifier::external_body]
#[verifier::reject_recursive_types(T)]
#[verifier::reject_recursive_types(S)]
pub struct ExIndexSet<T, S>(IndexSet<T, S>);

/// The items of an index set of attribute keys, in the order of insertion.
pub uninterp spec fn attribute_keys(set: IndexSet<(u8, String)>) -> Seq<(u8, Seq<char>)>;

/// `IndexSet::new`: the set is empty.
#[verifier::external_body]
fn index_set_new() -> (r: IndexSet<(u8, String)>)
    ensures
        attribute_keys(r) == (Seq::<(u8, Seq<char>)>::empty()),
{
    IndexSet::new()
}

/// `IndexSet::insert`: an item that the set has not got goes to the end, and
/// `true` comes back; otherwise the set stays as it is, and `false` comes back.
#[verifier::external_body]
fn index_set_insert(set: &mut IndexSet<(u8, String)>, item: (u8, String)) -> (r: bool)
    ensures
        r == !attribute_keys(*old(set)).contains((item.0, item.1@)),
        attribute_keys(*final(set)) == if r {
            attribute_keys(*old(set)).push((item.0, item.1@))
        } else {
            attribute_keys(*old(set))
        },
{
    set.insert(item)
}

/// `IndexSet::contains`: whether an equal item is in the set.
#[verifier::external_body]
fn index_set_contains(set: &IndexSet<(u8, String)>, item: &(u8, String)) -> (r: bool)
    ensures
        r == attribute_keys(*set).contains((item.0, item.1@)),
{
    set.contains(item)
}

/// `IndexSet::len`: how many items there are.
#[verifier::external_body]
fn index_set_len(set: &IndexSet<(u8, String)>) -> (r: usize)
    ensures
        r == attribute_keys(*set).len(),
{
    set.len()
}

/// `IndexSet::get_index`: the item at a place in the order, if there are that
/// many.
#[verifier::external_body]
fn index_set_get_index(set: &IndexSet<(u8, String)>, index: usize) -> (r: Option<&(u8, String)>)
    ensures
        match r {
            Some(item) => {
                &&& index < attribute_keys(*set).len()
                &&& (item.0, item.1@) == attribute_keys(*set)[index as int]
            },
            None => index >= attribute_keys(*set).len(),
        },
{
    set.get_index(index)
}

/// A set of attributes that remembers the order of insertion.
#[derive(Debug)]
pub struct AttributeSet {
    set: IndexSet<(u8, String)>,
}

impl View for AttributeSet {
    type V = Seq<(u8, Seq<char>)>;

    closed spec fn view(&self) -> Seq<(u8, Seq<char>)> {
        attribute_keys(self.set)
    }
}

/// Every key belongs to an attribute, and is there once.
pub open spec fn are_attribute_keys(keys: Seq<(u8, Seq<char>)>) -> bool {
    &&& keys.no_duplicates()
    &&& forall|i: int| 0 <= i < keys.len() ==> is_attribute_key(#[trigger] keys[i])
}

impl AttributeSet {
    #[verifier::type_invariant]
    spec fn holds_attributes(self) -> bool {
        are_attribute_keys(self@)
    }

    /// The empty set.
    pub fn new() -> (r: AttributeSet)
        ensures
            r@ == (Seq::<(u8, Seq<char>)>::empty()),
    {
        AttributeSet { set: index_set_new() }
    }

    /// Adds `attribute` at the end unless the set has it; tells whether it was new.
    pub fn insert(&mut self, attribute: &Attribute) -> (r: bool)
        ensures
            r == !old(self)@.contains(attribute.key()),
            final(self)@ == if r {
                old(self)@.push(attribute.key())
            } else {
                old(self)@
            },
    {
        proof {
            use_type_invariant(&*self);
        }
        let mut set = index_set_new();
        std::mem::swap(&mut set, &mut self.set);
        let r = index_set_insert(&mut set, attribute.to_key());
        self.set = set;
        r
    }

    /// How many attributes the set has.
    pub fn len(&self) -> (r: usize)
        ensures
            r == self@.len(),
    {
        index_set_len(&self.set)
    }

    /// The attribute at a place in the order of insertion.
    pub fn get(&self, index: usize) -> (r: Option<Attribute>)
        ensures
            r is Some <==> index < self@.len(),
            r matches Some(attribute) ==> attribute.key() == self@[index as int],
    {
        proof {
            use_type_invariant(self);
        }
        match index_set_get_index(&self.set, index) {
            Some(key) => Some(Attribute::from_key(key)),
            None => None,
        }
    }

    /// Whether the set has `attribute`.
    pub fn contains(&self, attribute: &Attribute) -> (r: bool)
        ensures
            r == self@.contains(attribute.key()),
    {
        index_set_contains(&self.set, &attribute.to_key())
    }
}

impl Clone for AttributeSet {
    /// A set with the same attributes in the same order.
    fn clone(&self) -> (r: AttributeSet)
        ensures
            r@ == self@,
    {
        proof {
            use_type_invariant(self);
        }
        let n = self.len();
        let mut r = AttributeSet::new();
        let mut index: usize = 0;
        while index < n
            invariant
                are_attribute_keys(self@),
                n == self@.len(),
                index <= n,
                r@ == self@.take(index as int),
            decreases n - index,
        {
            let attribute = self.get(index).unwrap();
            assert(!r@.contains(attribute.key()));
            let _ = r.insert(&attribute);
            assert(self@.take(index + 1) =~= self@.take(index as int).push(attribute.key()));
            index = index + 1;
        }
        assert(self@.take(self@.len() as int) =~= self@);
        r
    }
}

/// The keys of attributes tell them apart: with one key, two attributes are
/// the same one with the same text.
pub proof fn law_keys_tell_attributes_apart(a: Attribute, b: Attribute)
    ensures
        is_attribute_key(a.key()),
        a.key() == b.key() <==> match (a, b) {
            (Attribute::Alias(s), Attribute::Alias(t)) => s@ == t@,
            (Attribute::Section(s), Attribute::Section(t)) => s@ == t@,
            (Attribute::Visibility(s), Attribute::Visibility(t)) => s@ == t@,
            _ => a == b,
        },
{
}

} // verus!
