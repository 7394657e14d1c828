//! The data model: parsed values, assignments, and the top-level message.
//!
//! A message maps identifiers (raw byte sequences) to values. It is stored as
//! an association list with pairwise-distinct keys; a repeated identifier
//! overwrites the earlier entry (last write wins), so insertion order carries
//! no meaning and the mathematical model is a `Map` from key bytes to values.

use vstd::pervasive::VecAdditionalExecFns;
use vstd::prelude::*;

verus! {

/// A decimal literal, kept exact: the denoted number is
/// `mantissa / 10^scale`, negated when `neg` holds.
///
/// The decoder accumulates every digit into the mantissa and counts the
/// digits that follow the decimal point, so no rounding ever happens.
#[derive(Debug, Clone, Copy, PartialEq, Eq)]
pub struct Decimal {
    /// Whether the number is negative.
    pub neg: bool,
    /// All digits of the literal, read positionally in base 10.
    pub mantissa: u64,
    /// How many of the mantissa's trailing digits sit after the point.
    pub scale: usize,
}

/// Any valid value.
#[derive(Debug)]
pub enum Value {
    String(String),
    Unsigned(usize),
    Signed(isize),
    Float(Decimal),
    Bool(bool),
    List(Vec<Value>),
    Mapping(Vec<Assign>),
}

/// The mathematical model of a [`Value`]: strings become character
/// sequences, lists become sequences, and maps become finite maps from raw
/// key bytes to values.
pub enum SpecValue {
    String(Seq<char>),
    Unsigned(usize),
    Signed(isize),
    Float(Decimal),
    Bool(bool),
    List(Seq<SpecValue>),
    Mapping(Map<Seq<u8>, SpecValue>),
}

/// The model of a list of values.
pub open spec fn list_view(s: Seq<Value>) -> Seq<SpecValue>
    decreases s,
{
    if s.len() == 0 {
        Seq::empty()
    } else {
        list_view(s.drop_last()).push(value_view(s.last()))
    }
}

/// The model of an association list: a later entry with the same key
/// overwrites an earlier one.
pub open spec fn entries_view(s: Seq<Assign>) -> Map<Seq<u8>, SpecValue>
    decreases s,
{
    if s.len() == 0 {
        Map::empty()
    } else {
        entries_view(s.drop_last()).insert(s.last().0@, value_view(s.last().1))
    }
}

/// The model of a single value.
pub open spec fn value_view(v: Value) -> SpecValue
    decreases v,
{
    match v {
        Value::String(s) => SpecValue::String(s@),
        Value::Unsigned(n) => SpecValue::Unsigned(n),
        Value::Signed(n) => SpecValue::Signed(n),
        Value::Float(d) => SpecValue::Float(d),
        Value::Bool(b) => SpecValue::Bool(b),
        Value::List(l) => SpecValue::List(list_view(l@)),
        Value::Mapping(m) => SpecValue::Mapping(entries_view(m@)),
    }
}

impl View for Value {
    type V = SpecValue;

    open spec fn view(&self) -> SpecValue {
        value_view(*self)
    }
}

/// One `identifier = value` unit: the raw identifier bytes and the decoded
/// value.
#[derive(Debug)]
pub struct Assign(pub Vec<u8>, pub Value);

/// The top-level parsed result: a mapping from raw identifier bytes to
/// values, with pairwise-distinct keys.
#[derive(Debug)]
pub struct Message(pub Vec<Assign>);

/// The key/value pair models of a run of assignments, in order.
pub open spec fn assign_pairs_view(s: Seq<Assign>) -> Seq<(Seq<u8>, SpecValue)> {
    s.map_values(|a: Assign| (a.0@, value_view(a.1)))
}

/// Keys of an association list are pairwise distinct.
pub open spec fn unique_keys(s: Seq<Assign>) -> bool {
    forall|i: int, j: int| 0 <= i < j < s.len() ==> s[i].0@ != s[j].0@
}

impl View for Message {
    type V = Map<Seq<u8>, SpecValue>;

    open spec fn view(&self) -> Map<Seq<u8>, SpecValue> {
        entries_view(self.0@)
    }
}

impl Message {
    /// The message holds its entries with pairwise-distinct keys.
    pub open spec fn wf(&self) -> bool {
        unique_keys(self.0@)
    }

    /// An empty message.
    pub fn new() -> (r: Message)
        ensures
            r@ == Map::<Seq<u8>, SpecValue>::empty(),
            r.wf(),
    {
        Message(Vec::new())
    }

    /// Bind `key` to `value`, overwriting any earlier binding of the same
    /// key.
    pub fn insert(&mut self, key: Vec<u8>, value: Value)
        requires
            old(self).wf(),
        ensures
            final(self).wf(),
            final(self)@ == old(self)@.insert(key@, value@),
    {
        let n = self.0.len();
        let mut i: usize = 0;
        while i < n
            invariant
                self.0@ == old(self).0@,
                unique_keys(self.0@),
                n == self.0@.len(),
                0 <= i <= n,
                forall|j: int| 0 <= j < i ==> self.0@[j].0@ != key@,
            decreases n - i,
        {
            if bytes_eq(self.0[i].0.as_slice(), key.as_slice()) {
                let pair = Assign(key, value);
                proof {
                    lemma_entries_view_overwrite(self.0@, i as int, pair);
                }
                self.0.set(i, pair);
                return ;
            }
            i = i + 1;
        }
        let pair = Assign(key, value);
        proof {
            assert(self.0@.push(pair).drop_last() =~= self.0@);
        }
        self.0.push(pair);
    }

    /// Look a key up; `None` exactly when the message has no such key.
    pub fn get(&self, key: &[u8]) -> (r: Option<&Value>)
        requires
            self.wf(),
        ensures
            match r {
                Some(v) => self@.contains_key(key@) && v@ == self@[key@],
                None => !self@.contains_key(key@),
            },
    {
        let n = self.0.len();
        let mut i: usize = 0;
        while i < n
            invariant
                unique_keys(self.0@),
                n == self.0@.len(),
                0 <= i <= n,
                forall|j: int| 0 <= j < i ==> self.0@[j].0@ != key@,
            decreases n - i,
        {
            if bytes_eq(self.0[i].0.as_slice(), key) {
                proof {
                    lemma_entries_view_at(self.0@, i as int);
                }
                return Some(&self.0[i].1);
            }
            i = i + 1;
        }
        proof {
            lemma_entries_view_domain(self.0@, key@);
        }
        None
    }
}

/// Two byte slices hold the same bytes.
pub fn bytes_eq(a: &[u8], b: &[u8]) -> (r: bool)
    ensures
        r == (a@ == b@),
{
    if a.len() != b.len() {
        proof {
            assert(a@ != b@) by {
                assert(a@.len() != b@.len());
            }
        }
        return false;
    }
    let n = a.len();
    let mut i: usize = 0;
    while i < n
        invariant
            n == a@.len() == b@.len(),
            0 <= i <= n,
            forall|j: int| 0 <= j < i ==> a@[j] == b@[j],
        decreases n - i,
    {
        if a[i] != b[i] {
            return false;
        }
        i = i + 1;
    }
    proof {
        assert(a@ =~= b@);
    }
    true
}

/// A key occurs in the model of an association list exactly when some entry
/// carries it.
proof fn lemma_entries_view_domain(s: Seq<Assign>, k: Seq<u8>)
    ensures
        entries_view(s).contains_key(k) <==> exists|i: int| 0 <= i < s.len() && s[i].0@ == k,
    decreases s.len(),
{
    if s.len() > 0 {
        lemma_entries_view_domain(s.drop_last(), k);
        if s.last().0@ != k && entries_view(s).contains_key(k) {
            let i = choose|i: int| 0 <= i < s.drop_last().len() && s.drop_last()[i].0@ == k;
            assert(s[i].0@ == k);
        }
        if exists|i: int| 0 <= i < s.len() && s[i].0@ == k {
            let i = choose|i: int| 0 <= i < s.len() && s[i].0@ == k;
            if i < s.len() - 1 {
                assert(s.drop_last()[i].0@ == k);
            }
        }
    }
}

/// Under distinct keys, the model maps the key of entry `i` to that entry's
/// value.
proof fn lemma_entries_view_at(s: Seq<Assign>, i: int)
    requires
        unique_keys(s),
        0 <= i < s.len(),
    ensures
        entries_view(s).contains_key(s[i].0@),
        entries_view(s)[s[i].0@] == value_view(s[i].1),
    decreases s.len(),
{
    if i < s.len() - 1 {
        assert(unique_keys(s.drop_last()));
        assert(s.drop_last()[i] == s[i]);
        lemma_entries_view_at(s.drop_last(), i);
        assert(s.last().0@ != s[i].0@);
    }
}

/// Under distinct keys, replacing the entry that carries key `p.0@` with `p`
/// models as a plain map insertion, and keeps the keys distinct.
proof fn lemma_entries_view_overwrite(s: Seq<Assign>, i: int, p: Assign)
    requires
        unique_keys(s),
        0 <= i < s.len(),
        s[i].0@ == p.0@,
    ensures
        entries_view(s.update(i, p)) =~= entries_view(s).insert(p.0@, value_view(p.1)),
        unique_keys(s.update(i, p)),
    decreases s.len(),
{
    let u = s.update(i, p);
    if i == s.len() - 1 {
        assert(u.drop_last() =~= s.drop_last());
        assert(u.last() == p);
    } else {
        assert(unique_keys(s.drop_last()));
        assert(u.drop_last() =~= s.drop_last().update(i, p));
        lemma_entries_view_overwrite(s.drop_last(), i, p);
        assert(s.last().0@ != p.0@);
        assert(u.last() == s.last());
    }
}

} // verus!
