use vstd::prelude::*;

verus! {

/// A plain data value, as it appears in input records, in rule outcomes and
/// as the result of a registered function.
///
/// A number is carried as its decimal text (this crate holds no floating-point
/// values); an array or object payload is carried serialized, in the
/// `Structured` variant, and the engine never looks inside it.
#[derive(Debug, Clone, PartialEq)]
pub enum Value {
    Null,
    Bool(bool),
    Number(String),
    Str(String),
    Structured(String),
}

/// The mathematical shape of a [`Value`]: the same variants over `Seq<char>`.
pub enum ValueRepr {
    Null,
    Bool(bool),
    Number(Seq<char>),
    Str(Seq<char>),
    Structured(Seq<char>),
}

impl View for Value {
    type V = ValueRepr;

    open spec fn view(&self) -> ValueRepr {
        match self {
            Value::Null => ValueRepr::Null,
            Value::Bool(b) => ValueRepr::Bool(*b),
            Value::Number(s) => ValueRepr::Number(s@),
            Value::Str(s) => ValueRepr::Str(s@),
            Value::Structured(s) => ValueRepr::Structured(s@),
        }
    }
}

impl Value {
    /// A verified deep copy (the derived `Clone` is opaque to the verifier).
    pub fn duplicate(&self) -> (r: Value)
        ensures
            r@ == self@,
    {
        match self {
            Value::Null => Value::Null,
            Value::Bool(b) => Value::Bool(*b),
            Value::Number(s) => Value::Number(s.clone()),
            Value::Str(s) => Value::Str(s.clone()),
            Value::Structured(s) => Value::Structured(s.clone()),
        }
    }
}

/// A record of named values: the input handed to `evaluate`, and the
/// secondary context record.  A later `insert` with the same key replaces the
/// earlier value.  Viewed as a `Map<Seq<char>, ValueRepr>`.
#[derive(Debug, Clone)]
pub struct Record {
    pub(crate) entries: Vec<(String, Value)>,
}

/// The map described by an entry list; later entries win.
pub open spec fn entries_map(s: Seq<(String, Value)>) -> Map<Seq<char>, ValueRepr>
    decreases s,
{
    if s.len() == 0 {
        Map::empty()
    } else {
        entries_map(s.drop_last()).insert(s.last().0@, s.last().1@)
    }
}

impl View for Record {
    type V = Map<Seq<char>, ValueRepr>;

    closed spec fn view(&self) -> Map<Seq<char>, ValueRepr> {
        entries_map(self.entries@)
    }
}

/// The closed view, spelled out for the crate's other modules: a record is
/// the map its entry list describes.
pub(crate) proof fn lemma_record_entries(r: &Record)
    ensures
        r@ == entries_map(r.entries@),
{
}

impl Record {
    pub fn new() -> (r: Record)
        ensures
            r@ == Map::<Seq<char>, ValueRepr>::empty(),
    {
        Record { entries: Vec::new() }
    }

    pub fn insert(&mut self, key: String, value: Value)
        ensures
            final(self)@ == old(self)@.insert(key@, value@),
    {
        self.entries.push((key, value));
        proof {
            assert(self.entries@.drop_last() == old(self).entries@);
        }
    }

    /// Looks a key up; the latest value inserted under it, if any.
    pub fn get(&self, key: &str) -> (r: Option<&Value>)
        ensures
            match r {
                Some(v) => self@.contains_key(key@) && v@ == self@[key@],
                None => !self@.contains_key(key@),
            },
    {
        let ghost full = self.entries@;
        let mut i: usize = self.entries.len();
        proof {
            assert(full.take(full.len() as int) =~= full);
        }
        while i > 0
            invariant
                0 <= i <= self.entries@.len(),
                full == self.entries@,
                entries_map(full).contains_key(key@) == entries_map(full.take(i as int)).contains_key(
                    key@,
                ),
                entries_map(full).contains_key(key@) ==> entries_map(full)[key@] == entries_map(
                    full.take(i as int),
                )[key@],
            decreases i,
        {
            proof {
                assert(full.take(i as int).drop_last() == full.take(i as int - 1));
                assert(full.take(i as int).last() == full[i as int - 1]);
            }
            if crate::text::str_eq(self.entries[i - 1].0.as_str(), key) {
                return Some(&self.entries[i - 1].1);
            }
            i = i - 1;
        }
        proof {
            assert(full.take(0) =~= Seq::<(String, Value)>::empty());
        }
        None
    }
}

/// A condition to evaluate: a simple `key operator literal` expression, or a
/// nested conjunction or disjunction of further conditions.
#[derive(Debug)]
pub enum Condition {
    Simple(String),
    And(Vec<Condition>),
    Or(Vec<Condition>),
}

/// The key/value payload a rule emits when its condition holds.
#[derive(Debug, Clone, PartialEq)]
pub struct Outcome {
    pub key: String,
    pub value: Value,
}

/// The mathematical shape of an [`Outcome`].
pub struct OutcomeRepr {
    pub key: Seq<char>,
    pub value: ValueRepr,
}

impl View for Outcome {
    type V = OutcomeRepr;

    open spec fn view(&self) -> OutcomeRepr {
        OutcomeRepr { key: self.key@, value: self.value@ }
    }
}

impl Outcome {
    /// A verified deep copy (the derived `Clone` is opaque to the verifier).
    pub fn duplicate(&self) -> (r: Outcome)
        ensures
            r@ == self@,
    {
        Outcome { key: self.key.clone(), value: self.value.duplicate() }
    }
}

/// A single rule: a condition, the outcome it emits, and a priority.  A higher
/// priority is evaluated (and, in the result, emitted) first.
#[derive(Debug)]
pub struct Rule {
    pub condition: Condition,
    pub outcome: Outcome,
    pub priority: i32,
}

/// The priority a rule gets when none is given.
pub fn default_priority() -> (r: i32)
    ensures
        r == 0,
{
    0
}

impl Default for Rule {
    /// An empty simple condition, a null outcome under an empty key, and the
    /// default priority.
    fn default() -> (r: Rule)
        ensures
            r.condition matches Condition::Simple(e) && e@ == Seq::<char>::empty(),
            r.outcome.key@ == Seq::<char>::empty(),
            r.outcome.value is Null,
            r.priority == 0,
    {
        Rule {
            condition: Condition::Simple(String::new()),
            outcome: Outcome { key: String::new(), value: Value::Null },
            priority: default_priority(),
        }
    }
}

} // verus!
