//! The dynamically shaped values of the entity store.
//!
//! An entity is a mapping from field names to tagged values, modelled as an
//! association list with pairwise distinct keys and viewed, in contracts,
//! as a `Map<Seq<char>, ValueView>`. A schema — a list of entity type
//! definitions, each with its declared and its required fields — decides
//! whether an entity is acceptable for a key.

use vstd::prelude::*;
use vstd::slice::slice_to_vec;
use vstd::string::StrSliceExecFns;
use crate::bigdec::{BigDecimal, dec_rendering};
use crate::bigint::{
    big_int_value, bi_clone, bi_bits, bi_from_i64, bi_to_dec_string, bit_len, abs_int,
    dec_string_of,
};
use crate::codec::{hex_encode, hex_seq};
use crate::gas::{sat_add, cap64};
use vstd::string::StringExecFns;

verus! {

broadcast use vstd::std_specs::vec::group_vec_axioms, vstd::seq::group_seq_axioms;

/// The mathematical shape of a [`Value`]: strings as character sequences,
/// big integers as unbounded integers, decimals as (mantissa, scale).
pub enum ValueView {
    Str(Seq<char>),
    Bool(bool),
    Int(i64),
    BigInt(int),
    BigDecimal(int, int),
    Bytes(Seq<u8>),
    List(Seq<ValueView>),
    Null,
}

/// A tagged entity-field value.
pub enum Value {
    Str(String),
    Bool(bool),
    Int(i64),
    BigInt(num_bigint::BigInt),
    BigDecimal(BigDecimal),
    Bytes(Vec<u8>),
    List(Vec<Value>),
    Null,
}

/// The mathematical view of a value.
pub open spec fn value_view(v: Value) -> ValueView
    decreases v,
{
    match v {
        Value::Str(s) => ValueView::Str(s@),
        Value::Bool(b) => ValueView::Bool(b),
        Value::Int(i) => ValueView::Int(i),
        Value::BigInt(n) => ValueView::BigInt(big_int_value(n)),
        Value::BigDecimal(d) => ValueView::BigDecimal(d.mantissa(), d.scale as int),
        Value::Bytes(b) => ValueView::Bytes(b@),
        Value::List(vs) => ValueView::List(
            Seq::new(
                vs@.len(),
                |i: int|
                    if 0 <= i < vs@.len() {
                        value_view(vs@[i])
                    } else {
                        ValueView::Null
                    },
            ),
        ),
        Value::Null => ValueView::Null,
    }
}

/// The gas-accounting size of a value, in bytes of its serialized shape.
pub open spec fn value_size(v: Value) -> nat
    decreases v,
{
    match v {
        Value::Str(s) => 5 + s@.len(),
        Value::Bool(_) => 5,
        Value::Int(_) => 13,
        Value::BigInt(n) => 5 + bit_len(abs_int(big_int_value(n)) as nat) / 8,
        Value::BigDecimal(d) => 13 + bit_len(abs_int(d.mantissa()) as nat) / 8,
        Value::Bytes(b) => 5 + b@.len(),
        Value::List(vs) => 5 + values_size(vs@),
        Value::Null => 1,
    }
}

/// The summed size of a list of values.
pub open spec fn values_size(s: Seq<Value>) -> nat
    decreases s,
{
    if s.len() == 0 {
        0
    } else {
        values_size(s.drop_last()) + value_size(s.last())
    }
}

impl Value {
    /// A copy with the same view.
    pub fn duplicate(&self) -> (r: Value)
        ensures
            value_view(r) == value_view(*self),
        decreases *self,
    {
        match self {
            Value::Str(s) => Value::Str(s.clone()),
            Value::Bool(b) => Value::Bool(*b),
            Value::Int(i) => Value::Int(*i),
            Value::BigInt(n) => Value::BigInt(bi_clone(n)),
            Value::BigDecimal(d) => Value::BigDecimal(
                BigDecimal { digits: bi_clone(&d.digits), scale: d.scale },
            ),
            Value::Bytes(b) => Value::Bytes(slice_to_vec(b.as_slice())),
            Value::List(vs) => {
                let mut out: Vec<Value> = Vec::new();
                let n = vs.len();
                let mut i: usize = 0;
                proof {
                    assert(*self == Value::List(*vs));
                }
                while i < n
                    invariant
                        i <= n,
                        n == vs@.len(),
                        *self == Value::List(*vs),
                        out@.len() == i as int,
                        forall|j: int|
                            0 <= j < i as int ==> value_view(#[trigger] out@[j]) == value_view(
                                vs@[j],
                            ),
                    decreases n - i,
                {
                    proof {
                        assert(vs@ == (*self)->List_0@);
                        assert(decreases_to!(*self => (*self)->List_0));
                        assert(decreases_to!((*self)->List_0 => (*self)->List_0@));
                        assert(decreases_to!((*self)->List_0@ => (*self)->List_0@[i as int]));
                        assert(decreases_to!(*self => vs@[i as int]));
                    }
                    let e = vs[i].duplicate();
                    out.push(e);
                    i = i + 1;
                }
                proof {
                    assert(value_view(Value::List(out)) matches ValueView::List(s1) && value_view(
                        *self,
                    ) matches ValueView::List(s2) ==> s1 =~= s2) by {
                        assert(*self == Value::List(*vs));
                    }
                    assert(value_view(Value::List(out)) == value_view(*self));
                }
                Value::List(out)
            },
            Value::Null => Value::Null,
        }
    }
}

impl Value {
    /// The gas size of the value, clamped into `u64`.
    pub fn gas_size(&self) -> (r: u64)
        ensures
            r == cap64(value_size(*self) as int),
        decreases *self,
    {
        match self {
            Value::Str(s) => sat_add(5, s.as_str().unicode_len() as u64),
            Value::Bool(_) => 5,
            Value::Int(_) => 13,
            Value::BigInt(n) => sat_add(5, bi_bits(n) / 8),
            Value::BigDecimal(d) => sat_add(13, bi_bits(&d.digits) / 8),
            Value::Bytes(b) => sat_add(5, b.len() as u64),
            Value::Null => 1,
            Value::List(vs) => {
                let mut acc: u64 = 5;
                let n = vs.len();
                let mut i: usize = 0;
                proof {
                    assert(*self == Value::List(*vs));
                    assert(values_size(vs@.take(0)) == 0);
                }
                while i < n
                    invariant
                        i <= n,
                        n == vs@.len(),
                        *self == Value::List(*vs),
                        acc == cap64(5 + values_size(vs@.take(i as int)) as int),
                    decreases n - i,
                {
                    proof {
                        assert(decreases_to!(*self => (*self)->List_0));
                        assert(decreases_to!((*self)->List_0 => (*self)->List_0@));
                        assert(decreases_to!((*self)->List_0@ => (*self)->List_0@[i as int]));
                        assert(decreases_to!(*self => vs@[i as int]));
                        assert(vs@.take(i as int + 1).drop_last() =~= vs@.take(i as int));
                        assert(vs@.take(i as int + 1).last() == vs@[i as int]);
                    }
                    let sz = vs[i].gas_size();
                    acc = sat_add(acc, sz);
                    i = i + 1;
                }
                proof {
                    assert(vs@.take(n as int) =~= vs@);
                }
                acc
            },
        }
    }
}

/// A short rendering of a value, for diagnostics: strings verbatim,
/// numbers in decimal, bytes in hex, lists abbreviated.
pub open spec fn value_text(v: ValueView) -> Seq<char> {
    match v {
        ValueView::Str(s) => s,
        ValueView::Bool(b) => if b {
            "true"@
        } else {
            "false"@
        },
        ValueView::Int(i) => dec_string_of(i as int),
        ValueView::BigInt(n) => dec_string_of(n),
        ValueView::BigDecimal(m, sc) => dec_rendering(m, sc),
        ValueView::Bytes(b) => hex_seq(b),
        ValueView::List(_) => "a list"@,
        ValueView::Null => "null"@,
    }
}

impl Value {
    /// Renders the value for a diagnostic message.
    pub fn to_text(&self) -> (r: String)
        ensures
            r@ == value_text(value_view(*self)),
    {
        match self {
            Value::Str(s) => s.clone(),
            Value::Bool(b) => if *b {
                String::from_str("true")
            } else {
                String::from_str("false")
            },
            Value::Int(i) => bi_to_dec_string(&bi_from_i64(*i)),
            Value::BigInt(n) => bi_to_dec_string(n),
            Value::BigDecimal(d) => d.to_dec_string(),
            Value::Bytes(b) => hex_encode(b),
            Value::List(_) => String::from_str("a list"),
            Value::Null => String::from_str("null"),
        }
    }
}

/// Uniquely identifies one logical record of the store.
pub struct EntityKey {
    /// The subgraph deployment the record belongs to.
    pub subgraph_id: String,
    /// The entity type name, caller-supplied, not normalized.
    pub entity_type: String,
    /// The entity id string, caller-supplied, not normalized.
    pub entity_id: String,
}

impl EntityKey {
    /// The mathematical view: the three identifying character sequences.
    pub open spec fn view(self) -> (Seq<char>, Seq<char>, Seq<char>) {
        (self.subgraph_id@, self.entity_type@, self.entity_id@)
    }

    /// The gas-accounting size of the key.
    pub open spec fn size(self) -> nat {
        self.subgraph_id@.len() + self.entity_type@.len() + self.entity_id@.len()
    }

    /// The gas size of the key, clamped into `u64`.
    pub fn gas_size(&self) -> (r: u64)
        ensures
            r == cap64(self.size() as int),
    {
        sat_add(
            sat_add(
                self.subgraph_id.as_str().unicode_len() as u64,
                self.entity_type.as_str().unicode_len() as u64,
            ),
            self.entity_id.as_str().unicode_len() as u64,
        )
    }

    /// A copy with the same view.
    pub fn duplicate(&self) -> (r: EntityKey)
        ensures
            r.view() == self.view(),
    {
        EntityKey {
            subgraph_id: self.subgraph_id.clone(),
            entity_type: self.entity_type.clone(),
            entity_id: self.entity_id.clone(),
        }
    }

    /// Equality of the identifying triples.
    pub fn same_key(&self, other: &EntityKey) -> (r: bool)
        ensures
            r <==> self.view() == other.view(),
    {
        let r = self.subgraph_id.eq(&other.subgraph_id) && self.entity_type.eq(&other.entity_type)
            && self.entity_id.eq(&other.entity_id);
        r
    }
}

/// An entity: field names mapped to tagged values, with distinct names.
pub struct Entity {
    /// The fields, in insertion order, names pairwise distinct.
    pub fields: Vec<(String, Value)>,
}

/// The map built from an association sequence; later entries win.
pub open spec fn assoc_map(s: Seq<(String, Value)>) -> Map<Seq<char>, ValueView>
    decreases s,
{
    if s.len() == 0 {
        Map::empty()
    } else {
        assoc_map(s.drop_last()).insert(s.last().0@, value_view(s.last().1))
    }
}

/// The summed gas size of an association sequence.
pub open spec fn fields_size(s: Seq<(String, Value)>) -> nat
    decreases s,
{
    if s.len() == 0 {
        0
    } else {
        fields_size(s.drop_last()) + s.last().0@.len() + value_size(s.last().1)
    }
}

impl Entity {
    /// Field names are pairwise distinct.
    pub open spec fn wf(self) -> bool {
        forall|i: int, j: int|
            0 <= i < j < self.fields@.len() ==> (#[trigger] self.fields@[i]).0@ != (
            #[trigger] self.fields@[j]).0@
    }

    /// The mathematical view: a map from field name to value view.
    pub open spec fn as_map(self) -> Map<Seq<char>, ValueView> {
        assoc_map(self.fields@)
    }

    /// The gas-accounting size of the entity.
    pub open spec fn size(self) -> nat {
        fields_size(self.fields@)
    }

    /// A fresh entity with no fields.
    pub fn new() -> (r: Entity)
        ensures
            r.wf(),
            r.as_map() == Map::<Seq<char>, ValueView>::empty(),
            r.fields@.len() == 0,
    {
        Entity { fields: Vec::new() }
    }

    /// Looks a field up by name.
    pub fn get(&self, name: &String) -> (r: Option<&Value>)
        requires
            self.wf(),
        ensures
            r is Some <==> self.as_map().contains_key(name@),
            r matches Some(v) ==> self.as_map()[name@] == value_view(*v),
    {
        let n = self.fields.len();
        let mut i: usize = 0;
        while i < n
            invariant
                i <= n,
                n == self.fields@.len(),
                self.wf(),
                forall|j: int| 0 <= j < i as int ==> (#[trigger] self.fields@[j]).0@ != name@,
            decreases n - i,
        {
            if self.fields[i].0.eq(name) {
                proof {
                    lemma_assoc_map_index(self.fields@, i as int);
                }
                return Some(&self.fields[i].1);
            }
            i = i + 1;
        }
        proof {
            lemma_assoc_map_keys(self.fields@, name@);
        }
        None
    }

    /// Inserts or overwrites a field, keeping names distinct.
    pub fn insert(&mut self, name: String, v: Value)
        requires
            old(self).wf(),
        ensures
            final(self).wf(),
            final(self).as_map() == old(self).as_map().insert(name@, value_view(v)),
            final(self).fields@.len() <= old(self).fields@.len() + 1,
    {
        let ghost s0 = self.fields@;
        proof {
            assert forall|a: int, b: int| 0 <= a < b < s0.len() implies (#[trigger] s0[a]).0@ != (
            #[trigger] s0[b]).0@ by {
                assert((old(self).fields@[a]).0@ != (old(self).fields@[b]).0@);
            }
        }
        let n = self.fields.len();
        let mut i: usize = 0;
        while i < n
            invariant
                i <= n,
                n == s0.len(),
                self.fields@ == s0,
                self.fields@ == old(self).fields@,
                forall|a: int, b: int|
                    0 <= a < b < s0.len() ==> (#[trigger] s0[a]).0@ != (#[trigger] s0[b]).0@,
                forall|j: int| 0 <= j < i as int ==> (#[trigger] s0[j]).0@ != name@,
            decreases n - i,
        {
            if self.fields[i].0.eq(&name) {
                proof {
                    assert forall|j: int|
                        (i as int) < j && j < s0.len() implies (#[trigger] s0[j]).0@ != name@ by {
                        assert(s0[i as int].0@ != s0[j].0@);
                    }
                    lemma_assoc_map_update(s0, i as int, name, v);
                    let t = s0.update(i as int, (name, v));
                    assert forall|a: int, b: int| 0 <= a < b < t.len() implies (
                    #[trigger] t[a]).0@ != (#[trigger] t[b]).0@ by {
                        assert(s0[a].0@ != s0[b].0@);
                        assert(t[a].0@ == s0[a].0@);
                        assert(t[b].0@ == s0[b].0@);
                    }
                }
                self.fields.set(i, (name, v));
                return ;
            }
            i = i + 1;
        }
        proof {
            lemma_assoc_map_keys(self.fields@, name@);
            assert(self.fields@.push((name, v)).drop_last() =~= self.fields@);
        }
        self.fields.push((name, v));
    }

    /// The gas size of the entity, clamped into `u64`.
    pub fn gas_size(&self) -> (r: u64)
        ensures
            r == cap64(self.size() as int),
    {
        let mut acc: u64 = 0;
        let n = self.fields.len();
        let mut i: usize = 0;
        proof {
            assert(fields_size(self.fields@.take(0)) == 0);
        }
        while i < n
            invariant
                i <= n,
                n == self.fields@.len(),
                acc == cap64(fields_size(self.fields@.take(i as int)) as int),
            decreases n - i,
        {
            proof {
                assert(self.fields@.take(i as int + 1).drop_last() =~= self.fields@.take(i as int));
                assert(self.fields@.take(i as int + 1).last() == self.fields@[i as int]);
            }
            let name_len = self.fields[i].0.as_str().unicode_len() as u64;
            let vsz = self.fields[i].1.gas_size();
            acc = sat_add(acc, sat_add(name_len, vsz));
            i = i + 1;
        }
        proof {
            assert(self.fields@.take(n as int) =~= self.fields@);
        }
        acc
    }

    /// A copy with the same view.
    pub fn duplicate(&self) -> (r: Entity)
        ensures
            r.as_map() == self.as_map(),
            self.wf() ==> r.wf(),
            r.fields@.len() == self.fields@.len(),
            forall|j: int|
                0 <= j < self.fields@.len() ==> (#[trigger] r.fields@[j]).0@ == self.fields@[j].0@
                    && value_view(r.fields@[j].1) == value_view(self.fields@[j].1),
    {
        let n = self.fields.len();
        let mut out: Vec<(String, Value)> = Vec::new();
        let mut i: usize = 0;
        while i < n
            invariant
                i <= n,
                n == self.fields@.len(),
                out@.len() == i as int,
                forall|j: int|
                    0 <= j < i as int ==> (#[trigger] out@[j]).0@ == self.fields@[j].0@
                        && value_view(out@[j].1) == value_view(self.fields@[j].1),
            decreases n - i,
        {
            let name = self.fields[i].0.clone();
            let v = self.fields[i].1.duplicate();
            out.push((name, v));
            i = i + 1;
        }
        let r = Entity { fields: out };
        proof {
            lemma_assoc_map_congruence(r.fields@, self.fields@);
            if self.wf() {
                assert forall|a: int, b: int| 0 <= a < b < r.fields@.len() implies (
                #[trigger] r.fields@[a]).0@ != (#[trigger] r.fields@[b]).0@ by {
                    assert(self.fields@[a].0@ != self.fields@[b].0@);
                }
            }
        }
        r
    }
}

/// Overlays `patch` onto `base`: every field of `patch` wins, fields only
/// `base` has are kept.
pub fn entity_merged(base: &Entity, patch: &Entity) -> (r: Entity)
    requires
        base.wf(),
        patch.wf(),
    ensures
        r.wf(),
        r.as_map() == base.as_map().union_prefer_right(patch.as_map()),
{
    let mut out = base.duplicate();
    proof {
        assert(patch.fields@.take(0) =~= Seq::<(String, Value)>::empty());
        assert(base.as_map().union_prefer_right(assoc_map(patch.fields@.take(0))) =~= base.as_map());
    }
    let n = patch.fields.len();
    let mut i: usize = 0;
    while i < n
        invariant
            i <= n,
            n == patch.fields@.len(),
            base.wf(),
            patch.wf(),
            out.wf(),
            out.as_map() == base.as_map().union_prefer_right(
                assoc_map(patch.fields@.take(i as int)),
            ),
        decreases n - i,
    {
        proof {
            assert(patch.fields@.take(i as int + 1).drop_last() =~= patch.fields@.take(i as int));
            assert(patch.fields@.take(i as int + 1).last() == patch.fields@[i as int]);
            let m1 = base.as_map().union_prefer_right(assoc_map(patch.fields@.take(i as int)));
            assert(m1.insert(
                patch.fields@[i as int].0@,
                value_view(patch.fields@[i as int].1),
            ) =~= base.as_map().union_prefer_right(assoc_map(patch.fields@.take(i as int + 1))));
        }
        let name = patch.fields[i].0.clone();
        let v = patch.fields[i].1.duplicate();
        out.insert(name, v);
        i = i + 1;
    }
    proof {
        assert(patch.fields@.take(n as int) =~= patch.fields@);
    }
    out
}

/// Key membership of an association sequence matches its map.
pub proof fn lemma_assoc_map_keys(s: Seq<(String, Value)>, k: Seq<char>)
    ensures
        assoc_map(s).contains_key(k) <==> exists|i: int| 0 <= i < s.len() && (#[trigger] s[i]).0@
            == k,
    decreases s.len(),
{
    if s.len() > 0 {
        lemma_assoc_map_keys(s.drop_last(), k);
        if s.last().0@ == k {
            assert((s[s.len() - 1]).0@ == k);
        } else {
            if exists|i: int| 0 <= i < s.len() - 1 && (#[trigger] s.drop_last()[i]).0@ == k {
                let i = choose|i: int| 0 <= i < s.len() - 1 && (#[trigger] s.drop_last()[i]).0@
                    == k;
                assert((s[i]).0@ == k);
            }
            if exists|i: int| 0 <= i < s.len() && (#[trigger] s[i]).0@ == k {
                let i = choose|i: int| 0 <= i < s.len() && (#[trigger] s[i]).0@ == k;
                assert(i < s.len() - 1 ==> (s.drop_last()[i]).0@ == k);
            }
        }
    }
}

/// In a sequence whose later entries never reuse the name at `i`, the map
/// sends that name to the value at `i`.
pub proof fn lemma_assoc_map_index(s: Seq<(String, Value)>, i: int)
    requires
        0 <= i < s.len(),
        forall|j: int| i < j < s.len() ==> (#[trigger] s[j]).0@ != s[i].0@,
    ensures
        assoc_map(s).contains_key(s[i].0@),
        assoc_map(s)[s[i].0@] == value_view(s[i].1),
    decreases s.len(),
{
    if i == s.len() - 1 {
    } else {
        assert(s.drop_last()[i] == s[i]);
        lemma_assoc_map_index(s.drop_last(), i);
    }
}

/// Updating the entry that holds a name is, on the map, inserting it.
pub proof fn lemma_assoc_map_update(s: Seq<(String, Value)>, i: int, name: String, v: Value)
    requires
        0 <= i < s.len(),
        s[i].0@ == name@,
        forall|j: int| i < j < s.len() ==> (#[trigger] s[j]).0@ != name@,
    ensures
        assoc_map(s.update(i, (name, v))) =~= assoc_map(s).insert(name@, value_view(v)),
    decreases s.len(),
{
    let t = s.update(i, (name, v));
    if i == s.len() - 1 {
        assert(t.drop_last() =~= s.drop_last());
        assert(t.last() == (name, v));
    } else {
        assert(t.drop_last() =~= s.drop_last().update(i, (name, v)));
        assert(s.drop_last()[i] == s[i]);
        lemma_assoc_map_update(s.drop_last(), i, name, v);
        assert(t.last() == s.last());
    }
}

/// Two association sequences with pointwise equal names and value views
/// build the same map.
pub proof fn lemma_assoc_map_congruence(a: Seq<(String, Value)>, b: Seq<(String, Value)>)
    requires
        a.len() == b.len(),
        forall|j: int|
            0 <= j < b.len() ==> (#[trigger] a[j]).0@ == b[j].0@ && value_view(a[j].1)
                == value_view(b[j].1),
    ensures
        assoc_map(a) =~= assoc_map(b),
    decreases a.len(),
{
    if a.len() > 0 {
        assert(forall|j: int|
            0 <= j < b.len() - 1 ==> (#[trigger] a.drop_last()[j]).0@ == b.drop_last()[j].0@
                && value_view(a.drop_last()[j].1) == value_view(b.drop_last()[j].1));
        lemma_assoc_map_congruence(a.drop_last(), b.drop_last());
        assert(a.last() == a[a.len() - 1]);
        assert(b.last() == b[b.len() - 1]);
    }
}

/// One entity type of the schema: its declared and its required fields.
pub struct EntityTypeDef {
    /// The entity type name.
    pub name: String,
    /// Every field an entity of this type may carry.
    pub fields: Vec<String>,
    /// The fields an entity of this type must carry.
    pub required: Vec<String>,
}

/// The subgraph schema the store validates entities against.
pub struct Schema {
    /// The entity type definitions, first match wins.
    pub types: Vec<EntityTypeDef>,
}

/// First entity type definition carrying the name, if any.
pub open spec fn lookup_type(ts: Seq<EntityTypeDef>, name: Seq<char>) -> Option<EntityTypeDef>
    decreases ts,
{
    if ts.len() == 0 {
        None
    } else if ts.first().name@ == name {
        Some(ts.first())
    } else {
        lookup_type(ts.drop_first(), name)
    }
}

/// Whether some string of the sequence reads `k`.
pub open spec fn contains_str(ss: Seq<String>, k: Seq<char>) -> bool {
    exists|i: int| 0 <= i < ss.len() && (#[trigger] ss[i])@ == k
}

/// Whether the schema accepts an entity (given by its map view) under the
/// key's type: the type is declared, every field is declared for it, and
/// every required field of it is present.
pub open spec fn schema_allows(schema: Schema, tname: Seq<char>, m: Map<Seq<char>, ValueView>) -> bool {
    match lookup_type(schema.types@, tname) {
        None => false,
        Some(def) => def_allows(def, m),
    }
}

/// Whether one type definition accepts an entity map: every field is
/// declared and every required field is present.
pub open spec fn def_allows(def: EntityTypeDef, m: Map<Seq<char>, ValueView>) -> bool {
    (forall|k: Seq<char>| #[trigger] m.contains_key(k) ==> contains_str(def.fields@, k)) && (
    forall|j: int| 0 <= j < def.required@.len() ==> m.contains_key((#[trigger] def.required@[j])@))
}

/// Whether some string of `ss` reads as `k`.
pub fn str_vec_contains(ss: &Vec<String>, k: &String) -> (r: bool)
    ensures
        r == contains_str(ss@, k@),
{
    let n = ss.len();
    let mut i: usize = 0;
    while i < n
        invariant
            i <= n,
            n == ss@.len(),
            forall|j: int| 0 <= j < i as int ==> (#[trigger] ss@[j])@ != k@,
        decreases n - i,
    {
        if ss[i].eq(k) {
            return true;
        }
        i = i + 1;
    }
    false
}

/// Validates an entity against the schema: a pure function from schema,
/// key and candidate entity to a validation verdict.
pub fn validate_entity(schema: &Schema, key: &EntityKey, e: &Entity) -> (r: bool)
    requires
        e.wf(),
    ensures
        r == schema_allows(*schema, key.entity_type@, e.as_map()),
{
    let n = schema.types.len();
    let mut i: usize = 0;
    proof {
        assert(schema.types@.skip(0) =~= schema.types@);
    }
    while i < n
        invariant
            i <= n,
            n == schema.types@.len(),
            e.wf(),
            lookup_type(schema.types@, key.entity_type@) == lookup_type(
                schema.types@.skip(i as int),
                key.entity_type@,
            ),
            forall|j: int| 0 <= j < i as int ==> (#[trigger] schema.types@[j]).name@
                != key.entity_type@,
        decreases n - i,
    {
        proof {
            assert(schema.types@.skip(i as int).len() > 0);
            assert(schema.types@.skip(i as int).first() == schema.types@[i as int]);
            assert(schema.types@.skip(i as int).drop_first() =~= schema.types@.skip(i as int + 1));
        }
        if schema.types[i].name.eq(&key.entity_type) {
            proof {
                assert(lookup_type(schema.types@, key.entity_type@) == Some(
                    schema.types@[i as int],
                ));
            }
            let r = validate_against(&schema.types[i], e);
            return r;
        }
        i = i + 1;
    }
    proof {
        assert(schema.types@.skip(n as int).len() == 0);
    }
    false
}

/// Checks one entity against one type definition.
fn validate_against(def: &EntityTypeDef, e: &Entity) -> (r: bool)
    requires
        e.wf(),
    ensures
        r == def_allows(*def, e.as_map()),
{
    let n = e.fields.len();
    let mut i: usize = 0;
    while i < n
        invariant
            i <= n,
            n == e.fields@.len(),
            e.wf(),
            forall|j: int|
                0 <= j < i as int ==> contains_str(def.fields@, (#[trigger] e.fields@[j]).0@),
        decreases n - i,
    {
        if !str_vec_contains(&def.fields, &e.fields[i].0) {
            proof {
                lemma_assoc_map_keys(e.fields@, e.fields@[i as int].0@);
                assert(exists|j: int|
                    0 <= j < e.fields@.len() && (#[trigger] e.fields@[j]).0@ == e.fields@[i as int].0@);
                assert(e.as_map().contains_key(e.fields@[i as int].0@));
                assert(!contains_str(def.fields@, e.fields@[i as int].0@));
            }
            return false;
        }
        i = i + 1;
    }
    proof {
        assert forall|k: Seq<char>| #[trigger]
            e.as_map().contains_key(k) implies contains_str(def.fields@, k) by {
            lemma_assoc_map_keys(e.fields@, k);
            let j = choose|j: int| 0 <= j < e.fields@.len() && (#[trigger] e.fields@[j]).0@ == k;
            assert(contains_str(def.fields@, e.fields@[j].0@));
        }
    }
    let m = def.required.len();
    let mut k: usize = 0;
    while k < m
        invariant
            k <= m,
            m == def.required@.len(),
            e.wf(),
            forall|key: Seq<char>| #[trigger]
                e.as_map().contains_key(key) ==> contains_str(def.fields@, key),
            forall|j: int|
                0 <= j < k as int ==> e.as_map().contains_key((#[trigger] def.required@[j])@),
        decreases m - k,
    {
        if e.get(&def.required[k]).is_none() {
            return false;
        }
        k = k + 1;
    }
    true
}

} // verus!
