//! The environment model: a parent-linked, shared, mutable name-to-value
//! table. Records live in an arena owned by the evaluator and are shared by
//! integer handles; a record's parent always has a smaller handle, so lookup
//! chains are finite. Two names are reserved: `this` resolves to the current
//! record and `outerScope` to its parent.

use vstd::prelude::*;

use crate::lexer::lemma_leading_bounds;
use crate::lexer::lemma_leading_of;
use crate::lexer::spec_leading;
use crate::text::str_eq;
use crate::value::Value;
use crate::value::boolean::BooleanValue;
use crate::value::none::NoneValue;
use crate::value::number::NumberValue;

verus! {

/// One environment record: an optional parent handle and the bound names
/// with their values, kept in two columns of one table.
#[derive(Debug)]
pub struct ScopeData {
    /// The handle of the enclosing record, if any.
    pub parent: Option<usize>,
    /// The bound names, unique within the record.
    pub names: Vec<String>,
    /// The bound values, one per name.
    pub values: Vec<Value>,
}

/// The arena that owns every environment record. Handles are indices; a
/// record is never removed, and its parent was always created before it.
#[derive(Debug)]
pub struct ScopeArena {
    pub records: Vec<ScopeData>,
}

/// The payload of the `Environment` kind: a handle to a shared record.
#[derive(Clone, Copy, Debug)]
pub struct ScopeValue {
    pub data: usize,
}

/// True when the record's two columns line up and its names are unique.
pub open spec fn record_wf(record: ScopeData) -> bool {
    &&& record.names@.len() == record.values@.len()
    &&& forall|i: int, j: int|
        0 <= i < j < record.names@.len() ==> record.names@[i]@ != record.names@[j]@
}

/// True when the arena is well formed: every record is, and every parent
/// handle points strictly downwards.
pub open spec fn arena_wf(records: Seq<ScopeData>) -> bool {
    &&& forall|i: int| 0 <= i < records.len() ==> record_wf(#[trigger] records[i])
    &&& forall|i: int|
        0 <= i < records.len() ==> match (#[trigger] records[i]).parent {
            Some(p) => p < i,
            None => true,
        }
}

/// True when the record binds the name.
pub open spec fn spec_has_local(record: ScopeData, name: Seq<char>) -> bool {
    exists|i: int| 0 <= i < record.names@.len() && record.names@[i]@ == name
}

/// The value bound locally to the name.
pub open spec fn spec_local_get(record: ScopeData, name: Seq<char>) -> Value {
    record.values@[choose|i: int| 0 <= i < record.names@.len() && record.names@[i]@ == name]
}

/// What reading a value out of a record hands back: most kinds are copied
/// as they stand, an environment degrades to `Nothing`, and a provider is
/// copied through.
pub open spec fn spec_dup(v: Value) -> Value
    decreases v,
{
    match v {
        Value::Scope(_) => Value::Nothing(NoneValue {  }),
        Value::Provider(p) => Value::Provider(
            crate::value::provider::ProviderValue { delegate: Box::new(spec_dup(*p.delegate)) },
        ),
        _ => v,
    }
}

/// Resolving one plain name through the record chain, duplication included;
/// `outerScope` yields the parent record (or `Nothing` at the top), and an
/// unbound name falls through to the parent chain.
pub open spec fn spec_lookup(records: Seq<ScopeData>, handle: int, name: Seq<char>) -> Option<
    Value,
>
    decreases handle
    when 0 <= handle < records.len() && arena_wf(records)
{
    let record = records[handle];
    if name == "outerScope"@ {
        match record.parent {
            Some(p) => Some(Value::Scope(ScopeValue { data: p })),
            None => Some(Value::Nothing(NoneValue {  })),
        }
    } else if spec_has_local(record, name) {
        Some(spec_dup(spec_local_get(record, name)))
    } else {
        match record.parent {
            Some(p) => spec_lookup(records, p as int, name),
            None => None,
        }
    }
}

/// Resolving one plain name against a handle: `this` yields the record
/// itself, anything else goes through the chain.
pub open spec fn spec_scope_get(records: Seq<ScopeData>, handle: int, name: Seq<char>) -> Option<
    Value,
> {
    if name == "this"@ {
        Some(Value::Scope(ScopeValue { data: handle as usize }))
    } else {
        spec_lookup(records, handle, name)
    }
}

/// The views of a run of owned strings.
pub open spec fn spec_string_views(parts: Seq<String>) -> Seq<Seq<char>> {
    parts.map_values(|s: String| s@)
}

/// A qualified name split at its dots: the longest dot-free prefix, then
/// the split of what follows the dot. Every part is dot-free and the parts
/// joined back with dots spell the name, which pins the split down.
pub open spec fn spec_split_dots(s: Seq<char>) -> Seq<Seq<char>>
    decreases s.len(),
{
    let head = spec_leading(s, |c: char| c != '.');
    if head >= s.len() {
        seq![s]
    } else {
        proof {
            lemma_leading_bounds(s, |c: char| c != '.');
        }
        seq![s.take(head)] + spec_split_dots(s.skip(head + 1))
    }
}

/// Resolving a run of already-split name parts: the first part through the
/// record the handle names, then each later part through the environment
/// value the previous step produced. An empty run, an unbound part, or an
/// intermediate value that is not an environment resolves to nothing.
pub open spec fn spec_resolve_parts(
    records: Seq<ScopeData>,
    handle: int,
    parts: Seq<Seq<char>>,
) -> Option<Value> {
    if parts.len() == 0 {
        None
    } else {
        match spec_scope_get(records, handle, parts[0]) {
            Some(value) => spec_resolve_from(records, value, parts, 1),
            None => None,
        }
    }
}

/// The tail of a parts resolution: steps the remaining parts through
/// environment values, as `spec_resolve_parts` says.
pub open spec fn spec_resolve_from(
    records: Seq<ScopeData>,
    current: Value,
    parts: Seq<Seq<char>>,
    index: int,
) -> Option<Value>
    decreases parts.len() - index,
{
    if index >= parts.len() {
        Some(current)
    } else {
        match current {
            Value::Scope(scope) => if (scope.data as int) < records.len() {
                match spec_scope_get(records, scope.data as int, parts[index]) {
                    Some(value) => spec_resolve_from(records, value, parts, index + 1),
                    None => None,
                }
            } else {
                None
            },
            _ => None,
        }
    }
}

/// Resolving a whole qualified name: its dot-split parts stepped through
/// the record chain.
pub open spec fn spec_resolve_qualified(
    records: Seq<ScopeData>,
    handle: int,
    name: Seq<char>,
) -> Option<Value> {
    spec_resolve_parts(records, handle, spec_split_dots(name))
}

impl ScopeData {
    /// A fresh record under the given parent, with nothing bound.
    pub fn new(parent: Option<usize>) -> (r: ScopeData)
        ensures
            r.parent == parent,
            r.names@ =~= Seq::<String>::empty(),
            r.values@ =~= Seq::<Value>::empty(),
    {
        ScopeData { parent, names: Vec::new(), values: Vec::new() }
    }

    /// A fresh shared record under the given parent: it is added to the
    /// arena and its handle is returned. Existing records are untouched.
    pub fn create(arena: &mut ScopeArena, parent: Option<usize>) -> (handle: usize)
        requires
            arena_wf(old(arena).records@),
            parent matches Some(p) ==> p < old(arena).records@.len(),
        ensures
            arena_wf(final(arena).records@),
            handle == old(arena).records@.len(),
            final(arena).records@.len() == old(arena).records@.len() + 1,
            forall|i: int|
                0 <= i < old(arena).records@.len() ==> final(arena).records@[i] == old(arena).records@[i],
            final(arena).records@[handle as int].parent == parent,
            final(arena).records@[handle as int].names@.len() == 0,
    {
        let handle = arena.records.len();
        arena.records.push(ScopeData::new(parent));
        handle
    }

    /// The index of a locally bound name.
    fn find(&self, name: &str) -> (r: Option<usize>)
        requires
            record_wf(*self),
        ensures
            match r {
                Some(i) => i < self.names@.len() && self.names@[i as int]@ == name@,
                None => !spec_has_local(*self, name@),
            },
    {
        let mut index: usize = 0;
        while index < self.names.len()
            invariant
                index <= self.names@.len(),
                forall|j: int| 0 <= j < index ==> self.names@[j]@ != name@,
            decreases self.names@.len() - index,
        {
            if str_eq(&self.names[index], name) {
                return Some(index);
            }
            index = index + 1;
        }
        None
    }

    /// Binds the name in this record alone: an existing binding is replaced,
    /// a new one appended. No other binding changes, nor the parent.
    pub fn set_value(&mut self, name: &str, value: Value)
        requires
            record_wf(*old(self)),
        ensures
            record_wf(*final(self)),
            final(self).parent == old(self).parent,
            spec_has_local(*final(self), name@),
            spec_local_get(*final(self), name@) == value,
            forall|other: Seq<char>|
                other != name@ ==> #[trigger] spec_has_local(*final(self), other)
                    == spec_has_local(*old(self), other),
            forall|other: Seq<char>|
                other != name@ && spec_has_local(*old(self), other) ==> #[trigger] spec_local_get(
                    *final(self),
                    other,
                ) == spec_local_get(*old(self), other),
    {
        let found = self.find(name);
        match found {
            Some(index) => {
                self.values[index] = value;
                proof {
                    lemma_local_update(*old(self), *self, name@, value, index as int);
                }
            },
            None => {
                self.names.push(name.to_owned());
                self.values.push(value);
                proof {
                    lemma_local_push(*old(self), *self, name@, value);
                }
            },
        }
    }
}

/// After an in-place update of the slot the name already held, the local
/// table reads as the ensures of `set_value` say.
proof fn lemma_local_update(
    before: ScopeData,
    after: ScopeData,
    name: Seq<char>,
    value: Value,
    slot: int,
)
    requires
        record_wf(before),
        0 <= slot < before.names@.len(),
        before.names@[slot]@ == name,
        after.parent == before.parent,
        after.names@ == before.names@,
        after.values@ == before.values@.update(slot, value),
    ensures
        record_wf(after),
        spec_has_local(after, name),
        spec_local_get(after, name) == value,
        forall|other: Seq<char>|
            other != name ==> #[trigger] spec_has_local(after, other) == spec_has_local(
                before,
                other,
            ),
        forall|other: Seq<char>|
            other != name && spec_has_local(before, other) ==> #[trigger] spec_local_get(
                after,
                other,
            ) == spec_local_get(before, other),
{
    assert(record_wf(after));
    assert(spec_has_local(after, name));
    let picked = choose|i: int| 0 <= i < after.names@.len() && after.names@[i]@ == name;
    assert(picked == slot) by {
        if picked != slot {
            assert(after.names@[picked]@ == after.names@[slot]@);
        }
    }
    assert forall|other: Seq<char>|
        other != name && spec_has_local(before, other) implies #[trigger] spec_local_get(
        after,
        other,
    ) == spec_local_get(before, other) by {
        let j = choose|j: int| 0 <= j < after.names@.len() && after.names@[j]@ == other;
        let k = choose|k: int| 0 <= k < before.names@.len() && before.names@[k]@ == other;
        assert(j == k) by {
            if j != k {
                assert(after.names@[j]@ == before.names@[k]@);
            }
        }
        assert(j != slot);
    }
}

/// After a fresh slot is appended for a name the record did not bind, the
/// local table reads as the ensures of `set_value` say.
proof fn lemma_local_push(before: ScopeData, after: ScopeData, name: Seq<char>, value: Value)
    requires
        record_wf(before),
        !spec_has_local(before, name),
        after.parent == before.parent,
        after.names@.len() == before.names@.len() + 1,
        after.values@.len() == after.names@.len(),
        forall|j: int| 0 <= j < before.names@.len() ==> after.names@[j] == before.names@[j],
        after.names@[before.names@.len() as int]@ == name,
        forall|j: int| 0 <= j < before.values@.len() ==> after.values@[j] == before.values@[j],
        after.values@[before.values@.len() as int] == value,
    ensures
        record_wf(after),
        spec_has_local(after, name),
        spec_local_get(after, name) == value,
        forall|other: Seq<char>|
            other != name ==> #[trigger] spec_has_local(after, other) == spec_has_local(
                before,
                other,
            ),
        forall|other: Seq<char>|
            other != name && spec_has_local(before, other) ==> #[trigger] spec_local_get(
                after,
                other,
            ) == spec_local_get(before, other),
{
    let n = before.names@.len() as int;
    assert forall|i: int, j: int|
        0 <= i < j < after.names@.len() implies after.names@[i]@ != after.names@[j]@ by {
        if j < n {
            assert(after.names@[i] == before.names@[i]);
            assert(after.names@[j] == before.names@[j]);
        } else {
            assert(after.names@[i] == before.names@[i]);
            assert(before.names@[i]@ != name);
        }
    }
    assert(spec_has_local(after, name));
    let picked = choose|i: int| 0 <= i < after.names@.len() && after.names@[i]@ == name;
    assert(picked == n) by {
        if picked != n {
            assert(after.names@[picked] == before.names@[picked]);
            assert(spec_has_local(before, name));
        }
    }
    assert forall|other: Seq<char>|
        other != name implies #[trigger] spec_has_local(after, other) == spec_has_local(
        before,
        other,
    ) by {
        if spec_has_local(before, other) {
            let j = choose|j: int| 0 <= j < before.names@.len() && before.names@[j]@ == other;
            assert(after.names@[j]@ == other);
        }
        if spec_has_local(after, other) {
            let j = choose|j: int| 0 <= j < after.names@.len() && after.names@[j]@ == other;
            assert(j != n);
            assert(before.names@[j]@ == other);
        }
    }
    assert forall|other: Seq<char>|
        other != name && spec_has_local(before, other) implies #[trigger] spec_local_get(
        after,
        other,
    ) == spec_local_get(before, other) by {
        let j = choose|j: int| 0 <= j < after.names@.len() && after.names@[j]@ == other;
        let k = choose|k: int| 0 <= k < before.names@.len() && before.names@[k]@ == other;
        assert(after.names@[k]@ == other);
        assert(j != n);
        assert(j == k) by {
            if j != k {
                assert(after.names@[j] == before.names@[j]);
                assert(before.names@[j]@ == before.names@[k]@);
            }
        }
    }
}

impl ScopeArena {
    /// An arena with no records yet.
    pub fn new() -> (r: ScopeArena)
        ensures
            r.records@ =~= Seq::<ScopeData>::empty(),
            arena_wf(r.records@),
    {
        ScopeArena { records: Vec::new() }
    }

    /// Resolving one plain name through a record's chain, as `spec_lookup`
    /// says: `outerScope` yields the parent, a bound name its duplicated
    /// value, an unbound one falls through to the parent chain.
    pub fn get_value(&self, handle: usize, name: &str) -> (r: Option<Value>)
        requires
            arena_wf(self.records@),
            handle < self.records@.len(),
        ensures
            r == spec_lookup(self.records@, handle as int, name@),
        decreases handle,
    {
        if str_eq_literal(name, "outerScope") {
            let record = &self.records[handle];
            match record.parent {
                Some(p) => Some(Value::Scope(ScopeValue { data: p })),
                None => Some(NoneValue::create()),
            }
        } else {
            let found = self.records[handle].find(name);
            match found {
                Some(index) => {
                    let record = &self.records[handle];
                    Some(record.values[index].duplicate_or_move())
                },
                None => {
                    let parent = self.records[handle].parent;
                    match parent {
                        Some(p) => self.get_value(p, name),
                        None => None,
                    }
                },
            }
        }
    }

    /// Binds the name in the record the handle names, and in it alone.
    pub fn set_value(&mut self, handle: usize, name: &str, value: Value)
        requires
            arena_wf(old(self).records@),
            handle < old(self).records@.len(),
        ensures
            arena_wf(final(self).records@),
            final(self).records@.len() == old(self).records@.len(),
            forall|i: int|
                0 <= i < old(self).records@.len() && i != handle as int ==> final(self).records@[i] == old(self).records@[i],
            final(self).records@[handle as int].parent == old(self).records@[handle as int].parent,
            spec_has_local(final(self).records@[handle as int], name@),
            spec_local_get(final(self).records@[handle as int], name@) == value,
            forall|other: Seq<char>|
                other != name@ ==> #[trigger] spec_has_local(
                    final(self).records@[handle as int],
                    other,
                ) == spec_has_local(old(self).records@[handle as int], other),
            forall|other: Seq<char>|
                other != name@ && spec_has_local(old(self).records@[handle as int], other)
                    ==> #[trigger] spec_local_get(final(self).records@[handle as int], other)
                    == spec_local_get(old(self).records@[handle as int], other),
    {
        let record = &mut self.records[handle];
        record.set_value(name, value);
    }
}

/// True exactly when the borrowed name spells the literal.
fn str_eq_literal(name: &str, lit: &str) -> (r: bool)
    ensures
        r == (name@ == lit@),
{
    let owned: String = name.to_owned();
    crate::text::str_eq(&owned, lit)
}

impl ScopeValue {
    /// A fresh handle payload.
    pub fn new(data: usize) -> (r: ScopeValue)
        ensures
            r == (ScopeValue { data }),
    {
        ScopeValue { data }
    }

    /// A fresh `Environment` value around a record handle.
    pub fn create(data: usize) -> (r: Value)
        ensures
            r == Value::Scope(ScopeValue { data }),
    {
        Value::Scope(ScopeValue::new(data))
    }

    /// Resolving one plain name: `this` yields this record, anything else
    /// goes through the chain.
    pub fn get_value(&self, arena: &ScopeArena, name: &str) -> (r: Option<Value>)
        requires
            arena_wf(arena.records@),
            self.data < arena.records@.len(),
        ensures
            r == spec_scope_get(arena.records@, self.data as int, name@),
    {
        if str_eq_literal(name, "this") {
            Some(ScopeValue::create(self.data))
        } else {
            arena.get_value(self.data, name)
        }
    }

    /// Binds the name in this record.
    pub fn set_value(&self, arena: &mut ScopeArena, name: &str, value: Value)
        requires
            arena_wf(old(arena).records@),
            self.data < old(arena).records@.len(),
        ensures
            arena_wf(final(arena).records@),
            final(arena).records@.len() == old(arena).records@.len(),
            forall|i: int|
                0 <= i < old(arena).records@.len() && i != self.data as int ==> final(arena).records@[i] == old(arena).records@[i],
            final(arena).records@[self.data as int].parent == old(arena).records@[self.data as int].parent,
            spec_has_local(final(arena).records@[self.data as int], name@),
            spec_local_get(final(arena).records@[self.data as int], name@) == value,
            forall|other: Seq<char>|
                other != name@ ==> #[trigger] spec_has_local(
                    final(arena).records@[self.data as int],
                    other,
                ) == spec_has_local(old(arena).records@[self.data as int], other),
            forall|other: Seq<char>|
                other != name@ && spec_has_local(old(arena).records@[self.data as int], other)
                    ==> #[trigger] spec_local_get(
                    final(arena).records@[self.data as int],
                    other,
                ) == spec_local_get(old(arena).records@[self.data as int], other),
    {
        arena.set_value(self.data, name, value);
    }

    /// Resolves a name already split at its dots: the first part through
    /// this record, each further part through the environment the previous
    /// one named, exactly as `spec_resolve_parts` says. An empty run, an
    /// unbound part, or a prefix that is not an environment resolves to
    /// nothing.
    pub fn resolve_parts(&self, arena: &ScopeArena, parts: &Vec<String>) -> (r: Option<Value>)
        requires
            arena_wf(arena.records@),
            self.data < arena.records@.len(),
        ensures
            r == spec_resolve_parts(
                arena.records@,
                self.data as int,
                spec_string_views(parts@),
            ),
    {
        let ghost views = spec_string_views(parts@);
        if parts.len() == 0 {
            return None;
        }
        let mut result = match self.get_value(arena, parts[0].as_str()) {
            Some(value) => value,
            None => {
                return None;
            },
        };
        let mut index: usize = 1;
        while index < parts.len()
            invariant
                arena_wf(arena.records@),
                views == spec_string_views(parts@),
                views.len() == parts@.len(),
                1 <= index <= parts@.len(),
                spec_resolve_parts(arena.records@, self.data as int, views)
                    == spec_resolve_from(arena.records@, result, views, index as int),
            decreases parts@.len() - index,
        {
            match result {
                Value::Scope(scope) => {
                    if scope.data >= arena.records.len() {
                        return None;
                    }
                    match ScopeValue::new(scope.data).get_value(arena, parts[index].as_str()) {
                        Some(value) => {
                            result = value;
                        },
                        None => {
                            return None;
                        },
                    }
                },
                _ => {
                    return None;
                },
            }
            index = index + 1;
        }
        Some(result)
    }

    /// Resolves a qualified (dotted) name: the name is split at its dots
    /// and the parts are stepped through the record chain, exactly as
    /// `spec_resolve_qualified` says. A name without a dot resolves as one
    /// plain lookup.
    pub fn resolve(&self, arena: &ScopeArena, qualified_name: &str) -> (r: Option<Value>)
        requires
            arena_wf(arena.records@),
            self.data < arena.records@.len(),
        ensures
            r == spec_resolve_qualified(
                arena.records@,
                self.data as int,
                qualified_name@,
            ),
            !spec_str_has_dot(qualified_name@) ==> r == spec_scope_get(
                arena.records@,
                self.data as int,
                qualified_name@,
            ),
    {
        let parts = split_name(qualified_name);
        proof {
            if !spec_str_has_dot(qualified_name@) {
                assert(parts@.len() == 1);
                assert(parts@[0]@ == qualified_name@);
                assert(spec_string_views(parts@) =~= seq![qualified_name@]);
            }
        }
        self.resolve_parts(arena, &parts)
    }

    /// The tag that names this kind in diagnostics.
    pub fn get_type_name(&self) -> (r: &'static str)
        ensures
            r@ == "ScopeValue"@,
    {
        "ScopeValue"
    }

    /// Environments have no readable text.
    pub fn to_string(&self) -> (r: String)
        ensures
            r@ == "[scope]"@,
    {
        "[scope]".to_owned()
    }

    /// Environments cannot be indexed.
    pub fn get(&self, subscripts: &Vec<Value>) -> (r: Value)
        ensures
            r == Value::Nothing(NoneValue {  }),
    {
        NoneValue::create()
    }

    /// Environments cannot be index-assigned.
    pub fn set(&self, subscripts: &Vec<Value>, value: Value) -> (r: Value)
        ensures
            r == Value::Nothing(NoneValue {  }),
    {
        NoneValue::create()
    }

    /// Arithmetic on an environment degrades to `Nothing`.
    pub fn unary_plus(&self) -> (r: Value)
        ensures
            r == Value::Nothing(NoneValue {  }),
    {
        NoneValue::create()
    }

    /// Arithmetic on an environment degrades to `Nothing`.
    pub fn unary_minus(&self) -> (r: Value)
        ensures
            r == Value::Nothing(NoneValue {  }),
    {
        NoneValue::create()
    }

    /// Arithmetic on an environment degrades to `Nothing`.
    pub fn not(&self) -> (r: Value)
        ensures
            r == Value::Nothing(NoneValue {  }),
    {
        NoneValue::create()
    }

    /// Arithmetic on an environment degrades to `Nothing`.
    pub fn power(&self, other: &Value) -> (r: Value)
        ensures
            r == Value::Nothing(NoneValue {  }),
    {
        NoneValue::create()
    }

    /// Arithmetic on an environment degrades to `Nothing`.
    pub fn times(&self, other: &Value) -> (r: Value)
        ensures
            r == Value::Nothing(NoneValue {  }),
    {
        NoneValue::create()
    }

    /// Arithmetic on an environment degrades to `Nothing`.
    pub fn divide(&self, other: &Value) -> (r: Value)
        ensures
            r == Value::Nothing(NoneValue {  }),
    {
        NoneValue::create()
    }

    /// Arithmetic on an environment degrades to `Nothing`.
    pub fn reminder(&self, other: &Value) -> (r: Value)
        ensures
            r == Value::Nothing(NoneValue {  }),
    {
        NoneValue::create()
    }

    /// Arithmetic on an environment degrades to `Nothing`.
    pub fn plus(&self, other: &Value) -> (r: Value)
        ensures
            r == Value::Nothing(NoneValue {  }),
    {
        NoneValue::create()
    }

    /// Arithmetic on an environment degrades to `Nothing`.
    pub fn minus(&self, other: &Value) -> (r: Value)
        ensures
            r == Value::Nothing(NoneValue {  }),
    {
        NoneValue::create()
    }

    /// Environments contain nothing.
    pub fn contains(&self, other: &Value) -> (r: BooleanValue)
        ensures
            r == (BooleanValue { value: false }),
    {
        BooleanValue::new(false)
    }

    /// Environments compare equal to nothing.
    pub fn equals(&self, other: &Value) -> (r: BooleanValue)
        ensures
            r == (BooleanValue { value: false }),
    {
        BooleanValue::new(false)
    }

    /// Environments are unordered: always `0`.
    pub fn compare(&self, other: &Value) -> (r: NumberValue)
        ensures
            r == (NumberValue { value: 0 }),
    {
        NumberValue::new(0)
    }
}

/// Resolution through a record only ever reads the record itself and its
/// ancestors, which all have handles no larger than its own: two arenas that
/// agree on every record up to the handle resolve every name alike there.
proof fn lemma_lookup_frame(
    r1: Seq<ScopeData>,
    r2: Seq<ScopeData>,
    handle: int,
    name: Seq<char>,
)
    requires
        arena_wf(r1),
        arena_wf(r2),
        r1.len() == r2.len(),
        0 <= handle < r1.len(),
        forall|i: int| 0 <= i <= handle ==> r2[i] == r1[i],
    ensures
        spec_lookup(r2, handle, name) == spec_lookup(r1, handle, name),
    decreases handle,
{
    if name != "outerScope"@ && !spec_has_local(r1[handle], name) {
        match r1[handle].parent {
            Some(p) => {
                lemma_lookup_frame(r1, r2, p as int, name);
            },
            None => {},
        }
    }
}

/// Scope shadowing. Binding a name in a child environment neither alters
/// that name in the parent nor what the parent chain resolves it to; a name
/// unbound in the child falls through to the parent chain; and `outerScope`
/// read from a parentless (global) record yields the `Nothing` value.
/// `before` and `after` are the arena around one binding step in the child,
/// as `set_value` describes it: only the child record changed, and in it
/// only the one binding.
pub proof fn lemma_scope_shadowing(
    before: Seq<ScopeData>,
    after: Seq<ScopeData>,
    child: usize,
    parent: usize,
    name: Seq<char>,
    value: Value,
)
    requires
        arena_wf(before),
        arena_wf(after),
        before.len() == after.len(),
        parent < child < before.len(),
        before[child as int].parent == Some(parent),
        after[child as int].parent == Some(parent),
        forall|i: int| 0 <= i < before.len() && i != child as int ==> after[i] == before[i],
        spec_has_local(after[child as int], name),
        spec_local_get(after[child as int], name) == value,
        name != "outerScope"@,
    ensures
        // the parent resolves the name exactly as before the assignment
        spec_lookup(after, parent as int, name) == spec_lookup(before, parent as int, name),
        // the child now resolves the name to the bound value
        spec_lookup(after, child as int, name) == Some(spec_dup(value)),
        // an unbound name falls through to the parent chain
        !spec_has_local(before[child as int], name) ==> spec_lookup(before, child as int, name)
            == spec_lookup(before, parent as int, name),
        // the top of the chain has no outer scope, only the `Nothing` value
        forall|g: int|
            0 <= g < before.len() && before[g].parent is None ==> spec_lookup(
                before,
                g,
                "outerScope"@,
            ) == Some(Value::Nothing(NoneValue {  })),
{
    lemma_lookup_frame(before, after, parent as int, name);
    if !spec_has_local(before[child as int], name) {
        assert(spec_lookup(before, child as int, name) == spec_lookup(
            before,
            parent as int,
            name,
        ));
    }
    assert forall|g: int|
        0 <= g < before.len() && before[g].parent is None implies spec_lookup(
        before,
        g,
        "outerScope"@,
    ) == Some(Value::Nothing(NoneValue {  })) by {
        assert(spec_lookup(before, g, "outerScope"@) == Some(Value::Nothing(NoneValue {  })));
    }
}

/// Closure isolation. Each call of a closure binds its arguments in a child
/// environment of its own: a binding made in one call record is invisible
/// through the other, while a binding made in the captured (defining)
/// record is seen through both, wherever neither call record shadows it.
/// `before` and `after` are the arena around one binding step in the first
/// call record, as `set_value` describes it.
pub proof fn lemma_closure_isolation(
    before: Seq<ScopeData>,
    after: Seq<ScopeData>,
    first: usize,
    second: usize,
    captured: usize,
    name: Seq<char>,
)
    requires
        arena_wf(before),
        arena_wf(after),
        before.len() == after.len(),
        captured < first < before.len(),
        captured < second < before.len(),
        first != second,
        before[second as int].parent == Some(captured),
        after[second as int].parent == Some(captured),
        forall|i: int| 0 <= i < before.len() && i != first as int ==> after[i] == before[i],
    ensures
        // the other call resolves every name exactly as before the binding
        forall|n: Seq<char>|
            spec_lookup(after, second as int, n) == #[trigger] spec_lookup(
                before,
                second as int,
                n,
            ),
        // both calls see what the captured record binds, where they do not
        // shadow it
        forall|n: Seq<char>|
            n != "outerScope"@ && !spec_has_local(before[second as int], n)
                ==> #[trigger] spec_lookup(before, second as int, n) == spec_lookup(
                before,
                captured as int,
                n,
            ),
{
    assert forall|n: Seq<char>|
        spec_lookup(after, second as int, n) == #[trigger] spec_lookup(
        before,
        second as int,
        n,
    ) by {
        if n != "outerScope"@ && !spec_has_local(before[second as int], n) {
            lemma_lookup_frame(before, after, captured as int, n);
            assert(spec_lookup(before, second as int, n) == spec_lookup(
                before,
                captured as int,
                n,
            ));
            assert(spec_lookup(after, second as int, n) == spec_lookup(
                after,
                captured as int,
                n,
            ));
        }
    }
}

/// True when the name has a dot, and is therefore qualified.
pub open spec fn spec_str_has_dot(s: Seq<char>) -> bool {
    exists|i: int| 0 <= i < s.len() && s[i] == '.'
}

/// Splits a qualified name at its dots, exactly as `spec_split_dots` says:
/// no part holds a dot, and the parts joined back with dots spell the
/// name, which pins the split down.
pub fn split_name(qualified_name: &str) -> (r: Vec<String>)
    ensures
        spec_string_views(r@) == spec_split_dots(qualified_name@),
        r@.len() >= 1,
        !spec_str_has_dot(qualified_name@) ==> r@.len() == 1 && r@[0]@ == qualified_name@,
        forall|i: int| 0 <= i < r@.len() ==> !spec_str_has_dot(#[trigger] r@[i]@),
{
    let ghost whole = qualified_name@;
    let len = vstd::string::StrSliceExecFns::unicode_len(qualified_name);
    let mut parts: Vec<String> = Vec::new();
    let mut current = String::new();
    let mut index: usize = 0;
    let ghost mut start: int = 0;
    proof {
        assert(whole.skip(0) =~= whole);
        assert(spec_string_views(parts@) =~= Seq::<Seq<char>>::empty());
        assert(spec_string_views(parts@) + spec_split_dots(whole.skip(0)) =~= spec_split_dots(
            whole,
        ));
    }
    while index < len
        invariant
            len == whole.len(),
            qualified_name@ == whole,
            0 <= start <= index <= len,
            current@ == whole.subrange(start, index as int),
            forall|j: int| start <= j < index ==> whole[j] != '.',
            forall|i: int| 0 <= i < parts@.len() ==> !spec_str_has_dot(#[trigger] parts@[i]@),
            spec_split_dots(whole) == spec_string_views(parts@) + spec_split_dots(
                whole.skip(start),
            ),
        decreases len - index,
    {
        let c = vstd::string::StrSliceExecFns::get_char(qualified_name, index);
        if c == '.' {
            parts.push(current);
            current = String::new();
            proof {
                let tail = whole.skip(start);
                lemma_leading_of(tail, |x: char| x != '.', index - start);
                assert(spec_leading(tail, |x: char| x != '.') == index - start);
                assert(tail.take(index - start) =~= whole.subrange(start, index as int));
                assert(tail.skip(index - start + 1) =~= whole.skip(index as int + 1));
                assert(spec_split_dots(tail) == seq![whole.subrange(start, index as int)]
                    + spec_split_dots(whole.skip(index as int + 1)));
                assert(spec_string_views(parts@) =~= spec_string_views(parts@.drop_last()).push(
                    whole.subrange(start, index as int),
                ));
                assert(spec_string_views(parts@) + spec_split_dots(whole.skip(index as int + 1))
                    =~= (spec_string_views(parts@.drop_last()) + spec_split_dots(tail)));
                start = index as int + 1;
                assert(current@ =~= whole.subrange(start, index as int + 1));
            }
        } else {
            current.push(c);
            proof {
                assert(current@ =~= whole.subrange(start, index as int + 1));
            }
        }
        index = index + 1;
    }
    parts.push(current);
    proof {
        let tail = whole.skip(start);
        lemma_leading_of(tail, |x: char| x != '.', len as int - start);
        assert(spec_leading(tail, |x: char| x != '.') == len - start);
        assert(spec_split_dots(tail) == seq![tail]);
        assert(tail =~= whole.subrange(start, len as int));
        assert(spec_string_views(parts@) =~= spec_string_views(parts@.drop_last()).push(
            current@,
        ));
        assert(spec_string_views(parts@) =~= spec_string_views(parts@.drop_last())
            + spec_split_dots(tail));
        if !spec_str_has_dot(whole) {
            lemma_leading_of(whole, |x: char| x != '.', whole.len() as int);
            assert(spec_split_dots(whole) == seq![whole]);
            assert(spec_string_views(parts@)[0] == parts@[0]@);
        }
    }
    parts
}


} // verus!
