//! The schema model: the declarative description of a record.
//!
//! A schema is an ordered list of field descriptors. Each field has a name
//! (unique in the record), an external key used when the field is exchanged
//! with a string-keyed store (unique among the non-excluded fields, and the
//! name unless an alias is given), a value kind, a resolved default, and an
//! "excluded" marker. Excluded fields keep their slot and default but never
//! appear in `keys()`, are never marked dirty, and are never loaded from or
//! exported to a map.

use crate::value::{fits, zero_of, zero_value, FieldKind, Value, ValueModel};
use vstd::prelude::*;

verus! {

/// The mathematical model of a field descriptor.
#[verifier::ext_equal]
pub struct FieldModel {
    pub name: Seq<char>,
    pub key: Seq<char>,
    pub kind: FieldKind,
    pub default: ValueModel,
    pub excluded: bool,
}

/// One declared field of a record.
pub struct FieldDescriptor {
    name: String,
    key: String,
    kind: FieldKind,
    default: Value,
    excluded: bool,
}

impl View for FieldDescriptor {
    type V = FieldModel;

    closed spec fn view(&self) -> FieldModel {
        FieldModel {
            name: self.name@,
            key: self.key@,
            kind: self.kind,
            default: self.default@,
            excluded: self.excluded,
        }
    }
}

impl DeepView for FieldDescriptor {
    type V = FieldModel;

    open spec fn deep_view(&self) -> FieldModel {
        self.view()
    }
}

impl FieldDescriptor {
    /// A field named `name` of the given kind: its external key is the name,
    /// its default the kind's zero value, and it is not excluded.
    pub fn new(name: String, kind: FieldKind) -> (f: FieldDescriptor)
        ensures
            f@ == (FieldModel {
                name: name@,
                key: name@,
                kind,
                default: zero_of(kind),
                excluded: false,
            }),
    {
        let key = name.clone();
        let default = zero_value(kind);
        FieldDescriptor { name, key, kind, default, excluded: false }
    }

    /// Use `key` instead of the field name when exchanging the field with a
    /// store.
    pub fn with_key(self, key: String) -> (f: FieldDescriptor)
        ensures
            f@ == (FieldModel { key: key@, ..self@ }),
    {
        FieldDescriptor { key, ..self }
    }

    /// Use `default` instead of the kind's zero value. A default produced by
    /// a zero-argument function is recorded here once: defaults are pure, so
    /// evaluating the producer when the schema is declared loses nothing.
    pub fn with_default(self, default: Value) -> (f: FieldDescriptor)
        ensures
            f@ == (FieldModel { default: default@, ..self@ }),
    {
        FieldDescriptor { default, ..self }
    }

    /// Exclude the field from persistence: it keeps its slot and default but
    /// never appears in `keys()`, is never marked dirty, and is never loaded
    /// from or exported to a map.
    pub fn excluded(self) -> (f: FieldDescriptor)
        ensures
            f@ == (FieldModel { excluded: true, ..self@ }),
    {
        FieldDescriptor { excluded: true, ..self }
    }

    /// The field's name.
    pub fn name(&self) -> (r: &String)
        ensures
            r@ == self@.name,
    {
        &self.name
    }

    /// The field's external key.
    pub fn key(&self) -> (r: &String)
        ensures
            r@ == self@.key,
    {
        &self.key
    }

    /// The field's value kind.
    pub fn kind(&self) -> (r: FieldKind)
        ensures
            r == self@.kind,
    {
        self.kind
    }

    /// The field's resolved default value.
    pub fn default_value(&self) -> (r: &Value)
        ensures
            r@ == self@.default,
    {
        &self.default
    }

    /// Whether the field is excluded from persistence.
    pub fn is_excluded(&self) -> (r: bool)
        ensures
            r == self@.excluded,
    {
        self.excluded
    }
}

/// A field whose default a record may hold.
pub open spec fn field_ok(f: FieldModel) -> bool {
    fits(f.kind, f.default)
}

/// A well-formed schema: every default fits its field's kind, names are
/// unique, and external keys are unique among the non-excluded fields.
pub open spec fn schema_ok(s: Seq<FieldModel>) -> bool {
    &&& forall|i: int| 0 <= i < s.len() ==> field_ok(#[trigger] s[i])
    &&& forall|i: int, j: int| 0 <= i < j < s.len() ==> (#[trigger] s[i]).name != (#[trigger] s[j]).name
    &&& forall|i: int, j: int|
        0 <= i < j < s.len() && !(#[trigger] s[i]).excluded && !(#[trigger] s[j]).excluded
            ==> s[i].key != s[j].key
}

/// The problem `Schema::build` found with the declared fields.
#[verifier::ext_equal]
pub enum SchemaIssue {
    /// Two fields share this name.
    DuplicateName(Seq<char>),
    /// Two non-excluded fields share this external key.
    DuplicateKey(Seq<char>),
    /// The default of the field with this name does not fit its kind.
    BadDefault(Seq<char>),
}

/// A schema-definition error, reported when a schema is built and never at
/// any later point: a record built from an accepted schema never meets one.
#[derive(Debug, PartialEq, Eq)]
pub enum SchemaError {
    /// Two fields share this name.
    DuplicateName(String),
    /// Two non-excluded fields share this external key.
    DuplicateKey(String),
    /// The default of the field with this name does not fit its kind.
    BadDefault(String),
}

impl View for SchemaError {
    type V = SchemaIssue;

    open spec fn view(&self) -> SchemaIssue {
        match self {
            SchemaError::DuplicateName(n) => SchemaIssue::DuplicateName(n@),
            SchemaError::DuplicateKey(k) => SchemaIssue::DuplicateKey(k@),
            SchemaError::BadDefault(n) => SchemaIssue::BadDefault(n@),
        }
    }
}

/// The problem a scan finds at field `i`, if any: a name already used by an
/// earlier field, then a key already used by an earlier non-excluded field
/// (when field `i` is itself not excluded), then a default that does not fit
/// the field's kind.
pub open spec fn issue_at(s: Seq<FieldModel>, i: int) -> Option<SchemaIssue> {
    if exists|j: int| 0 <= j < i && (#[trigger] s[j]).name == s[i].name {
        Some(SchemaIssue::DuplicateName(s[i].name))
    } else if !s[i].excluded && exists|j: int|
        0 <= j < i && !(#[trigger] s[j]).excluded && s[j].key == s[i].key {
        Some(SchemaIssue::DuplicateKey(s[i].key))
    } else if !field_ok(s[i]) {
        Some(SchemaIssue::BadDefault(s[i].name))
    } else {
        None
    }
}

/// The first problem a scan of the declared fields meets, starting at field
/// `i`.
pub open spec fn first_issue_from(s: Seq<FieldModel>, i: int) -> Option<SchemaIssue>
    decreases s.len() - i,
{
    if i < 0 || i >= s.len() {
        None
    } else if issue_at(s, i) is Some {
        issue_at(s, i)
    } else {
        first_issue_from(s, i + 1)
    }
}

/// The first problem a scan of the declared fields meets.
pub open spec fn first_issue(s: Seq<FieldModel>) -> Option<SchemaIssue> {
    first_issue_from(s, 0)
}

/// A scan that finds no problem accepts exactly the well-formed schemas.
pub proof fn lemma_first_issue_none(s: Seq<FieldModel>)
    ensures
        first_issue(s) is None <==> schema_ok(s),
{
    lemma_first_issue_from_none(s, 0);
    if schema_ok(s) {
        assert forall|i: int| 0 <= i < s.len() implies issue_at(s, i) is None by {
            assert(field_ok(s[i]));
        }
    }
    if first_issue(s) is None {
        assert forall|i: int| 0 <= i < s.len() implies field_ok(#[trigger] s[i]) by {
            assert(issue_at(s, i) is None);
        }
        assert forall|i: int, j: int| 0 <= i < j < s.len() implies (#[trigger] s[i]).name != (
        #[trigger] s[j]).name by {
            assert(issue_at(s, j) is None);
        }
        assert forall|i: int, j: int|
            0 <= i < j < s.len() && !(#[trigger] s[i]).excluded && !(#[trigger] s[j]).excluded
            implies s[i].key != s[j].key by {
            assert(issue_at(s, j) is None);
        }
    }
}

proof fn lemma_first_issue_from_none(s: Seq<FieldModel>, i: int)
    requires
        0 <= i <= s.len(),
    ensures
        first_issue_from(s, i) is None <==> (forall|k: int|
            i <= k < s.len() ==> issue_at(s, k) is None),
    decreases s.len() - i,
{
    if i < s.len() {
        lemma_first_issue_from_none(s, i + 1);
    }
}

/// A scan that stops at `m` saw no problem earlier.
proof fn lemma_first_issue_found(s: Seq<FieldModel>, m: int)
    requires
        0 <= m < s.len(),
        issue_at(s, m) is Some,
        forall|k: int| 0 <= k < m ==> issue_at(s, k) is None,
    ensures
        first_issue(s) == issue_at(s, m),
{
    lemma_first_issue_from_found(s, 0, m);
}

proof fn lemma_first_issue_from_found(s: Seq<FieldModel>, i: int, m: int)
    requires
        0 <= i <= m < s.len(),
        issue_at(s, m) is Some,
        forall|k: int| i <= k < m ==> issue_at(s, k) is None,
    ensures
        first_issue_from(s, i) == issue_at(s, m),
    decreases m - i,
{
    if i < m {
        lemma_first_issue_from_found(s, i + 1, m);
    }
}

/// A record schema: the ordered, validated list of field descriptors.
pub struct Schema {
    fields: Vec<FieldDescriptor>,
}

impl View for Schema {
    type V = Seq<FieldModel>;

    closed spec fn view(&self) -> Seq<FieldModel> {
        self.fields.deep_view()
    }
}

impl Schema {
    /// The schema is well-formed. `build` accepts exactly such field lists.
    pub open spec fn wf(&self) -> bool {
        schema_ok(self@)
    }

    /// Validate the declared fields and build the schema. The scan walks the
    /// fields in declaration order and reports the first problem it meets:
    /// for each field, a duplicated name, then a duplicated external key
    /// among the non-excluded fields, then a default that does not fit the
    /// field's kind.
    pub fn build(fields: Vec<FieldDescriptor>) -> (r: Result<Schema, SchemaError>)
        ensures
            r is Ok <==> schema_ok(fields.deep_view()),
            r is Ok ==> r->Ok_0@ == fields.deep_view() && r->Ok_0.wf(),
            r is Err ==> Some(r->Err_0@) == first_issue(fields.deep_view()),
    {
        let ghost s = fields.deep_view();
        let n = fields.len();
        let mut i: usize = 0;
        while i < n
            invariant
                n == fields.len(),
                s == fields.deep_view(),
                0 <= i <= n,
                forall|k: int| 0 <= k < i ==> issue_at(s, k) is None,
            decreases n - i,
        {
            proof {
                assert(s[i as int] == fields[i as int]@);
            }
            let mut j: usize = 0;
            while j < i
                invariant
                    n == fields.len(),
                    s == fields.deep_view(),
                    0 <= j <= i < n,
                    forall|k: int| 0 <= k < i ==> issue_at(s, k) is None,
                    forall|k: int| 0 <= k < j ==> (#[trigger] s[k]).name != s[i as int].name,
                decreases i - j,
            {
                proof {
                    assert(s[j as int] == fields[j as int]@);
                }
                if fields[j].name().eq(fields[i].name()) {
                    proof {
                        assert(0 <= j < i && s[j as int].name == s[i as int].name);
                        assert(issue_at(s, i as int) == Some(
                            SchemaIssue::DuplicateName(s[i as int].name),
                        ));
                        lemma_first_issue_found(s, i as int);
                        lemma_first_issue_none(s);
                    }
                    return Err(SchemaError::DuplicateName(fields[i].name().clone()));
                }
                j += 1;
            }
            if !fields[i].is_excluded() {
                let mut j: usize = 0;
                while j < i
                    invariant
                        n == fields.len(),
                        s == fields.deep_view(),
                        0 <= j <= i < n,
                        forall|k: int| 0 <= k < i ==> issue_at(s, k) is None,
                        !s[i as int].excluded,
                        forall|k: int| 0 <= k < i ==> (#[trigger] s[k]).name != s[i as int].name,
                        forall|k: int|
                            0 <= k < j && !(#[trigger] s[k]).excluded ==> s[k].key != s[
                                i as int
                            ].key,
                    decreases i - j,
                {
                    proof {
                        assert(s[j as int] == fields[j as int]@);
                    }
                    if !fields[j].is_excluded() && fields[j].key().eq(fields[i].key()) {
                        proof {
                            assert(0 <= j < i && !s[j as int].excluded && s[j as int].key == s[
                                i as int
                            ].key);
                            assert(issue_at(s, i as int) == Some(
                                SchemaIssue::DuplicateKey(s[i as int].key),
                            ));
                            lemma_first_issue_found(s, i as int);
                            lemma_first_issue_none(s);
                        }
                        return Err(SchemaError::DuplicateKey(fields[i].key().clone()));
                    }
                    j += 1;
                }
            }
            let f = &fields[i];
            let kind_ok = f.default_value().kind() == f.kind();
            let value_ok = crate::value::value_ok_exec(f.default_value());
            if !(kind_ok && value_ok) {
                proof {
                    assert(issue_at(s, i as int) == Some(
                        SchemaIssue::BadDefault(s[i as int].name),
                    ));
                    lemma_first_issue_found(s, i as int);
                    lemma_first_issue_none(s);
                }
                return Err(SchemaError::BadDefault(fields[i].name().clone()));
            }
            proof {
                assert(issue_at(s, i as int) is None);
            }
            i += 1;
        }
        proof {
            lemma_first_issue_from_none(s, 0);
            lemma_first_issue_none(s);
        }
        Ok(Schema { fields })
    }

    /// The number of declared fields.
    pub fn len(&self) -> (r: usize)
        ensures
            r == self@.len(),
    {
        self.fields.len()
    }

    /// The descriptor of field `i`, in declaration order.
    pub fn field_at(&self, i: usize) -> (r: &FieldDescriptor)
        requires
            i < self@.len(),
        ensures
            r@ == self@[i as int],
    {
        &self.fields[i]
    }
}

/// The external keys of the non-excluded fields among the first `n`, in
/// declaration order.
pub open spec fn keys_of_prefix(s: Seq<FieldModel>, n: int) -> Seq<Seq<char>>
    decreases n,
{
    if n <= 0 {
        Seq::empty()
    } else if s[n - 1].excluded {
        keys_of_prefix(s, n - 1)
    } else {
        keys_of_prefix(s, n - 1).push(s[n - 1].key)
    }
}

/// The external keys of the non-excluded fields, in declaration order.
pub open spec fn keys_of(s: Seq<FieldModel>) -> Seq<Seq<char>> {
    keys_of_prefix(s, s.len() as int)
}

/// The index of the first non-excluded field at or after `i` whose external
/// key is `k`.
pub open spec fn key_index_from(s: Seq<FieldModel>, k: Seq<char>, i: int) -> Option<int>
    decreases s.len() - i,
{
    if i < 0 || i >= s.len() {
        None
    } else if !s[i].excluded && s[i].key == k {
        Some(i)
    } else {
        key_index_from(s, k, i + 1)
    }
}

/// The index of the field a map entry with key `k` speaks of: the first
/// non-excluded field with that external key, if any.
pub open spec fn key_index(s: Seq<FieldModel>, k: Seq<char>) -> Option<int> {
    key_index_from(s, k, 0)
}

/// Whatever `key_index` returns is in range, not excluded, and carries the
/// key.
pub proof fn lemma_key_index_some(s: Seq<FieldModel>, k: Seq<char>)
    ensures
        key_index(s, k) is Some ==> {
            let i = key_index(s, k)->Some_0;
            0 <= i < s.len() && !s[i].excluded && s[i].key == k
        },
{
    lemma_key_index_from_some(s, k, 0);
}

proof fn lemma_key_index_from_some(s: Seq<FieldModel>, k: Seq<char>, i: int)
    ensures
        key_index_from(s, k, i) is Some ==> {
            let m = key_index_from(s, k, i)->Some_0;
            i <= m < s.len() && !s[m].excluded && s[m].key == k
        },
    decreases s.len() - i,
{
    if 0 <= i < s.len() {
        lemma_key_index_from_some(s, k, i + 1);
    }
}

/// In a well-formed schema the lookup of a non-excluded field's own key
/// finds that field.
pub proof fn lemma_key_index_of_own_key(s: Seq<FieldModel>, i: int)
    requires
        schema_ok(s),
        0 <= i < s.len(),
        !s[i].excluded,
    ensures
        key_index(s, s[i].key) == Some(i),
{
    lemma_key_index_from_of_own_key(s, i, 0);
}

proof fn lemma_key_index_from_of_own_key(s: Seq<FieldModel>, i: int, j: int)
    requires
        schema_ok(s),
        0 <= j <= i < s.len(),
        !s[i].excluded,
    ensures
        key_index_from(s, s[i].key, j) == Some(i),
    decreases i - j,
{
    if j < i {
        lemma_key_index_from_of_own_key(s, i, j + 1);
    }
}

impl Schema {
    /// The catalogue of external keys: one per non-excluded field, in
    /// declaration order, each the field's alias or its name.
    pub fn keys(&self) -> (r: Vec<String>)
        ensures
            r.deep_view() == keys_of(self@),
    {
        let n = self.fields.len();
        let mut r: Vec<String> = Vec::new();
        let mut i: usize = 0;
        while i < n
            invariant
                n == self@.len(),
                n == self.fields.len(),
                0 <= i <= n,
                r.deep_view() == keys_of_prefix(self@, i as int),
            decreases n - i,
        {
            proof {
                assert(self@[i as int] == self.fields[i as int]@);
            }
            if !self.fields[i].is_excluded() {
                let k = self.fields[i].key().clone();
                r.push(k);
                proof {
                    assert(r.deep_view() =~= keys_of_prefix(self@, i as int + 1));
                }
            } else {
                proof {
                    assert(r.deep_view() =~= keys_of_prefix(self@, i as int + 1));
                }
            }
            i += 1;
        }
        proof {
            assert(r.deep_view() =~= keys_of(self@));
        }
        r
    }

    /// Find the field a map entry with key `k` speaks of: the first
    /// non-excluded field with that external key.
    pub fn index_of_key(&self, k: &String) -> (r: Option<usize>)
        ensures
            match r {
                Some(i) => key_index(self@, k@) == Some(i as int) && i < self@.len(),
                None => key_index(self@, k@) is None,
            },
    {
        let n = self.fields.len();
        let mut i: usize = 0;
        while i < n
            invariant
                n == self@.len(),
                n == self.fields.len(),
                0 <= i <= n,
                key_index(self@, k@) == key_index_from(self@, k@, i as int),
            decreases n - i,
        {
            proof {
                assert(self@[i as int] == self.fields[i as int]@);
            }
            if !self.fields[i].is_excluded() && self.fields[i].key().eq(k) {
                return Some(i);
            }
            i += 1;
        }
        None
    }

    /// Find the field with this name, if any.
    pub fn index_of_name(&self, name: &String) -> (r: Option<usize>)
        ensures
            match r {
                Some(i) => i < self@.len() && self@[i as int].name == name@ && forall|k: int|
                    0 <= k < i ==> (#[trigger] self@[k]).name != name@,
                None => forall|i: int| 0 <= i < self@.len() ==> (#[trigger] self@[i]).name != name@,
            },
    {
        let n = self.fields.len();
        let mut i: usize = 0;
        while i < n
            invariant
                n == self@.len(),
                n == self.fields.len(),
                0 <= i <= n,
                forall|k: int| 0 <= k < i ==> (#[trigger] self@[k]).name != name@,
            decreases n - i,
        {
            proof {
                assert(self@[i as int] == self.fields[i as int]@);
            }
            if self.fields[i].name().eq(name) {
                return Some(i);
            }
            i += 1;
        }
        None
    }
}

} // verus!
