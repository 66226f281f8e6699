//! The settings record: values, accessors, dirty tracking, map load and
//! change export.
//!
//! A record holds one value per declared field and a dirty set: the external
//! keys of the non-excluded fields mutated since construction or since the
//! last acknowledged save. Accessors replace values and mark their field
//! dirty; `from_map` loads a record from a flat string map with per-field
//! error isolation; `get_changes` exports the dirty fields; and
//! `acknowledge_saved` clears the dirty set once the caller has persisted
//! the export.

use crate::codec::{decode_value, encode_value, spec_decode, spec_encode};
use crate::schema::{key_index, lemma_key_index_of_own_key, lemma_key_index_some, schema_ok, FieldModel, Schema};
use crate::value::{clone_value, fits, kind_of, value_ok, value_ok_exec, Value, ValueModel};
use vstd::prelude::*;

verus! {

/// The mathematical model of a record: its schema, one model value per
/// field, and one dirty mark per field.
#[verifier::ext_equal]
pub struct RecordModel {
    pub fields: Seq<FieldModel>,
    pub values: Seq<ValueModel>,
    pub dirty: Seq<bool>,
}

/// A well-formed record: a well-formed schema, one value and one dirty mark
/// per field, every value fitting its field's kind, and no excluded field
/// ever dirty.
pub open spec fn record_ok(r: RecordModel) -> bool {
    &&& schema_ok(r.fields)
    &&& r.values.len() == r.fields.len()
    &&& r.dirty.len() == r.fields.len()
    &&& forall|i: int| 0 <= i < r.fields.len() ==> fits(r.fields[i].kind, #[trigger] r.values[i])
    &&& forall|i: int| 0 <= i < r.fields.len() && (#[trigger] r.fields[i]).excluded ==> !r.dirty[i]
}

/// The dirty set: the external keys of the dirty fields.
pub open spec fn dirty_keys(r: RecordModel) -> Set<Seq<char>> {
    Set::new(
        |k: Seq<char>|
            exists|i: int| 0 <= i < r.fields.len() && (#[trigger] r.fields[i]).key == k && r.dirty[i],
    )
}

/// The record default construction yields: every field holds its resolved
/// default and no field is dirty.
pub open spec fn default_model(s: Seq<FieldModel>) -> RecordModel {
    RecordModel {
        fields: s,
        values: Seq::new(s.len(), |i: int| s[i].default),
        dirty: Seq::new(s.len(), |i: int| false),
    }
}

/// The record a map load starts from: defaults, with every non-excluded key
/// seeded dirty — pending until proven loaded.
pub open spec fn seeded_model(s: Seq<FieldModel>) -> RecordModel {
    RecordModel {
        fields: s,
        values: Seq::new(s.len(), |i: int| s[i].default),
        dirty: Seq::new(s.len(), |i: int| !s[i].excluded),
    }
}

/// The record after a successful `set` of field `i`: the value replaced and
/// the field marked dirty.
pub open spec fn set_model(r: RecordModel, i: int, v: ValueModel) -> RecordModel {
    RecordModel { fields: r.fields, values: r.values.update(i, v), dirty: r.dirty.update(i, true) }
}

/// The record after `acknowledge_saved`: the dirty set cleared, nothing else
/// touched.
pub open spec fn ack_model(r: RecordModel) -> RecordModel {
    RecordModel { fields: r.fields, values: r.values, dirty: Seq::new(r.dirty.len(), |i: int| false) }
}

/// Why a `set` or `update` was refused.
#[derive(Clone, Copy, PartialEq, Eq, Structural, Debug)]
pub enum SetError {
    /// The field is excluded from persistence and has no accessors.
    ExcludedField,
    /// The value belongs to another kind than the field.
    KindMismatch,
    /// The value is an object whose text the codec does not accept.
    InvalidValue,
}

/// What `set` decides for a record, a field and a value: refusals are
/// checked in this order, and a fitting value on a non-excluded field is
/// accepted.
pub open spec fn set_outcome(r: RecordModel, i: int, v: ValueModel) -> Result<(), SetError> {
    if r.fields[i].excluded {
        Err(SetError::ExcludedField)
    } else if kind_of(v) != r.fields[i].kind {
        Err(SetError::KindMismatch)
    } else if !value_ok(v) {
        Err(SetError::InvalidValue)
    } else {
        Ok(())
    }
}

/// The external keys of the dirty fields among the first `n`, in declaration
/// order.
pub open spec fn dirty_keys_prefix(r: RecordModel, n: int) -> Seq<Seq<char>>
    decreases n,
{
    if n <= 0 {
        Seq::empty()
    } else if r.dirty[n - 1] {
        dirty_keys_prefix(r, n - 1).push(r.fields[n - 1].key)
    } else {
        dirty_keys_prefix(r, n - 1)
    }
}

/// The external keys of the dirty fields, in declaration order.
pub open spec fn dirty_keys_list(r: RecordModel) -> Seq<Seq<char>> {
    dirty_keys_prefix(r, r.fields.len() as int)
}

/// The exported changes of the dirty fields among the first `n`, in
/// declaration order: one `(external key, encoded value)` pair per dirty
/// field.
pub open spec fn changes_prefix(r: RecordModel, n: int) -> Seq<(Seq<char>, Seq<char>)>
    decreases n,
{
    if n <= 0 {
        Seq::empty()
    } else if r.dirty[n - 1] {
        changes_prefix(r, n - 1).push((r.fields[n - 1].key, spec_encode(r.values[n - 1])))
    } else {
        changes_prefix(r, n - 1)
    }
}

/// The exported changes of a record.
pub open spec fn changes_model(r: RecordModel) -> Seq<(Seq<char>, Seq<char>)> {
    changes_prefix(r, r.fields.len() as int)
}

/// An exported pair leads back to its field: its key names a dirty field and
/// decoding its text restores that field's value.
pub open spec fn change_good(r: RecordModel, p: (Seq<char>, Seq<char>)) -> bool {
    match key_index(r.fields, p.0) {
        Some(i) => r.dirty[i] && spec_decode(r.fields[i].kind, p.1) is Ok && spec_decode(
            r.fields[i].kind,
            p.1,
        )->Ok_0 == r.values[i],
        None => false,
    }
}

/// A schema-driven settings record.
pub struct Record {
    schema: Schema,
    values: Vec<Value>,
    dirty: Vec<bool>,
}

impl View for Record {
    type V = RecordModel;

    closed spec fn view(&self) -> RecordModel {
        RecordModel {
            fields: self.schema@,
            values: self.values.deep_view(),
            dirty: self.dirty@,
        }
    }
}

impl Record {
    /// The record is well-formed. Construction establishes this and every
    /// method preserves it.
    pub open spec fn wf(&self) -> bool {
        record_ok(self@)
    }

    /// The exact value held in slot `i`, for speaking about the argument a
    /// caller-supplied `update` closure receives.
    pub closed spec fn value_at(&self, i: int) -> Value {
        self.values[i]
    }

    /// Default construction: every field holds its resolved default — the
    /// declared literal, what the declared producer returned, or the kind's
    /// zero value — and the dirty set is empty. Deterministic given the
    /// schema; reads no persisted state.
    pub fn new(schema: Schema) -> (r: Record)
        requires
            schema.wf(),
        ensures
            r@ == default_model(schema@),
            r.wf(),
    {
        let ghost s = schema@;
        let n = schema.len();
        let mut values: Vec<Value> = Vec::new();
        let mut dirty: Vec<bool> = Vec::new();
        let mut i: usize = 0;
        while i < n
            invariant
                n == s.len(),
                s == schema@,
                0 <= i <= n,
                values@.len() == i,
                dirty@.len() == i,
                forall|k: int| 0 <= k < i ==> (#[trigger] values@[k])@ == s[k].default,
                forall|k: int| 0 <= k < i ==> !(#[trigger] dirty@[k]),
            decreases n - i,
        {
            let v = clone_value(schema.field_at(i).default_value());
            values.push(v);
            dirty.push(false);
            i += 1;
        }
        let r = Record { schema, values, dirty };
        proof {
            assert(r@.values =~= default_model(s).values);
            assert(r@.dirty =~= default_model(s).dirty);
            assert(r@ =~= default_model(s));
        }
        r
    }

    /// The number of declared fields.
    pub fn len(&self) -> (n: usize)
        ensures
            n == self@.fields.len(),
    {
        self.schema.len()
    }

    /// The record's schema.
    pub fn schema(&self) -> (s: &Schema)
        ensures
            s@ == self@.fields,
    {
        &self.schema
    }

    /// The current value of field `i`.
    pub fn get(&self, i: usize) -> (v: &Value)
        requires
            i < self@.values.len(),
        ensures
            v@ == self@.values[i as int],
    {
        &self.values[i]
    }

    /// Whether field `i` is dirty.
    pub fn is_dirty(&self, i: usize) -> (b: bool)
        requires
            i < self@.dirty.len(),
        ensures
            b == self@.dirty[i as int],
    {
        self.dirty[i]
    }

    /// Replace the value of field `i` and mark the field dirty — even when
    /// the new value equals the old one; a caller who wants change-skipping
    /// compares first. Refused, leaving the record untouched, when the field
    /// is excluded, when the value belongs to another kind, or when an
    /// object's text is not one the codec accepts.
    pub fn set(&mut self, i: usize, v: Value) -> (r: Result<(), SetError>)
        requires
            old(self).wf(),
            i < old(self)@.fields.len(),
        ensures
            final(self).wf(),
            r == set_outcome(old(self)@, i as int, v@),
            r is Ok ==> final(self)@ == set_model(old(self)@, i as int, v@),
            r is Err ==> final(self)@ == old(self)@,
    {
        let f = self.schema.field_at(i);
        if f.is_excluded() {
            return Err(SetError::ExcludedField);
        }
        if v.kind() != f.kind() {
            return Err(SetError::KindMismatch);
        }
        if !value_ok_exec(&v) {
            return Err(SetError::InvalidValue);
        }
        self.values.set(i, v);
        self.dirty.set(i, true);
        proof {
            assert(self@.values =~= old(self)@.values.update(i as int, v@));
            assert(self@ =~= set_model(old(self)@, i as int, v@));
        }
        Ok(())
    }

    /// Pass the value of field `i` to `f` and store what it returns, marking
    /// the field dirty — in-place mutation of a composite value, such as
    /// appending to a list, without rebuilding it by hand. The returned
    /// value is screened exactly as in `set`; a refusal leaves the record
    /// untouched.
    pub fn update<F: FnOnce(Value) -> Value>(&mut self, i: usize, f: F) -> (r: Result<
        (),
        SetError,
    >)
        requires
            old(self).wf(),
            i < old(self)@.fields.len(),
            call_requires(f, (old(self).value_at(i as int),)),
        ensures
            final(self).wf(),
            exists|nv: Value|
                {
                    &&& #[trigger] call_ensures(f, (old(self).value_at(i as int),), nv)
                    &&& r == set_outcome(old(self)@, i as int, nv@)
                    &&& (r is Ok ==> final(self)@ == set_model(old(self)@, i as int, nv@))
                    &&& (r is Err ==> final(self)@ == old(self)@)
                },
    {
        let mut backup = clone_value(&self.values[i]);
        self.values.set_and_swap(i, &mut backup);
        proof {
            assert(self@.values =~= old(self)@.values);
        }
        let nv = f(backup);
        let fld = self.schema.field_at(i);
        if fld.is_excluded() {
            return Err(SetError::ExcludedField);
        }
        if nv.kind() != fld.kind() {
            return Err(SetError::KindMismatch);
        }
        if !value_ok_exec(&nv) {
            return Err(SetError::InvalidValue);
        }
        self.values.set(i, nv);
        self.dirty.set(i, true);
        proof {
            assert(self@.values =~= old(self)@.values.update(i as int, nv@));
            assert(self@ =~= set_model(old(self)@, i as int, nv@));
        }
        Ok(())
    }

    /// Clear the dirty set, unconditionally: the caller states that the
    /// exported changes were persisted. Nothing here verifies that claim —
    /// a caller must export with `get_changes` and persist the pairs before
    /// acknowledging, or updates are lost.
    pub fn acknowledge_saved(&mut self)
        requires
            old(self).wf(),
        ensures
            final(self)@ == ack_model(old(self)@),
            final(self).wf(),
    {
        let n = self.dirty.len();
        let mut cleared: Vec<bool> = Vec::new();
        let mut i: usize = 0;
        while i < n
            invariant
                0 <= i <= n,
                cleared@ == Seq::new(i as nat, |k: int| false),
            decreases n - i,
        {
            cleared.push(false);
            proof {
                assert(cleared@ =~= Seq::new(i as nat + 1, |k: int| false));
            }
            i += 1;
        }
        self.dirty = cleared;
        proof {
            assert(self@ =~= ack_model(old(self)@));
        }
    }

    /// The external keys of the dirty fields, in declaration order: a
    /// read-only view of the dirty set.
    pub fn dirty_fields(&self) -> (r: Vec<String>)
        requires
            self.wf(),
        ensures
            r.deep_view() == dirty_keys_list(self@),
    {
        let n = self.schema.len();
        let mut r: Vec<String> = Vec::new();
        let mut i: usize = 0;
        while i < n
            invariant
                self.wf(),
                n == self@.fields.len(),
                0 <= i <= n,
                r.deep_view() == dirty_keys_prefix(self@, i as int),
            decreases n - i,
        {
            if self.is_dirty(i) {
                let k = self.schema.field_at(i).key().clone();
                r.push(k);
                proof {
                    assert(r.deep_view() =~= dirty_keys_prefix(self@, i as int + 1));
                }
            } else {
                proof {
                    assert(r.deep_view() =~= dirty_keys_prefix(self@, i as int + 1));
                }
            }
            i += 1;
        }
        r
    }

    /// Pending changes: one `(external key, encoded value)` pair per dirty
    /// field, in declaration order. Export is total — the permissive policy:
    /// encoding cannot fail for any value a well-formed record holds, so
    /// there is no failure path. Every exported pair decodes back to the
    /// field it names.
    pub fn get_changes(&self) -> (r: Vec<(String, String)>)
        requires
            self.wf(),
        ensures
            r.deep_view() == changes_model(self@),
            forall|j: int|
                0 <= j < r.deep_view().len() ==> change_good(self@, #[trigger] r.deep_view()[j]),
    {
        let n = self.schema.len();
        let mut r: Vec<(String, String)> = Vec::new();
        let mut i: usize = 0;
        while i < n
            invariant
                self.wf(),
                n == self@.fields.len(),
                0 <= i <= n,
                r.deep_view() == changes_prefix(self@, i as int),
                forall|j: int|
                    0 <= j < r.deep_view().len() ==> change_good(self@, #[trigger] r.deep_view()[j]),
            decreases n - i,
        {
            if self.is_dirty(i) {
                let k = self.schema.field_at(i).key().clone();
                let enc = encode_value(&self.values[i]);
                proof {
                    assert(fits(self@.fields[i as int].kind, self@.values[i as int]));
                    assert(!self@.fields[i as int].excluded);
                    lemma_key_index_of_own_key(self@.fields, i as int);
                    assert(change_good(self@, (k@, enc@)));
                }
                r.push((k, enc));
                proof {
                    assert(r.deep_view() =~= changes_prefix(self@, i as int + 1));
                }
            } else {
                proof {
                    assert(r.deep_view() =~= changes_prefix(self@, i as int + 1));
                }
            }
            i += 1;
        }
        r
    }
}

/// What a map load returns: the record, the per-field decode failures as
/// `(external key, codec error text)` pairs, and the keys that matched no
/// field — both in input order.
pub struct LoadResult {
    pub value: Record,
    pub deserialization_errors: Vec<(String, String)>,
    pub unknown_fields: Vec<String>,
}

/// The mathematical model of a map load's three results.
#[verifier::ext_equal]
pub struct LoadModel {
    pub rec: RecordModel,
    pub errors: Seq<(Seq<char>, Seq<char>)>,
    pub unknown: Seq<Seq<char>>,
}

/// One map entry applied to a loading record. A key naming a field decodes
/// its text: on success the value is stored and the field is no longer
/// dirty; on failure the field is left alone and `(key, error text)` is
/// recorded. Any other key is reported unknown and changes nothing.
pub open spec fn load_step(m: LoadModel, s: Seq<FieldModel>, e: (Seq<char>, Seq<char>)) -> LoadModel {
    match key_index(s, e.0) {
        Some(i) => match spec_decode(s[i].kind, e.1) {
            Ok(v) => LoadModel {
                rec: RecordModel {
                    fields: m.rec.fields,
                    values: m.rec.values.update(i, v),
                    dirty: m.rec.dirty.update(i, false),
                },
                errors: m.errors,
                unknown: m.unknown,
            },
            Err(err) => LoadModel {
                rec: m.rec,
                errors: m.errors.push((e.0, err)),
                unknown: m.unknown,
            },
        },
        None => LoadModel { rec: m.rec, errors: m.errors, unknown: m.unknown.push(e.0) },
    }
}

/// A whole map load: the seeded defaults, then every entry applied in input
/// order.
pub open spec fn load_model(s: Seq<FieldModel>, entries: Seq<(Seq<char>, Seq<char>)>) -> LoadModel
    decreases entries.len(),
{
    if entries.len() == 0 {
        LoadModel { rec: seeded_model(s), errors: Seq::empty(), unknown: Seq::empty() }
    } else {
        load_step(load_model(s, entries.drop_last()), s, entries.last())
    }
}

impl Record {
    /// Build a record from a flat string map, given as its entries in
    /// iteration order. The record starts from its defaults with every
    /// non-excluded key seeded dirty — pending until proven loaded. Each
    /// entry whose key names a field is decoded: on success the value is
    /// stored and the key is no longer dirty; on failure the field keeps its
    /// default, stays dirty, and `(key, error text)` is recorded. Entries
    /// with unknown keys are reported verbatim and change nothing. One bad
    /// entry never disturbs the others, and the load always returns. Fields
    /// absent from the map thus keep their defaults and stay dirty; the
    /// other observed policy — leaving absent fields untracked — is not the
    /// one taken here.
    pub fn from_map(schema: Schema, entries: &Vec<(String, String)>) -> (r: LoadResult)
        requires
            schema.wf(),
        ensures
            r.value@ == load_model(schema@, entries.deep_view()).rec,
            r.value.wf(),
            r.deserialization_errors.deep_view() == load_model(schema@, entries.deep_view()).errors,
            r.unknown_fields.deep_view() == load_model(schema@, entries.deep_view()).unknown,
    {
        let ghost s = schema@;
        let ghost es = entries.deep_view();
        let n = schema.len();
        let mut values: Vec<Value> = Vec::new();
        let mut dirty: Vec<bool> = Vec::new();
        let mut i: usize = 0;
        while i < n
            invariant
                n == s.len(),
                s == schema@,
                0 <= i <= n,
                values@.len() == i,
                dirty@.len() == i,
                forall|k: int| 0 <= k < i ==> (#[trigger] values@[k])@ == s[k].default,
                forall|k: int| 0 <= k < i ==> (#[trigger] dirty@[k]) == !s[k].excluded,
            decreases n - i,
        {
            let v = clone_value(schema.field_at(i).default_value());
            values.push(v);
            let excl = schema.field_at(i).is_excluded();
            dirty.push(!excl);
            i += 1;
        }
        let mut rec = Record { schema, values, dirty };
        proof {
            assert(rec@.values =~= seeded_model(s).values);
            assert(rec@.dirty =~= seeded_model(s).dirty);
            assert(rec@ =~= seeded_model(s));
        }
        let mut errors: Vec<(String, String)> = Vec::new();
        let mut unknown: Vec<String> = Vec::new();
        let m = entries.len();
        let mut j: usize = 0;
        while j < m
            invariant
                m == entries.len(),
                es == entries.deep_view(),
                s == rec.schema@,
                schema_ok(s),
                0 <= j <= m,
                rec@.values.len() == s.len(),
                rec@.dirty.len() == s.len(),
                (LoadModel {
                    rec: rec@,
                    errors: errors.deep_view(),
                    unknown: unknown.deep_view(),
                }) == load_model(s, es.take(j as int)),
            decreases m - j,
        {
            let ghost prev = LoadModel {
                rec: rec@,
                errors: errors.deep_view(),
                unknown: unknown.deep_view(),
            };
            let e = &entries[j];
            proof {
                assert(es[j as int] == (e.0@, e.1@));
            }
            match rec.schema.index_of_key(&e.0) {
                Some(idx) => {
                    proof {
                        lemma_key_index_some(s, e.0@);
                    }
                    let kind = rec.schema.field_at(idx).kind();
                    match decode_value(kind, e.1.as_str()) {
                        Ok(v) => {
                            rec.values.set(idx, v);
                            rec.dirty.set(idx, false);
                            proof {
                                assert(rec@.values =~= prev.rec.values.update(
                                    idx as int,
                                    v@,
                                ));
                                assert(rec@.dirty =~= prev.rec.dirty.update(idx as int, false));
                            }
                        },
                        Err(msg) => {
                            errors.push((e.0.clone(), msg));
                            proof {
                                assert(errors.deep_view() =~= prev.errors.push((e.0@, msg@)));
                            }
                        },
                    }
                },
                None => {
                    unknown.push(e.0.clone());
                    proof {
                        assert(unknown.deep_view() =~= prev.unknown.push(e.0@));
                    }
                },
            }
            proof {
                assert(es.take(j as int + 1).drop_last() =~= es.take(j as int));
                assert(es.take(j as int + 1).last() == es[j as int]);
                assert((LoadModel {
                    rec: rec@,
                    errors: errors.deep_view(),
                    unknown: unknown.deep_view(),
                }) =~= load_step(prev, s, es[j as int]));
            }
            j += 1;
        }
        proof {
            assert(es.take(m as int) =~= es);
            lemma_load_model_wf(s, es);
        }
        LoadResult { value: rec, deserialization_errors: errors, unknown_fields: unknown }
    }
}

/// A load of a well-formed schema yields a well-formed record, whatever the
/// entries hold.
pub proof fn lemma_load_model_wf(s: Seq<FieldModel>, entries: Seq<(Seq<char>, Seq<char>)>)
    requires
        schema_ok(s),
    ensures
        record_ok(load_model(s, entries).rec),
        load_model(s, entries).rec.fields == s,
    decreases entries.len(),
{
    if entries.len() == 0 {
        assert(record_ok(seeded_model(s))) by {
            assert forall|i: int| 0 <= i < s.len() implies fits(
                s[i].kind,
                #[trigger] seeded_model(s).values[i],
            ) by {
                assert(crate::schema::field_ok(s[i]));
            }
        }
    } else {
        lemma_load_model_wf(s, entries.drop_last());
        let prev = load_model(s, entries.drop_last());
        let e = entries.last();
        match key_index(s, e.0) {
            Some(i) => {
                lemma_key_index_some(s, e.0);
                match spec_decode(s[i].kind, e.1) {
                    Ok(v) => {
                        crate::codec::lemma_spec_decode_fits(s[i].kind, e.1);
                    },
                    Err(_) => {},
                }
            },
            None => {},
        }
    }
}

} // verus!
