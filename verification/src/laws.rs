//! The laws of the record runtime, each proved from the contracts in
//! `record` and `codec` alone.

use crate::codec::spec_decode;
use crate::record::{
    ack_model, change_good, changes_model, changes_prefix, default_model, dirty_keys,
    dirty_keys_list, dirty_keys_prefix, load_model, record_ok, set_model, RecordModel,
};
use crate::schema::{key_index, lemma_key_index_some, schema_ok, FieldModel};
use crate::value::ValueModel;
use vstd::prelude::*;

verus! {

/// Default construction is pure: its outcome is a function of the schema
/// alone — any two records that `Record::new` may return for one schema are
/// the same model — and its dirty set is empty.
pub proof fn lemma_default_pure(s: Seq<FieldModel>, r1: RecordModel, r2: RecordModel)
    requires
        r1 == default_model(s),
        r2 == default_model(s),
    ensures
        r1 == r2,
        dirty_keys(r1) =~= Set::<Seq<char>>::empty(),
{
}

/// Setting a field marks its external key dirty, whatever value the field
/// held before and whether or not the new value equals it.
pub proof fn lemma_set_marks_dirty(r: RecordModel, i: int, v: ValueModel)
    requires
        0 <= i < r.fields.len(),
        r.dirty.len() == r.fields.len(),
    ensures
        set_model(r, i, v).dirty[i],
        dirty_keys(set_model(r, i, v)).contains(r.fields[i].key),
        dirty_keys_list(set_model(r, i, v)).contains(r.fields[i].key),
{
    let m = set_model(r, i, v);
    assert(0 <= i < m.fields.len() && m.fields[i].key == r.fields[i].key && m.dirty[i]);
    lemma_dirty_list_matches_set(m);
    assert(dirty_keys(m).contains(r.fields[i].key));
}

/// Acknowledging a save twice is acknowledging it once, and acknowledging a
/// record whose dirty set is already empty changes nothing.
pub proof fn lemma_acknowledge_idempotent(r: RecordModel)
    requires
        r.dirty.len() == r.fields.len(),
    ensures
        ack_model(ack_model(r)) == ack_model(r),
        dirty_keys(ack_model(r)) =~= Set::<Seq<char>>::empty(),
        (forall|i: int| 0 <= i < r.dirty.len() ==> !(#[trigger] r.dirty[i])) ==> ack_model(r) == r,
{
    assert(ack_model(ack_model(r)).dirty =~= ack_model(r).dirty);
    assert(ack_model(ack_model(r)) =~= ack_model(r));
    if forall|i: int| 0 <= i < r.dirty.len() ==> !(#[trigger] r.dirty[i]) {
        assert(ack_model(r).dirty =~= r.dirty);
        assert(ack_model(r) =~= r);
    }
}

/// The listed dirty keys and the dirty set agree: a key is in the list
/// exactly when some dirty field carries it.
pub proof fn lemma_dirty_list_matches_set(r: RecordModel)
    requires
        r.dirty.len() == r.fields.len(),
    ensures
        dirty_keys_list(r).to_set() =~= dirty_keys(r),
{
    let n = r.fields.len() as int;
    assert forall|k: Seq<char>|
        dirty_keys_list(r).to_set().contains(k) == dirty_keys(r).contains(k) by {
        lemma_dirty_prefix_contains(r, n, k);
    }
}

proof fn lemma_dirty_prefix_contains(r: RecordModel, n: int, k: Seq<char>)
    requires
        n <= r.fields.len(),
        r.dirty.len() == r.fields.len(),
    ensures
        dirty_keys_prefix(r, n).contains(k) <==> exists|i: int|
            0 <= i < n && (#[trigger] r.fields[i]).key == k && r.dirty[i],
    decreases n,
{
    if n > 0 {
        lemma_dirty_prefix_contains(r, n - 1, k);
        let pre = dirty_keys_prefix(r, n - 1);
        let cur = dirty_keys_prefix(r, n);
        if r.dirty[n - 1] {
            assert(cur == pre.push(r.fields[n - 1].key));
            if pre.contains(k) {
                let j = choose|j: int| 0 <= j < pre.len() && pre[j] == k;
                assert(cur[j] == k);
            }
            if k == r.fields[n - 1].key {
                assert(cur[cur.len() - 1] == k);
            }
            if cur.contains(k) && k != r.fields[n - 1].key {
                let j = choose|j: int| 0 <= j < cur.len() && cur[j] == k;
                assert(pre[j] == k);
            }
        }
    }
}

/// The export and the dirty list agree, entry by entry: the export holds one
/// pair per listed dirty key, in the same order, so no dirty field is
/// skipped or exported twice.
pub proof fn lemma_changes_match_dirty_list(r: RecordModel)
    ensures
        changes_model(r).len() == dirty_keys_list(r).len(),
        forall|j: int|
            0 <= j < changes_model(r).len() ==> (#[trigger] changes_model(r)[j]).0
                == dirty_keys_list(r)[j],
{
    lemma_changes_prefix_keys(r, r.fields.len() as int);
}

proof fn lemma_changes_prefix_keys(r: RecordModel, n: int)
    ensures
        changes_prefix(r, n).len() == dirty_keys_prefix(r, n).len(),
        forall|j: int|
            0 <= j < changes_prefix(r, n).len() ==> (#[trigger] changes_prefix(r, n)[j]).0
                == dirty_keys_prefix(r, n)[j],
    decreases n,
{
    if n > 0 {
        lemma_changes_prefix_keys(r, n - 1);
    }
}

/// Round trip: loading a record's own exported changes restores the
/// record's value for every field that appears in the export.
/// `Record::get_changes` guarantees `change_good` of every exported pair;
/// this law lifts that guarantee through a whole `Record::from_map` run,
/// whichever order the pairs reach it in and however often a key repeats.
pub proof fn lemma_round_trip(r: RecordModel, changes: Seq<(Seq<char>, Seq<char>)>)
    requires
        record_ok(r),
        forall|j: int| 0 <= j < changes.len() ==> change_good(r, #[trigger] changes[j]),
    ensures
        forall|j: int|
            0 <= j < changes.len() ==> {
                let i = key_index(r.fields, (#[trigger] changes[j]).0)->Some_0;
                load_model(r.fields, changes).rec.values[i] == r.values[i]
            },
    decreases changes.len(),
{
    crate::record::lemma_load_model_wf(r.fields, changes);
    if changes.len() > 0 {
        let pre = changes.drop_last();
        let e = changes.last();
        assert forall|j: int| 0 <= j < pre.len() implies change_good(r, #[trigger] pre[j]) by {
            assert(pre[j] == changes[j]);
        }
        lemma_round_trip(r, pre);
        crate::record::lemma_load_model_wf(r.fields, pre);
        let prev = load_model(r.fields, pre);
        assert(change_good(r, e));
        let i = key_index(r.fields, e.0)->Some_0;
        lemma_key_index_some(r.fields, e.0);
        assert(spec_decode(r.fields[i].kind, e.1)->Ok_0 == r.values[i]);
        assert(load_model(r.fields, changes).rec.values == prev.rec.values.update(
            i,
            r.values[i],
        ));
        assert forall|j: int| 0 <= j < changes.len() implies {
            let m = key_index(r.fields, (#[trigger] changes[j]).0)->Some_0;
            load_model(r.fields, changes).rec.values[m] == r.values[m]
        } by {
            let m = key_index(r.fields, changes[j].0)->Some_0;
            lemma_key_index_some(r.fields, changes[j].0);
            if j < pre.len() {
                assert(pre[j] == changes[j]);
                assert(prev.rec.values[m] == r.values[m]);
                if m == i {
                    assert(load_model(r.fields, changes).rec.values[m] == r.values[m]);
                }
            }
        }
    }
}

/// A map entry whose key names a field but whose text the codec rejects.
pub open spec fn entry_rejected(s: Seq<FieldModel>, e: (Seq<char>, Seq<char>)) -> bool {
    key_index(s, e.0) is Some && spec_decode(s[key_index(s, e.0)->Some_0].kind, e.1) is Err
}

/// What such an entry contributes to the recorded errors: its key with the
/// codec's error text.
pub open spec fn entry_error(s: Seq<FieldModel>, e: (Seq<char>, Seq<char>)) -> (
    Seq<char>,
    Seq<char>,
) {
    (e.0, spec_decode(s[key_index(s, e.0)->Some_0].kind, e.1)->Err_0)
}

/// A map entry whose key names no field.
pub open spec fn entry_unknown(s: Seq<FieldModel>, e: (Seq<char>, Seq<char>)) -> bool {
    key_index(s, e.0) is None
}

/// The rejected entries' contributions, in input order.
pub open spec fn rejected_entries(s: Seq<FieldModel>, entries: Seq<(Seq<char>, Seq<char>)>) -> Seq<
    (Seq<char>, Seq<char>),
>
    decreases entries.len(),
{
    if entries.len() == 0 {
        Seq::empty()
    } else {
        let rest = rejected_entries(s, entries.drop_last());
        if entry_rejected(s, entries.last()) {
            rest.push(entry_error(s, entries.last()))
        } else {
            rest
        }
    }
}

/// The unknown entries' keys, verbatim and in input order.
pub open spec fn unknown_keys(s: Seq<FieldModel>, entries: Seq<(Seq<char>, Seq<char>)>) -> Seq<
    Seq<char>,
>
    decreases entries.len(),
{
    if entries.len() == 0 {
        Seq::empty()
    } else {
        let rest = unknown_keys(s, entries.drop_last());
        if entry_unknown(s, entries.last()) {
            rest.push(entries.last().0)
        } else {
            rest
        }
    }
}

/// The entries whose keys name a field, in input order.
pub open spec fn known_entries(s: Seq<FieldModel>, entries: Seq<(Seq<char>, Seq<char>)>) -> Seq<
    (Seq<char>, Seq<char>),
>
    decreases entries.len(),
{
    if entries.len() == 0 {
        Seq::empty()
    } else {
        let rest = known_entries(s, entries.drop_last());
        if entry_unknown(s, entries.last()) {
            rest
        } else {
            rest.push(entries.last())
        }
    }
}

/// A load's two diagnostic lists depend on the entries alone: the recorded
/// errors are exactly the known-key entries whose texts the codec rejects,
/// in input order and each with the codec's error text; the unknown keys are
/// exactly the unmatched ones, verbatim and in input order.
pub proof fn lemma_load_diagnostics(s: Seq<FieldModel>, entries: Seq<(Seq<char>, Seq<char>)>)
    ensures
        load_model(s, entries).errors == rejected_entries(s, entries),
        load_model(s, entries).unknown == unknown_keys(s, entries),
    decreases entries.len(),
{
    if entries.len() > 0 {
        lemma_load_diagnostics(s, entries.drop_last());
    }
}

/// Unknown keys change nothing: the loaded record and the recorded errors
/// are those of a load over the known-key entries alone.
pub proof fn lemma_unknown_fields_harmless(s: Seq<FieldModel>, entries: Seq<(Seq<char>, Seq<char>)>)
    ensures
        load_model(s, entries).rec == load_model(s, known_entries(s, entries)).rec,
        load_model(s, entries).errors == load_model(s, known_entries(s, entries)).errors,
    decreases entries.len(),
{
    if entries.len() > 0 {
        let pre = entries.drop_last();
        let e = entries.last();
        lemma_unknown_fields_harmless(s, pre);
        if !entry_unknown(s, e) {
            let ke = known_entries(s, entries);
            assert(ke == known_entries(s, pre).push(e));
            assert(ke.drop_last() =~= known_entries(s, pre));
            assert(ke.len() > 0 && ke.last() == e);
        }
    }
}

/// Some entry's key names field `i`.
pub open spec fn targets(s: Seq<FieldModel>, entries: Seq<(Seq<char>, Seq<char>)>, i: int) -> bool {
    exists|j: int| 0 <= j < entries.len() && key_index(s, (#[trigger] entries[j]).0) == Some(i)
}

/// A load over entries with pairwise distinct keys treats every field
/// independently: a field no entry names keeps its default and its seeded
/// dirty mark; a field whose entry decodes is loaded and clean; a field
/// whose entry is rejected keeps its default and its seeded dirty mark.
pub proof fn lemma_load_per_field(s: Seq<FieldModel>, entries: Seq<(Seq<char>, Seq<char>)>)
    requires
        schema_ok(s),
        forall|j1: int, j2: int|
            0 <= j1 < j2 < entries.len() ==> (#[trigger] entries[j1]).0 != (#[trigger] entries[j2]).0,
    ensures
        forall|i: int|
            #![trigger targets(s, entries, i)]
            0 <= i < s.len() && !targets(s, entries, i) ==> load_model(s, entries).rec.values[i]
                == s[i].default && load_model(s, entries).rec.dirty[i] == !s[i].excluded,
        forall|j: int|
            0 <= j < entries.len() && key_index(s, (#[trigger] entries[j]).0) is Some ==> {
                let i = key_index(s, entries[j].0)->Some_0;
                match spec_decode(s[i].kind, entries[j].1) {
                    Ok(v) => load_model(s, entries).rec.values[i] == v && !load_model(
                        s,
                        entries,
                    ).rec.dirty[i],
                    Err(msg) => load_model(s, entries).rec.values[i] == s[i].default && load_model(
                        s,
                        entries,
                    ).rec.dirty[i] == !s[i].excluded,
                }
            },
    decreases entries.len(),
{
    crate::record::lemma_load_model_wf(s, entries);
    if entries.len() > 0 {
        let pre = entries.drop_last();
        let e = entries.last();
        let last = entries.len() - 1;
        lemma_load_per_field(s, pre);
        crate::record::lemma_load_model_wf(s, pre);
        let prev = load_model(s, pre);
        let cur = load_model(s, entries);
        assert(cur == crate::record::load_step(prev, s, e));
        // an untargeted field stays untargeted when the last entry is set aside
        assert forall|i: int|
            0 <= i < s.len() && !targets(s, entries, i) implies cur.rec.values[i] == s[i].default
            && cur.rec.dirty[i] == !s[i].excluded by {
            assert forall|j: int|
                0 <= j < pre.len() implies key_index(s, (#[trigger] pre[j]).0) != Some(i) by {
                assert(pre[j] == entries[j]);
                assert(key_index(s, (entries[j]).0) != Some(i));
            }
            assert(!targets(s, pre, i));
            if key_index(s, e.0) is Some {
                lemma_key_index_some(s, e.0);
                assert(key_index(s, (entries[last]).0) != Some(i));
            }
        }
        assert forall|j: int|
            0 <= j < entries.len() && key_index(s, (#[trigger] entries[j]).0) is Some implies {
            let i = key_index(s, entries[j].0)->Some_0;
            match spec_decode(s[i].kind, entries[j].1) {
                Ok(v) => cur.rec.values[i] == v && !cur.rec.dirty[i],
                Err(msg) => cur.rec.values[i] == s[i].default && cur.rec.dirty[i] == !s[
                    i
                ].excluded,
            }
        } by {
            let i = key_index(s, entries[j].0)->Some_0;
            lemma_key_index_some(s, entries[j].0);
            if key_index(s, e.0) is Some {
                lemma_key_index_some(s, e.0);
            }
            if j < last {
                assert(pre[j] == entries[j]);
                assert(key_index(s, (pre[j]).0) is Some);
                assert({
                    let ii = key_index(s, pre[j].0)->Some_0;
                    match spec_decode(s[ii].kind, pre[j].1) {
                        Ok(v) => prev.rec.values[ii] == v && !prev.rec.dirty[ii],
                        Err(msg) => prev.rec.values[ii] == s[ii].default && prev.rec.dirty[ii]
                            == !s[ii].excluded,
                    }
                });
                // the last entry cannot name the same field: its key would be
                // the field's own key, hence equal to this entry's key
                if key_index(s, e.0) == Some(i) {
                    assert(e.0 == s[i].key && entries[j].0 == s[i].key);
                    assert((entries[j]).0 != (entries[last]).0);
                    assert(false);
                }
            } else {
                // the last entry itself; no earlier entry names field i
                if spec_decode(s[i].kind, e.1) is Err {
                    assert forall|m: int|
                        0 <= m < pre.len() implies key_index(s, (#[trigger] pre[m]).0) != Some(
                        i,
                    ) by {
                        assert(pre[m] == entries[m]);
                        if key_index(s, entries[m].0) == Some(i) {
                            lemma_key_index_some(s, entries[m].0);
                            assert(entries[m].0 == s[i].key && e.0 == s[i].key);
                            assert((entries[m]).0 != (entries[last]).0);
                            assert(false);
                        }
                    }
                    assert(!targets(s, pre, i));
                }
            }
        }
    }
}

/// Error isolation: when every key names a field, keys are pairwise
/// distinct, and exactly one entry's text is malformed, the load records
/// exactly one error — the malformed entry's key with the codec's text —
/// every other entry's field holds its decoded value and is clean, the
/// malformed entry's field keeps its default and stays dirty, and no key is
/// reported unknown.
pub proof fn lemma_error_isolation(
    s: Seq<FieldModel>,
    entries: Seq<(Seq<char>, Seq<char>)>,
    b: int,
)
    requires
        schema_ok(s),
        0 <= b < entries.len(),
        forall|j: int| 0 <= j < entries.len() ==> key_index(s, (#[trigger] entries[j]).0) is Some,
        forall|j1: int, j2: int|
            0 <= j1 < j2 < entries.len() ==> (#[trigger] entries[j1]).0 != (#[trigger] entries[j2]).0,
        forall|j: int|
            0 <= j < entries.len() && j != b ==> spec_decode(
                s[key_index(s, (#[trigger] entries[j]).0)->Some_0].kind,
                entries[j].1,
            ) is Ok,
        spec_decode(s[key_index(s, entries[b].0)->Some_0].kind, entries[b].1) is Err,
    ensures
        load_model(s, entries).errors =~= seq![entry_error(s, entries[b])],
        load_model(s, entries).unknown =~= Seq::<Seq<char>>::empty(),
        forall|j: int|
            0 <= j < entries.len() && j != b ==> {
                let i = key_index(s, (#[trigger] entries[j]).0)->Some_0;
                load_model(s, entries).rec.values[i] == spec_decode(
                    s[i].kind,
                    entries[j].1,
                )->Ok_0 && !load_model(s, entries).rec.dirty[i]
            },
        ({
            let i = key_index(s, entries[b].0)->Some_0;
            load_model(s, entries).rec.values[i] == s[i].default && load_model(
                s,
                entries,
            ).rec.dirty[i] == !s[i].excluded
        }),
{
    lemma_load_per_field(s, entries);
    lemma_load_diagnostics(s, entries);
    lemma_rejected_single(s, entries, b);
    lemma_unknown_none(s, entries);
}

proof fn lemma_rejected_single(s: Seq<FieldModel>, entries: Seq<(Seq<char>, Seq<char>)>, b: int)
    requires
        0 <= b < entries.len(),
        entry_rejected(s, entries[b]),
        forall|j: int|
            0 <= j < entries.len() && j != b ==> !entry_rejected(s, #[trigger] entries[j]),
    ensures
        rejected_entries(s, entries) =~= seq![entry_error(s, entries[b])],
    decreases entries.len(),
{
    let pre = entries.drop_last();
    let last = entries.len() - 1;
    if b == last {
        lemma_rejected_none(s, pre);
    } else {
        assert(!entry_rejected(s, entries[last]));
        lemma_rejected_single(s, pre, b);
    }
}

proof fn lemma_rejected_none(s: Seq<FieldModel>, entries: Seq<(Seq<char>, Seq<char>)>)
    requires
        forall|j: int| 0 <= j < entries.len() ==> !entry_rejected(s, #[trigger] entries[j]),
    ensures
        rejected_entries(s, entries) =~= Seq::<(Seq<char>, Seq<char>)>::empty(),
    decreases entries.len(),
{
    if entries.len() > 0 {
        lemma_rejected_none(s, entries.drop_last());
    }
}

proof fn lemma_unknown_none(s: Seq<FieldModel>, entries: Seq<(Seq<char>, Seq<char>)>)
    requires
        forall|j: int| 0 <= j < entries.len() ==> !entry_unknown(s, #[trigger] entries[j]),
    ensures
        unknown_keys(s, entries) =~= Seq::<Seq<char>>::empty(),
    decreases entries.len(),
{
    if entries.len() > 0 {
        lemma_unknown_none(s, entries.drop_last());
    }
}

} // verus!
