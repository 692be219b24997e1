use vstd::prelude::*;

use crate::model::{
    Patch, PatchView, Record, RecordView, VariantTask, VariantView, COMMIT_QUEUE_ALIAS,
};

verus! {

/// Tasks joined by the separator `|`, in their order.
pub open spec fn joined(tasks: Seq<Seq<char>>) -> Seq<char>
    decreases tasks.len(),
{
    if tasks.len() == 0 {
        Seq::empty()
    } else if tasks.len() == 1 {
        tasks[0]
    } else {
        joined(tasks.drop_last()) + seq!['|'] + tasks.last()
    }
}

/// Whether a patch was submitted by the merge queue and is left out.
pub open spec fn is_excluded(p: PatchView) -> bool {
    p.alias == Some(COMMIT_QUEUE_ALIAS@)
}

/// The alias of a patch as it appears in a record: empty where it has none.
pub open spec fn alias_text(p: PatchView) -> Seq<char> {
    match p.alias {
        Some(a) => a,
        None => Seq::empty(),
    }
}

/// The record for one build variant of a patch.
pub open spec fn record_of(p: PatchView, v: VariantView) -> RecordView {
    RecordView {
        id: p.id,
        author: p.author,
        alias: alias_text(p),
        build_variant: v.name,
        tasks: joined(v.tasks),
        n_tasks: v.tasks.len(),
    }
}

/// Records for the present entries of `vs`, in order.
pub open spec fn variant_records(p: PatchView, vs: Seq<Option<VariantView>>) -> Seq<RecordView>
    decreases vs.len(),
{
    if vs.len() == 0 {
        Seq::empty()
    } else {
        variant_records(p, vs.drop_last()) + match vs.last() {
            Some(v) => seq![record_of(p, v)],
            None => Seq::empty(),
        }
    }
}

/// Records contributed by one resolved patch.
pub open spec fn patch_records(p: PatchView) -> Seq<RecordView> {
    if is_excluded(p) {
        Seq::empty()
    } else {
        variant_records(p, p.variants)
    }
}

/// Records contributed by one lookup outcome: none for a failed lookup.
pub open spec fn outcome_records(r: Result<Patch, String>) -> Seq<RecordView> {
    match r {
        Ok(p) => patch_records(p@),
        Err(_) => Seq::empty(),
    }
}

/// Records contributed by a batch of lookup outcomes, in order.
pub open spec fn batch_records(rs: Seq<Result<Patch, String>>) -> Seq<RecordView>
    decreases rs.len(),
{
    if rs.len() == 0 {
        Seq::empty()
    } else {
        batch_records(rs.drop_last()) + outcome_records(rs.last())
    }
}

/// The views of a sequence of records.
pub open spec fn record_views(rs: Seq<Record>) -> Seq<RecordView> {
    rs.map_values(|r: Record| r@)
}

/// Joins task names with `|`.
pub fn join_tasks(tasks: &Vec<String>) -> (r: String)
    ensures
        r@ == joined(tasks@.map_values(|t: String| t@)),
{
    let ghost ts = tasks@.map_values(|t: String| t@);
    let mut out = String::new();
    let mut i: usize = 0;
    while i < tasks.len()
        invariant
            i <= tasks.len(),
            ts == tasks@.map_values(|t: String| t@),
            out@ == joined(ts.take(i as int)),
        decreases tasks.len() - i,
    {
        proof {
            reveal_strlit("|");
        }
        if i > 0 {
            out.append("|");
        }
        out.append(tasks[i].as_str());
        proof {
            assert(ts.take(i + 1).drop_last() == ts.take(i as int));
            if i == 0 {
                assert(out@ == ts.take(1)[0]);
            }
        }
        i = i + 1;
    }
    assert(ts.take(tasks.len() as int) == ts);
    out
}

/// Whether a patch carries the merge-queue alias.
pub fn excluded(patch: &Patch) -> (r: bool)
    ensures
        r == is_excluded(patch@),
{
    match &patch.alias {
        Some(a) => {
            let marker = String::from_str(COMMIT_QUEUE_ALIAS);
            *a == marker
        },
        None => false,
    }
}

/// The record for one build variant of `patch`.
pub fn make_record(patch: &Patch, vt: &VariantTask) -> (r: Record)
    ensures
        r@ == record_of(patch@, vt@),
{
    let alias = match &patch.alias {
        Some(a) => a.clone(),
        None => String::new(),
    };
    Record {
        id: patch.id.clone(),
        author: patch.author.clone(),
        alias,
        build_variant: vt.name.clone(),
        tasks: join_tasks(&vt.tasks),
        n_tasks: vt.tasks.len(),
    }
}

/// Appends to `records` the records of one resolved patch.
pub fn append_patch_records(patch: &Patch, records: &mut Vec<Record>)
    ensures
        record_views(final(records)@) == record_views(old(records)@) + patch_records(patch@),
{
    if excluded(patch) {
        assert(record_views(records@) + patch_records(patch@) =~= record_views(records@));
        return;
    }
    let ghost p = patch@;
    let ghost start = record_views(records@);
    let mut j: usize = 0;
    while j < patch.variants_tasks.len()
        invariant
            j <= patch.variants_tasks.len(),
            p == patch@,
            !is_excluded(p),
            record_views(records@) == start + variant_records(p, p.variants.take(j as int)),
        decreases patch.variants_tasks.len() - j,
    {
        let ghost before = records@;
        match &patch.variants_tasks[j] {
            Some(vt) => {
                let rec = make_record(patch, vt);
                records.push(rec);
                assert(record_views(records@) =~= record_views(before).push(rec@));
            },
            None => {},
        }
        assert(p.variants.take(j + 1).drop_last() =~= p.variants.take(j as int));
        j = j + 1;
    }
    assert(p.variants.take(j as int) =~= p.variants);
}

/// Flattens a batch of lookup outcomes into records: one per present build
/// variant of each resolved patch that is not a merge-queue patch, in order.
/// Failed lookups contribute nothing.
pub fn process_patches(patches: &[Result<Patch, String>]) -> (r: Vec<Record>)
    ensures
        record_views(r@) == batch_records(patches@),
{
    let mut records: Vec<Record> = Vec::new();
    let mut i: usize = 0;
    assert(record_views(records@) =~= Seq::empty());
    while i < patches.len()
        invariant
            i <= patches.len(),
            record_views(records@) == batch_records(patches@.take(i as int)),
        decreases patches.len() - i,
    {
        match &patches[i] {
            Ok(patch) => {
                append_patch_records(patch, &mut records);
            },
            Err(_) => {},
        }
        assert(patches@.take(i + 1).drop_last() =~= patches@.take(i as int));
        i = i + 1;
    }
    assert(patches@.take(i as int) =~= patches@);
    records
}

/// The number of present entries among `vs`.
pub open spec fn present_count(vs: Seq<Option<VariantView>>) -> nat
    decreases vs.len(),
{
    if vs.len() == 0 {
        0
    } else {
        present_count(vs.drop_last()) + if vs.last() is Some {
            1nat
        } else {
            0nat
        }
    }
}

/// A merge-queue patch yields no records, whatever its variants.
pub proof fn lemma_excluded_yields_nothing(p: PatchView)
    requires
        is_excluded(p),
    ensures
        patch_records(p).len() == 0,
{
}

proof fn lemma_variant_records_count(p: PatchView, vs: Seq<Option<VariantView>>)
    ensures
        variant_records(p, vs).len() == present_count(vs),
    decreases vs.len(),
{
    if vs.len() > 0 {
        lemma_variant_records_count(p, vs.drop_last());
    }
}

proof fn lemma_present_count_all(vs: Seq<Option<VariantView>>)
    requires
        forall|k: int| 0 <= k < vs.len() ==> #[trigger] vs[k] is Some,
    ensures
        present_count(vs) == vs.len(),
    decreases vs.len(),
{
    if vs.len() > 0 {
        let init = vs.drop_last();
        assert forall|k: int| 0 <= k < init.len() implies #[trigger] init[k] is Some by {
            assert(init[k] == vs[k]);
        }
        lemma_present_count_all(init);
    }
}

/// A patch that is not a merge-queue patch yields one record per present
/// build variant; one per build variant where all are present.
pub proof fn lemma_record_count(p: PatchView)
    requires
        !is_excluded(p),
    ensures
        patch_records(p).len() == present_count(p.variants),
        (forall|k: int| 0 <= k < p.variants.len() ==> #[trigger] p.variants[k] is Some)
            ==> patch_records(p).len() == p.variants.len(),
{
    lemma_variant_records_count(p, p.variants);
    if forall|k: int| 0 <= k < p.variants.len() ==> #[trigger] p.variants[k] is Some {
        lemma_present_count_all(p.variants);
    }
}

/// The records of two batches side by side are those of each, in order.
pub proof fn lemma_batch_records_concat(a: Seq<Result<Patch, String>>, b: Seq<Result<Patch, String>>)
    ensures
        batch_records(a + b) == batch_records(a) + batch_records(b),
    decreases b.len(),
{
    if b.len() == 0 {
        assert(a + b =~= a);
        assert(batch_records(a) + batch_records(b) =~= batch_records(a));
    } else {
        lemma_batch_records_concat(a, b.drop_last());
        assert((a + b).drop_last() =~= a + b.drop_last());
        assert((a + b).last() == b.last());
        assert(batch_records(a + b) =~= batch_records(a) + batch_records(b));
    }
}

/// A failed lookup leaves the records of the rest of its batch as they
/// would be without it.
pub proof fn lemma_failure_isolated(rs: Seq<Result<Patch, String>>, i: int)
    requires
        0 <= i < rs.len(),
        rs[i] is Err,
    ensures
        batch_records(rs) == batch_records(rs.take(i)) + batch_records(rs.skip(i + 1)),
        batch_records(rs) == batch_records(rs.remove(i)),
{
    let before = rs.take(i);
    let after = rs.skip(i + 1);
    let failed = seq![rs[i]];
    assert(rs =~= before + failed + after);
    assert(rs.remove(i) =~= before + after);
    lemma_batch_records_concat(before + failed, after);
    lemma_batch_records_concat(before, failed);
    lemma_batch_records_concat(before, after);
    assert(failed.drop_last() =~= Seq::<Result<Patch, String>>::empty());
    assert(failed.last() is Err);
    assert(outcome_records(failed.last()) =~= Seq::<RecordView>::empty());
    assert(batch_records(failed.drop_last()) =~= Seq::<RecordView>::empty());
    assert(batch_records(failed) =~= Seq::<RecordView>::empty());
    assert(batch_records(before) + batch_records(failed) =~= batch_records(before));
}

/// Transforming the same batch twice gives the same records: the result
/// depends on the batch alone.
pub proof fn lemma_transform_repeatable(
    batch: Seq<Result<Patch, String>>,
    first: Seq<Record>,
    second: Seq<Record>,
)
    requires
        record_views(first) == batch_records(batch),
        record_views(second) == batch_records(batch),
    ensures
        record_views(first) == record_views(second),
{
}

} // verus!
