use vstd::prelude::*;

verus! {

/// Alias that marks a patch submitted by the merge queue.
pub const COMMIT_QUEUE_ALIAS: &'static str = "__commit_queue";

/// One output row: a build variant of a patch with its tasks.
pub struct Record {
    pub id: String,
    pub author: String,
    pub alias: String,
    pub build_variant: String,
    pub tasks: String,
    pub n_tasks: usize,
}

/// A build variant with the names of the tasks scheduled under it.
pub struct VariantTask {
    pub name: String,
    pub tasks: Vec<String>,
}

/// The details of one patch as returned by the lookup.
pub struct Patch {
    pub id: String,
    pub description: String,
    pub author: String,
    pub alias: Option<String>,
    pub variants_tasks: Vec<Option<VariantTask>>,
}

/// Mathematical form of a `Record`.
pub struct RecordView {
    pub id: Seq<char>,
    pub author: Seq<char>,
    pub alias: Seq<char>,
    pub build_variant: Seq<char>,
    pub tasks: Seq<char>,
    pub n_tasks: nat,
}

/// Mathematical form of a `VariantTask`.
pub struct VariantView {
    pub name: Seq<char>,
    pub tasks: Seq<Seq<char>>,
}

/// Mathematical form of a `Patch`.
pub struct PatchView {
    pub id: Seq<char>,
    pub description: Seq<char>,
    pub author: Seq<char>,
    pub alias: Option<Seq<char>>,
    pub variants: Seq<Option<VariantView>>,
}

impl View for Record {
    type V = RecordView;

    open spec fn view(&self) -> RecordView {
        RecordView {
            id: self.id@,
            author: self.author@,
            alias: self.alias@,
            build_variant: self.build_variant@,
            tasks: self.tasks@,
            n_tasks: self.n_tasks as nat,
        }
    }
}

impl View for VariantTask {
    type V = VariantView;

    open spec fn view(&self) -> VariantView {
        VariantView { name: self.name@, tasks: self.tasks@.map_values(|t: String| t@) }
    }
}

pub open spec fn variant_opt_view(v: Option<VariantTask>) -> Option<VariantView> {
    match v {
        Some(vt) => Some(vt@),
        None => None,
    }
}

pub open spec fn alias_opt_view(a: Option<String>) -> Option<Seq<char>> {
    match a {
        Some(s) => Some(s@),
        None => None,
    }
}

impl View for Patch {
    type V = PatchView;

    open spec fn view(&self) -> PatchView {
        PatchView {
            id: self.id@,
            description: self.description@,
            author: self.author@,
            alias: alias_opt_view(self.alias),
            variants: self.variants_tasks@.map_values(|v: Option<VariantTask>| variant_opt_view(v)),
        }
    }
}

} // verus!
