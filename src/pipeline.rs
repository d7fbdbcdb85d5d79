use vstd::prelude::*;

use crate::blacklist::{BlacklistModel, ButterflyBlacklist, all_collisions, butterfly_added, empty_blacklist};
use crate::classify::{
    TaxonCategory, category_of, classify_taxon, repair_classification, repaired_classification,
    synonym_entry, synonym_of,
};
use crate::json_types::{ClassificationModel, ScientificClassification, SpeciesData, SpeciesModel, SynonymModel};
use crate::string_set::StringSet;
use crate::synonyms::{SynonymResolver, optional_synonyms, retain_targets, synonyms_of};
use crate::tsv_parsing::{EnrichmentModel, TSVMaps, TablesModel, enrichment_of};
use crate::tsv_structs::TaxonTSVRaw;

verus! {

/// The state of the taxon pass: moths so far (without synonyms), recorded
/// synonyms, the butterfly blacklist, and the count of bad entries.
pub struct MothPipeline {
    moth_entries: Vec<SpeciesData>,
    synonyms: SynonymResolver,
    butterfly_data: ButterflyBlacklist,
    bad_entry_count: usize,
}

pub struct PipelineModel {
    pub moths: Seq<SpeciesModel>,
    pub synonyms: Seq<(Seq<char>, SynonymModel)>,
    pub blacklist: BlacklistModel,
    pub bad: nat,
}

impl View for MothPipeline {
    type V = PipelineModel;

    closed spec fn view(&self) -> PipelineModel {
        PipelineModel {
            moths: self.moth_entries@.map_values(|e: SpeciesData| e@),
            synonyms: self.synonyms@,
            blacklist: self.butterfly_data@,
            bad: self.bad_entry_count as nat,
        }
    }
}

pub open spec fn initial_model() -> PipelineModel {
    PipelineModel {
        moths: Seq::empty(),
        synonyms: Seq::empty(),
        blacklist: empty_blacklist(),
        bad: 0,
    }
}

/// The entry of a moth, as the taxon pass makes it: no synonyms yet.
pub open spec fn moth_model(id: Seq<char>, c: ClassificationModel, e: EnrichmentModel) -> SpeciesModel {
    SpeciesModel {
        id,
        classification: c,
        common_names: e.common_names,
        species_profile: e.species_profile,
        distribution: e.distribution,
        synonyms: None,
    }
}

/// One row of the taxon pass; `None` stands for a row that could not be read.
pub open spec fn step(s: PipelineModel, row: Option<TaxonTSVRaw>, m: TablesModel) -> PipelineModel {
    match row {
        None => PipelineModel { bad: s.bad + 1, ..s },
        Some(row) => match category_of(row) {
            TaxonCategory::Synonym => match synonym_of(row) {
                Some(syn) => PipelineModel {
                    synonyms: s.synonyms.push((row.dwc_accepted_name_usage_id@, syn)),
                    ..s
                },
                None => s,
            },
            TaxonCategory::SpeciesButterfly => PipelineModel {
                blacklist: butterfly_added(s.blacklist, row),
                ..s
            },
            TaxonCategory::SpeciesMoth => match repaired_classification(row) {
                Some(c) => PipelineModel {
                    moths: s.moths.push(moth_model(row.dwc_taxon_id@, c, enrichment_of(m, row.dwc_taxon_id@))),
                    ..s
                },
                None => PipelineModel { bad: s.bad + 1, ..s },
            },
            _ => s,
        },
    }
}

/// The taxon pass over the rows in order.
pub open spec fn run(rows: Seq<Option<TaxonTSVRaw>>, m: TablesModel) -> PipelineModel
    decreases rows.len(),
{
    if rows.len() == 0 {
        initial_model()
    } else {
        step(run(rows.drop_last(), m), rows.last(), m)
    }
}

/// The taxon ids of the moths.
pub open spec fn moth_ids(moths: Seq<SpeciesModel>) -> Set<Seq<char>> {
    Set::new(|k: Seq<char>| exists|i: int| 0 <= i < moths.len() && moths[i].id == k)
}

pub open spec fn classifications(moths: Seq<SpeciesModel>) -> Seq<ClassificationModel> {
    moths.map_values(|m: SpeciesModel| m.classification)
}

/// A moth with the synonyms that resolve to it attached.
pub open spec fn with_synonyms(m: SpeciesModel, retained: Seq<(Seq<char>, SynonymModel)>) -> SpeciesModel {
    SpeciesModel { synonyms: optional_synonyms(synonyms_of(retained, m.id)), ..m }
}

/// The three artifacts of a run and its counters.
pub struct MothDataset {
    pub moths: Vec<SpeciesData>,
    pub blacklist: ButterflyBlacklist,
    pub collisions: ButterflyBlacklist,
    pub moth_count: usize,
    pub synonym_count: usize,
    pub bad_entry_count: usize,
}

pub struct DatasetModel {
    pub moths: Seq<SpeciesModel>,
    pub blacklist: BlacklistModel,
    pub collisions: BlacklistModel,
    pub moth_count: nat,
    pub synonym_count: nat,
    pub bad: nat,
}

impl View for MothDataset {
    type V = DatasetModel;

    open spec fn view(&self) -> DatasetModel {
        DatasetModel {
            moths: self.moths@.map_values(|e: SpeciesData| e@),
            blacklist: self.blacklist@,
            collisions: self.collisions@,
            moth_count: self.moth_count as nat,
            synonym_count: self.synonym_count as nat,
            bad: self.bad_entry_count as nat,
        }
    }
}

/// After the taxon pass: synonyms pruned to the moths, attached to them, and
/// the blacklist cleared of every fragment that also names a moth.
pub open spec fn finish_model(s: PipelineModel) -> DatasetModel {
    let retained = retain_targets(s.synonyms, moth_ids(s.moths));
    let resolved = all_collisions(s.blacklist, empty_blacklist(), classifications(s.moths));
    DatasetModel {
        moths: s.moths.map_values(|m: SpeciesModel| with_synonyms(m, retained)),
        blacklist: resolved.0,
        collisions: resolved.1,
        moth_count: s.moths.len(),
        synonym_count: retained.len(),
        bad: s.bad,
    }
}

/// The dataset that the taxon rows and the auxiliary tables give.
pub open spec fn dataset_of(rows: Seq<Option<TaxonTSVRaw>>, m: TablesModel) -> DatasetModel {
    finish_model(run(rows, m))
}

impl MothPipeline {
    pub closed spec fn wf(&self) -> bool {
        self.butterfly_data.wf() && self.synonyms.wf()
    }

    pub fn new() -> (r: MothPipeline)
        ensures
            r.wf(),
            r@ == initial_model(),
    {
        let r = MothPipeline {
            moth_entries: Vec::new(),
            synonyms: SynonymResolver::new(),
            butterfly_data: ButterflyBlacklist::new(),
            bad_entry_count: 0,
        };
        assert(r@.moths =~= Seq::<SpeciesModel>::empty());
        r
    }

    pub fn bad_entry_count(&self) -> (r: usize)
        ensures
            r == self@.bad,
    {
        self.bad_entry_count
    }

    /// Counts a row that could not be read.
    pub fn add_malformed_row(&mut self)
        requires
            old(self).wf(),
            old(self)@.bad < usize::MAX,
        ensures
            final(self).wf(),
            final(self)@ == (PipelineModel { bad: old(self)@.bad + 1, ..old(self)@ }),
    {
        self.bad_entry_count = self.bad_entry_count + 1;
    }

    /// Classifies one taxon row and files it: a synonym with the resolver, a
    /// butterfly with the blacklist, a moth (repaired and joined with the
    /// auxiliary tables) with the moths; a moth that cannot be repaired is
    /// counted as a bad entry.
    pub fn add_taxon_row(&mut self, row: &TaxonTSVRaw, maps: &TSVMaps)
        requires
            old(self).wf(),
            maps.wf(),
            old(self)@.bad < usize::MAX,
        ensures
            final(self).wf(),
            final(self)@ == step(old(self)@, Some(*row), maps@),
    {
        let ghost s = self@;
        match classify_taxon(row) {
            TaxonCategory::Synonym => {
                if let Some(syn) = synonym_entry(row) {
                    self.synonyms.record(row.dwc_accepted_name_usage_id.clone(), syn);
                }
                assert(self@.moths =~= s.moths);
            },
            TaxonCategory::SpeciesButterfly => {
                self.butterfly_data.add_butterfly_row(row);
                assert(self@.moths =~= s.moths);
            },
            TaxonCategory::SpeciesMoth => {
                match repair_classification(row) {
                    Some(classification) => {
                        let e = maps.join(&row.dwc_taxon_id);
                        let entry = SpeciesData {
                            catalogue_of_life_taxon_id: row.dwc_taxon_id.clone(),
                            classification,
                            common_names: e.common_names,
                            species_profile: e.species_profile,
                            distribution: e.distribution,
                            synonyms: None,
                        };
                        self.moth_entries.push(entry);
                        assert(self@.moths =~= s.moths.push(entry@));
                    },
                    None => {
                        self.bad_entry_count = self.bad_entry_count + 1;
                        assert(self@.moths =~= s.moths);
                    },
                }
            },
            _ => {},
        }
    }
}

fn placeholder_entry() -> SpeciesData {
    SpeciesData {
        catalogue_of_life_taxon_id: String::new(),
        classification: ScientificClassification {
            superfamily: None,
            family: None,
            subfamily: None,
            tribe: None,
            subtribe: None,
            genus: String::new(),
            epithet: String::new(),
        },
        common_names: None,
        species_profile: None,
        distribution: None,
        synonyms: None,
    }
}

impl MothPipeline {
    /// The set of taxon ids of the moths found so far.
    fn moth_id_set(&self) -> (r: StringSet)
        ensures
            r.wf(),
            r@ == moth_ids(self@.moths),
    {
        let mut ids = StringSet::new();
        let mut i: usize = 0;
        while i < self.moth_entries.len()
            invariant
                i <= self.moth_entries@.len(),
                ids.wf(),
                ids@ == moth_ids(self@.moths.take(i as int)),
            decreases self.moth_entries@.len() - i,
        {
            let ghost before = ids@;
            ids.insert(self.moth_entries[i].catalogue_of_life_taxon_id.clone());
            assert(ids@ =~= moth_ids(self@.moths.take(i + 1))) by {
                let next = self@.moths.take(i + 1);
                assert(next[i as int] == self.moth_entries@[i as int]@);
                assert forall|k: Seq<char>| #[trigger] moth_ids(next).contains(k) implies ids@.contains(k) by {
                    let j = choose|j: int| 0 <= j < next.len() && next[j].id == k;
                    if j < i {
                        assert(self@.moths.take(i as int)[j] == next[j]);
                    }
                }
                assert forall|k: Seq<char>| ids@.contains(k) implies #[trigger] moth_ids(next).contains(k) by {
                    if before.contains(k) {
                        let j = choose|j: int| 0 <= j < i && self@.moths.take(i as int)[j].id == k;
                        assert(next[j] == self@.moths.take(i as int)[j]);
                    }
                }
            }
            i = i + 1;
        }
        assert(self@.moths.take(self@.moths.len() as int) =~= self@.moths);
        ids
    }

    /// Ends the run: prunes the synonyms to the moths found, then, moth by moth
    /// in order, moves colliding fragments out of the blacklist and attaches
    /// the moth's synonyms.
    pub fn finish(self) -> (r: MothDataset)
        requires
            self.wf(),
        ensures
            r.blacklist.wf(),
            r.collisions.wf(),
            r@ == finish_model(self@),
    {
        let ghost s = self@;
        let ids = self.moth_id_set();
        let mut synonyms = self.synonyms;
        synonyms.prune(&ids);
        let ghost retained = synonyms@;
        let mut moths = self.moth_entries;
        let mut blacklist = self.butterfly_data;
        let mut collisions = ButterflyBlacklist::new();
        let ghost classes = classifications(s.moths);
        let mut i: usize = 0;
        while i < moths.len()
            invariant
                i <= moths@.len(),
                moths@.len() == s.moths.len(),
                blacklist.wf(),
                collisions.wf(),
                synonyms.wf(),
                synonyms@ == retained,
                classes == classifications(s.moths),
                (blacklist@, collisions@) == all_collisions(s.blacklist, empty_blacklist(), classes.take(i as int)),
                forall|j: int| 0 <= j < i ==> #[trigger] moths@[j]@ == with_synonyms(s.moths[j], retained),
                forall|j: int| i <= j < moths@.len() ==> #[trigger] moths@[j]@ == s.moths[j],
            decreases moths@.len() - i,
        {
            assert(classes.take(i + 1).drop_last() =~= classes.take(i as int));
            assert(classes[i as int] == moths@[i as int]@.classification);
            blacklist.resolve_moth_collisions(&mut collisions, &moths[i].classification);
            let found = synonyms.synonyms_for(&moths[i].catalogue_of_life_taxon_id);
            let mut entry = placeholder_entry();
            moths.set_and_swap(i, &mut entry);
            entry.synonyms = found;
            moths.set_and_swap(i, &mut entry);
            i = i + 1;
        }
        assert(classes.take(classes.len() as int) =~= classes);
        let moth_count = moths.len();
        let synonym_count = synonyms.len();
        let r = MothDataset {
            moths,
            blacklist,
            collisions,
            moth_count,
            synonym_count,
            bad_entry_count: self.bad_entry_count,
        };
        assert(r@.moths =~= finish_model(s).moths);
        r
    }
}

/// Runs the whole pipeline over the taxon rows in order; `None` stands for a
/// row that could not be read.
pub fn build_moth_dataset(rows: &Vec<Option<TaxonTSVRaw>>, maps: &TSVMaps) -> (r: MothDataset)
    requires
        maps.wf(),
    ensures
        r.blacklist.wf(),
        r.collisions.wf(),
        r@ == dataset_of(rows@, maps@),
{
    let mut p = MothPipeline::new();
    let mut i: usize = 0;
    while i < rows.len()
        invariant
            i <= rows@.len(),
            p.wf(),
            maps.wf(),
            p@ == run(rows@.take(i as int), maps@),
            p@.bad <= i,
        decreases rows@.len() - i,
    {
        assert(rows@.take(i + 1).drop_last() =~= rows@.take(i as int));
        match &rows[i] {
            Some(row) => p.add_taxon_row(row, maps),
            None => p.add_malformed_row(),
        }
        i = i + 1;
    }
    assert(rows@.take(rows@.len() as int) =~= rows@);
    p.finish()
}

} // verus!
