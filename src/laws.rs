use vstd::prelude::*;

use crate::addin_tsv_hashmaps::{
    ENGLISH, distribution_key, lemma_last_by_id_missing, names_for, profile_key,
};
use crate::blacklist::{
    BlacklistModel, CATEGORY_COUNT, all_collisions, category_field, category_set, collide_set, moth_collisions};
use crate::classify::{TaxonCategory, category_of};
use crate::json_types::{ClassificationModel, SpeciesModel, SynonymModel};
use crate::pipeline::{
    PipelineModel, classifications, dataset_of, finish_model, moth_ids, run, step, with_synonyms,
};
use crate::synonyms::{retain_targets, synonyms_of};
use crate::text::{lower_of, present};
use crate::tsv_parsing::{TablesModel, enrichment_of, tables_model};
use crate::tsv_structs::{DistributionTSVRaw, SpeciesProfileTSVRaw, TaxonTSVRaw, VernacularNameTSVRaw};

verus! {

/// A row is filed under its category and nowhere else: only a moth row adds
/// moths, only a butterfly row touches the blacklist, only a synonym row
/// records synonyms, and misapplied or irrelevant rows change nothing. Bad
/// entries are counted apart: a row that could not be read, or a moth row
/// that cannot be repaired.
pub proof fn lemma_row_filed_once(s: PipelineModel, row: TaxonTSVRaw, m: TablesModel)
    ensures
        ({
            let t = step(s, Some(row), m);
            &&& category_of(row) != TaxonCategory::SpeciesMoth ==> t.moths == s.moths && t.bad == s.bad
            &&& category_of(row) != TaxonCategory::SpeciesButterfly ==> t.blacklist == s.blacklist
            &&& category_of(row) != TaxonCategory::Synonym ==> t.synonyms == s.synonyms
            &&& (category_of(row) == TaxonCategory::Misapplied || category_of(row)
                == TaxonCategory::Irrelevant) ==> t == s
        }),
        step(s, None, m) == (PipelineModel { bad: s.bad + 1, ..s }),
{
}

/// A moth row with an empty genus but a generic name gets the generic name
/// as its genus; one with neither is dropped and counted as a bad entry.
pub proof fn lemma_genus_repair(s: PipelineModel, row: TaxonTSVRaw, m: TablesModel)
    requires
        category_of(row) == TaxonCategory::SpeciesMoth,
    ensures
        !present(row.dwc_genus@) && present(row.dwc_generic_name@) && present(
            row.dwc_specific_epithet@,
        ) ==> {
            let t = step(s, Some(row), m);
            &&& t.moths.len() == s.moths.len() + 1
            &&& t.moths.last().id == row.dwc_taxon_id@
            &&& t.moths.last().classification.genus == row.dwc_generic_name@
            &&& t.bad == s.bad
        },
        !present(row.dwc_genus@) && !present(row.dwc_generic_name@) ==> {
            let t = step(s, Some(row), m);
            &&& t.moths == s.moths
            &&& t.bad == s.bad + 1
        },
{
}

proof fn lemma_synonyms_of_source(entries: Seq<(Seq<char>, SynonymModel)>, id: Seq<char>, n: int)
    requires
        0 <= n < synonyms_of(entries, id).len(),
    ensures
        entries.contains((id, synonyms_of(entries, id)[n])),
    decreases entries.len(),
{
    let prev = synonyms_of(entries.drop_last(), id);
    if n < prev.len() {
        lemma_synonyms_of_source(entries.drop_last(), id, n);
        let i = choose|i: int| 0 <= i < entries.drop_last().len() && entries.drop_last()[i] == (id, prev[n]);
        assert(entries[i] == (id, prev[n]));
    } else {
        assert(entries[entries.len() - 1] == (id, synonyms_of(entries, id)[n]));
    }
}

proof fn lemma_synonyms_of_complete(entries: Seq<(Seq<char>, SynonymModel)>, i: int)
    requires
        0 <= i < entries.len(),
    ensures
        synonyms_of(entries, entries[i].0).contains(entries[i].1),
    decreases entries.len(),
{
    let id = entries[i].0;
    let prev = synonyms_of(entries.drop_last(), id);
    if i < entries.len() - 1 {
        lemma_synonyms_of_complete(entries.drop_last(), i);
        let n = choose|n: int| 0 <= n < prev.len() && prev[n] == entries[i].1;
        if entries.last().0 == id {
            assert(synonyms_of(entries, id)[n] == prev[n]);
        }
    } else {
        assert(synonyms_of(entries, id).last() == entries[i].1);
    }
}

proof fn lemma_retained_source(
    entries: Seq<(Seq<char>, SynonymModel)>,
    ids: Set<Seq<char>>,
    e: (Seq<char>, SynonymModel),
)
    requires
        retain_targets(entries, ids).contains(e),
    ensures
        entries.contains(e),
        ids.contains(e.0),
    decreases entries.len(),
{
    let prev = retain_targets(entries.drop_last(), ids);
    let r = retain_targets(entries, ids);
    let n = choose|n: int| 0 <= n < r.len() && r[n] == e;
    if n < prev.len() {
        assert(prev[n] == e);
        lemma_retained_source(entries.drop_last(), ids, e);
        let i = choose|i: int| 0 <= i < entries.drop_last().len() && entries.drop_last()[i] == e;
        assert(entries[i] == e);
    } else {
        assert(entries[entries.len() - 1] == e);
    }
}

proof fn lemma_retained_complete(entries: Seq<(Seq<char>, SynonymModel)>, ids: Set<Seq<char>>, i: int)
    requires
        0 <= i < entries.len(),
        ids.contains(entries[i].0),
    ensures
        exists|n: int|
            0 <= n < retain_targets(entries, ids).len() && retain_targets(entries, ids)[n]
                == entries[i],
    decreases entries.len(),
{
    let prev = retain_targets(entries.drop_last(), ids);
    if i < entries.len() - 1 {
        lemma_retained_complete(entries.drop_last(), ids, i);
        let n = choose|n: int| 0 <= n < prev.len() && prev[n] == entries.drop_last()[i];
        assert(retain_targets(entries, ids)[n] == entries[i]);
    } else {
        let r = retain_targets(entries, ids);
        assert(r[r.len() - 1] == entries[i]);
    }
}

/// Synonyms end up only on the moth they resolve to: every synonym attached
/// to a moth was recorded with that moth's taxon id as its target, so one
/// that targets a taxon that is not a moth (a butterfly, say) appears
/// nowhere; and every recorded synonym whose target is a moth is attached to it.
pub proof fn lemma_synonym_pruning(s: PipelineModel)
    ensures
        ({
            let d = finish_model(s);
            &&& forall|j: int, n: int|
                #![trigger d.moths[j].synonyms->Some_0[n]]
                0 <= j < d.moths.len() && d.moths[j].synonyms is Some && 0 <= n
                    < d.moths[j].synonyms->Some_0.len() ==> s.synonyms.contains(
                    (d.moths[j].id, d.moths[j].synonyms->Some_0[n]),
                )
            &&& forall|i: int, j: int|
                #![trigger s.synonyms[i], d.moths[j]]
                0 <= i < s.synonyms.len() && 0 <= j < d.moths.len() && s.synonyms[i].0
                    == d.moths[j].id ==> d.moths[j].synonyms is Some
                    && d.moths[j].synonyms->Some_0.contains(s.synonyms[i].1)
        }),
{
    let ids = moth_ids(s.moths);
    let retained = retain_targets(s.synonyms, ids);
    let d = finish_model(s);
    assert forall|j: int, n: int|
        #![trigger d.moths[j].synonyms->Some_0[n]]
        0 <= j < d.moths.len() && d.moths[j].synonyms is Some && 0 <= n
            < d.moths[j].synonyms->Some_0.len() implies s.synonyms.contains(
        (d.moths[j].id, d.moths[j].synonyms->Some_0[n]),
    ) by {
        let id = s.moths[j].id;
        lemma_synonyms_of_source(retained, id, n);
        lemma_retained_source(s.synonyms, ids, (id, synonyms_of(retained, id)[n]));
    }
    assert forall|i: int, j: int|
        #![trigger s.synonyms[i], d.moths[j]]
        0 <= i < s.synonyms.len() && 0 <= j < d.moths.len() && s.synonyms[i].0
            == d.moths[j].id implies d.moths[j].synonyms is Some
            && d.moths[j].synonyms->Some_0.contains(s.synonyms[i].1) by {
        assert(s.moths[j].id == s.synonyms[i].0);
        assert(ids.contains(s.synonyms[i].0));
        lemma_retained_complete(s.synonyms, ids, i);
        let n = choose|n: int| 0 <= n < retained.len() && retained[n] == s.synonyms[i];
        lemma_synonyms_of_complete(retained, n);
    }
}

proof fn lemma_category_step(bl: BlacklistModel, coll: BlacklistModel, c: ClassificationModel, k: int)
    requires
        0 <= k < CATEGORY_COUNT,
    ensures
        (category_set(moth_collisions(bl, coll, c).0, k), category_set(moth_collisions(bl, coll, c).1, k))
            == collide_set(category_set(bl, k), category_set(coll, k), category_field(c, k)),
{
}

/// A fragment of the initial blacklist either stays there or has left it for
/// the collision record, spelled as some moth spells it; the blacklist only
/// shrinks and the collision record only grows.
proof fn lemma_collision_progress(
    bl: BlacklistModel,
    coll: BlacklistModel,
    moths: Seq<ClassificationModel>,
    k: int,
    f: Seq<char>,
)
    requires
        0 <= k < CATEGORY_COUNT,
    ensures
        category_set(all_collisions(bl, coll, moths).0, k).subset_of(category_set(bl, k)),
        category_set(coll, k).subset_of(category_set(all_collisions(bl, coll, moths).1, k)),
        category_set(bl, k).contains(f) ==> category_set(all_collisions(bl, coll, moths).0, k).contains(
            f,
        ) || exists|w: Seq<char>, i: int|
            0 <= i < moths.len() && category_field(moths[i], k) == Some(w) && lower_of(w) == f
                && category_set(all_collisions(bl, coll, moths).1, k).contains(w),
    decreases moths.len(),
{
    if moths.len() > 0 {
        let prev = all_collisions(bl, coll, moths.drop_last());
        lemma_collision_progress(bl, coll, moths.drop_last(), k, f);
        lemma_category_step(prev.0, prev.1, moths.last(), k);
        let res = all_collisions(bl, coll, moths);
        if category_set(bl, k).contains(f) && !category_set(prev.0, k).contains(f) {
            let (w, i) = choose|w: Seq<char>, i: int|
                0 <= i < moths.drop_last().len() && category_field(moths.drop_last()[i], k) == Some(w)
                    && lower_of(w) == f && category_set(prev.1, k).contains(w);
            assert(moths[i] == moths.drop_last()[i]);
            assert(category_set(res.1, k).contains(w));
        }
        if category_set(prev.0, k).contains(f) && !category_set(res.0, k).contains(f) {
            let w = category_field(moths.last(), k)->Some_0;
            assert(category_field(moths[moths.len() - 1], k) == Some(w));
        }
    }
}

/// Collision resolution over the moths in order: a blacklisted fragment that
/// some moth's field lowercases to is gone from the blacklist afterwards, and
/// the collision record holds it as a moth spells it, in every category alike.
pub proof fn lemma_collision_symmetry(
    bl: BlacklistModel,
    coll: BlacklistModel,
    moths: Seq<ClassificationModel>,
    k: int,
    j: int,
    v: Seq<char>,
)
    requires
        0 <= k < CATEGORY_COUNT,
        0 <= j < moths.len(),
        category_field(moths[j], k) == Some(v),
        category_set(bl, k).contains(lower_of(v)),
    ensures
        !category_set(all_collisions(bl, coll, moths).0, k).contains(lower_of(v)),
        exists|w: Seq<char>, i: int|
            0 <= i < moths.len() && category_field(moths[i], k) == Some(w) && lower_of(w) == lower_of(
                v,
            ) && category_set(all_collisions(bl, coll, moths).1, k).contains(w),
    decreases moths.len(),
{
    let f = lower_of(v);
    let prev = all_collisions(bl, coll, moths.drop_last());
    let res = all_collisions(bl, coll, moths);
    lemma_category_step(prev.0, prev.1, moths.last(), k);
    if j < moths.len() - 1 {
        assert(moths.drop_last()[j] == moths[j]);
        lemma_collision_symmetry(bl, coll, moths.drop_last(), k, j, v);
        let (w, i) = choose|w: Seq<char>, i: int|
            0 <= i < moths.drop_last().len() && category_field(moths.drop_last()[i], k) == Some(w)
                && lower_of(w) == f && category_set(prev.1, k).contains(w);
        assert(moths[i] == moths.drop_last()[i]);
        assert(category_set(res.1, k).contains(w));
    } else {
        lemma_collision_progress(bl, coll, moths.drop_last(), k, f);
        if category_set(prev.0, k).contains(f) {
            assert(category_set(res.1, k).contains(v));
        } else {
            let (w, i) = choose|w: Seq<char>, i: int|
                0 <= i < moths.drop_last().len() && category_field(moths.drop_last()[i], k) == Some(w)
                    && lower_of(w) == f && category_set(prev.1, k).contains(w);
            assert(moths[i] == moths.drop_last()[i]);
            assert(category_set(res.1, k).contains(w));
        }
    }
}

/// The collision law on the dataset of a run: a fragment on the butterfly
/// blacklist that a moth's field lowercases to is absent from the finished
/// blacklist and present, as a moth spells it, in the collision record.
pub proof fn lemma_dataset_collision_symmetry(s: PipelineModel, k: int, j: int, v: Seq<char>)
    requires
        0 <= k < CATEGORY_COUNT,
        0 <= j < s.moths.len(),
        category_field(s.moths[j].classification, k) == Some(v),
        category_set(s.blacklist, k).contains(lower_of(v)),
    ensures
        !category_set(finish_model(s).blacklist, k).contains(lower_of(v)),
        exists|w: Seq<char>, i: int|
            0 <= i < s.moths.len() && category_field(s.moths[i].classification, k) == Some(w)
                && lower_of(w) == lower_of(v) && category_set(finish_model(s).collisions, k).contains(w),
{
    let classes = classifications(s.moths);
    assert(classes[j] == s.moths[j].classification);
    lemma_collision_symmetry(s.blacklist, crate::blacklist::empty_blacklist(), classes, k, j, v);
    let (w, i) = choose|w: Seq<char>, i: int|
        0 <= i < classes.len() && category_field(classes[i], k) == Some(w) && lower_of(w) == lower_of(v)
            && category_set(finish_model(s).collisions, k).contains(w);
    assert(classes[i] == s.moths[i].classification);
}

proof fn lemma_names_for_missing(rows: Seq<VernacularNameTSVRaw>, key: (Seq<char>, Seq<char>))
    requires
        forall|i: int| 0 <= i < rows.len() ==> rows[i].dwc_taxon_id@ != key.1,
    ensures
        names_for(rows, key).len() == 0,
    decreases rows.len(),
{
    if rows.len() > 0 {
        lemma_names_for_missing(rows.drop_last(), key);
    }
}

proof fn lemma_names_for_source(rows: Seq<VernacularNameTSVRaw>, key: (Seq<char>, Seq<char>), n: int)
    requires
        0 <= n < names_for(rows, key).len(),
    ensures
        exists|i: int|
            0 <= i < rows.len() && rows[i].dcterms_language@ == key.0 && rows[i].dwc_taxon_id@ == key.1
                && rows[i].dwc_vernacular_name@ == names_for(rows, key)[n],
    decreases rows.len(),
{
    let prev = names_for(rows.drop_last(), key);
    if n < prev.len() {
        lemma_names_for_source(rows.drop_last(), key, n);
        let i = choose|i: int|
            0 <= i < rows.drop_last().len() && rows.drop_last()[i].dcterms_language@ == key.0
                && rows.drop_last()[i].dwc_taxon_id@ == key.1
                && rows.drop_last()[i].dwc_vernacular_name@ == prev[n];
        assert(rows[i] == rows.drop_last()[i]);
    } else {
        assert(rows[rows.len() - 1] == rows.last());
    }
}

/// Every moth of the taxon pass carries the enrichment of its own taxon id.
proof fn lemma_run_enriched(rows: Seq<Option<TaxonTSVRaw>>, m: TablesModel)
    ensures
        forall|j: int|
            0 <= j < run(rows, m).moths.len() ==> {
                let e = enrichment_of(m, #[trigger] run(rows, m).moths[j].id);
                &&& run(rows, m).moths[j].common_names == e.common_names
                &&& run(rows, m).moths[j].species_profile == e.species_profile
                &&& run(rows, m).moths[j].distribution == e.distribution
            },
    decreases rows.len(),
{
    if rows.len() > 0 {
        lemma_run_enriched(rows.drop_last(), m);
        let prev = run(rows.drop_last(), m);
        let cur = run(rows, m);
        assert forall|j: int| 0 <= j < cur.moths.len() implies {
            let e = enrichment_of(m, #[trigger] cur.moths[j].id);
            &&& cur.moths[j].common_names == e.common_names
            &&& cur.moths[j].species_profile == e.species_profile
            &&& cur.moths[j].distribution == e.distribution
        } by {
            if j < prev.moths.len() {
                assert(cur.moths[j] == prev.moths[j]);
            }
        }
    }
}

/// A moth whose taxon id has no row in the vernacular, profile or
/// distribution table has no common names, no profile and no distribution:
/// the pieces are absent, not present and empty.
pub proof fn lemma_enrichment_optionality(
    rows: Seq<Option<TaxonTSVRaw>>,
    vernacular: Seq<VernacularNameTSVRaw>,
    profiles: Seq<SpeciesProfileTSVRaw>,
    distributions: Seq<DistributionTSVRaw>,
    j: int,
)
    requires
        0 <= j < dataset_of(rows, tables_model(vernacular, profiles, distributions)).moths.len(),
        forall|i: int|
            0 <= i < vernacular.len() ==> vernacular[i].dwc_taxon_id@ != dataset_of(
                rows,
                tables_model(vernacular, profiles, distributions),
            ).moths[j].id,
        forall|i: int|
            0 <= i < profiles.len() ==> profiles[i].dwc_taxon_id@ != dataset_of(
                rows,
                tables_model(vernacular, profiles, distributions),
            ).moths[j].id,
        forall|i: int|
            0 <= i < distributions.len() ==> distributions[i].dwc_taxon_id@ != dataset_of(
                rows,
                tables_model(vernacular, profiles, distributions),
            ).moths[j].id,
    ensures
        ({
            let moth = dataset_of(rows, tables_model(vernacular, profiles, distributions)).moths[j];
            &&& moth.common_names is None
            &&& moth.species_profile is None
            &&& moth.distribution is None
        }),
{
    let m = tables_model(vernacular, profiles, distributions);
    let s = run(rows, m);
    let id = dataset_of(rows, m).moths[j].id;
    assert(id == s.moths[j].id);
    lemma_run_enriched(rows, m);
    lemma_names_for_missing(vernacular, (ENGLISH@, id));
    assert forall|i: int| 0 <= i < profiles.len() implies #[trigger] profile_key()(profiles[i]) != id by {}
    assert forall|i: int| 0 <= i < distributions.len() implies #[trigger] distribution_key()(distributions[i]) != id by {}
    lemma_last_by_id_missing(profiles, profile_key(), id);
    lemma_last_by_id_missing(distributions, distribution_key(), id);
}

/// Only English vernacular rows give common names: each common name of a
/// moth is the name of a row in language "eng" for that moth's taxon id.
pub proof fn lemma_language_filter(
    rows: Seq<Option<TaxonTSVRaw>>,
    vernacular: Seq<VernacularNameTSVRaw>,
    profiles: Seq<SpeciesProfileTSVRaw>,
    distributions: Seq<DistributionTSVRaw>,
    j: int,
    n: int,
)
    requires
        0 <= j < dataset_of(rows, tables_model(vernacular, profiles, distributions)).moths.len(),
        dataset_of(rows, tables_model(vernacular, profiles, distributions)).moths[j].common_names is Some,
        0 <= n < dataset_of(
            rows,
            tables_model(vernacular, profiles, distributions),
        ).moths[j].common_names->Some_0.len(),
    ensures
        ({
            let moth = dataset_of(rows, tables_model(vernacular, profiles, distributions)).moths[j];
            exists|i: int|
                0 <= i < vernacular.len() && vernacular[i].dcterms_language@ == ENGLISH@
                    && vernacular[i].dwc_taxon_id@ == moth.id && vernacular[i].dwc_vernacular_name@
                    == moth.common_names->Some_0[n]
        }),
{
    let m = tables_model(vernacular, profiles, distributions);
    let s = run(rows, m);
    let id = dataset_of(rows, m).moths[j].id;
    assert(id == s.moths[j].id);
    lemma_run_enriched(rows, m);
    lemma_names_for_source(vernacular, (ENGLISH@, id), n);
}

/// Every moth of the taxon pass comes from a row with its taxon id, and
/// where the rows' taxon ids are distinct, so are the moths'.
proof fn lemma_run_moth_ids(rows: Seq<Option<TaxonTSVRaw>>, m: TablesModel)
    requires
        forall|i: int, j: int|
            0 <= i < j < rows.len() && rows[i] is Some && rows[j] is Some ==> rows[i]->Some_0.dwc_taxon_id@
                != rows[j]->Some_0.dwc_taxon_id@,
    ensures
        forall|j: int|
            0 <= j < run(rows, m).moths.len() ==> exists|i: int|
                0 <= i < rows.len() && rows[i] is Some && rows[i]->Some_0.dwc_taxon_id@ == (
                #[trigger] run(rows, m).moths[j]).id,
        forall|j1: int, j2: int|
            0 <= j1 < j2 < run(rows, m).moths.len() ==> (#[trigger] run(rows, m).moths[j1]).id != (
            #[trigger] run(rows, m).moths[j2]).id,
    decreases rows.len(),
{
    if rows.len() > 0 {
        let dl = rows.drop_last();
        lemma_run_moth_ids(dl, m);
        let prev = run(dl, m).moths;
        let cur = run(rows, m).moths;
        assert forall|j: int| 0 <= j < cur.len() implies exists|i: int|
            0 <= i < rows.len() && rows[i] is Some && rows[i]->Some_0.dwc_taxon_id@ == (#[trigger] cur[j]).id by {
            if j < prev.len() {
                assert(cur[j] == prev[j]);
                let i = choose|i: int| 0 <= i < dl.len() && dl[i] is Some && dl[i]->Some_0.dwc_taxon_id@ == prev[j].id;
                assert(rows[i] == dl[i]);
            } else {
                assert(rows[rows.len() - 1] == rows.last());
            }
        }
        assert forall|j1: int, j2: int| 0 <= j1 < j2 < cur.len() implies (#[trigger] cur[j1]).id != (
        #[trigger] cur[j2]).id by {
            assert(cur[j1] == prev[j1]);
            if j2 < prev.len() {
                assert(cur[j2] == prev[j2]);
            } else {
                let i = choose|i: int| 0 <= i < dl.len() && dl[i] is Some && dl[i]->Some_0.dwc_taxon_id@ == prev[j1].id;
                assert(rows[i] == dl[i]);
                assert(rows[rows.len() - 1] == rows.last());
            }
        }
    }
}

/// Where the taxon rows have distinct taxon ids, as a key should be, each
/// taxon id appears at most once among the moths of the dataset.
pub proof fn lemma_moth_ids_unique(rows: Seq<Option<TaxonTSVRaw>>, m: TablesModel)
    requires
        forall|i: int, j: int|
            0 <= i < j < rows.len() && rows[i] is Some && rows[j] is Some ==> rows[i]->Some_0.dwc_taxon_id@
                != rows[j]->Some_0.dwc_taxon_id@,
    ensures
        forall|j1: int, j2: int|
            0 <= j1 < j2 < dataset_of(rows, m).moths.len() ==> (#[trigger] dataset_of(rows, m).moths[j1]).id
                != (#[trigger] dataset_of(rows, m).moths[j2]).id,
{
    lemma_run_moth_ids(rows, m);
    let s = run(rows, m);
    let d = dataset_of(rows, m);
    assert forall|j1: int, j2: int| 0 <= j1 < j2 < d.moths.len() implies (#[trigger] d.moths[j1]).id != (
    #[trigger] d.moths[j2]).id by {
        assert(d.moths[j1].id == s.moths[j1].id);
        assert(d.moths[j2].id == s.moths[j2].id);
    }
}

/// The lowercase forms of a category's values over the moths.
pub open spec fn lowered_fields(moths: Seq<ClassificationModel>, k: int) -> Set<Seq<char>> {
    Set::new(
        |f: Seq<char>|
            exists|i: int|
                0 <= i < moths.len() && (#[trigger] category_field(moths[i], k)) is Some && lower_of(
                    category_field(moths[i], k)->Some_0,
                ) == f,
    )
}

/// No moth before position `i` has a value in category `k` that lowercases to `f`.
pub open spec fn first_with(moths: Seq<ClassificationModel>, k: int, i: int, f: Seq<char>) -> bool {
    forall|i2: int|
        0 <= i2 < i ==> !((#[trigger] category_field(moths[i2], k)) is Some && lower_of(
            category_field(moths[i2], k)->Some_0,
        ) == f)
}

/// `w` is how the first moth whose value in category `k` lowercases to
/// `lower_of(w)` spells that value.
pub open spec fn first_spelling(moths: Seq<ClassificationModel>, k: int, w: Seq<char>) -> bool {
    exists|i: int|
        0 <= i < moths.len() && #[trigger] category_field(moths[i], k) == Some(w) && first_with(
            moths,
            k,
            i,
            lower_of(w),
        )
}

proof fn lemma_collisions_exact(bl: BlacklistModel, moths: Seq<ClassificationModel>, k: int)
    requires
        0 <= k < CATEGORY_COUNT,
    ensures
        category_set(all_collisions(bl, crate::blacklist::empty_blacklist(), moths).0, k)
            == category_set(bl, k).difference(lowered_fields(moths, k)),
        forall|w: Seq<char>|
            #[trigger] category_set(all_collisions(bl, crate::blacklist::empty_blacklist(), moths).1, k).contains(w)
                <==> category_set(bl, k).contains(lower_of(w)) && first_spelling(moths, k, w),
    decreases moths.len(),
{
    let e = crate::blacklist::empty_blacklist();
    let res = all_collisions(bl, e, moths);
    if moths.len() == 0 {
        assert(category_set(res.0, k) =~= category_set(bl, k).difference(lowered_fields(moths, k)));
        assert(category_set(e, k) =~= Set::<Seq<char>>::empty());
    } else {
        let dl = moths.drop_last();
        let n = moths.len() - 1;
        lemma_collisions_exact(bl, dl, k);
        let prev = all_collisions(bl, e, dl);
        lemma_category_step(prev.0, prev.1, moths.last(), k);
        assert(moths[n] == moths.last());
        assert forall|i: int| 0 <= i < n implies #[trigger] moths[i] == dl[i] by {}
        assert(category_set(res.0, k) =~= category_set(bl, k).difference(lowered_fields(moths, k))) by {
            assert forall|f: Seq<char>| #[trigger] lowered_fields(moths, k).contains(f) implies lowered_fields(dl, k).contains(f)
                || (category_field(moths[n], k) is Some && lower_of(category_field(moths[n], k)->Some_0) == f) by {
                let i = choose|i: int|
                    0 <= i < moths.len() && (#[trigger] category_field(moths[i], k)) is Some && lower_of(
                        category_field(moths[i], k)->Some_0,
                    ) == f;
                if i < n {
                    assert(category_field(dl[i], k) == category_field(moths[i], k));
                }
            }
            assert forall|f: Seq<char>| #[trigger] lowered_fields(dl, k).contains(f) implies lowered_fields(moths, k).contains(f) by {
                let i = choose|i: int|
                    0 <= i < dl.len() && (#[trigger] category_field(dl[i], k)) is Some && lower_of(
                        category_field(dl[i], k)->Some_0,
                    ) == f;
                assert(category_field(moths[i], k) == category_field(dl[i], k));
            }
        }
        assert forall|w: Seq<char>|
            #[trigger] category_set(res.1, k).contains(w) <==> category_set(bl, k).contains(lower_of(w))
                && first_spelling(moths, k, w) by {
            if category_set(prev.1, k).contains(w) {
                let i = choose|i: int|
                    0 <= i < dl.len() && #[trigger] category_field(dl[i], k) == Some(w) && first_with(dl, k, i, lower_of(w));
                assert(category_field(moths[i], k) == Some(w));
                assert forall|i2: int| 0 <= i2 < i implies !((#[trigger] category_field(moths[i2], k)) is Some
                    && lower_of(category_field(moths[i2], k)->Some_0) == lower_of(w)) by {
                    assert(category_field(dl[i2], k) == category_field(moths[i2], k));
                }
            }
            if category_set(bl, k).contains(lower_of(w)) && first_spelling(moths, k, w) {
                let i = choose|i: int|
                    0 <= i < moths.len() && #[trigger] category_field(moths[i], k) == Some(w) && first_with(
                        moths, k, i, lower_of(w));
                if i < n {
                    assert(category_field(dl[i], k) == Some(w));
                    assert forall|i2: int| 0 <= i2 < i implies !((#[trigger] category_field(dl[i2], k)) is Some
                        && lower_of(category_field(dl[i2], k)->Some_0) == lower_of(w)) by {
                        assert(category_field(dl[i2], k) == category_field(moths[i2], k));
                    }
                    assert(first_spelling(dl, k, w));
                } else {
                    assert(!lowered_fields(dl, k).contains(lower_of(w))) by {
                        if lowered_fields(dl, k).contains(lower_of(w)) {
                            let i2 = choose|i2: int|
                                0 <= i2 < dl.len() && (#[trigger] category_field(dl[i2], k)) is Some && lower_of(
                                    category_field(dl[i2], k)->Some_0,
                                ) == lower_of(w);
                            assert(category_field(moths[i2], k) == category_field(dl[i2], k));
                        }
                    }
                    assert(category_set(prev.0, k).contains(lower_of(w)));
                }
            }
            if category_set(res.1, k).contains(w) && !category_set(prev.1, k).contains(w) {
                assert(category_field(moths[n], k) == Some(w));
                assert(category_set(prev.0, k).contains(lower_of(w)));
                assert forall|i2: int| 0 <= i2 < n implies !((#[trigger] category_field(moths[i2], k)) is Some
                    && lower_of(category_field(moths[i2], k)->Some_0) == lower_of(w)) by {
                    assert(category_field(dl[i2], k) == category_field(moths[i2], k));
                    if category_field(dl[i2], k) is Some && lower_of(category_field(dl[i2], k)->Some_0) == lower_of(w) {
                        assert(lowered_fields(dl, k).contains(lower_of(w)));
                    }
                }
                assert(first_with(moths, k, n, lower_of(w)));
            }
        }
    }
}

/// After collision resolution the finished blacklist of each category is the
/// butterfly fragments less every fragment that some moth's value lowercases
/// to; its collision record holds, for each fragment that is both, exactly one
/// value: the spelling of the first moth whose value lowercases to it.
pub proof fn lemma_collisions_exact_in_dataset(s: PipelineModel, k: int)
    requires
        0 <= k < CATEGORY_COUNT,
    ensures
        category_set(finish_model(s).blacklist, k) == category_set(s.blacklist, k).difference(
            lowered_fields(classifications(s.moths), k),
        ),
        forall|w: Seq<char>|
            #[trigger] category_set(finish_model(s).collisions, k).contains(w) <==> category_set(
                s.blacklist,
                k,
            ).contains(lower_of(w)) && first_spelling(classifications(s.moths), k, w),
        forall|f: Seq<char>|
            category_set(s.blacklist, k).contains(f) && #[trigger] lowered_fields(classifications(s.moths), k).contains(f)
                ==> exists|w: Seq<char>|
                category_set(finish_model(s).collisions, k).contains(w) && lower_of(w) == f,
        forall|w1: Seq<char>, w2: Seq<char>|
            #[trigger] category_set(finish_model(s).collisions, k).contains(w1) && #[trigger] category_set(
                finish_model(s).collisions,
                k,
            ).contains(w2) && lower_of(w1) == lower_of(w2) ==> w1 == w2,
{
    let ms = classifications(s.moths);
    lemma_collisions_exact(s.blacklist, ms, k);
    let coll = category_set(finish_model(s).collisions, k);
    assert forall|f: Seq<char>|
        category_set(s.blacklist, k).contains(f) && #[trigger] lowered_fields(ms, k).contains(f) implies exists|w: Seq<char>|
        coll.contains(w) && lower_of(w) == f by {
        let i = choose|i: int|
            0 <= i < ms.len() && (#[trigger] category_field(ms[i], k)) is Some && lower_of(
                category_field(ms[i], k)->Some_0,
            ) == f;
        lemma_collision_symmetry(
            s.blacklist,
            crate::blacklist::empty_blacklist(),
            ms,
            k,
            i,
            category_field(ms[i], k)->Some_0,
        );
    }
    assert forall|w1: Seq<char>, w2: Seq<char>|
        #[trigger] coll.contains(w1) && #[trigger] coll.contains(w2) && lower_of(w1) == lower_of(w2) implies w1 == w2 by {
        let i1 = choose|i: int|
            0 <= i < ms.len() && #[trigger] category_field(ms[i], k) == Some(w1) && first_with(ms, k, i, lower_of(w1));
        let i2 = choose|i: int|
            0 <= i < ms.len() && #[trigger] category_field(ms[i], k) == Some(w2) && first_with(ms, k, i, lower_of(w2));
        if i1 < i2 {
            assert(category_field(ms[i1], k) is Some);
        } else if i2 < i1 {
            assert(category_field(ms[i2], k) is Some);
        }
    }
}

/// The number of synonyms attached over the moths.
pub open spec fn attached_total(moths: Seq<SpeciesModel>) -> nat
    decreases moths.len(),
{
    if moths.len() == 0 {
        0
    } else {
        attached_total(moths.drop_last()) + match moths.last().synonyms {
            Some(v) => v.len(),
            None => 0,
        }
    }
}

/// The number of entries of `e` that resolve to each moth, summed over the moths.
pub open spec fn resolved_total(moths: Seq<SpeciesModel>, e: Seq<(Seq<char>, SynonymModel)>) -> nat
    decreases moths.len(),
{
    if moths.len() == 0 {
        0
    } else {
        resolved_total(moths.drop_last(), e) + synonyms_of(e, moths.last().id).len()
    }
}

/// How many moths carry the taxon id `t`.
pub open spec fn id_count(moths: Seq<SpeciesModel>, t: Seq<char>) -> nat
    decreases moths.len(),
{
    if moths.len() == 0 {
        0
    } else {
        id_count(moths.drop_last(), t) + if moths.last().id == t {
            1nat
        } else {
            0nat
        }
    }
}

proof fn lemma_resolved_total_empty(moths: Seq<SpeciesModel>)
    ensures
        resolved_total(moths, Seq::empty()) == 0,
    decreases moths.len(),
{
    if moths.len() > 0 {
        lemma_resolved_total_empty(moths.drop_last());
    }
}

proof fn lemma_resolved_total_push(
    moths: Seq<SpeciesModel>,
    e: Seq<(Seq<char>, SynonymModel)>,
    x: (Seq<char>, SynonymModel),
)
    ensures
        resolved_total(moths, e.push(x)) == resolved_total(moths, e) + id_count(moths, x.0),
    decreases moths.len(),
{
    if moths.len() > 0 {
        lemma_resolved_total_push(moths.drop_last(), e, x);
        assert(e.push(x).drop_last() =~= e);
    }
}

proof fn lemma_id_count_one(moths: Seq<SpeciesModel>, t: Seq<char>)
    requires
        forall|j1: int, j2: int| 0 <= j1 < j2 < moths.len() ==> moths[j1].id != moths[j2].id,
    ensures
        moth_ids(moths).contains(t) ==> id_count(moths, t) == 1,
        !moth_ids(moths).contains(t) ==> id_count(moths, t) == 0,
    decreases moths.len(),
{
    if moths.len() > 0 {
        let dl = moths.drop_last();
        assert forall|j1: int, j2: int| 0 <= j1 < j2 < dl.len() implies dl[j1].id != dl[j2].id by {
            assert(dl[j1] == moths[j1] && dl[j2] == moths[j2]);
        }
        lemma_id_count_one(dl, t);
        if moth_ids(dl).contains(t) {
            let j = choose|j: int| 0 <= j < dl.len() && dl[j].id == t;
            assert(moths[j] == dl[j]);
            assert(moths[moths.len() - 1].id != t);
        }
        if moth_ids(moths).contains(t) && !moth_ids(dl).contains(t) {
            let j = choose|j: int| 0 <= j < moths.len() && moths[j].id == t;
            if j < dl.len() {
                assert(dl[j] == moths[j]);
            }
        }
        if !moth_ids(moths).contains(t) && moths.last().id == t {
            assert(moths[moths.len() - 1].id == t);
        }
        if !moth_ids(moths).contains(t) && moth_ids(dl).contains(t) {
            let j = choose|j: int| 0 <= j < dl.len() && dl[j].id == t;
            assert(moths[j] == dl[j]);
        }
    }
}

proof fn lemma_resolved_total_all(moths: Seq<SpeciesModel>, e: Seq<(Seq<char>, SynonymModel)>)
    requires
        forall|j1: int, j2: int| 0 <= j1 < j2 < moths.len() ==> moths[j1].id != moths[j2].id,
        forall|i: int| 0 <= i < e.len() ==> moth_ids(moths).contains(#[trigger] e[i].0),
    ensures
        resolved_total(moths, e) == e.len(),
    decreases e.len(),
{
    if e.len() == 0 {
        assert(e =~= Seq::<(Seq<char>, SynonymModel)>::empty());
        lemma_resolved_total_empty(moths);
    } else {
        let dl = e.drop_last();
        assert forall|i: int| 0 <= i < dl.len() implies moth_ids(moths).contains(#[trigger] dl[i].0) by {
            assert(dl[i] == e[i]);
        }
        lemma_resolved_total_all(moths, dl);
        assert(dl.push(e.last()) =~= e);
        lemma_resolved_total_push(moths, dl, e.last());
        assert(e[e.len() - 1] == e.last());
        assert(moth_ids(moths).contains(e[e.len() - 1].0));
        lemma_id_count_one(moths, e.last().0);
    }
}

proof fn lemma_attached_total(moths: Seq<SpeciesModel>, r: Seq<(Seq<char>, SynonymModel)>)
    ensures
        attached_total(moths.map_values(|m: SpeciesModel| with_synonyms(m, r))) == resolved_total(moths, r),
    decreases moths.len(),
{
    if moths.len() > 0 {
        let f = |m: SpeciesModel| with_synonyms(m, r);
        lemma_attached_total(moths.drop_last(), r);
        assert(moths.map_values(f).drop_last() =~= moths.drop_last().map_values(f));
        assert(moths.map_values(f).last() == with_synonyms(moths.last(), r));
    }
}

/// Where the taxon rows have distinct taxon ids, the reported synonym count is
/// the number of synonyms attached to the moths: a synonym whose target is not
/// a moth is not counted.
pub proof fn lemma_synonym_count(rows: Seq<Option<TaxonTSVRaw>>, m: TablesModel)
    requires
        forall|i: int, j: int|
            0 <= i < j < rows.len() && rows[i] is Some && rows[j] is Some ==> rows[i]->Some_0.dwc_taxon_id@
                != rows[j]->Some_0.dwc_taxon_id@,
    ensures
        dataset_of(rows, m).synonym_count == attached_total(dataset_of(rows, m).moths),
{
    lemma_run_moth_ids(rows, m);
    let s = run(rows, m);
    let ids = moth_ids(s.moths);
    let retained = retain_targets(s.synonyms, ids);
    assert forall|j1: int, j2: int| 0 <= j1 < j2 < s.moths.len() implies s.moths[j1].id != s.moths[j2].id by {}
    assert forall|i: int| 0 <= i < retained.len() implies ids.contains(#[trigger] retained[i].0) by {
        assert(retained.contains(retained[i]));
        lemma_retained_source(s.synonyms, ids, retained[i]);
    }
    lemma_resolved_total_all(s.moths, retained);
    lemma_attached_total(s.moths, retained);
}

} // verus!
