use vstd::prelude::*;

use crate::json_types::{ClassificationModel, ScientificClassification, SynonymModel, SynonymSpecies};
use crate::text::{is_present, optional_field, optional_text, present, text_equals};
use crate::tsv_structs::{TaxonTSVRaw, TaxonomicStatusRaw};

verus! {

/// The rank of the only rows that can become moths, butterflies or synonyms.
pub const SPECIES_RANK: &'static str = "species";

/// The order that moths (and butterflies) belong to.
pub const MOTH_ORDER: &'static str = "Lepidoptera";

/// The superfamily that sets butterflies apart from moths.
pub const BUTTERFLY_SUPERFAMILY: &'static str = "Papilionoidea";

/// What a taxon row is taken to be; every row gets exactly one of these.
#[derive(Debug, Clone, Copy, PartialEq, Eq, Structural)]
pub enum TaxonCategory {
    SpeciesMoth,
    SpeciesButterfly,
    Synonym,
    Misapplied,
    Irrelevant,
}

pub open spec fn is_synonym_status(s: TaxonomicStatusRaw) -> bool {
    s == TaxonomicStatusRaw::Synonym || s == TaxonomicStatusRaw::AmbiguousSynonym
}

/// The decision order: rank, then synonym / misapplied status, then order,
/// then superfamily.
pub open spec fn category_of(row: TaxonTSVRaw) -> TaxonCategory {
    if row.dwc_taxon_rank@ != SPECIES_RANK@ {
        TaxonCategory::Irrelevant
    } else if is_synonym_status(row.dwc_taxonomic_status) {
        TaxonCategory::Synonym
    } else if row.dwc_taxonomic_status == TaxonomicStatusRaw::Misapplied {
        TaxonCategory::Misapplied
    } else if row.dwc_order@ != MOTH_ORDER@ {
        TaxonCategory::Irrelevant
    } else if row.dwc_superfamily@ == BUTTERFLY_SUPERFAMILY@ {
        TaxonCategory::SpeciesButterfly
    } else {
        TaxonCategory::SpeciesMoth
    }
}

/// The genus of a moth row: the genus field, or else the generic name.
pub open spec fn repaired_genus(row: TaxonTSVRaw) -> Option<Seq<char>> {
    if present(row.dwc_genus@) {
        Some(row.dwc_genus@)
    } else if present(row.dwc_generic_name@) {
        Some(row.dwc_generic_name@)
    } else {
        None
    }
}

/// The classification ladder of a moth row after repair; `None` where the row
/// has no genus (nor generic name) or no specific epithet.
pub open spec fn repaired_classification(row: TaxonTSVRaw) -> Option<ClassificationModel> {
    match repaired_genus(row) {
        Some(genus) => if present(row.dwc_specific_epithet@) {
            Some(
                ClassificationModel {
                    superfamily: optional_text(row.dwc_superfamily@),
                    family: optional_text(row.dwc_family@),
                    subfamily: optional_text(row.dwc_subfamily@),
                    tribe: optional_text(row.dwc_tribe@),
                    subtribe: optional_text(row.dwc_subtribe@),
                    genus,
                    epithet: row.dwc_specific_epithet@,
                },
            )
        } else {
            None
        },
        None => None,
    }
}

/// The reference that a synonym row contributes: only where it names both
/// a generic name and a specific epithet.
pub open spec fn synonym_of(row: TaxonTSVRaw) -> Option<SynonymModel> {
    if present(row.dwc_generic_name@) && present(row.dwc_specific_epithet@) {
        Some(
            SynonymModel {
                id: row.dwc_taxon_id@,
                genus: row.dwc_generic_name@,
                epithet: row.dwc_specific_epithet@,
            },
        )
    } else {
        None
    }
}

pub open spec fn classification_option_view(o: Option<ScientificClassification>) -> Option<
    ClassificationModel,
> {
    match o {
        Some(c) => Some(c@),
        None => None,
    }
}

pub open spec fn synonym_option_view(o: Option<SynonymSpecies>) -> Option<SynonymModel> {
    match o {
        Some(s) => Some(s@),
        None => None,
    }
}

/// Decides what a taxon row is.
pub fn classify_taxon(row: &TaxonTSVRaw) -> (r: TaxonCategory)
    ensures
        r == category_of(*row),
{
    if !text_equals(&row.dwc_taxon_rank, SPECIES_RANK) {
        return TaxonCategory::Irrelevant;
    }
    match row.dwc_taxonomic_status {
        TaxonomicStatusRaw::Synonym | TaxonomicStatusRaw::AmbiguousSynonym => {
            return TaxonCategory::Synonym;
        },
        TaxonomicStatusRaw::Misapplied => {
            return TaxonCategory::Misapplied;
        },
        _ => {},
    }
    if !text_equals(&row.dwc_order, MOTH_ORDER) {
        return TaxonCategory::Irrelevant;
    }
    if text_equals(&row.dwc_superfamily, BUTTERFLY_SUPERFAMILY) {
        TaxonCategory::SpeciesButterfly
    } else {
        TaxonCategory::SpeciesMoth
    }
}

/// Repairs the ladder of a moth row: the genus falls back to the generic name,
/// empty fields become absent; `None` where genus or epithet cannot be had.
pub fn repair_classification(row: &TaxonTSVRaw) -> (r: Option<ScientificClassification>)
    ensures
        classification_option_view(r) == repaired_classification(*row),
{
    let genus = if is_present(&row.dwc_genus) {
        row.dwc_genus.clone()
    } else if is_present(&row.dwc_generic_name) {
        row.dwc_generic_name.clone()
    } else {
        return None;
    };
    if !is_present(&row.dwc_specific_epithet) {
        return None;
    }
    Some(
        ScientificClassification {
            superfamily: optional_field(&row.dwc_superfamily),
            family: optional_field(&row.dwc_family),
            subfamily: optional_field(&row.dwc_subfamily),
            tribe: optional_field(&row.dwc_tribe),
            subtribe: optional_field(&row.dwc_subtribe),
            genus,
            epithet: row.dwc_specific_epithet.clone(),
        },
    )
}

/// The synonym reference of a synonym row, where it names both parts.
pub fn synonym_entry(row: &TaxonTSVRaw) -> (r: Option<SynonymSpecies>)
    ensures
        synonym_option_view(r) == synonym_of(*row),
{
    if is_present(&row.dwc_generic_name) && is_present(&row.dwc_specific_epithet) {
        Some(
            SynonymSpecies {
                catalogue_of_life_taxon_id: row.dwc_taxon_id.clone(),
                genus: row.dwc_generic_name.clone(),
                epithet: row.dwc_specific_epithet.clone(),
            },
        )
    } else {
        None
    }
}

/// Every row falls under exactly one category.
pub proof fn lemma_classification_total(row: TaxonTSVRaw)
    ensures
        (category_of(row) == TaxonCategory::SpeciesMoth) as int + (category_of(row)
            == TaxonCategory::SpeciesButterfly) as int + (category_of(row)
            == TaxonCategory::Synonym) as int + (category_of(row) == TaxonCategory::Misapplied) as int
            + (category_of(row) == TaxonCategory::Irrelevant) as int == 1,
{
}

} // verus!
