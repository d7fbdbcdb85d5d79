use vstd::prelude::*;

verus! {

/// Taxonomic status of a checklist row.
#[derive(Debug, Clone, Copy, PartialEq, Eq, Structural)]
pub enum TaxonomicStatusRaw {
    Accepted,
    ProvisionallyAccepted,
    Synonym,
    AmbiguousSynonym,
    Misapplied,
}

/// Threat status as the distribution table writes it, before the collapse of
/// `NotEvaluated` and `DataDeficient` to "no status".
#[derive(Debug, Clone, Copy, PartialEq, Eq, Structural)]
pub enum ThreatStatusRaw {
    LeastConcern,
    Vulnerable,
    Endangered,
    CriticallyEndangered,
    ExtinctInTheWild,
    Extinct,
    NotEvaluated,
    DataDeficient,
}

/// One row of the Taxon table. An empty text field means the value is absent.
#[derive(Debug, Clone)]
pub struct TaxonTSVRaw {
    pub dwc_taxon_id: String,
    pub dwc_parent_name_usage_id: String,
    pub dwc_accepted_name_usage_id: String,
    pub dwc_original_name_usage_id: String,
    pub dwc_taxonomic_status: TaxonomicStatusRaw,
    pub dwc_taxon_rank: String,
    pub dwc_generic_name: String,
    pub dwc_specific_epithet: String,
    pub dwc_order: String,
    pub dwc_superfamily: String,
    pub dwc_family: String,
    pub dwc_subfamily: String,
    pub dwc_tribe: String,
    pub dwc_subtribe: String,
    pub dwc_genus: String,
}

/// One row of the VernacularName table.
#[derive(Debug, Clone)]
pub struct VernacularNameTSVRaw {
    pub dwc_taxon_id: String,
    pub dcterms_language: String,
    pub dwc_vernacular_name: String,
}

/// One row of the SpeciesProfile table; a flag the table leaves empty is `None`.
#[derive(Debug, Clone)]
pub struct SpeciesProfileTSVRaw {
    pub dwc_taxon_id: String,
    pub gbif_is_extinct: Option<bool>,
    pub gbif_is_marine: Option<bool>,
    pub gbif_is_freshwater: Option<bool>,
}

/// One row of the Distribution table. An empty locality means no locality.
#[derive(Debug, Clone)]
pub struct DistributionTSVRaw {
    pub dwc_taxon_id: String,
    pub iucn_threat_status: Option<ThreatStatusRaw>,
    pub dwc_locality: String,
}

} // verus!
