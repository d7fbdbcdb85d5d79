use vstd::prelude::*;

use crate::text::text_view;

verus! {

/// IUCN threat status of a species, once "not evaluated" and "data deficient"
/// have been taken as "no status".
#[derive(Debug, Clone, Copy, PartialEq, Eq, Structural)]
pub enum ThreatStatus {
    LeastConcern,
    Vulnerable,
    Endangered,
    CriticallyEndangered,
    ExtinctInTheWild,
    Extinct,
}

/// Ecological flags of a species; each is absent where the source says nothing.
#[derive(Debug, Clone, Copy, PartialEq, Eq, Structural)]
pub struct SpeciesProfile {
    pub extinct: Option<bool>,
    pub freshwater: Option<bool>,
    pub marine: Option<bool>,
}

#[derive(Debug, Clone)]
pub struct Distribution {
    pub locality: Option<String>,
    pub threat_status: Option<ThreatStatus>,
}

pub struct DistributionModel {
    pub locality: Option<Seq<char>>,
    pub threat_status: Option<ThreatStatus>,
}

impl View for Distribution {
    type V = DistributionModel;

    open spec fn view(&self) -> DistributionModel {
        DistributionModel { locality: text_view(self.locality), threat_status: self.threat_status }
    }
}

/// The classification ladder of a moth; genus and epithet are always present.
#[derive(Debug, Clone)]
pub struct ScientificClassification {
    pub superfamily: Option<String>,
    pub family: Option<String>,
    pub subfamily: Option<String>,
    pub tribe: Option<String>,
    pub subtribe: Option<String>,
    pub genus: String,
    pub epithet: String,
}

pub struct ClassificationModel {
    pub superfamily: Option<Seq<char>>,
    pub family: Option<Seq<char>>,
    pub subfamily: Option<Seq<char>>,
    pub tribe: Option<Seq<char>>,
    pub subtribe: Option<Seq<char>>,
    pub genus: Seq<char>,
    pub epithet: Seq<char>,
}

impl View for ScientificClassification {
    type V = ClassificationModel;

    open spec fn view(&self) -> ClassificationModel {
        ClassificationModel {
            superfamily: text_view(self.superfamily),
            family: text_view(self.family),
            subfamily: text_view(self.subfamily),
            tribe: text_view(self.tribe),
            subtribe: text_view(self.subtribe),
            genus: self.genus@,
            epithet: self.epithet@,
        }
    }
}

/// A synonym filed under another name, kept as a reference on its accepted moth.
#[derive(Debug, Clone)]
pub struct SynonymSpecies {
    pub catalogue_of_life_taxon_id: String,
    pub genus: String,
    pub epithet: String,
}

pub struct SynonymModel {
    pub id: Seq<char>,
    pub genus: Seq<char>,
    pub epithet: Seq<char>,
}

impl View for SynonymSpecies {
    type V = SynonymModel;

    open spec fn view(&self) -> SynonymModel {
        SynonymModel {
            id: self.catalogue_of_life_taxon_id@,
            genus: self.genus@,
            epithet: self.epithet@,
        }
    }
}

/// One accepted moth species with its enrichment and synonyms.
#[derive(Debug, Clone)]
pub struct SpeciesData {
    pub catalogue_of_life_taxon_id: String,
    pub classification: ScientificClassification,
    pub common_names: Option<Vec<String>>,
    pub species_profile: Option<SpeciesProfile>,
    pub distribution: Option<Distribution>,
    pub synonyms: Option<Vec<SynonymSpecies>>,
}

pub struct SpeciesModel {
    pub id: Seq<char>,
    pub classification: ClassificationModel,
    pub common_names: Option<Seq<Seq<char>>>,
    pub species_profile: Option<SpeciesProfile>,
    pub distribution: Option<DistributionModel>,
    pub synonyms: Option<Seq<SynonymModel>>,
}

/// The views of a sequence of strings.
pub open spec fn strings_view(v: Seq<String>) -> Seq<Seq<char>> {
    v.map_values(|s: String| s@)
}

pub open spec fn names_view(o: Option<Vec<String>>) -> Option<Seq<Seq<char>>> {
    match o {
        Some(v) => Some(strings_view(v@)),
        None => None,
    }
}

pub open spec fn synonyms_view(v: Seq<SynonymSpecies>) -> Seq<SynonymModel> {
    v.map_values(|s: SynonymSpecies| s@)
}

pub open spec fn synonym_list_view(o: Option<Vec<SynonymSpecies>>) -> Option<Seq<SynonymModel>> {
    match o {
        Some(v) => Some(synonyms_view(v@)),
        None => None,
    }
}

pub open spec fn distribution_view(o: Option<Distribution>) -> Option<DistributionModel> {
    match o {
        Some(d) => Some(d@),
        None => None,
    }
}

impl View for SpeciesData {
    type V = SpeciesModel;

    open spec fn view(&self) -> SpeciesModel {
        SpeciesModel {
            id: self.catalogue_of_life_taxon_id@,
            classification: self.classification@,
            common_names: names_view(self.common_names),
            species_profile: self.species_profile,
            distribution: distribution_view(self.distribution),
            synonyms: synonym_list_view(self.synonyms),
        }
    }
}

} // verus!
