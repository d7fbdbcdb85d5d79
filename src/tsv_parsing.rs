use vstd::prelude::*;

use crate::addin_tsv_hashmaps::{
    DistributionTable, ENGLISH, SpeciesProfileTable, VernacularHashKey, VernacularNames,
    distribution_key, distribution_to_hashmap, last_by_id, profile_key, species_profile_to_hashmap,
    vernacular_model, vernacular_to_hashmap,
};
use crate::json_types::{
    Distribution, DistributionModel, SpeciesProfile, ThreatStatus, distribution_view, names_view,
};
use crate::text::{optional_field, optional_text};
use crate::tsv_structs::{
    DistributionTSVRaw, SpeciesProfileTSVRaw, ThreatStatusRaw, VernacularNameTSVRaw,
};

verus! {

/// The three auxiliary lookups, built once before the taxon pass.
pub struct TSVMaps {
    pub vernacular_name: VernacularNames,
    pub species_profile: SpeciesProfileTable,
    pub distribution: DistributionTable,
}

pub struct TablesModel {
    pub vernacular: Map<(Seq<char>, Seq<char>), Seq<Seq<char>>>,
    pub profiles: Map<Seq<char>, SpeciesProfileTSVRaw>,
    pub distributions: Map<Seq<char>, DistributionTSVRaw>,
}

impl TSVMaps {
    pub open spec fn wf(&self) -> bool {
        &&& self.vernacular_name.wf()
        &&& self.species_profile.wf()
        &&& self.distribution.wf()
    }
}

impl View for TSVMaps {
    type V = TablesModel;

    open spec fn view(&self) -> TablesModel {
        TablesModel {
            vernacular: self.vernacular_name@,
            profiles: self.species_profile@,
            distributions: self.distribution@,
        }
    }
}

/// The lookups that the three auxiliary tables give.
pub open spec fn tables_model(
    vernacular: Seq<VernacularNameTSVRaw>,
    profiles: Seq<SpeciesProfileTSVRaw>,
    distributions: Seq<DistributionTSVRaw>,
) -> TablesModel {
    TablesModel {
        vernacular: vernacular_model(vernacular),
        profiles: last_by_id(profiles, profile_key()),
        distributions: last_by_id(distributions, distribution_key()),
    }
}

/// Builds the three lookups from the rows of the auxiliary tables.
pub fn parse_tsvs(
    vernacular: Vec<VernacularNameTSVRaw>,
    profiles: Vec<SpeciesProfileTSVRaw>,
    distributions: Vec<DistributionTSVRaw>,
) -> (r: TSVMaps)
    ensures
        r.wf(),
        r@ == tables_model(vernacular@, profiles@, distributions@),
{
    TSVMaps {
        vernacular_name: vernacular_to_hashmap(vernacular),
        species_profile: species_profile_to_hashmap(profiles),
        distribution: distribution_to_hashmap(distributions),
    }
}

/// What the auxiliary tables add to one moth; each piece is independently absent.
pub struct Enrichment {
    pub common_names: Option<Vec<String>>,
    pub species_profile: Option<SpeciesProfile>,
    pub distribution: Option<Distribution>,
}

pub struct EnrichmentModel {
    pub common_names: Option<Seq<Seq<char>>>,
    pub species_profile: Option<SpeciesProfile>,
    pub distribution: Option<DistributionModel>,
}

impl View for Enrichment {
    type V = EnrichmentModel;

    open spec fn view(&self) -> EnrichmentModel {
        EnrichmentModel {
            common_names: names_view(self.common_names),
            species_profile: self.species_profile,
            distribution: distribution_view(self.distribution),
        }
    }
}

/// "Not evaluated" and "data deficient" carry no status.
pub open spec fn collapse_threat(t: Option<ThreatStatusRaw>) -> Option<ThreatStatus> {
    match t {
        Some(ThreatStatusRaw::LeastConcern) => Some(ThreatStatus::LeastConcern),
        Some(ThreatStatusRaw::Vulnerable) => Some(ThreatStatus::Vulnerable),
        Some(ThreatStatusRaw::Endangered) => Some(ThreatStatus::Endangered),
        Some(ThreatStatusRaw::CriticallyEndangered) => Some(ThreatStatus::CriticallyEndangered),
        Some(ThreatStatusRaw::ExtinctInTheWild) => Some(ThreatStatus::ExtinctInTheWild),
        Some(ThreatStatusRaw::Extinct) => Some(ThreatStatus::Extinct),
        _ => None,
    }
}

pub open spec fn profile_of(r: SpeciesProfileTSVRaw) -> SpeciesProfile {
    SpeciesProfile {
        extinct: r.gbif_is_extinct,
        freshwater: r.gbif_is_freshwater,
        marine: r.gbif_is_marine,
    }
}

/// The distribution of a row; a row with neither locality nor status gives none.
pub open spec fn distribution_of(r: DistributionTSVRaw) -> Option<DistributionModel> {
    let locality = optional_text(r.dwc_locality@);
    let threat_status = collapse_threat(r.iucn_threat_status);
    if locality is None && threat_status is None {
        None
    } else {
        Some(DistributionModel { locality, threat_status })
    }
}

/// The enrichment of the moth with the given taxon id.
pub open spec fn enrichment_of(m: TablesModel, id: Seq<char>) -> EnrichmentModel {
    EnrichmentModel {
        common_names: if m.vernacular.contains_key((ENGLISH@, id)) {
            Some(m.vernacular[(ENGLISH@, id)])
        } else {
            None
        },
        species_profile: if m.profiles.contains_key(id) {
            Some(profile_of(m.profiles[id]))
        } else {
            None
        },
        distribution: if m.distributions.contains_key(id) {
            distribution_of(m.distributions[id])
        } else {
            None
        },
    }
}

pub fn collapse_threat_status(t: Option<ThreatStatusRaw>) -> (r: Option<ThreatStatus>)
    ensures
        r == collapse_threat(t),
{
    match t {
        Some(ThreatStatusRaw::LeastConcern) => Some(ThreatStatus::LeastConcern),
        Some(ThreatStatusRaw::Vulnerable) => Some(ThreatStatus::Vulnerable),
        Some(ThreatStatusRaw::Endangered) => Some(ThreatStatus::Endangered),
        Some(ThreatStatusRaw::CriticallyEndangered) => Some(ThreatStatus::CriticallyEndangered),
        Some(ThreatStatusRaw::ExtinctInTheWild) => Some(ThreatStatus::ExtinctInTheWild),
        Some(ThreatStatusRaw::Extinct) => Some(ThreatStatus::Extinct),
        Some(ThreatStatusRaw::NotEvaluated) | Some(ThreatStatusRaw::DataDeficient) | None => None,
    }
}

/// The distribution record of a row, or `None` where it holds nothing.
pub fn distribution_record(r: &DistributionTSVRaw) -> (d: Option<Distribution>)
    ensures
        distribution_view(d) == distribution_of(*r),
{
    let locality = optional_field(&r.dwc_locality);
    let threat_status = collapse_threat_status(r.iucn_threat_status);
    if locality.is_none() && threat_status.is_none() {
        None
    } else {
        Some(Distribution { locality, threat_status })
    }
}

impl TSVMaps {
    /// Joins the three lookups for one taxon id; a table without a row for it
    /// leaves that piece absent.
    pub fn join(&self, id: &String) -> (r: Enrichment)
        requires
            self.wf(),
        ensures
            r@ == enrichment_of(self@, id@),
    {
        let key = VernacularHashKey { language_code: ENGLISH.to_owned(), taxon_id: id.clone() };
        let common_names = self.vernacular_name.get(&key);
        let species_profile = match self.species_profile.get(id) {
            Some(p) => Some(
                SpeciesProfile {
                    extinct: p.gbif_is_extinct,
                    freshwater: p.gbif_is_freshwater,
                    marine: p.gbif_is_marine,
                },
            ),
            None => None,
        };
        let distribution = match self.distribution.get(id) {
            Some(d) => distribution_record(d),
            None => None,
        };
        Enrichment { common_names, species_profile, distribution }
    }
}

} // verus!
