//! Derives a curated moth dataset from a Darwin-Core style taxonomic checklist:
//! classification of taxon rows, synonym resolution, auxiliary-table joins and
//! the butterfly blacklist with its collision record.

pub mod text;

pub mod tsv_structs;
pub mod json_types;
pub mod classify;
pub mod key_index;
pub mod string_set;
pub mod blacklist;
pub mod addin_tsv_hashmaps;
pub mod tsv_parsing;
pub mod synonyms;
pub mod pipeline;
pub mod laws;
pub mod compress;

pub use addin_tsv_hashmaps::{
    distribution_to_hashmap, species_profile_to_hashmap, vernacular_to_hashmap, DistributionTable,
    SpeciesProfileTable, VernacularHashKey, VernacularNames,
};
pub use blacklist::{resolve_fragment, ButterflyBlacklist};
pub use compress::{compress_artifact, compress_with_level, CompressionError};
pub use classify::{classify_taxon, repair_classification, synonym_entry, TaxonCategory};
pub use json_types::{
    Distribution, ScientificClassification, SpeciesData, SpeciesProfile, SynonymSpecies,
    ThreatStatus,
};
pub use pipeline::{build_moth_dataset, MothDataset, MothPipeline};
pub use string_set::StringSet;
pub use synonyms::SynonymResolver;
pub use text::{lowercase_fragment, optional_field, text_equals};
pub use tsv_parsing::{collapse_threat_status, distribution_record, parse_tsvs, Enrichment, TSVMaps};
pub use tsv_structs::{
    DistributionTSVRaw, SpeciesProfileTSVRaw, TaxonTSVRaw, TaxonomicStatusRaw, ThreatStatusRaw,
    VernacularNameTSVRaw,
};
