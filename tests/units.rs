use moth_data::{
    collapse_threat_status, compress_artifact, compress_with_level, distribution_record,
    lowercase_fragment, optional_field, repair_classification, resolve_fragment, synonym_entry,
    text_equals, vernacular_to_hashmap, DistributionTSVRaw, StringSet, TaxonTSVRaw,
    TaxonomicStatusRaw, ThreatStatus, ThreatStatusRaw, VernacularHashKey, VernacularNameTSVRaw,
};

fn s(v: &str) -> String {
    v.to_string()
}

fn bare_row() -> TaxonTSVRaw {
    TaxonTSVRaw {
        dwc_taxon_id: s("T9"),
        dwc_parent_name_usage_id: String::new(),
        dwc_accepted_name_usage_id: String::new(),
        dwc_original_name_usage_id: String::new(),
        dwc_taxonomic_status: TaxonomicStatusRaw::Accepted,
        dwc_taxon_rank: s("species"),
        dwc_generic_name: String::new(),
        dwc_specific_epithet: String::new(),
        dwc_order: s("Lepidoptera"),
        dwc_superfamily: String::new(),
        dwc_family: String::new(),
        dwc_subfamily: String::new(),
        dwc_tribe: String::new(),
        dwc_subtribe: String::new(),
        dwc_genus: String::new(),
    }
}

#[test]
fn compression_round_trips() {
    let data: Vec<u8> = b"{\"genera\": [\"papilio\", \"papilio\", \"papilio\", \"papilio\"]}".repeat(20);
    let packed = compress_with_level(&data, 3).unwrap();
    assert_ne!(packed, data);
    assert!(packed.len() < data.len());
    assert_eq!(zstd::bulk::decompress(&packed, data.len()).unwrap(), data);
    let best = compress_artifact(&data).unwrap();
    assert_eq!(zstd::bulk::decompress(&best, data.len()).unwrap(), data);
    assert_eq!(best, zstd::bulk::compress(&data, 22).unwrap());
    assert_eq!(packed, zstd::bulk::compress(&data, 3).unwrap());
}

#[test]
fn string_set_insert_remove() {
    let mut set = StringSet::new();
    set.insert(s("a"));
    set.insert(s("b"));
    set.insert(s("a"));
    assert_eq!(set.len(), 2);
    assert_eq!(set.to_vec(), vec![s("a"), s("b")]);
    assert!(set.remove(&s("a")));
    assert!(!set.remove(&s("a")));
    assert!(!set.contains(&s("a")));
    assert!(set.contains(&s("b")));
    set.insert(s("a"));
    assert_eq!(set.len(), 2);
    assert_eq!(set.to_vec(), vec![s("a"), s("b")]);
}

#[test]
fn string_set_many_names() {
    let mut set = StringSet::new();
    for i in 0..2000 {
        set.insert(format!("name{}", i % 1500));
    }
    assert_eq!(set.len(), 1500);
    assert!(set.contains(&s("name1499")));
    assert!(!set.contains(&s("name1500")));
}

#[test]
fn fragment_resolution_moves_original_spelling() {
    let mut blacklist = StringSet::new();
    let mut collisions = StringSet::new();
    blacklist.insert(s("papilio"));
    assert!(resolve_fragment(&mut blacklist, &mut collisions, &s("Papilio"), &s("papilio")));
    assert!(!blacklist.contains(&s("papilio")));
    assert!(collisions.contains(&s("Papilio")));
    assert!(!resolve_fragment(&mut blacklist, &mut collisions, &s("PAPILIO"), &s("papilio")));
    assert_eq!(collisions.len(), 1);
}

#[test]
fn lowercase_of_fragment() {
    assert_eq!(lowercase_fragment(&s("Papilionoidea")), "papilionoidea");
    assert_eq!(lowercase_fragment(&s("")), "");
}

#[test]
fn field_helpers() {
    assert_eq!(optional_field(&s("")), None);
    assert_eq!(optional_field(&s("x")), Some(s("x")));
    assert!(text_equals(&s("species"), "species"));
    assert!(!text_equals(&s("Species"), "species"));
}

#[test]
fn threat_status_collapse() {
    assert_eq!(collapse_threat_status(Some(ThreatStatusRaw::NotEvaluated)), None);
    assert_eq!(collapse_threat_status(Some(ThreatStatusRaw::DataDeficient)), None);
    assert_eq!(collapse_threat_status(None), None);
    assert_eq!(collapse_threat_status(Some(ThreatStatusRaw::LeastConcern)), Some(ThreatStatus::LeastConcern));
    assert_eq!(collapse_threat_status(Some(ThreatStatusRaw::Endangered)), Some(ThreatStatus::Endangered));
    assert_eq!(
        collapse_threat_status(Some(ThreatStatusRaw::CriticallyEndangered)),
        Some(ThreatStatus::CriticallyEndangered)
    );
    assert_eq!(
        collapse_threat_status(Some(ThreatStatusRaw::ExtinctInTheWild)),
        Some(ThreatStatus::ExtinctInTheWild)
    );
    assert_eq!(collapse_threat_status(Some(ThreatStatusRaw::Extinct)), Some(ThreatStatus::Extinct));
}

#[test]
fn distribution_without_data_is_absent() {
    let row = DistributionTSVRaw {
        dwc_taxon_id: s("T"),
        iucn_threat_status: Some(ThreatStatusRaw::DataDeficient),
        dwc_locality: String::new(),
    };
    assert!(distribution_record(&row).is_none());
    let row = DistributionTSVRaw {
        dwc_taxon_id: s("T"),
        iucn_threat_status: Some(ThreatStatusRaw::Extinct),
        dwc_locality: String::new(),
    };
    let d = distribution_record(&row).unwrap();
    assert_eq!(d.locality, None);
    assert_eq!(d.threat_status, Some(ThreatStatus::Extinct));
}

#[test]
fn repair_prefers_genus_over_generic_name() {
    let mut row = bare_row();
    row.dwc_genus = s("Noctua");
    row.dwc_generic_name = s("Agrotis");
    row.dwc_specific_epithet = s("pronuba");
    row.dwc_tribe = s("Noctuini");
    let c = repair_classification(&row).unwrap();
    assert_eq!(c.genus, "Noctua");
    assert_eq!(c.tribe, Some(s("Noctuini")));
    assert_eq!(c.subtribe, None);
    row.dwc_specific_epithet = String::new();
    assert!(repair_classification(&row).is_none());
}

#[test]
fn synonym_needs_generic_name_and_epithet() {
    let mut row = bare_row();
    row.dwc_generic_name = s("Agrotis");
    assert!(synonym_entry(&row).is_none());
    row.dwc_specific_epithet = s("suffusa");
    let syn = synonym_entry(&row).unwrap();
    assert_eq!(syn.catalogue_of_life_taxon_id, "T9");
    assert_eq!(syn.genus, "Agrotis");
    assert_eq!(syn.epithet, "suffusa");
    row.dwc_generic_name = String::new();
    row.dwc_genus = s("Agrotis");
    assert!(synonym_entry(&row).is_none());
}

#[test]
fn vernacular_lookup_by_language_and_taxon() {
    let table = vernacular_to_hashmap(vec![
        VernacularNameTSVRaw { dwc_taxon_id: s("A"), dcterms_language: s("eng"), dwc_vernacular_name: s("one") },
        VernacularNameTSVRaw { dwc_taxon_id: s("A"), dcterms_language: s("nld"), dwc_vernacular_name: s("een") },
        VernacularNameTSVRaw { dwc_taxon_id: s("A"), dcterms_language: s("eng"), dwc_vernacular_name: s("one") },
    ]);
    let eng = VernacularHashKey { language_code: s("eng"), taxon_id: s("A") };
    assert_eq!(table.get(&eng), Some(vec![s("one"), s("one")]));
    let nld = VernacularHashKey { language_code: s("nld"), taxon_id: s("A") };
    assert_eq!(table.get(&nld), None);
    let other = VernacularHashKey { language_code: s("eng"), taxon_id: s("B") };
    assert_eq!(table.get(&other), None);
}
