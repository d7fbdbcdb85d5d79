use moth_data::{
    build_moth_dataset, classify_taxon, parse_tsvs, DistributionTSVRaw, MothDataset, MothPipeline,
    SpeciesProfileTSVRaw, StringSet, TaxonCategory, TaxonTSVRaw, TaxonomicStatusRaw, ThreatStatus,
    ThreatStatusRaw, TSVMaps, VernacularNameTSVRaw,
};

fn s(v: &str) -> String {
    v.to_string()
}

fn taxon(id: &str, status: TaxonomicStatusRaw, superfamily: &str, genus: &str, generic: &str, epithet: &str) -> TaxonTSVRaw {
    TaxonTSVRaw {
        dwc_taxon_id: s(id),
        dwc_parent_name_usage_id: String::new(),
        dwc_accepted_name_usage_id: String::new(),
        dwc_original_name_usage_id: String::new(),
        dwc_taxonomic_status: status,
        dwc_taxon_rank: s("species"),
        dwc_generic_name: s(generic),
        dwc_specific_epithet: s(epithet),
        dwc_order: s("Lepidoptera"),
        dwc_superfamily: s(superfamily),
        dwc_family: String::new(),
        dwc_subfamily: String::new(),
        dwc_tribe: String::new(),
        dwc_subtribe: String::new(),
        dwc_genus: s(genus),
    }
}

fn moth(id: &str, genus: &str, epithet: &str) -> TaxonTSVRaw {
    taxon(id, TaxonomicStatusRaw::Accepted, "Noctuoidea", genus, "", epithet)
}

fn butterfly(id: &str, genus: &str, epithet: &str) -> TaxonTSVRaw {
    taxon(id, TaxonomicStatusRaw::Accepted, "Papilionoidea", genus, "", epithet)
}

fn synonym(id: &str, target: &str, generic: &str, epithet: &str) -> TaxonTSVRaw {
    let mut row = taxon(id, TaxonomicStatusRaw::Synonym, "", "", generic, epithet);
    row.dwc_order = String::new();
    row.dwc_accepted_name_usage_id = s(target);
    row
}

fn no_tables() -> TSVMaps {
    parse_tsvs(Vec::new(), Vec::new(), Vec::new())
}

fn run(rows: Vec<TaxonTSVRaw>, maps: &TSVMaps) -> MothDataset {
    let rows: Vec<Option<TaxonTSVRaw>> = rows.into_iter().map(Some).collect();
    build_moth_dataset(&rows, maps)
}

fn has(set: &StringSet, v: &str) -> bool {
    set.contains(&s(v))
}

#[test]
fn moth_genus_taken_from_generic_name() {
    let row = taxon("T1", TaxonomicStatusRaw::Accepted, "Noctuoidea", "", "Agrotis", "ipsilon");
    let d = run(vec![row], &no_tables());
    assert_eq!(d.moths.len(), 1);
    assert_eq!(d.moth_count, 1);
    let m = &d.moths[0];
    assert_eq!(m.catalogue_of_life_taxon_id, "T1");
    assert_eq!(m.classification.genus, "Agrotis");
    assert_eq!(m.classification.epithet, "ipsilon");
    assert_eq!(m.classification.superfamily, Some(s("Noctuoidea")));
    assert_eq!(m.classification.family, None);
    assert!(m.common_names.is_none());
    assert!(m.species_profile.is_none());
    assert!(m.distribution.is_none());
    assert!(m.synonyms.is_none());
    assert_eq!(d.bad_entry_count, 0);
}

#[test]
fn butterfly_genus_collides_with_case_different_moth() {
    let d = run(vec![butterfly("B1", "Papilio", "machaon"), moth("M1", "papilio", "nocturnus")], &no_tables());
    assert!(!has(&d.blacklist.genera, "papilio"));
    assert!(has(&d.collisions.genera, "papilio"));
    assert_eq!(d.collisions.genera.len(), 1);
    assert!(has(&d.blacklist.epithets, "machaon"));
    assert_eq!(d.collisions.epithets.len(), 0);
}

#[test]
fn butterfly_fragments_are_lowercased() {
    let mut row = butterfly("B1", "Papilio", "Machaon");
    row.dwc_family = s("Papilionidae");
    row.dwc_subfamily = s("Papilioninae");
    row.dwc_tribe = s("Papilionini");
    row.dwc_subtribe = s("Sub");
    row.dwc_generic_name = s("Heraclides");
    let d = run(vec![row], &no_tables());
    assert!(has(&d.blacklist.families, "papilionidae"));
    assert!(!has(&d.blacklist.families, "Papilionidae"));
    assert!(has(&d.blacklist.subfamilies, "papilioninae"));
    assert!(has(&d.blacklist.tribes, "papilionini"));
    assert!(has(&d.blacklist.subtribes, "sub"));
    assert!(has(&d.blacklist.genera, "papilio"));
    assert!(has(&d.blacklist.genera, "heraclides"));
    assert!(has(&d.blacklist.epithets, "machaon"));
    assert_eq!(d.blacklist.genera.len(), 2);
    assert!(d.moths.is_empty());
}

#[test]
fn collisions_in_every_category() {
    let mut b = butterfly("B1", "Alpha", "beta");
    b.dwc_family = s("Fam");
    b.dwc_subfamily = s("Subfam");
    b.dwc_tribe = s("Trib");
    b.dwc_subtribe = s("Subtrib");
    let mut m = moth("M1", "ALPHA", "Beta");
    m.dwc_family = s("FAM");
    m.dwc_subfamily = s("subfam");
    m.dwc_tribe = s("TriB");
    m.dwc_subtribe = s("SubTrib");
    let d = run(vec![b, m], &no_tables());
    for (bl, coll, orig) in [
        (&d.blacklist.families, &d.collisions.families, "FAM"),
        (&d.blacklist.subfamilies, &d.collisions.subfamilies, "subfam"),
        (&d.blacklist.tribes, &d.collisions.tribes, "TriB"),
        (&d.blacklist.subtribes, &d.collisions.subtribes, "SubTrib"),
        (&d.blacklist.genera, &d.collisions.genera, "ALPHA"),
        (&d.blacklist.epithets, &d.collisions.epithets, "Beta"),
    ] {
        assert_eq!(bl.len(), 0);
        assert_eq!(coll.len(), 1);
        assert!(has(coll, orig));
    }
}

#[test]
fn collision_recorded_once_for_two_moths() {
    let d = run(
        vec![butterfly("B1", "Papilio", "x"), moth("M1", "Papilio", "a"), moth("M2", "PAPILIO", "b")],
        &no_tables(),
    );
    assert_eq!(d.collisions.genera.len(), 1);
    assert!(has(&d.collisions.genera, "Papilio"));
    assert_eq!(d.blacklist.genera.len(), 0);
}

#[test]
fn moth_without_genus_or_epithet_is_bad_entry() {
    let d = run(
        vec![moth("M1", "", "ipsilon"), moth("M2", "Agrotis", ""), moth("M3", "Agrotis", "segetum")],
        &no_tables(),
    );
    assert_eq!(d.bad_entry_count, 2);
    assert_eq!(d.moths.len(), 1);
    assert_eq!(d.moths[0].catalogue_of_life_taxon_id, "M3");
}

#[test]
fn malformed_rows_are_counted() {
    let rows = vec![None, Some(moth("M1", "Agrotis", "ipsilon")), None];
    let d = build_moth_dataset(&rows, &no_tables());
    assert_eq!(d.bad_entry_count, 2);
    assert_eq!(d.moth_count, 1);
}

#[test]
fn classification_decision_order() {
    let mut genus_rank = moth("G", "Agrotis", "x");
    genus_rank.dwc_taxon_rank = s("genus");
    assert_eq!(classify_taxon(&genus_rank), TaxonCategory::Irrelevant);
    let mut syn = moth("S", "Agrotis", "x");
    syn.dwc_taxonomic_status = TaxonomicStatusRaw::AmbiguousSynonym;
    assert_eq!(classify_taxon(&syn), TaxonCategory::Synonym);
    let mut mis = moth("X", "Agrotis", "x");
    mis.dwc_taxonomic_status = TaxonomicStatusRaw::Misapplied;
    assert_eq!(classify_taxon(&mis), TaxonCategory::Misapplied);
    let mut no_order = moth("N", "Agrotis", "x");
    no_order.dwc_order = String::new();
    assert_eq!(classify_taxon(&no_order), TaxonCategory::Irrelevant);
    let mut beetle = moth("C", "Carabus", "x");
    beetle.dwc_order = s("Coleoptera");
    assert_eq!(classify_taxon(&beetle), TaxonCategory::Irrelevant);
    let mut lower_order = moth("L", "Agrotis", "x");
    lower_order.dwc_order = s("lepidoptera");
    assert_eq!(classify_taxon(&lower_order), TaxonCategory::Irrelevant);
    assert_eq!(classify_taxon(&butterfly("B", "Papilio", "x")), TaxonCategory::SpeciesButterfly);
    let mut provisional = moth("P", "Agrotis", "x");
    provisional.dwc_taxonomic_status = TaxonomicStatusRaw::ProvisionallyAccepted;
    assert_eq!(classify_taxon(&provisional), TaxonCategory::SpeciesMoth);
    let mut no_superfamily = moth("Q", "Agrotis", "x");
    no_superfamily.dwc_superfamily = String::new();
    assert_eq!(classify_taxon(&no_superfamily), TaxonCategory::SpeciesMoth);
}

#[test]
fn irrelevant_and_misapplied_rows_leave_no_trace() {
    let mut mis = butterfly("X", "Papilio", "x");
    mis.dwc_taxonomic_status = TaxonomicStatusRaw::Misapplied;
    let mut genus_rank = butterfly("G", "Papilio", "x");
    genus_rank.dwc_taxon_rank = s("genus");
    let d = run(vec![mis, genus_rank], &no_tables());
    assert!(d.moths.is_empty());
    assert_eq!(d.blacklist.genera.len(), 0);
    assert_eq!(d.bad_entry_count, 0);
    assert_eq!(d.synonym_count, 0);
}

#[test]
fn synonyms_attach_only_to_moths() {
    let rows = vec![
        synonym("S1", "M1", "Agrotis", "old"),
        butterfly("B1", "Papilio", "machaon"),
        synonym("S2", "B1", "Papilio", "older"),
        moth("M1", "Agrotis", "ipsilon"),
        synonym("S3", "M1", "Noctua", "ipsilon"),
        synonym("S4", "NOWHERE", "Noctua", "x"),
        synonym("S5", "M1", "Noctua", ""),
    ];
    let d = run(rows, &no_tables());
    assert_eq!(d.synonym_count, 2);
    let syns = d.moths[0].synonyms.as_ref().unwrap();
    assert_eq!(syns.len(), 2);
    assert_eq!(syns[0].catalogue_of_life_taxon_id, "S1");
    assert_eq!(syns[0].genus, "Agrotis");
    assert_eq!(syns[0].epithet, "old");
    assert_eq!(syns[1].catalogue_of_life_taxon_id, "S3");
    assert_eq!(syns[1].genus, "Noctua");
}

#[test]
fn moth_without_synonyms_has_none() {
    let d = run(vec![moth("M1", "Agrotis", "ipsilon"), synonym("S1", "M2", "A", "b")], &no_tables());
    assert!(d.moths[0].synonyms.is_none());
    assert_eq!(d.synonym_count, 0);
}

fn vern(id: &str, lang: &str, name: &str) -> VernacularNameTSVRaw {
    VernacularNameTSVRaw { dwc_taxon_id: s(id), dcterms_language: s(lang), dwc_vernacular_name: s(name) }
}

#[test]
fn only_english_common_names_are_joined() {
    let maps = parse_tsvs(
        vec![
            vern("M1", "eng", "Dark Sword-grass"),
            vern("M1", "fra", "Noctuelle baignée"),
            vern("M2", "deu", "Ypsiloneule"),
            vern("M1", "eng", "Black Cutworm"),
        ],
        Vec::new(),
        Vec::new(),
    );
    let d = run(vec![moth("M1", "Agrotis", "ipsilon"), moth("M2", "Agrotis", "segetum")], &maps);
    assert_eq!(d.moths[0].common_names, Some(vec![s("Dark Sword-grass"), s("Black Cutworm")]));
    assert!(d.moths[1].common_names.is_none());
}

#[test]
fn profile_and_distribution_are_joined() {
    let maps = parse_tsvs(
        Vec::new(),
        vec![
            SpeciesProfileTSVRaw {
                dwc_taxon_id: s("M1"),
                gbif_is_extinct: Some(true),
                gbif_is_marine: None,
                gbif_is_freshwater: Some(false),
            },
            SpeciesProfileTSVRaw {
                dwc_taxon_id: s("M1"),
                gbif_is_extinct: Some(false),
                gbif_is_marine: None,
                gbif_is_freshwater: Some(false),
            },
        ],
        vec![
            DistributionTSVRaw {
                dwc_taxon_id: s("M1"),
                iucn_threat_status: Some(ThreatStatusRaw::Vulnerable),
                dwc_locality: s("Europe"),
            },
            DistributionTSVRaw {
                dwc_taxon_id: s("M2"),
                iucn_threat_status: Some(ThreatStatusRaw::NotEvaluated),
                dwc_locality: String::new(),
            },
            DistributionTSVRaw {
                dwc_taxon_id: s("M3"),
                iucn_threat_status: Some(ThreatStatusRaw::DataDeficient),
                dwc_locality: s("Chile"),
            },
        ],
    );
    let d = run(
        vec![moth("M1", "A", "a"), moth("M2", "B", "b"), moth("M3", "C", "c")],
        &maps,
    );
    let p = d.moths[0].species_profile.unwrap();
    assert_eq!(p.extinct, Some(false));
    assert_eq!(p.freshwater, Some(false));
    assert_eq!(p.marine, None);
    let dist = d.moths[0].distribution.as_ref().unwrap();
    assert_eq!(dist.locality, Some(s("Europe")));
    assert_eq!(dist.threat_status, Some(ThreatStatus::Vulnerable));
    assert!(d.moths[1].distribution.is_none());
    assert!(d.moths[1].species_profile.is_none());
    let dist3 = d.moths[2].distribution.as_ref().unwrap();
    assert_eq!(dist3.locality, Some(s("Chile")));
    assert_eq!(dist3.threat_status, None);
}

#[test]
fn incremental_pipeline_matches_batch() {
    let maps = no_tables();
    let mut p = MothPipeline::new();
    p.add_taxon_row(&butterfly("B1", "Papilio", "machaon"), &maps);
    p.add_malformed_row();
    p.add_taxon_row(&moth("M1", "Papilio", "nocturnus"), &maps);
    p.add_taxon_row(&synonym("S1", "M1", "Papilio", "old"), &maps);
    assert_eq!(p.bad_entry_count(), 1);
    let d = p.finish();
    assert_eq!(d.moth_count, 1);
    assert_eq!(d.synonym_count, 1);
    assert_eq!(d.bad_entry_count, 1);
    assert!(has(&d.collisions.genera, "Papilio"));
}

#[test]
fn collision_keeps_first_moth_spelling() {
    let d = run(
        vec![
            butterfly("B1", "Papilio", "x"),
            moth("M1", "PaPiLiO", "a"),
            moth("M2", "Papilio", "b"),
            moth("M3", "Agrotis", "c"),
        ],
        &no_tables(),
    );
    assert_eq!(d.collisions.genera.to_vec(), vec![s("PaPiLiO")]);
    assert_eq!(d.blacklist.genera.len(), 0);
    assert!(has(&d.blacklist.epithets, "x"));
    assert_eq!(d.collisions.epithets.len(), 0);
}

#[test]
fn synonym_count_matches_attached_synonyms() {
    let rows = vec![
        butterfly("B1", "Papilio", "machaon"),
        synonym("S1", "B1", "Papilio", "older"),
        moth("M1", "Agrotis", "ipsilon"),
        moth("M2", "Noctua", "pronuba"),
        synonym("S2", "M1", "Agrotis", "a"),
        synonym("S3", "M2", "Noctua", "b"),
        synonym("S4", "M2", "Noctua", "c"),
    ];
    let d = run(rows, &no_tables());
    let attached: usize = d.moths.iter().map(|m| m.synonyms.as_ref().map_or(0, |v| v.len())).sum();
    assert_eq!(d.synonym_count, 3);
    assert_eq!(attached, 3);
    assert!(d.moths.iter().all(|m| m.synonyms.as_ref().map_or(true, |v| v.iter().all(|y| y.catalogue_of_life_taxon_id != "S1"))));
    assert_eq!(d.bad_entry_count, 0);
    assert_eq!(d.collisions.genera.len(), 0);
}
