use vstd::prelude::*;

use crate::json_types::{names_view, strings_view};
use crate::key_index::{KeyIndex, lemma_positions_of, positions_of};
use crate::text::text_equals;
use crate::tsv_structs::{DistributionTSVRaw, SpeciesProfileTSVRaw, VernacularNameTSVRaw};

verus! {

/// The only language whose common names are kept.
pub const ENGLISH: &'static str = "eng";

/// Key of the common-name lookup: a language code and a taxon id.
pub struct VernacularHashKey {
    pub language_code: String,
    pub taxon_id: String,
}

impl View for VernacularHashKey {
    type V = (Seq<char>, Seq<char>);

    open spec fn view(&self) -> (Seq<char>, Seq<char>) {
        (self.language_code@, self.taxon_id@)
    }
}

/// The names, in table order, of the rows with the given language and taxon.
pub open spec fn names_for(rows: Seq<VernacularNameTSVRaw>, key: (Seq<char>, Seq<char>)) -> Seq<
    Seq<char>,
>
    decreases rows.len(),
{
    if rows.len() == 0 {
        Seq::empty()
    } else {
        let r = rows.last();
        let prev = names_for(rows.drop_last(), key);
        if r.dcterms_language@ == key.0 && r.dwc_taxon_id@ == key.1 {
            prev.push(r.dwc_vernacular_name@)
        } else {
            prev
        }
    }
}

/// The common-name lookup that a vernacular table gives: English keys only,
/// each with its names in table order.
pub open spec fn vernacular_model(rows: Seq<VernacularNameTSVRaw>) -> Map<
    (Seq<char>, Seq<char>),
    Seq<Seq<char>>,
> {
    Map::new(
        |k: (Seq<char>, Seq<char>)| k.0 == ENGLISH@ && names_for(rows, k).len() > 0,
        |k: (Seq<char>, Seq<char>)| names_for(rows, k),
    )
}

/// The row that a lookup by taxon id finds: the last one with that id.
pub open spec fn last_by_id<T>(rows: Seq<T>, id_of: spec_fn(T) -> Seq<char>) -> Map<Seq<char>, T>
    decreases rows.len(),
{
    if rows.len() == 0 {
        Map::empty()
    } else {
        last_by_id(rows.drop_last(), id_of).insert(id_of(rows.last()), rows.last())
    }
}

/// The key of a profile row: its taxon id.
pub open spec fn profile_key() -> spec_fn(SpeciesProfileTSVRaw) -> Seq<char> {
    |r: SpeciesProfileTSVRaw| r.dwc_taxon_id@
}

/// The key of a distribution row: its taxon id.
pub open spec fn distribution_key() -> spec_fn(DistributionTSVRaw) -> Seq<char> {
    |r: DistributionTSVRaw| r.dwc_taxon_id@
}

/// The taxon ids of the rows, in order.
pub open spec fn vernacular_ids(rows: Seq<VernacularNameTSVRaw>) -> Seq<Seq<char>> {
    rows.map_values(|r: VernacularNameTSVRaw| r.dwc_taxon_id@)
}

pub open spec fn profile_ids(rows: Seq<SpeciesProfileTSVRaw>) -> Seq<Seq<char>> {
    rows.map_values(|r: SpeciesProfileTSVRaw| r.dwc_taxon_id@)
}

pub open spec fn distribution_ids(rows: Seq<DistributionTSVRaw>) -> Seq<Seq<char>> {
    rows.map_values(|r: DistributionTSVRaw| r.dwc_taxon_id@)
}

/// The names of the rows at positions `ps` whose language and taxon match `key`.
pub open spec fn names_at(
    rows: Seq<VernacularNameTSVRaw>,
    ps: Seq<usize>,
    key: (Seq<char>, Seq<char>),
) -> Seq<Seq<char>>
    decreases ps.len(),
{
    if ps.len() == 0 {
        Seq::empty()
    } else {
        let prev = names_at(rows, ps.drop_last(), key);
        let r = rows[ps.last() as int];
        if r.dcterms_language@ == key.0 && r.dwc_taxon_id@ == key.1 {
            prev.push(r.dwc_vernacular_name@)
        } else {
            prev
        }
    }
}

proof fn lemma_names_at_extend(
    rows: Seq<VernacularNameTSVRaw>,
    x: VernacularNameTSVRaw,
    ps: Seq<usize>,
    key: (Seq<char>, Seq<char>),
)
    requires
        forall|i: int| 0 <= i < ps.len() ==> (#[trigger] ps[i]) < rows.len(),
    ensures
        names_at(rows.push(x), ps, key) == names_at(rows, ps, key),
    decreases ps.len(),
{
    if ps.len() > 0 {
        lemma_names_at_extend(rows, x, ps.drop_last(), key);
        assert(ps.last() == ps[ps.len() - 1]);
    }
}

/// Reading the rows at the positions of a taxon id gives its names.
proof fn lemma_names_at_positions(rows: Seq<VernacularNameTSVRaw>, key: (Seq<char>, Seq<char>))
    requires
        rows.len() <= usize::MAX,
    ensures
        names_at(rows, positions_of(vernacular_ids(rows), key.1), key) == names_for(rows, key),
    decreases rows.len(),
{
    if rows.len() > 0 {
        let dl = rows.drop_last();
        lemma_names_at_positions(dl, key);
        assert(vernacular_ids(rows).drop_last() =~= vernacular_ids(dl));
        lemma_positions_of(vernacular_ids(dl), key.1);
        let ps = positions_of(vernacular_ids(dl), key.1);
        assert(dl.push(rows.last()) =~= rows);
        lemma_names_at_extend(dl, rows.last(), ps, key);
        if rows.last().dwc_taxon_id@ == key.1 {
            let n = (rows.len() - 1) as usize;
            assert(ps.push(n).drop_last() =~= ps);
        }
    }
}

/// Common names by language and taxon id.
pub struct VernacularNames {
    rows: Vec<VernacularNameTSVRaw>,
    index: KeyIndex,
}

impl View for VernacularNames {
    type V = Map<(Seq<char>, Seq<char>), Seq<Seq<char>>>;

    closed spec fn view(&self) -> Map<(Seq<char>, Seq<char>), Seq<Seq<char>>> {
        Map::new(
            |k: (Seq<char>, Seq<char>)| names_for(self.rows@, k).len() > 0,
            |k: (Seq<char>, Seq<char>)| names_for(self.rows@, k),
        )
    }
}

/// Ecological profile rows by taxon id.
pub struct SpeciesProfileTable {
    rows: Vec<SpeciesProfileTSVRaw>,
    index: KeyIndex,
}

impl View for SpeciesProfileTable {
    type V = Map<Seq<char>, SpeciesProfileTSVRaw>;

    closed spec fn view(&self) -> Map<Seq<char>, SpeciesProfileTSVRaw> {
        last_by_id(self.rows@, profile_key())
    }
}

/// Distribution rows by taxon id.
pub struct DistributionTable {
    rows: Vec<DistributionTSVRaw>,
    index: KeyIndex,
}

impl View for DistributionTable {
    type V = Map<Seq<char>, DistributionTSVRaw>;

    closed spec fn view(&self) -> Map<Seq<char>, DistributionTSVRaw> {
        last_by_id(self.rows@, distribution_key())
    }
}

proof fn lemma_last_by_id_found<T>(rows: Seq<T>, id_of: spec_fn(T) -> Seq<char>, j: int)
    requires
        0 <= j < rows.len(),
        forall|l: int| j < l < rows.len() ==> id_of(rows[l]) != id_of(rows[j]),
    ensures
        last_by_id(rows, id_of).contains_key(id_of(rows[j])),
        last_by_id(rows, id_of)[id_of(rows[j])] == rows[j],
    decreases rows.len(),
{
    if j < rows.len() - 1 {
        lemma_last_by_id_found(rows.drop_last(), id_of, j);
    }
}

pub(crate) proof fn lemma_last_by_id_missing<T>(rows: Seq<T>, id_of: spec_fn(T) -> Seq<char>, id: Seq<char>)
    requires
        forall|l: int| 0 <= l < rows.len() ==> id_of(rows[l]) != id,
    ensures
        !last_by_id(rows, id_of).contains_key(id),
    decreases rows.len(),
{
    if rows.len() > 0 {
        lemma_last_by_id_missing(rows.drop_last(), id_of, id);
    }
}

proof fn lemma_names_for_english(
    kept: Seq<VernacularNameTSVRaw>,
    next: Seq<VernacularNameTSVRaw>,
    rows: Seq<VernacularNameTSVRaw>,
    i: int,
)
    requires
        0 <= i < rows.len(),
        next == if rows[i].dcterms_language@ == ENGLISH@ {
            kept.push(rows[i])
        } else {
            kept
        },
        forall|k: (Seq<char>, Seq<char>)|
            #[trigger] names_for(kept, k) == if k.0 == ENGLISH@ {
                names_for(rows.take(i), k)
            } else {
                Seq::empty()
            },
    ensures
        forall|k: (Seq<char>, Seq<char>)|
            #[trigger] names_for(next, k) == if k.0 == ENGLISH@ {
                names_for(rows.take(i + 1), k)
            } else {
                Seq::empty()
            },
{
    assert(rows.take(i + 1).drop_last() =~= rows.take(i));
    assert forall|k: (Seq<char>, Seq<char>)|
        #[trigger] names_for(next, k) == if k.0 == ENGLISH@ {
            names_for(rows.take(i + 1), k)
        } else {
            Seq::empty()
        } by {
        assert(names_for(kept, k) == if k.0 == ENGLISH@ {
            names_for(rows.take(i), k)
        } else {
            Seq::<Seq<char>>::empty()
        });
        if rows[i].dcterms_language@ == ENGLISH@ {
            assert(next.drop_last() =~= kept);
        }
    }
}

fn copy_vernacular_row(r: &VernacularNameTSVRaw) -> (c: VernacularNameTSVRaw)
    ensures
        c == *r,
{
    VernacularNameTSVRaw {
        dwc_taxon_id: r.dwc_taxon_id.clone(),
        dcterms_language: r.dcterms_language.clone(),
        dwc_vernacular_name: r.dwc_vernacular_name.clone(),
    }
}

/// Builds the common-name lookup; rows in any other language than English
/// are left out here.
pub fn vernacular_to_hashmap(rows: Vec<VernacularNameTSVRaw>) -> (r: VernacularNames)
    ensures
        r.wf(),
        r@ == vernacular_model(rows@),
{
    let mut kept: Vec<VernacularNameTSVRaw> = Vec::new();
    let mut index = KeyIndex::new();
    let mut i: usize = 0;
    while i < rows.len()
        invariant
            i <= rows@.len(),
            index.wf(),
            index@ == vernacular_ids(kept@),
            forall|k: (Seq<char>, Seq<char>)|
                #[trigger] names_for(kept@, k) == if k.0 == ENGLISH@ {
                    names_for(rows@.take(i as int), k)
                } else {
                    Seq::empty()
                },
        decreases rows@.len() - i,
    {
        let ghost before = kept@;
        if text_equals(&rows[i].dcterms_language, ENGLISH) {
            let row = copy_vernacular_row(&rows[i]);
            index.push(row.dwc_taxon_id.clone());
            kept.push(row);
            assert(index@ =~= vernacular_ids(kept@));
        }
        proof {
            lemma_names_for_english(before, kept@, rows@, i as int);
        }
        i = i + 1;
    }
    assert(rows@.take(rows@.len() as int) =~= rows@);
    let r = VernacularNames { rows: kept, index };
    assert(r@ =~= vernacular_model(rows@)) by {
        assert forall|k: (Seq<char>, Seq<char>)| #[trigger] r@.contains_key(k) implies k.0 == ENGLISH@ by {
            assert(names_for(kept@, k).len() > 0);
        }
    }
    r
}

impl VernacularNames {
    pub closed spec fn wf(&self) -> bool {
        self.index.wf() && self.index@ == vernacular_ids(self.rows@)
    }

    /// The common names under `key`, in table order; `None` where there are none.
    pub fn get(&self, key: &VernacularHashKey) -> (r: Option<Vec<String>>)
        requires
            self.wf(),
        ensures
            names_view(r) == if self@.contains_key(key@) {
                Some(self@[key@])
            } else {
                None
            },
    {
        let n = self.rows.len();
        let ps = self.index.positions(&key.taxon_id);
        proof {
            lemma_positions_of(self.index@, key.taxon_id@);
            lemma_names_at_positions(self.rows@, key@);
        }
        let mut names: Vec<String> = Vec::new();
        let mut j: usize = 0;
        while j < ps.len()
            invariant
                j <= ps@.len(),
                ps@ == positions_of(vernacular_ids(self.rows@), key.taxon_id@),
                forall|i: int| 0 <= i < ps@.len() ==> (#[trigger] ps@[i]) < self.rows@.len(),
                strings_view(names@) == names_at(self.rows@, ps@.take(j as int), key@),
            decreases ps@.len() - j,
        {
            assert(ps@.take(j + 1).drop_last() =~= ps@.take(j as int));
            let row = &self.rows[ps[j]];
            if row.dcterms_language == key.language_code && row.dwc_taxon_id == key.taxon_id {
                let ghost before = names@;
                names.push(row.dwc_vernacular_name.clone());
                assert(strings_view(names@) =~= strings_view(before).push(row.dwc_vernacular_name@));
            }
            j = j + 1;
        }
        assert(ps@.take(ps@.len() as int) =~= ps@);
        if names.len() == 0 {
            None
        } else {
            Some(names)
        }
    }
}

/// Builds the profile lookup; where a taxon id has several rows, the last wins.
pub fn species_profile_to_hashmap(rows: Vec<SpeciesProfileTSVRaw>) -> (r: SpeciesProfileTable)
    ensures
        r.wf(),
        r@ == last_by_id(rows@, profile_key()),
{
    let mut index = KeyIndex::new();
    let mut i: usize = 0;
    while i < rows.len()
        invariant
            i <= rows@.len(),
            index.wf(),
            index@ == profile_ids(rows@.take(i as int)),
        decreases rows@.len() - i,
    {
        index.push(rows[i].dwc_taxon_id.clone());
        assert(index@ =~= profile_ids(rows@.take(i + 1)));
        i = i + 1;
    }
    assert(rows@.take(rows@.len() as int) =~= rows@);
    SpeciesProfileTable { rows, index }
}

/// Builds the distribution lookup; where a taxon id has several rows, the last wins.
pub fn distribution_to_hashmap(rows: Vec<DistributionTSVRaw>) -> (r: DistributionTable)
    ensures
        r.wf(),
        r@ == last_by_id(rows@, distribution_key()),
{
    let mut index = KeyIndex::new();
    let mut i: usize = 0;
    while i < rows.len()
        invariant
            i <= rows@.len(),
            index.wf(),
            index@ == distribution_ids(rows@.take(i as int)),
        decreases rows@.len() - i,
    {
        index.push(rows[i].dwc_taxon_id.clone());
        assert(index@ =~= distribution_ids(rows@.take(i + 1)));
        i = i + 1;
    }
    assert(rows@.take(rows@.len() as int) =~= rows@);
    DistributionTable { rows, index }
}

impl SpeciesProfileTable {
    pub closed spec fn wf(&self) -> bool {
        self.index.wf() && self.index@ == profile_ids(self.rows@)
    }

    pub fn get(&self, id: &String) -> (r: Option<&SpeciesProfileTSVRaw>)
        requires
            self.wf(),
        ensures
            match r {
                Some(p) => self@.contains_key(id@) && self@[id@] == *p,
                None => !self@.contains_key(id@),
            },
    {
        let n = self.rows.len();
        let ps = self.index.positions(id);
        proof {
            lemma_positions_of(self.index@, id@);
        }
        if ps.len() > 0 {
            let p = ps[ps.len() - 1];
            proof {
                assert(ps@.last() == p);
                assert forall|l: int| p < l < self.rows@.len() implies #[trigger] profile_key()(self.rows@[l])
                    != profile_key()(self.rows@[p as int]) by {
                    assert(self.index@[l] == self.rows@[l].dwc_taxon_id@);
                }
                lemma_last_by_id_found(self.rows@, profile_key(), p as int);
            }
            Some(&self.rows[p])
        } else {
            proof {
                assert forall|l: int| 0 <= l < self.rows@.len() implies #[trigger] profile_key()(self.rows@[l]) != id@ by {
                    assert(self.index@[l] == self.rows@[l].dwc_taxon_id@);
                    if self.index@[l] == id@ {
                        assert(ps@.contains(l as usize));
                    }
                }
                lemma_last_by_id_missing(self.rows@, profile_key(), id@);
            }
            None
        }
    }
}

impl DistributionTable {
    pub closed spec fn wf(&self) -> bool {
        self.index.wf() && self.index@ == distribution_ids(self.rows@)
    }

    pub fn get(&self, id: &String) -> (r: Option<&DistributionTSVRaw>)
        requires
            self.wf(),
        ensures
            match r {
                Some(p) => self@.contains_key(id@) && self@[id@] == *p,
                None => !self@.contains_key(id@),
            },
    {
        let n = self.rows.len();
        let ps = self.index.positions(id);
        proof {
            lemma_positions_of(self.index@, id@);
        }
        if ps.len() > 0 {
            let p = ps[ps.len() - 1];
            proof {
                assert(ps@.last() == p);
                assert forall|l: int| p < l < self.rows@.len() implies #[trigger] distribution_key()(
                    self.rows@[l],
                ) != distribution_key()(self.rows@[p as int]) by {
                    assert(self.index@[l] == self.rows@[l].dwc_taxon_id@);
                }
                lemma_last_by_id_found(self.rows@, distribution_key(), p as int);
            }
            Some(&self.rows[p])
        } else {
            proof {
                assert forall|l: int| 0 <= l < self.rows@.len() implies #[trigger] distribution_key()(
                    self.rows@[l],
                ) != id@ by {
                    assert(self.index@[l] == self.rows@[l].dwc_taxon_id@);
                    if self.index@[l] == id@ {
                        assert(ps@.contains(l as usize));
                    }
                }
                lemma_last_by_id_missing(self.rows@, distribution_key(), id@);
            }
            None
        }
    }
}

} // verus!
