use vstd::prelude::*;

use crate::json_types::{SynonymModel, SynonymSpecies, synonyms_view};
use crate::key_index::{KeyIndex, lemma_positions_of, positions_of};
use crate::string_set::StringSet;

verus! {

/// Synonym references in the order they were recorded, each with the taxon
/// id of the accepted name it resolves to.
pub struct SynonymResolver {
    entries: Vec<(String, SynonymSpecies)>,
    targets: KeyIndex,
}

pub open spec fn entry_view(e: (String, SynonymSpecies)) -> (Seq<char>, SynonymModel) {
    (e.0@, e.1@)
}

impl View for SynonymResolver {
    type V = Seq<(Seq<char>, SynonymModel)>;

    closed spec fn view(&self) -> Seq<(Seq<char>, SynonymModel)> {
        self.entries@.map_values(|e: (String, SynonymSpecies)| entry_view(e))
    }
}

/// The synonyms recorded for one accepted taxon id, in recording order.
pub open spec fn synonyms_of(entries: Seq<(Seq<char>, SynonymModel)>, id: Seq<char>) -> Seq<
    SynonymModel,
>
    decreases entries.len(),
{
    if entries.len() == 0 {
        Seq::empty()
    } else {
        let prev = synonyms_of(entries.drop_last(), id);
        if entries.last().0 == id {
            prev.push(entries.last().1)
        } else {
            prev
        }
    }
}

/// The entries whose accepted taxon id lies in `ids`, in recording order.
pub open spec fn retain_targets(entries: Seq<(Seq<char>, SynonymModel)>, ids: Set<Seq<char>>) -> Seq<
    (Seq<char>, SynonymModel),
>
    decreases entries.len(),
{
    if entries.len() == 0 {
        Seq::empty()
    } else {
        let prev = retain_targets(entries.drop_last(), ids);
        if ids.contains(entries.last().0) {
            prev.push(entries.last())
        } else {
            prev
        }
    }
}

pub open spec fn targets_of(entries: Seq<(Seq<char>, SynonymModel)>) -> Seq<Seq<char>> {
    entries.map_values(|e: (Seq<char>, SynonymModel)| e.0)
}

/// The synonyms of the entries at positions `ps`.
pub open spec fn synonyms_at(entries: Seq<(Seq<char>, SynonymModel)>, ps: Seq<usize>) -> Seq<SynonymModel>
    decreases ps.len(),
{
    if ps.len() == 0 {
        Seq::empty()
    } else {
        synonyms_at(entries, ps.drop_last()).push(entries[ps.last() as int].1)
    }
}

proof fn lemma_synonyms_at_extend(
    entries: Seq<(Seq<char>, SynonymModel)>,
    x: (Seq<char>, SynonymModel),
    ps: Seq<usize>,
)
    requires
        forall|i: int| 0 <= i < ps.len() ==> (#[trigger] ps[i]) < entries.len(),
    ensures
        synonyms_at(entries.push(x), ps) == synonyms_at(entries, ps),
    decreases ps.len(),
{
    if ps.len() > 0 {
        lemma_synonyms_at_extend(entries, x, ps.drop_last());
        assert(ps.last() == ps[ps.len() - 1]);
    }
}

/// Reading the entries at the positions of a target gives its synonyms.
proof fn lemma_synonyms_at_positions(entries: Seq<(Seq<char>, SynonymModel)>, id: Seq<char>)
    requires
        entries.len() <= usize::MAX,
    ensures
        synonyms_at(entries, positions_of(targets_of(entries), id)) == synonyms_of(entries, id),
    decreases entries.len(),
{
    if entries.len() > 0 {
        let dl = entries.drop_last();
        lemma_synonyms_at_positions(dl, id);
        assert(targets_of(entries).drop_last() =~= targets_of(dl));
        lemma_positions_of(targets_of(dl), id);
        let ps = positions_of(targets_of(dl), id);
        assert(dl.push(entries.last()) =~= entries);
        lemma_synonyms_at_extend(dl, entries.last(), ps);
        if entries.last().0 == id {
            let n = (entries.len() - 1) as usize;
            assert(ps.push(n).drop_last() =~= ps);
        }
    }
}

/// An empty list of synonyms is no list at all.
pub open spec fn optional_synonyms(s: Seq<SynonymModel>) -> Option<Seq<SynonymModel>> {
    if s.len() == 0 {
        None
    } else {
        Some(s)
    }
}

pub fn copy_synonym(s: &SynonymSpecies) -> (r: SynonymSpecies)
    ensures
        r@ == s@,
{
    SynonymSpecies {
        catalogue_of_life_taxon_id: s.catalogue_of_life_taxon_id.clone(),
        genus: s.genus.clone(),
        epithet: s.epithet.clone(),
    }
}

impl SynonymResolver {
    pub closed spec fn wf(&self) -> bool {
        self.targets.wf() && self.targets@ == targets_of(self@)
    }

    pub fn new() -> (r: SynonymResolver)
        ensures
            r.wf(),
            r@ == Seq::<(Seq<char>, SynonymModel)>::empty(),
    {
        let r = SynonymResolver { entries: Vec::new(), targets: KeyIndex::new() };
        assert(targets_of(r@) =~= Seq::<Seq<char>>::empty());
        assert(r@ =~= Seq::<(Seq<char>, SynonymModel)>::empty());
        r
    }

    pub fn len(&self) -> (r: usize)
        ensures
            r == self@.len(),
    {
        self.entries.len()
    }

    /// Records a synonym of the taxon `target`.
    pub fn record(&mut self, target: String, synonym: SynonymSpecies)
        requires
            old(self).wf(),
        ensures
            final(self).wf(),
            final(self)@ == old(self)@.push((target@, synonym@)),
    {
        self.targets.push(target.clone());
        self.entries.push((target, synonym));
        assert(final(self)@ =~= old(self)@.push((target@, synonym@)));
        assert(self.targets@ =~= targets_of(self@));
    }

    /// Drops every synonym whose accepted taxon id is not in `ids`.
    pub fn prune(&mut self, ids: &StringSet)
        requires
            old(self).wf(),
            ids.wf(),
        ensures
            final(self).wf(),
            final(self)@ == retain_targets(old(self)@, ids@),
    {
        let ghost start = self@;
        let mut kept: Vec<(String, SynonymSpecies)> = Vec::new();
        let mut targets = KeyIndex::new();
        let mut i: usize = 0;
        while i < self.entries.len()
            invariant
                i <= self.entries@.len(),
                self@ == start,
                ids.wf(),
                targets.wf(),
                targets@ == targets_of(kept@.map_values(|e: (String, SynonymSpecies)| entry_view(e))),
                kept@.map_values(|e: (String, SynonymSpecies)| entry_view(e)) == retain_targets(
                    start.take(i as int),
                    ids@,
                ),
            decreases self.entries@.len() - i,
        {
            assert(start.take(i + 1).drop_last() =~= start.take(i as int));
            assert(start[i as int] == entry_view(self.entries@[i as int]));
            if ids.contains(&self.entries[i].0) {
                let ghost before = kept@;
                let e = (self.entries[i].0.clone(), copy_synonym(&self.entries[i].1));
                targets.push(self.entries[i].0.clone());
                kept.push(e);
                assert(targets@ =~= targets_of(kept@.map_values(|e: (String, SynonymSpecies)| entry_view(e))));
                assert(kept@.map_values(|e: (String, SynonymSpecies)| entry_view(e)) =~= before.map_values(
                    |e: (String, SynonymSpecies)| entry_view(e),
                ).push(start[i as int]));
            }
            i = i + 1;
        }
        assert(start.take(start.len() as int) =~= start);
        self.entries = kept;
        self.targets = targets;
    }

    /// The synonyms of the taxon `id`, in recording order; `None` where it has none.
    pub fn synonyms_for(&self, id: &String) -> (r: Option<Vec<SynonymSpecies>>)
        requires
            self.wf(),
        ensures
            match r {
                Some(v) => synonyms_view(v@) == synonyms_of(self@, id@) && v@.len() > 0,
                None => synonyms_of(self@, id@).len() == 0,
            },
    {
        let n = self.entries.len();
        let ps = self.targets.positions(id);
        proof {
            lemma_positions_of(self.targets@, id@);
            lemma_synonyms_at_positions(self@, id@);
        }
        let mut found: Vec<SynonymSpecies> = Vec::new();
        let mut j: usize = 0;
        while j < ps.len()
            invariant
                j <= ps@.len(),
                ps@ == positions_of(targets_of(self@), id@),
                self@.len() == self.entries@.len(),
                forall|i: int| 0 <= i < ps@.len() ==> (#[trigger] ps@[i]) < self.entries@.len(),
                synonyms_view(found@) == synonyms_at(self@, ps@.take(j as int)),
            decreases ps@.len() - j,
        {
            assert(ps@.take(j + 1).drop_last() =~= ps@.take(j as int));
            let p = ps[j];
            assert(self@[p as int] == entry_view(self.entries@[p as int]));
            let ghost before = found@;
            found.push(copy_synonym(&self.entries[p].1));
            assert(synonyms_view(found@) =~= synonyms_view(before).push(self@[p as int].1));
            j = j + 1;
        }
        assert(ps@.take(ps@.len() as int) =~= ps@);
        if found.len() == 0 {
            None
        } else {
            Some(found)
        }
    }
}

} // verus!
