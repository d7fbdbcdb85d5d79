use vstd::prelude::*;

use crate::json_types::{ClassificationModel, ScientificClassification};
use crate::string_set::StringSet;
use crate::text::{is_present, lower_of, lowercase_fragment, present};
use crate::tsv_structs::TaxonTSVRaw;

verus! {

/// Six sets of name fragments, one per ladder category. The same shape holds
/// the butterfly blacklist (lowercase fragments) and the collision record
/// (fragments as a moth spells them).
pub struct ButterflyBlacklist {
    pub families: StringSet,
    pub subfamilies: StringSet,
    pub tribes: StringSet,
    pub subtribes: StringSet,
    pub genera: StringSet,
    pub epithets: StringSet,
}

pub struct BlacklistModel {
    pub families: Set<Seq<char>>,
    pub subfamilies: Set<Seq<char>>,
    pub tribes: Set<Seq<char>>,
    pub subtribes: Set<Seq<char>>,
    pub genera: Set<Seq<char>>,
    pub epithets: Set<Seq<char>>,
}

impl View for ButterflyBlacklist {
    type V = BlacklistModel;

    open spec fn view(&self) -> BlacklistModel {
        BlacklistModel {
            families: self.families@,
            subfamilies: self.subfamilies@,
            tribes: self.tribes@,
            subtribes: self.subtribes@,
            genera: self.genera@,
            epithets: self.epithets@,
        }
    }
}

/// The number of ladder categories: family, subfamily, tribe, subtribe,
/// genus, epithet, in that order.
pub const CATEGORY_COUNT: usize = 6;

/// The set of one category, by its position in the ladder.
pub open spec fn category_set(b: BlacklistModel, k: int) -> Set<Seq<char>> {
    if k == 0 {
        b.families
    } else if k == 1 {
        b.subfamilies
    } else if k == 2 {
        b.tribes
    } else if k == 3 {
        b.subtribes
    } else if k == 4 {
        b.genera
    } else {
        b.epithets
    }
}

/// The moth's value in one category, by its position in the ladder.
pub open spec fn category_field(c: ClassificationModel, k: int) -> Option<Seq<char>> {
    if k == 0 {
        c.family
    } else if k == 1 {
        c.subfamily
    } else if k == 2 {
        c.tribe
    } else if k == 3 {
        c.subtribe
    } else if k == 4 {
        Some(c.genus)
    } else {
        Some(c.epithet)
    }
}

pub open spec fn empty_blacklist() -> BlacklistModel {
    BlacklistModel {
        families: Set::empty(),
        subfamilies: Set::empty(),
        tribes: Set::empty(),
        subtribes: Set::empty(),
        genera: Set::empty(),
        epithets: Set::empty(),
    }
}

/// Adds the lowercase form of a field, if the field is present.
pub open spec fn add_lowered(s: Set<Seq<char>>, field: Seq<char>) -> Set<Seq<char>> {
    if present(field) {
        s.insert(lower_of(field))
    } else {
        s
    }
}

/// The blacklist after a butterfly row: every present ladder field, lowercased,
/// in its category; the genus category takes both the genus and the generic name.
pub open spec fn butterfly_added(b: BlacklistModel, row: TaxonTSVRaw) -> BlacklistModel {
    BlacklistModel {
        families: add_lowered(b.families, row.dwc_family@),
        subfamilies: add_lowered(b.subfamilies, row.dwc_subfamily@),
        tribes: add_lowered(b.tribes, row.dwc_tribe@),
        subtribes: add_lowered(b.subtribes, row.dwc_subtribe@),
        genera: add_lowered(add_lowered(b.genera, row.dwc_genus@), row.dwc_generic_name@),
        epithets: add_lowered(b.epithets, row.dwc_specific_epithet@),
    }
}

/// One fragment against one category: where its lowercase form is blacklisted,
/// it leaves the blacklist and its original spelling joins the collisions.
pub open spec fn collide_set(bl: Set<Seq<char>>, coll: Set<Seq<char>>, field: Option<Seq<char>>) -> (
    Set<Seq<char>>,
    Set<Seq<char>>,
) {
    match field {
        Some(v) => if bl.contains(lower_of(v)) {
            (bl.remove(lower_of(v)), coll.insert(v))
        } else {
            (bl, coll)
        },
        None => (bl, coll),
    }
}

/// Blacklist and collisions after checking every category of one moth.
pub open spec fn moth_collisions(bl: BlacklistModel, coll: BlacklistModel, c: ClassificationModel) -> (
    BlacklistModel,
    BlacklistModel,
) {
    let f = collide_set(bl.families, coll.families, c.family);
    let sf = collide_set(bl.subfamilies, coll.subfamilies, c.subfamily);
    let t = collide_set(bl.tribes, coll.tribes, c.tribe);
    let st = collide_set(bl.subtribes, coll.subtribes, c.subtribe);
    let g = collide_set(bl.genera, coll.genera, Some(c.genus));
    let e = collide_set(bl.epithets, coll.epithets, Some(c.epithet));
    (
        BlacklistModel {
            families: f.0,
            subfamilies: sf.0,
            tribes: t.0,
            subtribes: st.0,
            genera: g.0,
            epithets: e.0,
        },
        BlacklistModel {
            families: f.1,
            subfamilies: sf.1,
            tribes: t.1,
            subtribes: st.1,
            genera: g.1,
            epithets: e.1,
        },
    )
}

/// Blacklist and collisions after checking the moths in order.
pub open spec fn all_collisions(
    bl: BlacklistModel,
    coll: BlacklistModel,
    moths: Seq<ClassificationModel>,
) -> (BlacklistModel, BlacklistModel)
    decreases moths.len(),
{
    if moths.len() == 0 {
        (bl, coll)
    } else {
        let prev = all_collisions(bl, coll, moths.drop_last());
        moth_collisions(prev.0, prev.1, moths.last())
    }
}

impl ButterflyBlacklist {
    pub open spec fn wf(&self) -> bool {
        &&& self.families.wf()
        &&& self.subfamilies.wf()
        &&& self.tribes.wf()
        &&& self.subtribes.wf()
        &&& self.genera.wf()
        &&& self.epithets.wf()
    }

    pub fn new() -> (r: ButterflyBlacklist)
        ensures
            r.wf(),
            r@ == empty_blacklist(),
    {
        ButterflyBlacklist {
            families: StringSet::new(),
            subfamilies: StringSet::new(),
            tribes: StringSet::new(),
            subtribes: StringSet::new(),
            genera: StringSet::new(),
            epithets: StringSet::new(),
        }
    }

    /// Records the ladder of a butterfly row.
    pub fn add_butterfly_row(&mut self, row: &TaxonTSVRaw)
        requires
            old(self).wf(),
        ensures
            final(self).wf(),
            final(self)@ == butterfly_added(old(self)@, *row),
    {
        add_lowered_field(&mut self.families, &row.dwc_family);
        add_lowered_field(&mut self.subfamilies, &row.dwc_subfamily);
        add_lowered_field(&mut self.tribes, &row.dwc_tribe);
        add_lowered_field(&mut self.subtribes, &row.dwc_subtribe);
        add_lowered_field(&mut self.genera, &row.dwc_genus);
        add_lowered_field(&mut self.genera, &row.dwc_generic_name);
        add_lowered_field(&mut self.epithets, &row.dwc_specific_epithet);
    }

    /// Checks every ladder category of one moth against the blacklist, moving
    /// each collision into `collisions`.
    pub fn resolve_moth_collisions(
        &mut self,
        collisions: &mut ButterflyBlacklist,
        c: &ScientificClassification,
    )
        requires
            old(self).wf(),
            old(collisions).wf(),
        ensures
            final(self).wf(),
            final(collisions).wf(),
            (final(self)@, final(collisions)@) == moth_collisions(old(self)@, old(collisions)@, c@),
    {
        resolve_optional(&mut self.families, &mut collisions.families, &c.family);
        resolve_optional(&mut self.subfamilies, &mut collisions.subfamilies, &c.subfamily);
        resolve_optional(&mut self.tribes, &mut collisions.tribes, &c.tribe);
        resolve_optional(&mut self.subtribes, &mut collisions.subtribes, &c.subtribe);
        let lowered_genus = lowercase_fragment(&c.genus);
        resolve_fragment(&mut self.genera, &mut collisions.genera, &c.genus, &lowered_genus);
        let lowered_epithet = lowercase_fragment(&c.epithet);
        resolve_fragment(&mut self.epithets, &mut collisions.epithets, &c.epithet, &lowered_epithet);
    }
}

fn add_lowered_field(s: &mut StringSet, field: &String)
    requires
        old(s).wf(),
    ensures
        final(s).wf(),
        final(s)@ == add_lowered(old(s)@, field@),
{
    if is_present(field) {
        s.insert(lowercase_fragment(field));
    }
}

/// One fragment against one category, given its lowercase form: where the
/// blacklist holds `lowered`, it is removed there and `original` is recorded
/// as a collision. Tells whether it collided.
pub fn resolve_fragment(
    blacklist: &mut StringSet,
    collisions: &mut StringSet,
    original: &String,
    lowered: &String,
) -> (r: bool)
    requires
        old(blacklist).wf(),
        old(collisions).wf(),
    ensures
        final(blacklist).wf(),
        final(collisions).wf(),
        r == old(blacklist)@.contains(lowered@),
        final(blacklist)@ == if r {
            old(blacklist)@.remove(lowered@)
        } else {
            old(blacklist)@
        },
        final(collisions)@ == if r {
            old(collisions)@.insert(original@)
        } else {
            old(collisions)@
        },
{
    if blacklist.remove(lowered) {
        collisions.insert(original.clone());
        true
    } else {
        assert(final(blacklist)@ =~= old(blacklist)@);
        false
    }
}

fn resolve_optional(blacklist: &mut StringSet, collisions: &mut StringSet, field: &Option<String>)
    requires
        old(blacklist).wf(),
        old(collisions).wf(),
    ensures
        final(blacklist).wf(),
        final(collisions).wf(),
        (final(blacklist)@, final(collisions)@) == collide_set(
            old(blacklist)@,
            old(collisions)@,
            crate::text::text_view(*field),
        ),
{
    if let Some(v) = field {
        let lowered = lowercase_fragment(v);
        resolve_fragment(blacklist, collisions, v, &lowered);
    }
}

} // verus!
