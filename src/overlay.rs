//! The loaded marker data: the category arena, its top-level categories, and
//! the markers and trails, with the pass that binds each marker to the
//! category its dotted type names.

use vstd::prelude::*;

use crate::poi::{distinct_keys, drop_key, lookup_below, map_id_of, CategoryChild, MarkerCategory, POI};
use crate::text::{split_at_first, split_first};
use crate::trail::Trail;

verus! {

/// Resolution settles a marker once: resolving it again changes nothing.
pub proof fn lemma_resolution_is_stable(nodes: Seq<MarkerCategory>, roots: Seq<usize>, poi: POI)
    ensures
        resolved(nodes, roots, resolved(nodes, roots, poi)) == resolved(nodes, roots, poi),
{
}

/// The markers and trails of the loaded data.
pub struct POIs {
    pub poi_list: Vec<POI>,
    pub trail_list: Vec<Trail>,
}

/// All loaded marker data. `categories` is the arena that every category link
/// indexes; `marker_category` lists the top-level categories in the order in
/// which they were declared.
pub struct OverlayData {
    pub categories: Vec<MarkerCategory>,
    pub marker_category: Vec<usize>,
    pub pois: POIs,
}

/// The category that the top-level category `r` gives for the dotted `path`:
/// `r` itself where its name is the whole path; where its name is the first
/// segment, the lookup of the rest below it.
pub open spec fn resolve_in_root(nodes: Seq<MarkerCategory>, r: usize, path: Seq<char>) -> Option<
    usize,
> {
    if r < nodes.len() {
        let (first, rest) = split_first(path, '.');
        if nodes[r as int].name@ == path {
            Some(r)
        } else if nodes[r as int].name@ == first {
            lookup_below(nodes, nodes[r as int].children@, rest)
        } else {
            None
        }
    } else {
        None
    }
}

/// The category that `path` names: the result of the first top-level category,
/// in declaration order, that gives one.
pub open spec fn resolve(nodes: Seq<MarkerCategory>, roots: Seq<usize>, path: Seq<char>) -> Option<
    usize,
>
    decreases roots.len(),
{
    if roots.len() == 0 {
        None
    } else {
        match resolve_in_root(nodes, roots[0], path) {
            Some(c) => Some(c),
            None => resolve(nodes, roots.drop_first(), path),
        }
    }
}

/// The marker after resolution: bound to the category its type names where
/// there is one, else as it was.
pub open spec fn resolved(nodes: Seq<MarkerCategory>, roots: Seq<usize>, poi: POI) -> POI {
    match poi.poi_type {
        Some(t) => match resolve(nodes, roots, t@) {
            Some(c) => POI { parent: Some(c), ..poi },
            None => poi,
        },
        None => poi,
    }
}

/// The trail after resolution.
pub open spec fn resolved_trail(nodes: Seq<MarkerCategory>, roots: Seq<usize>, t: Trail) -> Trail {
    Trail { poi: resolved(nodes, roots, t.poi), ..t }
}

impl POIs {
    pub fn new() -> (r: POIs)
        ensures
            r.poi_list@.len() == 0,
            r.trail_list@.len() == 0,
    {
        POIs { poi_list: Vec::new(), trail_list: Vec::new() }
    }
}

impl OverlayData {
    /// Empty marker data.
    pub fn new() -> (r: OverlayData)
        ensures
            r.categories@.len() == 0,
            r.marker_category@.len() == 0,
            r.pois.poi_list@.len() == 0,
            r.pois.trail_list@.len() == 0,
    {
        OverlayData { categories: Vec::new(), marker_category: Vec::new(), pois: POIs::new() }
    }

    /// Adds a category to the arena and returns its index.
    pub fn add_category(&mut self, category: MarkerCategory) -> (r: usize)
        ensures
            final(self).categories@ == old(self).categories@.push(category),
            r == old(self).categories@.len(),
            final(self).marker_category == old(self).marker_category,
            final(self).pois == old(self).pois,
    {
        let r = self.categories.len();
        self.categories.push(category);
        r
    }

    /// Declares the category at arena index `node` as the next top-level one.
    pub fn add_root(&mut self, node: usize)
        ensures
            final(self).marker_category@ == old(self).marker_category@.push(node),
            final(self).categories == old(self).categories,
            final(self).pois == old(self).pois,
    {
        self.marker_category.push(node);
    }

    /// Files the category at `child` under `key` among the children of the
    /// category at `parent`, in place of any child with that key. Where either
    /// index is outside the arena nothing changes and the result is false.
    pub fn link_child(&mut self, parent: usize, key: String, child: usize) -> (r: bool)
        ensures
            r == (parent < old(self).categories@.len() && child < old(self).categories@.len()),
            final(self).categories@.len() == old(self).categories@.len(),
            forall|i: int|
                0 <= i < old(self).categories@.len() && (!r || i != parent) ==> final(self).categories@[i] == old(self).categories@[i],
            r ==> final(self).categories@[parent as int].children@ == seq![
                CategoryChild { key, node: child },
            ] + drop_key(old(self).categories@[parent as int].children@, key@),
            r ==> final(self).categories@[parent as int].name == old(self).categories@[parent as int].name,
            r ==> final(self).categories@[parent as int].data == old(self).categories@[parent as int].data,
            r && distinct_keys(old(self).categories@[parent as int].children@) ==> distinct_keys(
                final(self).categories@[parent as int].children@,
            ),
            final(self).marker_category == old(self).marker_category,
            final(self).pois == old(self).pois,
    {
        if parent < self.categories.len() && child < self.categories.len() {
            self.categories[parent].insert_child(key, child);
            true
        } else {
            false
        }
    }

    /// The category that `path` names, as `resolve` describes.
    pub fn find_category(&self, path: &str) -> (r: Option<usize>)
        ensures
            r == resolve(self.categories@, self.marker_category@, path@),
    {
        let nodes = &self.categories;
        let roots = &self.marker_category;
        let (first, rest) = split_at_first(path, '.');
        let whole = path.to_owned();
        let first = first.to_owned();
        let mut k: usize = 0;
        assert(roots@.skip(0) =~= roots@);
        while k < roots.len()
            invariant
                k <= roots@.len(),
                nodes@ == self.categories@,
                roots@ == self.marker_category@,
                (first@, rest@) == split_first(path@, '.'),
                whole@ == path@,
                resolve(nodes@, roots@, path@) == resolve(nodes@, roots@.skip(k as int), path@),
            decreases roots@.len() - k,
        {
            let r = roots[k];
            let ghost tail = roots@.skip(k as int);
            assert(tail.len() > 0 && tail[0] == r);
            assert(roots@.skip(k as int).drop_first() =~= roots@.skip(k + 1));
            if r < nodes.len() {
                if nodes[r].name == whole {
                    assert(resolve(nodes@, tail, path@) == Some(r));
                    return Some(r);
                } else if nodes[r].name == first {
                    let found = nodes[r].get_category_children(nodes, rest);
                    assert(resolve_in_root(nodes@, r, path@) == found);
                    if found.is_some() {
                        assert(resolve(nodes@, tail, path@) == found);
                        return found;
                    }
                }
            }
            k = k + 1;
        }
        assert(roots@.skip(k as int).len() == 0);
        None
    }

    /// Binds every marker and every trail whose type names a category to that
    /// category. The others keep the parent link they had.
    pub fn fill_poi_parents(&mut self)
        ensures
            final(self).categories@ == old(self).categories@,
            final(self).marker_category@ == old(self).marker_category@,
            final(self).pois.poi_list@.len() == old(self).pois.poi_list@.len(),
            final(self).pois.trail_list@.len() == old(self).pois.trail_list@.len(),
            forall|j: int|
                0 <= j < old(self).pois.poi_list@.len() ==> final(self).pois.poi_list@[j]
                    == resolved(
                    old(self).categories@,
                    old(self).marker_category@,
                    old(self).pois.poi_list@[j],
                ),
            forall|j: int|
                0 <= j < old(self).pois.trail_list@.len() ==> final(self).pois.trail_list@[j]
                    == resolved_trail(
                    old(self).categories@,
                    old(self).marker_category@,
                    old(self).pois.trail_list@[j],
                ),
    {
        let ghost nodes = self.categories@;
        let ghost roots = self.marker_category@;
        let ghost pois = self.pois.poi_list@;
        let ghost trails = self.pois.trail_list@;
        let mut j: usize = 0;
        while j < self.pois.poi_list.len()
            invariant
                self.categories@ == nodes,
                self.marker_category@ == roots,
                self.pois.trail_list@ == trails,
                self.pois.poi_list@.len() == pois.len(),
                j <= pois.len(),
                forall|i: int| 0 <= i < j ==> self.pois.poi_list@[i] == resolved(nodes, roots, pois[i]),
                forall|i: int| j <= i < pois.len() ==> self.pois.poi_list@[i] == pois[i],
            decreases pois.len() - j,
        {
            let found = match &self.pois.poi_list[j].poi_type {
                Some(t) => self.find_category(t.as_str()),
                None => None,
            };
            if let Some(c) = found {
                self.pois.poi_list[j].parent = Some(c);
            }
            j = j + 1;
        }
        let mut j: usize = 0;
        while j < self.pois.trail_list.len()
            invariant
                self.categories@ == nodes,
                self.marker_category@ == roots,
                self.pois.poi_list@.len() == pois.len(),
                forall|i: int| 0 <= i < pois.len() ==> self.pois.poi_list@[i] == resolved(nodes, roots, pois[i]),
                self.pois.trail_list@.len() == trails.len(),
                j <= trails.len(),
                forall|i: int| 0 <= i < j ==> self.pois.trail_list@[i] == resolved_trail(nodes, roots, trails[i]),
                forall|i: int| j <= i < trails.len() ==> self.pois.trail_list@[i] == trails[i],
            decreases trails.len() - j,
        {
            let found = match &self.pois.trail_list[j].poi.poi_type {
                Some(t) => self.find_category(t.as_str()),
                None => None,
            };
            if let Some(c) = found {
                self.pois.trail_list[j].poi.parent = Some(c);
            }
            j = j + 1;
        }
    }

    /// The indices, in order, of the markers whose map id, their own or
    /// inherited, is `map_id`; a marker with none counts as on map 0.
    pub fn markers_on_map(&self, map_id: u32) -> (r: Vec<usize>)
        ensures
            r@ == on_map(self.categories@, self.pois.poi_list@, map_id),
    {
        let mut out: Vec<usize> = Vec::new();
        let mut j: usize = 0;
        while j < self.pois.poi_list.len()
            invariant
                j <= self.pois.poi_list@.len(),
                out@ == on_map(self.categories@, self.pois.poi_list@.take(j as int), map_id),
            decreases self.pois.poi_list@.len() - j,
        {
            let ghost prefix = self.pois.poi_list@.take(j + 1);
            assert(prefix.drop_last() =~= self.pois.poi_list@.take(j as int));
            let m = self.pois.poi_list[j].get_map_id(&self.categories);
            let shown = match m {
                Some(v) => v,
                None => 0,
            };
            if shown == map_id {
                out.push(j);
            }
            j = j + 1;
        }
        assert(self.pois.poi_list@.take(j as int) =~= self.pois.poi_list@);
        out
    }

    /// The indices, in order, of the trails whose map id, their own or
    /// inherited, is `map_id`; a trail with none counts as on map 0.
    pub fn trails_on_map(&self, map_id: u32) -> (r: Vec<usize>)
        ensures
            r@ == on_map(self.categories@, trail_markers(self.pois.trail_list@), map_id),
    {
        let mut out: Vec<usize> = Vec::new();
        let mut j: usize = 0;
        while j < self.pois.trail_list.len()
            invariant
                j <= self.pois.trail_list@.len(),
                out@ == on_map(self.categories@, trail_markers(self.pois.trail_list@).take(j as int), map_id),
            decreases self.pois.trail_list@.len() - j,
        {
            let ghost prefix = trail_markers(self.pois.trail_list@).take(j + 1);
            assert(prefix.drop_last() =~= trail_markers(self.pois.trail_list@).take(j as int));
            let m = self.pois.trail_list[j].poi.get_map_id(&self.categories);
            let shown = match m {
                Some(v) => v,
                None => 0,
            };
            if shown == map_id {
                out.push(j);
            }
            j = j + 1;
        }
        assert(trail_markers(self.pois.trail_list@).take(j as int) =~= trail_markers(self.pois.trail_list@));
        out
    }
}

/// The map id that a marker is shown on: its own or inherited one, else 0.
pub open spec fn shown_map(nodes: Seq<MarkerCategory>, poi: POI) -> u32 {
    match map_id_of(nodes, poi) {
        Some(v) => v,
        None => 0,
    }
}

/// The indices of the markers of `pois` shown on map `map_id`, in order.
pub open spec fn on_map(nodes: Seq<MarkerCategory>, pois: Seq<POI>, map_id: u32) -> Seq<usize>
    decreases pois.len(),
{
    if pois.len() == 0 {
        seq![]
    } else {
        let rest = on_map(nodes, pois.drop_last(), map_id);
        if shown_map(nodes, pois.last()) == map_id {
            rest.push((pois.len() - 1) as usize)
        } else {
            rest
        }
    }
}

/// The markers of a list of trails.
pub open spec fn trail_markers(trails: Seq<Trail>) -> Seq<POI> {
    trails.map_values(|t: Trail| t.poi)
}

/// The map the display is on, to tell when it changes.
pub struct CurrentLevel(pub u32);

impl CurrentLevel {
    /// Records the map of the latest record: the new map id where it differs
    /// from the one held, else `None`.
    pub fn update(&mut self, map_id: u32) -> (r: Option<u32>)
        ensures
            final(self).0 == map_id,
            r == (if old(self).0 == map_id {
                None::<u32>
            } else {
                Some(map_id)
            }),
    {
        if self.0 != map_id {
            self.0 = map_id;
            Some(map_id)
        } else {
            None
        }
    }
}

} // verus!
