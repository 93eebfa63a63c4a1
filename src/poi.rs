//! Points of interest, marker categories and the inheritance of display
//! attributes along parent links.
//!
//! Categories live in one arena (a `Vec<MarkerCategory>`) and refer to each
//! other by index. A walk over the links visits at most as many categories as
//! the arena holds: it ends on a cyclic chain, and follows every chain and
//! tree without cycles to its end, whatever the order of the arena.
//!
//! Floating-point attributes are held as their IEEE-754 bit patterns.

use vstd::prelude::*;

use crate::text::{split_at_first, split_first};

verus! {

/// How a marker behaves once it has been triggered.
#[derive(Clone, Copy, Debug, PartialEq, Eq, Structural)]
pub enum PoiBehavior {
    Default,
    ReappearOnMapChange,
    ReappearOnDailyReset,
    OnlyVisibleBeforeActivation,
    ReappearAfterTimer,
    ReappearOnMapReset,
    OncePerInstance,
    OnceDailyPerCharacter,
    ActionOnCombat,
}

/// The numeric code of each behavior in marker files.
pub open spec fn behavior_code(b: PoiBehavior) -> u32 {
    match b {
        PoiBehavior::Default => 0,
        PoiBehavior::ReappearOnMapChange => 1,
        PoiBehavior::ReappearOnDailyReset => 2,
        PoiBehavior::OnlyVisibleBeforeActivation => 3,
        PoiBehavior::ReappearAfterTimer => 4,
        PoiBehavior::ReappearOnMapReset => 5,
        PoiBehavior::OncePerInstance => 6,
        PoiBehavior::OnceDailyPerCharacter => 7,
        PoiBehavior::ActionOnCombat => 23732,
    }
}

impl PoiBehavior {
    pub fn code(&self) -> (r: u32)
        ensures
            r == behavior_code(*self),
    {
        match self {
            PoiBehavior::Default => 0,
            PoiBehavior::ReappearOnMapChange => 1,
            PoiBehavior::ReappearOnDailyReset => 2,
            PoiBehavior::OnlyVisibleBeforeActivation => 3,
            PoiBehavior::ReappearAfterTimer => 4,
            PoiBehavior::ReappearOnMapReset => 5,
            PoiBehavior::OncePerInstance => 6,
            PoiBehavior::OnceDailyPerCharacter => 7,
            PoiBehavior::ActionOnCombat => 23732,
        }
    }

    /// The behavior with the given code, if there is one.
    pub fn from_code(c: u32) -> (r: Option<PoiBehavior>)
        ensures
            match r {
                Some(b) => behavior_code(b) == c,
                None => forall|b: PoiBehavior| behavior_code(b) != c,
            },
    {
        if c == 0 {
            Some(PoiBehavior::Default)
        } else if c == 1 {
            Some(PoiBehavior::ReappearOnMapChange)
        } else if c == 2 {
            Some(PoiBehavior::ReappearOnDailyReset)
        } else if c == 3 {
            Some(PoiBehavior::OnlyVisibleBeforeActivation)
        } else if c == 4 {
            Some(PoiBehavior::ReappearAfterTimer)
        } else if c == 5 {
            Some(PoiBehavior::ReappearOnMapReset)
        } else if c == 6 {
            Some(PoiBehavior::OncePerInstance)
        } else if c == 7 {
            Some(PoiBehavior::OnceDailyPerCharacter)
        } else if c == 23732 {
            Some(PoiBehavior::ActionOnCombat)
        } else {
            None
        }
    }
}

impl Default for PoiBehavior {
    fn default() -> (r: PoiBehavior)
        ensures
            r == PoiBehavior::Default,
    {
        PoiBehavior::Default
    }
}

/// A position in map coordinates; each coordinate is the bit pattern of an `f32`.
#[derive(Clone, Copy, Debug, PartialEq, Eq, Structural)]
pub struct Position {
    pub xpos: u32,
    pub ypos: u32,
    pub zpos: u32,
}

/// The display attributes that a marker may hold itself or inherit.
/// `None` means "take it from the parent".
#[derive(Clone, Debug)]
pub struct InheritablePOIData {
    pub map_id: Option<u32>,
    pub icon_file: Option<String>,
    pub guid: Option<String>,
    pub icon_size: Option<u32>,
    pub alpha: Option<u32>,
    pub behavior: Option<PoiBehavior>,
    pub fade_near: Option<u32>,
    pub fade_far: Option<u32>,
    pub height_offset: Option<u32>,
    pub reset_length: Option<u32>,
    pub display_name: Option<String>,
    pub color: Option<String>,
    pub auto_trigger: Option<bool>,
    pub has_countdown: Option<bool>,
    pub trigger_range: Option<u32>,
    pub achievement_id: Option<i32>,
    pub achievement_bit: Option<i32>,
    pub info: Option<String>,
    pub info_range: Option<u32>,
    pub is_poi: Option<bool>,
}

/// Every attribute is absent.
pub open spec fn all_absent(d: InheritablePOIData) -> bool {
    &&& d.map_id is None
    &&& d.icon_file is None
    &&& d.guid is None
    &&& d.icon_size is None
    &&& d.alpha is None
    &&& d.behavior is None
    &&& d.fade_near is None
    &&& d.fade_far is None
    &&& d.height_offset is None
    &&& d.reset_length is None
    &&& d.display_name is None
    &&& d.color is None
    &&& d.auto_trigger is None
    &&& d.has_countdown is None
    &&& d.trigger_range is None
    &&& d.achievement_id is None
    &&& d.achievement_bit is None
    &&& d.info is None
    &&& d.info_range is None
    &&& d.is_poi is None
}

impl InheritablePOIData {
    pub open spec fn new_spec() -> InheritablePOIData {
        InheritablePOIData {
            map_id: None,
            icon_file: None,
            guid: None,
            icon_size: None,
            alpha: None,
            behavior: None,
            fade_near: None,
            fade_far: None,
            height_offset: None,
            reset_length: None,
            display_name: None,
            color: None,
            auto_trigger: None,
            has_countdown: None,
            trigger_range: None,
            achievement_id: None,
            achievement_bit: None,
            info: None,
            info_range: None,
            is_poi: None,
        }
    }

    pub fn new() -> (r: InheritablePOIData)
        ensures
            r == InheritablePOIData::new_spec(),
            all_absent(r),
    {
        InheritablePOIData {
            map_id: None,
            icon_file: None,
            guid: None,
            icon_size: None,
            alpha: None,
            behavior: None,
            fade_near: None,
            fade_far: None,
            height_offset: None,
            reset_length: None,
            display_name: None,
            color: None,
            auto_trigger: None,
            has_countdown: None,
            trigger_range: None,
            achievement_id: None,
            achievement_bit: None,
            info: None,
            info_range: None,
            is_poi: None,
        }
    }
}

impl Default for InheritablePOIData {
    fn default() -> (r: InheritablePOIData)
        ensures
            all_absent(r),
    {
        InheritablePOIData::new()
    }
}

/// A point of interest. `parent` is the arena index of the category that the
/// marker inherits from; resolution assigns it.
#[derive(Clone, Debug)]
pub struct POI {
    pub poi_type: Option<String>,
    pub pos: Position,
    pub data: InheritablePOIData,
    pub parent: Option<usize>,
    pub enabled: bool,
}

/// A named child entry of a category: the key it is filed under and the
/// arena index of the child.
#[derive(Clone, Debug)]
pub struct CategoryChild {
    pub key: String,
    pub node: usize,
}

/// A marker category: a name, its children and the attributes it hands down.
#[derive(Clone, Debug)]
pub struct MarkerCategory {
    pub name: String,
    pub children: Vec<CategoryChild>,
    pub data: POI,
}

/// The attributes that can be looked up through parent links.
#[derive(Clone, Copy, Debug, PartialEq, Eq, Structural)]
pub enum Attribute {
    MapId,
    IconFile,
    DisplayName,
    HeightOffset,
    FadeNear,
    FadeFar,
    Alpha,
    IconSize,
}

/// `d` holds a value of its own for `a`.
pub open spec fn holds(d: InheritablePOIData, a: Attribute) -> bool {
    match a {
        Attribute::MapId => d.map_id is Some,
        Attribute::IconFile => d.icon_file is Some,
        Attribute::DisplayName => d.display_name is Some,
        Attribute::HeightOffset => d.height_offset is Some,
        Attribute::FadeNear => d.fade_near is Some,
        Attribute::FadeFar => d.fade_far is Some,
        Attribute::Alpha => d.alpha is Some,
        Attribute::IconSize => d.icon_size is Some,
    }
}

pub fn holds_attribute(d: &InheritablePOIData, a: Attribute) -> (r: bool)
    ensures
        r == holds(*d, a),
{
    match a {
        Attribute::MapId => d.map_id.is_some(),
        Attribute::IconFile => d.icon_file.is_some(),
        Attribute::DisplayName => d.display_name.is_some(),
        Attribute::HeightOffset => d.height_offset.is_some(),
        Attribute::FadeNear => d.fade_near.is_some(),
        Attribute::FadeFar => d.fade_far.is_some(),
        Attribute::Alpha => d.alpha.is_some(),
        Attribute::IconSize => d.icon_size.is_some(),
    }
}

/// The nearest category, starting at arena index `i` and going up the parent
/// links, whose own data holds `a`, within `fuel` categories.
pub open spec fn supplier_at(nodes: Seq<MarkerCategory>, i: int, a: Attribute, fuel: nat) -> Option<
    int,
>
    decreases fuel,
{
    if fuel == 0 || !(0 <= i < nodes.len()) {
        None
    } else if holds(nodes[i].data.data, a) {
        Some(i)
    } else {
        match nodes[i].data.parent {
            Some(p) => supplier_at(nodes, p as int, a, (fuel - 1) as nat),
            None => None,
        }
    }
}

/// The category that supplies `a` to a marker whose parent link is `parent`.
/// The walk visits at most as many categories as the arena holds, so it goes
/// up every chain of parent links that has no cycle, to its end.
pub open spec fn supplier(nodes: Seq<MarkerCategory>, parent: Option<usize>, a: Attribute) -> Option<
    int,
> {
    match parent {
        Some(p) => supplier_at(nodes, p as int, a, nodes.len()),
        None => None,
    }
}

/// The chain of parent links from arena index `i` ends, at a category with no
/// parent or with a link out of the arena, within `n` hops. For a chain with no
/// cycle this holds with `n` one less than the number of categories.
pub open spec fn ends_within(nodes: Seq<MarkerCategory>, i: int, n: nat) -> bool
    decreases n,
{
    if 0 <= i < nodes.len() {
        match nodes[i].data.parent {
            Some(p) => if p < nodes.len() {
                n > 0 && ends_within(nodes, p as int, (n - 1) as nat)
            } else {
                true
            },
            None => true,
        }
    } else {
        true
    }
}

/// On a chain that ends within `n` hops, any walk with more than `n` steps
/// finds the same supplier.
pub proof fn lemma_supplier_fuel(
    nodes: Seq<MarkerCategory>,
    i: int,
    a: Attribute,
    n: nat,
    f1: nat,
    f2: nat,
)
    requires
        ends_within(nodes, i, n),
        f1 > n,
        f2 > n,
    ensures
        supplier_at(nodes, i, a, f1) == supplier_at(nodes, i, a, f2),
    decreases n,
{
    if 0 <= i < nodes.len() && !holds(nodes[i].data.data, a) {
        match nodes[i].data.parent {
            Some(p) => {
                if p < nodes.len() {
                    lemma_supplier_fuel(nodes, p as int, a, (n - 1) as nat, (f1 - 1) as nat, (
                    f2 - 1) as nat);
                } else {
                    assert(supplier_at(nodes, p as int, a, (f1 - 1) as nat) is None);
                    assert(supplier_at(nodes, p as int, a, (f2 - 1) as nat) is None);
                }
            },
            None => {},
        }
    }
}

/// Finds the category that supplies `a` to a marker whose parent link is `parent`.
pub fn find_supplier(nodes: &Vec<MarkerCategory>, parent: Option<usize>, a: Attribute) -> (r:
    Option<usize>)
    ensures
        match r {
            Some(j) => supplier(nodes@, parent, a) == Some(j as int) && j < nodes@.len(),
            None => supplier(nodes@, parent, a) is None,
        },
{
    let mut cur: usize = match parent {
        Some(p) => p,
        None => {
            return None;
        },
    };
    let mut fuel: usize = nodes.len();
    loop
        invariant
            supplier(nodes@, parent, a) == supplier_at(nodes@, cur as int, a, fuel as nat),
        decreases fuel,
    {
        if fuel == 0 || cur >= nodes.len() {
            return None;
        }
        if holds_attribute(&nodes[cur].data.data, a) {
            return Some(cur);
        }
        match nodes[cur].data.parent {
            Some(p) => {
                cur = p;
                fuel = fuel - 1;
            },
            None => {
                return None;
            },
        }
    }
}

/// The icon file that a marker shows: its own, else the one of the category
/// that supplies it.
pub open spec fn icon_file_of(nodes: Seq<MarkerCategory>, poi: POI) -> Option<String> {
    if poi.data.icon_file is Some {
        poi.data.icon_file
    } else {
        match supplier(nodes, poi.parent, Attribute::IconFile) {
            Some(j) => nodes[j].data.data.icon_file,
            None => None,
        }
    }
}

pub open spec fn map_id_of(nodes: Seq<MarkerCategory>, poi: POI) -> Option<u32> {
    if poi.data.map_id is Some {
        poi.data.map_id
    } else {
        match supplier(nodes, poi.parent, Attribute::MapId) {
            Some(j) => nodes[j].data.data.map_id,
            None => None,
        }
    }
}

pub open spec fn display_name_of(nodes: Seq<MarkerCategory>, poi: POI) -> Option<String> {
    if poi.data.display_name is Some {
        poi.data.display_name
    } else {
        match supplier(nodes, poi.parent, Attribute::DisplayName) {
            Some(j) => nodes[j].data.data.display_name,
            None => None,
        }
    }
}

pub open spec fn height_offset_of(nodes: Seq<MarkerCategory>, poi: POI) -> Option<u32> {
    if poi.data.height_offset is Some {
        poi.data.height_offset
    } else {
        match supplier(nodes, poi.parent, Attribute::HeightOffset) {
            Some(j) => nodes[j].data.data.height_offset,
            None => None,
        }
    }
}

pub open spec fn fade_near_of(nodes: Seq<MarkerCategory>, poi: POI) -> Option<u32> {
    if poi.data.fade_near is Some {
        poi.data.fade_near
    } else {
        match supplier(nodes, poi.parent, Attribute::FadeNear) {
            Some(j) => nodes[j].data.data.fade_near,
            None => None,
        }
    }
}

pub open spec fn fade_far_of(nodes: Seq<MarkerCategory>, poi: POI) -> Option<u32> {
    if poi.data.fade_far is Some {
        poi.data.fade_far
    } else {
        match supplier(nodes, poi.parent, Attribute::FadeFar) {
            Some(j) => nodes[j].data.data.fade_far,
            None => None,
        }
    }
}

pub open spec fn alpha_of(nodes: Seq<MarkerCategory>, poi: POI) -> Option<u32> {
    if poi.data.alpha is Some {
        poi.data.alpha
    } else {
        match supplier(nodes, poi.parent, Attribute::Alpha) {
            Some(j) => nodes[j].data.data.alpha,
            None => None,
        }
    }
}

pub open spec fn icon_size_of(nodes: Seq<MarkerCategory>, poi: POI) -> Option<u32> {
    if poi.data.icon_size is Some {
        poi.data.icon_size
    } else {
        match supplier(nodes, poi.parent, Attribute::IconSize) {
            Some(j) => nodes[j].data.data.icon_size,
            None => None,
        }
    }
}

fn clone_text(s: &Option<String>) -> (r: Option<String>)
    ensures
        r == *s,
{
    match s {
        Some(v) => Some(v.clone()),
        None => None,
    }
}

impl POI {
    /// A marker with no attributes of its own and the given parent link.
    pub open spec fn new_spec(parent: Option<usize>) -> POI {
        POI {
            poi_type: None,
            pos: Position { xpos: 0, ypos: 0, zpos: 0 },
            data: InheritablePOIData::new_spec(),
            parent,
            enabled: false,
        }
    }

    pub fn new(parent: Option<usize>) -> (r: POI)
        ensures
            r == POI::new_spec(parent),
            all_absent(r.data),
    {
        POI {
            poi_type: None,
            pos: Position { xpos: 0, ypos: 0, zpos: 0 },
            data: InheritablePOIData::new(),
            parent,
            enabled: false,
        }
    }

    pub fn set_icon_file(&mut self, data: Option<String>)
        ensures
            *final(self) == (POI { data: InheritablePOIData { icon_file: data, ..old(self).data }, ..*old(self) }),
    {
        self.data.icon_file = data;
    }

    pub fn set_map_id(&mut self, data: Option<u32>)
        ensures
            *final(self) == (POI { data: InheritablePOIData { map_id: data, ..old(self).data }, ..*old(self) }),
    {
        self.data.map_id = data;
    }

    pub fn set_display_name(&mut self, data: Option<String>)
        ensures
            *final(self) == (POI { data: InheritablePOIData { display_name: data, ..old(self).data }, ..*old(self) }),
    {
        self.data.display_name = data;
    }

    pub fn set_height_offset(&mut self, data: Option<u32>)
        ensures
            *final(self) == (POI { data: InheritablePOIData { height_offset: data, ..old(self).data }, ..*old(self) }),
    {
        self.data.height_offset = data;
    }

    pub fn set_fade_near(&mut self, data: Option<u32>)
        ensures
            *final(self) == (POI { data: InheritablePOIData { fade_near: data, ..old(self).data }, ..*old(self) }),
    {
        self.data.fade_near = data;
    }

    pub fn set_fade_far(&mut self, data: Option<u32>)
        ensures
            *final(self) == (POI { data: InheritablePOIData { fade_far: data, ..old(self).data }, ..*old(self) }),
    {
        self.data.fade_far = data;
    }

    pub fn set_alpha(&mut self, data: Option<u32>)
        ensures
            *final(self) == (POI { data: InheritablePOIData { alpha: data, ..old(self).data }, ..*old(self) }),
    {
        self.data.alpha = data;
    }

    pub fn set_icon_size(&mut self, data: Option<u32>)
        ensures
            *final(self) == (POI { data: InheritablePOIData { icon_size: data, ..old(self).data }, ..*old(self) }),
    {
        self.data.icon_size = data;
    }

    pub fn get_icon_file(&self, nodes: &Vec<MarkerCategory>) -> (r: Option<String>)
        ensures
            r == icon_file_of(nodes@, *self),
    {
        if self.data.icon_file.is_some() {
            return clone_text(&self.data.icon_file);
        }
        match find_supplier(nodes, self.parent, Attribute::IconFile) {
            Some(j) => clone_text(&nodes[j].data.data.icon_file),
            None => None,
        }
    }

    pub fn get_map_id(&self, nodes: &Vec<MarkerCategory>) -> (r: Option<u32>)
        ensures
            r == map_id_of(nodes@, *self),
    {
        if self.data.map_id.is_some() {
            return self.data.map_id;
        }
        match find_supplier(nodes, self.parent, Attribute::MapId) {
            Some(j) => nodes[j].data.data.map_id,
            None => None,
        }
    }

    pub fn get_display_name(&self, nodes: &Vec<MarkerCategory>) -> (r: Option<String>)
        ensures
            r == display_name_of(nodes@, *self),
    {
        if self.data.display_name.is_some() {
            return clone_text(&self.data.display_name);
        }
        match find_supplier(nodes, self.parent, Attribute::DisplayName) {
            Some(j) => clone_text(&nodes[j].data.data.display_name),
            None => None,
        }
    }

    pub fn get_height_offset(&self, nodes: &Vec<MarkerCategory>) -> (r: Option<u32>)
        ensures
            r == height_offset_of(nodes@, *self),
    {
        if self.data.height_offset.is_some() {
            return self.data.height_offset;
        }
        match find_supplier(nodes, self.parent, Attribute::HeightOffset) {
            Some(j) => nodes[j].data.data.height_offset,
            None => None,
        }
    }

    pub fn get_fade_near(&self, nodes: &Vec<MarkerCategory>) -> (r: Option<u32>)
        ensures
            r == fade_near_of(nodes@, *self),
    {
        if self.data.fade_near.is_some() {
            return self.data.fade_near;
        }
        match find_supplier(nodes, self.parent, Attribute::FadeNear) {
            Some(j) => nodes[j].data.data.fade_near,
            None => None,
        }
    }

    pub fn get_fade_far(&self, nodes: &Vec<MarkerCategory>) -> (r: Option<u32>)
        ensures
            r == fade_far_of(nodes@, *self),
    {
        if self.data.fade_far.is_some() {
            return self.data.fade_far;
        }
        match find_supplier(nodes, self.parent, Attribute::FadeFar) {
            Some(j) => nodes[j].data.data.fade_far,
            None => None,
        }
    }

    pub fn get_alpha(&self, nodes: &Vec<MarkerCategory>) -> (r: Option<u32>)
        ensures
            r == alpha_of(nodes@, *self),
    {
        if self.data.alpha.is_some() {
            return self.data.alpha;
        }
        match find_supplier(nodes, self.parent, Attribute::Alpha) {
            Some(j) => nodes[j].data.data.alpha,
            None => None,
        }
    }

    pub fn get_icon_size(&self, nodes: &Vec<MarkerCategory>) -> (r: Option<u32>)
        ensures
            r == icon_size_of(nodes@, *self),
    {
        if self.data.icon_size.is_some() {
            return self.data.icon_size;
        }
        match find_supplier(nodes, self.parent, Attribute::IconSize) {
            Some(j) => nodes[j].data.data.icon_size,
            None => None,
        }
    }
}

/// Access to the parent link through which a marker inherits.
pub trait PoiTrait: Sized {
    spec fn parent_link(&self) -> Option<usize>;

    /// The same value with its parent link replaced.
    spec fn with_parent(&self, parent: Option<usize>) -> Self;

    fn get_parent_category(&self) -> (r: Option<usize>)
        ensures
            r == self.parent_link(),
    ;

    fn set_parent(&mut self, parent: Option<usize>)
        ensures
            *final(self) == old(self).with_parent(parent),
            final(self).parent_link() == parent,
    ;

    fn get_parent(&self) -> (r: Option<usize>)
        ensures
            r == self.parent_link(),
    ;
}

impl PoiTrait for POI {
    open spec fn parent_link(&self) -> Option<usize> {
        self.parent
    }

    open spec fn with_parent(&self, parent: Option<usize>) -> POI {
        POI { parent, ..*self }
    }

    fn get_parent_category(&self) -> (r: Option<usize>) {
        self.parent
    }

    fn set_parent(&mut self, parent: Option<usize>) {
        self.parent = parent;
    }

    fn get_parent(&self) -> (r: Option<usize>) {
        self.parent
    }
}

impl PoiTrait for MarkerCategory {
    open spec fn parent_link(&self) -> Option<usize> {
        self.data.parent
    }

    open spec fn with_parent(&self, parent: Option<usize>) -> MarkerCategory {
        MarkerCategory { data: POI { parent, ..self.data }, ..*self }
    }

    fn get_parent_category(&self) -> (r: Option<usize>) {
        self.data.get_parent_category()
    }

    fn set_parent(&mut self, parent: Option<usize>) {
        self.data.set_parent(parent);
    }

    fn get_parent(&self) -> (r: Option<usize>) {
        self.data.get_parent()
    }
}

/// The node of the first entry of `cs` filed under `key`.
pub open spec fn first_child(cs: Seq<CategoryChild>, key: Seq<char>) -> Option<usize>
    decreases cs.len(),
{
    if cs.len() == 0 {
        None
    } else if cs[0].key@ == key {
        Some(cs[0].node)
    } else {
        first_child(cs.drop_first(), key)
    }
}

/// Follows a dotted `path` down from the children `cs`: the first segment names
/// a child; where the whole remaining path is that child's name the child is
/// the result, else the rest of the path is looked up below the child. At most
/// `fuel` categories are visited.
pub open spec fn lookup_from(
    nodes: Seq<MarkerCategory>,
    cs: Seq<CategoryChild>,
    fuel: nat,
    path: Seq<char>,
) -> Option<usize>
    decreases fuel,
{
    if fuel == 0 {
        None
    } else {
        let (head, rest) = split_first(path, '.');
        match first_child(cs, head) {
            Some(c) => if c < nodes.len() {
                if nodes[c as int].name@ == path {
                    Some(c)
                } else {
                    lookup_from(nodes, nodes[c as int].children@, (fuel - 1) as nat, rest)
                }
            } else {
                None
            },
            None => None,
        }
    }
}

/// Looks up a dotted path below the children `cs`. Every category of a tree
/// with no cycle is within reach: the walk may visit as many categories as the
/// arena holds.
pub open spec fn lookup_below(nodes: Seq<MarkerCategory>, cs: Seq<CategoryChild>, path: Seq<char>) -> Option<
    usize,
> {
    lookup_from(nodes, cs, nodes.len(), path)
}

/// `cs` without its entries filed under `key`, in order.
pub open spec fn drop_key(cs: Seq<CategoryChild>, key: Seq<char>) -> Seq<CategoryChild>
    decreases cs.len(),
{
    if cs.len() == 0 {
        seq![]
    } else if cs[0].key@ == key {
        drop_key(cs.drop_first(), key)
    } else {
        seq![cs[0]] + drop_key(cs.drop_first(), key)
    }
}

/// No two entries of `cs` are filed under the same key.
pub open spec fn distinct_keys(cs: Seq<CategoryChild>) -> bool {
    forall|i: int, j: int| 0 <= i < j < cs.len() ==> cs[i].key@ != cs[j].key@
}

/// Dropping the entries of one key keeps the others, in order, and leaves
/// every other key's lookup as it was.
pub proof fn lemma_drop_key(cs: Seq<CategoryChild>, key: Seq<char>)
    ensures
        forall|i: int| 0 <= i < drop_key(cs, key).len() ==> #[trigger] drop_key(cs, key)[i].key@ != key,
        forall|i: int|
            0 <= i < drop_key(cs, key).len() ==> exists|j: int|
                0 <= j < cs.len() && #[trigger] drop_key(cs, key)[i] == cs[j],
        distinct_keys(cs) ==> distinct_keys(drop_key(cs, key)),
        forall|k: Seq<char>| k != key ==> first_child(drop_key(cs, key), k) == first_child(cs, k),
    decreases cs.len(),
{
    if cs.len() > 0 {
        let t = cs.drop_first();
        lemma_drop_key(t, key);
        let r = drop_key(cs, key);
        let rt = drop_key(t, key);
        assert forall|i: int| 0 <= i < rt.len() implies exists|j: int|
            0 <= j < cs.len() && #[trigger] rt[i] == cs[j] by {
            let j = choose|j: int| 0 <= j < t.len() && rt[i] == t[j];
            assert(rt[i] == cs[j + 1]);
        }
        if cs[0].key@ != key {
            assert(r.drop_first() =~= rt);
            assert forall|i: int| 0 <= i < r.len() implies exists|j: int|
                0 <= j < cs.len() && #[trigger] r[i] == cs[j] by {
                if i == 0 {
                    assert(r[0] == cs[0]);
                } else {
                    assert(r[i] == rt[i - 1]);
                }
            }
            if distinct_keys(cs) {
                assert(distinct_keys(t)) by {
                    assert forall|x: int, y: int| 0 <= x < y < t.len() implies t[x].key@ != t[y].key@ by {
                        assert(t[x] == cs[x + 1] && t[y] == cs[y + 1]);
                    }
                }
                assert forall|x: int, y: int| 0 <= x < y < r.len() implies r[x].key@ != r[y].key@ by {
                    assert(r[y] == rt[y - 1]);
                    if x == 0 {
                        let jt = choose|jt: int| 0 <= jt < t.len() && rt[y - 1] == t[jt];
                        assert(t[jt] == cs[jt + 1]);
                    } else {
                        assert(r[x] == rt[x - 1]);
                    }
                }
            }
            assert forall|k: Seq<char>| k != key implies first_child(r, k) == first_child(cs, k) by {
                assert(r[0] == cs[0]);
                assert(first_child(rt, k) == first_child(t, k));
            }
        } else {
            assert(r == rt);
            assert forall|k: Seq<char>| k != key implies first_child(r, k) == first_child(cs, k) by {
                assert(first_child(rt, k) == first_child(t, k));
            }
            if distinct_keys(cs) {
                assert(distinct_keys(t)) by {
                    assert forall|x: int, y: int| 0 <= x < y < t.len() implies t[x].key@ != t[y].key@ by {
                        assert(t[x] == cs[x + 1] && t[y] == cs[y + 1]);
                    }
                }
            }
        }
    }
}

/// Finds the node of the first entry of `cs` filed under `key`.
pub fn find_child(cs: &Vec<CategoryChild>, key: &String) -> (r: Option<usize>)
    ensures
        r == first_child(cs@, key@),
{
    let mut k: usize = 0;
    assert(cs@.skip(0) =~= cs@);
    while k < cs.len()
        invariant
            k <= cs@.len(),
            first_child(cs@, key@) == first_child(cs@.skip(k as int), key@),
        decreases cs@.len() - k,
    {
        assert(cs@.skip(k as int)[0] == cs@[k as int]);
        if cs[k].key == *key {
            return Some(cs[k].node);
        }
        assert(cs@.skip(k as int).drop_first() =~= cs@.skip(k + 1));
        k = k + 1;
    }
    assert(cs@.skip(k as int).len() == 0);
    None
}

impl MarkerCategory {
    /// A category with an empty name, no children and no attributes.
    pub fn new() -> (r: MarkerCategory)
        ensures
            r.name@.len() == 0,
            r.children@.len() == 0,
            r.data == POI::new_spec(None),
            all_absent(r.data.data),
    {
        MarkerCategory { name: String::new(), children: Vec::new(), data: POI::new(None) }
    }

    /// Files the category at arena index `node` under `key`, in place of any
    /// entry with that key, as a map from keys to children would.
    pub fn insert_child(&mut self, key: String, node: usize)
        ensures
            final(self).children@ == seq![CategoryChild { key, node }] + drop_key(
                old(self).children@,
                key@,
            ),
            final(self).name == old(self).name,
            final(self).data == old(self).data,
            first_child(final(self).children@, key@) == Some(node),
            forall|k: Seq<char>|
                k != key@ ==> first_child(final(self).children@, k) == first_child(
                    old(self).children@,
                    k,
                ),
            distinct_keys(old(self).children@) ==> distinct_keys(final(self).children@),
    {
        let ghost old_children = self.children@;
        let mut kept: Vec<CategoryChild> = Vec::new();
        let mut i: usize = 0;
        assert(old_children.skip(0) =~= old_children);
        while i < self.children.len()
            invariant
                i <= old_children.len(),
                self.children@ == old_children,
                kept@ + drop_key(old_children.skip(i as int), key@) == drop_key(old_children, key@),
            decreases old_children.len() - i,
        {
            let ghost tail = old_children.skip(i as int);
            assert(tail[0] == old_children[i as int]);
            assert(tail.drop_first() =~= old_children.skip(i + 1));
            if self.children[i].key != key {
                let c = CategoryChild { key: self.children[i].key.clone(), node: self.children[i].node };
                kept.push(c);
                assert(kept@ + drop_key(old_children.skip(i + 1), key@) =~= drop_key(old_children, key@));
            }
            i = i + 1;
        }
        assert(old_children.skip(i as int) =~= seq![]);
        assert(kept@ =~= drop_key(old_children, key@));
        proof {
            lemma_drop_key(old_children, key@);
        }
        kept.insert(0, CategoryChild { key, node });
        self.children = kept;
        assert(self.children@.drop_first() =~= drop_key(old_children, key@));
        proof {
            let cs = self.children@;
            if distinct_keys(old_children) {
                assert forall|x: int, y: int| 0 <= x < y < cs.len() implies cs[x].key@ != cs[y].key@ by {
                    if x > 0 {
                        assert(cs[x] == drop_key(old_children, key@)[x - 1]);
                    }
                    assert(cs[y] == drop_key(old_children, key@)[y - 1]);
                }
            }
        }
    }

    /// Looks up a dotted path below this category, the category's own name
    /// already taken off the path. Only children are searched: the first
    /// segment must name one of them.
    pub fn get_category_children(&self, nodes: &Vec<MarkerCategory>, name: &str) -> (r: Option<
        usize,
    >)
        ensures
            r == lookup_below(nodes@, self.children@, name@),
    {
        let mut cs: &Vec<CategoryChild> = &self.children;
        let mut fuel: usize = nodes.len();
        let mut path: &str = name;
        loop
            invariant
                lookup_from(nodes@, cs@, fuel as nat, path@) == lookup_below(
                    nodes@,
                    self.children@,
                    name@,
                ),
            decreases fuel,
        {
            if fuel == 0 {
                return None;
            }
            let (head, rest) = split_at_first(path, '.');
            let key = head.to_owned();
            match find_child(cs, &key) {
                None => {
                    return None;
                },
                Some(c) => {
                    if c >= nodes.len() {
                        return None;
                    }
                    let whole = path.to_owned();
                    if nodes[c].name == whole {
                        return Some(c);
                    }
                    cs = &nodes[c].children;
                    fuel = fuel - 1;
                    path = rest;
                },
            }
        }
    }
}

/// Inheritance of the icon file. A marker with no icon file of its own, bound
/// to a category whose own icon file is `x`, shows `x`. Once the marker is
/// given an icon file `y` of its own, it shows `y`, and the category, which
/// the marker's setter does not touch, still holds `x`.
pub proof fn lemma_icon_file_inheritance(
    nodes: Seq<MarkerCategory>,
    poi: POI,
    p: usize,
    x: String,
    y: String,
)
    requires
        poi.data.icon_file is None,
        poi.parent == Some(p),
        p < nodes.len(),
        nodes[p as int].data.data.icon_file == Some(x),
    ensures
        icon_file_of(nodes, poi) == Some(x),
        icon_file_of(
            nodes,
            (POI { data: InheritablePOIData { icon_file: Some(y), ..poi.data }, ..poi }),
        ) == Some(y),
        icon_file_of(nodes, nodes[p as int].data) == Some(x),
{
}

/// A marker with no icon file of its own, bound to the category `p`, shows
/// the icon file that `p` shows itself, wherever the categories of `p`'s
/// chain of parent links stand in the arena, as long as the chain has no
/// cycle.
pub proof fn lemma_bound_marker_shows_parent_icon(nodes: Seq<MarkerCategory>, poi: POI, p: usize)
    requires
        poi.data.icon_file is None,
        poi.parent == Some(p),
        p < nodes.len(),
        ends_within(nodes, p as int, (nodes.len() - 1) as nat),
    ensures
        icon_file_of(nodes, poi) == icon_file_of(nodes, nodes[p as int].data),
{
    let cat = nodes[p as int].data;
    if cat.data.icon_file is None {
        match cat.parent {
            Some(q) => {
                if q < nodes.len() {
                    lemma_supplier_fuel(
                        nodes,
                        q as int,
                        Attribute::IconFile,
                        (nodes.len() - 2) as nat,
                        (nodes.len() - 1) as nat,
                        nodes.len(),
                    );
                } else {
                    assert(supplier_at(nodes, q as int, Attribute::IconFile, (nodes.len() - 1) as nat) is None);
                }
            },
            None => {},
        }
    }
}

} // verus!
