use gw2_overlay::overlay::{CurrentLevel, OverlayData};
use gw2_overlay::poi::{MarkerCategory, PoiBehavior, PoiTrait, Position, POI};
use gw2_overlay::trail::Trail;

fn category(name: &str) -> MarkerCategory {
    let mut c = MarkerCategory::new();
    c.name = name.to_string();
    c
}

fn named(name: &str, display_name: &str, icon_file: Option<&str>) -> MarkerCategory {
    let mut c = category(name);
    c.data.set_display_name(Some(display_name.to_string()));
    c.data.set_icon_file(icon_file.map(|s| s.to_string()));
    c
}

fn karka_poi() -> POI {
    let mut poi = POI::new(None);
    poi.poi_type = Some("collectible.LionArchKarka.Part1.Karka1".to_string());
    poi.pos = Position {
        xpos: (-300.387f32).to_bits(),
        ypos: 31.3539f32.to_bits(),
        zpos: 358.293f32.to_bits(),
    };
    poi.set_map_id(Some(50));
    poi.data.guid = Some("BJLO59XWN0u9lzYPrnH16w==".to_string());
    poi.set_fade_near(Some(3000f32.to_bits()));
    poi.set_fade_far(Some(4000f32.to_bits()));
    poi
}

#[test]
fn xml_test() {
    let mut overlay_data = OverlayData::new();
    let collectible = overlay_data.add_category(category("collectible"));
    let lion_arch = overlay_data.add_category(named("LionArchKarka", "Lion's Arch Exterminator", None));
    let part1 = overlay_data.add_category(named("Part1", "Part 1", None));
    let karka1 = overlay_data.add_category(named("Karka1", "Trail", Some(r"Data\Karkasymbol.png")));
    let start1 = overlay_data.add_category(named("Karkastart1", "Start", Some(r"Data\Karkahunt1.png")));
    let end1 = overlay_data.add_category(named("Karkaend1", "End", Some(r"Data\KarkasymbolEnd1.png")));
    assert!(overlay_data.link_child(collectible, "LionArchKarka".to_string(), lion_arch));
    assert!(overlay_data.link_child(lion_arch, "Part1".to_string(), part1));
    assert!(overlay_data.link_child(part1, "Karka1".to_string(), karka1));
    assert!(overlay_data.link_child(part1, "Karkastart1".to_string(), start1));
    assert!(overlay_data.link_child(part1, "Karkaend1".to_string(), end1));
    overlay_data.add_root(collectible);

    let mut trail = Trail::new("Data/Karkatrail2.trl".to_string(), "Data/Karkahunt.png".to_string());
    trail.poi.poi_type = Some("collectible.LionArchKarka.Part2.Karka2".to_string());
    trail.poi.data.guid = Some("gLZdqI4M2EoIO/zrw5KqPg==".to_string());
    trail.color = Some("F78181".to_string());
    trail.poi.set_alpha(Some(0.8f32.to_bits()));
    trail.poi.set_fade_near(Some(3000f32.to_bits()));
    trail.poi.set_fade_far(Some(4000f32.to_bits()));
    trail.anim_speed = 0f32.to_bits();

    let mut last = karka_poi();
    last.data.behavior = PoiBehavior::from_code(3);
    last.data.trigger_range = Some(5f32.to_bits());
    overlay_data.pois.poi_list.push(karka_poi());
    overlay_data.pois.trail_list.push(trail);
    overlay_data.pois.poi_list.push(karka_poi());
    overlay_data.pois.poi_list.push(last);

    overlay_data.fill_poi_parents();

    let parent_opt = overlay_data.pois.poi_list[0].get_parent();
    assert!(parent_opt.is_some());
    let parent = parent_opt.unwrap();
    assert_eq!(overlay_data.categories[parent].name, "Karka1");

    let poi = &overlay_data.pois.poi_list[0];
    let nodes = &overlay_data.categories;

    assert_eq!(poi.get_map_id(nodes).unwrap(), 50);
    assert_eq!(
        poi.poi_type.clone().unwrap(),
        "collectible.LionArchKarka.Part1.Karka1"
    );
    assert_eq!(poi.get_icon_file(nodes).unwrap(), r"Data\Karkasymbol.png");

    assert_eq!(overlay_data.pois.trail_list.len(), 1);
}

#[test]
fn fill_test() {
    let mut overlay_data = OverlayData::new();
    let category_index = overlay_data.add_category(MarkerCategory::new());
    let mut category2 = MarkerCategory::new();
    category2.data.set_parent(Some(category_index));
    let category2_index = overlay_data.add_category(category2);

    assert!(overlay_data.link_child(category_index, "category2".into(), category2_index));
    overlay_data.categories[category2_index].name = "category2".into();
    overlay_data.categories[category_index].name = "category".into();

    let mut poi = POI::new(Some(category2_index));
    poi.poi_type = Some("category.category2".into());

    overlay_data.add_root(category_index);
    overlay_data.pois.poi_list.push(poi);

    overlay_data.fill_poi_parents();

    let my_cat = &overlay_data.categories[overlay_data.marker_category[0]];
    assert_eq!(overlay_data.marker_category.len(), 1);
    assert_eq!(my_cat.name, "category");
    let child = my_cat
        .get_category_children(&overlay_data.categories, "category2")
        .unwrap();
    assert_eq!(overlay_data.categories[child].name, "category2");
}

#[test]
fn inherit_test() {
    let mut nodes: Vec<MarkerCategory> = Vec::new();
    let mut category = MarkerCategory::new();
    category.data = POI::new(None);
    category.data.set_icon_file(Some("test_file".into()));
    category.data.set_display_name(Some("parent_name".into()));
    let mut category2 = MarkerCategory::new();
    category.name = "category2".into();
    category2.name = "category2".into();
    nodes.push(category);
    category2.data.set_parent(Some(0));
    nodes.push(category2);

    let mut poi = POI::new(Some(1));

    assert!(poi.get_parent().is_some());
    let parent = &nodes[poi.get_parent().unwrap()];
    assert_eq!(parent.name, "category2");

    assert_eq!(parent.data.get_icon_file(&nodes).unwrap(), "test_file");

    assert_eq!(poi.get_icon_file(&nodes).unwrap(), "test_file");
    assert_eq!(poi.get_display_name(&nodes).unwrap(), "parent_name");

    poi.set_display_name(Some("child_name".into()));
    assert_eq!(poi.get_display_name(&nodes).unwrap(), "child_name");
}

fn abc_tree() -> OverlayData {
    let mut data = OverlayData::new();
    let a = data.add_category(category("A"));
    let b = data.add_category(category("B"));
    let c = data.add_category(category("C"));
    assert!(data.link_child(a, "B".into(), b));
    assert!(data.link_child(b, "C".into(), c));
    data.add_root(a);
    data
}

fn typed_poi(path: &str) -> POI {
    let mut poi = POI::new(None);
    poi.poi_type = Some(path.to_string());
    poi
}

#[test]
fn dotted_path_resolves_to_leaf() {
    let mut data = abc_tree();
    data.pois.poi_list.push(typed_poi("A.B.C"));
    data.pois.poi_list.push(typed_poi("A.B.X"));
    data.pois.poi_list.push(typed_poi("A.B"));
    data.pois.poi_list.push(typed_poi("A"));
    data.pois.poi_list.push(POI::new(None));
    data.fill_poi_parents();
    assert_eq!(data.pois.poi_list[0].parent, Some(2));
    assert_eq!(data.pois.poi_list[1].parent, None);
    assert_eq!(data.pois.poi_list[2].parent, Some(1));
    assert_eq!(data.pois.poi_list[3].parent, Some(0));
    assert_eq!(data.pois.poi_list[4].parent, None);
}

#[test]
fn unmatched_type_keeps_existing_parent() {
    let mut data = abc_tree();
    let mut poi = typed_poi("Z.B");
    poi.parent = Some(1);
    data.pois.poi_list.push(poi);
    data.fill_poi_parents();
    assert_eq!(data.pois.poi_list[0].parent, Some(1));
}

#[test]
fn trails_are_resolved_too() {
    let mut data = abc_tree();
    let mut trail = Trail::new("t.trl".into(), "t.png".into());
    trail.poi.poi_type = Some("A.B".into());
    data.pois.trail_list.push(trail);
    data.fill_poi_parents();
    assert_eq!(data.pois.trail_list[0].poi.parent, Some(1));
}

#[test]
fn first_declared_root_wins() {
    let mut data = OverlayData::new();
    let a1 = data.add_category(category("A"));
    let b1 = data.add_category(category("B"));
    let a2 = data.add_category(category("A"));
    let b2 = data.add_category(category("B"));
    assert!(data.link_child(a1, "B".into(), b1));
    assert!(data.link_child(a2, "B".into(), b2));
    data.add_root(a1);
    data.add_root(a2);
    data.pois.poi_list.push(typed_poi("A.B"));
    data.fill_poi_parents();
    assert_eq!(data.pois.poi_list[0].parent, Some(b1));
}

#[test]
fn later_root_used_when_earlier_lacks_path() {
    let mut data = OverlayData::new();
    let a1 = data.add_category(category("A"));
    let a2 = data.add_category(category("A"));
    let b2 = data.add_category(category("B"));
    assert!(data.link_child(a2, "B".into(), b2));
    data.add_root(a1);
    data.add_root(a2);
    data.pois.poi_list.push(typed_poi("A.B"));
    data.fill_poi_parents();
    assert_eq!(data.pois.poi_list[0].parent, Some(b2));
}

#[test]
fn lookup_descends_only_through_children() {
    let data = abc_tree();
    let root = &data.categories[0];
    assert_eq!(root.get_category_children(&data.categories, "B"), Some(1));
    assert_eq!(root.get_category_children(&data.categories, "B.C"), Some(2));
    assert_eq!(root.get_category_children(&data.categories, "C"), None);
    assert_eq!(root.get_category_children(&data.categories, ""), None);
}

#[test]
fn link_child_refuses_indices_outside_the_arena() {
    let mut data = OverlayData::new();
    let a = data.add_category(category("A"));
    assert!(!data.link_child(a, "X".into(), 7));
    assert!(!data.link_child(7, "X".into(), a));
    assert!(data.categories[a].children.is_empty());
}

#[test]
fn relinking_a_key_replaces_the_child() {
    let mut c = category("A");
    c.insert_child("B".into(), 1);
    c.insert_child("C".into(), 2);
    c.insert_child("B".into(), 3);
    assert_eq!(c.children.len(), 2);
    assert_eq!(c.children[0].key, "B");
    assert_eq!(c.children[0].node, 3);
    assert_eq!(c.children[1].key, "C");
}

#[test]
fn lookup_and_resolution_ignore_arena_order() {
    // C stored before B, B before A: the tree A -> B -> C has no cycle.
    let mut data = OverlayData::new();
    let c = data.add_category(category("C"));
    let b = data.add_category(category("B"));
    let a = data.add_category(category("A"));
    assert!(data.link_child(a, "B".into(), b));
    assert!(data.link_child(b, "C".into(), c));
    data.add_root(a);
    assert_eq!(data.categories[a].get_category_children(&data.categories, "B.C"), Some(c));
    data.pois.poi_list.push(typed_poi("A.B.C"));
    data.pois.poi_list.push(typed_poi("A.B.X"));
    data.fill_poi_parents();
    assert_eq!(data.pois.poi_list[0].parent, Some(c));
    assert_eq!(data.pois.poi_list[1].parent, None);
}

#[test]
fn parent_stored_later_is_followed() {
    let mut nodes = vec![category("child"), category("parent")];
    nodes[0].data.set_parent(Some(1));
    nodes[1].data.set_icon_file(Some("X".into()));
    assert_eq!(nodes[0].data.get_icon_file(&nodes), Some("X".to_string()));
    let poi = POI::new(Some(0));
    assert_eq!(poi.get_icon_file(&nodes), Some("X".to_string()));
}

#[test]
fn cyclic_parent_links_end() {
    let mut nodes = vec![category("A"), category("B")];
    nodes[0].data.set_parent(Some(1));
    nodes[1].data.set_parent(Some(0));
    let poi = POI::new(Some(0));
    assert_eq!(poi.get_map_id(&nodes), None);
    let mut c = category("A");
    c.insert_child("A".into(), 0);
    let cyclic = vec![c];
    assert_eq!(cyclic[0].get_category_children(&cyclic, "A.A.A"), None);
}

#[test]
fn own_value_shadows_parent_without_changing_it() {
    let mut nodes = vec![category("P")];
    nodes[0].data.set_icon_file(Some("X".into()));
    let mut poi = POI::new(Some(0));
    assert_eq!(poi.get_icon_file(&nodes), Some("X".to_string()));
    poi.set_icon_file(Some("Y".into()));
    assert_eq!(poi.get_icon_file(&nodes), Some("Y".to_string()));
    assert_eq!(nodes[0].data.get_icon_file(&nodes), Some("X".to_string()));
}

#[test]
fn attributes_inherit_through_the_chain() {
    let mut nodes = vec![category("G"), category("P")];
    nodes[0].data.set_alpha(Some(0.5f32.to_bits()));
    nodes[0].data.set_height_offset(Some(2f32.to_bits()));
    nodes[0].data.set_icon_size(Some(3f32.to_bits()));
    nodes[0].data.set_fade_far(Some(9f32.to_bits()));
    nodes[1].data.set_parent(Some(0));
    nodes[1].data.set_map_id(Some(15));
    nodes[1].data.set_fade_near(Some(1f32.to_bits()));
    let poi = POI::new(Some(1));
    assert_eq!(poi.get_map_id(&nodes), Some(15));
    assert_eq!(poi.get_alpha(&nodes), Some(0.5f32.to_bits()));
    assert_eq!(poi.get_height_offset(&nodes), Some(2f32.to_bits()));
    assert_eq!(poi.get_icon_size(&nodes), Some(3f32.to_bits()));
    assert_eq!(poi.get_fade_near(&nodes), Some(1f32.to_bits()));
    assert_eq!(poi.get_fade_far(&nodes), Some(9f32.to_bits()));
    assert_eq!(poi.get_display_name(&nodes), None);
    assert_eq!(POI::new(None).get_map_id(&nodes), None);
}

#[test]
fn dangling_parent_link_gives_nothing() {
    let nodes = vec![category("A")];
    let dangling = POI::new(Some(9));
    assert_eq!(dangling.get_map_id(&nodes), None);
}

#[test]
fn behavior_codes() {
    assert_eq!(PoiBehavior::from_code(3), Some(PoiBehavior::OnlyVisibleBeforeActivation));
    assert_eq!(PoiBehavior::from_code(23732), Some(PoiBehavior::ActionOnCombat));
    assert_eq!(PoiBehavior::from_code(8), None);
    assert_eq!(PoiBehavior::ReappearOnMapReset.code(), 5);
    assert_eq!(PoiBehavior::default(), PoiBehavior::Default);
}

#[test]
fn category_parent_trait_methods() {
    let mut c = MarkerCategory::new();
    assert_eq!(c.get_parent_category(), None);
    c.set_parent(Some(3));
    assert_eq!(c.get_parent(), Some(3));
    assert_eq!(c.data.parent, Some(3));
}

#[test]
fn markers_and_trails_on_map() {
    let mut data = abc_tree();
    data.categories[1].data.set_map_id(Some(15));
    let mut on_15 = typed_poi("A.B.C");
    on_15.parent = Some(1);
    let mut own_20 = POI::new(None);
    own_20.set_map_id(Some(20));
    data.pois.poi_list.push(own_20);
    data.pois.poi_list.push(on_15);
    data.pois.poi_list.push(POI::new(None));
    let mut trail = Trail::new("t.trl".into(), "t.png".into());
    trail.poi.set_map_id(Some(20));
    data.pois.trail_list.push(Trail::new("u.trl".into(), "u.png".into()));
    data.pois.trail_list.push(trail);
    assert_eq!(data.markers_on_map(20), vec![0]);
    assert_eq!(data.markers_on_map(15), vec![1]);
    assert_eq!(data.markers_on_map(0), vec![2]);
    assert_eq!(data.trails_on_map(20), vec![1]);
    assert_eq!(data.trails_on_map(0), vec![0]);
}

#[test]
fn map_change_is_reported_once() {
    let mut level = CurrentLevel(0);
    assert_eq!(level.update(0), None);
    assert_eq!(level.update(50), Some(50));
    assert_eq!(level.update(50), None);
    assert_eq!(level.0, 50);
}
