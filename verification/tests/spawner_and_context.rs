use dungeon_ui::di_context::{di_type_label, DiRegistry};
use dungeon_ui::template_spawner::{SpawnStep, TemplateSpawner};

fn sorted(mut v: Vec<u64>) -> Vec<u64> {
    v.sort();
    v
}

#[test]
fn first_update_instantiates_each_key_once() {
    let sp: TemplateSpawner<&str> = TemplateSpawner::new();
    let keys = vec![1u64, 2, 1];
    let plan = sp.plan(&keys);
    assert_eq!(
        plan.steps,
        vec![
            SpawnStep { key: 1, instantiate: true, previous: None },
            SpawnStep { key: 2, instantiate: true, previous: Some(1) },
            SpawnStep { key: 1, instantiate: false, previous: Some(2) },
        ]
    );
    assert!(plan.freed.is_empty());
}

#[test]
fn update_keeps_wanted_and_frees_the_rest() {
    let mut sp: TemplateSpawner<String> = TemplateSpawner::new();
    let removed = sp.update(&vec![1, 2, 3], vec!["a".to_string(), "b".to_string(), "c".to_string()]);
    assert!(removed.is_empty());
    assert_eq!(sorted(sp.keys()), vec![1, 2, 3]);
    assert_eq!(sp.get(2), Some(&"b".to_string()));

    let keys = vec![3u64, 4, 1];
    let plan = sp.plan(&keys);
    assert_eq!(
        plan.steps,
        vec![
            SpawnStep { key: 3, instantiate: false, previous: None },
            SpawnStep { key: 4, instantiate: true, previous: Some(3) },
            SpawnStep { key: 1, instantiate: false, previous: Some(4) },
        ]
    );
    assert_eq!(plan.freed, vec![2]);
    let removed = sp.update(&keys, vec!["d".to_string()]);
    assert_eq!(removed, vec![(2, "b".to_string())]);
    assert_eq!(sorted(sp.keys()), vec![1, 3, 4]);
    assert_eq!(sp.get(1), Some(&"a".to_string()));
    assert_eq!(sp.get(3), Some(&"c".to_string()));
    assert_eq!(sp.get(4), Some(&"d".to_string()));
    assert_eq!(sp.get(2), None);
}

#[test]
fn repeated_update_changes_nothing() {
    let mut sp: TemplateSpawner<u32> = TemplateSpawner::new();
    let keys = vec![5u64, 6, 7];
    sp.update(&keys, vec![50, 60, 70]);
    let plan = sp.plan(&keys);
    assert!(plan.steps.iter().all(|s| !s.instantiate));
    assert!(plan.freed.is_empty());
    let removed = sp.update(&keys, vec![]);
    assert!(removed.is_empty());
    assert_eq!(sp.get(6), Some(&60));
}

#[test]
fn empty_update_frees_everything() {
    let mut sp: TemplateSpawner<u32> = TemplateSpawner::new();
    sp.update(&vec![1, 2], vec![10, 20]);
    let mut removed = sp.update(&vec![], vec![]);
    removed.sort();
    assert_eq!(removed, vec![(1, 10), (2, 20)]);
    assert!(sp.keys().is_empty());
}

#[test]
fn registered_node_is_found_locally() {
    let mut reg: DiRegistry<&str> = DiRegistry::new();
    let ctx = reg.new_context();
    reg.register_node_of_type(ctx, "label", "Label".to_string(), "title".to_string());
    assert_eq!(
        reg.get_registered_node_with_id(ctx, &"Label".to_string(), &"title".to_string()),
        Some(&"label")
    );
    assert_eq!(reg.get_registered_node_with_id(ctx, &"Label".to_string(), &"other".to_string()), None);
    reg.register_node_of_type(ctx, "label2", "Label".to_string(), "title".to_string());
    assert_eq!(
        reg.get_registered_node_with_id(ctx, &"Label".to_string(), &"title".to_string()),
        Some(&"label2")
    );
}

#[test]
fn lookup_falls_back_to_parent_context() {
    let mut reg: DiRegistry<&str> = DiRegistry::new();
    let outer = reg.new_context();
    let inner = reg.new_context();
    // node 100 is the root; the outer context hangs below node 10, the inner below node 20
    reg.enter_tree(outer, &vec![10, 100]);
    reg.enter_tree(inner, &vec![20, 10, 100]);
    reg.register_node(outer, "map", "TileMap".to_string(), String::new());
    reg.register_node(inner, "sprite", "Sprite2D".to_string(), String::new());
    assert_eq!(reg.get_registered_node(inner, &"TileMap".to_string()), Some(&"map"));
    assert_eq!(reg.get_registered_node(inner, &"Sprite2D".to_string()), Some(&"sprite"));
    assert_eq!(reg.get_registered_node(outer, &"Sprite2D".to_string()), None);
    assert_eq!(reg.get_nearest(&vec![30, 20, 10, 100]), Some(inner));
    assert_eq!(reg.get_nearest_exclude_self(&vec![20, 10, 100]), Some(outer));
    assert_eq!(reg.get_context(10), Some(outer));
    assert_eq!(reg.get_nearest(&vec![100]), None);
}

#[test]
fn exit_tree_detaches_context() {
    let mut reg: DiRegistry<u8> = DiRegistry::new();
    let ctx = reg.new_context();
    reg.insert_di_context(7, ctx);
    assert_eq!(reg.get_context(7), Some(ctx));
    reg.exit_tree(ctx);
    assert_eq!(reg.get_context(7), None);
    reg.insert_di_context(8, ctx);
    reg.clear_di_context_id(8);
    assert_eq!(reg.get_context(8), None);
}

#[test]
fn registration_uses_nearest_context() {
    let mut reg: DiRegistry<&str> = DiRegistry::new();
    let outer = reg.new_context();
    let own = reg.new_context();
    reg.insert_di_context(1, outer);
    reg.insert_di_context(2, own);
    // the registering node's parent is node 2, below node 1
    let r = reg.register_from_registration(true, &vec![2, 1], "button", String::new(), "Button".to_string(), "ok".to_string());
    assert_eq!(r, Some(own));
    assert_eq!(reg.get_registered_node_with_id(own, &"Button".to_string(), &"ok".to_string()), Some(&"button"));
    let r = reg.register_from_registration(false, &vec![2, 1], "panel", "Panel".to_string(), "Control".to_string(), "".to_string());
    assert_eq!(r, Some(outer));
    assert_eq!(reg.get_registered_node(outer, &"Panel".to_string()), Some(&"panel"));
    assert_eq!(reg.get_registered_node(outer, &"Control".to_string()), None);
    let r = reg.register_from_registration(true, &vec![5], "lost", String::new(), "X".to_string(), "".to_string());
    assert_eq!(r, None);
}

#[test]
fn type_label_prefers_custom_name() {
    assert_eq!(di_type_label(Some("Custom".to_string()), "Node".to_string()), "Custom");
    assert_eq!(di_type_label(None, "Node".to_string()), "Node");
}

#[test]
fn registration_leaves_other_keys_alone() {
    let mut reg: DiRegistry<&str> = DiRegistry::new();
    let outer = reg.new_context();
    let inner = reg.new_context();
    reg.insert_di_context(1, outer);
    reg.enter_tree(inner, &vec![2, 1, 0]);
    reg.register_node_of_type(outer, "outer_label", "Label".to_string(), "title".to_string());
    reg.register_node_of_type(inner, "button", "Button".to_string(), "ok".to_string());
    // a later registration in the inner context, under the key the outer one holds
    reg.register_node_of_type(inner, "inner_label", "Label".to_string(), "title".to_string());
    assert_eq!(reg.get_registered_node_with_id(inner, &"Label".to_string(), &"title".to_string()), Some(&"inner_label"));
    assert_eq!(reg.get_registered_node_with_id(inner, &"Button".to_string(), &"ok".to_string()), Some(&"button"));
    assert_eq!(reg.get_registered_node_with_id(outer, &"Label".to_string(), &"title".to_string()), Some(&"outer_label"));
    assert_eq!(reg.get_registered_node_with_id(outer, &"Button".to_string(), &"ok".to_string()), None);
}
