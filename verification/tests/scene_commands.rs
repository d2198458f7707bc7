use engine::scene::{Scene, SceneCommand};

fn scene_of(objects: &[u32]) -> Scene<u32> {
    let mut scene = Scene::new();
    for &o in objects {
        scene.add(o);
    }
    scene
}

#[test]
fn new_scene_is_empty_and_add_appends() {
    let mut scene: Scene<u32> = Scene::new();
    assert_eq!(scene.len(), 0);
    scene.add(7);
    scene.add(9);
    assert_eq!(scene.game_objects(), &vec![7, 9]);
}

#[test]
fn quiet_update_keeps_the_scene() {
    let mut scene = scene_of(&[1, 2, 3]);
    scene.apply_commands(vec![vec![], vec![], vec![]]);
    assert_eq!(scene.game_objects(), &vec![1, 2, 3]);
}

#[test]
fn killed_objects_leave_and_spawned_ones_join_at_the_end() {
    let mut scene = scene_of(&[1, 2, 3]);
    scene.apply_commands(vec![
        vec![SceneCommand::Spawn(10), SceneCommand::Spawn(11)],
        vec![SceneCommand::Kill],
        vec![SceneCommand::Spawn(30)],
    ]);
    assert_eq!(scene.game_objects(), &vec![1, 3, 10, 11, 30]);
}

#[test]
fn an_object_that_spawns_and_dies_still_spawns() {
    let mut scene = scene_of(&[1, 2]);
    scene.apply_commands(vec![vec![SceneCommand::Spawn(5), SceneCommand::Kill, SceneCommand::Spawn(6)], vec![]]);
    assert_eq!(scene.game_objects(), &vec![2, 5, 6]);
}

#[test]
fn all_killed_leaves_only_spawned() {
    let mut scene = scene_of(&[1, 2]);
    scene.apply_commands(vec![vec![SceneCommand::Kill, SceneCommand::Kill], vec![SceneCommand::Spawn(4), SceneCommand::Kill]]);
    assert_eq!(scene.game_objects(), &vec![4]);
}
