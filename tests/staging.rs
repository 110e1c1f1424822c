use appbinder::staging::{base_name_of, staging_plan, MAIN_PROGRAM_NAME};

fn s(x: &str) -> String {
    x.to_string()
}

#[test]
fn base_names() {
    assert_eq!(base_name_of("test_env/script"), "script");
    assert_eq!(base_name_of("test_env/sounds/"), "sounds");
    assert_eq!(base_name_of("assets"), "assets");
    assert_eq!(base_name_of("/a/b//"), "b");
    assert_eq!(base_name_of("/"), "");
    assert_eq!(base_name_of(""), "");
}

#[test]
fn plan_holds_main_and_present_dirs() {
    let dirs = vec![s("test_env/script"), s("missing"), s("test_env/sounds/")];
    let plan = staging_plan("test_env/game.bin", &dirs, &vec![true, false, true]);
    let view: Vec<(String, String)> =
        plan.iter().map(|e| (e.source.clone(), e.name.clone())).collect();
    assert_eq!(
        view,
        vec![
            (s("test_env/game.bin"), s(MAIN_PROGRAM_NAME)),
            (s("test_env/script"), s("script")),
            (s("test_env/sounds/"), s("sounds")),
        ]
    );
}

#[test]
fn absent_dirs_are_skipped() {
    let dirs = vec![s("nope"), s("also_nope")];
    let plan = staging_plan("app", &dirs, &vec![false, false]);
    assert_eq!(plan.len(), 1);
    assert_eq!(plan[0].name, "sekai.x86_64");
    assert_eq!(plan[0].source, "app");
}
