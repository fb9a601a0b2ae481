use epic::{is_manifest_file, plan_run, EpicGame, Manifest, RunOptions, RunPlan, EPIC_GAMES_JSON};

fn manifest(name: &str, location: &str, executable: &str) -> Manifest {
    Manifest {
        display_name: name.to_string(),
        install_location: location.to_string(),
        launch_executable: executable.to_string(),
    }
}

#[test]
fn catalog_file_name() {
    assert_eq!(EPIC_GAMES_JSON, "epic_games.json");
}

#[test]
fn manifests_end_in_item() {
    assert!(is_manifest_file("0A1B2C.item"));
    assert!(is_manifest_file(".item"));
    assert!(is_manifest_file("ünïcödé.item"));
    assert!(is_manifest_file("a.item.item"));
    assert!(!is_manifest_file(""));
    assert!(!is_manifest_file("item"));
    assert!(!is_manifest_file("0A1B2C.json"));
    assert!(!is_manifest_file("0A1B2C.items"));
    assert!(!is_manifest_file("0A1B2C.ITEM"));
    assert!(!is_manifest_file("0A1B2C.item "));
    assert!(!is_manifest_file("0A1B2Citem"));
    assert!(!is_manifest_file("é.ite"));
}

#[test]
fn scan_makes_one_entry_of_each_manifest() {
    let games = EpicGame::from_manifests(vec![
        manifest("Beta", "C:/B", "b.exe"),
        manifest("Alpha", "C:/A", "bin/a.exe"),
        manifest("Beta", "D:/B", "b2.exe"),
    ]);
    assert_eq!(
        games,
        vec![
            EpicGame {
                display_name: "Beta".to_string(),
                install_location: "C:/B".to_string(),
                launch_executable: "b.exe".to_string(),
                image_url: None,
            },
            EpicGame {
                display_name: "Alpha".to_string(),
                install_location: "C:/A".to_string(),
                launch_executable: "bin/a.exe".to_string(),
                image_url: None,
            },
            EpicGame {
                display_name: "Beta".to_string(),
                install_location: "D:/B".to_string(),
                launch_executable: "b2.exe".to_string(),
                image_url: None,
            },
        ]
    );
}

#[test]
fn scan_of_no_manifest_is_empty() {
    assert_eq!(EpicGame::from_manifests(Vec::new()), Vec::new());
}

#[test]
fn first_run_scans_and_saves() {
    let options = RunOptions { list: false, refresh: false, find_images: false };
    assert_eq!(
        plan_run(options, false),
        RunPlan { load: false, scan: true, find_images: false, list: false, save: true }
    );
}

#[test]
fn later_run_loads_and_saves() {
    let options = RunOptions { list: false, refresh: false, find_images: false };
    assert_eq!(
        plan_run(options, true),
        RunPlan { load: true, scan: false, find_images: false, list: false, save: true }
    );
}

#[test]
fn refresh_scans_over_a_saved_catalog() {
    let options = RunOptions { list: false, refresh: true, find_images: false };
    assert_eq!(
        plan_run(options, true),
        RunPlan { load: true, scan: true, find_images: false, list: false, save: true }
    );
    assert_eq!(
        plan_run(options, false),
        RunPlan { load: false, scan: true, find_images: false, list: false, save: true }
    );
}

#[test]
fn listing_and_images_are_on_demand() {
    let options = RunOptions { list: true, refresh: false, find_images: true };
    assert_eq!(
        plan_run(options, true),
        RunPlan { load: true, scan: false, find_images: true, list: true, save: true }
    );
    let only_list = RunOptions { list: true, refresh: false, find_images: false };
    assert_eq!(
        plan_run(only_list, false),
        RunPlan { load: false, scan: true, find_images: false, list: true, save: true }
    );
}
