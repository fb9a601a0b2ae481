use epic::{EpicGame, EpicGames, MergeReport};

fn game(name: &str, location: &str, executable: &str) -> EpicGame {
    EpicGame {
        display_name: name.to_string(),
        install_location: location.to_string(),
        launch_executable: executable.to_string(),
        image_url: None,
    }
}

fn game_with_image(name: &str, location: &str, executable: &str, image: &str) -> EpicGame {
    EpicGame {
        display_name: name.to_string(),
        install_location: location.to_string(),
        launch_executable: executable.to_string(),
        image_url: Some(image.to_string()),
    }
}

fn strings(words: &[&str]) -> Vec<String> {
    words.iter().map(|w| w.to_string()).collect()
}

#[test]
fn first_scan_adds_its_entry() {
    let mut catalog: Vec<EpicGame> = Vec::new();
    let report = catalog.merge(vec![game("Alpha", "C:/A", "a.exe")]);
    assert_eq!(catalog, vec![game("Alpha", "C:/A", "a.exe")]);
    assert_eq!(catalog[0].image_url, None);
    assert_eq!(report.added, strings(&["Alpha"]));
    assert_eq!(report.possibly_removed, strings(&[]));
}

#[test]
fn rescan_refreshes_and_keeps_the_image() {
    let mut catalog = vec![game_with_image("Alpha", "C:/old", "a.exe", "http://img/a")];
    let report = catalog.merge(vec![game("Alpha", "C:/new", "a2.exe")]);
    assert_eq!(catalog.len(), 1);
    assert_eq!(catalog[0].display_name, "Alpha");
    assert_eq!(catalog[0].install_location, "C:/new");
    assert_eq!(catalog[0].launch_executable, "a2.exe");
    assert_eq!(catalog[0].image_url, Some("http://img/a".to_string()));
    assert_eq!(report.added, strings(&[]));
    assert_eq!(report.possibly_removed, strings(&[]));
}

#[test]
fn unobserved_entry_is_reported_and_kept() {
    let mut catalog = vec![
        game_with_image("Alpha", "C:/A", "a.exe", "http://img/a"),
        game_with_image("Beta", "C:/B", "b.exe", "http://img/b"),
    ];
    let report = catalog.merge(vec![game("Alpha", "D:/A", "a64.exe")]);
    assert_eq!(report.possibly_removed, strings(&["Beta"]));
    assert_eq!(report.added, strings(&[]));
    assert_eq!(
        catalog,
        vec![
            game_with_image("Alpha", "D:/A", "a64.exe", "http://img/a"),
            game_with_image("Beta", "C:/B", "b.exe", "http://img/b"),
        ]
    );
}

#[test]
fn empty_catalog_takes_every_observed_entry() {
    let mut catalog: Vec<EpicGame> = Vec::new();
    let observed = vec![game("Beta", "C:/B", "b.exe"), game("Alpha", "C:/A", "a.exe")];
    let report = catalog.merge(observed.clone());
    assert_eq!(catalog, observed);
    assert_eq!(report.added, strings(&["Beta", "Alpha"]));
    assert_eq!(report.possibly_removed, strings(&[]));
}

#[test]
fn empty_scan_changes_nothing_and_reports_every_name() {
    let before = vec![
        game_with_image("Alpha", "C:/A", "a.exe", "http://img/a"),
        game("Beta", "C:/B", "b.exe"),
    ];
    let mut catalog = before.clone();
    let report = catalog.merge(Vec::new());
    assert_eq!(catalog, before);
    assert_eq!(report.added, strings(&[]));
    assert_eq!(report.possibly_removed, strings(&["Alpha", "Beta"]));
}

#[test]
fn merging_nothing_into_nothing() {
    let mut catalog: Vec<EpicGame> = Vec::new();
    let report = catalog.merge(Vec::new());
    assert!(catalog.is_empty());
    assert_eq!(report, MergeReport { added: Vec::new(), possibly_removed: Vec::new() });
}

#[test]
fn second_merge_of_the_same_scan_is_silent() {
    let observed = vec![
        game("Alpha", "D:/A", "a64.exe"),
        game("Gamma", "C:/G", "g.exe"),
        game("Alpha", "E:/A", "a128.exe"),
    ];
    let mut catalog = vec![game_with_image("Alpha", "C:/A", "a.exe", "http://img/a")];
    let first = catalog.merge(observed.clone());
    assert_eq!(first.added, strings(&["Gamma"]));
    let after_first = catalog.clone();
    let second = catalog.merge(observed);
    assert_eq!(catalog, after_first);
    assert_eq!(second.added, strings(&[]));
    assert_eq!(second.possibly_removed, strings(&[]));
}

#[test]
fn second_merge_repeats_what_is_unconfirmed() {
    let observed = vec![game("Alpha", "D:/A", "a64.exe"), game("Gamma", "C:/G", "g.exe")];
    let mut catalog = vec![game("Alpha", "C:/A", "a.exe"), game("Beta", "C:/B", "b.exe")];
    let first = catalog.merge(observed.clone());
    let after_first = catalog.clone();
    let second = catalog.merge(observed);
    assert_eq!(catalog, after_first);
    assert_eq!(second.added, strings(&[]));
    assert_eq!(first.possibly_removed, strings(&["Beta"]));
    assert_eq!(second.possibly_removed, strings(&["Beta"]));
}

#[test]
fn every_entry_keeps_its_image() {
    let mut catalog = vec![
        game_with_image("Alpha", "C:/A", "a.exe", "http://img/a"),
        game("Beta", "C:/B", "b.exe"),
        game_with_image("Gamma", "C:/G", "g.exe", "http://img/g"),
    ];
    catalog.merge(vec![
        game("Gamma", "D:/G", "g2.exe"),
        game("Beta", "D:/B", "b2.exe"),
        game("Delta", "D:/D", "d.exe"),
    ]);
    assert_eq!(
        catalog,
        vec![
            game_with_image("Alpha", "C:/A", "a.exe", "http://img/a"),
            game("Beta", "D:/B", "b2.exe"),
            game_with_image("Gamma", "D:/G", "g2.exe", "http://img/g"),
            game("Delta", "D:/D", "d.exe"),
        ]
    );
}

#[test]
fn new_names_are_added_once_in_order_of_first_report() {
    let mut catalog = vec![game("Alpha", "C:/A", "a.exe")];
    let report = catalog.merge(vec![
        game("Zeta", "C:/Z1", "z1.exe"),
        game("Beta", "C:/B", "b.exe"),
        game("Alpha", "D:/A", "a2.exe"),
        game("Zeta", "C:/Z2", "z2.exe"),
    ]);
    assert_eq!(report.added, strings(&["Zeta", "Beta"]));
    assert_eq!(report.possibly_removed, strings(&[]));
    assert_eq!(
        catalog,
        vec![
            game("Alpha", "D:/A", "a2.exe"),
            game("Zeta", "C:/Z2", "z2.exe"),
            game("Beta", "C:/B", "b.exe"),
        ]
    );
}

#[test]
fn repeated_name_in_scan_takes_the_last_report() {
    let mut catalog = vec![game_with_image("Alpha", "C:/A", "a.exe", "http://img/a")];
    let report = catalog.merge(vec![
        game("Alpha", "D:/first", "first.exe"),
        game("Alpha", "D:/last", "last.exe"),
    ]);
    assert_eq!(catalog, vec![game_with_image("Alpha", "D:/last", "last.exe", "http://img/a")]);
    assert_eq!(report.added, strings(&[]));
    assert_eq!(report.possibly_removed, strings(&[]));
}

#[test]
fn entries_that_share_a_name_are_all_refreshed() {
    let mut catalog = vec![
        game_with_image("Alpha", "C:/one", "one.exe", "http://img/one"),
        game("Beta", "C:/B", "b.exe"),
        game_with_image("Alpha", "C:/two", "two.exe", "http://img/two"),
    ];
    let report = catalog.merge(vec![game("Alpha", "D:/A", "a.exe")]);
    assert_eq!(
        catalog,
        vec![
            game_with_image("Alpha", "D:/A", "a.exe", "http://img/one"),
            game("Beta", "C:/B", "b.exe"),
            game_with_image("Alpha", "D:/A", "a.exe", "http://img/two"),
        ]
    );
    assert_eq!(report.added, strings(&[]));
    assert_eq!(report.possibly_removed, strings(&["Beta"]));
}

#[test]
fn unconfirmed_name_is_reported_once() {
    let mut catalog = vec![
        game("Beta", "C:/one", "one.exe"),
        game("Alpha", "C:/A", "a.exe"),
        game("Beta", "C:/two", "two.exe"),
    ];
    let report = catalog.merge(vec![game("Gamma", "C:/G", "g.exe")]);
    assert_eq!(report.possibly_removed, strings(&["Beta", "Alpha"]));
    assert_eq!(report.added, strings(&["Gamma"]));
    assert_eq!(catalog.len(), 4);
}

#[test]
fn names_match_exactly() {
    let mut catalog = vec![game_with_image("Alpha", "C:/A", "a.exe", "http://img/a")];
    let report = catalog.merge(vec![
        game("alpha", "C:/lower", "lower.exe"),
        game("Alpha ", "C:/space", "space.exe"),
    ]);
    assert_eq!(report.added, strings(&["alpha", "Alpha "]));
    assert_eq!(report.possibly_removed, strings(&["Alpha"]));
    assert_eq!(catalog[0], game_with_image("Alpha", "C:/A", "a.exe", "http://img/a"));
    assert_eq!(catalog.len(), 3);
}

#[test]
fn added_entry_starts_without_an_image() {
    let mut catalog: Vec<EpicGame> = Vec::new();
    let report = catalog.merge(vec![game_with_image("Alpha", "C:/A", "a.exe", "http://img/a")]);
    assert_eq!(catalog, vec![game("Alpha", "C:/A", "a.exe")]);
    assert_eq!(report.added, strings(&["Alpha"]));
}

#[test]
fn observed_image_never_replaces_the_catalogs() {
    let mut catalog = vec![
        game_with_image("Alpha", "C:/A", "a.exe", "http://img/kept"),
        game("Beta", "C:/B", "b.exe"),
    ];
    catalog.merge(vec![
        game_with_image("Alpha", "D:/A", "a2.exe", "http://img/other"),
        game_with_image("Beta", "D:/B", "b2.exe", "http://img/other"),
    ]);
    assert_eq!(
        catalog,
        vec![
            game_with_image("Alpha", "D:/A", "a2.exe", "http://img/kept"),
            game("Beta", "D:/B", "b2.exe"),
        ]
    );
}
