//! One catalog entry and its mathematical view.

use vstd::prelude::*;

verus! {

/// One known game installation.
///
/// `display_name` is the key by which entries are matched across scans.
/// `image_url` is the only field a user fills in: a scan never sets it.
#[derive(Clone, Debug, PartialEq, Eq)]
pub struct EpicGame {
    pub display_name: String,
    pub install_location: String,
    pub launch_executable: String,
    pub image_url: Option<String>,
}

/// What an [`EpicGame`] holds, as sequences of characters.
pub struct GameView {
    pub display_name: Seq<char>,
    pub install_location: Seq<char>,
    pub launch_executable: Seq<char>,
    pub image_url: Option<Seq<char>>,
}

impl View for EpicGame {
    type V = GameView;

    open spec fn view(&self) -> GameView {
        GameView {
            display_name: self.display_name@,
            install_location: self.install_location@,
            launch_executable: self.launch_executable@,
            image_url: self.image_url.deep_view(),
        }
    }
}

impl DeepView for EpicGame {
    type V = GameView;

    open spec fn deep_view(&self) -> GameView {
        self@
    }
}

/// The name of the file that holds the catalog, inside the directory that
/// the program keeps for itself.
pub const EPIC_GAMES_JSON: &'static str = "epic_games.json";

/// What the catalog reads of a launcher's installation manifest.
#[derive(Clone, Debug, PartialEq, Eq)]
pub struct Manifest {
    pub display_name: String,
    pub install_location: String,
    pub launch_executable: String,
}

/// What a [`Manifest`] holds, as sequences of characters.
pub struct ManifestView {
    pub display_name: Seq<char>,
    pub install_location: Seq<char>,
    pub launch_executable: Seq<char>,
}

impl View for Manifest {
    type V = ManifestView;

    open spec fn view(&self) -> ManifestView {
        ManifestView {
            display_name: self.display_name@,
            install_location: self.install_location@,
            launch_executable: self.launch_executable@,
        }
    }
}

impl DeepView for Manifest {
    type V = ManifestView;

    open spec fn deep_view(&self) -> ManifestView {
        self@
    }
}

/// The entry that a scan makes of a manifest: its three fields, and no image.
pub open spec fn scanned(manifest: ManifestView) -> GameView {
    GameView {
        display_name: manifest.display_name,
        install_location: manifest.install_location,
        launch_executable: manifest.launch_executable,
        image_url: None,
    }
}

/// Whether `name` ends in `.item`, as the file of a manifest does.
pub open spec fn is_manifest_name(name: Seq<char>) -> bool {
    name.len() >= 5 && name.subrange(name.len() - 5, name.len() as int) == seq![
        '.',
        'i',
        't',
        'e',
        'm',
    ]
}

/// Whether a file of this name in the launcher's directory is a manifest.
pub fn is_manifest_file(name: &str) -> (yes: bool)
    ensures
        yes == is_manifest_name(name@),
{
    let len = name.unicode_len();
    if len < 5 {
        return false;
    }
    let start = len - 5;
    let yes = name.get_char(start) == '.' && name.get_char(start + 1) == 'i' && name.get_char(
        start + 2,
    ) == 't' && name.get_char(start + 3) == 'e' && name.get_char(start + 4) == 'm';
    proof {
        let tail = name@.subrange(name@.len() - 5, name@.len() as int);
        let suffix = seq!['.', 'i', 't', 'e', 'm'];
        assert(tail[0] == name@[start + 0] && tail[1] == name@[start + 1] && tail[2] == name@[start
            + 2] && tail[3] == name@[start + 3] && tail[4] == name@[start + 4]);
        if yes {
            assert(tail =~= suffix);
        }
    }
    yes
}

impl EpicGame {
    /// The entries that a scan yields, one for each manifest, in the order
    /// of the manifests.
    pub fn from_manifests(manifests: Vec<Manifest>) -> (games: Vec<EpicGame>)
        ensures
            games.deep_view() == manifests.deep_view().map_values(|m: ManifestView| scanned(m)),
    {
        let ghost wanted = manifests.deep_view().map_values(|m: ManifestView| scanned(m));
        let mut games: Vec<EpicGame> = Vec::new();
        for manifest in it: manifests
            invariant
                wanted == manifests.deep_view().map_values(|m: ManifestView| scanned(m)),
                games.deep_view() == wanted.take(it.index() as int),
        {
            let ghost before = games.deep_view();
            games.push(
                EpicGame {
                    display_name: manifest.display_name,
                    install_location: manifest.install_location,
                    launch_executable: manifest.launch_executable,
                    image_url: None,
                },
            );
            assert(games.deep_view() =~= before.push(scanned(manifest@)));
            assert(wanted.take(it.index() + 1) =~= wanted.take(it.index() as int).push(
                scanned(manifest@),
            ));
        }
        assert(wanted.take(wanted.len() as int) =~= wanted);
        games
    }
}

} // verus!
