//! The catalog: an ordered collection of entries that a scan is merged into.

use vstd::prelude::*;
use crate::annotate::{
    first_move,
    next_move,
    parse_reply,
    seek,
    trim,
    with_image,
    yes_or_no,
    ImageAction,
    ImageEvent,
    ImageSearch,
    Move,
    Reply,
};
use crate::game::{EpicGame, GameView};
use crate::model::{
    added_names,
    adopt,
    lemma_merged_names,
    lemma_merged_nothing,
    lemma_merged_step,
    lemma_only_in_push,
    merged,
    names,
    observe,
    only_in,
    unconfirmed_names,
};

verus! {

/// What a merge changed: the names that joined the catalog, and the names
/// of the catalog that the scan did not confirm. The entries of the latter
/// stay in the catalog: whether to drop them is left to the user.
#[derive(Clone, Debug, PartialEq, Eq)]
pub struct MergeReport {
    pub added: Vec<String>,
    pub possibly_removed: Vec<String>,
}

/// A catalog of games.
pub trait EpicGames {
    /// The entries of the catalog, in order.
    spec fn entries(&self) -> Seq<GameView>;

    /// Merges a scan into the catalog.
    ///
    /// Every entry stays where it is and keeps its name and image; one that
    /// the scan names takes location and executable from the scan's last
    /// report of that name. Each name that the catalog lacked joins at the
    /// end, in the order in which the scan first reports it, without an
    /// image. Nothing is removed.
    fn merge(&mut self, games: Vec<EpicGame>) -> (report: MergeReport)
        ensures
            final(self).entries() == merged(old(self).entries(), games.deep_view()),
            report.added.deep_view() == added_names(old(self).entries(), games.deep_view()),
            report.possibly_removed.deep_view() == unconfirmed_names(
                old(self).entries(),
                games.deep_view(),
            ),
    ;

    /// Begins the dialogue about images: it turns to the first entry that
    /// has none.
    fn start_images(&self) -> (begun: (ImageSearch, ImageAction))
        ensures
            (Move { catalog: self.entries(), state: begun.0@, action: begun.1@ }) == first_move(
                self.entries(),
            ),
    ;

    /// Answers one event of the dialogue about images: where the user has
    /// confirmed an image, the entry gets it; the result is the state in
    /// which the dialogue then stands and what it asks for next.
    fn find_images(&mut self, state: ImageSearch, event: ImageEvent) -> (next: (
        ImageSearch,
        ImageAction,
    ))
        ensures
            (Move { catalog: final(self).entries(), state: next.0@, action: next.1@ })
                == next_move(old(self).entries(), state@, event@),
    ;
}

/// Whether one of the first `end` entries of `games` is called `name`.
fn named_before(games: &Vec<EpicGame>, end: usize, name: &String) -> (found: bool)
    requires
        end <= games.len(),
    ensures
        found == names(games.deep_view()).take(end as int).contains(name@),
{
    let ghost all = names(games.deep_view());
    let mut i: usize = 0;
    while i < end
        invariant
            i <= end <= games.len(),
            all == names(games.deep_view()),
            !all.take(i as int).contains(name@),
        decreases end - i,
    {
        if games[i].display_name == *name {
            assert(all.take(end as int)[i as int] == name@);
            return true;
        }
        proof {
            let shorter = all.take(i as int);
            let longer = all.take(i + 1);
            if longer.contains(name@) {
                let k = choose|k: int| 0 <= k < longer.len() && longer[k] == name@;
                assert(shorter[k] == name@);
            }
        }
        i += 1;
    }
    false
}

/// The names of `catalog` that `games` does not report.
fn unconfirmed(catalog: &Vec<EpicGame>, games: &Vec<EpicGame>) -> (out: Vec<String>)
    ensures
        out.deep_view() == unconfirmed_names(catalog.deep_view(), games.deep_view()),
{
    let ghost ours = names(catalog.deep_view());
    let ghost theirs = names(games.deep_view());
    let mut out: Vec<String> = Vec::new();
    let mut i: usize = 0;
    assert(out.deep_view() =~= only_in(ours.take(0), theirs));
    while i < catalog.len()
        invariant
            i <= catalog.len(),
            ours == names(catalog.deep_view()),
            theirs == names(games.deep_view()),
            out.deep_view() == only_in(ours.take(i as int), theirs),
        decreases catalog.len() - i,
    {
        let name = &catalog[i].display_name;
        let reported = named_before(games, games.len(), name);
        let repeated = named_before(catalog, i, name);
        proof {
            assert(theirs.take(games.len() as int) =~= theirs);
            assert(ours.take(i + 1) =~= ours.take(i as int).push(name@));
            lemma_only_in_push(ours.take(i as int), theirs, name@);
        }
        if !reported && !repeated {
            let ghost before = out.deep_view();
            out.push(name.clone());
            assert(out.deep_view() =~= before.push(name@));
        }
        i += 1;
    }
    assert(ours.take(catalog.len() as int) =~= ours);
    out
}

/// Lets every entry called like `seen` adopt its location and executable,
/// and says whether there was one.
fn refresh(catalog: &mut Vec<EpicGame>, seen: &EpicGame) -> (found: bool)
    ensures
        found == names(old(catalog).deep_view()).contains(seen@.display_name),
        found ==> final(catalog).deep_view() == observe(old(catalog).deep_view(), seen@),
        !found ==> final(catalog).deep_view() == old(catalog).deep_view(),
{
    let ghost before = catalog.deep_view();
    let ghost name = seen@.display_name;
    let mut found = false;
    let mut i: usize = 0;
    while i < catalog.len()
        invariant
            i <= catalog.len(),
            catalog.len() == before.len(),
            name == seen@.display_name,
            found == names(before).take(i as int).contains(name),
            forall|k: int|
                0 <= k < i ==> #[trigger] catalog.deep_view()[k] == if before[k].display_name
                    == name {
                    adopt(before[k], seen@)
                } else {
                    before[k]
                },
            forall|k: int| i <= k < before.len() ==> #[trigger] catalog.deep_view()[k] == before[k],
        decreases catalog.len() - i,
    {
        let ghost so_far = catalog.deep_view();
        let hit = catalog[i].display_name == seen.display_name;
        if hit {
            catalog[i].display_name = seen.display_name.clone();
            catalog[i].install_location = seen.install_location.clone();
            catalog[i].launch_executable = seen.launch_executable.clone();
            found = true;
        }
        proof {
            let shorter = names(before).take(i as int);
            let longer = names(before).take(i + 1);
            assert(so_far[i as int] == before[i as int]);
            if hit {
                assert(longer[i as int] == name);
            } else if longer.contains(name) {
                let k = choose|k: int| 0 <= k < longer.len() && longer[k] == name;
                assert(shorter[k] == name);
            }
            if shorter.contains(name) {
                let k = choose|k: int| 0 <= k < shorter.len() && shorter[k] == name;
                assert(longer[k] == name);
            }
            assert forall|k: int| 0 <= k < catalog.len() && k != i implies
                #[trigger] catalog.deep_view()[k] == so_far[k] by {}
        }
        i += 1;
    }
    proof {
        assert(names(before).take(before.len() as int) =~= names(before));
        if found {
            assert(catalog.deep_view() =~= observe(before, seen@));
        } else {
            assert forall|k: int| 0 <= k < before.len() implies #[trigger] catalog.deep_view()[k]
                == before[k] by {
                assert(names(before)[k] != name);
            }
            assert(catalog.deep_view() =~= before);
        }
    }
    found
}

impl EpicGames for Vec<EpicGame> {
    open spec fn entries(&self) -> Seq<GameView> {
        self.deep_view()
    }

    fn merge(&mut self, games: Vec<EpicGame>) -> (report: MergeReport) {
        let ghost existing = self.deep_view();
        let ghost observed = games.deep_view();
        let possibly_removed = unconfirmed(self, &games);
        let mut added: Vec<String> = Vec::new();
        let mut j: usize = 0;
        proof {
            assert(observed.take(0) =~= Seq::<GameView>::empty());
            lemma_merged_nothing(existing);
            assert(added.deep_view() =~= Seq::<Seq<char>>::empty());
        }
        while j < games.len()
            invariant
                j <= games.len(),
                observed == games.deep_view(),
                self.deep_view() == merged(existing, observed.take(j as int)),
                added.deep_view() == added_names(existing, observed.take(j as int)),
            decreases games.len() - j,
        {
            let seen = &games[j];
            let ghost so_far = self.deep_view();
            let ghost reported = observed.take(j as int);
            let found = refresh(self, seen);
            if !found {
                let ghost names_so_far = added.deep_view();
                added.push(seen.display_name.clone());
                self.push(
                    EpicGame {
                        display_name: seen.display_name.clone(),
                        install_location: seen.install_location.clone(),
                        launch_executable: seen.launch_executable.clone(),
                        image_url: None,
                    },
                );
                assert(added.deep_view() =~= names_so_far.push(seen@.display_name));
                assert(self.deep_view() =~= observe(so_far, seen@));
            }
            proof {
                assert(observed.take(j + 1) =~= reported.push(seen@));
                lemma_merged_step(existing, reported, seen@);
                lemma_merged_names(existing, reported);
                assert(names(reported.push(seen@)) =~= names(reported).push(seen@.display_name));
                lemma_only_in_push(names(reported), names(existing), seen@.display_name);
            }
            j += 1;
        }
        assert(observed.take(games.len() as int) =~= observed);
        MergeReport { added, possibly_removed }
    }

    fn start_images(&self) -> (begun: (ImageSearch, ImageAction)) {
        seek(self, 0)
    }

    fn find_images(&mut self, state: ImageSearch, event: ImageEvent) -> (next: (
        ImageSearch,
        ImageAction,
    )) {
        match state {
            ImageSearch::Done => (ImageSearch::Done, ImageAction::Finish),
            ImageSearch::Prompting { index } => {
                if !(index < self.len() && self[index].image_url.is_none()) {
                    return seek(self, index);
                }
                let display_name = self[index].display_name.clone();
                match event {
                    ImageEvent::Line(line) => match parse_reply(trim(line.as_str())) {
                        Reply::Skip => seek(self, index + 1),
                        Reply::Copy => (
                            ImageSearch::Prompting { index },
                            ImageAction::ReadClipboard,
                        ),
                        Reply::Unrecognized => (
                            ImageSearch::Prompting { index },
                            ImageAction::Reject { display_name },
                        ),
                    },
                    ImageEvent::Clipboard(text) => {
                        let candidate = text.clone();
                        (
                            ImageSearch::AwaitingConfirmation { index, candidate: text },
                            ImageAction::Confirm { display_name, candidate },
                        )
                    },
                }
            },
            ImageSearch::AwaitingConfirmation { index, candidate } => {
                if !(index < self.len() && self[index].image_url.is_none()) {
                    return seek(self, index);
                }
                let display_name = self[index].display_name.clone();
                let decision = match event {
                    ImageEvent::Line(line) => yes_or_no(trim(line.as_str())),
                    ImageEvent::Clipboard(_) => None,
                };
                match decision {
                    Some(true) => {
                        let ghost before = self.deep_view();
                        self[index].image_url = Some(candidate);
                        assert(self.deep_view() =~= with_image(
                            before,
                            index as int,
                            candidate@,
                        ));
                        seek(self, index + 1)
                    },
                    Some(false) => (
                        ImageSearch::Prompting { index },
                        ImageAction::Prompt { display_name },
                    ),
                    None => {
                        let again = candidate.clone();
                        (
                            ImageSearch::AwaitingConfirmation { index, candidate },
                            ImageAction::Confirm { display_name, candidate: again },
                        )
                    },
                }
            },
        }
    }
}

} // verus!
