//! The mathematics of reconciling a catalog with a scan.
//!
//! Everything here is stated over views: a catalog is a `Seq<GameView>`, a
//! name is a `Seq<char>`. Two entries are the same game exactly when their
//! display names are equal, character for character.

use vstd::prelude::*;
use crate::game::GameView;

verus! {

/// The display names of `games`, in order.
pub open spec fn names(games: Seq<GameView>) -> Seq<Seq<char>> {
    games.map_values(|g: GameView| g.display_name)
}

/// The names of `ours` that `theirs` lacks, each once, in the order in which
/// they first appear in `ours`.
pub open spec fn only_in(ours: Seq<Seq<char>>, theirs: Seq<Seq<char>>) -> Seq<Seq<char>>
    decreases ours.len(),
{
    if ours.len() == 0 {
        Seq::empty()
    } else {
        let earlier = ours.drop_last();
        let name = ours.last();
        if theirs.contains(name) || earlier.contains(name) {
            only_in(earlier, theirs)
        } else {
            only_in(earlier, theirs).push(name)
        }
    }
}

/// The position of the last entry of `games` called `name`, or -1 where no
/// entry is called so.
pub open spec fn last_position(games: Seq<GameView>, name: Seq<char>) -> int
    decreases games.len(),
{
    if games.len() == 0 {
        -1
    } else if games.last().display_name == name {
        games.len() - 1
    } else {
        last_position(games.drop_last(), name)
    }
}

/// `entry` with the location and executable that `seen` reports. Name and
/// image stay.
pub open spec fn adopt(entry: GameView, seen: GameView) -> GameView {
    GameView {
        display_name: entry.display_name,
        install_location: seen.install_location,
        launch_executable: seen.launch_executable,
        image_url: entry.image_url,
    }
}

/// A catalog entry after a scan that reported `observed`: where the scan
/// names the entry, it adopts what the last such report says; where it does
/// not, it stays as it is.
pub open spec fn refreshed(entry: GameView, observed: Seq<GameView>) -> GameView {
    let at = last_position(observed, entry.display_name);
    if at < 0 {
        entry
    } else {
        adopt(entry, observed[at])
    }
}

/// The entry that joins the catalog for a newly observed `name`: location
/// and executable come from the last report of that name, and there is no
/// image yet.
pub open spec fn arrival(name: Seq<char>, observed: Seq<GameView>) -> GameView {
    let at = last_position(observed, name);
    GameView {
        display_name: name,
        install_location: observed[at].install_location,
        launch_executable: observed[at].launch_executable,
        image_url: None,
    }
}

/// The names that a scan adds to the catalog.
pub open spec fn added_names(existing: Seq<GameView>, observed: Seq<GameView>) -> Seq<Seq<char>> {
    only_in(names(observed), names(existing))
}

/// The names of the catalog that a scan did not confirm.
pub open spec fn unconfirmed_names(existing: Seq<GameView>, observed: Seq<GameView>) -> Seq<
    Seq<char>,
> {
    only_in(names(existing), names(observed))
}

/// The catalog after a scan: every existing entry in its place, refreshed,
/// followed by one new entry for each added name.
pub open spec fn merged(existing: Seq<GameView>, observed: Seq<GameView>) -> Seq<GameView> {
    existing.map_values(|e: GameView| refreshed(e, observed)) + added_names(
        existing,
        observed,
    ).map_values(|n: Seq<char>| arrival(n, observed))
}

/// The catalog after one observed entry: every entry of that name adopts
/// what was seen; where there is none, the entry joins at the end, without
/// an image.
pub open spec fn observe(catalog: Seq<GameView>, seen: GameView) -> Seq<GameView> {
    if names(catalog).contains(seen.display_name) {
        catalog.map_values(
            |e: GameView|
                if e.display_name == seen.display_name {
                    adopt(e, seen)
                } else {
                    e
                },
        )
    } else {
        catalog.push(
            GameView {
                display_name: seen.display_name,
                install_location: seen.install_location,
                launch_executable: seen.launch_executable,
                image_url: None,
            },
        )
    }
}

/// `only_in` holds exactly the names of `ours` that `theirs` lacks, and none
/// of them twice.
pub proof fn lemma_only_in_members(ours: Seq<Seq<char>>, theirs: Seq<Seq<char>>)
    ensures
        only_in(ours, theirs).no_duplicates(),
        forall|name: Seq<char>| #[trigger]
            only_in(ours, theirs).contains(name) <==> ours.contains(name) && !theirs.contains(
                name,
            ),
    decreases ours.len(),
{
    let found = only_in(ours, theirs);
    if ours.len() == 0 {
        assert forall|name: Seq<char>| #[trigger]
            found.contains(name) <==> ours.contains(name) && !theirs.contains(name) by {}
    } else {
        let earlier = ours.drop_last();
        let last = ours.last();
        let before = only_in(earlier, theirs);
        lemma_only_in_members(earlier, theirs);
        assert forall|name: Seq<char>| #[trigger]
            found.contains(name) <==> ours.contains(name) && !theirs.contains(name) by {
            if ours.contains(name) {
                let i = choose|i: int| 0 <= i < ours.len() && ours[i] == name;
                if i < earlier.len() {
                    assert(earlier[i] == name);
                }
            }
            if earlier.contains(name) {
                let i = choose|i: int| 0 <= i < earlier.len() && earlier[i] == name;
                assert(ours[i] == name);
            }
            if name == last {
                assert(ours[ours.len() - 1] == name);
            }
            if theirs.contains(last) || earlier.contains(last) {
            } else {
                if found.contains(name) {
                    let i = choose|i: int| 0 <= i < found.len() && found[i] == name;
                    if i < before.len() {
                        assert(before[i] == name);
                    }
                }
                if before.contains(name) {
                    let i = choose|i: int| 0 <= i < before.len() && before[i] == name;
                    assert(found[i] == name);
                }
                if name == last {
                    assert(found[found.len() - 1] == name);
                }
            }
        }
        if !(theirs.contains(last) || earlier.contains(last)) {
            assert(!before.contains(last));
            assert forall|i: int, j: int| 0 <= i < found.len() && 0 <= j < found.len() && i != j
                implies found[i] != found[j] by {
                if i < before.len() && j < before.len() {
                    assert(before[i] != before[j]);
                } else if i < before.len() {
                    assert(before[i] == found[i]);
                } else {
                    assert(before[j] == found[j]);
                }
            }
        }
    }
}

/// What `only_in` makes of one more name at the end of `ours`.
pub proof fn lemma_only_in_push(ours: Seq<Seq<char>>, theirs: Seq<Seq<char>>, name: Seq<char>)
    ensures
        only_in(ours.push(name), theirs) == if theirs.contains(name) || ours.contains(name) {
            only_in(ours, theirs)
        } else {
            only_in(ours, theirs).push(name)
        },
{
    assert(ours.push(name).drop_last() =~= ours);
}

/// Where `last_position` points.
pub proof fn lemma_last_position(games: Seq<GameView>, name: Seq<char>)
    ensures
        -1 <= last_position(games, name) < games.len(),
        last_position(games, name) >= 0 <==> names(games).contains(name),
        last_position(games, name) >= 0 ==> games[last_position(games, name)].display_name
            == name,
        forall|k: int|
            last_position(games, name) < k < games.len() ==> (#[trigger] games[k]).display_name
                != name,
    decreases games.len(),
{
    if games.len() == 0 {
    } else if games.last().display_name == name {
        assert(names(games)[games.len() - 1] == name);
    } else {
        let earlier = games.drop_last();
        lemma_last_position(earlier, name);
        if names(earlier).contains(name) {
            let i = choose|i: int| 0 <= i < earlier.len() && names(earlier)[i] == name;
            assert(names(games)[i] == name);
        }
        if names(games).contains(name) {
            let i = choose|i: int| 0 <= i < games.len() && names(games)[i] == name;
            assert(names(earlier)[i] == name);
        }
        assert forall|k: int| last_position(games, name) < k < games.len() implies (
        #[trigger] games[k]).display_name != name by {
            if k < earlier.len() {
                assert(earlier[k] == games[k]);
            }
        }
    }
}

/// The names of a merged catalog: those it had, then those that were added.
pub proof fn lemma_merged_names(existing: Seq<GameView>, observed: Seq<GameView>)
    ensures
        names(merged(existing, observed)) == names(existing) + added_names(existing, observed),
        forall|name: Seq<char>| #[trigger]
            names(merged(existing, observed)).contains(name) <==> names(existing).contains(name)
                || names(observed).contains(name),
{
    let result = names(merged(existing, observed));
    let expected = names(existing) + added_names(existing, observed);
    assert forall|i: int| 0 <= i < existing.len() implies #[trigger] result[i] == expected[i] by {
        // a refreshed entry keeps its name
    }
    assert(result =~= expected);
    lemma_only_in_members(names(observed), names(existing));
    let added = added_names(existing, observed);
    assert forall|name: Seq<char>| #[trigger]
        result.contains(name) <==> names(existing).contains(name) || names(observed).contains(
            name,
        ) by {
        if result.contains(name) {
            let i = choose|i: int| 0 <= i < result.len() && result[i] == name;
            if i < existing.len() {
                assert(names(existing)[i] == name);
            } else {
                assert(added[i - existing.len()] == name);
                assert(added.contains(name));
            }
        }
        if names(existing).contains(name) {
            let i = choose|i: int| 0 <= i < existing.len() && names(existing)[i] == name;
            assert(expected[i] == name);
        } else if names(observed).contains(name) {
            assert(added.contains(name));
            let i = choose|i: int| 0 <= i < added.len() && added[i] == name;
            assert(expected[existing.len() + i] == name);
        }
    }
}

/// A scan that reports nothing leaves the catalog as it is and adds nothing.
pub proof fn lemma_merged_nothing(existing: Seq<GameView>)
    ensures
        merged(existing, Seq::empty()) == existing,
        added_names(existing, Seq::empty()) == Seq::<Seq<char>>::empty(),
{
    assert(names(Seq::<GameView>::empty()) =~= Seq::<Seq<char>>::empty());
    assert(merged(existing, Seq::empty()) =~= existing);
}

/// Merging is observing the scan's entries one after the other: a scan with
/// one more entry at its end gives what observing that entry makes of the
/// merge so far. A name that the scan repeats therefore meets the entry that
/// its earlier report refreshed or added.
pub proof fn lemma_merged_step(existing: Seq<GameView>, observed: Seq<GameView>, seen: GameView)
    ensures
        merged(existing, observed.push(seen)) == observe(merged(existing, observed), seen),
{
    let so_far = merged(existing, observed);
    let longer = observed.push(seen);
    let name = seen.display_name;
    let added = added_names(existing, observed);
    assert(longer.drop_last() =~= observed);
    assert(names(longer) =~= names(observed).push(name));
    lemma_only_in_push(names(observed), names(existing), name);
    lemma_only_in_members(names(observed), names(existing));
    lemma_merged_names(existing, observed);
    assert forall|other: Seq<char>| other != name implies last_position(longer, other)
        == last_position(observed, other) by {}
    assert(last_position(longer, name) == observed.len());
    let result = merged(existing, longer);
    let expected = observe(so_far, seen);
    let grown = added_names(existing, longer);
    assert(result.len() == existing.len() + grown.len());
    assert(result.len() == expected.len());
    assert forall|k: int| 0 <= k < result.len() implies #[trigger] result[k] == expected[k] by {
        if k < existing.len() {
            let e = existing[k];
            lemma_last_position(observed, e.display_name);
            assert(names(existing)[k] == e.display_name);
            assert(so_far[k] == refreshed(e, observed));
            assert(result[k] == refreshed(e, longer));
        } else if k < existing.len() + added.len() {
            let i = k - existing.len();
            lemma_last_position(observed, added[i]);
            assert(added.contains(added[i]));
            assert(grown[i] == added[i]);
            assert(so_far[k] == arrival(added[i], observed));
            assert(result[k] == arrival(added[i], longer));
        } else {
            assert(grown[k - existing.len()] == name);
            assert(result[k] == arrival(name, longer));
        }
    }
    assert(result =~= expected);
}

} // verus!
