//! What holds of every merge and of every move of the dialogue about
//! images, proved from the definitions in `model` and `annotate`.

use vstd::prelude::*;
use crate::annotate::{
    first_move,
    lacks_image,
    next_move,
    next_without_image,
    with_image,
    EventView,
    SearchView,
};
use crate::game::GameView;
use crate::model::{
    added_names,
    last_position,
    lemma_last_position,
    lemma_merged_names,
    lemma_only_in_members,
    lemma_only_in_push,
    merged,
    names,
    only_in,
    refreshed,
    unconfirmed_names,
};

verus! {

/// Where `theirs` holds every name of `ours`, nothing is only in `ours`.
proof fn lemma_only_in_covered(ours: Seq<Seq<char>>, theirs: Seq<Seq<char>>)
    requires
        forall|name: Seq<char>| ours.contains(name) ==> theirs.contains(name),
    ensures
        only_in(ours, theirs) == Seq::<Seq<char>>::empty(),
{
    let found = only_in(ours, theirs);
    lemma_only_in_members(ours, theirs);
    if found.len() > 0 {
        assert(found.contains(found[0]));
    }
    assert(found =~= Seq::<Seq<char>>::empty());
}

/// Names that `theirs` holds too, put behind `ours`, leave what is only in
/// `ours` as it was.
proof fn lemma_only_in_tail(ours: Seq<Seq<char>>, tail: Seq<Seq<char>>, theirs: Seq<Seq<char>>)
    requires
        forall|name: Seq<char>| tail.contains(name) ==> theirs.contains(name),
    ensures
        only_in(ours + tail, theirs) == only_in(ours, theirs),
    decreases tail.len(),
{
    if tail.len() == 0 {
        assert(ours + tail =~= ours);
    } else {
        let shorter = tail.drop_last();
        assert forall|name: Seq<char>| shorter.contains(name) implies theirs.contains(name) by {
            let i = choose|i: int| 0 <= i < shorter.len() && shorter[i] == name;
            assert(tail[i] == name);
        }
        lemma_only_in_tail(ours, shorter, theirs);
        assert(ours + tail =~= (ours + shorter).push(tail.last()));
        assert(tail[tail.len() - 1] == tail.last());
        lemma_only_in_push(ours + shorter, theirs, tail.last());
    }
}

/// Merging the same scan a second time changes no entry and adds none, and
/// it leaves unconfirmed exactly the names that the first merge left so.
pub proof fn lemma_merge_idempotent(existing: Seq<GameView>, observed: Seq<GameView>)
    ensures
        merged(merged(existing, observed), observed) == merged(existing, observed),
        added_names(merged(existing, observed), observed) == Seq::<Seq<char>>::empty(),
        unconfirmed_names(merged(existing, observed), observed) == unconfirmed_names(
            existing,
            observed,
        ),
{
    let once = merged(existing, observed);
    let twice = merged(once, observed);
    let added = added_names(existing, observed);
    lemma_merged_names(existing, observed);
    lemma_only_in_members(names(observed), names(existing));
    lemma_only_in_covered(names(observed), names(once));
    lemma_only_in_tail(names(existing), added, names(observed));
    assert forall|k: int| 0 <= k < once.len() implies #[trigger] twice[k] == once[k] by {
        if k < existing.len() {
            lemma_last_position(observed, existing[k].display_name);
            assert(once[k] == refreshed(existing[k], observed));
        } else {
            let name = added[k - existing.len()];
            assert(added.contains(name));
            lemma_last_position(observed, name);
        }
    }
    assert(twice =~= once);
}

/// Where the scan names every entry of the catalog, merging it a second time
/// is silent: the catalog stays as the first merge left it, nothing is
/// added, and nothing is left unconfirmed.
pub proof fn lemma_second_merge_is_silent(existing: Seq<GameView>, observed: Seq<GameView>)
    requires
        forall|name: Seq<char>| names(existing).contains(name) ==> names(observed).contains(name),
    ensures
        merged(merged(existing, observed), observed) == merged(existing, observed),
        added_names(merged(existing, observed), observed) == Seq::<Seq<char>>::empty(),
        unconfirmed_names(merged(existing, observed), observed) == Seq::<Seq<char>>::empty(),
{
    lemma_merge_idempotent(existing, observed);
    lemma_only_in_covered(names(existing), names(observed));
}

/// An entry of the catalog keeps its place, its name and its image through a
/// merge. If `observed[j]` is the scan's last report of its name, the entry
/// takes location and executable from there.
pub proof fn lemma_merge_keeps_image(
    existing: Seq<GameView>,
    observed: Seq<GameView>,
    i: int,
    j: int,
)
    requires
        0 <= i < existing.len(),
        0 <= j < observed.len(),
        observed[j].display_name == existing[i].display_name,
        forall|k: int|
            j < k < observed.len() ==> (#[trigger] observed[k]).display_name
                != existing[i].display_name,
    ensures
        merged(existing, observed)[i].display_name == existing[i].display_name,
        merged(existing, observed)[i].image_url == existing[i].image_url,
        merged(existing, observed)[i].install_location == observed[j].install_location,
        merged(existing, observed)[i].launch_executable == observed[j].launch_executable,
{
    let name = existing[i].display_name;
    lemma_last_position(observed, name);
    assert(names(observed)[j] == name);
    let at = last_position(observed, name);
    if at < j {
        assert(observed[j].display_name != name);
    }
    assert(at == j);
}

/// A name that the scan reports and the catalog lacks is added exactly once,
/// and the merged catalog holds an entry of that name.
pub proof fn lemma_merge_adds_new_names(
    existing: Seq<GameView>,
    observed: Seq<GameView>,
    name: Seq<char>,
)
    requires
        names(observed).contains(name),
        !names(existing).contains(name),
    ensures
        added_names(existing, observed).contains(name),
        added_names(existing, observed).no_duplicates(),
        names(merged(existing, observed)).contains(name),
{
    lemma_only_in_members(names(observed), names(existing));
    lemma_merged_names(existing, observed);
}

/// A name of the catalog that the scan does not report is left unconfirmed,
/// and every entry of that name stays in the catalog, in its place and
/// untouched.
pub proof fn lemma_merge_keeps_unconfirmed(
    existing: Seq<GameView>,
    observed: Seq<GameView>,
    name: Seq<char>,
)
    requires
        names(existing).contains(name),
        !names(observed).contains(name),
    ensures
        unconfirmed_names(existing, observed).contains(name),
        unconfirmed_names(existing, observed).no_duplicates(),
        names(merged(existing, observed)).contains(name),
        forall|i: int|
            0 <= i < existing.len() && (#[trigger] existing[i]).display_name == name ==> merged(
                existing,
                observed,
            )[i] == existing[i],
{
    lemma_only_in_members(names(existing), names(observed));
    lemma_merged_names(existing, observed);
    lemma_last_position(observed, name);
}

/// Where `next_without_image` points: at the first entry from `from` on
/// that has no image, and at the end of the catalog where there is none.
pub proof fn lemma_next_without_image(catalog: Seq<GameView>, from: int)
    ensures
        from <= catalog.len() ==> from <= next_without_image(catalog, from) <= catalog.len(),
        from > catalog.len() ==> next_without_image(catalog, from) == catalog.len(),
        next_without_image(catalog, from) < catalog.len() ==> lacks_image(
            catalog,
            next_without_image(catalog, from),
        ),
        forall|k: int|
            from <= k < next_without_image(catalog, from) ==> !lacks_image(catalog, k),
    decreases catalog.len() - from,
{
    if from < catalog.len() && !lacks_image(catalog, from) {
        lemma_next_without_image(catalog, from + 1);
    }
}

/// Whether the dialogue, in `state`, asks about an entry that has no image
/// or is over.
pub open spec fn asks_where_image_lacks(catalog: Seq<GameView>, state: SearchView) -> bool {
    match state {
        SearchView::Prompting { index } => lacks_image(catalog, index),
        SearchView::AwaitingConfirmation { index, .. } => lacks_image(catalog, index),
        SearchView::Done => true,
    }
}

/// The dialogue never asks about an entry that has an image: after its
/// first move and after every later one, whatever the state and the event
/// were, it asks about an entry without one or is over.
pub proof fn lemma_dialogue_asks_where_image_lacks(
    catalog: Seq<GameView>,
    state: SearchView,
    event: EventView,
)
    ensures
        asks_where_image_lacks(first_move(catalog).catalog, first_move(catalog).state),
        asks_where_image_lacks(
            next_move(catalog, state, event).catalog,
            next_move(catalog, state, event).state,
        ),
{
    lemma_next_without_image(catalog, 0);
    match state {
        SearchView::Done => {},
        SearchView::Prompting { index } => {
            lemma_next_without_image(catalog, index);
            lemma_next_without_image(catalog, index + 1);
        },
        SearchView::AwaitingConfirmation { index, candidate } => {
            lemma_next_without_image(catalog, index);
            lemma_next_without_image(with_image(catalog, index, candidate), index + 1);
        },
    }
}

/// A move of the dialogue leaves every entry in its place, with its name,
/// its location and its executable, and leaves every image that is there:
/// it changes at most one entry, and gives that one the image it lacked.
pub proof fn lemma_dialogue_keeps_entries(
    catalog: Seq<GameView>,
    state: SearchView,
    event: EventView,
)
    ensures
        first_move(catalog).catalog == catalog,
        next_move(catalog, state, event).catalog.len() == catalog.len(),
        forall|i: int|
            0 <= i < catalog.len() ==> {
                let after = #[trigger] next_move(catalog, state, event).catalog[i];
                &&& after.display_name == catalog[i].display_name
                &&& after.install_location == catalog[i].install_location
                &&& after.launch_executable == catalog[i].launch_executable
                &&& catalog[i].image_url is Some ==> after.image_url == catalog[i].image_url
            },
        forall|i: int, j: int|
            0 <= i < j < catalog.len() ==> #[trigger] next_move(catalog, state, event).catalog[i]
                == catalog[i] || #[trigger] next_move(catalog, state, event).catalog[j]
                == catalog[j],
{
}

} // verus!
