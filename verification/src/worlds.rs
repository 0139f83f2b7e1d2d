//! Which of the simulated worlds a viewer shows.

use vstd::prelude::*;
use crate::requests;
use crate::requests::parse_usize;
use crate::state::WorldState;
use crate::text;
use crate::text::{lower_text, same_text, split_text, trim_text};

verus! {

pub open spec fn increasing(s: Seq<usize>) -> bool {
    forall|i: int, j: int| 0 <= i < j < s.len() ==> s[i] < s[j]
}

/// The place of `n` in an increasing list: after all that are smaller.
pub open spec fn place_of(s: Seq<usize>, n: usize) -> int
    decreases s.len(),
{
    if s.len() == 0 || s[0] >= n {
        0
    } else {
        1 + place_of(s.drop_first(), n)
    }
}

/// An increasing list with `n` in it.
pub open spec fn with_number(s: Seq<usize>, n: usize) -> Seq<usize> {
    let i = place_of(s, n);
    if i < s.len() && s[i] == n {
        s
    } else {
        s.insert(i, n)
    }
}

/// The numbers among `parts`, each once and in increasing order; what is no number is passed over.
pub open spec fn numbers_among(parts: Seq<Seq<char>>) -> Seq<usize>
    decreases parts.len(),
{
    if parts.len() == 0 {
        Seq::empty()
    } else {
        let before = numbers_among(parts.drop_last());
        match requests::usize_number(text::trimmed(parts.last())) {
            Some(n) => with_number(before, n),
            None => before,
        }
    }
}

/// Whether a selection asks for all worlds.
pub open spec fn selects_all(value: Seq<char>) -> bool {
    text::lowered(text::trimmed(value)) == "all"@
}

/// The worlds named in a comma-separated list; none where the list is `all`.
pub open spec fn world_selection(value: Seq<char>) -> Seq<usize> {
    if selects_all(value) {
        Seq::empty()
    } else {
        numbers_among(text::pieces(text::trimmed(value), ','))
    }
}

proof fn lemma_place_of(s: Seq<usize>, n: usize)
    requires
        increasing(s),
    ensures
        0 <= place_of(s, n) <= s.len(),
        forall|j: int| 0 <= j < place_of(s, n) ==> s[j] < n,
        forall|j: int| place_of(s, n) <= j < s.len() ==> s[j] >= n,
    decreases s.len(),
{
    if s.len() > 0 && s[0] < n {
        let rest = s.drop_first();
        assert forall|i: int, j: int| 0 <= i < j < rest.len() implies rest[i] < rest[j] by {
            assert(s[i + 1] < s[j + 1]);
        }
        lemma_place_of(rest, n);
        assert forall|j: int| 0 <= j < place_of(s, n) implies s[j] < n by {
            if j > 0 {
                assert(rest[j - 1] == s[j]);
            }
        }
        assert forall|j: int| place_of(s, n) <= j < s.len() implies s[j] >= n by {
            assert(rest[j - 1] == s[j]);
        }
    }
}

proof fn lemma_place_unique(s: Seq<usize>, n: usize, i: int)
    requires
        increasing(s),
        0 <= i <= s.len(),
        forall|j: int| 0 <= j < i ==> s[j] < n,
        i < s.len() ==> s[i] >= n,
    ensures
        place_of(s, n) == i,
{
    lemma_place_of(s, n);
    let p = place_of(s, n);
    if p < i {
        assert(s[p] >= n);
    } else if i < p {
        assert(s[i] < n);
    }
}

/// Putting a number into an increasing list keeps it increasing and adds that number only.
proof fn lemma_with_number(s: Seq<usize>, n: usize)
    requires
        increasing(s),
    ensures
        increasing(with_number(s, n)),
        forall|q: usize| with_number(s, n).contains(q) <==> (q == n || s.contains(q)),
{
    lemma_place_of(s, n);
    let i = place_of(s, n);
    if !(i < s.len() && s[i] == n) {
        let t = s.insert(i, n);
        assert forall|a: int, b: int| 0 <= a < b < t.len() implies t[a] < t[b] by {
            if a < i && b > i {
                assert(s[a] < s[b - 1]);
            } else if a > i {
                assert(s[a - 1] < s[b - 1]);
            } else if a == i && b > i {
                assert(s[b - 1] >= n);
                assert(i < s.len() ==> s[i] > n);
                if b - 1 > i {
                    assert(s[i] < s[b - 1]);
                }
            } else {
                assert(b < i ==> s[a] < s[b]);
            }
        }
        assert forall|q: usize| t.contains(q) <==> (q == n || s.contains(q)) by {
            if t.contains(q) {
                let a = choose|a: int| 0 <= a < t.len() && t[a] == q;
                if a < i {
                    assert(s[a] == q);
                } else if a > i {
                    assert(s[a - 1] == q);
                }
            }
            if s.contains(q) {
                let a = choose|a: int| 0 <= a < s.len() && s[a] == q;
                if a < i {
                    assert(t[a] == q);
                } else {
                    assert(t[a + 1] == q);
                }
            }
            assert(t[i] == n);
        }
    }
}

/// Whether one of `parts` is the number `n`.
pub open spec fn names_number(parts: Seq<Seq<char>>, n: usize) -> bool {
    exists|i: int|
        0 <= i < parts.len() && requests::usize_number(text::trimmed(#[trigger] parts[i])) == Some(n)
}

/// A selection is increasing, and holds exactly the numbers that are written in its list.
pub proof fn law_selection_is_sorted_set(parts: Seq<Seq<char>>)
    ensures
        increasing(numbers_among(parts)),
        forall|n: usize| numbers_among(parts).contains(n) <==> names_number(parts, n),
    decreases parts.len(),
{
    if parts.len() > 0 {
        let init = parts.drop_last();
        law_selection_is_sorted_set(init);
        let before = numbers_among(init);
        let last = requests::usize_number(text::trimmed(parts.last()));
        if let Some(n) = last {
            lemma_with_number(before, n);
        }
        assert forall|n: usize| names_number(parts, n) == (names_number(init, n) || last == Some(
            n,
        )) by {
            if names_number(init, n) {
                let i = choose|i: int|
                    0 <= i < init.len() && requests::usize_number(text::trimmed(#[trigger] init[i]))
                        == Some(n);
                assert(parts[i] == init[i]);
            }
            if last == Some(n) {
                assert(parts[parts.len() - 1] == parts.last());
            }
            if names_number(parts, n) {
                let i = choose|i: int|
                    0 <= i < parts.len() && requests::usize_number(text::trimmed(#[trigger] parts[i]))
                        == Some(n);
                if i < init.len() {
                    assert(init[i] == parts[i]);
                }
            }
        }
        assert forall|n: usize| numbers_among(parts).contains(n) <==> names_number(parts, n) by {
            assert(before.contains(n) <==> names_number(init, n));
        }
    }
}

fn insert_number(v: &mut Vec<usize>, n: usize)
    requires
        increasing(old(v)@),
    ensures
        final(v)@ == with_number(old(v)@, n),
        increasing(final(v)@),
{
    let mut i: usize = 0;
    while i < v.len() && v[i] < n
        invariant
            i <= v@.len(),
            forall|j: int| 0 <= j < i ==> v@[j] < n,
        decreases v@.len() - i,
    {
        i += 1;
    }
    proof {
        lemma_place_unique(v@, n, i as int);
        lemma_with_number(v@, n);
    }
    if i == v.len() || v[i] != n {
        v.insert(i, n);
    }
}

/// Whether a selection asks for all worlds.
pub fn asks_for_all(value: &str) -> (r: bool)
    ensures
        r == selects_all(value@),
{
    same_text(lower_text(trim_text(value).as_str()).as_str(), "all")
}

/// The worlds named in a comma-separated list, each once and in increasing order; none where the
/// list is `all`.
pub fn parse_world_selection(value: &str) -> (r: Vec<usize>)
    ensures
        r@ == world_selection(value@),
{
    let mut worlds: Vec<usize> = Vec::new();
    if asks_for_all(value) {
        return worlds;
    }
    let parts = split_text(trim_text(value).as_str(), ',');
    let mut i: usize = 0;
    while i < parts.len()
        invariant
            i <= parts@.len(),
            increasing(worlds@),
            worlds@ == numbers_among(text::texts(parts@.take(i as int))),
        decreases parts@.len() - i,
    {
        let ghost t = text::texts(parts@.take(i + 1));
        assert(t.drop_last() =~= text::texts(parts@.take(i as int)));
        assert(t.last() == parts@[i as int]@);
        if let Some(n) = parse_usize(trim_text(parts[i].as_str()).as_str()) {
            insert_number(&mut worlds, n);
        }
        i += 1;
    }
    assert(parts@.take(parts@.len() as int) =~= parts@);
    worlds
}

/// `0..n`, in order.
pub open spec fn first_numbers(n: nat) -> Seq<usize> {
    Seq::new(n, |i: int| i as usize)
}

/// The worlds to show: all where none were picked, else those picked that there are; the first one
/// where that leaves none.
pub open spec fn shown_worlds(selected: Seq<usize>, world_count: usize) -> Seq<usize> {
    let there = if selected.len() == 0 {
        first_numbers(world_count as nat)
    } else {
        selected.filter(|w: usize| w < world_count)
    };
    if there.len() == 0 {
        seq![0usize]
    } else {
        there
    }
}

/// The worlds to show, given those that were picked.
pub fn selected_worlds_snapshot(selected: &Vec<usize>, world_count: usize) -> (r: Vec<usize>)
    ensures
        r@ == shown_worlds(selected@, world_count),
{
    let mut worlds: Vec<usize> = Vec::new();
    let mut i: usize = 0;
    if selected.len() == 0 {
        while i < world_count
            invariant
                i <= world_count,
                worlds@ =~= first_numbers(i as nat),
            decreases world_count - i,
        {
            worlds.push(i);
            i += 1;
        }
    } else {
        let ghost there = |w: usize| w < world_count;
        assert(selected@.take(0).filter(there) =~= Seq::<usize>::empty()) by {
            reveal(Seq::filter);
        }
        while i < selected.len()
            invariant
                i <= selected@.len(),
                there == (|w: usize| w < world_count),
                worlds@ == selected@.take(i as int).filter(there),
            decreases selected@.len() - i,
        {
            proof {
                reveal(Seq::filter);
                assert(selected@.take(i + 1).drop_last() =~= selected@.take(i as int));
            }
            if selected[i] < world_count {
                worlds.push(selected[i]);
            }
            i += 1;
        }
        assert(selected@.take(selected@.len() as int) =~= selected@);
    }
    if worlds.len() == 0 {
        worlds.push(0);
    }
    worlds
}

/// There is always a world to show, and it is one of those that there are (or the first, where
/// there are none).
pub proof fn law_shown_worlds(selected: Seq<usize>, world_count: usize)
    ensures
        shown_worlds(selected, world_count).len() > 0,
        world_count > 0 ==> forall|i: int|
            0 <= i < shown_worlds(selected, world_count).len() ==> #[trigger] shown_worlds(
                selected,
                world_count,
            )[i] < world_count,
{
    broadcast use vstd::seq_lib::group_filter_ensures;

}

/// Whether there is a state of world `world_id`.
pub open spec fn has_state(states: Seq<WorldState>, world_id: usize) -> bool {
    exists|i: int| 0 <= i < states.len() && (#[trigger] states[i]).world_id == world_id
}

/// The index of the first state of world `world_id`, or the number of states where there is none.
pub open spec fn state_index(states: Seq<WorldState>, world_id: usize) -> int
    decreases states.len(),
{
    if states.len() == 0 || states[0].world_id == world_id {
        0
    } else {
        1 + state_index(states.drop_first(), world_id)
    }
}

proof fn lemma_state_index(states: Seq<WorldState>, world_id: usize, i: int)
    requires
        0 <= i <= states.len(),
        forall|j: int| 0 <= j < i ==> (#[trigger] states[j]).world_id != world_id,
        i < states.len() ==> states[i].world_id == world_id,
    ensures
        state_index(states, world_id) == i,
    decreases states.len(),
{
    if i > 0 {
        let rest = states.drop_first();
        assert(states[0].world_id != world_id);
        assert forall|j: int| 0 <= j < i - 1 implies (#[trigger] rest[j]).world_id != world_id by {
            assert(states[j + 1].world_id != world_id);
        }
        lemma_state_index(rest, world_id, i - 1);
    }
}

/// Where the state of world `world_id` stands in `states`.
pub fn state_by_world_id(states: &[WorldState], world_id: usize) -> (r: Option<usize>)
    ensures
        match r {
            Some(i) => i as int == state_index(states@, world_id) && i < states@.len()
                && states@[i as int].world_id == world_id,
            None => state_index(states@, world_id) == states@.len(),
        },
{
    let mut i: usize = 0;
    while i < states.len() && states[i].world_id != world_id
        invariant
            i <= states@.len(),
            forall|j: int| 0 <= j < i ==> (#[trigger] states@[j]).world_id != world_id,
        decreases states@.len() - i,
    {
        i += 1;
    }
    proof {
        lemma_state_index(states@, world_id, i as int);
    }
    if i < states.len() {
        Some(i)
    } else {
        None
    }
}

/// The state to show for a world: its own, else the one at its index, else the first.
pub open spec fn chosen_state(states: Seq<WorldState>, selected_world: usize) -> Option<int> {
    if states.len() == 0 {
        None
    } else if state_index(states, selected_world) < states.len() {
        Some(state_index(states, selected_world))
    } else if selected_world < states.len() {
        Some(selected_world as int)
    } else {
        Some(0)
    }
}

/// Which of `states` to show for the selected world; none only where there are no states.
pub fn selected_state(states: &[WorldState], selected_world: usize) -> (r: Option<usize>)
    ensures
        match r {
            Some(i) => chosen_state(states@, selected_world) == Some(i as int) && i < states@.len(),
            None => chosen_state(states@, selected_world) is None,
        },
{
    if states.len() == 0 {
        return None;
    }
    match state_by_world_id(states, selected_world) {
        Some(i) => Some(i),
        None => {
            if selected_world < states.len() {
                Some(selected_world)
            } else {
                Some(0)
            }
        },
    }
}

/// The state that is found for a world is the first of that world; where there is none, none is found.
pub proof fn law_the_first_state_of_a_world(states: Seq<WorldState>, world_id: usize)
    ensures
        0 <= state_index(states, world_id) <= states.len(),
        state_index(states, world_id) < states.len() ==> states[state_index(
            states,
            world_id,
        )].world_id == world_id,
        forall|j: int|
            0 <= j < state_index(states, world_id) ==> (#[trigger] states[j]).world_id != world_id,
    decreases states.len(),
{
    if states.len() > 0 && states[0].world_id != world_id {
        let rest = states.drop_first();
        law_the_first_state_of_a_world(rest, world_id);
        assert forall|j: int| 0 <= j < state_index(states, world_id) implies (
        #[trigger] states[j]).world_id != world_id by {
            if j > 0 {
                assert(rest[j - 1] == states[j]);
            }
        }
        if state_index(rest, world_id) < rest.len() {
            assert(rest[state_index(rest, world_id)] == states[state_index(states, world_id)]);
        }
    }
}

/// The state that is shown is one of the selected world wherever there is one; else the one at the
/// selected place, or the first; none only where there are no states.
pub proof fn law_the_selected_world_is_shown(states: Seq<WorldState>, selected_world: usize)
    ensures
        chosen_state(states, selected_world) is None <==> states.len() == 0,
        chosen_state(states, selected_world) matches Some(i) ==> {
            &&& 0 <= i < states.len()
            &&& has_state(states, selected_world) ==> states[i].world_id == selected_world
            &&& !has_state(states, selected_world) && selected_world < states.len() ==> i
                == selected_world
            &&& !has_state(states, selected_world) && selected_world >= states.len() ==> i == 0
        },
{
    law_the_first_state_of_a_world(states, selected_world);
    if has_state(states, selected_world) {
        let k = choose|k: int| 0 <= k < states.len() && (#[trigger] states[k]).world_id
            == selected_world;
        assert(states[k].world_id == selected_world);
        assert(state_index(states, selected_world) <= k);
    } else if state_index(states, selected_world) < states.len() {
        assert(states[state_index(states, selected_world)].world_id == selected_world);
    }
}

/// What is left of a filtered list was in the list.
proof fn lemma_filtered_from(s: Seq<usize>, p: spec_fn(usize) -> bool, j: int) -> (i: int)
    requires
        0 <= j < s.filter(p).len(),
    ensures
        0 <= i < s.len(),
        s[i] == s.filter(p)[j],
        p(s[i]),
    decreases s.len(),
{
    reveal(Seq::filter);
    if s.len() > 0 && j < s.drop_last().filter(p).len() {
        lemma_filtered_from(s.drop_last(), p, j)
    } else {
        s.len() - 1
    }
}

/// The worlds that are shown are all of them where none were picked, else exactly those picked that
/// there are, in their order; the first where that leaves none.
pub proof fn law_picked_worlds_are_shown(selected: Seq<usize>, world_count: usize, w: usize)
    ensures
        selected.len() == 0 && world_count > 0 ==> (shown_worlds(selected, world_count).contains(w)
            <==> w < world_count),
        selected.len() == 0 && world_count > 0 ==> shown_worlds(selected, world_count).len()
            == world_count,
        selected.len() > 0 && selected.contains(w) && w < world_count ==> shown_worlds(
            selected,
            world_count,
        ).contains(w),
        shown_worlds(selected, world_count).contains(w) && selected.len() > 0 ==> selected.contains(w)
            && w < world_count || w == 0,
        (forall|i: int| 0 <= i < selected.len() ==> #[trigger] selected[i] >= world_count)
            && selected.len() > 0 ==> shown_worlds(selected, world_count) == seq![0usize],
{
    broadcast use vstd::seq_lib::group_filter_ensures;

    let all = shown_worlds(selected, world_count);
    if selected.len() == 0 && world_count > 0 {
        assert(all == first_numbers(world_count as nat));
        if w < world_count {
            assert(all[w as int] == w);
        }
        if all.contains(w) {
            let i = choose|i: int| 0 <= i < all.len() && all[i] == w;
            assert(all[i] == i);
        }
    }
    if selected.len() > 0 {
        let p = |v: usize| v < world_count;
        let there = selected.filter(p);
        if there.len() > 0 {
            let i = lemma_filtered_from(selected, p, 0);
            assert(selected[i] < world_count);
            if there.contains(w) {
                let j = choose|j: int| 0 <= j < there.len() && there[j] == w;
                let k = lemma_filtered_from(selected, p, j);
                assert(selected[k] == w);
            }
        } else {
            if all.contains(w) {
                let j = choose|j: int| 0 <= j < all.len() && all[j] == w;
                assert(all[j] == 0);
            }
        }
        if selected.contains(w) && w < world_count {
            let i = choose|i: int| 0 <= i < selected.len() && selected[i] == w;
            assert(there.contains(selected[i]));
        }
    }
}

/// A list of worlds means its numbers, whatever else stands between the commas, and `all` in any
/// case of letters means none in particular.
pub proof fn law_world_lists(value: Seq<char>, n: usize)
    ensures
        text::lowered(text::trimmed(value)) == "all"@ ==> world_selection(value).len() == 0,
        text::lowered(text::trimmed(value)) != "all"@ ==> {
            &&& world_selection(value).contains(n) <==> exists|i: int|
                0 <= i < text::pieces(text::trimmed(value), ',').len() && text::unsigned_number(
                    text::trimmed(#[trigger] text::pieces(text::trimmed(value), ',')[i]),
                    usize::MAX as nat,
                ) == Some(n as nat)
            &&& increasing(world_selection(value))
        },
{
    let parts = text::pieces(text::trimmed(value), ',');
    law_selection_is_sorted_set(parts);
    assert(names_number(parts, n) <==> exists|i: int|
        0 <= i < parts.len() && text::unsigned_number(
            text::trimmed(#[trigger] parts[i]),
            usize::MAX as nat,
        ) == Some(n as nat));
}

} // verus!
