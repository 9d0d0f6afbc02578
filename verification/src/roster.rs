//! Bookkeeping of the bots in a match: which one leaves when one is
//! removed, which number and spawn point a new one gets.
use vstd::prelude::*;

verus! {

/// Index of the last bot among the players, if any.
pub fn last_bot_index(is_bot: &Vec<bool>) -> (r: Option<usize>)
    ensures
        match r {
            Some(i) => i < is_bot@.len() && is_bot@[i as int] && forall|j: int|
                i < j < is_bot@.len() ==> !#[trigger] is_bot@[j],
            None => forall|j: int| 0 <= j < is_bot@.len() ==> !#[trigger] is_bot@[j],
        },
{
    let mut i = is_bot.len();
    while i > 0
        invariant
            i <= is_bot@.len(),
            forall|j: int| i <= j < is_bot@.len() ==> !#[trigger] is_bot@[j],
        decreases i,
    {
        if is_bot[i - 1] {
            return Some(i - 1);
        }
        i -= 1;
    }
    None
}

/// Number of bots among the players.
pub fn bot_count(is_bot: &Vec<bool>) -> (n: usize)
    ensures
        n == is_bot@.filter(|b: bool| b).len(),
{
    let mut n: usize = 0;
    let mut i: usize = 0;
    while i < is_bot.len()
        invariant
            i <= is_bot@.len(),
            n == is_bot@.take(i as int).filter(|b: bool| b).len(),
            n <= i,
        decreases is_bot@.len() - i,
    {
        proof {
            reveal_with_fuel(Seq::<_>::filter, 1);
            assert(is_bot@.take(i + 1).drop_last() =~= is_bot@.take(i as int));
        }
        if is_bot[i] {
            n += 1;
        }
        i += 1;
    }
    assert(is_bot@.take(is_bot@.len() as int) =~= is_bot@);
    n
}

/// Player number of a bot joining a match of `player_count` players
/// (wrapping past the largest number).
pub fn new_bot_id(player_count: usize) -> (id: u16)
    requires
        player_count < usize::MAX,
    ensures
        id == (player_count + 1) as u16,
{
    (player_count + 1) as u16
}

/// Spawn point of a bot joining a match of `player_count` players, among
/// `spawn_points` points: they are used in turn.
pub fn bot_spawn_index(player_count: usize, spawn_points: usize) -> (i: usize)
    ensures
        spawn_points > 0 ==> i == player_count % spawn_points,
        spawn_points == 0 ==> i == 0,
{
    let n = if spawn_points > 1 {
        spawn_points
    } else {
        1
    };
    player_count % n
}

/// The player model picked after `selected` among `count` models, going
/// forward or back and wrapping around at either end.
pub fn cycle_model_index(selected: usize, count: usize, forward: bool) -> (r: usize)
    requires
        count > 0,
        selected < usize::MAX,
    ensures
        forward ==> r == (selected + 1) % (count as int),
        !forward ==> r == if selected == 0 {
            count - 1
        } else {
            selected - 1
        },
{
    if forward {
        (selected + 1) % count
    } else if selected == 0 {
        count - 1
    } else {
        selected - 1
    }
}

} // verus!
