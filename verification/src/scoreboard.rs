//! Frags: who is credited for a kill, and the order of the rows of the
//! scoreboard.
use vstd::prelude::*;

verus! {

/// Row `a` comes before row `b`: more frags first, and among equal frags
/// the player listed first stays first.
pub open spec fn ranks_before(frags: Seq<i32>, a: usize, b: usize) -> bool {
    frags[a as int] > frags[b as int] || (frags[a as int] == frags[b as int] && a < b)
}

/// `order` lists every player index `0..frags.len()` once, in scoreboard
/// order.
pub open spec fn is_scoreboard_order(frags: Seq<i32>, order: Seq<usize>) -> bool {
    &&& order.len() == frags.len()
    &&& forall|k: int| 0 <= k < order.len() ==> #[trigger] order[k] < frags.len()
    &&& forall|v: usize| v < frags.len() ==> #[trigger] order.contains(v)
    &&& forall|p: int, q: int|
        0 <= p < q < order.len() ==> ranks_before(frags, #[trigger] order[p], #[trigger] order[q])
}

proof fn lemma_orders_agree_below(frags: Seq<i32>, o1: Seq<usize>, o2: Seq<usize>, p: nat)
    requires
        is_scoreboard_order(frags, o1),
        is_scoreboard_order(frags, o2),
        p <= o1.len(),
    ensures
        forall|k: int| 0 <= k < p ==> o1[k] == o2[k],
    decreases p,
{
    if p > 0 {
        lemma_orders_agree_below(frags, o1, o2, (p - 1) as nat);
        let i = p - 1;
        let a = o1[i];
        let b = o2[i];
        if a != b {
            assert(o1.contains(b));
            let q = choose|q: int| 0 <= q < o1.len() && o1[q] == b;
            assert(o2.contains(a));
            let r = choose|r: int| 0 <= r < o2.len() && o2[r] == a;
            if q < i {
                assert(o2[q] == b);
                assert(ranks_before(frags, o2[q], o2[i]));
            }
            if r < i {
                assert(o1[r] == a);
                assert(ranks_before(frags, o1[r], o1[i]));
            }
            assert(ranks_before(frags, o1[i], o1[q]));
            assert(ranks_before(frags, o2[i], o2[r]));
        }
    }
}

/// Law: the scoreboard order of given frags is unique: two orders that
/// both list every player once, more frags first and ties in player order,
/// are the same.
pub proof fn lemma_scoreboard_order_unique(frags: Seq<i32>, o1: Seq<usize>, o2: Seq<usize>)
    requires
        is_scoreboard_order(frags, o1),
        is_scoreboard_order(frags, o2),
    ensures
        o1 == o2,
{
    lemma_orders_agree_below(frags, o1, o2, o1.len());
    assert(o1 =~= o2);
}

/// Player indices sorted by frags, most first; players with equal frags
/// keep their order (a stable sort).
pub fn scoreboard_order(frags: &Vec<i32>) -> (order: Vec<usize>)
    ensures
        is_scoreboard_order(frags@, order@),
{
    let n = frags.len();
    let mut order: Vec<usize> = Vec::new();
    let mut i: usize = 0;
    while i < n
        invariant
            n == frags@.len(),
            i <= n,
            order@.len() == i,
            forall|k: int| 0 <= k < order@.len() ==> #[trigger] order@[k] < i,
            forall|v: usize| v < i ==> #[trigger] order@.contains(v),
            forall|p: int, q: int|
                0 <= p < q < order@.len() ==> ranks_before(frags@, #[trigger] order@[p], #[trigger] order@[q]),
        decreases n - i,
    {
        let f = frags[i];
        let mut pos: usize = 0;
        while pos < order.len() && frags[order[pos]] >= f
            invariant
                n == frags@.len(),
                i < n,
                pos <= order@.len(),
                forall|k: int| 0 <= k < order@.len() ==> #[trigger] order@[k] < i,
                forall|k: int| 0 <= k < pos ==> frags@[#[trigger] order@[k] as int] >= f,
            decreases order@.len() - pos,
        {
            pos += 1;
        }
        let ghost before = order@;
        proof {
            if pos < before.len() {
                assert(frags@[before[pos as int] as int] < f);
            }
        }
        order.insert(pos, i);
        proof {
            assert(order@ == before.insert(pos as int, i));
            assert forall|p: int, q: int|
                0 <= p < q < order@.len() implies ranks_before(frags@, #[trigger] order@[p], #[trigger] order@[q]) by {
                if q < pos {
                    assert(order@[p] == before[p] && order@[q] == before[q]);
                } else if q == pos {
                    assert(order@[p] == before[p]);
                    assert(frags@[before[p] as int] >= f);
                } else if p == pos {
                    assert(order@[q] == before[q - 1]);
                    assert(ranks_before(frags@, before[pos as int], before[q - 1]) || q - 1 == pos);
                    if q - 1 > pos {
                        assert(ranks_before(frags@, before[pos as int], before[q - 1]));
                    }
                    assert(frags@[before[q - 1] as int] < f) by {
                        if q - 1 > pos {
                            assert(ranks_before(frags@, before[pos as int], before[q - 1]));
                        }
                    }
                } else if p < pos {
                    assert(order@[p] == before[p] && order@[q] == before[q - 1]);
                } else {
                    assert(order@[p] == before[p - 1] && order@[q] == before[q - 1]);
                }
            }
            assert forall|v: usize| v < i + 1 implies #[trigger] order@.contains(v) by {
                if v == i {
                    assert(order@[pos as int] == v);
                } else {
                    assert(before.contains(v));
                    let k = choose|k: int| 0 <= k < before.len() && before[k] == v;
                    if k < pos {
                        assert(order@[k] == v);
                    } else {
                        assert(order@[k + 1] == v);
                    }
                }
            }
        }
        i += 1;
    }
    order
}

/// `i` is the first player with the given id.
pub open spec fn first_with_id(ids: Seq<u16>, id: u16, i: int) -> bool {
    &&& 0 <= i < ids.len()
    &&& ids[i] == id
    &&& forall|j: int| 0 <= j < i ==> ids[j] != id
}

/// The frag change of a kill for the killer: one more, or one less when
/// the player killed itself.
pub open spec fn kill_delta(killer_id: u16, victim_id: u16) -> int {
    if killer_id == victim_id {
        -1
    } else {
        1
    }
}

/// Credits a kill: the first player with the killer's id gains a frag, or
/// loses one when it killed itself; nobody changes when no player has that
/// id.  Returns the player credited.
pub fn credit_kill(ids: &Vec<u16>, frags: &mut Vec<i32>, killer_id: u16, victim_id: u16) -> (credited: Option<usize>)
    requires
        ids@.len() == old(frags)@.len(),
        forall|i: int|
            #[trigger] first_with_id(ids@, killer_id, i) ==> i32::MIN <= old(frags)@[i] + kill_delta(
                killer_id,
                victim_id,
            ) <= i32::MAX,
    ensures
        match credited {
            Some(i) => first_with_id(ids@, killer_id, i as int) && final(frags)@ == old(frags)@.update(
                i as int,
                (old(frags)@[i as int] + kill_delta(killer_id, victim_id)) as i32,
            ),
            None => (forall|j: int| 0 <= j < ids@.len() ==> ids@[j] != killer_id) && final(frags)@
                == old(frags)@,
        },
{
    let mut i: usize = 0;
    while i < ids.len()
        invariant
            i <= ids@.len(),
            ids@.len() == frags@.len(),
            frags@ == old(frags)@,
            forall|j: int| 0 <= j < i ==> ids@[j] != killer_id,
            forall|k: int|
                #[trigger] first_with_id(ids@, killer_id, k) ==> i32::MIN <= old(frags)@[k] + kill_delta(
                    killer_id,
                    victim_id,
                ) <= i32::MAX,
        decreases ids@.len() - i,
    {
        if ids[i] == killer_id {
            assert(first_with_id(ids@, killer_id, i as int));
            let f = frags[i];
            if killer_id == victim_id {
                frags.set(i, f - 1);
            } else {
                frags.set(i, f + 1);
            }
            return Some(i);
        }
        i += 1;
    }
    None
}

/// One kill credited (see `credit_kill`): the frags after it, the player
/// credited, and whether the new count fits.
pub open spec fn credit_spec(ids: Seq<u16>, frags: Seq<i32>, killer_id: u16, victim_id: u16) -> (
    Seq<i32>,
    Option<usize>,
    bool,
) {
    if exists|i: int| first_with_id(ids, killer_id, i) {
        let i = choose|i: int| first_with_id(ids, killer_id, i);
        let v = frags[i] + kill_delta(killer_id, victim_id);
        (frags.update(i, v as i32), Some(i as usize), i32::MIN <= v <= i32::MAX)
    } else {
        (frags, None, true)
    }
}

/// The frags, the players credited and whether every count fit, after the
/// first `k` kills `(killer, victim)` of a frame are credited in order.
pub open spec fn credit_all(ids: Seq<u16>, frags: Seq<i32>, kills: Seq<(u16, u16)>, k: nat) -> (
    Seq<i32>,
    Seq<Option<usize>>,
    bool,
)
    decreases k,
{
    if k == 0 {
        (frags, Seq::empty(), true)
    } else {
        let prev = credit_all(ids, frags, kills, (k - 1) as nat);
        let c = credit_spec(ids, prev.0, kills[k - 1].0, kills[k - 1].1);
        (c.0, prev.1.push(c.1), prev.2 && c.2)
    }
}

proof fn lemma_credit_fail_stays(ids: Seq<u16>, frags: Seq<i32>, kills: Seq<(u16, u16)>, k1: nat, k2: nat)
    requires
        k1 <= k2,
        !credit_all(ids, frags, kills, k1).2,
    ensures
        !credit_all(ids, frags, kills, k2).2,
    decreases k2,
{
    if k2 > k1 {
        lemma_credit_fail_stays(ids, frags, kills, k1, (k2 - 1) as nat);
    }
}

/// The kills of a frame from projectiles and blasts, credited in order:
/// each killer gains a frag, or loses one for killing itself.  Returns the
/// player credited for each kill (the story campaign counts every one of
/// these kills); `None` when a frag count would overflow, which leaves the
/// frame half done.
pub fn credit_kills(ids: &Vec<u16>, frags: &mut Vec<i32>, kills: &Vec<(u16, u16)>) -> (r: Option<Vec<Option<usize>>>)
    requires
        ids@.len() == old(frags)@.len(),
    ensures
        ({
            let f = credit_all(ids@, old(frags)@, kills@, kills@.len());
            &&& (r is Some <==> f.2)
            &&& (r matches Some(credited) ==> final(frags)@ == f.0 && credited@ == f.1)
        }),
{
    let ghost frags0 = frags@;
    let mut credited: Vec<Option<usize>> = Vec::new();
    let mut k: usize = 0;
    while k < kills.len()
        invariant
            k <= kills@.len(),
            frags0 == old(frags)@,
            ids@.len() == frags@.len(),
            credit_all(ids@, frags0, kills@, k as nat) == (frags@, credited@, true),
        decreases kills@.len() - k,
    {
        let (killer_id, victim_id) = kills[k];
        let ghost before = frags@;
        let mut i: usize = 0;
        let mut fits = true;
        while i < ids.len()
            invariant_except_break
                fits,
            invariant
                i <= ids@.len(),
                ids@.len() == frags@.len(),
                frags@ == before,
                forall|q: int| 0 <= q < i ==> ids@[q] != killer_id,
            ensures
                i <= ids@.len(),
                i < ids@.len() ==> ids@[i as int] == killer_id && fits == (i32::MIN <= frags@[i as int]
                    + kill_delta(killer_id, victim_id) <= i32::MAX),
                i == ids@.len() ==> fits,
            decreases ids@.len() - i,
        {
            if ids[i] == killer_id {
                let f = frags[i];
                fits = if killer_id == victim_id {
                    f > i32::MIN
                } else {
                    f < i32::MAX
                };
                break;
            }
            i += 1;
        }
        proof {
            if i < ids@.len() {
                assert(first_with_id(ids@, killer_id, i as int));
                let c = choose|c: int| first_with_id(ids@, killer_id, c);
                assert(c == i) by {
                    if c < i {
                        assert(ids@[c] != killer_id);
                    }
                    if i < c {
                        assert(ids@[i as int] != killer_id);
                    }
                }
            }
        }
        proof {
            if i == ids@.len() {
                assert forall|c: int| !first_with_id(ids@, killer_id, c) by {
                    if first_with_id(ids@, killer_id, c) {
                        assert(ids@[c] != killer_id);
                    }
                }
            }
        }
        if !fits {
            proof {
                assert(!credit_all(ids@, frags0, kills@, (k + 1) as nat).2);
                lemma_credit_fail_stays(ids@, frags0, kills@, (k + 1) as nat, kills@.len());
            }
            return None;
        }
        proof {
            assert forall|c: int| #[trigger] first_with_id(ids@, killer_id, c) implies i32::MIN <= frags@[c]
                + kill_delta(killer_id, victim_id) <= i32::MAX by {
                if i < ids@.len() {
                    if c < i {
                        assert(ids@[c] != killer_id);
                    }
                    if i < c {
                        assert(ids@[i as int] != killer_id);
                    }
                } else {
                    assert(ids@[c] != killer_id);
                }
            }
        }
        let who = credit_kill(ids, frags, killer_id, victim_id);
        credited.push(who);
        proof {
            match who {
                Some(w) => {
                    let c = choose|c: int| first_with_id(ids@, killer_id, c);
                    assert(c == w as int) by {
                        if c < w {
                            assert(ids@[c] != killer_id);
                        }
                        if w < c {
                            assert(ids@[w as int] != killer_id);
                        }
                    }
                },
                None => {
                    assert(!exists|c: int| first_with_id(ids@, killer_id, c));
                },
            }
            assert(credit_all(ids@, frags0, kills@, (k + 1) as nat) == (frags@, credited@, true));
        }
        k += 1;
    }
    Some(credited)
}

} // verus!
