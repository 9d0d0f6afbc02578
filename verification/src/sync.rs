//! Bringing the projectiles on this side in line with a snapshot from the
//! server.
//!
//! Each snapshot entry moves the projectile of its id, or brings a new one
//! in; afterwards the projectiles that the snapshot no longer lists leave,
//! except this player's own, which stay while they are active.  Positions
//! and speeds are read from the snapshot by the caller; this module decides
//! which projectile each entry goes to and which projectiles remain.
use vstd::prelude::*;

verus! {

/// What the synchronisation reads of a projectile on this side.
#[derive(Clone, Copy, Debug, PartialEq, Eq, Structural)]
pub struct ProjectileTag {
    pub id: u32,
    pub owner_id: u16,
    pub active: bool,
}

/// Where a projectile of the synchronised list comes from: a projectile
/// already here (by index) or a snapshot entry (by index).
#[derive(Clone, Copy, Debug, PartialEq, Eq, Structural)]
pub enum Origin {
    Local(usize),
    Snapshot(usize),
}

/// A projectile of the synchronised list: where it comes from, the last
/// snapshot entry that set its motion, if any, and its tag.
#[derive(Clone, Copy, Debug, PartialEq, Eq, Structural)]
pub struct Synced {
    pub origin: Origin,
    pub updated_by: Option<usize>,
    pub tag: ProjectileTag,
}

/// `k` is the first projectile of `list` with the given id.
pub open spec fn first_of_id(list: Seq<Synced>, id: u32, k: int) -> bool {
    &&& 0 <= k < list.len()
    &&& list[k].tag.id == id
    &&& forall|q: int| 0 <= q < k ==> list[q].tag.id != id
}

/// Snapshot entry `j`, `(id, owner)`, moves the first projectile with its
/// id (which becomes active), or adds a new active one.
pub open spec fn apply_entry(list: Seq<Synced>, j: int, entry: (u32, u16)) -> Seq<Synced> {
    if exists|k: int| first_of_id(list, entry.0, k) {
        let k = choose|k: int| first_of_id(list, entry.0, k);
        list.update(
            k,
            Synced { updated_by: Some(j as usize), tag: ProjectileTag { active: true, ..list[k].tag }, ..list[k] },
        )
    } else {
        list.push(
            Synced {
                origin: Origin::Snapshot(j as usize),
                updated_by: Some(j as usize),
                tag: ProjectileTag { id: entry.0, owner_id: entry.1, active: true },
            },
        )
    }
}

/// The projectiles here, each from itself and not yet moved.
pub open spec fn initial_list(local: Seq<ProjectileTag>) -> Seq<Synced> {
    Seq::new(local.len(), |i: int| Synced { origin: Origin::Local(i as usize), updated_by: None, tag: local[i] })
}

/// The list after the first `n` snapshot entries.
pub open spec fn apply_entries(local: Seq<ProjectileTag>, snapshot: Seq<(u32, u16)>, n: nat) -> Seq<Synced>
    decreases n,
{
    if n == 0 {
        initial_list(local)
    } else {
        apply_entry(apply_entries(local, snapshot, (n - 1) as nat), n - 1, snapshot[n - 1])
    }
}

pub open spec fn listed(snapshot: Seq<(u32, u16)>, id: u32) -> bool {
    exists|j: int| 0 <= j < snapshot.len() && #[trigger] snapshot[j].0 == id
}

/// A projectile stays when it is this player's and active, or when it is
/// another player's and the snapshot lists it.
pub open spec fn stays(s: Synced, snapshot: Seq<(u32, u16)>, local_player_id: u16) -> bool {
    if s.tag.owner_id == local_player_id {
        s.tag.active
    } else {
        listed(snapshot, s.tag.id)
    }
}

/// The projectiles after a snapshot.
pub open spec fn synced_list(local: Seq<ProjectileTag>, snapshot: Seq<(u32, u16)>, local_player_id: u16) -> Seq<Synced> {
    apply_entries(local, snapshot, snapshot.len()).filter(|s: Synced| stays(s, snapshot, local_player_id))
}

pub open spec fn has_id(list: Seq<Synced>, id: u32) -> bool {
    exists|k: int| 0 <= k < list.len() && #[trigger] list[k].tag.id == id
}

pub open spec fn present_active(list: Seq<Synced>, id: u32) -> bool {
    exists|k: int| 0 <= k < list.len() && #[trigger] list[k].tag.id == id && list[k].tag.active
}

proof fn lemma_entries_present(local: Seq<ProjectileTag>, snapshot: Seq<(u32, u16)>, n: nat)
    requires
        n <= snapshot.len(),
    ensures
        forall|j: int| 0 <= j < n ==> present_active(apply_entries(local, snapshot, n), #[trigger] snapshot[j].0),
    decreases n,
{
    if n > 0 {
        lemma_entries_present(local, snapshot, (n - 1) as nat);
        let list = apply_entries(local, snapshot, (n - 1) as nat);
        let e = snapshot[n - 1];
        let next = apply_entries(local, snapshot, n);
        assert(next == apply_entry(list, n - 1, e));
        if exists|k: int| first_of_id(list, e.0, k) {
            let c = choose|k: int| first_of_id(list, e.0, k);
            assert forall|j: int| 0 <= j < n implies present_active(next, #[trigger] snapshot[j].0) by {
                if j == n - 1 {
                    assert(next[c].tag.id == e.0 && next[c].tag.active);
                } else {
                    assert(present_active(list, snapshot[j].0));
                    let k = choose|k: int| 0 <= k < list.len() && #[trigger] list[k].tag.id == snapshot[j].0
                        && list[k].tag.active;
                    assert(next[k].tag.id == snapshot[j].0 && next[k].tag.active);
                }
            }
        } else {
            assert forall|j: int| 0 <= j < n implies present_active(next, #[trigger] snapshot[j].0) by {
                if j == n - 1 {
                    assert(next[list.len() as int].tag.id == e.0 && next[list.len() as int].tag.active);
                } else {
                    assert(present_active(list, snapshot[j].0));
                    let k = choose|k: int| 0 <= k < list.len() && #[trigger] list[k].tag.id == snapshot[j].0
                        && list[k].tag.active;
                    assert(next[k].tag.id == snapshot[j].0 && next[k].tag.active);
                }
            }
        }
    }
}

/// Law: after a sync every projectile that the snapshot lists is in the
/// list, and every projectile of another player in the list is one that
/// the snapshot lists.
pub proof fn lemma_sync_matches_snapshot(local: Seq<ProjectileTag>, snapshot: Seq<(u32, u16)>, local_player_id: u16)
    ensures
        ({
            let out = synced_list(local, snapshot, local_player_id);
            &&& forall|j: int| 0 <= j < snapshot.len() ==> has_id(out, (#[trigger] snapshot[j]).0)
            &&& forall|k: int|
                0 <= k < out.len() && out[k].tag.owner_id != local_player_id ==> listed(snapshot, #[trigger] out[k].tag.id)
        }),
{
    let all = apply_entries(local, snapshot, snapshot.len());
    let pred = |s: Synced| stays(s, snapshot, local_player_id);
    let out = all.filter(pred);
    lemma_entries_present(local, snapshot, snapshot.len());
    assert forall|j: int| 0 <= j < snapshot.len() implies has_id(out, (#[trigger] snapshot[j]).0) by {
        assert(present_active(all, snapshot[j].0));
        let k = choose|k: int| 0 <= k < all.len() && #[trigger] all[k].tag.id == snapshot[j].0 && all[k].tag.active;
        assert(listed(snapshot, all[k].tag.id));
        assert(pred(all[k]));
        all.lemma_filter_contains(pred, k);
        let q = choose|q: int| 0 <= q < out.len() && out[q] == all[k];
        assert(out[q].tag.id == snapshot[j].0);
    }
    assert forall|k: int| 0 <= k < out.len() && out[k].tag.owner_id != local_player_id implies listed(
        snapshot,
        #[trigger] out[k].tag.id,
    ) by {
        all.lemma_filter_pred(pred, k);
    }
}

fn is_listed(snapshot: &Vec<(u32, u16)>, id: u32) -> (r: bool)
    ensures
        r == listed(snapshot@, id),
{
    let mut j: usize = 0;
    while j < snapshot.len()
        invariant
            j <= snapshot@.len(),
            forall|q: int| 0 <= q < j ==> snapshot@[q].0 != id,
        decreases snapshot@.len() - j,
    {
        if snapshot[j].0 == id {
            assert(snapshot@[j as int].0 == id);
            return true;
        }
        j += 1;
    }
    false
}

/// The projectiles after a snapshot, in order: those here first (moved by
/// the entries of their id), then those the snapshot brings in, without the
/// ones that leave.
pub fn sync_projectiles(local: &Vec<ProjectileTag>, snapshot: &Vec<(u32, u16)>, local_player_id: u16) -> (out: Vec<Synced>)
    ensures
        out@ == synced_list(local@, snapshot@, local_player_id),
{
    let mut list: Vec<Synced> = Vec::new();
    let mut i: usize = 0;
    while i < local.len()
        invariant
            i <= local@.len(),
            list@ == initial_list(local@).take(i as int),
        decreases local@.len() - i,
    {
        list.push(Synced { origin: Origin::Local(i), updated_by: None, tag: local[i] });
        i += 1;
        assert(list@ =~= initial_list(local@).take(i as int));
    }
    assert(initial_list(local@).take(i as int) =~= initial_list(local@));
    let mut j: usize = 0;
    while j < snapshot.len()
        invariant
            j <= snapshot@.len(),
            list@ == apply_entries(local@, snapshot@, j as nat),
        decreases snapshot@.len() - j,
    {
        let (id, owner) = snapshot[j];
        let ghost before = list@;
        let mut k: usize = 0;
        let mut found = false;
        while k < list.len()
            invariant_except_break
                !found,
            invariant
                list@ == before,
                k <= list@.len(),
                forall|q: int| 0 <= q < k ==> before[q].tag.id != id,
            ensures
                found ==> k < list@.len() && before[k as int].tag.id == id,
                !found ==> k >= list@.len(),
            decreases list@.len() - k,
        {
            if list[k].tag.id == id {
                found = true;
                break;
            }
            k += 1;
        }
        if found {
            proof {
                assert(first_of_id(before, id, k as int));
                let c = choose|c: int| first_of_id(before, id, c);
                assert(c == k) by {
                    if c < k {
                        assert(before[c].tag.id != id);
                    }
                    if k < c {
                        assert(before[k as int].tag.id != id);
                    }
                }
            }
            let old_entry = list[k];
            let moved = Synced {
                origin: old_entry.origin,
                updated_by: Some(j),
                tag: ProjectileTag { id: old_entry.tag.id, owner_id: old_entry.tag.owner_id, active: true },
            };
            list.set(k, moved);
            assert(list@ =~= apply_entry(before, j as int, (id, owner)));
        } else {
            proof {
                assert forall|c: int| !first_of_id(before, id, c) by {
                    if first_of_id(before, id, c) {
                        assert(before[c].tag.id != id);
                    }
                }
            }
            list.push(Synced {
                origin: Origin::Snapshot(j),
                updated_by: Some(j),
                tag: ProjectileTag { id, owner_id: owner, active: true },
            });
            assert(list@ =~= apply_entry(before, j as int, (id, owner)));
        }
        j += 1;
    }
    let ghost all = list@;
    let mut out: Vec<Synced> = Vec::new();
    let mut m: usize = 0;
    while m < list.len()
        invariant
            list@ == all,
            m <= all.len(),
            out@ == all.take(m as int).filter(|s: Synced| stays(s, snapshot@, local_player_id)),
        decreases all.len() - m,
    {
        let s = list[m];
        let keep = if s.tag.owner_id == local_player_id {
            s.tag.active
        } else {
            is_listed(snapshot, s.tag.id)
        };
        proof {
            reveal_with_fuel(Seq::<_>::filter, 1);
            assert(all.take(m + 1).drop_last() =~= all.take(m as int));
        }
        if keep {
            out.push(s);
        }
        m += 1;
    }
    assert(all.take(m as int) =~= all);
    out
}

} // verus!
