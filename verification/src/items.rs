//! Items lying in a level: who picks them up, what they give, and when
//! they come back; and the powerup clocks they start.
//!
//! Whether a player touches an item is a question of world positions,
//! answered by the caller for the whole frame; the respawn delays and
//! powerup durations are the game's tuning values, handed in as
//! `ItemRules`.
use vstd::prelude::*;

verus! {

#[derive(Clone, Copy, Debug, PartialEq, Eq, Structural)]
pub enum ItemType {
    Health25,
    Health50,
    Health100,
    Armor50,
    Armor100,
    RocketLauncher,
    Railgun,
    Plasmagun,
    Quad,
    Regen,
    Battle,
    Flight,
    Haste,
    Invis,
    Shotgun,
    GrenadeLauncher,
    BFG,
}

/// Frames left of each powerup of a player.
#[derive(Clone, Copy, Debug, PartialEq, Eq, Structural)]
pub struct PowerUps {
    pub quad: u16,
    pub regen: u16,
    pub battle: u16,
    pub flight: u16,
    pub haste: u16,
    pub invis: u16,
}

/// What a pickup reads and changes of a player.
#[derive(Clone, Copy, Debug)]
pub struct Stock {
    pub dead: bool,
    pub health: i32,
    pub armor: i32,
    pub has_weapon: [bool; 9],
    pub ammo: [u8; 9],
    pub powerups: PowerUps,
}

pub struct StockView {
    pub dead: bool,
    pub health: int,
    pub armor: int,
    pub has_weapon: Seq<bool>,
    pub ammo: Seq<u8>,
    pub powerups: PowerUps,
}

impl View for Stock {
    type V = StockView;

    open spec fn view(&self) -> StockView {
        StockView {
            dead: self.dead,
            health: self.health as int,
            armor: self.armor as int,
            has_weapon: self.has_weapon@,
            ammo: self.ammo@,
            powerups: self.powerups,
        }
    }
}

/// An item of the level: shown (`active`) or counting down the frames
/// until it comes back.
#[derive(Clone, Copy, Debug, PartialEq, Eq, Structural)]
pub struct ItemSpot {
    pub item_type: ItemType,
    pub active: bool,
    pub respawn_time: u32,
}

/// Respawn delays (frames) of health, armor, rocket launcher, railgun,
/// plasma gun and powerup items, and the durations (frames) of the
/// powerups.
#[derive(Clone, Copy, Debug)]
pub struct ItemRules {
    pub respawn_health: u32,
    pub respawn_armor: u32,
    pub respawn_weapon: u32,
    pub respawn_powerup: u32,
    pub quad: u16,
    pub regen: u16,
    pub battle: u16,
    pub flight: u16,
    pub haste: u16,
    pub invis: u16,
}

/// The sounds a pickup makes.
#[derive(Clone, Copy, Debug, PartialEq, Eq, Structural)]
pub enum PickupSound {
    Item,
    Armor,
    Weapon,
    Powerup,
    QuadDamage,
}

pub open spec fn min_int(a: int, b: int) -> int {
    if a < b {
        a
    } else {
        b
    }
}

/// Inventory slot, ammo given, ammo cap and respawn delay of a weapon
/// item.
pub open spec fn weapon_item(t: ItemType, rules: ItemRules) -> Option<(int, int, int, u32)> {
    match t {
        ItemType::Shotgun => Some((2, 10, 100, 300)),
        ItemType::GrenadeLauncher => Some((3, 10, 100, 300)),
        ItemType::RocketLauncher => Some((4, 10, 100, rules.respawn_weapon)),
        ItemType::Railgun => Some((6, 10, 100, rules.respawn_weapon)),
        ItemType::Plasmagun => Some((7, 50, 200, rules.respawn_weapon)),
        ItemType::BFG => Some((8, 15, 200, 600)),
        _ => None,
    }
}

/// A player takes an item it touches: the player after it, the item's
/// respawn delay and the sounds made; `None` when the item is left lying
/// (health or armor already at the item's cap).  Weapon items are always
/// taken: the weapon is owned from then on and ammo is added up to a cap.
pub open spec fn take(s: StockView, t: ItemType, rules: ItemRules) -> Option<(StockView, u32, Seq<PickupSound>)> {
    match t {
        ItemType::Health25 => if s.health < 100 {
            Some((StockView { health: min_int(s.health + 25, 100), ..s }, rules.respawn_health, seq![PickupSound::Item]))
        } else {
            None
        },
        ItemType::Health50 => if s.health < 100 {
            Some((StockView { health: min_int(s.health + 50, 100), ..s }, rules.respawn_health, seq![PickupSound::Item]))
        } else {
            None
        },
        ItemType::Health100 => if s.health < 200 {
            Some((StockView { health: min_int(s.health + 100, 200), ..s }, rules.respawn_health, seq![PickupSound::Item]))
        } else {
            None
        },
        ItemType::Armor50 => if s.armor < 100 {
            Some((StockView { armor: min_int(s.armor + 50, 100), ..s }, rules.respawn_armor, seq![PickupSound::Armor]))
        } else {
            None
        },
        ItemType::Armor100 => if s.armor < 200 {
            Some((StockView { armor: min_int(s.armor + 100, 200), ..s }, rules.respawn_armor, seq![PickupSound::Armor]))
        } else {
            None
        },
        ItemType::Quad => Some((
            StockView { powerups: PowerUps { quad: rules.quad, ..s.powerups }, ..s },
            rules.respawn_powerup,
            seq![PickupSound::Powerup, PickupSound::QuadDamage],
        )),
        ItemType::Regen => Some((
            StockView { powerups: PowerUps { regen: rules.regen, ..s.powerups }, ..s },
            rules.respawn_powerup,
            seq![PickupSound::Powerup],
        )),
        ItemType::Battle => Some((
            StockView { powerups: PowerUps { battle: rules.battle, ..s.powerups }, ..s },
            rules.respawn_powerup,
            seq![PickupSound::Powerup],
        )),
        ItemType::Flight => Some((
            StockView { powerups: PowerUps { flight: rules.flight, ..s.powerups }, ..s },
            rules.respawn_powerup,
            seq![PickupSound::Powerup],
        )),
        ItemType::Haste => Some((
            StockView { powerups: PowerUps { haste: rules.haste, ..s.powerups }, ..s },
            rules.respawn_powerup,
            seq![PickupSound::Powerup],
        )),
        ItemType::Invis => Some((
            StockView { powerups: PowerUps { invis: rules.invis, ..s.powerups }, ..s },
            rules.respawn_powerup,
            seq![PickupSound::Powerup],
        )),
        _ => {
            let (slot, add, cap, respawn) = weapon_item(t, rules)->0;
            Some((
                StockView {
                    has_weapon: s.has_weapon.update(slot, true),
                    ammo: s.ammo.update(slot, min_int(s.ammo[slot] + add, cap) as u8),
                    ..s
                },
                respawn,
                seq![PickupSound::Weapon],
            ))
        },
    }
}

/// Law of a pickup: a living player touching a shown health or armor item
/// below that item's cap takes it and gains the item's own amount (25, 50
/// or 100 health; 50 or 100 armor) up to the cap (100, or 200 for the big
/// ones), and nothing else changes about it; at or above the cap the item
/// stays shown and the player unchanged.  A touched weapon item is always
/// taken: the weapon is owned and its ammo grows by the item's amount up to
/// its cap.  A touched powerup is always taken and sets that powerup's
/// clock to its duration.  A taken item hides and counts down the item's
/// respawn delay.
pub proof fn lemma_pickup_amounts(item: ItemSpot, stock: Stock, rules: ItemRules)
    requires
        item.active,
    ensures
        ({
            let s = stock@;
            let v = visit(item, s, true, rules);
            let h = s.health;
            let a = s.armor;
            &&& item.item_type == ItemType::Health25 ==> if h < 100 {
                v.1 == StockView { health: if h + 25 < 100 { h + 25 } else { 100 }, ..s } && !v.0.active
                    && v.0.respawn_time == rules.respawn_health && v.2 == seq![PickupSound::Item]
            } else {
                v.1 == s && v.0 == item && v.2.len() == 0
            }
            &&& item.item_type == ItemType::Health50 ==> if h < 100 {
                v.1 == StockView { health: if h + 50 < 100 { h + 50 } else { 100 }, ..s } && !v.0.active
                    && v.0.respawn_time == rules.respawn_health && v.2 == seq![PickupSound::Item]
            } else {
                v.1 == s && v.0 == item && v.2.len() == 0
            }
            &&& item.item_type == ItemType::Health100 ==> if h < 200 {
                v.1 == StockView { health: if h + 100 < 200 { h + 100 } else { 200 }, ..s } && !v.0.active
                    && v.0.respawn_time == rules.respawn_health && v.2 == seq![PickupSound::Item]
            } else {
                v.1 == s && v.0 == item && v.2.len() == 0
            }
            &&& item.item_type == ItemType::Armor50 ==> if a < 100 {
                v.1 == StockView { armor: if a + 50 < 100 { a + 50 } else { 100 }, ..s } && !v.0.active
                    && v.0.respawn_time == rules.respawn_armor && v.2 == seq![PickupSound::Armor]
            } else {
                v.1 == s && v.0 == item && v.2.len() == 0
            }
            &&& item.item_type == ItemType::Armor100 ==> if a < 200 {
                v.1 == StockView { armor: if a + 100 < 200 { a + 100 } else { 200 }, ..s } && !v.0.active
                    && v.0.respawn_time == rules.respawn_armor && v.2 == seq![PickupSound::Armor]
            } else {
                v.1 == s && v.0 == item && v.2.len() == 0
            }
            &&& item.item_type == ItemType::Shotgun ==> v.1.has_weapon[2] && v.1.ammo[2] == (if s.ammo[2] + 10
                < 100 { s.ammo[2] + 10 } else { 100 }) && v.0.respawn_time == 300
            &&& item.item_type == ItemType::GrenadeLauncher ==> v.1.has_weapon[3] && v.1.ammo[3] == (if s.ammo[3]
                + 10 < 100 { s.ammo[3] + 10 } else { 100 }) && v.0.respawn_time == 300
            &&& item.item_type == ItemType::RocketLauncher ==> v.1.has_weapon[4] && v.1.ammo[4] == (if s.ammo[4]
                + 10 < 100 { s.ammo[4] + 10 } else { 100 }) && v.0.respawn_time == rules.respawn_weapon
            &&& item.item_type == ItemType::Railgun ==> v.1.has_weapon[6] && v.1.ammo[6] == (if s.ammo[6] + 10
                < 100 { s.ammo[6] + 10 } else { 100 }) && v.0.respawn_time == rules.respawn_weapon
            &&& item.item_type == ItemType::Plasmagun ==> v.1.has_weapon[7] && v.1.ammo[7] == (if s.ammo[7] + 50
                < 200 { s.ammo[7] + 50 } else { 200 }) && v.0.respawn_time == rules.respawn_weapon
            &&& item.item_type == ItemType::BFG ==> v.1.has_weapon[8] && v.1.ammo[8] == (if s.ammo[8] + 15 < 200 {
                s.ammo[8] + 15
            } else {
                200
            }) && v.0.respawn_time == 600
            &&& item.item_type == ItemType::Quad ==> v.1.powerups.quad == rules.quad && v.1.health == h
                && v.2 == seq![PickupSound::Powerup, PickupSound::QuadDamage]
                && v.0.respawn_time == rules.respawn_powerup
            &&& item.item_type == ItemType::Regen ==> v.1.powerups.regen == rules.regen && v.1.health == h
                && v.2 == seq![PickupSound::Powerup] && v.0.respawn_time == rules.respawn_powerup
            &&& item.item_type == ItemType::Battle ==> v.1.powerups.battle == rules.battle && v.1.health == h
                && v.2 == seq![PickupSound::Powerup] && v.0.respawn_time == rules.respawn_powerup
            &&& item.item_type == ItemType::Flight ==> v.1.powerups.flight == rules.flight && v.1.health == h
                && v.2 == seq![PickupSound::Powerup] && v.0.respawn_time == rules.respawn_powerup
            &&& item.item_type == ItemType::Haste ==> v.1.powerups.haste == rules.haste && v.1.health == h
                && v.2 == seq![PickupSound::Powerup] && v.0.respawn_time == rules.respawn_powerup
            &&& item.item_type == ItemType::Invis ==> v.1.powerups.invis == rules.invis && v.1.health == h
                && v.2 == seq![PickupSound::Powerup] && v.0.respawn_time == rules.respawn_powerup
            &&& weapon_item(item.item_type, rules) is Some ==> !v.0.active && v.2 == seq![PickupSound::Weapon]
        }),
{
    let s = stock@;
    assert(s.ammo.len() == 9 && s.has_weapon.len() == 9);
    match item.item_type {
        ItemType::Shotgun => {
            assert(weapon_item(item.item_type, rules) == Some::<(int, int, int, u32)>((2, 10, 100, 300)));
        },
        ItemType::GrenadeLauncher => {
            assert(weapon_item(item.item_type, rules) == Some::<(int, int, int, u32)>((3, 10, 100, 300)));
        },
        ItemType::RocketLauncher => {
            assert(weapon_item(item.item_type, rules) == Some::<(int, int, int, u32)>((4, 10, 100, rules.respawn_weapon)));
        },
        ItemType::Railgun => {
            assert(weapon_item(item.item_type, rules) == Some::<(int, int, int, u32)>((6, 10, 100, rules.respawn_weapon)));
        },
        ItemType::Plasmagun => {
            assert(weapon_item(item.item_type, rules) == Some::<(int, int, int, u32)>((7, 50, 200, rules.respawn_weapon)));
        },
        ItemType::BFG => {
            assert(weapon_item(item.item_type, rules) == Some::<(int, int, int, u32)>((8, 15, 200, 600)));
        },
        _ => {},
    }
}

/// Law of a frame: with one item and one living player, the frame is that
/// player going by that item: the item, the player and the ammo check are
/// those of the visit, and the sounds are the visit's, each tagged with
/// item 0.
pub proof fn lemma_single_pickup(item: ItemSpot, stock: Stock, touch: bool, rules: ItemRules)
    requires
        !stock.dead,
    ensures
        ({
            let f = pickup_frame(seq![item], seq![stock@], seq![seq![touch]], rules, 1);
            let v = visit(item, stock@, touch, rules);
            &&& f.0 == seq![v.0]
            &&& f.1 == seq![v.1]
            &&& f.2 == v.2.map_values(|snd: PickupSound| (0usize, snd))
            &&& f.3 == v.3
        }),
{
    let items = seq![item];
    let players = seq![stock@];
    let rows = seq![seq![touch]];
    let f0 = pickup_frame(items, players, rows, rules, 0);
    assert(f0.1[0] == stock@);
    let pass = player_pass(items, stock@, rows[0], rules, 1);
    let p0 = player_pass(items, stock@, rows[0], rules, 0);
    assert(p0.0[0] == item);
    let v = visit(item, stock@, touch, rules);
    assert(pass.0 =~= seq![v.0]);
    assert(f0.1.update(0, pass.1) =~= seq![v.1]);
    assert(f0.2 + pass.2 =~= v.2.map_values(|snd: PickupSound| (0usize, snd)));
}

/// Taking the item keeps the ammo count within a byte.
pub open spec fn take_fits(s: StockView, t: ItemType, rules: ItemRules) -> bool {
    match weapon_item(t, rules) {
        Some((slot, add, _, _)) => s.ammo[slot] + add <= 255,
        None => true,
    }
}

/// One item as a living player goes by it in a frame: a hidden item counts
/// down, or comes back when its count is out; a shown item that the player
/// touches may be taken.  Returns the item, the player, the sounds made and
/// whether the ammo fit.
pub open spec fn visit(item: ItemSpot, s: StockView, touching: bool, rules: ItemRules) -> (ItemSpot, StockView, Seq<PickupSound>, bool) {
    if !item.active {
        if item.respawn_time > 0 {
            (ItemSpot { respawn_time: (item.respawn_time - 1) as u32, ..item }, s, Seq::empty(), true)
        } else {
            (ItemSpot { active: true, ..item }, s, Seq::empty(), true)
        }
    } else if touching {
        match take(s, item.item_type, rules) {
            Some((s2, respawn, sounds)) => (
                ItemSpot { active: false, respawn_time: respawn, ..item },
                s2,
                sounds,
                take_fits(s, item.item_type, rules),
            ),
            None => (item, s, Seq::empty(), true),
        }
    } else {
        (item, s, Seq::empty(), true)
    }
}

/// The sounds of item `i`, each tagged with the item.
pub open spec fn tag_sounds(i: int, sounds: Seq<PickupSound>) -> Seq<(usize, PickupSound)> {
    sounds.map_values(|snd: PickupSound| (i as usize, snd))
}

/// The items, the player, the tagged sounds and whether the ammo always
/// fit, after one player goes by the first `n` items in order.
pub open spec fn player_pass(
    items: Seq<ItemSpot>,
    s: StockView,
    touching: Seq<bool>,
    rules: ItemRules,
    n: nat,
) -> (Seq<ItemSpot>, StockView, Seq<(usize, PickupSound)>, bool)
    decreases n,
{
    if n == 0 {
        (items, s, Seq::empty(), true)
    } else {
        let prev = player_pass(items, s, touching, rules, (n - 1) as nat);
        let v = visit(prev.0[n - 1], prev.1, touching[n - 1], rules);
        (prev.0.update(n - 1, v.0), v.1, prev.2 + tag_sounds(n - 1, v.2), prev.3 && v.3)
    }
}

pub open spec fn stocks_view(v: Seq<Stock>) -> Seq<StockView> {
    v.map_values(|s: Stock| s@)
}

pub open spec fn rows_view(v: Seq<Vec<bool>>) -> Seq<Seq<bool>> {
    v.map_values(|r: Vec<bool>| r@)
}

/// The items and players after the first `m` players have gone by every
/// item, in order; dead players take no part.
pub open spec fn pickup_frame(
    items: Seq<ItemSpot>,
    players: Seq<StockView>,
    touching: Seq<Seq<bool>>,
    rules: ItemRules,
    m: nat,
) -> (Seq<ItemSpot>, Seq<StockView>, Seq<(usize, PickupSound)>, bool)
    decreases m,
{
    if m == 0 {
        (items, players, Seq::empty(), true)
    } else {
        let prev = pickup_frame(items, players, touching, rules, (m - 1) as nat);
        let p = prev.1[m - 1];
        if p.dead {
            prev
        } else {
            let pass = player_pass(prev.0, p, touching[m - 1], rules, prev.0.len());
            (pass.0, prev.1.update(m - 1, pass.1), prev.2 + pass.2, prev.3 && pass.3)
        }
    }
}

proof fn lemma_player_pass_len(items: Seq<ItemSpot>, s: StockView, touching: Seq<bool>, rules: ItemRules, n: nat)
    requires
        n <= items.len(),
    ensures
        player_pass(items, s, touching, rules, n).0.len() == items.len(),
        forall|k: int| n <= k < items.len() ==> #[trigger] player_pass(items, s, touching, rules, n).0[k] == items[k],
    decreases n,
{
    if n > 0 {
        lemma_player_pass_len(items, s, touching, rules, (n - 1) as nat);
    }
}

proof fn lemma_pass_fail_stays(items: Seq<ItemSpot>, s: StockView, touching: Seq<bool>, rules: ItemRules, n1: nat, n2: nat)
    requires
        n1 <= n2,
        !player_pass(items, s, touching, rules, n1).3,
    ensures
        !player_pass(items, s, touching, rules, n2).3,
    decreases n2,
{
    if n2 > n1 {
        lemma_pass_fail_stays(items, s, touching, rules, n1, (n2 - 1) as nat);
    }
}

proof fn lemma_pickup_frame_len(
    items: Seq<ItemSpot>,
    players: Seq<StockView>,
    touching: Seq<Seq<bool>>,
    rules: ItemRules,
    m: nat,
)
    requires
        m <= players.len(),
    ensures
        pickup_frame(items, players, touching, rules, m).0.len() == items.len(),
        pickup_frame(items, players, touching, rules, m).1.len() == players.len(),
        forall|k: int| m <= k < players.len() ==> #[trigger] pickup_frame(items, players, touching, rules, m).1[k] == players[k],
    decreases m,
{
    if m > 0 {
        lemma_pickup_frame_len(items, players, touching, rules, (m - 1) as nat);
        let prev = pickup_frame(items, players, touching, rules, (m - 1) as nat);
        lemma_player_pass_len(prev.0, prev.1[m - 1], touching[m - 1], rules, prev.0.len());
    }
}

/// Law: dead players take no part in a frame of pickups; each leaves the
/// frame exactly as it came in.
pub proof fn lemma_dead_players_unchanged(
    items: Seq<ItemSpot>,
    players: Seq<StockView>,
    touching: Seq<Seq<bool>>,
    rules: ItemRules,
    m: nat,
    k: int,
)
    requires
        m <= players.len(),
        0 <= k < players.len(),
        players[k].dead,
    ensures
        pickup_frame(items, players, touching, rules, m).1[k] == players[k],
    decreases m,
{
    lemma_pickup_frame_len(items, players, touching, rules, m);
    if m > 0 {
        lemma_dead_players_unchanged(items, players, touching, rules, (m - 1) as nat, k);
        lemma_pickup_frame_len(items, players, touching, rules, (m - 1) as nat);
    }
}

proof fn lemma_frame_fail_stays(
    items: Seq<ItemSpot>,
    players: Seq<StockView>,
    touching: Seq<Seq<bool>>,
    rules: ItemRules,
    m1: nat,
    m2: nat,
)
    requires
        m1 <= m2,
        !pickup_frame(items, players, touching, rules, m1).3,
    ensures
        !pickup_frame(items, players, touching, rules, m2).3,
    decreases m2,
{
    if m2 > m1 {
        lemma_frame_fail_stays(items, players, touching, rules, m1, (m2 - 1) as nat);
    }
}

fn give_weapon(s: &mut Stock, slot: usize, add: u8, cap: u8)
    requires
        slot < 9,
        old(s).ammo[slot as int] + add <= 255,
    ensures
        final(s)@ == (StockView {
            has_weapon: old(s)@.has_weapon.update(slot as int, true),
            ammo: old(s)@.ammo.update(slot as int, min_int(old(s).ammo[slot as int] + add, cap as int) as u8),
            ..old(s)@
        }),
{
    s.has_weapon[slot] = true;
    let a = s.ammo[slot] + add;
    s.ammo[slot] = if a < cap {
        a
    } else {
        cap
    };
    assert(final(s)@.has_weapon =~= old(s)@.has_weapon.update(slot as int, true));
}

fn sounds_of(first: PickupSound, second: Option<PickupSound>) -> (v: Vec<PickupSound>)
    ensures
        v@ == match second {
            Some(b) => seq![first, b],
            None => seq![first],
        },
{
    let mut v: Vec<PickupSound> = Vec::new();
    v.push(first);
    match second {
        Some(b) => v.push(b),
        None => {},
    }
    assert(v@ =~= match second {
        Some(b) => seq![first, b],
        None => seq![first],
    });
    v
}

/// Whether taking the item keeps the ammo count within a byte.
fn fits(s: &Stock, t: ItemType, rules: &ItemRules) -> (r: bool)
    ensures
        r == take_fits(s@, t, *rules),
{
    match t {
        ItemType::Shotgun => s.ammo[2] <= 245,
        ItemType::GrenadeLauncher => s.ammo[3] <= 245,
        ItemType::RocketLauncher => s.ammo[4] <= 245,
        ItemType::Railgun => s.ammo[6] <= 245,
        ItemType::Plasmagun => s.ammo[7] <= 205,
        ItemType::BFG => s.ammo[8] <= 240,
        _ => true,
    }
}

/// A living player takes an item it touches (see `take`).
fn take_item(s: &mut Stock, t: ItemType, rules: &ItemRules) -> (r: Option<(u32, Vec<PickupSound>)>)
    requires
        take_fits(old(s)@, t, *rules),
    ensures
        match take(old(s)@, t, *rules) {
            None => r is None && final(s)@ == old(s)@,
            Some(x) => r matches Some(y) && y.0 == x.1 && y.1@ == x.2 && final(s)@ == x.0,
        },
{
    match t {
        ItemType::Health25 => {
            if s.health < 100 {
                s.health = if s.health < 75 { s.health + 25 } else { 100 };
                Some((rules.respawn_health, sounds_of(PickupSound::Item, None)))
            } else {
                None
            }
        },
        ItemType::Health50 => {
            if s.health < 100 {
                s.health = if s.health < 50 { s.health + 50 } else { 100 };
                Some((rules.respawn_health, sounds_of(PickupSound::Item, None)))
            } else {
                None
            }
        },
        ItemType::Health100 => {
            if s.health < 200 {
                s.health = if s.health < 100 { s.health + 100 } else { 200 };
                Some((rules.respawn_health, sounds_of(PickupSound::Item, None)))
            } else {
                None
            }
        },
        ItemType::Armor50 => {
            if s.armor < 100 {
                s.armor = if s.armor < 50 { s.armor + 50 } else { 100 };
                Some((rules.respawn_armor, sounds_of(PickupSound::Armor, None)))
            } else {
                None
            }
        },
        ItemType::Armor100 => {
            if s.armor < 200 {
                s.armor = if s.armor < 100 { s.armor + 100 } else { 200 };
                Some((rules.respawn_armor, sounds_of(PickupSound::Armor, None)))
            } else {
                None
            }
        },
        ItemType::Quad => {
            s.powerups.quad = rules.quad;
            Some((rules.respawn_powerup, sounds_of(PickupSound::Powerup, Some(PickupSound::QuadDamage))))
        },
        ItemType::Regen => {
            s.powerups.regen = rules.regen;
            Some((rules.respawn_powerup, sounds_of(PickupSound::Powerup, None)))
        },
        ItemType::Battle => {
            s.powerups.battle = rules.battle;
            Some((rules.respawn_powerup, sounds_of(PickupSound::Powerup, None)))
        },
        ItemType::Flight => {
            s.powerups.flight = rules.flight;
            Some((rules.respawn_powerup, sounds_of(PickupSound::Powerup, None)))
        },
        ItemType::Haste => {
            s.powerups.haste = rules.haste;
            Some((rules.respawn_powerup, sounds_of(PickupSound::Powerup, None)))
        },
        ItemType::Invis => {
            s.powerups.invis = rules.invis;
            Some((rules.respawn_powerup, sounds_of(PickupSound::Powerup, None)))
        },
        ItemType::Shotgun => {
            give_weapon(s, 2, 10, 100);
            Some((300, sounds_of(PickupSound::Weapon, None)))
        },
        ItemType::GrenadeLauncher => {
            give_weapon(s, 3, 10, 100);
            Some((300, sounds_of(PickupSound::Weapon, None)))
        },
        ItemType::RocketLauncher => {
            give_weapon(s, 4, 10, 100);
            Some((rules.respawn_weapon, sounds_of(PickupSound::Weapon, None)))
        },
        ItemType::Railgun => {
            give_weapon(s, 6, 10, 100);
            Some((rules.respawn_weapon, sounds_of(PickupSound::Weapon, None)))
        },
        ItemType::Plasmagun => {
            give_weapon(s, 7, 50, 200);
            Some((rules.respawn_weapon, sounds_of(PickupSound::Weapon, None)))
        },
        ItemType::BFG => {
            give_weapon(s, 8, 15, 200);
            Some((600, sounds_of(PickupSound::Weapon, None)))
        },
    }
}

/// One item as a living player goes by it (see `visit`); `None`, with
/// nothing changed, when taking it would overflow the ammo count.
fn visit_item(item: &mut ItemSpot, s: &mut Stock, touching: bool, rules: &ItemRules) -> (r: Option<Vec<PickupSound>>)
    ensures
        ({
            let v = visit(*old(item), old(s)@, touching, *rules);
            &&& (r is Some <==> v.3)
            &&& (r matches Some(sounds) ==> *final(item) == v.0 && final(s)@ == v.1 && sounds@ == v.2)
        }),
{
    if !item.active {
        if item.respawn_time > 0 {
            item.respawn_time = item.respawn_time - 1;
        } else {
            item.active = true;
        }
        return Some(Vec::new());
    }
    if !touching {
        return Some(Vec::new());
    }
    if !fits(s, item.item_type, rules) {
        return None;
    }
    match take_item(s, item.item_type, rules) {
        Some((respawn, sounds)) => {
            item.active = false;
            item.respawn_time = respawn;
            Some(sounds)
        },
        None => Some(Vec::new()),
    }
}

/// One frame of item pickups: each living player in turn goes by every
/// item in order (a hidden item counts down once per living player; a
/// shown one that the player touches, `touching[p][i]`, may be taken).
/// Returns the sounds made, each with its item; `None` when a pickup
/// would overflow a player's ammo count, which leaves the frame half done.
pub fn pick_up_items(
    items: &mut Vec<ItemSpot>,
    players: &mut Vec<Stock>,
    touching: &Vec<Vec<bool>>,
    rules: &ItemRules,
) -> (r: Option<Vec<(usize, PickupSound)>>)
    requires
        touching@.len() == old(players)@.len(),
        forall|p: int| 0 <= p < touching@.len() ==> (#[trigger] touching@[p])@.len() == old(items)@.len(),
    ensures
        ({
            let f = pickup_frame(
                old(items)@,
                stocks_view(old(players)@),
                rows_view(touching@),
                *rules,
                old(players)@.len(),
            );
            &&& (r is Some <==> f.3)
            &&& (r matches Some(ev) ==> final(items)@ == f.0 && stocks_view(final(players)@) == f.1 && ev@ == f.2)
        }),
{
    let ghost items0 = items@;
    let ghost players0 = stocks_view(players@);
    let ghost rows = rows_view(touching@);
    let n_players = players.len();
    let mut events: Vec<(usize, PickupSound)> = Vec::new();
    let mut p: usize = 0;
    proof {
        assert(stocks_view(players@) =~= players0);
    }
    while p < n_players
        invariant
            n_players == old(players)@.len(),
            players@.len() == n_players,
            items0 == old(items)@,
            players0 == stocks_view(old(players)@),
            rows == rows_view(touching@),
            touching@.len() == n_players,
            forall|q: int| 0 <= q < touching@.len() ==> (#[trigger] touching@[q])@.len() == items0.len(),
            p <= n_players,
            pickup_frame(items0, players0, rows, *rules, p as nat) == (items@, stocks_view(players@), events@, true),
        decreases n_players - p,
    {
        proof {
            lemma_pickup_frame_len(items0, players0, rows, *rules, p as nat);
        }
        let ghost prev_items = items@;
        let ghost prev_players = stocks_view(players@);
        let ghost prev_events = events@;
        assert(prev_players[p as int] == players@[p as int]@);
        assert(prev_players[p as int] == players0[p as int]);
        let mut s = players[p];
        if !s.dead {
            let ghost s0 = s@;
            let ghost row = rows[p as int];
            assert(row == touching@[p as int]@);
            let n_items = items.len();
            let mut i: usize = 0;
            while i < n_items
                invariant
                    n_items == prev_items.len(),
                    items@.len() == n_items,
                    row.len() == n_items,
                    row == touching@[p as int]@,
                    p < touching@.len(),
                    p < n_players,
                    n_players == touching@.len(),
                    prev_players.len() == n_players,
                    pickup_frame(items0, players0, rows, *rules, p as nat) == (prev_items, prev_players, prev_events, true),
                    prev_players[p as int] == s0,
                    !s0.dead,
                    rows == rows_view(touching@),
                    rows.len() == n_players,
                    rows[p as int] == row,
                    items0 == old(items)@,
                    players0 == stocks_view(old(players)@),
                    n_players == old(players)@.len(),
                    i <= n_items,
                    player_pass(prev_items, s0, row, *rules, i as nat) == (items@, s@, events@.subrange(
                        prev_events.len() as int,
                        events@.len() as int,
                    ), true),
                    prev_events.len() <= events@.len(),
                    events@.subrange(0, prev_events.len() as int) == prev_events,
                decreases n_items - i,
            {
                proof {
                    lemma_player_pass_len(prev_items, s0, row, *rules, i as nat);
                }
                let ghost ev_before = events@;
                let mut it = items[i];
                let t = touching[p][i];
                match visit_item(&mut it, &mut s, t, rules) {
                    None => {
                        proof {
                            assert(!player_pass(prev_items, s0, row, *rules, (i + 1) as nat).3);
                            lemma_pass_fail_stays(prev_items, s0, row, *rules, (i + 1) as nat, prev_items.len());
                            assert(!pickup_frame(items0, players0, rows, *rules, (p + 1) as nat).3);
                            lemma_frame_fail_stays(items0, players0, rows, *rules, (p + 1) as nat, n_players as nat);
                        }
                        return None;
                    },
                    Some(sounds) => {
                        items.set(i, it);
                        let mut k: usize = 0;
                        while k < sounds.len()
                            invariant
                                k <= sounds@.len(),
                                events@ == ev_before + tag_sounds(i as int, sounds@).take(k as int),
                            decreases sounds@.len() - k,
                        {
                            events.push((i, sounds[k]));
                            k += 1;
                            proof {
                                assert(events@ =~= ev_before + tag_sounds(i as int, sounds@).take(k as int));
                            }
                        }
                        proof {
                            assert(tag_sounds(i as int, sounds@).take(k as int) =~= tag_sounds(i as int, sounds@));
                            assert(events@.subrange(prev_events.len() as int, events@.len() as int) =~= ev_before.subrange(
                                prev_events.len() as int,
                                ev_before.len() as int,
                            ) + tag_sounds(i as int, sounds@));
                            assert(events@.subrange(0, prev_events.len() as int) =~= ev_before.subrange(0, prev_events.len() as int));
                        }
                    },
                }
                i += 1;
            }
            players.set(p, s);
            proof {
                assert(events@ =~= prev_events + events@.subrange(prev_events.len() as int, events@.len() as int));
                assert(stocks_view(players@) =~= prev_players.update(p as int, s@));
            }
        }
        p += 1;
    }
    Some(events)
}

pub open spec fn count_down(t: u16) -> u16 {
    if t > 0 {
        (t - 1) as u16
    } else {
        0
    }
}

impl PowerUps {
    /// One frame of the powerup clocks of a living player with `health`:
    /// each running clock counts down, and while regeneration runs a
    /// regeneration pulse (`regen_pulse`) adds one health below 200.
    /// Returns the new health.
    pub fn tick(&mut self, health: i32, regen_pulse: bool) -> (h: i32)
        ensures
            final(self).quad == count_down(old(self).quad),
            final(self).regen == count_down(old(self).regen),
            final(self).battle == count_down(old(self).battle),
            final(self).flight == count_down(old(self).flight),
            final(self).haste == count_down(old(self).haste),
            final(self).invis == count_down(old(self).invis),
            h == if old(self).regen > 0 && regen_pulse && health < 200 {
                health + 1
            } else {
                health as int
            },
    {
        let mut h = health;
        if self.quad > 0 {
            self.quad = self.quad - 1;
        }
        if self.regen > 0 {
            self.regen = self.regen - 1;
            if regen_pulse && h < 200 {
                h = h + 1;
            }
        }
        if self.battle > 0 {
            self.battle = self.battle - 1;
        }
        if self.flight > 0 {
            self.flight = self.flight - 1;
        }
        if self.haste > 0 {
            self.haste = self.haste - 1;
        }
        if self.invis > 0 {
            self.invis = self.invis - 1;
        }
        h
    }
}

/// Health and armor at most 200.
pub open spec fn within_caps(s: StockView) -> bool {
    s.health <= 200 && s.armor <= 200
}

proof fn lemma_pass_keeps_caps(items: Seq<ItemSpot>, s: StockView, touching: Seq<bool>, rules: ItemRules, n: nat)
    requires
        within_caps(s),
    ensures
        within_caps(player_pass(items, s, touching, rules, n).1),
    decreases n,
{
    if n > 0 {
        lemma_pass_keeps_caps(items, s, touching, rules, (n - 1) as nat);
    }
}

/// Law: pickups never raise health or armor above 200; a frame of pickups
/// keeps every player within that cap.
pub proof fn lemma_pickups_keep_caps(
    items: Seq<ItemSpot>,
    players: Seq<StockView>,
    touching: Seq<Seq<bool>>,
    rules: ItemRules,
    m: nat,
)
    requires
        m <= players.len(),
        forall|k: int| 0 <= k < players.len() ==> within_caps(#[trigger] players[k]),
    ensures
        forall|k: int|
            0 <= k < players.len() ==> within_caps(#[trigger] pickup_frame(items, players, touching, rules, m).1[k]),
    decreases m,
{
    lemma_pickup_frame_len(items, players, touching, rules, m);
    if m > 0 {
        lemma_pickups_keep_caps(items, players, touching, rules, (m - 1) as nat);
        lemma_pickup_frame_len(items, players, touching, rules, (m - 1) as nat);
        let prev = pickup_frame(items, players, touching, rules, (m - 1) as nat);
        assert(within_caps(prev.1[m - 1]));
        lemma_pass_keeps_caps(prev.0, prev.1[m - 1], touching[m - 1], rules, prev.0.len());
    }
}

} // verus!
