//! The story campaign: a fixed list of levels, each with the enemies to
//! spawn in it and an exit to reach once they are all beaten.
//!
//! Positions here are whole world units and sizes are in tenths; the
//! countdowns of the briefing screen and of the level-complete banner run
//! on the frame clock outside this crate and reach it as events.
use vstd::prelude::*;
use crate::weapon::Weapon;

verus! {

pub struct EnemySpawn {
    pub x: i32,
    pub y: i32,
    pub model: String,
    pub health: i32,
    pub armor: i32,
    pub weapons: [bool; 9],
    pub ammo: [u8; 9],
    pub weapon: Weapon,
    pub spawned: bool,
    pub is_boss: bool,
    pub boss_name: String,
    /// Size relative to a normal player, in tenths.
    pub scale_tenths: u32,
}

#[derive(Clone)]
pub struct StoryLevel {
    pub name: String,
    pub description: String,
    pub briefing: String,
    pub map_name: String,
    pub enemy_spawns: Vec<EnemySpawn>,
    pub exit_x: i32,
    pub exit_y: i32,
    pub exit_radius: i32,
}

#[derive(Clone)]
pub struct StoryMode {
    pub active: bool,
    pub current_level: usize,
    pub levels: Vec<StoryLevel>,
    pub enemies_killed: u32,
    pub total_enemies: u32,
    pub level_complete: bool,
    pub next_level_ready: bool,
    pub show_briefing: bool,
    pub campaign_complete: bool,
}

impl Clone for EnemySpawn {
    fn clone(&self) -> (r: Self)
        ensures
            r == *self,
    {
        EnemySpawn {
            x: self.x,
            y: self.y,
            model: self.model.clone(),
            health: self.health,
            armor: self.armor,
            weapons: self.weapons,
            ammo: self.ammo,
            weapon: self.weapon,
            spawned: self.spawned,
            is_boss: self.is_boss,
            boss_name: self.boss_name.clone(),
            scale_tenths: self.scale_tenths,
        }
    }
}

/// `b` is `a` with only its `spawned` flag possibly changed.
pub open spec fn same_spawn(a: EnemySpawn, b: EnemySpawn) -> bool {
    b == (EnemySpawn { spawned: b.spawned, ..a })
}

/// Two level lists hold the same campaign, spawn flags aside.
pub open spec fn same_campaign(a: Seq<StoryLevel>, b: Seq<StoryLevel>) -> bool {
    &&& a.len() == b.len()
    &&& forall|l: int|
        0 <= l < a.len() ==> {
            &&& (#[trigger] b[l]).name == a[l].name
            &&& b[l].description == a[l].description
            &&& b[l].briefing == a[l].briefing
            &&& b[l].map_name == a[l].map_name
            &&& b[l].exit_x == a[l].exit_x
            &&& b[l].exit_y == a[l].exit_y
            &&& b[l].exit_radius == a[l].exit_radius
            &&& b[l].enemy_spawns@.len() == a[l].enemy_spawns@.len()
            &&& forall|k: int|
                0 <= k < a[l].enemy_spawns@.len() ==> same_spawn(
                    #[trigger] a[l].enemy_spawns@[k],
                    b[l].enemy_spawns@[k],
                )
        }
}

/// The progress part of the story state: flags, counters and which enemies
/// have been spawned, per level.
pub struct Progress {
    pub active: bool,
    pub current_level: int,
    pub enemies_killed: int,
    pub total_enemies: int,
    pub level_complete: bool,
    pub next_level_ready: bool,
    pub show_briefing: bool,
    pub campaign_complete: bool,
    pub spawned: Seq<Seq<bool>>,
}

pub open spec fn spawned_flags(levels: Seq<StoryLevel>) -> Seq<Seq<bool>> {
    levels.map_values(|lv: StoryLevel| lv.enemy_spawns@.map_values(|s: EnemySpawn| s.spawned))
}

/// One frame of the story state.  Nothing happens outside an active level.
/// During the briefing, the only change is the end of the briefing when
/// its countdown has run out.  Otherwise every enemy of the level that has
/// not been spawned yet is spawned now; the level is complete once no
/// enemy is alive (counted before the new ones join); and a player at the
/// exit of a complete level makes the next level ready.
pub open spec fn update_progress(
    p: Progress,
    briefing_expired: bool,
    alive_enemies: int,
    player_at_exit: bool,
) -> Progress {
    if !p.active || p.current_level < 0 || p.current_level >= p.spawned.len() {
        p
    } else if p.show_briefing {
        Progress { show_briefing: !briefing_expired, ..p }
    } else {
        let l = p.current_level;
        let complete = p.level_complete || alive_enemies == 0;
        Progress {
            spawned: p.spawned.update(l, Seq::new(p.spawned[l].len(), |k: int| true)),
            level_complete: complete,
            next_level_ready: p.next_level_ready || (complete && player_at_exit),
            ..p
        }
    }
}

/// Whether `update_progress` hands over a level change.
pub open spec fn change_level(
    p: Progress,
    alive_enemies: int,
    player_at_exit: bool,
) -> bool {
    p.active && 0 <= p.current_level < p.spawned.len() && !p.show_briefing && player_at_exit && (
    p.level_complete || alive_enemies == 0)
}

/// Moving on to the next level: counters and flags start over with its
/// briefing; past the last level the campaign is complete.
pub open spec fn advance_progress(p: Progress) -> Progress {
    let next = p.current_level + 1;
    let base = Progress {
        current_level: next,
        level_complete: false,
        next_level_ready: false,
        enemies_killed: 0,
        show_briefing: true,
        ..p
    };
    if next < p.spawned.len() {
        base
    } else {
        Progress { active: false, campaign_complete: true, ..base }
    }
}

/// Law of the campaign state: the next level is only ever ready when the
/// current one is complete, and a finished campaign is no longer active.
pub open spec fn progress_consistent(p: Progress) -> bool {
    &&& p.next_level_ready ==> p.level_complete
    &&& p.campaign_complete ==> !p.active && p.current_level >= p.spawned.len()
}

/// Frame updates keep the campaign state consistent.
pub proof fn lemma_update_keeps_consistent(p: Progress, e: bool, alive: int, at_exit: bool)
    requires
        progress_consistent(p),
    ensures
        progress_consistent(update_progress(p, e, alive, at_exit)),
{
}

/// Moving to the next level keeps the campaign state consistent.
pub proof fn lemma_advance_keeps_consistent(p: Progress)
    requires
        progress_consistent(p),
    ensures
        progress_consistent(advance_progress(p)),
{
}

/// Enemies are spawned once: after a frame outside the briefing, a second
/// frame of the same level finds every enemy of the level spawned already.
pub proof fn lemma_spawns_once(p: Progress, e1: bool, a1: int, x1: bool)
    requires
        p.active,
        0 <= p.current_level < p.spawned.len(),
        !p.show_briefing,
    ensures
        ({
            let q = update_progress(p, e1, a1, x1);
            forall|k: int|
                0 <= k < q.spawned[q.current_level].len() ==> #[trigger] q.spawned[q.current_level][k]
        }),
{
}

/// `s` is the spawn with these values, not yet spawned.
pub open spec fn spawn_is(
    s: EnemySpawn,
    x: int,
    y: int,
    model: Seq<char>,
    health: int,
    armor: int,
    weapons: Seq<bool>,
    ammo: Seq<u8>,
    weapon: Weapon,
    is_boss: bool,
    boss_name: Seq<char>,
    scale_tenths: int,
) -> bool {
    &&& s.x == x
    &&& s.y == y
    &&& s.model@ == model
    &&& s.health == health
    &&& s.armor == armor
    &&& s.weapons@ == weapons
    &&& s.ammo@ == ammo
    &&& s.weapon == weapon
    &&& !s.spawned
    &&& s.is_boss == is_boss
    &&& s.boss_name@ == boss_name
    &&& s.scale_tenths == scale_tenths
}

/// `lv` is the level with these texts and exit.
pub open spec fn level_is(
    lv: StoryLevel,
    name: Seq<char>,
    description: Seq<char>,
    briefing: Seq<char>,
    map_name: Seq<char>,
    exit_x: int,
    exit_y: int,
    exit_radius: int,
) -> bool {
    &&& lv.name@ == name
    &&& lv.description@ == description
    &&& lv.briefing@ == briefing
    &&& lv.map_name@ == map_name
    &&& lv.exit_x == exit_x
    &&& lv.exit_y == exit_y
    &&& lv.exit_radius == exit_radius
}

fn enemy(
    x: i32,
    y: i32,
    model: &str,
    health: i32,
    armor: i32,
    weapons: [bool; 9],
    ammo: [u8; 9],
    weapon: Weapon,
    is_boss: bool,
    boss_name: &str,
    scale_tenths: u32,
) -> (s: EnemySpawn)
    ensures
        s.x == x,
        s.y == y,
        s.model@ == model@,
        s.health == health,
        s.armor == armor,
        s.weapons == weapons,
        s.ammo == ammo,
        s.weapon == weapon,
        !s.spawned,
        s.is_boss == is_boss,
        s.boss_name@ == boss_name@,
        s.scale_tenths == scale_tenths,
{
    EnemySpawn {
        x,
        y,
        model: model.to_owned(),
        health,
        armor,
        weapons,
        ammo,
        weapon,
        spawned: false,
        is_boss,
        boss_name: boss_name.to_owned(),
        scale_tenths,
    }
}

fn level(
    name: &str,
    description: &str,
    briefing: &str,
    map_name: &str,
    enemy_spawns: Vec<EnemySpawn>,
    exit_x: i32,
    exit_y: i32,
    exit_radius: i32,
) -> (lv: StoryLevel)
    ensures
        lv.name@ == name@,
        lv.description@ == description@,
        lv.briefing@ == briefing@,
        lv.map_name@ == map_name@,
        lv.enemy_spawns@ == enemy_spawns@,
        lv.exit_x == exit_x,
        lv.exit_y == exit_y,
        lv.exit_radius == exit_radius,
{
    StoryLevel {
        name: name.to_owned(),
        description: description.to_owned(),
        briefing: briefing.to_owned(),
        map_name: map_name.to_owned(),
        enemy_spawns,
        exit_x,
        exit_y,
        exit_radius,
    }
}

pub open spec fn none_spawned(levels: Seq<StoryLevel>) -> bool {
    forall|l: int, k: int|
        0 <= l < levels.len() && 0 <= k < levels[l].enemy_spawns@.len() ==> !(
        #[trigger] levels[l].enemy_spawns@[k]).spawned
}

/// `levels` is the campaign: its five levels, each with its texts, exit
/// and enemies, none of them spawned yet.
pub open spec fn is_campaign(levels: Seq<StoryLevel>) -> bool {
    &&& levels.len() == 5
    &&& levels[0].map_name@ == "0-arena"@
    &&& levels[1].map_name@ == "1-arena"@
    &&& levels[2].map_name@ == "new_map"@
    &&& levels[3].map_name@ == "2-arena"@
    &&& levels[4].map_name@ == "my_arena"@
    &&& levels[0].enemy_spawns@.len() == 3
    &&& levels[1].enemy_spawns@.len() == 4
    &&& levels[2].enemy_spawns@.len() == 5
    &&& levels[3].enemy_spawns@.len() == 6
    &&& levels[4].enemy_spawns@.len() == 5
    &&& none_spawned(levels)
    &&& spawn_is(levels[0].enemy_spawns@[0], 620, 170, "grunt"@, 100, 0, seq![true, true, false, false, false, false, false, false, false], seq![255, 100, 0, 0, 0, 0, 0, 0, 0], Weapon::MachineGun, false, ""@, 10)
    &&& spawn_is(levels[0].enemy_spawns@[1], 850, 290, "grunt"@, 100, 0, seq![true, true, false, false, false, false, false, false, false], seq![255, 100, 0, 0, 0, 0, 0, 0, 0], Weapon::MachineGun, false, ""@, 10)
    &&& spawn_is(levels[0].enemy_spawns@[2], 1350, 285, "sarge"@, 150, 25, seq![true, true, true, false, false, false, false, false, false], seq![255, 150, 80, 0, 0, 0, 0, 0, 0], Weapon::Shotgun, false, ""@, 10)
    &&& level_is(levels[0], "TRAINING GROUND"@, "First Contact"@, "Vadrigar prison breached. Corrupted soldiers detected in sector 0."@, "0-arena"@, 850, 600, 120)
    &&& spawn_is(levels[1].enemy_spawns@[0], 600, 350, "razor"@, 180, 50, seq![true, true, false, true, false, false, false, false, false], seq![255, 100, 0, 150, 0, 0, 0, 0, 0], Weapon::GrenadeLauncher, false, ""@, 10)
    &&& spawn_is(levels[1].enemy_spawns@[1], 1000, 250, "visor"@, 180, 50, seq![true, true, true, false, false, false, false, false, false], seq![255, 150, 100, 0, 0, 0, 0, 0, 0], Weapon::Shotgun, false, ""@, 10)
    &&& spawn_is(levels[1].enemy_spawns@[2], 1400, 350, "hunter"@, 200, 75, seq![true, true, false, false, true, false, false, false, false], seq![255, 150, 0, 0, 150, 0, 0, 0, 0], Weapon::RocketLauncher, false, ""@, 10)
    &&& spawn_is(levels[1].enemy_spawns@[3], 1200, 500, "keel"@, 200, 50, seq![true, true, true, true, false, false, false, false, false], seq![255, 150, 100, 150, 0, 0, 0, 0, 0], Weapon::GrenadeLauncher, false, ""@, 10)
    &&& level_is(levels[1], "BLOOD ARENA"@, "The Spread"@, "Corruption accelerating. Elite squads deployed to sector 1."@, "1-arena"@, 850, 550, 120)
    &&& spawn_is(levels[2].enemy_spawns@[0], 600, 300, "bones"@, 220, 75, seq![true, true, true, true, false, false, false, false, false], seq![255, 200, 150, 150, 0, 0, 0, 0, 0], Weapon::GrenadeLauncher, false, ""@, 10)
    &&& spawn_is(levels[2].enemy_spawns@[1], 800, 400, "uriel"@, 250, 75, seq![true, true, false, false, true, false, false, true, false], seq![255, 200, 0, 0, 150, 0, 0, 200, 0], Weapon::Plasmagun, false, ""@, 10)
    &&& spawn_is(levels[2].enemy_spawns@[2], 1200, 300, "crash"@, 250, 100, seq![true, true, true, false, true, false, true, false, false], seq![255, 200, 150, 0, 150, 0, 100, 0, 0], Weapon::Railgun, false, ""@, 10)
    &&& spawn_is(levels[2].enemy_spawns@[3], 1000, 500, "orbb"@, 250, 100, seq![true, true, true, true, true, false, true, false, false], seq![255, 200, 150, 150, 150, 0, 150, 0, 0], Weapon::RocketLauncher, false, ""@, 10)
    &&& spawn_is(levels[2].enemy_spawns@[4], 900, 250, "doom"@, 700, 200, seq![true, true, true, true, true, false, true, true, false], seq![255, 255, 200, 200, 200, 0, 200, 200, 0], Weapon::RocketLauncher, true, "DOOM INCARNATE"@, 14)
    &&& level_is(levels[2], "DIMENSIONAL RIFT"@, "Reality Fractures"@, "WARNING: Dimensional tear expanding. Boss-class entity approaching!"@, "new_map"@, 750, 250, 120)
    &&& spawn_is(levels[3].enemy_spawns@[0], 700, 300, "slash"@, 300, 120, seq![true, true, true, true, true, false, true, false, false], seq![255, 255, 200, 200, 200, 0, 180, 0, 0], Weapon::RocketLauncher, false, ""@, 10)
    &&& spawn_is(levels[3].enemy_spawns@[1], 900, 450, "lucy"@, 300, 120, seq![true, true, true, true, true, false, true, true, false], seq![255, 255, 200, 200, 200, 0, 180, 200, 0], Weapon::Plasmagun, false, ""@, 10)
    &&& spawn_is(levels[3].enemy_spawns@[2], 1300, 300, "anarki"@, 300, 120, seq![true, true, true, true, true, false, true, false, false], seq![255, 255, 200, 200, 200, 0, 180, 0, 0], Weapon::GrenadeLauncher, false, ""@, 10)
    &&& spawn_is(levels[3].enemy_spawns@[3], 1500, 450, "biker"@, 350, 150, seq![true, true, true, true, true, false, true, true, false], seq![255, 255, 200, 200, 200, 0, 200, 200, 0], Weapon::Railgun, false, ""@, 10)
    &&& spawn_is(levels[3].enemy_spawns@[4], 1100, 250, "xaero"@, 800, 280, seq![true, true, true, true, true, false, true, true, false], seq![255, 255, 255, 255, 255, 0, 255, 255, 0], Weapon::Railgun, true, "XAERO THE DESTROYER"@, 15)
    &&& spawn_is(levels[3].enemy_spawns@[5], 1100, 550, "major"@, 800, 280, seq![true, true, true, true, true, false, true, true, false], seq![255, 255, 255, 255, 255, 0, 255, 255, 0], Weapon::RocketLauncher, true, "MAJOR DEVASTATION"@, 15)
    &&& level_is(levels[3], "DARK TOURNAMENT"@, "Champions Fall"@, "CRITICAL: Multiple champion signatures! Dimensional overlords detected!"@, "2-arena"@, 900, 500, 120)
    &&& spawn_is(levels[4].enemy_spawns@[0], 700, 250, "sorlag"@, 900, 350, seq![true, true, true, true, true, false, true, true, true], seq![255, 255, 255, 255, 255, 0, 255, 255, 220], Weapon::BFG, true, "SORLAG DIMENSION LORD"@, 16)
    &&& spawn_is(levels[4].enemy_spawns@[1], 1300, 250, "klesk"@, 900, 350, seq![true, true, true, true, true, false, true, true, true], seq![255, 255, 255, 255, 255, 0, 255, 255, 220], Weapon::Plasmagun, true, "KLESK VOID WARRIOR"@, 16)
    &&& spawn_is(levels[4].enemy_spawns@[2], 900, 500, "mynx"@, 900, 350, seq![true, true, true, true, true, false, true, true, true], seq![255, 255, 255, 255, 255, 0, 255, 255, 220], Weapon::Railgun, true, "MYNX SHADOW QUEEN"@, 16)
    &&& spawn_is(levels[4].enemy_spawns@[3], 1100, 500, "ranger"@, 1000, 400, seq![true, true, true, true, true, false, true, true, true], seq![255, 255, 255, 255, 255, 0, 255, 255, 255], Weapon::RocketLauncher, true, "RANGER ETERNAL"@, 17)
    &&& spawn_is(levels[4].enemy_spawns@[4], 1000, 350, "tankjr"@, 2500, 600, seq![true, true, true, true, true, false, true, true, true], seq![255, 255, 255, 255, 255, 0, 255, 255, 255], Weapon::BFG, true, "THE VOID KEEPER"@, 22)
    &&& level_is(levels[4], "VOID NEXUS"@, "THE SOURCE"@, "FINAL OPERATION: Breach core located. Destroy the Void Keeper!"@, "my_arena"@, 1000, 700, 130)
}

impl StoryMode {
    pub open spec fn progress(&self) -> Progress {
        Progress {
            active: self.active,
            current_level: self.current_level as int,
            enemies_killed: self.enemies_killed as int,
            total_enemies: self.total_enemies as int,
            level_complete: self.level_complete,
            next_level_ready: self.next_level_ready,
            show_briefing: self.show_briefing,
            campaign_complete: self.campaign_complete,
            spawned: spawned_flags(self.levels@),
        }
    }

    /// The five levels of the campaign, in order.
    pub fn create_campaign() -> (levels: Vec<StoryLevel>)
        ensures
            is_campaign(levels@),
    {
        let mut levels: Vec<StoryLevel> = Vec::new();
        let mut spawns: Vec<EnemySpawn> = Vec::new();
        spawns.push(enemy(620, 170, "grunt", 100, 0, [true, true, false, false, false, false, false, false, false], [255, 100, 0, 0, 0, 0, 0, 0, 0], Weapon::MachineGun, false, "", 10));
        spawns.push(enemy(850, 290, "grunt", 100, 0, [true, true, false, false, false, false, false, false, false], [255, 100, 0, 0, 0, 0, 0, 0, 0], Weapon::MachineGun, false, "", 10));
        spawns.push(enemy(1350, 285, "sarge", 150, 25, [true, true, true, false, false, false, false, false, false], [255, 150, 80, 0, 0, 0, 0, 0, 0], Weapon::Shotgun, false, "", 10));
        levels.push(level("TRAINING GROUND", "First Contact", "Vadrigar prison breached. Corrupted soldiers detected in sector 0.", "0-arena", spawns, 850, 600, 120));
        let mut spawns: Vec<EnemySpawn> = Vec::new();
        spawns.push(enemy(600, 350, "razor", 180, 50, [true, true, false, true, false, false, false, false, false], [255, 100, 0, 150, 0, 0, 0, 0, 0], Weapon::GrenadeLauncher, false, "", 10));
        spawns.push(enemy(1000, 250, "visor", 180, 50, [true, true, true, false, false, false, false, false, false], [255, 150, 100, 0, 0, 0, 0, 0, 0], Weapon::Shotgun, false, "", 10));
        spawns.push(enemy(1400, 350, "hunter", 200, 75, [true, true, false, false, true, false, false, false, false], [255, 150, 0, 0, 150, 0, 0, 0, 0], Weapon::RocketLauncher, false, "", 10));
        spawns.push(enemy(1200, 500, "keel", 200, 50, [true, true, true, true, false, false, false, false, false], [255, 150, 100, 150, 0, 0, 0, 0, 0], Weapon::GrenadeLauncher, false, "", 10));
        levels.push(level("BLOOD ARENA", "The Spread", "Corruption accelerating. Elite squads deployed to sector 1.", "1-arena", spawns, 850, 550, 120));
        let mut spawns: Vec<EnemySpawn> = Vec::new();
        spawns.push(enemy(600, 300, "bones", 220, 75, [true, true, true, true, false, false, false, false, false], [255, 200, 150, 150, 0, 0, 0, 0, 0], Weapon::GrenadeLauncher, false, "", 10));
        spawns.push(enemy(800, 400, "uriel", 250, 75, [true, true, false, false, true, false, false, true, false], [255, 200, 0, 0, 150, 0, 0, 200, 0], Weapon::Plasmagun, false, "", 10));
        spawns.push(enemy(1200, 300, "crash", 250, 100, [true, true, true, false, true, false, true, false, false], [255, 200, 150, 0, 150, 0, 100, 0, 0], Weapon::Railgun, false, "", 10));
        spawns.push(enemy(1000, 500, "orbb", 250, 100, [true, true, true, true, true, false, true, false, false], [255, 200, 150, 150, 150, 0, 150, 0, 0], Weapon::RocketLauncher, false, "", 10));
        spawns.push(enemy(900, 250, "doom", 700, 200, [true, true, true, true, true, false, true, true, false], [255, 255, 200, 200, 200, 0, 200, 200, 0], Weapon::RocketLauncher, true, "DOOM INCARNATE", 14));
        levels.push(level("DIMENSIONAL RIFT", "Reality Fractures", "WARNING: Dimensional tear expanding. Boss-class entity approaching!", "new_map", spawns, 750, 250, 120));
        let mut spawns: Vec<EnemySpawn> = Vec::new();
        spawns.push(enemy(700, 300, "slash", 300, 120, [true, true, true, true, true, false, true, false, false], [255, 255, 200, 200, 200, 0, 180, 0, 0], Weapon::RocketLauncher, false, "", 10));
        spawns.push(enemy(900, 450, "lucy", 300, 120, [true, true, true, true, true, false, true, true, false], [255, 255, 200, 200, 200, 0, 180, 200, 0], Weapon::Plasmagun, false, "", 10));
        spawns.push(enemy(1300, 300, "anarki", 300, 120, [true, true, true, true, true, false, true, false, false], [255, 255, 200, 200, 200, 0, 180, 0, 0], Weapon::GrenadeLauncher, false, "", 10));
        spawns.push(enemy(1500, 450, "biker", 350, 150, [true, true, true, true, true, false, true, true, false], [255, 255, 200, 200, 200, 0, 200, 200, 0], Weapon::Railgun, false, "", 10));
        spawns.push(enemy(1100, 250, "xaero", 800, 280, [true, true, true, true, true, false, true, true, false], [255, 255, 255, 255, 255, 0, 255, 255, 0], Weapon::Railgun, true, "XAERO THE DESTROYER", 15));
        spawns.push(enemy(1100, 550, "major", 800, 280, [true, true, true, true, true, false, true, true, false], [255, 255, 255, 255, 255, 0, 255, 255, 0], Weapon::RocketLauncher, true, "MAJOR DEVASTATION", 15));
        levels.push(level("DARK TOURNAMENT", "Champions Fall", "CRITICAL: Multiple champion signatures! Dimensional overlords detected!", "2-arena", spawns, 900, 500, 120));
        let mut spawns: Vec<EnemySpawn> = Vec::new();
        spawns.push(enemy(700, 250, "sorlag", 900, 350, [true, true, true, true, true, false, true, true, true], [255, 255, 255, 255, 255, 0, 255, 255, 220], Weapon::BFG, true, "SORLAG DIMENSION LORD", 16));
        spawns.push(enemy(1300, 250, "klesk", 900, 350, [true, true, true, true, true, false, true, true, true], [255, 255, 255, 255, 255, 0, 255, 255, 220], Weapon::Plasmagun, true, "KLESK VOID WARRIOR", 16));
        spawns.push(enemy(900, 500, "mynx", 900, 350, [true, true, true, true, true, false, true, true, true], [255, 255, 255, 255, 255, 0, 255, 255, 220], Weapon::Railgun, true, "MYNX SHADOW QUEEN", 16));
        spawns.push(enemy(1100, 500, "ranger", 1000, 400, [true, true, true, true, true, false, true, true, true], [255, 255, 255, 255, 255, 0, 255, 255, 255], Weapon::RocketLauncher, true, "RANGER ETERNAL", 17));
        spawns.push(enemy(1000, 350, "tankjr", 2500, 600, [true, true, true, true, true, false, true, true, true], [255, 255, 255, 255, 255, 0, 255, 255, 255], Weapon::BFG, true, "THE VOID KEEPER", 22));
        levels.push(level("VOID NEXUS", "THE SOURCE", "FINAL OPERATION: Breach core located. Destroy the Void Keeper!", "my_arena", spawns, 1000, 700, 130));
        levels

    }

    /// A campaign at the briefing of its first level.
    pub fn new() -> (s: Self)
        ensures
            s.active,
            s.current_level == 0,
            s.levels@.len() == 5,
            s.enemies_killed == 0,
            s.total_enemies == s.levels@[0].enemy_spawns@.len(),
            !s.level_complete,
            !s.next_level_ready,
            s.show_briefing,
            !s.campaign_complete,
            none_spawned(s.levels@),
            is_campaign(s.levels@),
            progress_consistent(s.progress()),
    {
        let levels = Self::create_campaign();
        let total_enemies = if levels.len() > 0 {
            levels[0].enemy_spawns.len() as u32
        } else {
            0
        };
        StoryMode {
            active: true,
            current_level: 0,
            levels,
            enemies_killed: 0,
            total_enemies,
            level_complete: false,
            next_level_ready: false,
            show_briefing: true,
            campaign_complete: false,
        }
    }

    /// Whether the current level's briefing is being shown (the only time
    /// the briefing countdown runs).
    pub fn in_briefing(&self) -> (r: bool)
        ensures
            r == (self.active && self.current_level < self.levels@.len() && self.show_briefing),
    {
        self.active && self.current_level < self.levels.len() && self.show_briefing
    }

    /// One frame.  `briefing_expired`: the briefing countdown has run out;
    /// `alive_enemies`: enemies alive among the players before this frame's
    /// spawns join; `player_at_exit`: the local player stands within the
    /// exit radius.  Returns the enemies to spawn now and whether to change
    /// level.
    pub fn update(
        &mut self,
        briefing_expired: bool,
        alive_enemies: usize,
        player_at_exit: bool,
    ) -> (r: (Vec<EnemySpawn>, bool))
        ensures
            final(self).progress() == update_progress(
                old(self).progress(),
                briefing_expired,
                alive_enemies as int,
                player_at_exit,
            ),
            r.1 == change_level(old(self).progress(), alive_enemies as int, player_at_exit),
            same_campaign(old(self).levels@, final(self).levels@),
            final(self).total_enemies == old(self).total_enemies,
            r.0@ == (if old(self).active && old(self).current_level < old(self).levels@.len()
                && !old(self).show_briefing {
                old(self).levels@[old(self).current_level as int].enemy_spawns@.filter(
                    |s: EnemySpawn| !s.spawned,
                )
            } else {
                Seq::empty()
            }),
    {
        let ghost p0 = self.progress();
        let mut fresh: Vec<EnemySpawn> = Vec::new();
        if !self.active || self.current_level >= self.levels.len() {
            assert(spawned_flags(self.levels@).len() == self.levels@.len());
            return (fresh, false);
        }
        if self.show_briefing {
            if briefing_expired {
                self.show_briefing = false;
            }
            return (fresh, false);
        }
        let l = self.current_level;
        let ghost old_levels = self.levels@;
        let ghost old_spawns = self.levels@[l as int].enemy_spawns@;
        let mut marked: Vec<EnemySpawn> = Vec::new();
        let n = self.levels[l].enemy_spawns.len();
        let mut k: usize = 0;
        while k < n
            invariant
                l < self.levels@.len(),
                self.levels@ == old_levels,
                old_spawns == old_levels[l as int].enemy_spawns@,
                n == old_spawns.len(),
                k <= n,
                marked@.len() == k,
                forall|q: int| 0 <= q < k ==> #[trigger] marked@[q] == (EnemySpawn { spawned: true, ..old_spawns[q] }),
                fresh@ == old_spawns.take(k as int).filter(|s: EnemySpawn| !s.spawned),
            decreases n - k,
        {
            let sp = self.levels[l].enemy_spawns[k].clone();
            proof {
                reveal_with_fuel(Seq::<_>::filter, 1);
                assert(old_spawns.take(k + 1).drop_last() =~= old_spawns.take(k as int));
            }
            if !sp.spawned {
                fresh.push(sp.clone());
            }
            let mut done = sp;
            done.spawned = true;
            marked.push(done);
            k += 1;
        }
        proof {
            assert(old_spawns.take(n as int) =~= old_spawns);
        }
        let mut lvl = StoryLevel {
            name: self.levels[l].name.clone(),
            description: self.levels[l].description.clone(),
            briefing: self.levels[l].briefing.clone(),
            map_name: self.levels[l].map_name.clone(),
            enemy_spawns: marked,
            exit_x: self.levels[l].exit_x,
            exit_y: self.levels[l].exit_y,
            exit_radius: self.levels[l].exit_radius,
        };
        self.levels.set(l, lvl);
        if alive_enemies == 0 {
            if !self.level_complete {
                self.level_complete = true;
            }
        }
        let mut change = false;
        if player_at_exit && self.level_complete {
            self.next_level_ready = true;
            change = true;
        }
        proof {
            let p1 = update_progress(p0, briefing_expired, alive_enemies as int, player_at_exit);
            assert(spawned_flags(self.levels@) =~= p1.spawned) by {
                assert forall|lv: int| 0 <= lv < self.levels@.len() implies #[trigger] spawned_flags(self.levels@)[lv]
                    =~= p1.spawned[lv] by {
                    if lv != l {
                        assert(self.levels@[lv] == old_levels[lv]);
                    }
                }
            }
            assert forall|lv: int| 0 <= lv < old_levels.len() implies {
                &&& (#[trigger] self.levels@[lv]).name == old_levels[lv].name
                &&& self.levels@[lv].description == old_levels[lv].description
                &&& self.levels@[lv].briefing == old_levels[lv].briefing
                &&& self.levels@[lv].map_name == old_levels[lv].map_name
                &&& self.levels@[lv].exit_x == old_levels[lv].exit_x
                &&& self.levels@[lv].exit_y == old_levels[lv].exit_y
                &&& self.levels@[lv].exit_radius == old_levels[lv].exit_radius
                &&& self.levels@[lv].enemy_spawns@.len() == old_levels[lv].enemy_spawns@.len()
                &&& forall|q: int|
                    0 <= q < old_levels[lv].enemy_spawns@.len() ==> same_spawn(
                        #[trigger] old_levels[lv].enemy_spawns@[q],
                        self.levels@[lv].enemy_spawns@[q],
                    )
            } by {
                if lv != l {
                    assert(self.levels@[lv] == old_levels[lv]);
                }
            }
        }
        (fresh, change)
    }

    /// Moves on to the next level and returns its map, or ends the campaign
    /// when there is none.
    pub fn advance_to_next_level(&mut self) -> (r: Option<String>)
        requires
            old(self).current_level < usize::MAX,
        ensures
            final(self).progress() == (Progress {
                total_enemies: final(self).total_enemies as int,
                ..advance_progress(old(self).progress())
            }),
            final(self).levels@ == old(self).levels@,
            final(self).current_level < final(self).levels@.len() ==> final(self).total_enemies
                == final(self).levels@[final(self).current_level as int].enemy_spawns@.len() as u32,
            final(self).current_level >= final(self).levels@.len() ==> final(self).total_enemies
                == old(self).total_enemies,
            match r {
                Some(m) => final(self).current_level < final(self).levels@.len() && m@
                    == final(self).levels@[final(self).current_level as int].map_name@,
                None => final(self).current_level >= final(self).levels@.len(),
            },
    {
        self.current_level += 1;
        self.level_complete = false;
        self.next_level_ready = false;
        self.enemies_killed = 0;
        self.show_briefing = true;
        if self.current_level < self.levels.len() {
            self.total_enemies = self.levels[self.current_level].enemy_spawns.len() as u32;
            Some(self.levels[self.current_level].map_name.clone())
        } else {
            self.active = false;
            self.campaign_complete = true;
            None
        }
    }

    /// The level being played, if the campaign is not over.
    pub fn get_current_level(&self) -> (r: Option<&StoryLevel>)
        ensures
            match r {
                Some(lv) => self.current_level < self.levels@.len() && *lv
                    == self.levels@[self.current_level as int],
                None => self.current_level >= self.levels@.len(),
            },
    {
        if self.current_level < self.levels.len() {
            Some(&self.levels[self.current_level])
        } else {
            None
        }
    }

    /// Counts one more enemy beaten.
    pub fn on_enemy_killed(&mut self)
        requires
            old(self).enemies_killed < u32::MAX,
        ensures
            final(self).progress() == (Progress {
                enemies_killed: old(self).enemies_killed + 1,
                ..old(self).progress()
            }),
            final(self).levels@ == old(self).levels@,
    {
        self.enemies_killed += 1;
    }
}


} // verus!
