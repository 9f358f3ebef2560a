//! The match: tick and guid counters, live obstacles and bullets, the four
//! avatars and the two scores.
//!
//! A tick runs in two halves.  `start_tick` counts the tick, runs the
//! obstacle spawn countdown and advances every avatar (respawn, timers,
//! reload, firing).  The caller then moves every body, and reports what
//! its geometry found to `finish_tick`, which despawns what left the
//! obstacle area and resolves the collisions and the scores.
//!
//! Every contact counts, whether the avatars in it are alive or dead: a
//! living avatar that touches any other avatar dies, every (avatar,
//! obstacle) contact costs the avatar's team a point, and every bullet
//! that meets an avatar is spent and scored, on the first avatar it
//! strikes in the order A1, A2, B1, B2.  A contact kills only an avatar
//! alive as the second half begins: one already dead keeps every field
//! frozen but its respawn timer, so it still respawns on time.

use vstd::prelude::*;
use crate::player::{spawned, Player, PlayerAction, Team};
use crate::guids::{
    count_foes, keep_listed, keep_listed_bullets, keep_unlisted, keep_unlisted_bullets, lemma_filter_ordered,
    lemma_filter_split,
};
use crate::random::draw_below;
use crate::rules::{MAX_OBSTACLE_SPAWN_TIMER, OBSTACLE_SPAWN_DELAY_END};

verus! {

/// A live bullet: its guid and the team of the avatar that fired it.
#[derive(Clone, Copy, Debug, PartialEq, Eq, Structural)]
pub struct BulletTag {
    pub guid: u64,
    pub team: Team,
}

/// What one avatar did in the first half of a tick, as the caller needs it
/// to move its body.
#[derive(Clone, Copy, Debug, PartialEq, Eq, Structural)]
pub enum Move {
    /// Dead and waiting: the body stays where it is.
    Waiting,
    /// Alive.  On `respawned` the body goes to a fresh spawn point with
    /// zero velocity before it moves; `bullet` is the guid of the bullet
    /// it fired this tick, if any.
    Active { respawned: bool, bullet: Option<u64> },
}

/// The outcome of the first half of a tick.
pub struct TickPlan {
    /// The guid of the obstacle spawned this tick, if any.
    pub obstacle: Option<u64>,
    /// One move per avatar, in the order A1, A2, B1, B2.
    pub moves: [Move; 4],
}

/// What the caller's geometry found after moving every body this tick.
/// Avatars are indexed A1, A2, B1, B2.
pub struct CollisionReport {
    /// Obstacles now outside the obstacle area.
    pub obstacles_out: Vec<u64>,
    /// Bullets now outside the obstacle area.
    pub bullets_out: Vec<u64>,
    /// Whether the spheres of each unordered pair of avatars intersect, in
    /// the order (A1,A2), (A1,B1), (A1,B2), (A2,B1), (A2,B2), (B1,B2).
    pub player_contacts: [bool; 6],
    /// For each avatar, the remaining obstacles whose sphere meets its own.
    pub obstacle_contacts: [Vec<u64>; 4],
    /// For each avatar, the remaining bullets whose last segment meets its sphere.
    pub bullet_contacts: [Vec<u64>; 4],
    /// Whether each avatar's sphere lies wholly inside the arena.
    pub contained: [bool; 4],
}

/// The match as a mathematical value.
pub struct GameView {
    pub ticks_progressed: int,
    pub max_game_ticks: int,
    /// Guids of live obstacles, in order of creation.
    pub obstacles: Seq<u64>,
    pub obstacle_counter: int,
    pub obstacle_spawn_timer: int,
    /// Live bullets, in order of creation.
    pub bullets: Seq<BulletTag>,
    pub bullet_counter: int,
    /// The avatars A1, A2, B1, B2.
    pub players: Seq<Player>,
    pub score_a: int,
    pub score_b: int,
    /// Between the two halves of a tick.
    pub mid_tick: bool,
}

/// The team that avatar `i` plays for: A1 and A2 for A, B1 and B2 for B.
pub open spec fn team_of(i: int) -> Team {
    if i < 2 { Team::A } else { Team::B }
}

/// The keys of the items of `s` strictly increase.
pub open spec fn ordered_by<A>(s: Seq<A>, key: spec_fn(A) -> int) -> bool {
    forall|i: int, j: int| 0 <= i < j < s.len() ==> key(s[i]) < key(s[j])
}

pub open spec fn guid_key() -> spec_fn(u64) -> int {
    |x: u64| x as int
}

pub open spec fn bullet_key() -> spec_fn(BulletTag) -> int {
    |b: BulletTag| b.guid as int
}

/// Score of `team`.
pub open spec fn score_of(g: GameView, team: Team) -> int {
    match team {
        Team::A => g.score_a,
        Team::B => g.score_b,
    }
}

/// `g` with `d` added to the score of `team`.
pub open spec fn add_score(g: GameView, team: Team, d: int) -> GameView {
    match team {
        Team::A => GameView { score_a: g.score_a + d, ..g },
        Team::B => GameView { score_b: g.score_b + d, ..g },
    }
}

impl GameView {
    pub open spec fn wf(self) -> bool {
        self.core_wf() && self.bullet_counter <= 4 * self.ticks_progressed
    }

    /// Everything `wf` asks but the bound on the bullet counter, which a
    /// tick in progress may not yet meet.
    pub open spec fn core_wf(self) -> bool {
        &&& self.shape_wf()
        &&& -self.score_bound() <= self.score_a <= self.score_bound()
        &&& -self.score_bound() <= self.score_b <= self.score_bound()
    }

    /// The counters, guid lists and avatars are consistent.
    pub open spec fn shape_wf(self) -> bool {
        &&& 0 <= self.max_game_ticks <= u32::MAX
        &&& 0 <= self.ticks_progressed <= self.max_game_ticks + 1
        &&& 0 <= self.obstacle_spawn_timer <= MAX_OBSTACLE_SPAWN_TIMER
        &&& 0 <= self.obstacle_counter <= self.ticks_progressed
        &&& 0 <= self.bullet_counter
        &&& self.mid_tick ==> self.ticks_progressed >= 1
        &&& self.obstacles.len() <= self.obstacle_counter
        &&& self.bullets.len() <= self.bullet_counter
        &&& ordered_by(self.obstacles, guid_key())
        &&& forall|i: int| 0 <= i < self.obstacles.len() ==> self.obstacles[i] < self.obstacle_counter
        &&& ordered_by(self.bullets, bullet_key())
        &&& forall|i: int| 0 <= i < self.bullets.len() ==> self.bullets[i].guid < self.bullet_counter
        &&& self.players.len() == 4
        &&& forall|i: int| 0 <= i < 4 ==> (#[trigger] self.players[i]).wf() && self.players[i].team == team_of(i)
    }

    /// A tick moves a score by at most two points per live obstacle and
    /// per live bullet for each avatar, that is by at most ten times the
    /// tick count; over the settled ticks this sums to at most this bound.
    pub open spec fn score_bound(self) -> int {
        10 * self.settled_ticks() * self.settled_ticks()
    }

    /// Scores far from the limits of their machine type.
    pub open spec fn scores_modest(self) -> bool {
        &&& -0x10_0000_0000_0000_0000_0000_0000 <= self.score_a <= 0x10_0000_0000_0000_0000_0000_0000
        &&& -0x10_0000_0000_0000_0000_0000_0000 <= self.score_b <= 0x10_0000_0000_0000_0000_0000_0000
    }

    /// Ticks whose collisions have been resolved.
    pub open spec fn settled_ticks(self) -> int {
        if self.mid_tick { self.ticks_progressed - 1 } else { self.ticks_progressed }
    }

    /// The match is over once more ticks have run than it allows.
    pub open spec fn is_over(self) -> bool {
        self.ticks_progressed > self.max_game_ticks
    }
}

/// A match about to begin: no tick run, no obstacle or bullet, both scores
/// zero, four fresh avatars, and the obstacle countdown at `spawn_delay`.
pub open spec fn initial(max_game_ticks: int, spawn_delay: int) -> GameView {
    GameView {
        ticks_progressed: 0,
        max_game_ticks,
        obstacles: Seq::empty(),
        obstacle_counter: 0,
        obstacle_spawn_timer: spawn_delay,
        bullets: Seq::empty(),
        bullet_counter: 0,
        players: seq![spawned(Team::A), spawned(Team::A), spawned(Team::B), spawned(Team::B)],
        score_a: 0,
        score_b: 0,
        mid_tick: false,
    }
}

/// Whether the countdown runs out this tick, so that an obstacle spawns.
pub open spec fn spawns_obstacle(g: GameView) -> bool {
    g.obstacle_spawn_timer + 1 > MAX_OBSTACLE_SPAWN_TIMER
}

/// The tick counted, and the obstacle countdown advanced: when it runs out
/// an obstacle with the next guid joins and the countdown restarts at
/// `spawn_delay`.
pub open spec fn counted(g: GameView, spawn_delay: int) -> GameView {
    let g1 = GameView { ticks_progressed: g.ticks_progressed + 1, mid_tick: true, ..g };
    if spawns_obstacle(g) {
        GameView {
            obstacles: g1.obstacles.push(g1.obstacle_counter as u64),
            obstacle_counter: g1.obstacle_counter + 1,
            obstacle_spawn_timer: spawn_delay,
            ..g1
        }
    } else {
        GameView { obstacle_spawn_timer: g1.obstacle_spawn_timer + 1, ..g1 }
    }
}

/// Avatar `i` advanced, and its bullet, if it fired, added with the next guid.
pub open spec fn player_moved(g: GameView, i: int, shoot: bool) -> (GameView, Move) {
    let (p, act) = g.players[i].stepped(shoot);
    let g1 = GameView { players: g.players.update(i, p), ..g };
    match act {
        PlayerAction::Waiting => (g1, Move::Waiting),
        PlayerAction::Active { respawned, fired } => {
            if fired {
                (
                    GameView {
                        bullets: g1.bullets.push(BulletTag { guid: g1.bullet_counter as u64, team: p.team }),
                        bullet_counter: g1.bullet_counter + 1,
                        ..g1
                    },
                    Move::Active { respawned, bullet: Some(g1.bullet_counter as u64) },
                )
            } else {
                (g1, Move::Active { respawned, bullet: None })
            }
        },
    }
}

/// The first half of a tick: the state after it, the guid of the obstacle
/// it spawned, and the moves of A1, A2, B1, B2 in that order.
pub open spec fn started(g: GameView, shoot: Seq<bool>, spawn_delay: int) -> (GameView, Option<u64>, Seq<Move>) {
    let g1 = counted(g, spawn_delay);
    let (g2, m0) = player_moved(g1, 0, shoot[0]);
    let (g3, m1) = player_moved(g2, 1, shoot[1]);
    let (g4, m2) = player_moved(g3, 2, shoot[2]);
    let (g5, m3) = player_moved(g4, 3, shoot[3]);
    let obstacle = if spawns_obstacle(g) { Some(g.obstacle_counter as u64) } else { None };
    (g5, obstacle, seq![m0, m1, m2, m3])
}

/// Keeps the guids not listed in `out`.
pub open spec fn unlisted(out: Seq<u64>) -> spec_fn(u64) -> bool {
    |x: u64| !out.contains(x)
}

/// Keeps the bullets whose guid is not listed in `out`.
pub open spec fn bullet_unlisted(out: Seq<u64>) -> spec_fn(BulletTag) -> bool {
    |b: BulletTag| !out.contains(b.guid)
}

/// The obstacles and bullets that left the obstacle area removed.
#[verifier::opaque]
pub open spec fn despawned(g: GameView, obstacles_out: Seq<u64>, bullets_out: Seq<u64>) -> GameView {
    GameView {
        obstacles: g.obstacles.filter(unlisted(obstacles_out)),
        bullets: g.bullets.filter(bullet_unlisted(bullets_out)),
        ..g
    }
}

/// The slot of the unordered pair `{i, j}` (with `i < j`) in
/// `CollisionReport::player_contacts`.
pub open spec fn pair_slot(i: int, j: int) -> int {
    if i == 0 { j - 1 } else if i == 1 { j + 1 } else { 5 }
}

/// Avatars `i` and `j` are two avatars, alive or dead, whose spheres meet.
pub open spec fn touching(ps: Seq<Player>, contacts: Seq<bool>, i: int, j: int) -> bool {
    &&& i != j
    &&& contacts[if i < j { pair_slot(i, j) } else { pair_slot(j, i) }]
}

/// Avatar `i` is alive and touches another avatar.
pub open spec fn pair_doomed(ps: Seq<Player>, contacts: Seq<bool>, i: int) -> bool {
    !ps[i].is_dead && (touching(ps, contacts, i, 0) || touching(ps, contacts, i, 1) || touching(
        ps,
        contacts,
        i,
        2,
    ) || touching(ps, contacts, i, 3))
}

/// The avatars with those marked by `doomed` killed.
pub open spec fn killed_where(ps: Seq<Player>, doomed: Seq<bool>) -> Seq<Player> {
    Seq::new(4, |i: int| if doomed[i] { ps[i].killed() } else { ps[i] })
}

/// Player-player stage: every living avatar that touches another avatar,
/// alive or dead, dies, whatever the teams.
#[verifier::opaque]
pub open spec fn collided(g: GameView, contacts: Seq<bool>) -> GameView {
    let doomed = Seq::new(4, |i: int| pair_doomed(g.players, contacts, i));
    GameView { players: killed_where(g.players, doomed), ..g }
}

/// Keeps the guids listed in `hits`.
pub open spec fn listed(hits: Seq<u64>) -> spec_fn(u64) -> bool {
    |x: u64| hits.contains(x)
}

/// Keeps the bullets whose guid is listed in `hits`.
pub open spec fn bullet_listed(hits: Seq<u64>) -> spec_fn(BulletTag) -> bool {
    |b: BulletTag| hits.contains(b.guid)
}

/// Which avatars are alive as the collision stages begin; only these
/// take part in them.
pub open spec fn live_flags(ps: Seq<Player>) -> Seq<bool> {
    Seq::new(4, |i: int| !ps[i].is_dead)
}

/// How many live obstacles an avatar meets.
pub open spec fn obstacles_met(g: GameView, hits: Seq<u64>) -> int {
    g.obstacles.filter(listed(hits)).len() as int
}

/// Player-obstacle stage: an avatar's team loses one point for each
/// obstacle it meets, alive or dead, and a live avatar that meets any
/// obstacle dies.
#[verifier::opaque]
pub open spec fn rammed(g: GameView, hits: Seq<Seq<u64>>, live: Seq<bool>) -> GameView {
    let n = Seq::new(4, |i: int| obstacles_met(g, hits[i]));
    GameView {
        players: killed_where(g.players, Seq::new(4, |i: int| live[i] && n[i] > 0)),
        score_a: g.score_a - n[0] - n[1],
        score_b: g.score_b - n[2] - n[3],
        ..g
    }
}

pub open spec fn other_team(t: Team) -> Team {
    match t {
        Team::A => Team::B,
        Team::B => Team::A,
    }
}

/// How many bullets of `bs` belong to a team other than `victim`.
pub open spec fn foes(bs: Seq<BulletTag>, victim: Team) -> int
    decreases bs.len(),
{
    if bs.len() == 0 {
        0
    } else {
        foes(bs.drop_last(), victim) + (if bs.last().team != victim { 1int } else { 0 })
    }
}

/// Bullets striking avatar `i`, alive or dead: every live bullet whose
/// segment meets it is spent.  Its team loses one point per bullet spent
/// on it, and the other team gains two per bullet of its own among them;
/// if any is spent and the avatar is live this tick, it dies.
#[verifier::opaque]
pub open spec fn shot_one(g: GameView, hits: Seq<u64>, i: int, live: bool) -> GameView {
    let spent = g.bullets.filter(bullet_listed(hits));
    if spent.len() == 0 {
        g
    } else {
        let victim = g.players[i].team;
        let g1 = GameView {
            players: g.players.update(i, if live { g.players[i].killed() } else { g.players[i] }),
            bullets: g.bullets.filter(bullet_unlisted(hits)),
            ..g
        };
        add_score(add_score(g1, victim, -(spent.len() as int)), other_team(victim), 2 * foes(spent, victim))
    }
}

/// Player-bullet stage, for A1, A2, B1, B2 in turn: a bullet spent on an
/// earlier avatar strikes no later one.
pub open spec fn shot(g: GameView, hits: Seq<Seq<u64>>, live: Seq<bool>) -> GameView {
    shot_one(
        shot_one(shot_one(shot_one(g, hits[0], 0, live[0]), hits[1], 1, live[1]), hits[2], 2, live[2]),
        hits[3],
        3,
        live[3],
    )
}

/// Out-of-bounds stage: every live avatar not wholly inside the arena dies.
#[verifier::opaque]
pub open spec fn bounded(g: GameView, contained: Seq<bool>, live: Seq<bool>) -> GameView {
    let doomed = Seq::new(4, |i: int| live[i] && !contained[i]);
    GameView { players: killed_where(g.players, doomed), ..g }
}

/// Four lists of guids, one per avatar.
pub open spec fn views4(a: [Vec<u64>; 4]) -> Seq<Seq<u64>> {
    Seq::new(4, |i: int| a@[i]@)
}

/// The second half of a tick: despawn, then the player-player,
/// player-obstacle, player-bullet and out-of-bounds stages, in that order,
/// among the avatars alive as it begins.
pub open spec fn finished(g: GameView, r: CollisionReport) -> GameView {
    let live = live_flags(g.players);
    let g1 = despawned(g, r.obstacles_out@, r.bullets_out@);
    let g2 = collided(g1, r.player_contacts@);
    let g3 = rammed(g2, views4(r.obstacle_contacts), live);
    let g4 = shot(g3, views4(r.bullet_contacts), live);
    let g5 = bounded(g4, r.contained@, live);
    GameView { mid_tick: false, ..g5 }
}

/// `g` has the tick count, limits, counters and phase of `g0`.
pub open spec fn same_frame(g0: GameView, g: GameView) -> bool {
    &&& g.ticks_progressed == g0.ticks_progressed
    &&& g.max_game_ticks == g0.max_game_ticks
    &&& g.obstacle_counter == g0.obstacle_counter
    &&& g.obstacle_spawn_timer == g0.obstacle_spawn_timer
    &&& g.bullet_counter == g0.bullet_counter
    &&& g.mid_tick == g0.mid_tick
}

/// Whether the first half of a tick from `g` ends in `after`, spawns
/// `obstacle` and makes `moves`.
pub open spec fn starts_as(
    g: GameView,
    shoot: Seq<bool>,
    spawn_delay: int,
    after: GameView,
    obstacle: Option<u64>,
    moves: Seq<Move>,
) -> bool {
    started(g, shoot, spawn_delay) == (after, obstacle, moves)
}

/// The slot of the pair `{i, j}`, `i < j`, in the player contacts.
fn pair_slot_at(i: usize, j: usize) -> (r: usize)
    requires
        i < j < 4,
    ensures
        r == pair_slot(i as int, j as int),
        r < 6,
{
    if i == 0 {
        j - 1
    } else if i == 1 {
        j + 1
    } else {
        5
    }
}

fn touching_at(ps: &Vec<Player>, contacts: &[bool; 6], i: usize, j: usize) -> (r: bool)
    requires
        ps@.len() == 4,
        i < 4,
        j < 4,
    ensures
        r == touching(ps@, contacts@, i as int, j as int),
{
    if i == j {
        false
    } else {
        let slot = if i < j { pair_slot_at(i, j) } else { pair_slot_at(j, i) };
        contacts[slot]
    }
}

fn pair_doomed_at(ps: &Vec<Player>, contacts: &[bool; 6], i: usize) -> (r: bool)
    requires
        ps@.len() == 4,
        i < 4,
    ensures
        r == pair_doomed(ps@, contacts@, i as int),
{
    !ps[i].is_dead && (touching_at(ps, contacts, i, 0) || touching_at(ps, contacts, i, 1) || touching_at(
        ps,
        contacts,
        i,
        2,
    ) || touching_at(ps, contacts, i, 3))
}

/// The match state.
pub struct Gamestate {
    ticks_progressed: u64,
    max_game_ticks: u32,
    obstacles: Vec<u64>,
    obstacle_counter: u64,
    obstacle_spawn_timer: u32,
    bullets: Vec<BulletTag>,
    bullet_counter: u64,
    players: Vec<Player>,
    score_a: i128,
    score_b: i128,
    mid_tick: bool,
}

impl View for Gamestate {
    type V = GameView;

    closed spec fn view(&self) -> GameView {
        GameView {
            ticks_progressed: self.ticks_progressed as int,
            max_game_ticks: self.max_game_ticks as int,
            obstacles: self.obstacles@,
            obstacle_counter: self.obstacle_counter as int,
            obstacle_spawn_timer: self.obstacle_spawn_timer as int,
            bullets: self.bullets@,
            bullet_counter: self.bullet_counter as int,
            players: self.players@,
            score_a: self.score_a as int,
            score_b: self.score_b as int,
            mid_tick: self.mid_tick,
        }
    }
}

impl Gamestate {
    /// A match of at most `max_game_ticks` ticks whose obstacle countdown
    /// starts at `spawn_delay`.
    pub fn with_spawn_delay(max_game_ticks: u32, spawn_delay: u32) -> (r: Gamestate)
        requires
            spawn_delay < OBSTACLE_SPAWN_DELAY_END,
        ensures
            r@ == initial(max_game_ticks as int, spawn_delay as int),
            r@.wf(),
    {
        let players = vec![Player::spawn(Team::A), Player::spawn(Team::A), Player::spawn(Team::B), Player::spawn(Team::B)];
        let r = Gamestate {
            ticks_progressed: 0,
            max_game_ticks,
            obstacles: Vec::new(),
            obstacle_counter: 0,
            obstacle_spawn_timer: spawn_delay,
            bullets: Vec::new(),
            bullet_counter: 0,
            players,
            score_a: 0,
            score_b: 0,
            mid_tick: false,
        };
        assert(r@.players =~= initial(max_game_ticks as int, spawn_delay as int).players);
        r
    }

    /// A match of at most `max_game_ticks` ticks, its obstacle countdown
    /// drawn from `rng`.
    pub fn new(rng: &mut rand::rngs::StdRng, max_game_ticks: u32) -> (r: Gamestate)
        ensures
            exists|d: int| 0 <= d < OBSTACLE_SPAWN_DELAY_END && r@ == initial(max_game_ticks as int, d),
            r@.wf(),
    {
        let d = draw_below(rng, OBSTACLE_SPAWN_DELAY_END);
        Gamestate::with_spawn_delay(max_game_ticks, d)
    }

    pub fn ticks_progressed(&self) -> (r: u64)
        ensures
            r == self@.ticks_progressed,
    {
        self.ticks_progressed
    }

    pub fn max_game_ticks(&self) -> (r: u32)
        ensures
            r == self@.max_game_ticks,
    {
        self.max_game_ticks
    }

    /// Guids of the live obstacles, in order of creation.
    pub fn obstacles(&self) -> (r: &[u64])
        ensures
            r@ == self@.obstacles,
    {
        self.obstacles.as_slice()
    }

    /// The guid the next obstacle will get.
    pub fn obstacle_counter(&self) -> (r: u64)
        ensures
            r == self@.obstacle_counter,
    {
        self.obstacle_counter
    }

    pub fn obstacle_spawn_timer(&self) -> (r: u32)
        ensures
            r == self@.obstacle_spawn_timer,
    {
        self.obstacle_spawn_timer
    }

    /// The live bullets, in order of creation.
    pub fn bullets(&self) -> (r: &[BulletTag])
        ensures
            r@ == self@.bullets,
    {
        self.bullets.as_slice()
    }

    /// The guid the next bullet will get.
    pub fn bullet_counter(&self) -> (r: u64)
        ensures
            r == self@.bullet_counter,
    {
        self.bullet_counter
    }

    /// Avatar `i`, in the order A1, A2, B1, B2.
    pub fn player(&self, i: usize) -> (r: Player)
        requires
            self@.wf(),
            i < 4,
        ensures
            r == self@.players[i as int],
    {
        self.players[i]
    }

    pub fn score(&self, team: Team) -> (r: i128)
        ensures
            r == score_of(self@, team),
    {
        match team {
            Team::A => self.score_a,
            Team::B => self.score_b,
        }
    }

    /// Whether more ticks have run than the match allows.
    pub fn is_over(&self) -> (r: bool)
        ensures
            r == self@.is_over(),
    {
        self.ticks_progressed > self.max_game_ticks as u64
    }

    /// Whether the first half of a tick has run and the second not yet.
    pub fn mid_tick(&self) -> (r: bool)
        ensures
            r == self@.mid_tick,
    {
        self.mid_tick
    }

    /// Counts the tick and runs the obstacle countdown; returns the guid
    /// of the obstacle spawned, if any.
    fn count_tick(&mut self, spawn_delay: u32) -> (o: Option<u64>)
        requires
            old(self)@.wf(),
            !old(self)@.mid_tick,
            !old(self)@.is_over(),
            spawn_delay < OBSTACLE_SPAWN_DELAY_END,
        ensures
            final(self)@ == counted(old(self)@, spawn_delay as int),
            o == (if spawns_obstacle(old(self)@) { Some(old(self)@.obstacle_counter as u64) } else { None }),
            final(self)@.core_wf(),
            final(self)@.ticks_progressed == old(self)@.ticks_progressed + 1,
            final(self)@.bullet_counter <= 4 * old(self)@.ticks_progressed,
    {
        self.ticks_progressed = self.ticks_progressed + 1;
        self.mid_tick = true;
        if self.obstacle_spawn_timer + 1 > MAX_OBSTACLE_SPAWN_TIMER {
            let guid = self.obstacle_counter;
            self.obstacles.push(guid);
            self.obstacle_counter = self.obstacle_counter + 1;
            self.obstacle_spawn_timer = spawn_delay;
            Some(guid)
        } else {
            self.obstacle_spawn_timer = self.obstacle_spawn_timer + 1;
            None
        }
    }

    /// Advances avatar `i` by the first half of a tick, adding its bullet
    /// if it fired.
    fn move_player(&mut self, i: usize, shoot: bool) -> (m: Move)
        requires
            old(self)@.core_wf(),
            i < 4,
            old(self)@.ticks_progressed >= 1,
            old(self)@.bullet_counter <= 4 * (old(self)@.ticks_progressed - 1) + i,
        ensures
            (final(self)@, m) == player_moved(old(self)@, i as int, shoot),
            final(self)@.core_wf(),
            final(self)@.ticks_progressed == old(self)@.ticks_progressed,
            final(self)@.bullet_counter <= 4 * (old(self)@.ticks_progressed - 1) + i + 1,
    {
        let mut p = self.players[i];
        let act = p.advance(shoot);
        self.players[i] = p;
        match act {
            PlayerAction::Waiting => Move::Waiting,
            PlayerAction::Active { respawned, fired } => {
                if fired {
                    let guid = self.bullet_counter;
                    self.bullets.push(BulletTag { guid, team: p.team });
                    self.bullet_counter = self.bullet_counter + 1;
                    Move::Active { respawned, bullet: Some(guid) }
                } else {
                    Move::Active { respawned, bullet: None }
                }
            },
        }
    }

    /// The first half of a tick, with the obstacle countdown restarting at
    /// `spawn_delay` if it runs out: counts the tick, spawns an obstacle
    /// when the countdown runs out, then advances A1, A2, B1, B2 in turn.
    pub fn start_tick_with(&mut self, shoot: [bool; 4], spawn_delay: u32) -> (plan: TickPlan)
        requires
            old(self)@.wf(),
            !old(self)@.mid_tick,
            !old(self)@.is_over(),
            spawn_delay < OBSTACLE_SPAWN_DELAY_END,
        ensures
            starts_as(old(self)@, shoot@, spawn_delay as int, final(self)@, plan.obstacle, plan.moves@),
            final(self)@.wf(),
    {
        let obstacle = self.count_tick(spawn_delay);
        let m0 = self.move_player(0, shoot[0]);
        let m1 = self.move_player(1, shoot[1]);
        let m2 = self.move_player(2, shoot[2]);
        let m3 = self.move_player(3, shoot[3]);
        let plan = TickPlan { obstacle, moves: [m0, m1, m2, m3] };
        assert(plan.moves@ =~= seq![m0, m1, m2, m3]);
        plan
    }

    /// The first half of a tick, drawing the restart of the obstacle
    /// countdown from `rng` when it runs out.
    pub fn start_tick(&mut self, rng: &mut rand::rngs::StdRng, shoot: [bool; 4]) -> (plan: TickPlan)
        requires
            old(self)@.wf(),
            !old(self)@.mid_tick,
            !old(self)@.is_over(),
        ensures
            exists|d: int|
                0 <= d < OBSTACLE_SPAWN_DELAY_END
                    && #[trigger] starts_as(old(self)@, shoot@, d, final(self)@, plan.obstacle, plan.moves@),
            final(self)@.wf(),
    {
        let d = if self.obstacle_spawn_timer + 1 > MAX_OBSTACLE_SPAWN_TIMER {
            draw_below(rng, OBSTACLE_SPAWN_DELAY_END)
        } else {
            0
        };
        self.start_tick_with(shoot, d)
    }

    /// Removes the obstacles and bullets that left the obstacle area.
    fn despawn(&mut self, obstacles_out: &Vec<u64>, bullets_out: &Vec<u64>)
        requires
            old(self)@.shape_wf(),
        ensures
            final(self)@ == despawned(old(self)@, obstacles_out@, bullets_out@),
            final(self)@ == (GameView { obstacles: final(self)@.obstacles, bullets: final(self)@.bullets, ..old(self)@ }),
            final(self)@.shape_wf(),
    {
        reveal(despawned);
        let obstacles = keep_unlisted(&self.obstacles, obstacles_out);
        let bullets = keep_unlisted_bullets(&self.bullets, bullets_out);
        proof {
            self.obstacles@.lemma_filter_len(unlisted(obstacles_out@));
            self.bullets@.lemma_filter_len(bullet_unlisted(bullets_out@));
            lemma_filter_ordered(self.obstacles@, guid_key(), unlisted(obstacles_out@));
            lemma_filter_ordered(self.bullets@, bullet_key(), bullet_unlisted(bullets_out@));
            assert forall|i: int| 0 <= i < obstacles@.len() implies obstacles@[i] < self.obstacle_counter by {
                assert(obstacles@.contains(obstacles@[i]));
            }
            assert forall|i: int| 0 <= i < bullets@.len() implies bullets@[i].guid < self.bullet_counter by {
                assert(bullets@.contains(bullets@[i]));
            }
        }
        self.obstacles = obstacles;
        self.bullets = bullets;
    }

    /// Kills avatar `i`.
    fn kill_at(&mut self, i: usize)
        requires
            old(self)@.shape_wf(),
            i < 4,
        ensures
            final(self)@ == (GameView {
                players: old(self)@.players.update(i as int, old(self)@.players[i as int].killed()),
                ..old(self)@
            }),
            final(self)@.shape_wf(),
    {
        let mut p = self.players[i];
        p.kill();
        self.players[i] = p;
    }

    /// Kills the avatars that `doomed` marks.
    fn kill_marked(&mut self, doomed: [bool; 4])
        requires
            old(self)@.shape_wf(),
        ensures
            final(self)@ == (GameView { players: killed_where(old(self)@.players, doomed@), ..old(self)@ }),
            final(self)@.shape_wf(),
    {
        let ghost g0 = self@;
        if doomed[0] {
            self.kill_at(0);
        }
        if doomed[1] {
            self.kill_at(1);
        }
        if doomed[2] {
            self.kill_at(2);
        }
        if doomed[3] {
            self.kill_at(3);
        }
        assert(self@.players =~= killed_where(g0.players, doomed@));
    }

    /// Adds `d` to the score of `team`.
    fn add_to_score(&mut self, team: Team, d: i128)
        requires
            -0x1000_0000_0000_0000_0000_0000_0000 <= old(self)@.score_a <= 0x1000_0000_0000_0000_0000_0000_0000,
            -0x1000_0000_0000_0000_0000_0000_0000 <= old(self)@.score_b <= 0x1000_0000_0000_0000_0000_0000_0000,
            -0x1_0000_0000_0000_0000_0000 <= d <= 0x1_0000_0000_0000_0000_0000,
        ensures
            final(self)@ == add_score(old(self)@, team, d as int),
    {
        match team {
            Team::A => self.score_a = self.score_a + d,
            Team::B => self.score_b = self.score_b + d,
        }
    }

    /// Player-player stage.
    fn collide(&mut self, contacts: &[bool; 6])
        requires
            old(self)@.shape_wf(),
        ensures
            final(self)@ == collided(old(self)@, contacts@),
            final(self)@ == (GameView { players: final(self)@.players, ..old(self)@ }),
            final(self)@.shape_wf(),
    {
        reveal(collided);
        let doomed = [
            pair_doomed_at(&self.players, contacts, 0),
            pair_doomed_at(&self.players, contacts, 1),
            pair_doomed_at(&self.players, contacts, 2),
            pair_doomed_at(&self.players, contacts, 3),
        ];
        assert(doomed@ =~= Seq::new(4, |i: int| pair_doomed(self@.players, contacts@, i)));
        self.kill_marked(doomed);
    }

    /// How many live obstacles `hits` lists.
    fn obstacles_met_at(&self, hits: &Vec<u64>) -> (n: usize)
        ensures
            n == obstacles_met(self@, hits@),
            n <= self@.obstacles.len(),
    {
        let met = keep_listed(&self.obstacles, hits);
        proof {
            self@.obstacles.lemma_filter_len(listed(hits@));
        }
        met.len()
    }

    /// Player-obstacle stage.
    fn ram(&mut self, hits: &[Vec<u64>; 4], live: [bool; 4])
        requires
            old(self)@.shape_wf(),
            old(self)@.scores_modest(),
        ensures
            final(self)@ == rammed(old(self)@, views4(*hits), live@),
            final(self)@ == (GameView {
                players: final(self)@.players,
                score_a: final(self)@.score_a,
                score_b: final(self)@.score_b,
                ..old(self)@
            }),
            final(self)@.shape_wf(),
            old(self)@.score_a - 2 * old(self)@.obstacles.len() <= final(self)@.score_a <= old(self)@.score_a,
            old(self)@.score_b - 2 * old(self)@.obstacles.len() <= final(self)@.score_b <= old(self)@.score_b,
    {
        reveal(rammed);
        let ghost g0 = self@;
        let n0 = self.obstacles_met_at(&hits[0]);
        let n1 = self.obstacles_met_at(&hits[1]);
        let n2 = self.obstacles_met_at(&hits[2]);
        let n3 = self.obstacles_met_at(&hits[3]);
        let ghost n = Seq::new(4, |i: int| obstacles_met(g0, views4(*hits)[i]));
        assert(n[0] == n0 && n[1] == n1 && n[2] == n2 && n[3] == n3);
        let doomed = [live[0] && n0 > 0, live[1] && n1 > 0, live[2] && n2 > 0, live[3] && n3 > 0];
        assert(doomed@ =~= Seq::new(4, |i: int| live@[i] && n[i] > 0));
        self.kill_marked(doomed);
        self.score_a = self.score_a - (n0 as i128) - (n1 as i128);
        self.score_b = self.score_b - (n2 as i128) - (n3 as i128);
    }

    /// Bullets striking avatar `i`.
    fn shoot_at(&mut self, i: usize, hits: &Vec<u64>, live: bool)
        requires
            old(self)@.shape_wf(),
            old(self)@.scores_modest(),
            i < 4,
        ensures
            final(self)@ == shot_one(old(self)@, hits@, i as int, live),
            final(self)@ == (GameView {
                players: final(self)@.players,
                bullets: final(self)@.bullets,
                score_a: final(self)@.score_a,
                score_b: final(self)@.score_b,
                ..old(self)@
            }),
            final(self)@.shape_wf(),
            final(self)@.bullets.len() <= old(self)@.bullets.len(),
            ({
                let spent = old(self)@.bullets.len() - final(self)@.bullets.len();
                &&& old(self)@.score_a - 2 * spent <= final(self)@.score_a <= old(self)@.score_a + 2 * spent
                &&& old(self)@.score_b - 2 * spent <= final(self)@.score_b <= old(self)@.score_b + 2 * spent
            }),
    {
        reveal(shot_one);
        let spent = keep_listed_bullets(&self.bullets, hits);
        if spent.len() == 0 {
            return;
        }
        let remaining = keep_unlisted_bullets(&self.bullets, hits);
        let victim = self.players[i].team;
        let n_foes = count_foes(&spent, victim);
        proof {
            lemma_filter_split(self@.bullets, bullet_listed(hits@), bullet_unlisted(hits@));
            lemma_filter_ordered(self.bullets@, bullet_key(), bullet_unlisted(hits@));
            assert forall|k: int| 0 <= k < remaining@.len() implies remaining@[k].guid < self.bullet_counter by {
                assert(remaining@.contains(remaining@[k]));
            }
        }
        assert(self@.players.update(i as int, self@.players[i as int]) =~= self@.players);
        self.bullets = remaining;
        if live {
            self.kill_at(i);
        }
        self.add_to_score(victim, -(spent.len() as i128));
        let other = match victim {
            Team::A => Team::B,
            Team::B => Team::A,
        };
        self.add_to_score(other, 2 * (n_foes as i128));
    }

    /// Out-of-bounds stage.
    fn bound(&mut self, contained: &[bool; 4], live: [bool; 4])
        requires
            old(self)@.shape_wf(),
        ensures
            final(self)@ == bounded(old(self)@, contained@, live@),
            final(self)@ == (GameView { players: final(self)@.players, ..old(self)@ }),
            final(self)@.shape_wf(),
    {
        reveal(bounded);
        let doomed = [
            live[0] && !contained[0],
            live[1] && !contained[1],
            live[2] && !contained[2],
            live[3] && !contained[3],
        ];
        assert(doomed@ =~= Seq::new(4, |i: int| live@[i] && !contained@[i]));
        self.kill_marked(doomed);
    }

    /// The second half of a tick: removes the obstacles and bullets that
    /// left the obstacle area, then resolves, in this order, contacts
    /// between avatars, with obstacles, with bullets, and with the arena's
    /// walls, among the avatars alive as it begins.  Returns whether the
    /// match is now over.
    pub fn finish_tick(&mut self, report: &CollisionReport) -> (over: bool)
        requires
            old(self)@.wf(),
            old(self)@.mid_tick,
        ensures
            final(self)@ == finished(old(self)@, *report),
            final(self)@.wf(),
            over == final(self)@.is_over(),
    {
        let ghost g0 = self@;
        let ghost t = g0.ticks_progressed;
        proof {
            assert(10 * (t - 1) * (t - 1) <= 0x100_0000_0000_0000_0000) by (nonlinear_arith)
                requires
                    0 <= t - 1 <= 0x1_0000_0000,
            ;
            assert(10 * (t - 1) * (t - 1) + 10 * t <= 10 * t * t) by (nonlinear_arith)
                requires
                    t >= 1,
            ;
        }
        let live = [
            !self.players[0].is_dead,
            !self.players[1].is_dead,
            !self.players[2].is_dead,
            !self.players[3].is_dead,
        ];
        assert(live@ =~= live_flags(g0.players));
        self.despawn(&report.obstacles_out, &report.bullets_out);
        let ghost g1 = self@;
        self.collide(&report.player_contacts);
        self.ram(&report.obstacle_contacts, live);
        let ghost g3 = self@;
        self.shoot_at(0, &report.bullet_contacts[0], live[0]);
        self.shoot_at(1, &report.bullet_contacts[1], live[1]);
        self.shoot_at(2, &report.bullet_contacts[2], live[2]);
        self.shoot_at(3, &report.bullet_contacts[3], live[3]);
        assert(self@ == shot(g3, views4(report.bullet_contacts), live@));
        self.bound(&report.contained, live);
        self.mid_tick = false;
        self.ticks_progressed > self.max_game_ticks as u64
    }
}

} // verus!
