//! Properties of the match and of the rendezvous that hold for every input.

use vstd::prelude::*;
use crate::gamestate::{
    bounded, bullet_listed, bullet_unlisted, collided, despawned, finished, foes, live_flags, other_team,
    player_moved, rammed, score_of, shot, shot_one, started, views4, CollisionReport, GameView, Move,
    bullet_key, counted, spawns_obstacle, initial, listed, obstacles_met, ordered_by, team_of, unlisted, BulletTag,
};
use crate::guids::lemma_filter_ordered;
use crate::player::{Player, Team};
use crate::rendezvous::{Arrival, RendezvousView};
use crate::rules::{AMMO_MAX, FIRE_RATE_TIMER_MAX, MAX_OBSTACLE_SPAWN_TIMER, OBSTACLE_SPAWN_DELAY_END};

verus! {

/// The inputs of one tick: what each avatar asked for, the restart of the
/// obstacle countdown if it runs out, and what the geometry found.
pub struct TickInput {
    pub shoot: Seq<bool>,
    pub spawn_delay: int,
    pub report: CollisionReport,
}

/// The match after one tick.
pub open spec fn ticked(g: GameView, x: TickInput) -> GameView {
    finished(started(g, x.shoot, x.spawn_delay).0, x.report)
}

/// The match after the ticks of `inputs`, in order.
pub open spec fn run(g: GameView, inputs: Seq<TickInput>) -> GameView
    decreases inputs.len(),
{
    if inputs.len() == 0 {
        g
    } else {
        ticked(run(g, inputs.drop_last()), inputs.last())
    }
}

/// Determinism: two runs from the same state over the same inputs (the
/// same random draws among them) end in the same state.
pub proof fn law_run_deterministic(g1: GameView, g2: GameView, inputs: Seq<TickInput>)
    requires
        g1 == g2,
    ensures
        run(g1, inputs) == run(g2, inputs),
    decreases inputs.len(),
{
    if inputs.len() > 0 {
        law_run_deterministic(g1, g2, inputs.drop_last());
    }
}

/// No stage of the second half of a tick changes a dead avatar's fields;
/// its contacts may still move the scores.
proof fn lemma_finish_spares_dead(g: GameView, r: CollisionReport, i: int)
    requires
        0 <= i < 4,
        g.players.len() == 4,
        g.players[i].is_dead,
    ensures
        finished(g, r).players[i] == g.players[i],
{
    reveal(despawned);
    reveal(collided);
    reveal(rammed);
    reveal(shot_one);
    reveal(bounded);
    let live = live_flags(g.players);
    assert(!live[i]);
    let g1 = despawned(g, r.obstacles_out@, r.bullets_out@);
    let g2 = collided(g1, r.player_contacts@);
    let g3 = rammed(g2, views4(r.obstacle_contacts), live);
    assert(g3.players[i] == g.players[i]);
    let hits = views4(r.bullet_contacts);
    let h0 = shot_one(g3, hits[0], 0, live[0]);
    let h1 = shot_one(h0, hits[1], 1, live[1]);
    let h2 = shot_one(h1, hits[2], 2, live[2]);
    let h3 = shot_one(h2, hits[3], 3, live[3]);
    assert(h0.players[i] == g.players[i]);
    assert(h1.players[i] == g.players[i]);
    assert(h2.players[i] == g.players[i]);
    assert(h3.players[i] == g.players[i]);
    assert(h3 == shot(g3, hits, live));
    assert(bounded(h3, r.contained@, live).players[i] == g.players[i]);
}

/// A dead avatar whose respawn delay has not run out changes in nothing
/// but its respawn timer over a whole tick, and that timer advances by one.
pub proof fn law_dead_avatar_frozen(g: GameView, x: TickInput, i: int)
    requires
        g.wf(),
        0 <= i < 4,
        x.shoot.len() == 4,
        g.players[i].waiting(),
    ensures
        ticked(g, x).players[i] == (Player { respawn_timer: (g.players[i].respawn_timer + 1) as u32, ..g.players[i] }),
{
    let p = g.players[i];
    let frozen = Player { respawn_timer: (p.respawn_timer + 1) as u32, ..p };
    let (after, o, m) = started(g, x.shoot, x.spawn_delay);
    assert(after.players[i] == frozen);
    lemma_finish_spares_dead(after, x.report, i);
}

/// An avatar whose respawn delay has run out comes back this tick: it is
/// reported respawned, alive, with a full load of ammunition, its respawn
/// timer at zero and its reload and fire-rate timers restarted (one tick
/// in), so that it cannot fire yet.
pub proof fn law_respawn_restores(g: GameView, i: int, shoot: bool)
    requires
        g.wf(),
        0 <= i < 4,
        g.players[i].is_dead,
        !g.players[i].waiting(),
    ensures
        ({
            let (g1, m) = player_moved(g, i, shoot);
            let p = g1.players[i];
            &&& !p.is_dead
            &&& p.respawn_timer == 0
            &&& p.ammo == AMMO_MAX
            &&& p.reload_timer == 1
            &&& p.fire_rate_timer == 1
            &&& m == Move::Active { respawned: true, bullet: None }
        }),
{
}

/// Every (avatar, bullet) hit counts, on a living or a dead avatar: the
/// live bullets listed for it are all spent; its team loses one point per
/// bullet, and the other team gains two per bullet of its own among them.
/// An avatar alive as the second half began dies; a dead one is left as
/// it was.
pub proof fn law_bullet_scores(g: GameView, hits: Seq<u64>, i: int, live: bool)
    requires
        g.wf(),
        0 <= i < 4,
        g.bullets.filter(bullet_listed(hits)).len() > 0,
    ensures
        ({
            let spent = g.bullets.filter(bullet_listed(hits));
            let victim = g.players[i].team;
            let after = shot_one(g, hits, i, live);
            &&& live ==> after.players[i].is_dead
            &&& !live ==> after.players[i] == g.players[i]
            &&& after.bullets == g.bullets.filter(bullet_unlisted(hits))
            &&& score_of(after, victim) == score_of(g, victim) - spent.len()
            &&& score_of(after, other_team(victim)) == score_of(g, other_team(victim)) + 2 * foes(spent, victim)
        }),
{
    reveal(shot_one);
}

/// One bullet striking an avatar of the other team wins its team two
/// points and costs the victim's team one; one striking an avatar of its
/// own team costs that team one point and gives the other team nothing.
/// Either way the victim, if alive as the second half began, dies.
pub proof fn law_single_bullet_scores(g: GameView, hits: Seq<u64>, i: int, live: bool)
    requires
        g.wf(),
        0 <= i < 4,
        g.bullets.filter(bullet_listed(hits)).len() == 1,
    ensures
        ({
            let b = g.bullets.filter(bullet_listed(hits))[0];
            let victim = g.players[i].team;
            let after = shot_one(g, hits, i, live);
            &&& live ==> after.players[i].is_dead
            &&& b.team != victim ==> {
                &&& score_of(after, b.team) == score_of(g, b.team) + 2
                &&& score_of(after, victim) == score_of(g, victim) - 1
            }
            &&& b.team == victim ==> {
                &&& score_of(after, victim) == score_of(g, victim) - 1
                &&& score_of(after, other_team(victim)) == score_of(g, other_team(victim))
            }
        }),
{
    law_bullet_scores(g, hits, i, live);
    let spent = g.bullets.filter(bullet_listed(hits));
    assert(spent.drop_last().len() == 0);
    assert(foes(spent.drop_last(), g.players[i].team) == 0);
}

/// A filter that keeps nothing of `s` is empty.
proof fn lemma_filter_none<A>(s: Seq<A>, p: spec_fn(A) -> bool)
    requires
        forall|k: int| 0 <= k < s.len() ==> !p(#[trigger] s[k]),
    ensures
        s.filter(p).len() == 0,
{
    lemma_filter_contained(s, p);
    if s.filter(p).len() > 0 {
        s.lemma_filter_pred(p, 0);
        assert(s.filter(p).contains(s.filter(p)[0]));
        let k = choose|k: int| 0 <= k < s.len() && s[k] == s.filter(p)[0];
        assert(!p(s[k]));
    }
}

/// Every item a filter keeps was in the sequence.
proof fn lemma_filter_contained<A>(s: Seq<A>, p: spec_fn(A) -> bool)
    ensures
        forall|x: A| #[trigger] s.filter(p).contains(x) ==> s.contains(x),
    decreases s.len(),
{
    reveal(Seq::filter);
    if s.len() > 0 {
        let t = s.drop_last();
        lemma_filter_contained(t, p);
        assert forall|x: A| #[trigger] s.filter(p).contains(x) implies s.contains(x) by {
            if t.filter(p).contains(x) {
                assert(t.contains(x));
                let k = choose|k: int| 0 <= k < t.len() && t[k] == x;
                assert(s[k] == x);
            } else {
                let f = s.filter(p);
                let k = choose|k: int| 0 <= k < f.len() && f[k] == x;
                if k < t.filter(p).len() {
                    assert(t.filter(p).contains(t.filter(p)[k]));
                } else {
                    assert(s[s.len() - 1] == x);
                }
            }
        }
    }
}

/// With guids unique, the bullets listed by `b`'s guid alone are `b` alone.
proof fn lemma_single_listed(s: Seq<BulletTag>, b: BulletTag)
    requires
        ordered_by(s, bullet_key()),
        s.contains(b),
    ensures
        s.filter(bullet_listed(seq![b.guid])) == seq![b],
    decreases s.len(),
{
    reveal(Seq::filter);
    let p = bullet_listed(seq![b.guid]);
    let t = s.drop_last();
    assert(ordered_by(t, bullet_key()));
    assert(seq![b.guid].contains(b.guid)) by {
        assert(seq![b.guid][0] == b.guid);
    }
    if s.last() == b {
        assert forall|k: int| 0 <= k < t.len() implies !p(#[trigger] t[k]) by {
            assert(t[k].guid < b.guid);
            if seq![b.guid].contains(t[k].guid) {
                let j = choose|j: int| 0 <= j < 1 && seq![b.guid][j] == t[k].guid;
            }
        }
        lemma_filter_none(t, p);
        assert(s.filter(p) =~= seq![b]);
    } else {
        let k = choose|k: int| 0 <= k < s.len() && s[k] == b;
        assert(k < s.len() - 1);
        assert(t[k] == b);
        lemma_single_listed(t, b);
        assert(b.guid < s.last().guid);
        if seq![b.guid].contains(s.last().guid) {
            let j = choose|j: int| 0 <= j < 1 && seq![b.guid][j] == s.last().guid;
        }
    }
}

/// No bullet is listed in an empty list.
proof fn lemma_none_listed(s: Seq<BulletTag>)
    ensures
        s.filter(bullet_listed(Seq::empty())).len() == 0,
{
    lemma_filter_none(s, bullet_listed(Seq::empty()));
}

/// Over the second half of a tick whose only contact is one live bullet
/// `b` on avatar `i`, alive or dead: the avatar is dead at the end, and
/// if `b` is of the other
/// team, `b`'s team gains two points and the victim's team loses one;
/// if it is of the victim's own team, that team loses one point and the
/// other team's score stays.
pub proof fn law_tick_bullet_scores(g: GameView, r: CollisionReport, i: int, b: BulletTag)
    requires
        g.wf(),
        0 <= i < 4,
        g.bullets.contains(b),
        !r.bullets_out@.contains(b.guid),
        forall|j: int| 0 <= j < 4 ==> views4(r.obstacle_contacts)[j] == Seq::<u64>::empty(),
        forall|j: int| 0 <= j < 4 && j != i ==> views4(r.bullet_contacts)[j] == Seq::<u64>::empty(),
        views4(r.bullet_contacts)[i] == seq![b.guid],
    ensures
        ({
            let victim = team_of(i);
            let after = finished(g, r);
            &&& after.players[i].is_dead
            &&& b.team != victim ==> {
                &&& score_of(after, b.team) == score_of(g, b.team) + 2
                &&& score_of(after, victim) == score_of(g, victim) - 1
            }
            &&& b.team == victim ==> {
                &&& score_of(after, victim) == score_of(g, victim) - 1
                &&& score_of(after, other_team(victim)) == score_of(g, other_team(victim))
            }
        }),
{
    reveal(despawned);
    reveal(collided);
    reveal(rammed);
    reveal(shot_one);
    reveal(bounded);
    let live = live_flags(g.players);
    let hits = views4(r.bullet_contacts);
    let ohits = views4(r.obstacle_contacts);
    let g1 = despawned(g, r.obstacles_out@, r.bullets_out@);
    lemma_filter_ordered(g.bullets, bullet_key(), bullet_unlisted(r.bullets_out@));
    let kb = choose|k: int| 0 <= k < g.bullets.len() && g.bullets[k] == b;
    g.bullets.lemma_filter_contains(bullet_unlisted(r.bullets_out@), kb);
    assert(g1.bullets.contains(b));
    let g2 = collided(g1, r.player_contacts@);
    let g3 = rammed(g2, ohits, live);
    assert forall|j: int| 0 <= j < 4 implies obstacles_met(g2, ohits[j]) == 0 by {
        lemma_filter_none(g2.obstacles, listed(ohits[j]));
    }
    assert(g3.score_a == g.score_a && g3.score_b == g.score_b);
    assert(g3.bullets == g1.bullets);
    assert(g3.players[i].team == team_of(i));
    lemma_none_listed(g3.bullets);
    lemma_single_listed(g3.bullets, b);
    let h0 = shot_one(g3, hits[0], 0, live[0]);
    let h1 = shot_one(h0, hits[1], 1, live[1]);
    let h2 = shot_one(h1, hits[2], 2, live[2]);
    let h3 = shot_one(h2, hits[3], 3, live[3]);
    assert(h3 == shot(g3, hits, live));
    let spent = seq![b];
    assert(spent.drop_last() =~= Seq::<BulletTag>::empty());
    assert(spent.last() == b);
    assert(foes(spent.drop_last(), team_of(i)) == 0);
    assert(foes(spent, team_of(i)) == (if b.team != team_of(i) { 1int } else { 0 }));
    if i == 0 {
        assert(h0.bullets.filter(bullet_listed(Seq::empty())).len() == 0) by { lemma_none_listed(h0.bullets); }
        assert(h1.bullets.filter(bullet_listed(Seq::empty())).len() == 0) by { lemma_none_listed(h1.bullets); }
        assert(h2.bullets.filter(bullet_listed(Seq::empty())).len() == 0) by { lemma_none_listed(h2.bullets); }
    } else if i == 1 {
        assert(h1.bullets.filter(bullet_listed(Seq::empty())).len() == 0) by { lemma_none_listed(h1.bullets); }
        assert(h2.bullets.filter(bullet_listed(Seq::empty())).len() == 0) by { lemma_none_listed(h2.bullets); }
    } else if i == 2 {
        assert(h2.bullets.filter(bullet_listed(Seq::empty())).len() == 0) by { lemma_none_listed(h2.bullets); }
    }
    assert(bounded(h3, r.contained@, live).score_a == h3.score_a);
}

/// A filter that keeps every item of `s` is `s`.
proof fn lemma_filter_all<A>(s: Seq<A>, p: spec_fn(A) -> bool)
    requires
        forall|k: int| 0 <= k < s.len() ==> p(#[trigger] s[k]),
    ensures
        s.filter(p) == s,
    decreases s.len(),
{
    reveal(Seq::filter);
    if s.len() > 0 {
        let t = s.drop_last();
        assert forall|k: int| 0 <= k < t.len() implies p(#[trigger] t[k]) by {
            assert(t[k] == s[k]);
        }
        lemma_filter_all(t, p);
        assert(p(s[s.len() - 1]));
        assert(t.push(s.last()) =~= s);
    } else {
        assert(s.filter(p) =~= s);
    }
}

/// A report in which nothing left the obstacle area, nothing touched and
/// every avatar lies inside the arena.
pub open spec fn quiet(r: CollisionReport) -> bool {
    &&& r.obstacles_out@.len() == 0
    &&& r.bullets_out@.len() == 0
    &&& forall|k: int| 0 <= k < 6 ==> !r.player_contacts@[k]
    &&& forall|j: int| 0 <= j < 4 ==> views4(r.obstacle_contacts)[j] == Seq::<u64>::empty()
    &&& forall|j: int| 0 <= j < 4 ==> views4(r.bullet_contacts)[j] == Seq::<u64>::empty()
    &&& forall|j: int| 0 <= j < 4 ==> r.contained@[j]
}

/// After a quiet report the second half of a tick changes nothing but
/// the phase: no avatar dies, no obstacle or bullet goes, no score moves.
pub proof fn law_quiet_half(g: GameView, r: CollisionReport)
    requires
        g.players.len() == 4,
        quiet(r),
    ensures
        finished(g, r) == (GameView { mid_tick: false, ..g }),
{
    reveal(despawned);
    reveal(collided);
    reveal(rammed);
    reveal(shot_one);
    reveal(bounded);
    let live = live_flags(g.players);
    let hits = views4(r.bullet_contacts);
    let ohits = views4(r.obstacle_contacts);
    assert forall|k: int| 0 <= k < g.obstacles.len() implies #[trigger] unlisted(r.obstacles_out@)(g.obstacles[k]) by {
        assert(!r.obstacles_out@.contains(g.obstacles[k]));
    }
    lemma_filter_all(g.obstacles, unlisted(r.obstacles_out@));
    assert forall|k: int| 0 <= k < g.bullets.len() implies #[trigger] bullet_unlisted(r.bullets_out@)(g.bullets[k]) by {
        assert(!r.bullets_out@.contains(g.bullets[k].guid));
    }
    lemma_filter_all(g.bullets, bullet_unlisted(r.bullets_out@));
    let g1 = despawned(g, r.obstacles_out@, r.bullets_out@);
    assert(g1 == g);
    let g2 = collided(g1, r.player_contacts@);
    assert(g2.players =~= g.players);
    assert(g2 == g);
    let g3 = rammed(g2, ohits, live);
    assert forall|j: int| 0 <= j < 4 implies obstacles_met(g2, ohits[j]) == 0 by {
        lemma_filter_none(g2.obstacles, listed(ohits[j]));
    }
    assert(g3.players =~= g.players);
    assert(g3 == g);
    lemma_none_listed(g.bullets);
    assert(shot(g3, hits, live) == g);
    let g5 = bounded(g, r.contained@, live);
    assert(g5.players =~= g.players);
}

/// A living avatar of team A at A1's place, loaded and cooled down, that
/// fires in a tick whose report is quiet: one bullet of team A joins with
/// the next guid, the avatar holds one round less, and its fire-rate timer
/// restarts.
pub proof fn law_fire_in_quiet_tick(g: GameView, x: TickInput)
    requires
        g.wf(),
        !g.mid_tick,
        !g.is_over(),
        x.shoot == seq![true, false, false, false],
        quiet(x.report),
        !g.players[0].is_dead,
        g.players[0].ammo == AMMO_MAX,
        g.players[0].fire_rate_timer > FIRE_RATE_TIMER_MAX,
    ensures
        ({
            let after = ticked(g, x);
            &&& after.bullets == g.bullets.push(BulletTag { guid: g.bullet_counter as u64, team: Team::A })
            &&& after.bullet_counter == g.bullet_counter + 1
            &&& after.players[0].ammo == AMMO_MAX - 1
            &&& after.players[0].fire_rate_timer == 0
            &&& after.score_a == g.score_a
            &&& after.score_b == g.score_b
        }),
{
    let (h, o, m) = started(g, x.shoot, x.spawn_delay);
    law_quiet_half(h, x.report);
}

/// An avatar whose respawn delay has run out, in a tick whose report is
/// quiet: at the end of the tick it is alive, with a full load of
/// ammunition, its respawn timer at zero and its other timers one tick in.
pub proof fn law_respawn_in_quiet_tick(g: GameView, x: TickInput, i: int)
    requires
        g.wf(),
        !g.mid_tick,
        !g.is_over(),
        0 <= i < 4,
        x.shoot.len() == 4,
        quiet(x.report),
        g.players[i].is_dead,
        !g.players[i].waiting(),
    ensures
        ({
            let p = ticked(g, x).players[i];
            &&& !p.is_dead
            &&& p.ammo == AMMO_MAX
            &&& p.respawn_timer == 0
            &&& p.reload_timer == 1
            &&& p.fire_rate_timer == 1
        }),
{
    let (h, o, m) = started(g, x.shoot, x.spawn_delay);
    law_quiet_half(h, x.report);
}

/// A tick in which no avatar shoots, the report is quiet and the
/// countdown, if it runs out, restarts at a value it can be drawn at.
pub open spec fn quiet_input(x: TickInput) -> bool {
    &&& x.shoot == seq![false, false, false, false]
    &&& quiet(x.report)
    &&& 0 <= x.spawn_delay < OBSTACLE_SPAWN_DELAY_END
}

/// Every avatar alive, fully loaded and never dead; no bullet; no point.
pub open spec fn calm(g: GameView) -> bool {
    &&& g.players.len() == 4
    &&& forall|i: int|
        0 <= i < 4 ==> {
            let p = #[trigger] g.players[i];
            &&& !p.is_dead
            &&& p.ammo == AMMO_MAX
            &&& p.respawn_timer == 0
        }
    &&& g.bullets.len() == 0
    &&& g.score_a == 0
    &&& g.score_b == 0
}

/// A calm match stays calm over a quiet tick; the countdown runs, and an
/// obstacle joins when it runs out.
proof fn lemma_quiet_tick(g: GameView, x: TickInput)
    requires
        calm(g),
        quiet_input(x),
        0 <= g.obstacle_spawn_timer <= MAX_OBSTACLE_SPAWN_TIMER,
    ensures
        calm(ticked(g, x)),
        0 <= ticked(g, x).obstacle_spawn_timer <= MAX_OBSTACLE_SPAWN_TIMER,
        ticked(g, x).obstacles.len() >= g.obstacles.len(),
        spawns_obstacle(g) ==> ticked(g, x).obstacles.len() >= 1,
        !spawns_obstacle(g) ==> ticked(g, x).obstacle_spawn_timer == g.obstacle_spawn_timer + 1,
{
    let g1 = counted(g, x.spawn_delay);
    let (g2, m0) = player_moved(g1, 0, false);
    let (g3, m1) = player_moved(g2, 1, false);
    let (g4, m2) = player_moved(g3, 2, false);
    let (g5, m3) = player_moved(g4, 3, false);
    assert(started(g, x.shoot, x.spawn_delay).0 == g5);
    assert(calm(g5));
    law_quiet_half(g5, x.report);
}

/// The state after the first `k` quiet ticks of a fresh match.
proof fn lemma_quiet_run(m: int, d: int, inputs: Seq<TickInput>, k: int)
    requires
        0 <= d < OBSTACLE_SPAWN_DELAY_END,
        0 <= k <= inputs.len(),
        forall|j: int| 0 <= j < inputs.len() ==> quiet_input(#[trigger] inputs[j]),
    ensures
        ({
            let g = run(initial(m, d), inputs.take(k));
            &&& calm(g)
            &&& 0 <= g.obstacle_spawn_timer <= MAX_OBSTACLE_SPAWN_TIMER
            &&& d + k <= MAX_OBSTACLE_SPAWN_TIMER ==> g.obstacle_spawn_timer == d + k
            &&& d + k > MAX_OBSTACLE_SPAWN_TIMER ==> g.obstacles.len() >= 1
        }),
    decreases k,
{
    if k == 0 {
        assert(inputs.take(0) =~= Seq::<TickInput>::empty());
        let g = initial(m, d);
        assert(calm(g));
    } else {
        lemma_quiet_run(m, d, inputs, k - 1);
        let prev = run(initial(m, d), inputs.take(k - 1));
        assert(inputs.take(k).drop_last() =~= inputs.take(k - 1));
        assert(inputs.take(k).last() == inputs[k - 1]);
        lemma_quiet_tick(prev, inputs[k - 1]);
    }
}

/// From a fresh match, `MAX_OBSTACLE_SPAWN_TIMER + 1` ticks in which no
/// avatar shoots and nothing touches bring at least one obstacle, and
/// leave every avatar alive, fully loaded, with its respawn timer at zero,
/// no bullet, and both scores at zero.
pub proof fn law_quiet_match_spawns_obstacle(m: int, d: int, inputs: Seq<TickInput>)
    requires
        0 <= d < OBSTACLE_SPAWN_DELAY_END,
        inputs.len() == MAX_OBSTACLE_SPAWN_TIMER + 1,
        forall|j: int| 0 <= j < inputs.len() ==> quiet_input(#[trigger] inputs[j]),
    ensures
        ({
            let g = run(initial(m, d), inputs);
            &&& g.obstacles.len() >= 1
            &&& calm(g)
        }),
{
    lemma_quiet_run(m, d, inputs, inputs.len() as int);
    assert(inputs.take(inputs.len() as int) =~= inputs);
}

/// The rendezvous after `k` more arrivals.
pub open spec fn arrive_times(r: RendezvousView, k: nat) -> RendezvousView
    decreases k,
{
    if k == 0 {
        r
    } else {
        arrive_times(r, (k - 1) as nat).arrive().0
    }
}

/// Until every party has arrived, no arrival releases the round, the
/// generation stays, and a party waiting on it is not let go.
pub proof fn law_no_release_short_of_quorum(r: RendezvousView, k: nat)
    requires
        r.wf(),
        !r.aborted,
        r.arrived + k < r.parties,
    ensures
        arrive_times(r, k).generation == r.generation,
        arrive_times(r, k).parties == r.parties,
        arrive_times(r, k).arrived == r.arrived + k,
        !arrive_times(r, k).aborted,
        forall|j: nat| j < k ==> (#[trigger] arrive_times(r, j)).arrive().1 != Arrival::Release,
        !arrive_times(r, k).released(r.generation as u64),
    decreases k,
{
    if k > 0 {
        let prev = (k - 1) as nat;
        law_no_release_short_of_quorum(r, prev);
        let q = arrive_times(r, prev);
        assert(q.arrived + 1 < q.parties);
        assert(q.arrive().1 != Arrival::Release);
        assert forall|j: nat| j < k implies (#[trigger] arrive_times(r, j)).arrive().1 != Arrival::Release by {
            if j < prev {
            } else {
                assert(j == prev);
            }
        }
    }
}

} // verus!
