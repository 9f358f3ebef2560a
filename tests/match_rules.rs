use arena_lockstep::gamestate::{BulletTag, CollisionReport, Gamestate, Move};
use arena_lockstep::player::{Player, PlayerAction, Team};
use arena_lockstep::rules::{AMMO_MAX, FIRE_RATE_TIMER_MAX, MAX_OBSTACLE_SPAWN_TIMER, MAX_PLAYER_RESPAWN_TIMER};
use rand::rngs::StdRng;
use rand::SeedableRng;

fn quiet_report() -> CollisionReport {
    CollisionReport {
        obstacles_out: vec![],
        bullets_out: vec![],
        player_contacts: [false; 6],
        obstacle_contacts: [vec![], vec![], vec![], vec![]],
        bullet_contacts: [vec![], vec![], vec![], vec![]],
        contained: [true; 4],
    }
}

fn quiet_tick(g: &mut Gamestate, shoot: [bool; 4]) -> arena_lockstep::gamestate::TickPlan {
    let plan = g.start_tick_with(shoot, 7);
    g.finish_tick(&quiet_report());
    plan
}

fn settled(g: &Gamestate) -> Vec<String> {
    let mut v = vec![
        format!("{}", g.ticks_progressed()),
        format!("{:?}", g.obstacles()),
        format!("{}", g.obstacle_counter()),
        format!("{}", g.obstacle_spawn_timer()),
        format!("{:?}", g.bullets()),
        format!("{}", g.bullet_counter()),
        format!("{} {}", g.score(Team::A), g.score(Team::B)),
    ];
    for i in 0..4 {
        v.push(format!("{:?}", g.player(i)));
    }
    v
}

#[test]
fn spawn_gives_fresh_avatar() {
    let p = Player::spawn(Team::B);
    assert_eq!(p.team, Team::B);
    assert_eq!(p.ammo, AMMO_MAX);
    assert_eq!(p.reload_timer, 0);
    assert_eq!(p.fire_rate_timer, 0);
    assert!(!p.is_dead);
    assert_eq!(p.respawn_timer, 0);
}

#[test]
fn respawn_restores_everything_but_team() {
    let mut p = Player { team: Team::A, ammo: 0, reload_timer: 12, fire_rate_timer: 4, is_dead: true, respawn_timer: 81 };
    p.respawn();
    assert_eq!(p, Player::spawn(Team::A));
}

#[test]
fn dead_avatar_only_counts_its_timer() {
    let mut p = Player { team: Team::A, ammo: 1, reload_timer: 12, fire_rate_timer: 4, is_dead: true, respawn_timer: 5 };
    let act = p.advance(true);
    assert_eq!(act, PlayerAction::Waiting);
    assert_eq!(p, Player { team: Team::A, ammo: 1, reload_timer: 12, fire_rate_timer: 4, is_dead: true, respawn_timer: 6 });
}

#[test]
fn dead_avatar_respawns_after_delay() {
    let mut p = Player { team: Team::B, ammo: 0, reload_timer: 30, fire_rate_timer: 2, is_dead: true, respawn_timer: MAX_PLAYER_RESPAWN_TIMER };
    assert_eq!(p.advance(false), PlayerAction::Waiting);
    assert_eq!(p.respawn_timer, MAX_PLAYER_RESPAWN_TIMER + 1);
    let act = p.advance(false);
    assert_eq!(act, PlayerAction::Active { respawned: true, fired: false });
    assert!(!p.is_dead);
    assert_eq!(p.ammo, AMMO_MAX);
    assert_eq!(p.respawn_timer, 0);
    assert_eq!(p.fire_rate_timer, 1);
    assert_eq!(p.reload_timer, 1);
}

#[test]
fn reload_refills_one_round() {
    let mut p = Player { team: Team::A, ammo: 1, reload_timer: 61, fire_rate_timer: 11, is_dead: false, respawn_timer: 0 };
    let act = p.advance(false);
    assert_eq!(act, PlayerAction::Active { respawned: false, fired: false });
    assert_eq!(p.ammo, 2);
    assert_eq!(p.reload_timer, 0);
}

#[test]
fn cannot_fire_during_cooldown_or_empty() {
    let mut p = Player { team: Team::A, ammo: 3, reload_timer: 0, fire_rate_timer: 5, is_dead: false, respawn_timer: 0 };
    assert_eq!(p.advance(true), PlayerAction::Active { respawned: false, fired: false });
    assert_eq!(p.ammo, 3);
    let mut q = Player { team: Team::A, ammo: 0, reload_timer: 0, fire_rate_timer: 11, is_dead: false, respawn_timer: 0 };
    assert_eq!(q.advance(true), PlayerAction::Active { respawned: false, fired: false });
    assert_eq!(q.ammo, 0);
}

#[test]
fn new_match_starts_empty() {
    let mut rng = StdRng::seed_from_u64(11);
    let g = Gamestate::new(&mut rng, 500);
    assert_eq!(g.ticks_progressed(), 0);
    assert_eq!(g.max_game_ticks(), 500);
    assert!(g.obstacles().is_empty());
    assert!(g.bullets().is_empty());
    assert!(g.obstacle_spawn_timer() < 20);
    assert_eq!(g.score(Team::A), 0);
    assert_eq!(g.score(Team::B), 0);
    assert_eq!(g.player(0), Player::spawn(Team::A));
    assert_eq!(g.player(1), Player::spawn(Team::A));
    assert_eq!(g.player(2), Player::spawn(Team::B));
    assert_eq!(g.player(3), Player::spawn(Team::B));
}

#[test]
fn quiet_ticks_spawn_an_obstacle_and_change_nothing_else() {
    let mut rng = StdRng::seed_from_u64(3);
    let mut g = Gamestate::new(&mut rng, 10_000);
    for _ in 0..(MAX_OBSTACLE_SPAWN_TIMER + 1) {
        g.start_tick(&mut rng, [false; 4]);
        g.finish_tick(&quiet_report());
    }
    assert!(g.obstacles().len() >= 1);
    for i in 0..4 {
        let p = g.player(i);
        assert!(!p.is_dead);
        assert_eq!(p.respawn_timer, 0);
        assert_eq!(p.ammo, AMMO_MAX);
    }
    assert_eq!(g.score(Team::A), 0);
    assert_eq!(g.score(Team::B), 0);
}

#[test]
fn obstacle_spawns_when_countdown_runs_out() {
    let mut g = Gamestate::with_spawn_delay(100, 19);
    for _ in 0..61 {
        let plan = quiet_tick(&mut g, [false; 4]);
        assert_eq!(plan.obstacle, None);
    }
    assert_eq!(g.obstacle_spawn_timer(), 80);
    let plan = quiet_tick(&mut g, [false; 4]);
    assert_eq!(plan.obstacle, Some(0));
    assert_eq!(g.obstacles(), &[0u64][..]);
    assert_eq!(g.obstacle_counter(), 1);
    assert_eq!(g.obstacle_spawn_timer(), 7);
}

#[test]
fn firing_spends_ammo_and_adds_bullet() {
    let mut g = Gamestate::with_spawn_delay(100, 0);
    for _ in 0..FIRE_RATE_TIMER_MAX {
        quiet_tick(&mut g, [false; 4]);
    }
    let before = g.bullets().len();
    let plan = quiet_tick(&mut g, [true, false, false, false]);
    assert_eq!(plan.moves[0], Move::Active { respawned: false, bullet: Some(0) });
    assert_eq!(g.bullets().len(), before + 1);
    assert_eq!(g.bullets()[0], BulletTag { guid: 0, team: Team::A });
    let a1 = g.player(0);
    assert_eq!(a1.ammo, AMMO_MAX - 1);
    assert_eq!(a1.fire_rate_timer, 0);
    assert_eq!(g.bullet_counter(), 1);
}

fn armed_match() -> Gamestate {
    let mut g = Gamestate::with_spawn_delay(1000, 0);
    for _ in 0..FIRE_RATE_TIMER_MAX {
        quiet_tick(&mut g, [false; 4]);
    }
    g
}

#[test]
fn enemy_bullet_scores_two_and_costs_one() {
    let mut g = armed_match();
    g.start_tick_with([true, false, false, false], 0);
    let mut r = quiet_report();
    r.bullet_contacts[2] = vec![0];
    g.finish_tick(&r);
    assert_eq!(g.score(Team::A), 2);
    assert_eq!(g.score(Team::B), -1);
    assert!(g.player(2).is_dead);
    assert!(g.bullets().is_empty());
}

#[test]
fn friendly_bullet_only_costs_one() {
    let mut g = armed_match();
    g.start_tick_with([true, false, false, false], 0);
    let mut r = quiet_report();
    r.bullet_contacts[1] = vec![0];
    g.finish_tick(&r);
    assert_eq!(g.score(Team::A), -1);
    assert_eq!(g.score(Team::B), 0);
    assert!(g.player(1).is_dead);
}

#[test]
fn bullet_strikes_only_the_first_avatar_it_meets() {
    let mut g = armed_match();
    g.start_tick_with([false, false, true, false], 0);
    let mut r = quiet_report();
    r.bullet_contacts[0] = vec![0];
    r.bullet_contacts[1] = vec![0];
    g.finish_tick(&r);
    assert!(g.player(0).is_dead);
    assert!(!g.player(1).is_dead);
    assert_eq!(g.score(Team::B), 2);
    assert_eq!(g.score(Team::A), -1);
}

#[test]
fn touching_avatars_both_die_without_points() {
    let mut g = Gamestate::with_spawn_delay(100, 0);
    g.start_tick_with([false; 4], 0);
    let mut r = quiet_report();
    r.player_contacts[1] = true;
    g.finish_tick(&r);
    assert!(g.player(0).is_dead);
    assert!(g.player(2).is_dead);
    assert!(!g.player(1).is_dead);
    assert!(!g.player(3).is_dead);
    assert_eq!(g.score(Team::A), 0);
    assert_eq!(g.score(Team::B), 0);
}

// A match whose first obstacle, guid 0, is live, and whose avatars may fire.
fn match_with_obstacle() -> Gamestate {
    let mut g = Gamestate::with_spawn_delay(1000, 19);
    for _ in 0..62 {
        quiet_tick(&mut g, [false; 4]);
    }
    assert_eq!(g.obstacles(), &[0u64][..]);
    g
}

#[test]
fn obstacle_contact_costs_own_team() {
    let mut g = match_with_obstacle();
    g.start_tick_with([false; 4], 0);
    let mut r = quiet_report();
    r.obstacle_contacts[3] = vec![0];
    g.finish_tick(&r);
    assert!(g.player(3).is_dead);
    assert_eq!(g.player(3).respawn_timer, 0);
    assert_eq!(g.score(Team::B), -1);
    assert_eq!(g.score(Team::A), 0);
}

#[test]
fn leaving_the_arena_kills() {
    let mut g = Gamestate::with_spawn_delay(100, 0);
    g.start_tick_with([false; 4], 0);
    let mut r = quiet_report();
    r.contained[1] = false;
    g.finish_tick(&r);
    assert!(g.player(1).is_dead);
    assert_eq!(g.score(Team::A), 0);
}

#[test]
fn dead_avatar_in_obstacle_is_charged_but_stays_frozen() {
    let mut g = match_with_obstacle();
    g.start_tick_with([false; 4], 0);
    let mut r = quiet_report();
    r.obstacle_contacts[0] = vec![0];
    g.finish_tick(&r);
    assert_eq!(g.score(Team::A), -1);
    let dead = g.player(0);
    assert!(dead.is_dead);
    for _ in 0..5 {
        g.start_tick_with([false; 4], 0);
        g.finish_tick(&r);
    }
    assert_eq!(g.score(Team::A), -6);
    assert_eq!(g.player(0), Player { respawn_timer: 5, ..dead });
}

#[test]
fn living_avatar_touching_dead_one_dies() {
    let mut g = Gamestate::with_spawn_delay(100, 0);
    g.start_tick_with([false; 4], 0);
    let mut r = quiet_report();
    r.contained[1] = false;
    g.finish_tick(&r);
    assert!(g.player(1).is_dead);
    g.start_tick_with([false; 4], 0);
    let mut r = quiet_report();
    r.player_contacts[0] = true;
    g.finish_tick(&r);
    assert!(g.player(0).is_dead);
    assert_eq!(g.player(0).respawn_timer, 0);
    assert_eq!(g.player(1).respawn_timer, 1);
    assert!(!g.player(2).is_dead);
}

#[test]
fn bullet_on_dead_avatar_is_spent_and_scored() {
    let mut g = armed_match();
    g.start_tick_with([false; 4], 0);
    let mut r = quiet_report();
    r.contained[2] = false;
    g.finish_tick(&r);
    assert!(g.player(2).is_dead);
    g.start_tick_with([true, false, false, false], 0);
    let mut r = quiet_report();
    r.bullet_contacts[2] = vec![0];
    g.finish_tick(&r);
    assert!(g.bullets().is_empty());
    assert_eq!(g.score(Team::A), 2);
    assert_eq!(g.score(Team::B), -1);
    assert_eq!(g.player(2).respawn_timer, 1);
}

#[test]
fn avatar_respawns_after_delay_in_match() {
    let mut g = Gamestate::with_spawn_delay(1000, 0);
    g.start_tick_with([false; 4], 0);
    let mut r = quiet_report();
    r.contained[0] = false;
    g.finish_tick(&r);
    for _ in 0..=MAX_PLAYER_RESPAWN_TIMER {
        let plan = quiet_tick(&mut g, [false; 4]);
        assert_eq!(plan.moves[0], Move::Waiting);
    }
    let plan = quiet_tick(&mut g, [false; 4]);
    assert_eq!(plan.moves[0], Move::Active { respawned: true, bullet: None });
    let a1 = g.player(0);
    assert!(!a1.is_dead);
    assert_eq!(a1.ammo, AMMO_MAX);
}

#[test]
fn despawn_removes_listed_guids_keeping_order() {
    let mut g = Gamestate::with_spawn_delay(1000, 0);
    for _ in 0..FIRE_RATE_TIMER_MAX {
        quiet_tick(&mut g, [false; 4]);
    }
    g.start_tick_with([true, true, true, false], 0);
    let mut r = quiet_report();
    r.bullets_out = vec![1, 42];
    g.finish_tick(&r);
    assert_eq!(g.bullets(), &[BulletTag { guid: 0, team: Team::A }, BulletTag { guid: 2, team: Team::B }][..]);
    assert_eq!(g.bullet_counter(), 3);
}

#[test]
fn match_reports_over_after_max_ticks() {
    let mut g = Gamestate::with_spawn_delay(2, 0);
    g.start_tick_with([false; 4], 0);
    assert!(!g.finish_tick(&quiet_report()));
    g.start_tick_with([false; 4], 0);
    assert!(!g.finish_tick(&quiet_report()));
    g.start_tick_with([false; 4], 0);
    assert!(g.finish_tick(&quiet_report()));
    assert!(g.is_over());
}

#[test]
fn seeded_runs_are_identical() {
    let inputs: Vec<[bool; 4]> = (0..300u32).map(|k| [k % 7 == 0, k % 5 == 0, k % 3 == 0, k % 11 == 0]).collect();
    let mut runs = Vec::new();
    for _ in 0..2 {
        let mut rng = StdRng::seed_from_u64(99);
        let mut g = Gamestate::new(&mut rng, 1000);
        for shoot in &inputs {
            g.start_tick(&mut rng, *shoot);
            let mut r = quiet_report();
            r.bullet_contacts[3] = g.bullets().iter().map(|b| b.guid).collect();
            g.finish_tick(&r);
        }
        runs.push(settled(&g));
    }
    assert_eq!(runs[0], runs[1]);
}

#[test]
fn two_bullets_on_one_avatar_both_score() {
    let mut g = armed_match();
    g.start_tick_with([true, true, false, false], 0);
    let mut r = quiet_report();
    r.bullet_contacts[2] = vec![0, 1];
    g.finish_tick(&r);
    assert_eq!(g.score(Team::A), 4);
    assert_eq!(g.score(Team::B), -2);
    assert!(g.player(2).is_dead);
    assert!(g.bullets().is_empty());
}

#[test]
fn mixed_bullets_on_one_avatar() {
    let mut g = armed_match();
    g.start_tick_with([true, false, true, false], 0);
    let mut r = quiet_report();
    r.bullet_contacts[3] = vec![0, 1];
    g.finish_tick(&r);
    assert_eq!(g.score(Team::A), 2);
    assert_eq!(g.score(Team::B), -2);
    assert!(g.player(3).is_dead);
}

#[test]
fn two_obstacles_on_one_avatar_cost_two() {
    let mut g = match_with_obstacle();
    for _ in 0..200 {
        if g.obstacles().len() == 2 {
            break;
        }
        quiet_tick(&mut g, [false; 4]);
    }
    assert_eq!(g.obstacles(), &[0u64, 1][..]);
    g.start_tick_with([false; 4], 0);
    let mut r = quiet_report();
    r.obstacle_contacts[0] = vec![0, 1];
    g.finish_tick(&r);
    assert!(g.player(0).is_dead);
    assert_eq!(g.score(Team::A), -2);
    assert_eq!(g.score(Team::B), 0);
}

#[test]
fn avatar_killed_by_obstacle_is_still_struck_by_bullet() {
    let mut g = match_with_obstacle();
    g.start_tick_with([true, false, false, false], 0);
    let mut r = quiet_report();
    r.obstacle_contacts[2] = vec![0];
    r.bullet_contacts[2] = vec![0];
    g.finish_tick(&r);
    assert!(g.player(2).is_dead);
    assert_eq!(g.score(Team::B), -2);
    assert_eq!(g.score(Team::A), 2);
    assert!(g.bullets().is_empty());
}

#[test]
fn contacts_with_unknown_guids_are_ignored() {
    let mut g = Gamestate::with_spawn_delay(100, 0);
    g.start_tick_with([false; 4], 0);
    let mut r = quiet_report();
    r.obstacle_contacts[1] = vec![42];
    r.bullet_contacts[1] = vec![7];
    g.finish_tick(&r);
    assert!(!g.player(1).is_dead);
    assert_eq!(g.score(Team::A), 0);
}
