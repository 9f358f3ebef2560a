//! One avatar's discrete state: team, ammunition, timers and life cycle.

use vstd::prelude::*;
use crate::rules::{
    AMMO_MAX, FIRE_RATE_TIMER_MAX, MAX_PLAYER_RESPAWN_TIMER, RELOAD_TIMER_MAX,
};

verus! {

/// The side an avatar plays for.
#[derive(Clone, Copy, Debug, PartialEq, Eq, Structural, Hash)]
pub enum Team {
    A,
    B,
}

/// The discrete state of one avatar.  Its position, velocity and heading
/// are kept by the caller.
#[derive(Clone, Copy, Debug, PartialEq, Eq, Structural)]
pub struct Player {
    pub team: Team,
    pub ammo: u32,
    /// Ticks since the last refilled round.
    pub reload_timer: u32,
    /// Ticks since the last shot.
    pub fire_rate_timer: u32,
    pub is_dead: bool,
    /// Ticks since death.
    pub respawn_timer: u32,
}

/// What one avatar did during the first half of a tick.
#[derive(Clone, Copy, Debug, PartialEq, Eq, Structural)]
pub enum PlayerAction {
    /// Dead, and still waiting to respawn: nothing but the respawn timer moved.
    Waiting,
    /// Alive this tick.  `respawned` tells the caller to place the avatar
    /// at a fresh spawn point with zero velocity; `fired` tells it that a
    /// bullet left the muzzle.
    Active { respawned: bool, fired: bool },
}

/// A freshly spawned avatar of `team`.
pub open spec fn spawned(team: Team) -> Player {
    Player {
        team,
        ammo: AMMO_MAX,
        reload_timer: 0,
        fire_rate_timer: 0,
        is_dead: false,
        respawn_timer: 0,
    }
}

impl Player {
    pub open spec fn wf(self) -> bool {
        self.ammo <= AMMO_MAX
    }

    /// A dead avatar whose respawn delay has not yet run out.
    pub open spec fn waiting(self) -> bool {
        self.is_dead && self.respawn_timer <= MAX_PLAYER_RESPAWN_TIMER
    }

    /// The fire-rate and reload timers advanced by one tick, with a round
    /// refilled when the reload timer has run out.
    pub open spec fn timers_advanced(self) -> Player {
        let p = if self.fire_rate_timer <= FIRE_RATE_TIMER_MAX {
            Player { fire_rate_timer: (self.fire_rate_timer + 1) as u32, ..self }
        } else {
            self
        };
        if p.reload_timer <= RELOAD_TIMER_MAX {
            Player { reload_timer: (p.reload_timer + 1) as u32, ..p }
        } else if p.ammo < AMMO_MAX {
            Player { ammo: (p.ammo + 1) as u32, reload_timer: 0, ..p }
        } else {
            p
        }
    }

    /// Whether a living avatar that asks to shoot gets a bullet out.
    pub open spec fn can_fire(self, shoot: bool) -> bool {
        shoot && self.ammo > 0 && self.fire_rate_timer > FIRE_RATE_TIMER_MAX
    }

    /// The avatar after its part of the first half of a tick, and what it did.
    pub open spec fn stepped(self, shoot: bool) -> (Player, PlayerAction) {
        if self.waiting() {
            (Player { respawn_timer: (self.respawn_timer + 1) as u32, ..self }, PlayerAction::Waiting)
        } else {
            let live = if self.is_dead { spawned(self.team) } else { self };
            let t = live.timers_advanced();
            if t.can_fire(shoot) {
                (
                    Player { fire_rate_timer: 0, ammo: (t.ammo - 1) as u32, ..t },
                    PlayerAction::Active { respawned: self.is_dead, fired: true },
                )
            } else {
                (t, PlayerAction::Active { respawned: self.is_dead, fired: false })
            }
        }
    }

    /// The avatar killed: dead, with its respawn timer restarted.
    pub open spec fn killed(self) -> Player {
        Player { is_dead: true, respawn_timer: 0, ..self }
    }

    /// A freshly spawned avatar of `team`: alive, fully loaded, all timers at zero.
    pub fn spawn(team: Team) -> (r: Player)
        ensures
            r == spawned(team),
    {
        Player {
            team,
            ammo: AMMO_MAX,
            reload_timer: 0,
            fire_rate_timer: 0,
            is_dead: false,
            respawn_timer: 0,
        }
    }

    /// Brings the avatar back to life with full ammunition and all timers
    /// at zero; it keeps its team.
    pub fn respawn(&mut self)
        ensures
            *final(self) == spawned(old(self).team),
    {
        *self = Player::spawn(self.team);
    }

    /// Kills the avatar and restarts its respawn timer.
    pub fn kill(&mut self)
        ensures
            *final(self) == old(self).killed(),
    {
        self.is_dead = true;
        self.respawn_timer = 0;
    }

    /// Advances the avatar by the first half of a tick: a dead avatar only
    /// counts towards its respawn, or respawns once the delay has run out;
    /// a living one advances its timers, refills a round when the reload
    /// timer has run out, and fires when asked to, loaded and cooled down.
    pub fn advance(&mut self, shoot: bool) -> (act: PlayerAction)
        ensures
            (*final(self), act) == old(self).stepped(shoot),
    {
        let respawned = self.is_dead;
        if self.is_dead {
            if self.respawn_timer <= MAX_PLAYER_RESPAWN_TIMER {
                self.respawn_timer = self.respawn_timer + 1;
                return PlayerAction::Waiting;
            }
            self.respawn();
        }
        if self.fire_rate_timer <= FIRE_RATE_TIMER_MAX {
            self.fire_rate_timer = self.fire_rate_timer + 1;
        }
        if self.reload_timer <= RELOAD_TIMER_MAX {
            self.reload_timer = self.reload_timer + 1;
        } else if self.ammo < AMMO_MAX {
            self.ammo = self.ammo + 1;
            self.reload_timer = 0;
        }
        let fired = shoot && self.ammo > 0 && self.fire_rate_timer > FIRE_RATE_TIMER_MAX;
        if fired {
            self.fire_rate_timer = 0;
            self.ammo = self.ammo - 1;
        }
        PlayerAction::Active { respawned, fired }
    }
}

} // verus!
