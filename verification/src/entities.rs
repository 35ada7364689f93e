use vstd::prelude::*;

use crate::game_constants::ARRIVE_TOLERANCE_H;
use crate::helper::approximately_eq;

verus! {

/// A direction in which a marker can move.
#[allow(non_camel_case_types)]
#[derive(Clone, Copy, Debug, PartialEq, Eq, Structural)]
pub enum Direction {
    UP,
    DOWN,
    LEFT,
    RIGHT,
}

impl Direction {
    /// The direction pointing the opposite way.
    pub open spec fn opposite(self) -> Direction {
        match self {
            Direction::UP => Direction::DOWN,
            Direction::DOWN => Direction::UP,
            Direction::LEFT => Direction::RIGHT,
            Direction::RIGHT => Direction::LEFT,
        }
    }
}

/// A two-dimensional integer point.  The mapper functions use it in drawing
/// units; marker entities use it in half-units.
#[derive(Clone, Copy, Debug, PartialEq, Eq, Structural)]
pub struct Pos {
    pub x: i32,
    pub y: i32,
}

/// A marker placed by a player: a movable token with a position, a target
/// position, a direction, a rotation (hundredths of a radian) and the
/// identifier of the player that owns it.  Positions are in half-units.
#[derive(Clone, Copy, Debug, PartialEq, Eq, Structural)]
pub struct Player {
    pub rotation: u32,
    pub pos: Pos,
    pub go_to_pos: Pos,
    pub speed: i32,
    pub dir: Direction,
    pub id: u32,
}

/// A marker is considered to have arrived when its position is strictly
/// within one unit (two half-units) of its target on both axes.
pub open spec fn spec_arrived(pos: Pos, go_to_pos: Pos) -> bool {
    &&& go_to_pos.x + ARRIVE_TOLERANCE_H > pos.x
    &&& go_to_pos.x - ARRIVE_TOLERANCE_H < pos.x
    &&& go_to_pos.y + ARRIVE_TOLERANCE_H > pos.y
    &&& go_to_pos.y - ARRIVE_TOLERANCE_H < pos.y
}

impl Player {
    /// Creates a marker template for the player with the given identifier.
    /// Identifiers are handed out by the caller, increasing from zero, so
    /// that each player gets a unique, stable identifier.
    pub fn new(id: u32) -> (player: Player)
        ensures
            player == (Player {
                rotation: 0,
                pos: Pos { x: 0, y: 0 },
                go_to_pos: Pos { x: 0, y: 0 },
                speed: 0,
                dir: Direction::UP,
                id: id,
            }),
    {
        Player {
            rotation: 0,
            pos: Pos { x: 0, y: 0 },
            go_to_pos: Pos { x: 0, y: 0 },
            speed: 0,
            dir: Direction::UP,
            id: id,
        }
    }

    /// Moves the marker one step of `speed` half-units along its direction.
    /// If it has then arrived at its target, its speed is zeroed and the
    /// flag is cleared; otherwise marker and flag keep their values.
    pub fn update(&mut self, triggered: &mut bool)
        requires
            -1_000_000 <= old(self).pos.x <= 1_000_000,
            -1_000_000 <= old(self).pos.y <= 1_000_000,
            0 <= old(self).speed <= 1_000,
        ensures
            ({
                let moved = final(self).pos;
                let before = old(self).pos;
                let step = old(self).speed;
                match old(self).dir {
                    Direction::LEFT => moved.x == before.x - step && moved.y == before.y,
                    Direction::RIGHT => moved.x == before.x + step && moved.y == before.y,
                    Direction::UP => moved.y == before.y - step && moved.x == before.x,
                    Direction::DOWN => moved.y == before.y + step && moved.x == before.x,
                }
            }),
            final(self).rotation == old(self).rotation,
            final(self).go_to_pos == old(self).go_to_pos,
            final(self).dir == old(self).dir,
            final(self).id == old(self).id,
            spec_arrived(final(self).pos, old(self).go_to_pos) ==> {
                &&& final(self).speed == 0
                &&& *final(triggered) == false
            },
            !spec_arrived(final(self).pos, old(self).go_to_pos) ==> {
                &&& final(self).speed == old(self).speed
                &&& *final(triggered) == *old(triggered)
            },
    {
        match self.dir {
            Direction::LEFT => {
                self.pos.x = self.pos.x - self.speed;
            }
            Direction::RIGHT => {
                self.pos.x = self.pos.x + self.speed;
            }
            Direction::UP => {
                self.pos.y = self.pos.y - self.speed;
            }
            Direction::DOWN => {
                self.pos.y = self.pos.y + self.speed;
            }
        }

        if approximately_eq(self.pos.x, self.go_to_pos.x, ARRIVE_TOLERANCE_H)
            && approximately_eq(self.pos.y, self.go_to_pos.y, ARRIVE_TOLERANCE_H) {
            self.speed = 0;
            *triggered = false;
        }
    }

    /// The marker's rotation, in hundredths of a radian.
    pub fn get_rotation(&self) -> (rotation: u32)
        ensures
            rotation == self.rotation,
    {
        self.rotation
    }

    /// The marker's current position, in half-units.
    pub fn get_position(&self) -> (pos: Pos)
        ensures
            pos == self.pos,
    {
        self.pos
    }

    /// The identifier of the player that owns the marker.
    pub fn get_id(&self) -> (id: u32)
        ensures
            id == self.id,
    {
        self.id
    }

    /// Sets the marker's rotation, in hundredths of a radian.
    pub fn set_rotation(&mut self, rotation: u32)
        ensures
            *final(self) == (Player { rotation, ..*old(self) }),
    {
        self.rotation = rotation;
    }

    /// Sets the marker's movement speed, in half-units per frame.
    pub fn set_speed(&mut self, speed: i32)
        ensures
            *final(self) == (Player { speed, ..*old(self) }),
    {
        self.speed = speed;
    }

    /// Sets the marker's position, in half-units.
    pub fn set_pos(&mut self, pos: Pos)
        ensures
            *final(self) == (Player { pos, ..*old(self) }),
    {
        self.pos = pos;
    }

    /// Sets the marker's direction of movement.
    pub fn set_dir(&mut self, dir: Direction)
        ensures
            *final(self) == (Player { dir, ..*old(self) }),
    {
        self.dir = dir;
    }

    /// Sets the target position the marker moves towards, in half-units.
    pub fn set_go_to_pos(&mut self, go_to_pos: Pos)
        ensures
            *final(self) == (Player { go_to_pos, ..*old(self) }),
    {
        self.go_to_pos = go_to_pos;
    }
}

} // verus!
