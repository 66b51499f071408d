//! Sokoban-style movement and collision: directions, blocks and push rules.
use crate::grid::{GridCoords, IVec2};
use vstd::prelude::*;

verus! {

/// Enumerates the nine directions (including no direction) that blocks can move in.
#[derive(Copy, Clone, Debug, PartialEq, Eq, Hash, Structural)]
pub enum Direction {
    Zero,
    UpRight,
    /// North direction.
    Up,
    UpLeft,
    /// West direction.
    Left,
    DownLeft,
    /// South direction.
    Down,
    DownRight,
    /// East direction.
    Right,
}

/// Error: a vector whose components are not all in `-1..=1` is not a direction.
#[derive(Copy, Clone, Debug, PartialEq, Eq, Hash, Structural)]
pub struct OutOfBoundsDirection;

/// The x component of a direction's unit vector.
pub open spec fn dir_x(d: Direction) -> int {
    match d {
        Direction::UpRight | Direction::DownRight | Direction::Right => 1,
        Direction::UpLeft | Direction::DownLeft | Direction::Left => -1,
        _ => 0,
    }
}

/// The y component of a direction's unit vector.
pub open spec fn dir_y(d: Direction) -> int {
    match d {
        Direction::UpRight | Direction::Up | Direction::UpLeft => 1,
        Direction::DownLeft | Direction::Down | Direction::DownRight => -1,
        _ => 0,
    }
}

/// The direction whose unit vector is `(x, y)`, if any.
pub open spec fn dir_from_components(x: int, y: int) -> Option<Direction> {
    if x == 0 && y == 0 {
        Some(Direction::Zero)
    } else if x == 1 && y == 1 {
        Some(Direction::UpRight)
    } else if x == 0 && y == 1 {
        Some(Direction::Up)
    } else if x == -1 && y == 1 {
        Some(Direction::UpLeft)
    } else if x == -1 && y == 0 {
        Some(Direction::Left)
    } else if x == -1 && y == -1 {
        Some(Direction::DownLeft)
    } else if x == 0 && y == -1 {
        Some(Direction::Down)
    } else if x == 1 && y == -1 {
        Some(Direction::DownRight)
    } else if x == 1 && y == 0 {
        Some(Direction::Right)
    } else {
        None
    }
}

/// The sum of two directions, if it is again a direction.
pub open spec fn dir_sum(a: Direction, b: Direction) -> Option<Direction> {
    dir_from_components(dir_x(a) + dir_x(b), dir_y(a) + dir_y(b))
}

/// Position of a direction in the declaration order of [Direction].
pub open spec fn dir_index(d: Direction) -> nat {
    match d {
        Direction::Zero => 0,
        Direction::UpRight => 1,
        Direction::Up => 2,
        Direction::UpLeft => 3,
        Direction::Left => 4,
        Direction::DownLeft => 5,
        Direction::Down => 6,
        Direction::DownRight => 7,
        Direction::Right => 8,
    }
}

impl Default for Direction {
    fn default() -> (d: Direction)
        ensures
            d == Direction::Zero,
    {
        Direction::Zero
    }
}

impl Direction {
    /// The unit vector of this direction.
    pub fn to_ivec2(&self) -> (v: IVec2)
        ensures
            v.x == dir_x(*self),
            v.y == dir_y(*self),
    {
        match self {
            Direction::Zero => IVec2::new(0, 0),
            Direction::UpRight => IVec2::new(1, 1),
            Direction::Up => IVec2::new(0, 1),
            Direction::UpLeft => IVec2::new(-1, 1),
            Direction::Left => IVec2::new(-1, 0),
            Direction::DownLeft => IVec2::new(-1, -1),
            Direction::Down => IVec2::new(0, -1),
            Direction::DownRight => IVec2::new(1, -1),
            Direction::Right => IVec2::new(1, 0),
        }
    }

    /// The direction whose unit vector is `value`, or an error when a component is outside `-1..=1`.
    pub fn try_from(value: &IVec2) -> (r: Result<Direction, OutOfBoundsDirection>)
        ensures
            match dir_from_components(value.x as int, value.y as int) {
                Some(d) => r == Ok::<Direction, OutOfBoundsDirection>(d),
                None => r == Err::<Direction, OutOfBoundsDirection>(OutOfBoundsDirection),
            },
    {
        match (value.x, value.y) {
            (0, 0) => Ok(Direction::Zero),
            (1, 1) => Ok(Direction::UpRight),
            (0, 1) => Ok(Direction::Up),
            (-1, 1) => Ok(Direction::UpLeft),
            (-1, 0) => Ok(Direction::Left),
            (-1, -1) => Ok(Direction::DownLeft),
            (0, -1) => Ok(Direction::Down),
            (1, -1) => Ok(Direction::DownRight),
            (1, 0) => Ok(Direction::Right),
            _ => Err(OutOfBoundsDirection),
        }
    }

    /// Adds two directions component-wise; an error when the sum is not a direction.
    pub fn try_add(self, rhs: Direction) -> (r: Result<Direction, OutOfBoundsDirection>)
        ensures
            match dir_sum(self, rhs) {
                Some(d) => r == Ok::<Direction, OutOfBoundsDirection>(d),
                None => r == Err::<Direction, OutOfBoundsDirection>(OutOfBoundsDirection),
            },
    {
        let a = self.to_ivec2();
        let b = rhs.to_ivec2();
        let sum = a.add(b);
        Direction::try_from(&sum)
    }

    /// Adds two directions whose sum is a direction.
    pub fn add(self, rhs: Direction) -> (d: Direction)
        requires
            dir_sum(self, rhs) is Some,
        ensures
            dir_sum(self, rhs) == Some(d),
    {
        match self.try_add(rhs) {
            Ok(d) => d,
            Err(_) => {
                assert(false);
                Direction::Zero
            },
        }
    }

    /// Adds `rhs` to this direction in place.
    pub fn add_assign(&mut self, rhs: Direction)
        requires
            dir_sum(*old(self), rhs) is Some,
        ensures
            dir_sum(*old(self), rhs) == Some(*final(self)),
    {
        *self = self.add(rhs);
    }

    /// Position of this direction in the declaration order of [Direction].
    pub fn variant_index(&self) -> (i: usize)
        ensures
            i == dir_index(*self),
    {
        match self {
            Direction::Zero => 0,
            Direction::UpRight => 1,
            Direction::Up => 2,
            Direction::UpLeft => 3,
            Direction::Left => 4,
            Direction::DownLeft => 5,
            Direction::Down => 6,
            Direction::DownRight => 7,
            Direction::Right => 8,
        }
    }
}

/// A direction converts to the vector it came from: the unit vector of `d` is read back as `d`.
pub proof fn lemma_direction_vector_round_trip(d: Direction)
    ensures
        dir_from_components(dir_x(d), dir_y(d)) == Some(d),
{
}

/// Every direction's unit vector has components in `-1..=1`, and every such vector is a direction.
pub proof fn lemma_direction_components(x: int, y: int)
    ensures
        dir_from_components(x, y) is Some <==> (-1 <= x <= 1 && -1 <= y <= 1),
        dir_from_components(x, y) matches Some(d) ==> dir_x(d) == x && dir_y(d) == y,
{
}

/// Adding directions is commutative.
pub proof fn lemma_direction_add_commutative(a: Direction, b: Direction)
    ensures
        dir_sum(a, b) == dir_sum(b, a),
{
}

/// `Zero` is the identity of direction addition.
pub proof fn lemma_direction_add_zero(a: Direction)
    ensures
        dir_sum(a, Direction::Zero) == Some(a),
        dir_sum(Direction::Zero, a) == Some(a),
{
}

/// A direction plus its opposite is `Zero`.
pub proof fn lemma_direction_add_opposite(a: Direction)
    ensures
        dir_from_components(-dir_x(a), -dir_y(a)) matches Some(b) && dir_sum(a, b) == Some(
            Direction::Zero,
        ),
{
}

/// Distinct directions have distinct variant indices, all below nine.
pub proof fn lemma_direction_index_injective(a: Direction, b: Direction)
    ensures
        dir_index(a) < 9,
        dir_index(a) == dir_index(b) ==> a == b,
{
}

/// Defines the behavior of sokoban entities on collision.
#[derive(Copy, Clone, Debug, PartialEq, Eq, Hash, Structural)]
pub enum SokobanBlock {
    /// The entity cannot move, push, or be pushed - but can block movement.
    Static,
    /// The entity can move, push, or be pushed.
    Dynamic,
}

impl Default for SokobanBlock {
    fn default() -> (b: SokobanBlock)
        ensures
            b == SokobanBlock::Static,
    {
        SokobanBlock::Static
    }
}

impl SokobanBlock {
    /// Constructor returning [SokobanBlock::Static].
    pub fn new_static() -> (b: SokobanBlock)
        ensures
            b == SokobanBlock::Static,
    {
        SokobanBlock::Static
    }

    /// Constructor returning [SokobanBlock::Dynamic].
    pub fn new_dynamic() -> (b: SokobanBlock)
        ensures
            b == SokobanBlock::Dynamic,
    {
        SokobanBlock::Dynamic
    }
}

/// Whether a pusher was blocked.
#[derive(Copy, Clone, Debug, PartialEq, Eq, Hash, Structural)]
pub enum PusherResult {
    NotBlocked,
    Blocked,
}

impl Default for PusherResult {
    fn default() -> (r: PusherResult)
        ensures
            r == PusherResult::NotBlocked,
    {
        PusherResult::NotBlocked
    }
}

/// Combines two pusher results: blocked when either is blocked.
pub open spec fn pusher_reduce(a: PusherResult, b: PusherResult) -> PusherResult {
    if a == PusherResult::NotBlocked && b == PusherResult::NotBlocked {
        PusherResult::NotBlocked
    } else {
        PusherResult::Blocked
    }
}

impl PusherResult {
    /// Blocked when either result is blocked.
    pub fn reduce(&self, other: &PusherResult) -> (r: PusherResult)
        ensures
            r == pusher_reduce(*self, *other),
    {
        match (self, other) {
            (PusherResult::NotBlocked, PusherResult::NotBlocked) => PusherResult::NotBlocked,
            _ => PusherResult::Blocked,
        }
    }
}

/// Whether a pushee was pushed.
#[derive(Copy, Clone, Debug, PartialEq, Eq, Hash, Structural)]
pub enum PusheeResult {
    NotPushed,
    Pushed,
}

/// Combines two pushee results: pushed when either is pushed.
pub open spec fn pushee_reduce(a: PusheeResult, b: PusheeResult) -> PusheeResult {
    if a == PusheeResult::NotPushed && b == PusheeResult::NotPushed {
        PusheeResult::NotPushed
    } else {
        PusheeResult::Pushed
    }
}

impl PusheeResult {
    /// Pushed when either result is pushed.
    pub fn reduce(&self, other: &PusheeResult) -> (r: PusheeResult)
        ensures
            r == pushee_reduce(*self, *other),
    {
        match (self, other) {
            (PusheeResult::NotPushed, PusheeResult::NotPushed) => PusheeResult::NotPushed,
            _ => PusheeResult::Pushed,
        }
    }
}

/// Reducing pusher results is commutative, associative, and has `NotBlocked` as identity.
pub proof fn lemma_pusher_reduce_monoid(a: PusherResult, b: PusherResult, c: PusherResult)
    ensures
        pusher_reduce(a, b) == pusher_reduce(b, a),
        pusher_reduce(pusher_reduce(a, b), c) == pusher_reduce(a, pusher_reduce(b, c)),
        pusher_reduce(a, PusherResult::NotBlocked) == a,
{
}

/// Reducing pushee results is commutative, associative, and has `NotPushed` as identity.
pub proof fn lemma_pushee_reduce_monoid(a: PusheeResult, b: PusheeResult, c: PusheeResult)
    ensures
        pushee_reduce(a, b) == pushee_reduce(b, a),
        pushee_reduce(pushee_reduce(a, b), c) == pushee_reduce(a, pushee_reduce(b, c)),
        pushee_reduce(a, PusheeResult::NotPushed) == a,
{
}

/// The outcome of one block pushing another.
pub open spec fn push_spec(pusher: SokobanBlock, pushee: SokobanBlock) -> (
    PusherResult,
    PusheeResult,
) {
    match (pusher, pushee) {
        (SokobanBlock::Dynamic, SokobanBlock::Dynamic) => (PusherResult::NotBlocked, PusheeResult::Pushed),
        _ => (PusherResult::Blocked, PusheeResult::NotPushed),
    }
}

/// Rules for what happens when one value pushes another.
pub trait Push {
    fn push(&self, pushee: &Self) -> (PusherResult, PusheeResult);
}

impl Push for SokobanBlock {
    /// A static block cannot push or be pushed: it blocks and stays. A dynamic block pushes a
    /// dynamic one freely.
    fn push(&self, pushee: &Self) -> (r: (PusherResult, PusheeResult))
        ensures
            r == push_spec(*self, *pushee),
    {
        match (self, pushee) {
            (SokobanBlock::Dynamic, SokobanBlock::Dynamic) => (PusherResult::NotBlocked, PusheeResult::Pushed),
            _ => (PusherResult::Blocked, PusheeResult::NotPushed),
        }
    }
}

/// Marks blocks that report [PushEvent]s when they push other blocks.
#[derive(Copy, Clone, Debug, PartialEq, Eq, Hash, Default, Structural)]
pub struct PushTracker;

/// Fired when a push-tracking entity pushes other blocks.
#[derive(Clone, Debug, PartialEq, Eq, Hash)]
pub struct PushEvent {
    /// The pushing entity.
    pub pusher: u64,
    /// The direction of the push.
    pub direction: Direction,
    /// The entities it pushed.
    pub pushed: Vec<u64>,
}

/// A push event as plain values: pusher, direction and pushed entities.
pub open spec fn event_view(e: PushEvent) -> (u64, Direction, Seq<u64>) {
    (e.pusher, e.direction, e.pushed@)
}

/// Commands that the sokoban logic performs.
#[derive(Copy, Clone, Debug, PartialEq, Eq, Hash, Structural)]
pub enum SokobanCommand {
    /// Move a block entity in the given direction.
    Move {
        /// The block entity to move.
        entity: u64,
        /// The direction to move the block in.
        direction: Direction,
    },
}

/// The queue of commands for the sokoban logic, flushed once per frame.
pub struct SokobanCommands {
    /// The commands in the order they were given.
    pub commands: Vec<SokobanCommand>,
}

impl SokobanCommands {
    /// An empty queue.
    pub fn new() -> (q: SokobanCommands)
        ensures
            q.commands@ == Seq::<SokobanCommand>::empty(),
    {
        SokobanCommands { commands: Vec::new() }
    }

    /// Move a block entity in the given direction.
    ///
    /// The collision checks and block pushes happen when the queue is flushed.
    pub fn move_block(&mut self, entity: u64, direction: Direction)
        ensures
            final(self).commands@ == old(self).commands@.push((SokobanCommand::Move { entity, direction })),
    {
        self.commands.push(SokobanCommand::Move { entity, direction });
    }
}

/// The coordinates one step from `c` in direction `d`.
pub open spec fn step(c: GridCoords, d: Direction) -> (int, int) {
    (c.x + dir_x(d), c.y + dir_y(d))
}

} // verus!
