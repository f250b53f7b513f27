//! The discrete side of one foraging agent: whether it searches or carries
//! food, how long its current trip has lasted, and what it decides each tick.
//!
//! An agent's position, velocity and target are continuous and stay with the
//! caller, who moves the agent and tells this module what the motion amounts
//! to on the grid. One tick runs in this order:
//!
//! 1. the caller reflects position and target at the borders;
//! 2. [`Agent::deliver`] with whether the agent stands at the nest; the
//!    caller reverses the velocity if food was delivered;
//! 3. [`Agent::sense`] with the truncated position; on [`Sensed::Food`] the
//!    caller makes the cell its target and reverses the velocity;
//! 4. the caller weighs the marks of [`Sensed::Trails`], draws a number and
//!    says for each mark whether the running share of the weights has
//!    reached the draw; [`choose_heading`] picks the target or sends the
//!    agent wandering;
//! 5. the caller moves the agent;
//! 6. [`Agent::lay_trail`] at the cell where the agent now stands.

use vstd::prelude::*;
use crate::cell::Cell;
use crate::food::{food_in_reach, is_nearest_food, FoodSet};
use crate::neighborhood::{in_reach, GridPoint, SENSING_RADIUS};
use crate::trail::{
    deposited, is_trail_scan, lemma_trail_scan_unique, Mark, TrailField, TrailKind,
};

verus! {

/// What a trip's first deposit amounts to; the deposit of tick `n` of a trip
/// is this divided by `n`.
pub const DEPOSIT_BASE: u32 = 1000;

/// What an agent is doing.
#[derive(Clone, Copy, Debug, PartialEq, Eq, Structural)]
pub enum AgentState {
    /// Searching for food, carrying none.
    Foraging,
    /// Carrying food back to the nest.
    Returning,
}

impl AgentState {
    /// The trail that an agent in this state may follow: a searcher follows
    /// food trails, a carrier follows home trails.
    pub open spec fn spec_usable_trail(self) -> TrailKind {
        match self {
            AgentState::Foraging => TrailKind::Food,
            AgentState::Returning => TrailKind::Home,
        }
    }

    /// The trail that an agent in this state may follow.
    #[verifier::when_used_as_spec(spec_usable_trail)]
    pub fn usable_trail(self) -> (kind: TrailKind)
        ensures
            kind == self.spec_usable_trail(),
    {
        match self {
            AgentState::Foraging => TrailKind::Food,
            AgentState::Returning => TrailKind::Home,
        }
    }

    /// The trail that an agent in this state lays: a searcher marks the way
    /// home, a carrier marks the way to the food.
    pub open spec fn spec_laid_trail(self) -> TrailKind {
        match self {
            AgentState::Foraging => TrailKind::Home,
            AgentState::Returning => TrailKind::Food,
        }
    }

    /// The trail that an agent in this state lays.
    #[verifier::when_used_as_spec(spec_laid_trail)]
    pub fn laid_trail(self) -> (kind: TrailKind)
        ensures
            kind == self.spec_laid_trail(),
    {
        match self {
            AgentState::Foraging => TrailKind::Home,
            AgentState::Returning => TrailKind::Food,
        }
    }
}

/// One foraging agent.
#[derive(Clone, Copy, Debug, PartialEq, Eq, Structural)]
pub struct Agent {
    pub state: AgentState,
    /// Ticks spent searching since the last delivery.
    pub home_trip_ticks: u64,
    /// Ticks spent carrying since the last delivery.
    pub food_trip_ticks: u64,
}

/// What an agent found around itself.
#[derive(Debug, PartialEq)]
pub enum Sensed<V> {
    /// A food cell, which the agent has claimed.
    Food(Cell),
    /// The marks of the usable trail in the neighborhood, in scan order.
    Trails(Vec<Mark<V>>),
}

/// Where an agent goes next.
#[derive(Clone, Copy, Debug, PartialEq, Eq, Structural)]
pub enum Heading {
    /// To a cell picked from a trail.
    Toward(Cell),
    /// To a fresh target ahead, picked by the caller.
    Wander,
    /// On to the target it has.
    Keep,
}

/// A trip counter one tick later. It stops at the largest value it can hold.
pub open spec fn next_tick(n: u64) -> u64 {
    if n < u64::MAX {
        (n + 1) as u64
    } else {
        n
    }
}

/// No mark has reached the draw.
pub open spec fn none_reached<V>(marks: Seq<Mark<V>>, reached: Seq<bool>) -> bool {
    forall|i: int| 0 <= i < marks.len() && i < reached.len() ==> !#[trigger] reached[i]
}

/// Mark `i` is the first that has reached the draw.
pub open spec fn first_reached<V>(marks: Seq<Mark<V>>, reached: Seq<bool>, i: int) -> bool {
    &&& 0 <= i < marks.len()
    &&& i < reached.len()
    &&& reached[i]
    &&& forall|j: int| 0 <= j < i ==> !#[trigger] reached[j]
}

/// The heading that follows from the marks offered, from whether each has
/// reached the draw, and from whether the agent has arrived at its target:
/// the cell of the first mark that has reached the draw; without one, a
/// wander if the agent has arrived and no change if it has not.
pub open spec fn is_heading<V>(
    marks: Seq<Mark<V>>,
    reached: Seq<bool>,
    arrived: bool,
    heading: Heading,
) -> bool {
    match heading {
        Heading::Toward(c) => exists|i: int| #[trigger]
            first_reached(marks, reached, i) && marks[i].cell == c,
        Heading::Wander => arrived && none_reached(marks, reached),
        Heading::Keep => !arrived && none_reached(marks, reached),
    }
}

/// Decides where an agent goes next. `reached[i]` says whether, walking the
/// marks in order, the running share of their weights has reached the draw
/// at mark `i`; flags beyond the marks, and marks beyond the flags, count
/// for nothing. `arrived` says whether the agent is at its target.
pub fn choose_heading<V>(marks: &Vec<Mark<V>>, reached: &Vec<bool>, arrived: bool) -> (heading:
    Heading)
    ensures
        is_heading(marks@, reached@, arrived, heading),
        marks@.len() == 0 ==> heading == (if arrived {
            Heading::Wander
        } else {
            Heading::Keep
        }),
{
    let mut i: usize = 0;
    while i < marks.len() && i < reached.len()
        invariant
            forall|j: int| 0 <= j < i ==> !#[trigger] reached@[j],
        decreases marks.len() - i,
    {
        if reached[i] {
            assert(first_reached(marks@, reached@, i as int));
            return Heading::Toward(marks[i].cell);
        }
        i = i + 1;
    }
    if arrived {
        Heading::Wander
    } else {
        Heading::Keep
    }
}

/// An agent heads only for cells that carry the trail usable in its state:
/// a target picked from the marks that sensing offered lies in the agent's
/// neighborhood and has an entry in the food field if the agent searches,
/// in the home field if it carries.
pub proof fn lemma_heading_follows_usable_trail<V: Copy>(
    state: AgentState,
    trails: TrailField<V>,
    center: GridPoint,
    marks: Seq<Mark<V>>,
    reached: Seq<bool>,
    arrived: bool,
    heading: Heading,
)
    requires
        is_trail_scan(trails.intensities(state.usable_trail()), center, SENSING_RADIUS, marks),
        is_heading(marks, reached, arrived, heading),
    ensures
        heading matches Heading::Toward(c) ==> {
            &&& in_reach(center, SENSING_RADIUS, c)
            &&& state == AgentState::Foraging ==> trails.intensities(TrailKind::Food).contains_key(c)
            &&& state == AgentState::Returning ==> trails.intensities(TrailKind::Home).contains_key(c)
        },
{
    if let Heading::Toward(c) = heading {
        let i = choose|i: int| #[trigger] first_reached(marks, reached, i) && marks[i].cell == c;
        assert(in_reach(center, SENSING_RADIUS, marks[i].cell));
    }
}

/// The trail that is not usable has no say in what an agent is offered: on
/// two trail fields that agree on the trail usable in the agent's state,
/// sensing offers the same marks, whatever the other trail holds.
pub proof fn lemma_other_trail_ignored<V: Copy>(
    state: AgentState,
    one: TrailField<V>,
    other: TrailField<V>,
    center: GridPoint,
    marks_one: Seq<Mark<V>>,
    marks_other: Seq<Mark<V>>,
)
    requires
        one.intensities(state.usable_trail()) == other.intensities(state.usable_trail()),
        is_trail_scan(one.intensities(state.usable_trail()), center, SENSING_RADIUS, marks_one),
        is_trail_scan(other.intensities(state.usable_trail()), center, SENSING_RADIUS, marks_other),
    ensures
        marks_one == marks_other,
{
    lemma_trail_scan_unique(
        one.intensities(state.usable_trail()),
        center,
        SENSING_RADIUS,
        marks_one,
        marks_other,
    );
}

/// Without a usable trail in reach the rule for wandering decides alone: an
/// agent that was offered no marks wanders exactly if it has arrived at its
/// target, and otherwise keeps its target.
pub proof fn lemma_no_marks_fall_back<V>(
    marks: Seq<Mark<V>>,
    reached: Seq<bool>,
    arrived: bool,
    heading: Heading,
)
    requires
        marks.len() == 0,
        is_heading(marks, reached, arrived, heading),
    ensures
        arrived ==> heading == Heading::Wander,
        !arrived ==> heading == Heading::Keep,
{
    if let Heading::Toward(c) = heading {
        let i = choose|i: int| #[trigger] first_reached(marks, reached, i) && marks[i].cell == c;
        assert(0 <= i < marks.len());
    }
}

impl Agent {
    /// A searching agent at the start of its first trip.
    pub fn new() -> (agent: Agent)
        ensures
            agent == (Agent { state: AgentState::Foraging, home_trip_ticks: 0, food_trip_ticks: 0 }),
    {
        Agent { state: AgentState::Foraging, home_trip_ticks: 0, food_trip_ticks: 0 }
    }

    /// Whether the agent carries food.
    pub fn is_carrying(&self) -> (carrying: bool)
        ensures
            carrying == (self.state == AgentState::Returning),
    {
        self.state == AgentState::Returning
    }

    /// The delivery check. An agent that carries food and stands at the
    /// nest delivers it: it starts searching again and both trip counters
    /// go back to zero. The result says whether it did; if so the caller
    /// reverses the agent's velocity.
    pub fn deliver(&mut self, at_nest: bool) -> (delivered: bool)
        ensures
            delivered == (old(self).state == AgentState::Returning && at_nest),
            delivered ==> *final(self) == (Agent {
                state: AgentState::Foraging,
                home_trip_ticks: 0,
                food_trip_ticks: 0,
            }),
            !delivered ==> *final(self) == *old(self),
    {
        if self.state == AgentState::Returning && at_nest {
            self.state = AgentState::Foraging;
            self.home_trip_ticks = 0;
            self.food_trip_ticks = 0;
            true
        } else {
            false
        }
    }

    /// Local sensing around `center`, the agent's truncated position.
    ///
    /// A searching agent with food in its neighborhood claims the first
    /// food cell in scan order: the cell leaves the food set and the agent
    /// now carries. In every other case the food set stays as it is and the
    /// agent is offered the marks of the trail usable in its state.
    pub fn sense<V: Copy>(
        &mut self,
        center: GridPoint,
        food: &mut FoodSet,
        trails: &TrailField<V>,
    ) -> (sensed: Sensed<V>)
        ensures
            final(self).home_trip_ticks == old(self).home_trip_ticks,
            final(self).food_trip_ticks == old(self).food_trip_ticks,
            sensed is Food <==> old(self).state == AgentState::Foraging && food_in_reach(
                old(food)@,
                center,
                SENSING_RADIUS,
            ),
            match sensed {
                Sensed::Food(c) => {
                    &&& is_nearest_food(old(food)@, center, SENSING_RADIUS, Some(c))
                    &&& final(food)@ == old(food)@.remove(c)
                    &&& final(food)@.len() == old(food)@.len() - 1
                    &&& final(self).state == AgentState::Returning
                },
                Sensed::Trails(marks) => {
                    &&& final(food)@ == old(food)@
                    &&& final(self).state == old(self).state
                    &&& is_trail_scan(
                        trails.intensities(old(self).state.usable_trail()),
                        center,
                        SENSING_RADIUS,
                        marks@,
                    )
                },
            },
    {
        if self.state == AgentState::Foraging {
            match food.query_near(center, SENSING_RADIUS) {
                Some(c) => {
                    proof {
                        food.lemma_finite();
                    }
                    food.consume(c);
                    self.state = AgentState::Returning;
                    return Sensed::Food(c);
                },
                None => {},
            }
        }
        Sensed::Trails(trails.nearby(self.state.usable_trail(), center, SENSING_RADIUS))
    }

    /// The trail deposit that ends a tick. The trip counter of the agent's
    /// state goes up by one, to `n`, and `share(DEPOSIT_BASE, n)` is added at
    /// `cell` to the trail that agents in this state lay. Returns the amount
    /// added.
    pub fn lay_trail<V: Copy, S: Fn(u32, u64) -> V, F: Fn(V, V) -> V>(
        &mut self,
        trails: &mut TrailField<V>,
        cell: Cell,
        share: S,
        combine: F,
    ) -> (amount: V)
        requires
            share.requires((DEPOSIT_BASE, old(self).ticks_after())),
            forall|amount: V| #[trigger]
                share.ensures((DEPOSIT_BASE, old(self).ticks_after()), amount) ==> (old(
                    trails,
                ).intensity_at(old(self).state.laid_trail(), cell) matches Some(stored)
                    ==> combine.requires((stored, amount))),
        ensures
            final(self).state == old(self).state,
            match old(self).state {
                AgentState::Foraging => {
                    &&& final(self).home_trip_ticks == next_tick(old(self).home_trip_ticks)
                    &&& final(self).food_trip_ticks == old(self).food_trip_ticks
                },
                AgentState::Returning => {
                    &&& final(self).food_trip_ticks == next_tick(old(self).food_trip_ticks)
                    &&& final(self).home_trip_ticks == old(self).home_trip_ticks
                },
            },
            share.ensures((DEPOSIT_BASE, old(self).ticks_after()), amount),
            deposited(
                old(trails).intensities(old(self).state.laid_trail()),
                final(trails).intensities(old(self).state.laid_trail()),
                cell,
                amount,
                combine,
            ),
            final(trails).intensities(old(self).state.laid_trail().other()) == old(trails).intensities(
                old(self).state.laid_trail().other(),
            ),
    {
        let n: u64 = match self.state {
            AgentState::Foraging => {
                if self.home_trip_ticks < u64::MAX {
                    self.home_trip_ticks = self.home_trip_ticks + 1;
                }
                self.home_trip_ticks
            },
            AgentState::Returning => {
                if self.food_trip_ticks < u64::MAX {
                    self.food_trip_ticks = self.food_trip_ticks + 1;
                }
                self.food_trip_ticks
            },
        };
        let amount = share(DEPOSIT_BASE, n);
        trails.deposit(self.state.laid_trail(), cell, amount, combine);
        amount
    }

    /// The value that the trip counter of the agent's state has after the
    /// next deposit.
    pub open spec fn ticks_after(&self) -> u64 {
        match self.state {
            AgentState::Foraging => next_tick(self.home_trip_ticks),
            AgentState::Returning => next_tick(self.food_trip_ticks),
        }
    }
}

} // verus!
