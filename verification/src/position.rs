//! Where a fragment stands on the bar: a zone, and a slot within the zone.

use vstd::prelude::*;
use vstd::std_specs::cmp::PartialOrdSpecImpl;
use std::cmp::Ordering;

verus! {

/// The three zones of the bar, from left to right.
#[derive(Debug, Clone, Copy, PartialEq, Eq, Structural, PartialOrd, Ord)]
pub enum Align {
    Left,
    Center,
    Right,
}

/// The place of a zone among the three, counted from the left.
pub open spec fn zone_rank(zone: Align) -> nat {
    match zone {
        Align::Left => 0,
        Align::Center => 1,
        Align::Right => 2,
    }
}

impl Align {
    /// The place of this zone among the three, counted from the left.
    pub fn rank(self) -> (rank: u8)
        ensures
            rank == zone_rank(self),
    {
        match self {
            Align::Left => 0,
            Align::Center => 1,
            Align::Right => 2,
        }
    }
}

/// Whether the place `a` comes before the place `b` on the bar: zones go
/// from left to right, and within a zone the slots go upwards.
pub open spec fn comes_before(a: (Align, nat), b: (Align, nat)) -> bool {
    zone_rank(a.0) < zone_rank(b.0) || (a.0 == b.0 && a.1 < b.1)
}

/// A place on the bar.
#[derive(Debug, Clone, Copy, PartialEq, Eq, Structural, Ord)]
pub struct Position {
    align: Align,
    slot: usize,
}

impl View for Position {
    type V = (Align, nat);

    /// The zone and the slot.
    closed spec fn view(&self) -> (Align, nat) {
        (self.align, self.slot as nat)
    }
}

impl Position {
    pub fn new(align: Align, slot: usize) -> (position: Position)
        ensures
            position@ == (align, slot as nat),
    {
        Position { align, slot }
    }

    /// The first slot of the left zone.
    pub fn left() -> (position: Position)
        ensures
            position@ == (Align::Left, 0nat),
    {
        Position { align: Align::Left, slot: 0 }
    }

    /// The first slot of the centre zone.
    pub fn center() -> (position: Position)
        ensures
            position@ == (Align::Center, 0nat),
    {
        Position { align: Align::Center, slot: 0 }
    }

    /// The first slot of the right zone.
    pub fn right() -> (position: Position)
        ensures
            position@ == (Align::Right, 0nat),
    {
        Position { align: Align::Right, slot: 0 }
    }

    /// The slot; within a zone, slots go from left to right.
    pub fn slot(&self) -> (slot: usize)
        ensures
            slot == self@.1,
    {
        self.slot
    }

    pub fn set_slot(&mut self, slot: usize) -> (changed: &mut Position)
        ensures
            changed@ == (old(self)@.0, slot as nat),
            *final(self) == *final(changed),
    {
        self.slot = slot;
        self
    }

    pub fn align(&self) -> (align: Align)
        ensures
            align == self@.0,
    {
        self.align
    }

    pub fn set_align(&mut self, align: Align) -> (changed: &mut Position)
        ensures
            changed@ == (align, old(self)@.1),
            *final(self) == *final(changed),
    {
        self.align = align;
        self
    }

    pub fn is_left(&self) -> (left: bool)
        ensures
            left == (self@.0 == Align::Left),
    {
        self.align == Align::Left
    }

    pub fn is_center(&self) -> (center: bool)
        ensures
            center == (self@.0 == Align::Center),
    {
        self.align == Align::Center
    }

    pub fn is_right(&self) -> (right: bool)
        ensures
            right == (self@.0 == Align::Right),
    {
        self.align == Align::Right
    }
}

impl PartialOrd for Position {
    fn partial_cmp(&self, other: &Position) -> (order: Option<Ordering>) {
        let mine = self.align.rank();
        let theirs = other.align.rank();
        if mine > theirs {
            Some(Ordering::Greater)
        } else if mine < theirs {
            Some(Ordering::Less)
        } else if self.slot < other.slot {
            Some(Ordering::Less)
        } else if self.slot > other.slot {
            Some(Ordering::Greater)
        } else {
            Some(Ordering::Equal)
        }
    }
}

impl PartialOrdSpecImpl for Position {
    open spec fn obeys_partial_cmp_spec() -> bool {
        true
    }

    /// Places are ordered as they stand on the bar.
    open spec fn partial_cmp_spec(&self, other: &Position) -> Option<Ordering> {
        if comes_before(self@, other@) {
            Some(Ordering::Less)
        } else if comes_before(other@, self@) {
            Some(Ordering::Greater)
        } else {
            Some(Ordering::Equal)
        }
    }
}

} // verus!
