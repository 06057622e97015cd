use vstd::prelude::*;
use crate::color::Color;

verus! {

/// The gap between two neighboring tile borders. It holds at most one train
/// for each direction of travel: `train_to_a` goes up or left, `train_to_b`
/// goes down or right.
#[derive(Debug, Clone, Copy)]
pub struct Edge {
    pub train_to_a: Option<Color>,
    pub train_to_b: Option<Color>,
}

impl Edge {
    /// The edge after its trains have met: where two trains cross, both go on
    /// in their mixed color.
    pub open spec fn interacted(self) -> Edge {
        if self.train_to_a is Some && self.train_to_b is Some {
            let mixed = self.train_to_b.unwrap().mix(self.train_to_a.unwrap());
            Edge { train_to_a: Some(mixed), train_to_b: Some(mixed) }
        } else {
            self
        }
    }

    /// The edge holds no train.
    pub open spec fn empty(self) -> bool {
        self.train_to_a is None && self.train_to_b is None
    }

    /// The digit that stands for the edge in a text rendering: the number of
    /// trains it holds.
    pub open spec fn digit(self) -> char {
        if self.train_to_a is Some && self.train_to_b is Some {
            '2'
        } else if self.train_to_a is Some || self.train_to_b is Some {
            '1'
        } else {
            '0'
        }
    }

    /// An edge without trains.
    pub fn new() -> (edge: Edge)
        ensures
            edge == (Edge { train_to_a: None, train_to_b: None }),
    {
        Edge { train_to_a: None, train_to_b: None }
    }

    /// Lets the trains on the edge meet: two that cross go on in their mixed color.
    pub fn interact_trains(&mut self)
        ensures
            *final(self) == old(self).interacted(),
    {
        if let (Some(t1), Some(t2)) = (self.train_to_a, self.train_to_b) {
            let new_color = Color::mix_many(vec![t1, t2]);
            self.train_to_a = Some(new_color);
            self.train_to_b = Some(new_color);
        }
    }

    /// The digit that stands for the edge in a text rendering.
    pub fn get_char(&self) -> (c: char)
        ensures
            c == self.digit(),
    {
        if self.train_to_a.is_some() && self.train_to_b.is_some() {
            return '2';
        }
        if self.train_to_a.is_some() || self.train_to_b.is_some() {
            return '1';
        }
        return '0';
    }

    /// Whether the edge holds no train.
    pub fn is_empty(&self) -> (r: bool)
        ensures
            r == self.empty(),
    {
        self.train_to_a.is_none() && self.train_to_b.is_none()
    }

    /// Takes the trains off the edge.
    pub fn clear_trains(&mut self)
        ensures
            *final(self) == (Edge { train_to_a: None, train_to_b: None }),
    {
        self.train_to_a = None;
        self.train_to_b = None;
    }
}

} // verus!
