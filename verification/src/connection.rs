use vstd::prelude::*;
use vstd::std_specs::cmp::PartialEqSpecImpl;
use vstd::arithmetic::div_mod::lemma_add_mod_noop;

verus! {

/// A piece of track joining two borders of a tile.
///
/// Borders are numbered clockwise: 0 is up, 1 is right, 2 is down, 3 is left.
/// The two ends are interchangeable: `{a, b}` and `{b, a}` are the same track.
#[derive(Copy, Clone, Debug)]
pub struct Connection {
    pub dir1: u8,
    pub dir2: u8,
}

/// The border reached from border `dir` after `angle` clockwise quarter turns:
/// the remainder of `dir + angle` modulo four.
#[verifier::opaque]
pub open spec fn turned(dir: u8, angle: u8) -> u8 {
    let sum = dir % 4 + angle % 4;
    if sum >= 4 {
        (sum - 4) as u8
    } else {
        sum as u8
    }
}

/// A turn adds the angle to the border, modulo four.
pub proof fn lemma_turned_adds_mod_four(dir: u8, angle: u8)
    ensures
        turned(dir, angle) == (dir + angle) % 4,
        turned(dir, angle) < 4,
{
    reveal(turned);
    lemma_add_mod_noop(dir as int, angle as int, 4);
}

impl PartialEq for Connection {
    fn eq(&self, other: &Self) -> (r: bool) {
        (self.dir1 == other.dir1 && self.dir2 == other.dir2) || (self.dir1 == other.dir2
            && self.dir2 == other.dir1)
    }
}

impl Eq for Connection {

}

impl PartialEqSpecImpl for Connection {
    open spec fn obeys_eq_spec() -> bool {
        true
    }

    open spec fn eq_spec(&self, other: &Self) -> bool {
        self.same(*other)
    }
}

impl Connection {
    /// Both ends name a border of the tile.
    pub open spec fn in_range(self) -> bool {
        self.dir1 < 4 && self.dir2 < 4
    }

    /// Both ends name a border of the tile, and not the same one.
    pub open spec fn valid(self) -> bool {
        self.in_range() && self.dir1 != self.dir2
    }

    /// Equality of connections: the same two ends, in either order.
    pub open spec fn same(self, other: Connection) -> bool {
        (self.dir1 == other.dir1 && self.dir2 == other.dir2) || (self.dir1 == other.dir2
            && self.dir2 == other.dir1)
    }

    /// One of the two ends is `dir`.
    pub open spec fn has(self, dir: u8) -> bool {
        self.dir1 == dir || self.dir2 == dir
    }

    /// The end opposite to `dir`, for a connection that has `dir`.
    pub open spec fn other_end(self, dir: u8) -> u8 {
        if self.dir1 == dir {
            self.dir2
        } else {
            self.dir1
        }
    }

    /// The same connection with its two ends written in the other order.
    pub open spec fn flipped(self) -> Connection {
        Connection { dir1: self.dir2, dir2: self.dir1 }
    }

    /// The connection shares an end with `other`.
    pub open spec fn touches(self, other: Connection) -> bool {
        self.has(other.dir1) || self.has(other.dir2)
    }

    /// The two ends are opposite borders.
    pub open spec fn straight(self) -> bool {
        self.dir1 + 2 == self.dir2 || self.dir2 + 2 == self.dir1
    }

    /// The connection turned clockwise by `angle` quarter turns.
    pub open spec fn rotated(self, angle: u8) -> Connection {
        Connection { dir1: turned(self.dir1, angle), dir2: turned(self.dir2, angle) }
    }

    /// The least number of quarter turns after which `self` is the same as
    /// `target`, or -1 if no rotation makes them the same.
    pub open spec fn turns_to(self, target: Connection) -> int {
        if self.rotated(0).same(target) {
            0
        } else if self.rotated(1).same(target) {
            1
        } else if self.rotated(2).same(target) {
            2
        } else if self.rotated(3).same(target) {
            3
        } else {
            -1
        }
    }

    /// Some rotation of `self` is the same as `other`.
    pub open spec fn same_up_to_rot(self, other: Connection) -> bool {
        self.turns_to(other) != -1
    }

    /// Whether the connection joins two distinct borders.
    pub fn is_valid(&self) -> (r: bool)
        ensures
            r == self.valid(),
    {
        self.dir1 < 4 && self.dir2 < 4 && self.dir1 != self.dir2
    }

    /// The connection turned clockwise by `angle` quarter turns.
    pub fn rot(&self, angle: u8) -> (turned: Self)
        ensures
            turned == self.rotated(angle),
            turned.dir1 == (self.dir1 + angle) % 4,
            turned.dir2 == (self.dir2 + angle) % 4,
            turned.in_range(),
    {
        proof {
            reveal(turned);
            lemma_turned_adds_mod_four(self.dir1, angle);
            lemma_turned_adds_mod_four(self.dir2, angle);
        }
        Connection { dir1: (self.dir1 % 4 + angle % 4) % 4, dir2: (self.dir2 % 4 + angle % 4) % 4 }
    }

    /// Whether some rotation of the connection is the same as `other`.
    pub fn eq_up_to_rot(&self, other: &Self) -> (r: bool)
        ensures
            r == self.same_up_to_rot(*other),
    {
        let mut rot_amt: u8 = 0;
        while rot_amt < 4
            invariant
                rot_amt <= 4,
                forall|k: u8| k < rot_amt ==> !(#[trigger] self.rotated(k)).same(*other),
            decreases 4 - rot_amt,
        {
            if *other == self.rot(rot_amt) {
                return true;
            }
            rot_amt += 1;
        }
        false
    }

    /// Whether one of the two ends is the border `dir`.
    pub fn contains(&self, dir: u8) -> (r: bool)
        ensures
            r == self.has(dir),
    {
        self.dir1 == dir || self.dir2 == dir
    }
}

/// Connection equality is an equivalence relation.
pub proof fn law_same_is_equivalence(a: Connection, b: Connection, c: Connection)
    ensures
        a.same(a),
        a.same(b) == b.same(a),
        a.same(b) && b.same(c) ==> a.same(c),
{
}

/// Turning a connection never takes it out of its own class: any rotation of a
/// connection whose ends are borders is equal, up to rotation, to the
/// connection itself. With no turn at all this is reflexivity.
pub proof fn law_rotation_stays_in_class(c: Connection, k: u8)
    requires
        c.in_range(),
    ensures
        c.rotated(k).same_up_to_rot(c),
        c.same_up_to_rot(c),
{
    reveal(turned);
}

/// Rotations compose by adding their angles, and four quarter turns are none.
pub proof fn law_rotations_compose(c: Connection, j: u8, k: u8)
    ensures
        c.rotated(j).rotated(k) == c.rotated(((j + k) % 4) as u8),
        c.rotated(k) == c.rotated((k % 4) as u8),
{
    reveal(turned);
    lemma_add_mod_noop(j as int, k as int, 4);
    let a = j % 4;
    let b = k % 4;
    let s: u8 = ((j + k) % 4) as u8;
    assert(s == (a + b) % 4);
    assert(s == if a + b >= 4 { a + b - 4 } else { a + b });
    assert(s % 4 == s);
    assert((k % 4) % 4 == k % 4);
    assert(turned(c.dir1, j) % 4 == turned(c.dir1, j));
    assert(turned(c.dir2, j) % 4 == turned(c.dir2, j));
}

/// The ends of a connection whose ends are borders, after each number of
/// quarter turns, written out without remainders.
pub proof fn lemma_rotated_in_range(c: Connection, k: u8)
    requires
        c.in_range(),
    ensures
        c.rotated(k).in_range(),
        c.rotated(k) == c.rotated((k % 4) as u8),
        k % 4 == 0 ==> c.rotated(k) == c,
        k % 4 == 1 ==> c.rotated(k).dir1 == (if c.dir1 == 3 { 0 } else { c.dir1 + 1 })
            && c.rotated(k).dir2 == (if c.dir2 == 3 { 0 } else { c.dir2 + 1 }),
        k % 4 == 2 ==> c.rotated(k).dir1 == (if c.dir1 >= 2 { c.dir1 - 2 } else { c.dir1 + 2 })
            && c.rotated(k).dir2 == (if c.dir2 >= 2 { c.dir2 - 2 } else { c.dir2 + 2 }),
        k % 4 == 3 ==> c.rotated(k).dir1 == (if c.dir1 == 0 { 3 } else { c.dir1 - 1 })
            && c.rotated(k).dir2 == (if c.dir2 == 0 { 3 } else { c.dir2 - 1 }),
{
    reveal(turned);
    assert(c.dir1 % 4 == c.dir1 && c.dir2 % 4 == c.dir2);
    assert((k % 4) % 4 == k % 4);
}

/// Equality up to rotation is symmetric on connections whose ends are borders.
pub proof fn law_same_up_to_rot_symmetric(a: Connection, b: Connection)
    requires
        a.in_range(),
        b.in_range(),
    ensures
        a.same_up_to_rot(b) == b.same_up_to_rot(a),
{
    lemma_rotated_in_range(a, 0);
    lemma_rotated_in_range(a, 1);
    lemma_rotated_in_range(a, 2);
    lemma_rotated_in_range(a, 3);
    lemma_rotated_in_range(b, 0);
    lemma_rotated_in_range(b, 1);
    lemma_rotated_in_range(b, 2);
    lemma_rotated_in_range(b, 3);
}

/// Turning preserves validity, straightness, and membership of the turned border.
pub proof fn law_rotation_preserves_shape(c: Connection, k: u8, dir: u8)
    requires
        c.valid(),
        dir < 4,
    ensures
        c.rotated(k).valid(),
        c.rotated(k).straight() == c.straight(),
        c.rotated(k).has(turned(dir, k)) == c.has(dir),
{
    reveal(turned);
    assert(c.dir1 % 4 == c.dir1 && c.dir2 % 4 == c.dir2 && dir % 4 == dir);
    let r = k % 4;
    assert(r == 0 || r == 1 || r == 2 || r == 3);
}

} // verus!
