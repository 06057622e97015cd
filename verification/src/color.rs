use vstd::prelude::*;

verus! {

/// The seven train colors: three primaries, three secondaries, and brown.
#[derive(Copy, Clone, PartialEq, Eq, Debug, Structural)]
pub enum Color {
    Brown,
    Red,
    Blue,
    Yellow,
    Purple,
    Green,
    Orange,
}

impl Color {
    /// The color that results when two trains of colors `self` and `other` meet.
    pub open spec fn mix(self, other: Color) -> Color {
        if self == other {
            self
        } else {
            match (self, other) {
                (Color::Blue, Color::Red) | (Color::Red, Color::Blue) => Color::Purple,
                (Color::Yellow, Color::Red) | (Color::Red, Color::Yellow) => Color::Orange,
                (Color::Yellow, Color::Blue) | (Color::Blue, Color::Yellow) => Color::Green,
                _ => Color::Brown,
            }
        }
    }

    /// Whether every element of `s` equals its successor.
    pub open spec fn uniform(s: Seq<Color>) -> bool {
        forall|i: int| 0 <= i < s.len() - 1 ==> s[i] == #[trigger] s[i + 1]
    }

    /// The color that results when all trains of `s` meet at once.
    pub open spec fn mix_all(s: Seq<Color>) -> Color
        recommends
            s.len() >= 1,
    {
        if s.len() == 1 {
            s[0]
        } else if s.len() == 2 {
            s[1].mix(s[0])
        } else if Color::uniform(s) {
            s[0]
        } else {
            Color::Brown
        }
    }

    /// The color of two trains of colors `self` and `other` after they have met.
    pub fn mix_with(self, other: Color) -> (mixed: Color)
        ensures
            mixed == self.mix(other),
    {
        if self == other {
            return other;
        }
        if (self == Color::Blue && other == Color::Red) || (self == Color::Red && other
            == Color::Blue) {
            return Color::Purple;
        }
        if (self == Color::Yellow && other == Color::Red) || (self == Color::Red && other
            == Color::Yellow) {
            return Color::Orange;
        }
        if (self == Color::Yellow && other == Color::Blue) || (self == Color::Blue && other
            == Color::Yellow) {
            return Color::Green;
        }
        Color::Brown
    }

    /// The color of the trains of `trains` after they have all met at once: one
    /// train keeps its color, two mix as a pair, and three or more keep their
    /// color only if it is the same for all and turn brown otherwise.
    pub fn mix_many(trains: Vec<Color>) -> (mixed: Color)
        requires
            trains.len() >= 1,
        ensures
            mixed == Color::mix_all(trains@),
    {
        if trains.len() == 1 {
            trains[0]
        } else if trains.len() == 2 {
            trains[1].mix_with(trains[0])
        } else {
            let mut i: usize = 0;
            while i < trains.len() - 1
                invariant
                    trains.len() >= 3,
                    i <= trains.len() - 1,
                    forall|j: int| 0 <= j < i ==> trains@[j] == #[trigger] trains@[j + 1],
                decreases trains.len() - i,
            {
                if trains[i] != trains[i + 1] {
                    return Color::Brown;
                }
                i += 1;
            }
            trains[0]
        }
    }
}

/// Mixing does not depend on the order of the two colors, and a color mixed
/// with itself is itself.
pub proof fn law_mix_commutative_idempotent(a: Color, b: Color)
    ensures
        a.mix(b) == b.mix(a),
        a.mix(a) == a,
{
}

/// The mix of two different colors is brown unless both are primary, and
/// brown mixed with any other color is brown.
pub proof fn law_mix_of_non_primaries_is_brown(a: Color, b: Color)
    requires
        a != b,
    ensures
        !(a == Color::Red || a == Color::Blue || a == Color::Yellow) ==> a.mix(b) == Color::Brown,
        !(b == Color::Red || b == Color::Blue || b == Color::Yellow) ==> a.mix(b) == Color::Brown,
{
}

/// In a sequence whose neighbors are all equal, every element equals the first.
pub proof fn lemma_uniform_is_constant(s: Seq<Color>, i: int)
    requires
        Color::uniform(s),
        0 <= i < s.len(),
    ensures
        s[i] == s[0],
    decreases i,
{
    if i > 0 {
        lemma_uniform_is_constant(s, i - 1);
        assert(s[i - 1] == s[i - 1 + 1]);
    }
}

/// Trains whose neighbors in the sequence all have the same color mix to the
/// color of each of them.
pub proof fn law_mix_all_of_uniform(s: Seq<Color>, i: int)
    requires
        Color::uniform(s),
        0 <= i < s.len(),
    ensures
        Color::mix_all(s) == s[i],
{
    lemma_uniform_is_constant(s, i);
    if s.len() == 2 {
        lemma_uniform_is_constant(s, 1);
    }
}

/// One train alone keeps its color.
pub proof fn law_mix_all_of_one(c: Color)
    ensures
        Color::mix_all(seq![c]) == c,
{
}

/// Any number of trains of one color mix to that color.
pub proof fn law_mix_all_of_equals(s: Seq<Color>, c: Color)
    requires
        s.len() >= 1,
        forall|i: int| 0 <= i < s.len() ==> s[i] == c,
    ensures
        Color::mix_all(s) == c,
{
    assert(Color::uniform(s)) by {
        assert forall|i: int| 0 <= i < s.len() - 1 implies s[i] == #[trigger] s[i + 1] by {}
    }
}

/// Three or more trains of which two neighbors differ mix to brown, whatever
/// their colors.
pub proof fn law_mix_all_of_unequals(s: Seq<Color>, i: int)
    requires
        s.len() >= 3,
        0 <= i < s.len() - 1,
        s[i] != s[i + 1],
    ensures
        Color::mix_all(s) == Color::Brown,
{
}

/// Two trains mix as a pair does, in either order.
pub proof fn law_mix_all_of_two(a: Color, b: Color)
    ensures
        Color::mix_all(seq![a, b]) == a.mix(b),
        Color::mix_all(seq![a, b]) == Color::mix_all(seq![b, a]),
{
}

} // verus!
