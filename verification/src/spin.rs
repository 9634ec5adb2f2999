//! The two-valued spin carried by each lattice site.

use vstd::prelude::*;
use vstd::std_specs::convert::FromSpecImpl;
use vstd::std_specs::convert::TryFromSpecImpl;

verus! {

/// A spin pointing up (`+1`, `true`) or down (`-1`, `false`).
#[derive(Debug, Copy, Clone, PartialEq, Eq, Structural)]
pub enum Spin {
    UP,
    DOWN,
}

impl Spin {
    /// The spin as the integer `+1` or `-1` used in energy sums.
    pub open spec fn value(self) -> int {
        match self {
            Spin::UP => 1,
            Spin::DOWN => -1,
        }
    }

    /// The opposite spin.
    pub open spec fn flipped(self) -> Spin {
        match self {
            Spin::UP => Spin::DOWN,
            Spin::DOWN => Spin::UP,
        }
    }

    /// Whether the spin points up.
    pub open spec fn is_up(self) -> bool {
        self == Spin::UP
    }

    /// The character that stands for the spin in a rendered lattice.
    pub open spec fn glyph(self) -> char {
        match self {
            Spin::UP => '+',
            Spin::DOWN => '-',
        }
    }

    /// Toggles the spin in place.
    pub fn flip(&mut self)
        ensures
            *final(self) == old(self).flipped(),
    {
        *self = match *self {
            Spin::UP => Spin::DOWN,
            Spin::DOWN => Spin::UP,
        }
    }

    /// Renders the spin as `+` (up) or `-` (down).
    pub fn to_string(&self) -> (s: String)
        ensures
            s@ == seq![self.glyph()],
    {
        proof {
            reveal_strlit("+");
            reveal_strlit("-");
        }
        let s = match *self {
            Spin::UP => String::from_str("+"),
            Spin::DOWN => String::from_str("-"),
        };
        assert(s@ =~= seq![self.glyph()]);
        s
    }
}

impl TryFrom<i32> for Spin {
    type Error = &'static str;

    /// Reads `1` as up and `-1` as down; every other integer is refused.
    fn try_from(i: i32) -> (r: Result<Spin, &'static str>) {
        if i == 1 {
            Ok(Spin::UP)
        } else if i == -1 {
            Ok(Spin::DOWN)
        } else {
            Err("Invalid spin value")
        }
    }
}

impl TryFromSpecImpl<i32> for Spin {
    open spec fn obeys_try_from_spec() -> bool {
        true
    }

    open spec fn try_from_spec(i: i32) -> Result<Spin, &'static str> {
        if i == 1 {
            Ok(Spin::UP)
        } else if i == -1 {
            Ok(Spin::DOWN)
        } else {
            Err("Invalid spin value")
        }
    }
}

impl From<Spin> for i32 {
    fn from(s: Spin) -> (v: i32) {
        match s {
            Spin::UP => 1,
            Spin::DOWN => -1,
        }
    }
}

impl FromSpecImpl<Spin> for i32 {
    open spec fn obeys_from_spec() -> bool {
        true
    }

    open spec fn from_spec(s: Spin) -> i32 {
        match s {
            Spin::UP => 1i32,
            Spin::DOWN => -1i32,
        }
    }
}

impl From<bool> for Spin {
    fn from(b: bool) -> (s: Spin) {
        if b {
            Spin::UP
        } else {
            Spin::DOWN
        }
    }
}

impl FromSpecImpl<bool> for Spin {
    open spec fn obeys_from_spec() -> bool {
        true
    }

    open spec fn from_spec(b: bool) -> Spin {
        if b {
            Spin::UP
        } else {
            Spin::DOWN
        }
    }
}

impl From<Spin> for bool {
    fn from(s: Spin) -> (b: bool) {
        match s {
            Spin::UP => true,
            Spin::DOWN => false,
        }
    }
}

impl FromSpecImpl<Spin> for bool {
    open spec fn obeys_from_spec() -> bool {
        true
    }

    open spec fn from_spec(s: Spin) -> bool {
        s == Spin::UP
    }
}

/// The conversions between spins, booleans and `+1`/`-1` are inverse to one
/// another: a spin survives the round trip through either representation.
pub proof fn lemma_spin_round_trips(s: Spin)
    ensures
        <Spin as vstd::std_specs::convert::FromSpec<bool>>::from_spec(
            <bool as vstd::std_specs::convert::FromSpec<Spin>>::from_spec(s),
        ) == s,
        <Spin as vstd::std_specs::convert::TryFromSpec<i32>>::try_from_spec(
            <i32 as vstd::std_specs::convert::FromSpec<Spin>>::from_spec(s),
        ) == Ok::<Spin, &'static str>(s),
        <i32 as vstd::std_specs::convert::FromSpec<Spin>>::from_spec(s) == s.value(),
        s.flipped().flipped() == s,
        s.flipped().value() == -s.value(),
{
}

} // verus!
