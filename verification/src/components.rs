use vstd::prelude::*;

verus! {

/// Fixed-point scale: coordinates and heights carry this many sub-units per
/// world unit, so fractional values stay representable in integers.
pub const UNIT: i64 = 1000;

/// Height added to every growth component on each run of the growth system:
/// one world unit.
pub const GROWTH_STEP: i64 = UNIT;

/// A two-dimensional coordinate, in fixed-point sub-units.
#[derive(Clone, Copy, PartialEq, Eq, Structural, Debug)]
pub struct Position {
    pub x: i64,
    pub y: i64,
}

/// A growth record: a height that the growth system raises each tick.
#[derive(Clone, Copy, PartialEq, Eq, Structural, Debug)]
pub struct Blade {
    /// Current height, in fixed-point sub-units.
    pub height: i64,
}

/// A mobile-actor record: pure data, read and written by no system here.
#[derive(Clone, Copy, PartialEq, Eq, Structural, Debug)]
pub struct Robot {
    /// Actor radius, in fixed-point sub-units.
    pub radius: i64,
    /// Operational height, in fixed-point sub-units.
    pub cutting_height: i64,
}

/// The component types this world can attach to an entity.
#[derive(Clone, Copy, PartialEq, Eq, Structural, Debug)]
pub enum ComponentKind {
    Position,
    Blade,
    Robot,
}

/// A component value of any of the supported types.
#[derive(Clone, Copy, PartialEq, Eq, Structural, Debug)]
pub enum ComponentValue {
    Position(Position),
    Blade(Blade),
    Robot(Robot),
}

impl ComponentValue {
    /// The type of this component value.
    pub open spec fn spec_kind(self) -> ComponentKind {
        match self {
            ComponentValue::Position(_) => ComponentKind::Position,
            ComponentValue::Blade(_) => ComponentKind::Blade,
            ComponentValue::Robot(_) => ComponentKind::Robot,
        }
    }

    /// Returns the type of this component value.
    #[verifier::when_used_as_spec(spec_kind)]
    pub fn kind(self) -> (k: ComponentKind)
        ensures
            k == self.spec_kind(),
    {
        match self {
            ComponentValue::Position(_) => ComponentKind::Position,
            ComponentValue::Blade(_) => ComponentKind::Blade,
            ComponentValue::Robot(_) => ComponentKind::Robot,
        }
    }
}

/// A set of component types, as one flag per supported type.
#[derive(Clone, Copy, PartialEq, Eq, Structural, Debug)]
pub struct KindSet {
    pub position: bool,
    pub blade: bool,
    pub robot: bool,
}

impl KindSet {
    /// The empty set of component types.
    pub open spec fn spec_empty() -> KindSet {
        KindSet { position: false, blade: false, robot: false }
    }

    /// Returns the empty set of component types.
    pub fn empty() -> (s: KindSet)
        ensures
            s == KindSet::spec_empty(),
    {
        KindSet { position: false, blade: false, robot: false }
    }

    /// Whether this set contains the given component type.
    pub open spec fn spec_contains(self, k: ComponentKind) -> bool {
        match k {
            ComponentKind::Position => self.position,
            ComponentKind::Blade => self.blade,
            ComponentKind::Robot => self.robot,
        }
    }

    /// Returns whether this set contains the given component type.
    #[verifier::when_used_as_spec(spec_contains)]
    pub fn contains(self, k: ComponentKind) -> (r: bool)
        ensures
            r == self.spec_contains(k),
    {
        match k {
            ComponentKind::Position => self.position,
            ComponentKind::Blade => self.blade,
            ComponentKind::Robot => self.robot,
        }
    }

    /// Whether two sets of component types share a member.
    pub open spec fn spec_overlaps(self, other: KindSet) -> bool {
        ||| (self.position && other.position)
        ||| (self.blade && other.blade)
        ||| (self.robot && other.robot)
    }

    /// Returns whether two sets of component types share a member.
    #[verifier::when_used_as_spec(spec_overlaps)]
    pub fn overlaps(self, other: KindSet) -> (r: bool)
        ensures
            r == self.spec_overlaps(other),
    {
        (self.position && other.position) || (self.blade && other.blade)
            || (self.robot && other.robot)
    }
}

} // verus!
