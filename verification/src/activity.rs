use vstd::prelude::*;

verus! {

/// Activity status of one state level.
///
/// All levels start `Inactive`.  A root level becomes `Active` on the first
/// tick and never goes `Inactive` again.  A substate is toggled `Active` and
/// `Inactive` as its parent enters and leaves the value the substate is
/// keyed to.
#[derive(Clone, Copy, Debug, Hash, PartialEq, Eq, Structural)]
pub enum Activity {
    Inactive,
    Active(u64),
}

impl Activity {
    /// Whether this level currently holds a value.
    pub fn is_active(&self) -> (r: bool)
        ensures
            r == (self is Active),
    {
        match self {
            Activity::Inactive => false,
            Activity::Active(_) => true,
        }
    }

    /// The held value, if any.
    pub fn value(&self) -> (r: Option<u64>)
        ensures
            match r {
                Some(v) => *self == Activity::Active(v),
                None => *self == Activity::Inactive,
            },
    {
        match self {
            Activity::Inactive => None,
            Activity::Active(v) => Some(*v),
        }
    }
}

impl Default for Activity {
    /// A level with no selection yet is `Inactive`.
    fn default() -> (r: Self)
        ensures
            r == Activity::Inactive,
    {
        Activity::Inactive
    }
}

} // verus!
