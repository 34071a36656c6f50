use vstd::prelude::*;

use crate::cell::MutationType;

verus! {

/// Which mutation variants may appear when a cell is born.
#[derive(Clone, Copy, Debug, PartialEq, Eq, Structural)]
pub struct MutationSettings {
    pub allow_blue: bool,
    pub allow_red: bool,
}

/// A toggle that flips one of the two flags of `MutationSettings`.
#[derive(Clone, Copy, Debug, PartialEq, Eq, Structural)]
pub enum MutationCheckbox {
    Blue,
    Red,
}

/// Whether a cell may be born with variant `m` under `s`; the classic
/// variant is always allowed.
pub open spec fn mutation_allowed(s: MutationSettings, m: MutationType) -> bool {
    match m {
        MutationType::Classic => true,
        MutationType::Blue => s.allow_blue,
        MutationType::Red => s.allow_red,
    }
}

impl Default for MutationSettings {
    /// Both variants allowed.
    fn default() -> (r: Self)
        ensures
            r.allow_blue,
            r.allow_red,
    {
        MutationSettings { allow_blue: true, allow_red: true }
    }
}

impl MutationSettings {
    /// Flips the flag that `checkbox` stands for and leaves the other one.
    pub fn toggle(&mut self, checkbox: MutationCheckbox)
        ensures
            checkbox == MutationCheckbox::Blue ==> final(self).allow_blue == !old(self).allow_blue
                && final(self).allow_red == old(self).allow_red,
            checkbox == MutationCheckbox::Red ==> final(self).allow_red == !old(self).allow_red
                && final(self).allow_blue == old(self).allow_blue,
    {
        match checkbox {
            MutationCheckbox::Blue => self.allow_blue = !self.allow_blue,
            MutationCheckbox::Red => self.allow_red = !self.allow_red,
        }
    }
}

} // verus!
