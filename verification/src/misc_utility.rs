use vstd::prelude::*;

verus! {

/// A measured quantity in thousandths, or the mark that the measurement
/// gave no number.
#[derive(Clone, Copy, PartialEq, Eq, Structural, Debug)]
pub enum Reading {
    Nan,
    Num(i32),
}

/// A measured point or direction in the plane. It is no number as soon as
/// one of its coordinates is none.
#[derive(Clone, Copy, PartialEq, Eq, Structural, Debug)]
pub struct Reading2 {
    pub x: Reading,
    pub y: Reading,
}

impl Reading {
    pub open spec fn is_nan(&self) -> bool {
        *self is Nan
    }

    /// Whether the measurement gave no number.
    #[verifier::when_used_as_spec(is_nan)]
    pub fn has_no_number(&self) -> (b: bool)
        ensures
            b == self.is_nan(),
    {
        match self {
            Reading::Nan => true,
            Reading::Num(_) => false,
        }
    }
}

impl Reading2 {
    pub open spec fn is_nan(&self) -> bool {
        self.x is Nan || self.y is Nan
    }

    /// Whether one of the coordinates is no number.
    pub fn has_no_number(&self) -> (b: bool)
        ensures
            b == self.is_nan(),
    {
        self.x.has_no_number() || self.y.has_no_number()
    }
}

/// Replacing what is no number by a default, so that it cannot spread.
pub trait NaNGuard: Sized + Copy {
    /// Whether the value is no number.
    spec fn not_a_number(&self) -> bool;

    /// The value itself, or `default` where the value is no number.
    fn nan_guard(&self, default: Self) -> (r: Self)
        ensures
            r == if self.not_a_number() {
                default
            } else {
                *self
            },
    ;

    /// Puts `default` in the value's place where the value is no number.
    fn if_nan(&mut self, default: Self)
        ensures
            *final(self) == if old(self).not_a_number() {
                default
            } else {
                *old(self)
            },
    ;
}

impl NaNGuard for Reading {
    open spec fn not_a_number(&self) -> bool {
        self.is_nan()
    }

    fn nan_guard(&self, default: Reading) -> (r: Reading) {
        if self.has_no_number() {
            default
        } else {
            *self
        }
    }

    fn if_nan(&mut self, default: Self) {
        if self.has_no_number() {
            *self = default;
        }
    }
}

impl NaNGuard for Reading2 {
    open spec fn not_a_number(&self) -> bool {
        self.is_nan()
    }

    fn nan_guard(&self, default: Reading2) -> (r: Reading2) {
        if self.has_no_number() {
            default
        } else {
            *self
        }
    }

    fn if_nan(&mut self, default: Self) {
        if self.has_no_number() {
            *self = default;
        }
    }
}

} // verus!
