use vstd::prelude::*;

verus! {

/// Frames during which a speed lost against a wall can come back.
pub const RETAIN_FRAMES: u8 = 4;

/// The memory of a horizontal speed that a wall took away: nothing, or the speed and
/// the frames left before it is forgotten.
#[derive(Clone, Copy, Debug, PartialEq, Eq)]
pub enum Retained<T> {
    Idle,
    Armed(T, u8),
}

impl<T: Copy> Retained<T> {
    /// A wall stopped the character moving at speed `v`.
    pub fn arm(v: T) -> (r: Retained<T>)
        ensures
            r == Retained::Armed(v, RETAIN_FRAMES),
    {
        Retained::Armed(v, RETAIN_FRAMES)
    }

    /// One frame passes: the count goes down, and the speed is forgotten when it runs out.
    pub fn tick(self) -> (r: Retained<T>)
        ensures
            r == (match self {
                Retained::Idle => Retained::Idle,
                Retained::Armed(v, n) => if n > 1 {
                    Retained::Armed(v, (n - 1) as u8)
                } else {
                    Retained::Idle
                },
            }),
    {
        match self {
            Retained::Idle => Retained::Idle,
            Retained::Armed(v, n) => if n > 1 {
                Retained::Armed(v, n - 1)
            } else {
                Retained::Idle
            },
        }
    }

    /// The remembered speed, if any.
    pub fn value(&self) -> (r: Option<T>)
        ensures
            r == (match *self {
                Retained::Idle => None,
                Retained::Armed(v, _) => Some(v),
            }),
    {
        match self {
            Retained::Idle => None,
            Retained::Armed(v, _) => Some(*v),
        }
    }

    /// Gives the remembered speed back, and forgets it, where the new speed has its sign
    /// (`same_sign`) and the wall is still in the way (`blocked`); else changes nothing.
    pub fn restore(self, same_sign: bool, blocked: bool) -> (r: (Retained<T>, Option<T>))
        ensures
            (self is Armed && same_sign && blocked) ==> r == (
                Retained::<T>::Idle,
                Some(self->Armed_0),
            ),
            !(self is Armed && same_sign && blocked) ==> r == (self, None::<T>),
    {
        match self {
            Retained::Armed(v, _) => if same_sign && blocked {
                (Retained::Idle, Some(v))
            } else {
                (self, None)
            },
            Retained::Idle => (self, None),
        }
    }
}

} // verus!
