use vstd::prelude::*;

verus! {

/// A source of one sample per tick. `output` and `next` say what a tick
/// returns and what it leaves behind, over the generator's view.
pub trait MonoGenerator: View + Sized {
    spec fn ready(v: Self::V) -> bool;

    spec fn output(v: Self::V) -> i32;

    spec fn next(v: Self::V) -> Self::V;

    fn tick(&mut self) -> (r: i32)
        requires
            Self::ready(old(self)@),
        ensures
            r == Self::output(old(self)@),
            final(self)@ == Self::next(old(self)@),
            Self::ready(final(self)@),
    ;
}

/// A source of one stereo frame `(left, right)` per tick.
pub trait StereoGenerator: View + Sized {
    spec fn ready(v: Self::V) -> bool;

    spec fn output(v: Self::V) -> (i32, i32);

    spec fn next(v: Self::V) -> Self::V;

    fn tick(&mut self) -> (r: (i32, i32))
        requires
            Self::ready(old(self)@),
        ensures
            r == Self::output(old(self)@),
            final(self)@ == Self::next(old(self)@),
            Self::ready(final(self)@),
    ;
}

/// Two voices side by side: the first plays left, the second right, each
/// ticked once per frame.
impl<L: MonoGenerator, R: MonoGenerator> StereoGenerator for (L, R) {
    open spec fn ready(v: (L::V, R::V)) -> bool {
        L::ready(v.0) && R::ready(v.1)
    }

    open spec fn output(v: (L::V, R::V)) -> (i32, i32) {
        (L::output(v.0), R::output(v.1))
    }

    open spec fn next(v: (L::V, R::V)) -> (L::V, R::V) {
        (L::next(v.0), R::next(v.1))
    }

    fn tick(&mut self) -> (r: (i32, i32)) {
        let left = self.0.tick();
        let right = self.1.tick();
        (left, right)
    }
}

} // verus!
