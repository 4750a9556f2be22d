//! Telling the caller how far a pass has come.

use vstd::prelude::*;

verus! {

/// Someone who is told how far a pass has come.
///
/// `reports` is the record of what was reported.
pub trait Progress {
    /// The reports made so far: the number of frames done and the number of
    /// keyframes found, for each.
    open spec fn reports(&self) -> Seq<(usize, usize)> {
        arbitrary()
    }

    /// Takes the report that `frames` frames are done and `keyframes`
    /// keyframes found.
    fn report(&mut self, frames: usize, keyframes: usize)
        ensures
            final(self).reports() == old(self).reports().push((frames, keyframes)),
    ;
}

/// Progress that nobody listens to.
pub struct NoProgress {
    reported: Ghost<Seq<(usize, usize)>>,
}

impl NoProgress {
    /// Progress of which nothing has been reported yet.
    pub fn new() -> (progress: Self)
        ensures
            progress.reports() == Seq::<(usize, usize)>::empty(),
    {
        NoProgress { reported: Ghost(Seq::empty()) }
    }
}

impl Progress for NoProgress {
    closed spec fn reports(&self) -> Seq<(usize, usize)> {
        self.reported@
    }

    fn report(&mut self, frames: usize, keyframes: usize) {
        self.reported = Ghost(self.reported@.push((frames, keyframes)));
    }
}

/// Progress that is passed on to a callback, where there is one.
pub struct Callback<'a, P: Fn(usize, usize)> {
    callback: Option<&'a P>,
    reported: Ghost<Seq<(usize, usize)>>,
}

impl<'a, P: Fn(usize, usize)> Callback<'a, P> {
    /// The callback can be called with any report.
    #[verifier::type_invariant]
    spec fn callable(&self) -> bool {
        self.callback matches Some(callback) ==> forall|frames: usize, keyframes: usize|
            call_requires(*callback, (frames, keyframes))
    }

    /// The callback that the reports are passed on to, where there is one.
    pub closed spec fn listener(&self) -> Option<&'a P> {
        self.callback
    }

    /// Progress that is passed on to `callback`, or dropped where there is
    /// none. Nothing has been reported yet.
    pub fn new(callback: Option<&'a P>) -> (progress: Self)
        requires
            callback matches Some(function) ==> forall|frames: usize, keyframes: usize|
                call_requires(*function, (frames, keyframes)),
        ensures
            progress.listener() == callback,
            progress.reports() == Seq::<(usize, usize)>::empty(),
    {
        Callback { callback, reported: Ghost(Seq::empty()) }
    }
}

impl<'a, P: Fn(usize, usize)> Progress for Callback<'a, P> {
    closed spec fn reports(&self) -> Seq<(usize, usize)> {
        self.reported@
    }

    /// Calls the callback with the report, where there is one, and enters
    /// the report in the record.
    fn report(&mut self, frames: usize, keyframes: usize)
        ensures
            final(self).listener() == old(self).listener(),
            old(self).listener() matches Some(callback) ==> call_ensures(*callback, (frames, keyframes), ()),
    {
        proof {
            use_type_invariant(&*self);
        }
        if let Some(callback) = self.callback {
            callback(frames, keyframes);
        }
        self.reported = Ghost(self.reported@.push((frames, keyframes)));
    }
}

} // verus!
