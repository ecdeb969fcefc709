//! The write-once cell for an asset's decoded pixels.

use vstd::prelude::*;

verus! {

/// Loading, failed, or the decoded RGBA buffer with whether it carries alpha.
pub enum HqImageState {
    Loading,
    Failed,
    Loaded { buffer: Vec<u8>, has_alpha: bool },
}

/// The decode result of one asset. It starts out loading; a decode task moves it
/// to a terminal state, after which every read sees the same data. A blocking
/// reader waits while `get_or_wait` answers `None` and asks again.
pub struct HqImageAsyncData {
    pub state: HqImageState,
}

impl HqImageAsyncData {
    pub open spec fn is_terminal(&self) -> bool {
        !(self.state is Loading)
    }

    pub fn new() -> (r: HqImageAsyncData)
        ensures
            r.state is Loading,
    {
        HqImageAsyncData { state: HqImageState::Loading }
    }

    pub fn loaded(&mut self, buffer: Vec<u8>, has_alpha: bool)
        ensures
            final(self).state == (HqImageState::Loaded { buffer, has_alpha }),
    {
        self.state = HqImageState::Loaded { buffer, has_alpha };
    }

    pub fn failed(&mut self)
        ensures
            final(self).state is Failed,
    {
        self.state = HqImageState::Failed;
    }

    /// `None` while loading (the caller must wait); once terminal, `Some` of the
    /// buffer and alpha flag if loaded, `Some(None)` if the decode failed.
    pub fn get_or_wait(&self) -> (r: Option<Option<(&Vec<u8>, bool)>>)
        ensures
            answer_view(r) == read_of(self.state),
    {
        match &self.state {
            HqImageState::Loading => None,
            HqImageState::Failed => Some(None),
            HqImageState::Loaded { buffer, has_alpha } => Some(Some((buffer, *has_alpha))),
        }
    }
}

/// What a read of a cell in state `state` answers: `None` (wait) while loading,
/// `Some(None)` after a failure, else the pixels and alpha flag.
pub open spec fn read_of(state: HqImageState) -> Option<Option<(Seq<u8>, bool)>> {
    match state {
        HqImageState::Loading => None,
        HqImageState::Failed => Some(None),
        HqImageState::Loaded { buffer, has_alpha } => Some(Some((buffer@, has_alpha))),
    }
}

/// The value of an answer of `get_or_wait`.
pub open spec fn answer_view(r: Option<Option<(&Vec<u8>, bool)>>) -> Option<Option<(Seq<u8>, bool)>> {
    match r {
        None => None,
        Some(None) => Some(None),
        Some(Some((b, a))) => Some(Some((b@, a))),
    }
}

/// A fresh cell makes every reader wait; once `loaded` or `failed` has been
/// called, every read answers at once with the stored result.
pub proof fn lemma_cell_transitions(fresh: HqImageAsyncData, done: HqImageAsyncData, failed: HqImageAsyncData, buffer: Vec<u8>, has_alpha: bool)
    requires
        fresh.state is Loading,
        done.state == (HqImageState::Loaded { buffer, has_alpha }),
        failed.state is Failed,
    ensures
        read_of(fresh.state) is None,
        read_of(done.state) == Some(Some((buffer@, has_alpha))),
        read_of(failed.state) == Some(None::<(Seq<u8>, bool)>),
{
}

/// Reads never change a cell, so any number of readers of one state, the
/// waiting ones included once it is terminal, observe identical answers.
pub proof fn lemma_reads_agree(data: HqImageAsyncData, first: Option<Option<(&Vec<u8>, bool)>>, second: Option<Option<(&Vec<u8>, bool)>>)
    requires
        answer_view(first) == read_of(data.state),
        answer_view(second) == read_of(data.state),
    ensures
        answer_view(first) == answer_view(second),
        data.is_terminal() ==> first is Some && second is Some,
{
}

} // verus!
