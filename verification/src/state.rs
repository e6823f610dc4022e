//! The registry that coordinates many engine sessions as one analysis
//! unit, addressed by position in the list, plus the application-level
//! state object that owns it.

use vstd::prelude::*;

use crate::engine::{
    spec_poll, spec_start_analysis, spec_stop_analysis, Engine, SpecEngine,
};
use crate::protocol::{spec_position_fen_command, SpecAnalysisLine};

verus! {

/// The mathematical state of the registry.
#[verifier::ext_equal]
pub struct SpecServices {
    pub engines: Seq<SpecEngine>,
    pub is_analyzing: bool,
}

/// An ordered collection of engine sessions and one global analyzing
/// flag shared across them. A session's index in the collection is its
/// caller-visible identity; removing a session shifts later indices.
pub struct EnginesServices {
    pub engines: Vec<Engine>,
    pub is_analyzing: bool,
}

impl View for EnginesServices {
    type V = SpecServices;

    open spec fn view(&self) -> SpecServices {
        SpecServices { engines: self.engines.deep_view(), is_analyzing: self.is_analyzing }
    }
}

/// Toggling analysis for one position: when analysis is running, every
/// session is told to stop and the flag clears; otherwise every session
/// restarts on the given position, in registry order, and the flag sets.
/// No reply is awaited either way.
pub open spec fn spec_toggle(r: SpecServices, fen: Seq<char>) -> SpecServices {
    if r.is_analyzing {
        SpecServices {
            is_analyzing: false,
            engines: r.engines.map_values(|e: SpecEngine| spec_stop_analysis(e)),
        }
    } else {
        SpecServices {
            is_analyzing: true,
            engines: r.engines.map_values(|e: SpecEngine| spec_start_analysis(e, fen)),
        }
    }
}

/// Polling every session once, in registry order, each with the batch of
/// lines its transport produced.
pub open spec fn spec_poll_all(r: SpecServices, batches: Seq<Seq<Seq<char>>>) -> SpecServices {
    SpecServices {
        engines: Seq::new(r.engines.len(), |i: int| spec_poll(r.engines[i], batches[i])),
        ..r
    }
}

impl EnginesServices {
    /// An empty registry: no sessions, not analyzing.
    pub fn new() -> (r: EnginesServices)
        ensures
            r@.engines.len() == 0,
            !r@.is_analyzing,
    {
        EnginesServices { engines: Vec::new(), is_analyzing: false }
    }

    /// Toggles analysis of the position given in FEN across every
    /// session, per [`spec_toggle`].
    pub fn toggle_analyze(&mut self, fen: &str)
        ensures
            final(self)@ == spec_toggle(old(self)@, fen@),
    {
        let ghost pre = self@;
        let n = self.engines.len();
        if self.is_analyzing {
            self.is_analyzing = false;
            let mut i: usize = 0;
            while i < n
                invariant
                    n == self.engines@.len(),
                    i <= n,
                    !self.is_analyzing,
                    self.engines.deep_view().len() == pre.engines.len(),
                    forall|j: int|
                        0 <= j < i ==> self.engines.deep_view()[j] == spec_stop_analysis(
                            #[trigger] pre.engines[j],
                        ),
                    forall|j: int|
                        i <= j < n ==> self.engines.deep_view()[j] == #[trigger] pre.engines[j],
                decreases n - i,
            {
                let ghost before = self.engines.deep_view();
                let e = &mut self.engines[i];
                e.stop_analysis();
                proof {
                    assert(self.engines.deep_view() =~= before.update(
                        i as int,
                        spec_stop_analysis(before[i as int]),
                    ));
                }
                i += 1;
            }
            proof {
                assert(self@.engines =~= pre.engines.map_values(
                    |e: SpecEngine| spec_stop_analysis(e),
                ));
                assert(self@ =~= spec_toggle(pre, fen@));
            }
        } else {
            self.is_analyzing = true;
            let mut i: usize = 0;
            while i < n
                invariant
                    n == self.engines@.len(),
                    i <= n,
                    self.is_analyzing,
                    self.engines.deep_view().len() == pre.engines.len(),
                    forall|j: int|
                        0 <= j < i ==> self.engines.deep_view()[j] == spec_start_analysis(
                            #[trigger] pre.engines[j],
                            fen@,
                        ),
                    forall|j: int|
                        i <= j < n ==> self.engines.deep_view()[j] == #[trigger] pre.engines[j],
                decreases n - i,
            {
                let ghost before = self.engines.deep_view();
                let e = &mut self.engines[i];
                e.start_analysis(fen);
                proof {
                    assert(self.engines.deep_view() =~= before.update(
                        i as int,
                        spec_start_analysis(before[i as int], fen@),
                    ));
                }
                i += 1;
            }
            proof {
                assert(self@.engines =~= pre.engines.map_values(
                    |e: SpecEngine| spec_start_analysis(e, fen@),
                ));
                assert(self@ =~= spec_toggle(pre, fen@));
            }
        }
    }

    /// Polls every session once, in registry order; `batches` holds, for
    /// each session, the lines its transport produced since the last
    /// poll. A no-op on an empty registry.
    pub fn poll_engines(&mut self, batches: &Vec<Vec<String>>)
        requires
            batches@.len() == old(self)@.engines.len(),
        ensures
            final(self)@ == spec_poll_all(old(self)@, batches.deep_view()),
    {
        let ghost pre = self@;
        let n = self.engines.len();
        let mut i: usize = 0;
        while i < n
            invariant
                n == self.engines@.len(),
                n == batches@.len(),
                i <= n,
                self.is_analyzing == pre.is_analyzing,
                self.engines.deep_view().len() == pre.engines.len(),
                forall|j: int|
                    0 <= j < i ==> self.engines.deep_view()[j] == spec_poll(
                        #[trigger] pre.engines[j],
                        batches.deep_view()[j],
                    ),
                forall|j: int|
                    i <= j < n ==> self.engines.deep_view()[j] == #[trigger] pre.engines[j],
            decreases n - i,
        {
            let ghost before = self.engines.deep_view();
            let batch = &batches[i];
            proof {
                assert(batch.deep_view() == batches.deep_view()[i as int]);
            }
            let e = &mut self.engines[i];
            e.poll_engine(batch);
            proof {
                assert(self.engines.deep_view() =~= before.update(
                    i as int,
                    spec_poll(before[i as int], batches.deep_view()[i as int]),
                ));
            }
            i += 1;
        }
        proof {
            assert(self@.engines =~= spec_poll_all(pre, batches.deep_view()).engines);
            assert(self@ =~= spec_poll_all(pre, batches.deep_view()));
        }
    }
}

/// Toggling twice in immediate succession, before any poll, returns the
/// global flag to off; every session is told stop, position, go by the
/// first toggle and stop again by the second, in that order, with its
/// analysis sequence left cleared.
pub proof fn lemma_toggle_twice(r: SpecServices, fen: Seq<char>)
    requires
        !r.is_analyzing,
    ensures
        !spec_toggle(spec_toggle(r, fen), fen).is_analyzing,
        spec_toggle(spec_toggle(r, fen), fen).engines.len() == r.engines.len(),
        forall|i: int|
            0 <= i < r.engines.len() ==> spec_toggle(spec_toggle(r, fen), fen).engines[i].outbox
                == r.engines[i].outbox + seq![
                "stop\n"@,
                spec_position_fen_command(fen),
                "go\n"@,
                "stop\n"@,
            ],
        forall|i: int|
            0 <= i < r.engines.len() ==> spec_toggle(spec_toggle(r, fen), fen).engines[i].analysis
                == Seq::<SpecAnalysisLine>::empty(),
{
    let r1 = spec_toggle(r, fen);
    let r2 = spec_toggle(r1, fen);
    assert forall|i: int| 0 <= i < r.engines.len() implies r2.engines[i].outbox == r.engines[i].outbox
        + seq!["stop\n"@, spec_position_fen_command(fen), "go\n"@, "stop\n"@] by {
        assert(r1.engines[i] == spec_start_analysis(r.engines[i], fen));
        assert(r2.engines[i] == spec_stop_analysis(r1.engines[i]));
        assert(r2.engines[i].outbox =~= r.engines[i].outbox + seq![
            "stop\n"@,
            spec_position_fen_command(fen),
            "go\n"@,
            "stop\n"@,
        ]);
    }
}

/// Polling an empty registry returns immediately, with no error and no
/// side effect.
pub proof fn lemma_poll_all_empty(r: SpecServices)
    requires
        r.engines.len() == 0,
    ensures
        spec_poll_all(r, Seq::<Seq<Seq<char>>>::empty()) == r,
{
    assert(spec_poll_all(r, Seq::<Seq<Seq<char>>>::empty()).engines =~= r.engines);
    assert(spec_poll_all(r, Seq::<Seq<Seq<char>>>::empty()) =~= r);
}

/// The application-level state object: the registry of engines plus a
/// position, as FEN, waiting to be loaded by the board.
pub struct SharedState {
    pub fen_string: Option<String>,
    pub engines: EnginesServices,
}

impl SharedState {
    /// A fresh application state: no pending position, empty registry.
    pub fn new() -> (s: SharedState)
        ensures
            s.fen_string is None,
            s.engines@.engines.len() == 0,
            !s.engines@.is_analyzing,
    {
        SharedState { fen_string: None, engines: EnginesServices::new() }
    }
}

/// Identifies which session an options view addresses: the session's
/// index in the registry, the caller-visible identity.
pub struct EngineOptionsWindow {
    pub engine_index: usize,
}

} // verus!
