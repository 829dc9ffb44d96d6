//! The choice of the files to evict.
use vstd::prelude::*;

use crate::lfu::Ranking;
use crate::path::component_views;

verus! {

/// A round of eviction: files are offered one after the other, least used first, until enough
/// bytes will be released or as many evictions have begun as are allowed at once.
pub struct Gc {
    over: usize,
    limit: usize,
    candidates: Vec<(Vec<Vec<u8>>, u64)>,
    offered: usize,
    evictions: usize,
}

/// How far a round of eviction has come.
#[verifier::ext_equal]
pub struct GcView {
    /// How many bytes more have to be released.
    pub over: int,
    /// How many evictions may begin.
    pub limit: int,
    /// The files, least used first.
    pub candidates: Ranking,
    /// How many of the files have been offered.
    pub offered: int,
    /// How many evictions have begun.
    pub evictions: int,
}

/// The path and the ticket of each candidate.
pub open spec fn candidate_views(candidates: Seq<(Vec<Vec<u8>>, u64)>) -> Ranking {
    candidates.map_values(|entry: (Vec<Vec<u8>>, u64)| (component_views(entry.0@), entry.1))
}

impl GcView {
    /// A round which has to release `over` bytes.
    pub open spec fn start(over: int, limit: int, candidates: Ranking) -> GcView {
        GcView { over, limit, candidates, offered: 0, evictions: 0 }
    }

    /// The round is over: enough will be released, as many evictions have begun as are allowed,
    /// or no file is left.
    pub open spec fn done(self) -> bool {
        self.over == 0 || self.evictions >= self.limit || self.offered >= self.candidates.len()
    }

    /// The round after the file on offer has been tried. `evicted` is the size of the file if its
    /// eviction has begun, and is nothing if the file is in use or not in memory.
    pub open spec fn tried(self, evicted: Option<usize>) -> GcView {
        GcView {
            over: match evicted {
                Some(size) => if size < self.over {
                    self.over - size
                } else {
                    0
                },
                None => self.over,
            },
            offered: self.offered + 1,
            evictions: self.evictions + if evicted is Some {
                1int
            } else {
                0
            },
            ..self
        }
    }

    /// The round after one file for each of `outcomes` has been tried.
    pub open spec fn tried_all(self, outcomes: Seq<Option<usize>>) -> GcView
        decreases outcomes.len(),
    {
        if outcomes.len() == 0 {
            self
        } else {
            self.tried_all(outcomes.drop_last()).tried(outcomes.last())
        }
    }
}

impl View for Gc {
    type V = GcView;

    closed spec fn view(&self) -> GcView {
        GcView {
            over: self.over as int,
            limit: self.limit as int,
            candidates: candidate_views(self.candidates@),
            offered: self.offered as int,
            evictions: self.evictions as int,
        }
    }
}

impl Gc {
    /// Begin a round which has to release `over` bytes.
    pub(crate) fn new(over: usize, limit: usize, candidates: Vec<(Vec<Vec<u8>>, u64)>) -> (gc: Self)
        ensures
            gc@ == GcView::start(over as int, limit as int, candidate_views(candidates@)),
    {
        Gc { over, limit, candidates, offered: 0, evictions: 0 }
    }

    /// The ticket of the next file to try to evict, unless the round is over.
    pub fn candidate(&self) -> (ticket: Option<u64>)
        ensures
            ticket == (if self@.done() {
                None
            } else {
                Some(self@.candidates[self@.offered].1)
            }),
            ticket is Some <==> self@.over != 0 && self@.evictions < self@.limit && self@.offered
                < self@.candidates.len(),
    {
        if self.over == 0 || self.evictions >= self.limit || self.offered >= self.candidates.len() {
            None
        } else {
            Some(self.candidates[self.offered].1)
        }
    }

    /// Record what became of the file on offer: the size of the file if its eviction has begun.
    pub fn record(&mut self, evicted: Option<usize>)
        requires
            !old(self)@.done(),
        ensures
            final(self)@ == old(self)@.tried(evicted),
            final(self)@.candidates == old(self)@.candidates,
            final(self)@.limit == old(self)@.limit,
            final(self)@.offered == old(self)@.offered + 1,
            match evicted {
                Some(size) => {
                    &&& final(self)@.evictions == old(self)@.evictions + 1
                    &&& size <= old(self)@.over ==> final(self)@.over == old(self)@.over - size
                    &&& size > old(self)@.over ==> final(self)@.over == 0
                },
                None => final(self)@.evictions == old(self)@.evictions && final(self)@.over == old(self)@.over,
            },
    {
        assert(self.offered < self.candidates.len());
        self.offered += 1;
        if let Some(size) = evicted {
            self.over = self.over.saturating_sub(size);
            self.evictions += 1;
        }
    }

    /// Whether any eviction has begun.
    pub fn has_evictions(&self) -> (evicted: bool)
        ensures
            evicted == (self@.evictions > 0),
    {
        self.evictions > 0
    }
}

/// How many bytes the evictions among `outcomes` release.
pub open spec fn released(outcomes: Seq<Option<usize>>) -> int
    decreases outcomes.len(),
{
    if outcomes.len() == 0 {
        0
    } else {
        released(outcomes.drop_last()) + match outcomes.last() {
            Some(size) => size as int,
            None => 0,
        }
    }
}

/// How many evictions begin among `outcomes`.
pub open spec fn begun(outcomes: Seq<Option<usize>>) -> int
    decreases outcomes.len(),
{
    if outcomes.len() == 0 {
        0
    } else {
        begun(outcomes.drop_last()) + if outcomes.last() is Some {
            1int
        } else {
            0
        }
    }
}

/// A round offers the files in turn, the least used first, counts the evictions that begin, and
/// has to release what they do not.
pub proof fn lemma_round(start: GcView, outcomes: Seq<Option<usize>>)
    requires
        start.over >= 0,
    ensures
        ({
            let round = start.tried_all(outcomes);
            &&& round.candidates == start.candidates
            &&& round.limit == start.limit
            &&& round.offered == start.offered + outcomes.len()
            &&& round.evictions == start.evictions + begun(outcomes)
            &&& round.over == if released(outcomes) < start.over {
                start.over - released(outcomes)
            } else {
                0
            }
        }),
        released(outcomes) >= 0,
        0 <= begun(outcomes) <= outcomes.len(),
    decreases outcomes.len(),
{
    if outcomes.len() > 0 {
        lemma_round(start, outcomes.drop_last());
    }
}

/// A round that comes to its end releases enough bytes, unless it may begin no more evictions or
/// has tried every file.
pub proof fn lemma_round_releases_enough(start: GcView, outcomes: Seq<Option<usize>>)
    requires
        start.over >= 0,
        start.offered == 0,
        start.evictions == 0,
        start.tried_all(outcomes).done(),
    ensures
        released(outcomes) >= start.over || begun(outcomes) >= start.limit || outcomes.len()
            >= start.candidates.len(),
{
    lemma_round(start, outcomes);
}

/// A round evicts no more files than it has to: before its last eviction, too little would have
/// been released, and fewer evictions had begun than are allowed.
pub proof fn lemma_round_is_frugal(start: GcView, outcomes: Seq<Option<usize>>)
    requires
        start.over >= 0,
        start.evictions == 0,
        outcomes.len() > 0,
        !start.tried_all(outcomes.drop_last()).done(),
    ensures
        released(outcomes.drop_last()) < start.over,
        begun(outcomes) <= start.limit,
{
    lemma_round(start, outcomes.drop_last());
}

} // verus!
