//! A run: the addresses to visit, one after another, and the records of the
//! visits made so far.

use vstd::prelude::*;
use crate::dedup::{lemma_unique_distinct, unique, unique_urls};
use crate::probe::{utc_offset, Probe};
use crate::status::{recorded, report_line, Reply, Status, StatusView};
use crate::text::views;

verus! {

/// The mathematical contents of a sequence of records.
pub open spec fn records(v: Seq<Status>) -> Seq<StatusView> {
    Seq::new(v.len(), |i: int| v[i]@)
}

/// The addresses of a sequence of records.
pub open spec fn addresses(v: Seq<StatusView>) -> Seq<Seq<char>> {
    Seq::new(v.len(), |i: int| v[i].url)
}

/// A run over the candidates it was made from. It hands out the addresses
/// to visit one at a time and keeps the record of each visit.
pub struct Session {
    urls: Vec<String>,
    results: Vec<Status>,
    current: Option<Probe>,
    candidates: Ghost<Seq<Seq<char>>>,
}

impl Session {
    #[verifier::type_invariant]
    spec fn inv(self) -> bool {
        &&& views(self.urls@) == unique(self.candidates@)
        &&& addresses(records(self.results@)) == views(self.urls@).take(self.results.len() as int)
        &&& self.results.len() <= self.urls.len()
        &&& forall|i: int|
            0 <= i < self.results.len() ==> utc_offset().is_suffix_of(
                (#[trigger] self.results[i])@.timestamp,
            )
        &&& forall|i: int|
            0 <= i < self.results.len() ==> (#[trigger] self.results[i])@.consistent()
        &&& match self.current {
            Some(probe) => self.results.len() < self.urls.len() && probe.url()
                == self.urls[self.results.len() as int]@,
            None => true,
        }
    }

    /// The candidates that the run was made from.
    pub closed spec fn candidates(self) -> Seq<Seq<char>> {
        self.candidates@
    }

    /// The addresses that the run visits, in order.
    pub open spec fn plan(self) -> Seq<Seq<char>> {
        unique(self.candidates())
    }

    /// The records of the visits made so far, in order.
    pub closed spec fn visited(self) -> Seq<StatusView> {
        records(self.results@)
    }

    /// When the visit that is under way began, if one is.
    pub closed spec fn under_way_since(self) -> Option<Seq<char>> {
        match self.current {
            Some(probe) => Some(probe.timestamp()),
            None => None,
        }
    }

    /// Plans a run over `candidates`: no visit made, none under way.
    pub fn new(candidates: &Vec<String>) -> (s: Session)
        ensures
            s.candidates() == views(candidates@),
            s.visited() == Seq::<StatusView>::empty(),
            s.under_way_since() is None,
    {
        let urls = unique_urls(candidates);
        let results: Vec<Status> = Vec::new();
        assert(records(results@) =~= Seq::<StatusView>::empty());
        assert(addresses(records(results@)) =~= views(urls@).take(0));
        Session { urls, results, current: None, candidates: Ghost(views(candidates@)) }
    }

    /// Tells whether every address of the plan has been visited.
    pub fn is_done(&self) -> (done: bool)
        ensures
            done == (self.visited().len() == self.plan().len()),
            self.visited().len() <= self.plan().len(),
    {
        proof {
            use_type_invariant(self);
        }
        self.results.len() == self.urls.len()
    }

    /// Begins the visit of the next address of the plan and hands the address
    /// out, to be requested right away. Where a visit was under way already,
    /// it is begun anew. Hands out nothing once the plan is done.
    pub fn begin(self) -> (next: (Session, Option<String>))
        ensures
            next.0.candidates() == self.candidates(),
            next.0.visited() == self.visited(),
            self.visited().len() <= self.plan().len(),
            next.1 is Some <==> self.visited().len() < self.plan().len(),
            next.1 matches Some(url) ==> url@ == self.plan()[self.visited().len() as int],
            next.0.under_way_since() is Some <==> next.1 is Some,
    {
        proof {
            use_type_invariant(&self);
        }
        let Session { urls, results, current: _, candidates } = self;
        let n = results.len();
        if n < urls.len() {
            let url = urls[n].clone();
            let probe = Probe::begin(url.as_str());
            (Session { urls, results, current: Some(probe), candidates }, Some(url))
        } else {
            (Session { urls, results, current: None, candidates }, None)
        }
    }

    /// Finishes the visit that is under way with what came of its request,
    /// keeps its record and hands out the line that reports it. Changes
    /// nothing where no visit is under way.
    pub fn finish(self, reply: Reply) -> (next: (Session, Option<String>))
        ensures
            next.0.candidates() == self.candidates(),
            next.0.under_way_since() is None,
            next.1 is Some <==> self.under_way_since() is Some,
            self.under_way_since() is None ==> next.0.visited() == self.visited(),
            self.under_way_since() matches Some(since) ==> ({
                let n = self.visited().len() as int;
                let last = next.0.visited().last();
                &&& n < self.plan().len()
                &&& next.0.visited() == self.visited().push(last)
                &&& last == recorded(self.plan()[n], since, last.elapsed_ms, reply@)
                &&& last.consistent()
                &&& utc_offset().is_suffix_of(since)
                &&& next.1 matches Some(line) && line@ == report_line(last)
            }),
    {
        proof {
            use_type_invariant(&self);
        }
        let Session { urls, mut results, current, candidates } = self;
        match current {
            Some(probe) => {
                let ghost before = records(results@);
                let status = probe.finish(reply);
                let line = status.report_line();
                results.push(status);
                proof {
                    let n = before.len() as int;
                    assert(records(results@) =~= before.push(status@));
                    assert(addresses(records(results@)) =~= views(urls@).take(n + 1));
                }
                (Session { urls, results, current: None, candidates }, Some(line))
            },
            None => (Session { urls, results, current: None, candidates }, None),
        }
    }

    /// The records of the visits made so far. There is one for each address
    /// of the plan that has been visited, in the order of the plan, and so
    /// at the end of the run one for each address of the plan. No two of
    /// them have the same address and none has an empty one. Each
    /// holds an error exactly if its status is the failure marker, and tells
    /// in UTC when its visit began.
    pub fn results(&self) -> (r: &Vec<Status>)
        ensures
            records(r@) == self.visited(),
            addresses(self.visited()) == self.plan().take(self.visited().len() as int),
            self.visited().len() <= self.plan().len(),
            self.visited().len() == self.plan().len() ==> addresses(self.visited()) == self.plan(),
            addresses(self.visited()).no_duplicates(),
            forall|i: int|
                0 <= i < self.visited().len() ==> (#[trigger] self.visited()[i]).url.len() > 0,
            forall|i: int| 0 <= i < self.visited().len() ==> (#[trigger] self.visited()[i]).consistent(),
            forall|i: int|
                0 <= i < self.visited().len() ==> utc_offset().is_suffix_of(
                    (#[trigger] self.visited()[i]).timestamp,
                ),
    {
        proof {
            use_type_invariant(self);
            lemma_unique_distinct(self.candidates());
            let a = addresses(self.visited());
            assert(self.plan().take(self.plan().len() as int) =~= self.plan());
            assert forall|i: int| 0 <= i < self.visited().len() implies (
            #[trigger] self.visited()[i]).url.len() > 0 by {
                assert(a[i] == self.plan()[i]);
            }
            assert forall|i: int| 0 <= i < self.visited().len() implies utc_offset().is_suffix_of(
                (#[trigger] self.visited()[i]).timestamp,
            ) by {
                assert(self.visited()[i] == self.results[i]@);
            }
            assert forall|i: int| 0 <= i < self.visited().len() implies (
            #[trigger] self.visited()[i]).consistent() by {
                assert(self.visited()[i] == self.results[i]@);
            }
        }
        &self.results
    }
}

} // verus!
