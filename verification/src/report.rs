//! Discovered report editions: pairs a title's extracted timestamp with the
//! relative path of its document, walking an index listing newest first and
//! stopping at the first undated title, at a configured stop timestamp
//! (inclusive), or after an optional maximum number of entries.

use vstd::prelude::*;

use crate::date::extract_datetime;
use crate::date::spec_extract_datetime;
use crate::date::Timestamp;

verus! {

/// One discovered document edition: its timestamp and its relative path.
#[derive(Debug, Clone)]
pub struct Report {
    pub timestamp: Timestamp,
    pub path: String,
}

/// The mathematical value of one edition.
pub struct ReportView {
    pub timestamp: Timestamp,
    pub path: Seq<char>,
}

impl View for Report {
    type V = ReportView;

    open spec fn view(&self) -> ReportView {
        ReportView { timestamp: self.timestamp, path: self.path@ }
    }
}

impl Report {
    pub fn new(timestamp: Timestamp, path: String) -> (r: Report)
        ensures
            r.timestamp == timestamp,
            r.path@ == path@,
    {
        Report { timestamp, path }
    }
}

/// The titles and paths of a listing, as sequences of characters.
pub open spec fn items_view(s: Seq<(String, String)>) -> Seq<(Seq<char>, Seq<char>)> {
    s.map_values(|p: (String, String)| (p.0@, p.1@))
}

/// The editions of a listing, as mathematical values.
pub open spec fn reports_view(s: Seq<Report>) -> Seq<ReportView> {
    s.map_values(|r: Report| r@)
}

/// An optional entry budget as a mathematical value.
pub open spec fn spec_limit(limit: Option<usize>) -> Option<int> {
    match limit {
        Option::Some(n) => Option::Some(n as int),
        Option::None => Option::None,
    }
}

/// The budget left after some entries were taken.
pub open spec fn limit_after(limit: Option<int>, used: int) -> Option<int> {
    match limit {
        Option::Some(n) => Option::Some(n - used),
        Option::None => Option::None,
    }
}

/// The editions taken from a listing of (title, path) items, newest first:
/// each dated title yields one edition; the walk ends at the first undated
/// title, after the edition whose timestamp equals `stop`, or once the
/// budget is used up.
pub open spec fn spec_collect_reports(
    items: Seq<(Seq<char>, Seq<char>)>,
    limit: Option<int>,
    stop: Timestamp,
) -> Seq<ReportView>
    decreases items.len(),
{
    if items.len() == 0 || (limit matches Option::Some(n) && n <= 0) {
        Seq::empty()
    } else {
        match spec_extract_datetime(items[0].0) {
            Option::None => Seq::empty(),
            Option::Some(ts) => {
                let head = ReportView { timestamp: ts, path: items[0].1 };
                if ts == stop {
                    seq![head]
                } else {
                    seq![head] + spec_collect_reports(items.drop_first(), limit_after(limit, 1), stop)
                }
            },
        }
    }
}

/// Collects the editions named by a listing of (title, path) items, in page
/// order, stopping at the first undated title, at the edition stamped
/// `stop`, or after `limit` entries.
pub fn collect_reports(items: &Vec<(String, String)>, limit: Option<usize>, stop: &Timestamp) -> (r:
    Vec<Report>)
    ensures
        reports_view(r@) == spec_collect_reports(items_view(items@), spec_limit(limit), *stop),
{
    let ghost deep = items_view(items@);
    let ghost l0 = spec_limit(limit);
    let n = items.len();
    let max_iter: usize = match limit {
        Some(l) => if l < n {
            l
        } else {
            n
        },
        None => n,
    };
    let mut out: Vec<Report> = Vec::new();
    let mut idx: usize = 0;
    proof {
        assert(deep.skip(0) =~= deep);
        assert(reports_view(out@) + spec_collect_reports(deep, l0, *stop)
            =~= spec_collect_reports(deep, l0, *stop));
    }
    while idx < max_iter
        invariant
            idx <= max_iter <= items@.len(),
            n == items@.len(),
            deep == items_view(items@),
            deep.len() == items@.len(),
            l0 == spec_limit(limit),
            max_iter as int == match l0 {
                Option::Some(l) => if l < n {
                    l
                } else {
                    n as int
                },
                Option::None => n as int,
            },
            out@.len() == idx,
            spec_collect_reports(deep, l0, *stop) == reports_view(out@) + spec_collect_reports(
                deep.skip(idx as int),
                limit_after(l0, idx as int),
                *stop,
            ),
        decreases max_iter - idx,
    {
        proof {
            assert(deep[idx as int] == (items@[idx as int].0@, items@[idx as int].1@));
            assert(deep.skip(idx as int)[0] == deep[idx as int]);
        }
        let item_title = &items[idx].0;
        let item_path = &items[idx].1;
        let ts = match extract_datetime(item_title.as_str()) {
            Some(ts) => ts,
            None => {
                proof {
                    assert(spec_collect_reports(
                        deep.skip(idx as int),
                        limit_after(l0, idx as int),
                        *stop,
                    ) =~= Seq::<ReportView>::empty());
                    assert(reports_view(out@) + Seq::<ReportView>::empty() =~= reports_view(out@));
                }
                return out;
            },
        };
        let rep = Report::new(ts, item_path.clone());
        let stopped = ts == *stop;
        out.push(rep);
        proof {
            assert(reports_view(out@) =~= reports_view(out@.drop_last()) + seq![out@.last()@]);
            assert(out@.last()@ == (ReportView { timestamp: ts, path: items@[idx as int].1@ }));
            assert(deep.skip(idx as int).drop_first() =~= deep.skip(idx as int + 1));
        }
        if stopped {
            proof {
                assert(spec_collect_reports(
                    deep.skip(idx as int),
                    limit_after(l0, idx as int),
                    *stop,
                ) =~= seq![out@.last()@]);
                assert(reports_view(out@.drop_last()) + seq![out@.last()@] =~= reports_view(out@));
            }
            return out;
        }
        proof {
            assert(spec_collect_reports(deep.skip(idx as int), limit_after(l0, idx as int), *stop)
                =~= seq![out@.last()@] + spec_collect_reports(
                deep.skip(idx as int + 1),
                limit_after(l0, idx as int + 1),
                *stop,
            ));
            assert(reports_view(out@.drop_last()) + (seq![out@.last()@] + spec_collect_reports(
                deep.skip(idx as int + 1),
                limit_after(l0, idx as int + 1),
                *stop,
            )) =~= reports_view(out@) + spec_collect_reports(
                deep.skip(idx as int + 1),
                limit_after(l0, idx as int + 1),
                *stop,
            ));
        }
        idx = idx + 1;
    }
    proof {
        assert(spec_collect_reports(deep.skip(idx as int), limit_after(l0, idx as int), *stop)
            =~= Seq::<ReportView>::empty());
        assert(reports_view(out@) + Seq::<ReportView>::empty() =~= reports_view(out@));
    }
    out
}

} // verus!
