//! The record of what a mock server has seen, and what follows from it
//! for the test that used the server.

use crate::models::{Interaction, InteractionView, Request, RequestView};
use crate::server::{MatchResult, MatchResultView, MockRequestError};
use crate::text::{option_text, views};
use vstd::prelude::*;

verus! {

/// One entry of the record.
#[derive(Debug)]
pub enum ReportEntry {
    /// A request was read and held against the interactions.
    Handled(Request, MatchResult),
    /// A request could not be answered as expected.
    Failed(MockRequestError),
    /// A request was cut short when the server shut down.
    Cancelled,
}

/// The mathematical value of a `ReportEntry`.
pub enum EntryView {
    Handled(RequestView, MatchResultView),
    Failed(MockRequestError),
    Cancelled,
}

impl View for ReportEntry {
    type V = EntryView;

    open spec fn view(&self) -> EntryView {
        match self {
            ReportEntry::Handled(request, result) => EntryView::Handled(request@, result@),
            ReportEntry::Failed(error) => EntryView::Failed(*error),
            ReportEntry::Cancelled => EntryView::Cancelled,
        }
    }
}

/// The record of a mock server: an entry for each request, in the order
/// in which the handling of the requests ended.
#[derive(Debug)]
pub struct VerificationReport {
    pub entries: Vec<ReportEntry>,
}

impl View for VerificationReport {
    type V = Seq<EntryView>;

    open spec fn view(&self) -> Seq<EntryView> {
        views(self.entries@)
    }
}

/// Whether an entry says that a request matched the given interaction.
pub open spec fn is_match_of(entry: EntryView, interaction: InteractionView) -> bool {
    match entry {
        EntryView::Handled(_, MatchResultView::RequestMatch(matched)) => matched == interaction,
        _ => false,
    }
}

/// Whether some entry says that a request matched the given interaction.
pub open spec fn was_matched(report: Seq<EntryView>, interaction: InteractionView) -> bool {
    exists|k: int| 0 <= k < report.len() && is_match_of(#[trigger] report[k], interaction)
}

/// Whether every interaction was matched at least once.
pub open spec fn all_were_matched(report: Seq<EntryView>, interactions: Seq<InteractionView>) -> bool {
    forall|i: int| 0 <= i < interactions.len() ==> was_matched(report, #[trigger] interactions[i])
}

/// Whether an entry says that a request belonged to no interaction.
pub open spec fn is_unexpected(entry: EntryView) -> bool {
    match entry {
        EntryView::Handled(_, MatchResultView::RequestNotFound(_)) => true,
        _ => false,
    }
}

/// Whether no request belonged to no interaction.
pub open spec fn none_unexpected(report: Seq<EntryView>) -> bool {
    forall|k: int| 0 <= k < report.len() ==> !is_unexpected(#[trigger] report[k])
}

impl VerificationReport {
    /// A record without entries.
    pub fn new() -> (report: VerificationReport)
        ensures
            report@ == Seq::<EntryView>::empty(),
    {
        let report = VerificationReport { entries: Vec::new() };
        assert(report@ =~= Seq::<EntryView>::empty());
        report
    }

    /// Adds an entry at the end of the record.
    pub fn record(&mut self, entry: ReportEntry)
        ensures
            final(self)@ == old(self)@.push(entry@),
    {
        self.entries.push(entry);
        assert(self@ =~= old(self)@.push(entry@));
    }

    /// Whether some request matched the given interaction.
    pub fn matched(&self, interaction: &Interaction) -> (r: bool)
        ensures
            r == was_matched(self@, interaction@),
    {
        let mut k: usize = 0;
        while k < self.entries.len()
            invariant
                k <= self.entries.len(),
                forall|m: int| 0 <= m < k ==> !is_match_of(#[trigger] self@[m], interaction@),
            decreases self.entries.len() - k,
        {
            let found = match &self.entries[k] {
                ReportEntry::Handled(_, result) => match result {
                    MatchResult::RequestMatch(matched) => matched.same(interaction),
                    _ => false,
                },
                _ => false,
            };
            if found {
                assert(is_match_of(self@[k as int], interaction@));
                return true;
            }
            k = k + 1;
        }
        false
    }

    /// Whether every one of the interactions was matched by at least one
    /// request.
    pub fn all_matched(&self, interactions: &Vec<Interaction>) -> (r: bool)
        ensures
            r == all_were_matched(self@, views(interactions@)),
    {
        let mut i: usize = 0;
        while i < interactions.len()
            invariant
                i <= interactions.len(),
                forall|m: int| 0 <= m < i ==> was_matched(self@, #[trigger] views(interactions@)[m]),
            decreases interactions.len() - i,
        {
            if !self.matched(&interactions[i]) {
                assert(!was_matched(self@, views(interactions@)[i as int]));
                return false;
            }
            i = i + 1;
        }
        true
    }

    /// Whether every request that was read belonged to some interaction.
    pub fn no_unexpected(&self) -> (r: bool)
        ensures
            r == none_unexpected(self@),
    {
        let mut k: usize = 0;
        while k < self.entries.len()
            invariant
                k <= self.entries.len(),
                forall|m: int| 0 <= m < k ==> !is_unexpected(#[trigger] self@[m]),
            decreases self.entries.len() - k,
        {
            let unexpected = match &self.entries[k] {
                ReportEntry::Handled(_, result) => match result {
                    MatchResult::RequestNotFound(_) => true,
                    _ => false,
                },
                _ => false,
            };
            if unexpected {
                assert(is_unexpected(self@[k as int]));
                return false;
            }
            k = k + 1;
        }
        true
    }

    /// Whether the test that used the server has passed, so that the pact
    /// may be written: every interaction was matched and no request was
    /// unexpected.
    pub fn verified(&self, interactions: &Vec<Interaction>) -> (r: bool)
        ensures
            r == (all_were_matched(self@, views(interactions@)) && none_unexpected(self@)),
    {
        self.all_matched(interactions) && self.no_unexpected()
    }

    /// The positions of the interactions that no request matched, in
    /// order.
    pub fn unmatched(&self, interactions: &Vec<Interaction>) -> (missing: Vec<usize>)
        ensures
            forall|m: int|
                0 <= m < missing@.len() ==> (#[trigger] missing@[m]) < interactions@.len()
                    && !was_matched(self@, interactions@[missing@[m] as int]@),
            forall|i: int|
                0 <= i < interactions@.len() && !was_matched(self@, interactions@[i]@)
                    ==> missing@.contains(i as usize),
            forall|m: int, n: int| 0 <= m < n < missing@.len() ==> missing@[m] < missing@[n],
    {
        let mut missing: Vec<usize> = Vec::new();
        let mut i: usize = 0;
        while i < interactions.len()
            invariant
                i <= interactions.len(),
                forall|m: int|
                    0 <= m < missing@.len() ==> (#[trigger] missing@[m]) < i && !was_matched(
                        self@,
                        interactions@[missing@[m] as int]@,
                    ),
                forall|k: int|
                    0 <= k < i && !was_matched(self@, interactions@[k]@) ==> missing@.contains(
                        k as usize,
                    ),
                forall|m: int, n: int| 0 <= m < n < missing@.len() ==> missing@[m] < missing@[n],
            decreases interactions.len() - i,
        {
            if !self.matched(&interactions[i]) {
                let ghost before = missing@;
                missing.push(i);
                proof {
                    assert(missing@[before.len() as int] == i);
                    assert forall|k: int|
                        0 <= k < i + 1 && !was_matched(
                            self@,
                            interactions@[k]@,
                        ) implies missing@.contains(k as usize) by {
                        if k < i {
                            let at = choose|at: int|
                                0 <= at < before.len() && before[at] == k as usize;
                            assert(missing@[at] == k as usize);
                        }
                    }
                }
            }
            i = i + 1;
        }
        missing
    }
}

/// The line that names an interaction that no request matched.
pub open spec fn unmatched_line(interaction: InteractionView) -> Seq<char> {
    "\n  no request matched '"@ + interaction.description + "'"@
}

/// The lines for the interactions from position `i` on that no request
/// matched.
pub open spec fn unmatched_lines(
    report: Seq<EntryView>,
    interactions: Seq<InteractionView>,
    i: int,
) -> Seq<char>
    decreases interactions.len() - i,
{
    if i < 0 || i >= interactions.len() {
        Seq::empty()
    } else if was_matched(report, interactions[i]) {
        unmatched_lines(report, interactions, i + 1)
    } else {
        unmatched_line(interactions[i]) + unmatched_lines(report, interactions, i + 1)
    }
}

/// The line that names a request that belonged to no interaction.
pub open spec fn unexpected_line(request: RequestView) -> Seq<char> {
    "\n  unexpected request "@ + request.method + " "@ + request.path
}

/// The lines for the entries from position `k` on that say that a request
/// belonged to no interaction.
pub open spec fn unexpected_lines(report: Seq<EntryView>, k: int) -> Seq<char>
    decreases report.len() - k,
{
    if k < 0 || k >= report.len() {
        Seq::empty()
    } else {
        (match report[k] {
            EntryView::Handled(_, MatchResultView::RequestNotFound(request)) => unexpected_line(
                request,
            ),
            _ => Seq::empty(),
        }) + unexpected_lines(report, k + 1)
    }
}

/// What a test is told at its end: nothing where every interaction was
/// matched and no request was unexpected, and else a message that names
/// each interaction that was not matched and each request that was not
/// expected.
pub open spec fn failure_text(report: Seq<EntryView>, interactions: Seq<InteractionView>) -> Option<
    Seq<char>,
> {
    if all_were_matched(report, interactions) && none_unexpected(report) {
        None
    } else {
        Some(
            "The mock server was not used as expected:"@ + unmatched_lines(report, interactions, 0)
                + unexpected_lines(report, 0),
        )
    }
}

impl VerificationReport {
    /// What a test is told at its end: nothing where the server was used
    /// as expected, and else what was missing and what was unexpected.
    pub fn failure_message(&self, interactions: &Vec<Interaction>) -> (message: Option<String>)
        ensures
            option_text(message) == failure_text(self@, views(interactions@)),
    {
        if self.verified(interactions) {
            return None;
        }
        let ghost all = views(interactions@);
        let ghost head = "The mock server was not used as expected:"@;
        let mut message = String::from_str("The mock server was not used as expected:");
        let mut i: usize = 0;
        proof {
            assert(head + unmatched_lines(self@, all, 0) =~= head + unmatched_lines(self@, all, 0));
        }
        while i < interactions.len()
            invariant
                i <= interactions.len(),
                all == views(interactions@),
                head == "The mock server was not used as expected:"@,
                message@ + unmatched_lines(self@, all, i as int) == head + unmatched_lines(
                    self@,
                    all,
                    0,
                ),
            decreases interactions.len() - i,
        {
            let ghost before = message@;
            let ghost rest = unmatched_lines(self@, all, i + 1);
            if !self.matched(&interactions[i]) {
                message.append("\n  no request matched '");
                message.append(interactions[i].description.as_str());
                message.append("'");
                proof {
                    assert(message@ =~= before + unmatched_line(all[i as int]));
                    assert(before + (unmatched_line(all[i as int]) + rest) =~= message@ + rest);
                }
            }
            i = i + 1;
        }
        let ghost first = message@;
        proof {
            assert(first + Seq::<char>::empty() =~= first);
            assert(first == head + unmatched_lines(self@, all, 0));
        }
        let mut k: usize = 0;
        while k < self.entries.len()
            invariant
                k <= self.entries.len(),
                message@ + unexpected_lines(self@, k as int) == first + unexpected_lines(self@, 0),
            decreases self.entries.len() - k,
        {
            let ghost before = message@;
            let ghost rest = unexpected_lines(self@, k + 1);
            match &self.entries[k] {
                ReportEntry::Handled(_, result) => match result {
                    MatchResult::RequestNotFound(request) => {
                        message.append("\n  unexpected request ");
                        message.append(request.method.as_str());
                        message.append(" ");
                        message.append(request.path.as_str());
                        proof {
                            assert(message@ =~= before + unexpected_line(request@));
                            assert(before + (unexpected_line(request@) + rest) =~= message@ + rest);
                        }
                    },
                    _ => {
                        proof {
                            assert(before + (Seq::<char>::empty() + rest) =~= before + rest);
                        }
                    },
                },
                _ => {
                    proof {
                        assert(before + (Seq::<char>::empty() + rest) =~= before + rest);
                    }
                },
            }
            k = k + 1;
        }
        proof {
            assert(message@ + Seq::<char>::empty() =~= message@);
        }
        Some(message)
    }
}

} // verus!
