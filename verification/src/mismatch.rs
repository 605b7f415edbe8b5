//! What the matching of an actual message against an expected one
//! reports.

use crate::text::views;
use vstd::prelude::*;

verus! {

/// The kinds of mismatch.
#[derive(Debug, Clone, Copy, PartialEq, Eq, Structural)]
pub enum MismatchKind {
    Method,
    Path,
    Status,
    Query,
    Header,
    BodyType,
    Body,
}

/// One difference between an actual message and the expected one.
#[derive(Debug, PartialEq, Eq)]
#[allow(inconsistent_fields)]
pub enum Mismatch {
    /// The methods differ.
    MethodMismatch { expected: String, actual: String },
    /// The paths differ.
    PathMismatch { expected: String, actual: String, mismatch: String },
    /// The status codes differ.
    StatusMismatch { expected: u16, actual: u16 },
    /// A query parameter differs, is missing or is not expected.
    QueryMismatch { parameter: String, expected: String, actual: String, mismatch: String },
    /// A header differs or is missing.
    HeaderMismatch { key: String, expected: String, actual: String, mismatch: String },
    /// The bodies are of different content types.
    BodyTypeMismatch { expected: String, actual: String },
    /// The bodies differ at the place that `path` names.
    BodyMismatch { path: String, expected: String, actual: String, mismatch: String },
}

/// The mathematical value of a `Mismatch`.
#[allow(inconsistent_fields)]
pub enum MismatchView {
    MethodMismatch { expected: Seq<char>, actual: Seq<char> },
    PathMismatch { expected: Seq<char>, actual: Seq<char>, mismatch: Seq<char> },
    StatusMismatch { expected: u16, actual: u16 },
    QueryMismatch {
        parameter: Seq<char>,
        expected: Seq<char>,
        actual: Seq<char>,
        mismatch: Seq<char>,
    },
    HeaderMismatch { key: Seq<char>, expected: Seq<char>, actual: Seq<char>, mismatch: Seq<char> },
    BodyTypeMismatch { expected: Seq<char>, actual: Seq<char> },
    BodyMismatch { path: Seq<char>, expected: Seq<char>, actual: Seq<char>, mismatch: Seq<char> },
}

impl MismatchView {
    /// The kind of this mismatch.
    pub open spec fn kind(self) -> MismatchKind {
        match self {
            MismatchView::MethodMismatch { .. } => MismatchKind::Method,
            MismatchView::PathMismatch { .. } => MismatchKind::Path,
            MismatchView::StatusMismatch { .. } => MismatchKind::Status,
            MismatchView::QueryMismatch { .. } => MismatchKind::Query,
            MismatchView::HeaderMismatch { .. } => MismatchKind::Header,
            MismatchView::BodyTypeMismatch { .. } => MismatchKind::BodyType,
            MismatchView::BodyMismatch { .. } => MismatchKind::Body,
        }
    }
}

impl View for Mismatch {
    type V = MismatchView;

    open spec fn view(&self) -> MismatchView {
        match self {
            Mismatch::MethodMismatch { expected, actual } => MismatchView::MethodMismatch {
                expected: expected@,
                actual: actual@,
            },
            Mismatch::PathMismatch { expected, actual, mismatch } => MismatchView::PathMismatch {
                expected: expected@,
                actual: actual@,
                mismatch: mismatch@,
            },
            Mismatch::StatusMismatch { expected, actual } => MismatchView::StatusMismatch {
                expected: *expected,
                actual: *actual,
            },
            Mismatch::QueryMismatch {
                parameter,
                expected,
                actual,
                mismatch,
            } => MismatchView::QueryMismatch {
                parameter: parameter@,
                expected: expected@,
                actual: actual@,
                mismatch: mismatch@,
            },
            Mismatch::HeaderMismatch {
                key,
                expected,
                actual,
                mismatch,
            } => MismatchView::HeaderMismatch {
                key: key@,
                expected: expected@,
                actual: actual@,
                mismatch: mismatch@,
            },
            Mismatch::BodyTypeMismatch { expected, actual } => MismatchView::BodyTypeMismatch {
                expected: expected@,
                actual: actual@,
            },
            Mismatch::BodyMismatch {
                path,
                expected,
                actual,
                mismatch,
            } => MismatchView::BodyMismatch {
                path: path@,
                expected: expected@,
                actual: actual@,
                mismatch: mismatch@,
            },
        }
    }
}

impl Clone for Mismatch {
    fn clone(&self) -> (copy: Mismatch)
        ensures
            copy@ == self@,
    {
        match self {
            Mismatch::MethodMismatch { expected, actual } => Mismatch::MethodMismatch {
                expected: expected.clone(),
                actual: actual.clone(),
            },
            Mismatch::PathMismatch { expected, actual, mismatch } => Mismatch::PathMismatch {
                expected: expected.clone(),
                actual: actual.clone(),
                mismatch: mismatch.clone(),
            },
            Mismatch::StatusMismatch { expected, actual } => Mismatch::StatusMismatch {
                expected: *expected,
                actual: *actual,
            },
            Mismatch::QueryMismatch { parameter, expected, actual, mismatch } => {
                Mismatch::QueryMismatch {
                    parameter: parameter.clone(),
                    expected: expected.clone(),
                    actual: actual.clone(),
                    mismatch: mismatch.clone(),
                }
            },
            Mismatch::HeaderMismatch { key, expected, actual, mismatch } => {
                Mismatch::HeaderMismatch {
                    key: key.clone(),
                    expected: expected.clone(),
                    actual: actual.clone(),
                    mismatch: mismatch.clone(),
                }
            },
            Mismatch::BodyTypeMismatch { expected, actual } => Mismatch::BodyTypeMismatch {
                expected: expected.clone(),
                actual: actual.clone(),
            },
            Mismatch::BodyMismatch { path, expected, actual, mismatch } => Mismatch::BodyMismatch {
                path: path.clone(),
                expected: expected.clone(),
                actual: actual.clone(),
                mismatch: mismatch.clone(),
            },
        }
    }
}

impl Mismatch {
    /// The kind of this mismatch.
    pub fn kind(&self) -> (k: MismatchKind)
        ensures
            k == self@.kind(),
    {
        match self {
            Mismatch::MethodMismatch { .. } => MismatchKind::Method,
            Mismatch::PathMismatch { .. } => MismatchKind::Path,
            Mismatch::StatusMismatch { .. } => MismatchKind::Status,
            Mismatch::QueryMismatch { .. } => MismatchKind::Query,
            Mismatch::HeaderMismatch { .. } => MismatchKind::Header,
            Mismatch::BodyTypeMismatch { .. } => MismatchKind::BodyType,
            Mismatch::BodyMismatch { .. } => MismatchKind::Body,
        }
    }

    /// The name of the kind of this mismatch.
    pub fn mismatch_type(&self) -> (name: String)
        ensures
            name@ == kind_name(self@.kind()),
    {
        match self {
            Mismatch::MethodMismatch { .. } => String::from_str("MethodMismatch"),
            Mismatch::PathMismatch { .. } => String::from_str("PathMismatch"),
            Mismatch::StatusMismatch { .. } => String::from_str("StatusMismatch"),
            Mismatch::QueryMismatch { .. } => String::from_str("QueryMismatch"),
            Mismatch::HeaderMismatch { .. } => String::from_str("HeaderMismatch"),
            Mismatch::BodyTypeMismatch { .. } => String::from_str("BodyTypeMismatch"),
            Mismatch::BodyMismatch { .. } => String::from_str("BodyMismatch"),
        }
    }
}

/// The name of a kind of mismatch.
pub open spec fn kind_name(kind: MismatchKind) -> Seq<char> {
    match kind {
        MismatchKind::Method => "MethodMismatch"@,
        MismatchKind::Path => "PathMismatch"@,
        MismatchKind::Status => "StatusMismatch"@,
        MismatchKind::Query => "QueryMismatch"@,
        MismatchKind::Header => "HeaderMismatch"@,
        MismatchKind::BodyType => "BodyTypeMismatch"@,
        MismatchKind::Body => "BodyMismatch"@,
    }
}

/// A copy of a list of mismatches.
pub fn clone_mismatches(items: &Vec<Mismatch>) -> (copy: Vec<Mismatch>)
    ensures
        views(copy@) == views(items@),
{
    let mut copy: Vec<Mismatch> = Vec::new();
    let mut i: usize = 0;
    while i < items.len()
        invariant
            i <= items.len(),
            copy@.len() == i,
            forall|k: int| 0 <= k < i ==> (#[trigger] copy@[k])@ == items@[k]@,
        decreases items.len() - i,
    {
        copy.push(items[i].clone());
        i = i + 1;
    }
    assert(views(copy@) =~= views(items@));
    copy
}

/// Moves the mismatches of `more` to the end of `out`.
pub fn append_mismatches(out: &mut Vec<Mismatch>, more: Vec<Mismatch>)
    ensures
        views(final(out)@) == views(old(out)@) + views(more@),
{
    let mut more = more;
    let ghost added = more@;
    out.append(&mut more);
    assert(views(out@) =~= views(old(out)@) + views(added));
}

/// An empty list of mismatches.
pub fn no_mismatches() -> (out: Vec<Mismatch>)
    ensures
        views(out@) == Seq::<MismatchView>::empty(),
{
    let out: Vec<Mismatch> = Vec::new();
    assert(views(out@) =~= Seq::<MismatchView>::empty());
    out
}

/// A list of one mismatch.
pub fn one_mismatch(mismatch: Mismatch) -> (out: Vec<Mismatch>)
    ensures
        views(out@) == seq![mismatch@],
{
    let mut out: Vec<Mismatch> = Vec::new();
    out.push(mismatch);
    assert(views(out@) =~= seq![mismatch@]);
    out
}

} // verus!
