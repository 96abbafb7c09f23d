use crate::outcome::ResultStatus;
use vstd::prelude::*;

verus! {

/// Mathematical model of one diagnostic: its message and its 1-based source
/// position.
pub ghost struct DiagnosticModel {
    /// The characters of the error message.
    pub message: Seq<char>,
    /// The source line on which the error was reported.
    pub line: int,
    /// The source column on which the error was reported.
    pub col: int,
}

/// A message that a parser generated at a certain source line and column.
/// An immutable value, compared by structural equality; the library treats
/// line and column as opaque numbers and does not validate them.
pub struct ErrorMessagePosition {
    /// The error message.
    pub message: String,
    /// The line on which the error was thrown by the parser, 1-based.
    pub line: usize,
    /// The column on which the error was thrown by the parser, 1-based.
    pub col: usize,
}

impl View for ErrorMessagePosition {
    type V = DiagnosticModel;

    open spec fn view(&self) -> DiagnosticModel {
        DiagnosticModel {
            message: self.message@,
            line: self.line as int,
            col: self.col as int,
        }
    }
}

impl ErrorMessagePosition {
    /// An exact copy of this diagnostic.
    pub fn duplicate(&self) -> (r: ErrorMessagePosition)
        ensures
            r@ == self@,
    {
        ErrorMessagePosition { message: self.message.clone(), line: self.line, col: self.col }
    }
}

/// Mathematical model of one classified diagnostic position.
pub ghost struct ErrorRecordModel {
    /// Zero-based position inside the classified sequence.
    pub index: int,
    /// The diagnostic the parser actually emitted here, absent when the actual
    /// sequence has none.
    pub actual: Option<DiagnosticModel>,
    /// The diagnostic the fixture expected here, absent when the expected
    /// sequence has none.
    pub expected: Option<DiagnosticModel>,
    /// The outcome assigned to this position.
    pub result: ResultStatus,
}

/// The result of comparing one diagnostic position.
pub struct ErrorResult {
    /// The actual error found during testing, absent when the parser emitted
    /// fewer errors than this position.
    pub actual: Option<ErrorMessagePosition>,
    /// The expected error that should have been found, absent when the fixture
    /// expected fewer errors than this position.
    pub expected: Option<ErrorMessagePosition>,
    /// Index of the error, zero-based.
    pub index: usize,
    /// The actual result of comparing this position.
    pub result: ResultStatus,
}

impl View for ErrorResult {
    type V = ErrorRecordModel;

    open spec fn view(&self) -> ErrorRecordModel {
        ErrorRecordModel {
            index: self.index as int,
            actual: match self.actual {
                Option::Some(d) => Option::Some(d@),
                Option::None => Option::None,
            },
            expected: match self.expected {
                Option::Some(d) => Option::Some(d@),
                Option::None => Option::None,
            },
            result: self.result,
        }
    }
}

/// A sequence of diagnostics as its sequence of models.
pub open spec fn diagnostics_view(v: Seq<ErrorMessagePosition>) -> Seq<DiagnosticModel> {
    Seq::new(v.len(), |i: int| v[i]@)
}

/// The outcome the diagnostic alignment assigns at position `i` of expected
/// diagnostics `e` and actual diagnostics `a`: Success when message, line and
/// column all agree; IncorrectPosition when only the message agrees; Mismatch
/// when the messages differ, whatever the locations.
pub open spec fn error_status_at(e: Seq<DiagnosticModel>, a: Seq<DiagnosticModel>, i: int) -> ResultStatus {
    if i < e.len() && i < a.len() {
        if e[i].message == a[i].message && e[i].line == a[i].line && e[i].col == a[i].col {
            ResultStatus::Success
        } else if e[i].message == a[i].message {
            ResultStatus::IncorrectPosition
        } else {
            ResultStatus::Mismatch
        }
    } else if i < e.len() {
        ResultStatus::Missing
    } else {
        ResultStatus::Additional
    }
}

/// The full record the diagnostic alignment produces at position `i`.
pub open spec fn error_record_at(e: Seq<DiagnosticModel>, a: Seq<DiagnosticModel>, i: int) -> ErrorRecordModel {
    ErrorRecordModel {
        index: i,
        actual: if i < a.len() {
            Option::Some(a[i])
        } else {
            Option::None
        },
        expected: if i < e.len() {
            Option::Some(e[i])
        } else {
            Option::None
        },
        result: error_status_at(e, a, i),
    }
}

/// The classified sequence for expected diagnostics `e` and actual diagnostics
/// `a`: one record per position `0 .. max(e.len(), a.len())`.
pub open spec fn spec_classify_errors(e: Seq<DiagnosticModel>, a: Seq<DiagnosticModel>) -> Seq<
    ErrorRecordModel,
> {
    Seq::new(
        if e.len() >= a.len() {
            e.len()
        } else {
            a.len()
        },
        |i: int| error_record_at(e, a, i),
    )
}

/// Walks positions `0 .. max(len(expected), len(actual))` in emission order
/// and classifies each by strict positional comparison of the diagnostics.
/// Both diagnostics present: Success when message and location agree,
/// IncorrectPosition when only the message agrees, Mismatch otherwise; one
/// side absent: Missing past the end of actual, Additional past the end of
/// expected. Total: it cannot fail, for any two input sequences.
pub fn classify_errors(expected: &Vec<ErrorMessagePosition>, actual: &Vec<ErrorMessagePosition>) -> (r: Vec<ErrorResult>)
    ensures
        r@.len() == spec_classify_errors(
            diagnostics_view(expected@),
            diagnostics_view(actual@),
        ).len(),
        forall|i: int|
            0 <= i < r@.len() ==> #[trigger] r@[i]@ == spec_classify_errors(
                diagnostics_view(expected@),
                diagnostics_view(actual@),
            )[i],
{
    let ghost e = diagnostics_view(expected@);
    let ghost a = diagnostics_view(actual@);
    let max: usize = if expected.len() >= actual.len() {
        expected.len()
    } else {
        actual.len()
    };
    let mut r: Vec<ErrorResult> = Vec::new();
    let mut i: usize = 0;
    while i < max
        invariant
            i <= max,
            e == diagnostics_view(expected@),
            a == diagnostics_view(actual@),
            max == if e.len() >= a.len() {
                e.len()
            } else {
                a.len()
            },
            r@.len() == i,
            forall|j: int| 0 <= j < i ==> #[trigger] r@[j]@ == error_record_at(e, a, j),
        decreases max - i,
    {
        let rec = if i < expected.len() && i < actual.len() {
            let exp = &expected[i];
            let act = &actual[i];
            let status = if exp.message == act.message {
                if exp.line == act.line && exp.col == act.col {
                    ResultStatus::Success
                } else {
                    ResultStatus::IncorrectPosition
                }
            } else {
                ResultStatus::Mismatch
            };
            ErrorResult {
                actual: Some(act.duplicate()),
                expected: Some(exp.duplicate()),
                index: i,
                result: status,
            }
        } else if i < expected.len() {
            ErrorResult {
                actual: None,
                expected: Some(expected[i].duplicate()),
                index: i,
                result: ResultStatus::Missing,
            }
        } else {
            ErrorResult {
                actual: Some(actual[i].duplicate()),
                expected: None,
                index: i,
                result: ResultStatus::Additional,
            }
        };
        r.push(rec);
        i = i + 1;
    }
    r
}

/// Law: when the expected and actual diagnostic sequences have equal length
/// and agree element-wise, every classified diagnostic carries the Success
/// outcome.
pub proof fn lemma_equal_errors_all_success(e: Seq<DiagnosticModel>, a: Seq<DiagnosticModel>)
    requires
        e.len() == a.len(),
        forall|i: int| 0 <= i < e.len() ==> e[i] == a[i],
    ensures
        forall|i: int|
            0 <= i < spec_classify_errors(e, a).len() ==> (#[trigger] spec_classify_errors(
                e,
                a,
            )[i]).result == ResultStatus::Success,
{
}

/// Law: when actual is shorter than expected, every position from
/// `a.len()` up to `e.len()` is Missing; when actual is longer, every
/// position from `e.len()` up to `a.len()` is Additional.
pub proof fn lemma_error_length_mismatch_tail(e: Seq<DiagnosticModel>, a: Seq<DiagnosticModel>)
    ensures
        forall|i: int|
            a.len() <= i < e.len() ==> (#[trigger] spec_classify_errors(e, a)[i]).result
                == ResultStatus::Missing,
        forall|i: int|
            e.len() <= i < a.len() ==> (#[trigger] spec_classify_errors(e, a)[i]).result
                == ResultStatus::Additional,
{
}

/// Law (idempotence): the classified records determine the inputs. A record's
/// expected field is present exactly at the positions below `e.len()`, which
/// are exactly those whose outcome is not Additional, and likewise the actual
/// field is present exactly where the outcome is not Missing. Re-classifying
/// the two projections reproduces the record sequence, outcomes included.
pub proof fn lemma_classify_errors_idempotent(e: Seq<DiagnosticModel>, a: Seq<DiagnosticModel>)
    ensures
        forall|i: int|
            0 <= i < spec_classify_errors(e, a).len() ==> ((#[trigger] spec_classify_errors(
                e,
                a,
            )[i]).expected is Some <==> i < e.len()),
        forall|i: int|
            0 <= i < spec_classify_errors(e, a).len() ==> ((#[trigger] spec_classify_errors(
                e,
                a,
            )[i]).result != ResultStatus::Additional <==> i < e.len()),
        forall|i: int|
            0 <= i < spec_classify_errors(e, a).len() ==> ((#[trigger] spec_classify_errors(
                e,
                a,
            )[i]).actual is Some <==> i < a.len()),
        forall|i: int|
            0 <= i < spec_classify_errors(e, a).len() ==> ((#[trigger] spec_classify_errors(
                e,
                a,
            )[i]).result != ResultStatus::Missing <==> i < a.len()),
        ({
            let recs = spec_classify_errors(e, a);
            let expected_projection = Seq::new(e.len(), |i: int| recs[i].expected->0);
            let actual_projection = Seq::new(a.len(), |i: int| recs[i].actual->0);
            spec_classify_errors(expected_projection, actual_projection) == recs
        }),
{
    let recs = spec_classify_errors(e, a);
    let expected_projection = Seq::new(e.len(), |i: int| recs[i].expected->0);
    let actual_projection = Seq::new(a.len(), |i: int| recs[i].actual->0);
    assert(expected_projection =~= e);
    assert(actual_projection =~= a);
}

} // verus!
