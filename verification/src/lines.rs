use crate::outcome::ResultStatus;
use vstd::prelude::*;

verus! {

/// Mathematical model of one classified tree line.
pub ghost struct LineRecordModel {
    /// Zero-based position inside the classified sequence.
    pub index: int,
    /// The characters the parser actually produced at this position, empty when absent.
    pub actual: Seq<char>,
    /// The characters the fixture expected at this position, empty when absent.
    pub expected: Seq<char>,
    /// The outcome assigned to this position.
    pub result: ResultStatus,
}

/// The result of comparing one line of the serialized node tree.
pub struct TreeLineResult {
    /// Index (line number) inside the generated tree, zero-based.
    pub index: usize,
    /// Actual found line, or empty when the actual sequence has no line here.
    pub actual: String,
    /// Expected line, or empty when the expected sequence has no line here.
    pub expected: String,
    /// Result of comparing this position.
    pub result: ResultStatus,
}

impl View for TreeLineResult {
    type V = LineRecordModel;

    open spec fn view(&self) -> LineRecordModel {
        LineRecordModel {
            index: self.index as int,
            actual: self.actual@,
            expected: self.expected@,
            result: self.result,
        }
    }
}

/// A sequence of text lines as its sequence of character sequences.
pub open spec fn lines_view(v: Seq<String>) -> Seq<Seq<char>> {
    Seq::new(v.len(), |i: int| v[i]@)
}

/// The outcome the line alignment assigns at position `i` of expected lines
/// `e` and actual lines `a`.
pub open spec fn line_status_at(e: Seq<Seq<char>>, a: Seq<Seq<char>>, i: int) -> ResultStatus {
    if i < e.len() && i < a.len() {
        if e[i] == a[i] {
            ResultStatus::Success
        } else {
            ResultStatus::Mismatch
        }
    } else if i < e.len() {
        ResultStatus::Missing
    } else {
        ResultStatus::Additional
    }
}

/// The full record the line alignment produces at position `i`.
pub open spec fn line_record_at(e: Seq<Seq<char>>, a: Seq<Seq<char>>, i: int) -> LineRecordModel {
    LineRecordModel {
        index: i,
        actual: if i < a.len() {
            a[i]
        } else {
            Seq::empty()
        },
        expected: if i < e.len() {
            e[i]
        } else {
            Seq::empty()
        },
        result: line_status_at(e, a, i),
    }
}

/// The classified sequence for expected lines `e` and actual lines `a`: one
/// record per position `0 .. max(e.len(), a.len())`.
pub open spec fn spec_classify_lines(e: Seq<Seq<char>>, a: Seq<Seq<char>>) -> Seq<
    LineRecordModel,
> {
    Seq::new(
        if e.len() >= a.len() {
            e.len()
        } else {
            a.len()
        },
        |i: int| line_record_at(e, a, i),
    )
}

/// Walks positions `0 .. max(len(expected), len(actual))` in increasing order
/// and classifies each by strict positional comparison: equal lines are
/// Success, unequal lines Mismatch, a line past the end of actual is Missing,
/// one past the end of expected is Additional. Total: it cannot fail, for any
/// two input sequences, empty ones included.
pub fn classify_lines(expected: &Vec<String>, actual: &Vec<String>) -> (r: Vec<TreeLineResult>)
    ensures
        r@.len() == spec_classify_lines(lines_view(expected@), lines_view(actual@)).len(),
        forall|i: int|
            0 <= i < r@.len() ==> #[trigger] r@[i]@ == spec_classify_lines(
                lines_view(expected@),
                lines_view(actual@),
            )[i],
{
    let ghost e = lines_view(expected@);
    let ghost a = lines_view(actual@);
    let max: usize = if expected.len() >= actual.len() {
        expected.len()
    } else {
        actual.len()
    };
    let mut r: Vec<TreeLineResult> = Vec::new();
    let mut i: usize = 0;
    while i < max
        invariant
            i <= max,
            e == lines_view(expected@),
            a == lines_view(actual@),
            max == if e.len() >= a.len() {
                e.len()
            } else {
                a.len()
            },
            r@.len() == i,
            forall|j: int| 0 <= j < i ==> #[trigger] r@[j]@ == line_record_at(e, a, j),
        decreases max - i,
    {
        let rec = if i < expected.len() && i < actual.len() {
            let exp = expected[i].clone();
            let act = actual[i].clone();
            let status = if exp == act {
                ResultStatus::Success
            } else {
                ResultStatus::Mismatch
            };
            TreeLineResult { index: i, actual: act, expected: exp, result: status }
        } else if i < expected.len() {
            TreeLineResult {
                index: i,
                actual: String::new(),
                expected: expected[i].clone(),
                result: ResultStatus::Missing,
            }
        } else {
            TreeLineResult {
                index: i,
                actual: actual[i].clone(),
                expected: String::new(),
                result: ResultStatus::Additional,
            }
        };
        r.push(rec);
        i = i + 1;
    }
    r
}

/// Law: when the expected and actual line sequences have equal length and
/// agree element-wise, every classified line carries the Success outcome.
pub proof fn lemma_equal_lines_all_success(e: Seq<Seq<char>>, a: Seq<Seq<char>>)
    requires
        e.len() == a.len(),
        forall|i: int| 0 <= i < e.len() ==> e[i] == a[i],
    ensures
        forall|i: int|
            0 <= i < spec_classify_lines(e, a).len() ==> (#[trigger] spec_classify_lines(
                e,
                a,
            )[i]).result == ResultStatus::Success,
{
}

/// Law: when actual is shorter than expected, every position from
/// `a.len()` up to `e.len()` is Missing; when actual is longer, every
/// position from `e.len()` up to `a.len()` is Additional.
pub proof fn lemma_line_length_mismatch_tail(e: Seq<Seq<char>>, a: Seq<Seq<char>>)
    ensures
        forall|i: int|
            a.len() <= i < e.len() ==> (#[trigger] spec_classify_lines(e, a)[i]).result
                == ResultStatus::Missing,
        forall|i: int|
            e.len() <= i < a.len() ==> (#[trigger] spec_classify_lines(e, a)[i]).result
                == ResultStatus::Additional,
{
}

/// Law: tree-line classification never assigns IncorrectPosition; that
/// outcome belongs to the diagnostic alignment alone.
pub proof fn lemma_lines_never_incorrect_position(e: Seq<Seq<char>>, a: Seq<Seq<char>>)
    ensures
        forall|i: int|
            0 <= i < spec_classify_lines(e, a).len() ==> (#[trigger] spec_classify_lines(
                e,
                a,
            )[i]).result != ResultStatus::IncorrectPosition,
{
}

/// Law (idempotence): the classified records determine the inputs. A record's
/// expected field is a genuine expected line exactly where its outcome is not
/// Additional, which happens exactly at the positions below `e.len()`, and
/// likewise the actual field is genuine exactly where the outcome is not
/// Missing. Re-classifying those two projections reproduces the record
/// sequence, outcomes included.
pub proof fn lemma_classify_lines_idempotent(e: Seq<Seq<char>>, a: Seq<Seq<char>>)
    ensures
        forall|i: int|
            0 <= i < spec_classify_lines(e, a).len() ==> ((#[trigger] spec_classify_lines(
                e,
                a,
            )[i]).result != ResultStatus::Additional <==> i < e.len()),
        forall|i: int|
            0 <= i < spec_classify_lines(e, a).len() ==> ((#[trigger] spec_classify_lines(
                e,
                a,
            )[i]).result != ResultStatus::Missing <==> i < a.len()),
        ({
            let recs = spec_classify_lines(e, a);
            let expected_projection = Seq::new(e.len(), |i: int| recs[i].expected);
            let actual_projection = Seq::new(a.len(), |i: int| recs[i].actual);
            spec_classify_lines(expected_projection, actual_projection) == recs
        }),
{
    let recs = spec_classify_lines(e, a);
    let expected_projection = Seq::new(e.len(), |i: int| recs[i].expected);
    let actual_projection = Seq::new(a.len(), |i: int| recs[i].actual);
    assert(expected_projection =~= e);
    assert(actual_projection =~= a);
}

} // verus!
