use crate::errors::classify_errors;
use crate::errors::diagnostics_view;
use crate::errors::spec_classify_errors;
use crate::errors::ErrorMessagePosition;
use crate::errors::ErrorRecordModel;
use crate::errors::ErrorResult;
use crate::lines::classify_lines;
use crate::lines::lines_view;
use crate::lines::spec_classify_lines;
use crate::lines::LineRecordModel;
use crate::lines::TreeLineResult;
use crate::outcome::ResultStatus;
use vstd::prelude::*;

verus! {

/// Mathematical model of a whole report: the two classified sequences.
pub ghost struct ReportModel {
    /// The classified tree lines, in position order.
    pub lines: Seq<LineRecordModel>,
    /// The classified diagnostics, in position order.
    pub diagnostics: Seq<ErrorRecordModel>,
}

/// A combined result from a single test with all the results from the tree
/// and the parser errors. Produced once per test case and never mutated after
/// construction.
pub struct TestResult {
    /// Results of each line in the node tree (as generated by the parser).
    pub tree_results: Vec<TreeLineResult>,
    /// Results of each error generated by the parser.
    pub error_results: Vec<ErrorResult>,
}

impl View for TestResult {
    type V = ReportModel;

    open spec fn view(&self) -> ReportModel {
        ReportModel {
            lines: Seq::new(self.tree_results@.len(), |i: int| self.tree_results@[i]@),
            diagnostics: Seq::new(self.error_results@.len(), |i: int| self.error_results@[i]@),
        }
    }
}

/// Every classified line carries the Success outcome.
pub open spec fn all_lines_success(s: Seq<LineRecordModel>) -> bool {
    forall|i: int| 0 <= i < s.len() ==> (#[trigger] s[i]).result == ResultStatus::Success
}

/// Every classified diagnostic carries the Success outcome.
pub open spec fn all_errors_success(s: Seq<ErrorRecordModel>) -> bool {
    forall|i: int| 0 <= i < s.len() ==> (#[trigger] s[i]).result == ResultStatus::Success
}

/// A report passes exactly when neither classified sequence contains an
/// outcome other than Success. An all-empty report passes vacuously.
pub open spec fn spec_is_success(r: ReportModel) -> bool {
    all_lines_success(r.lines) && all_errors_success(r.diagnostics)
}

impl Default for TestResult {
    /// An empty report: no classified lines and no classified diagnostics.
    fn default() -> (r: TestResult)
        ensures
            r@.lines.len() == 0,
            r@.diagnostics.len() == 0,
    {
        TestResult { tree_results: Vec::new(), error_results: Vec::new() }
    }
}

impl TestResult {
    /// Runs both alignments against one test case's (expected, actual) pairs
    /// and combines the two classified sequences into one report.
    pub fn new(
        expected_lines: &Vec<String>,
        actual_lines: &Vec<String>,
        expected_errors: &Vec<ErrorMessagePosition>,
        actual_errors: &Vec<ErrorMessagePosition>,
    ) -> (r: TestResult)
        ensures
            r@.lines == spec_classify_lines(lines_view(expected_lines@), lines_view(actual_lines@)),
            r@.diagnostics == spec_classify_errors(
                diagnostics_view(expected_errors@),
                diagnostics_view(actual_errors@),
            ),
    {
        let tree_results = classify_lines(expected_lines, actual_lines);
        let error_results = classify_errors(expected_errors, actual_errors);
        let combined = TestResult { tree_results, error_results };
        proof {
            assert(combined@.lines =~= spec_classify_lines(
                lines_view(expected_lines@),
                lines_view(actual_lines@),
            ));
            assert(combined@.diagnostics =~= spec_classify_errors(
                diagnostics_view(expected_errors@),
                diagnostics_view(actual_errors@),
            ));
        }
        combined
    }

    /// Returns true when every line result and every error result is Success;
    /// in particular, true of a report whose two sequences are both empty.
    pub fn is_success(&self) -> (r: bool)
        ensures
            r == spec_is_success(self@),
    {
        let mut i: usize = 0;
        while i < self.tree_results.len()
            invariant
                i <= self.tree_results@.len(),
                forall|j: int|
                    0 <= j < i ==> (#[trigger] self.tree_results@[j])@.result
                        == ResultStatus::Success,
            decreases self.tree_results@.len() - i,
        {
            if !(self.tree_results[i].result == ResultStatus::Success) {
                proof {
                    assert(self@.lines[i as int].result != ResultStatus::Success);
                }
                return false;
            }
            i = i + 1;
        }
        let mut k: usize = 0;
        while k < self.error_results.len()
            invariant
                k <= self.error_results@.len(),
                forall|j: int|
                    0 <= j < k ==> (#[trigger] self.error_results@[j])@.result
                        == ResultStatus::Success,
            decreases self.error_results@.len() - k,
        {
            if !(self.error_results[k].result == ResultStatus::Success) {
                proof {
                    assert(self@.diagnostics[k as int].result != ResultStatus::Success);
                }
                return false;
            }
            k = k + 1;
        }
        proof {
            assert forall|j: int| 0 <= j < self@.lines.len() implies (#[trigger] self@.lines[j]).result
                == ResultStatus::Success by {
                assert(self@.lines[j] == self.tree_results@[j]@);
            }
            assert forall|j: int|
                0 <= j < self@.diagnostics.len() implies (#[trigger] self@.diagnostics[j]).result
                == ResultStatus::Success by {
                assert(self@.diagnostics[j] == self.error_results@[j]@);
            }
        }
        true
    }
}

} // verus!
