//! What the preprocessor reports to the editor: the text that it
//! skipped, the names that have no macro, and the conditions that it
//! could not read.

use crate::errors::{EvaluationError, Located, MacroNotFoundError};
use crate::range::Range;
use crate::symbol::{deep, lemma_deep_push};
use vstd::prelude::*;
use vstd::string::*;

verus! {

/// How grave a diagnostic is.
#[derive(Clone, Copy, Debug, PartialEq, Eq, Structural)]
pub enum Severity {
    Error,
    Hint,
}

/// A remark on a stretch of the text.
#[derive(Debug)]
pub struct Diagnostic {
    pub range: Range,
    pub message: String,
    pub severity: Severity,
    /// Whether the stretch is code that serves no purpose.
    pub unnecessary: bool,
}

/// A diagnostic as contracts see it.
pub struct DiagnosticView {
    pub range: Range,
    pub message: Seq<char>,
    pub severity: Severity,
    pub unnecessary: bool,
}

impl View for Diagnostic {
    type V = DiagnosticView;

    open spec fn view(&self) -> DiagnosticView {
        DiagnosticView {
            range: self.range,
            message: self.message@,
            severity: self.severity,
            unnecessary: self.unnecessary,
        }
    }
}

impl DeepView for Diagnostic {
    type V = DiagnosticView;

    open spec fn deep_view(&self) -> DiagnosticView {
        self@
    }
}

/// Whether `later` starts on the line after the one on which `earlier`
/// ends.
pub open spec fn follows(earlier: Range, later: Range) -> bool {
    earlier.end.line + 1 == later.start.line
}

/// The range from the start of `earlier` to the end of `later`.
pub open spec fn span(earlier: Range, later: Range) -> Range {
    Range { start: earlier.start, end: later.end }
}

/// The ranges with every run of ranges on successive lines made into
/// one range, from the start of the first of the run to the end of the
/// last.
pub open spec fn coalesced(ranges: Seq<Range>) -> Seq<Range>
    decreases ranges.len(),
{
    if ranges.len() == 0 {
        Seq::empty()
    } else {
        let before = coalesced(ranges.drop_last());
        if before.len() > 0 && follows(before.last(), ranges.last()) {
            before.drop_last().push(span(before.last(), ranges.last()))
        } else {
            before.push(ranges.last())
        }
    }
}

/// Makes every run of ranges on successive lines into one range.
pub fn coalesce(ranges: &Vec<Range>) -> (merged: Vec<Range>)
    ensures
        merged@ == coalesced(ranges@),
{
    let mut merged: Vec<Range> = Vec::new();
    let mut i: usize = 0;
    proof {
        assert(ranges@.take(0) =~= Seq::<Range>::empty());
    }
    while i < ranges.len()
        invariant
            i <= ranges.len(),
            merged@ == coalesced(ranges@.take(i as int)),
        decreases ranges.len() - i,
    {
        let range = ranges[i];
        proof {
            assert(ranges@.take(i + 1).drop_last() =~= ranges@.take(i as int));
            assert(ranges@.take(i + 1).last() == range);
        }
        let ghost before = merged@;
        match merged.pop() {
            Some(last) => {
                if last.end.line < u32::MAX && last.end.line + 1 == range.start.line {
                    merged.push(Range::new(last.start, range.end));
                } else {
                    merged.push(last);
                    merged.push(range);
                    proof {
                        assert(merged@ =~= before.push(range));
                    }
                }
            },
            None => {
                merged.push(range);
            },
        }
        i += 1;
    }
    proof {
        assert(ranges@.take(ranges@.len() as int) =~= ranges@);
    }
    merged
}

/// Ranges on successive lines collapse into a single range, from the
/// start of the first to the end of the last.
pub proof fn lemma_contiguous_ranges_collapse(ranges: Seq<Range>)
    requires
        ranges.len() > 0,
        forall|i: int| 0 <= i < ranges.len() - 1 ==> follows(#[trigger] ranges[i], ranges[i + 1]),
    ensures
        coalesced(ranges) == seq![span(ranges[0], ranges.last())],
    decreases ranges.len(),
{
    if ranges.len() == 1 {
        assert(coalesced(ranges.drop_last()) =~= Seq::<Range>::empty());
        assert(coalesced(ranges) =~= seq![span(ranges[0], ranges.last())]);
    } else {
        let shorter = ranges.drop_last();
        assert forall|i: int| 0 <= i < shorter.len() - 1 implies follows(
            #[trigger] shorter[i],
            shorter[i + 1],
        ) by {
            assert(shorter[i] == ranges[i]);
            assert(shorter[i + 1] == ranges[i + 1]);
        }
        lemma_contiguous_ranges_collapse(shorter);
        assert(follows(ranges[ranges.len() - 2], ranges[ranges.len() - 2 + 1]));
        assert(coalesced(ranges) =~= seq![span(ranges[0], ranges.last())]);
    }
}

/// Coalescing leaves no two neighbours on successive lines.
pub proof fn lemma_coalesced_is_maximal(ranges: Seq<Range>)
    ensures
        forall|i: int|
            0 <= i < coalesced(ranges).len() - 1 ==> !follows(
                #[trigger] coalesced(ranges)[i],
                coalesced(ranges)[i + 1],
            ),
        coalesced(ranges).len() <= ranges.len(),
    decreases ranges.len(),
{
    if ranges.len() > 0 {
        lemma_coalesced_is_maximal(ranges.drop_last());
        let before = coalesced(ranges.drop_last());
        assert forall|i: int| 0 <= i < coalesced(ranges).len() - 1 implies !follows(
            #[trigger] coalesced(ranges)[i],
            coalesced(ranges)[i + 1],
        ) by {
            if before.len() > 0 && follows(before.last(), ranges.last()) {
                if i + 1 < before.len() - 1 {
                    assert(coalesced(ranges)[i] == before[i]);
                    assert(coalesced(ranges)[i + 1] == before[i + 1]);
                } else {
                    assert(coalesced(ranges)[i] == before[i]);
                    assert(coalesced(ranges)[i + 1].start == before[i + 1].start);
                }
            } else {
                if i + 1 < before.len() {
                    assert(coalesced(ranges)[i] == before[i]);
                    assert(coalesced(ranges)[i + 1] == before[i + 1]);
                }
            }
        }
    }
}

/// The message on text that was skipped.
pub open spec fn disabled_message() -> Seq<char> {
    "Code disabled by the preprocessor."@
}

/// The message on a name that has no macro.
pub open spec fn macro_not_found_message(name: Seq<char>) -> Seq<char> {
    "Macro "@ + name + " not found."@
}

/// The message on a condition that cannot be read.
pub open spec fn evaluation_error_message(text: Seq<char>) -> Seq<char> {
    "Preprocessor condition is invalid: "@ + text
}

/// The diagnostic on a stretch of text that was skipped: a hint that
/// the code serves no purpose.
pub open spec fn disabled_diagnostic(range: Range) -> DiagnosticView {
    DiagnosticView {
        range,
        message: disabled_message(),
        severity: Severity::Hint,
        unnecessary: true,
    }
}

/// The diagnostic on a name that has no macro: an error.
pub open spec fn macro_not_found_diagnostic(error: Located) -> DiagnosticView {
    DiagnosticView {
        range: error.range,
        message: macro_not_found_message(error.text),
        severity: Severity::Error,
        unnecessary: false,
    }
}

/// The diagnostic on a condition that cannot be read: an error.
pub open spec fn evaluation_error_diagnostic(error: Located) -> DiagnosticView {
    DiagnosticView {
        range: error.range,
        message: evaluation_error_message(error.text),
        severity: Severity::Error,
        unnecessary: false,
    }
}

/// The diagnostics on the text that was skipped: one for every run of
/// skipped ranges on successive lines.
pub open spec fn disabled_diagnostics(skipped: Seq<Range>) -> Seq<DiagnosticView> {
    coalesced(skipped).map_values(|range: Range| disabled_diagnostic(range))
}

/// Adds the diagnostics on the text that was skipped.
pub fn get_disabled_diagnostics(skipped: &Vec<Range>, diagnostics: &mut Vec<Diagnostic>)
    ensures
        deep(final(diagnostics)@) == deep(old(diagnostics)@) + disabled_diagnostics(skipped@),
{
    let ranges = coalesce(skipped);
    let mut i: usize = 0;
    proof {
        assert(deep(diagnostics@) + disabled_diagnostics(skipped@).take(0) =~= deep(diagnostics@));
    }
    while i < ranges.len()
        invariant
            i <= ranges.len(),
            ranges@ == coalesced(skipped@),
            deep(diagnostics@) == deep(old(diagnostics)@) + disabled_diagnostics(skipped@).take(
                i as int,
            ),
        decreases ranges.len() - i,
    {
        let ghost before = diagnostics@;
        let diagnostic = Diagnostic {
            range: ranges[i],
            message: String::from_str("Code disabled by the preprocessor."),
            severity: Severity::Hint,
            unnecessary: true,
        };
        diagnostics.push(diagnostic);
        proof {
            lemma_deep_push(before, diagnostic);
            assert(disabled_diagnostics(skipped@).take(i + 1) =~= disabled_diagnostics(
                skipped@,
            ).take(i as int).push(diagnostic@));
            assert(deep(before).push(diagnostic@) =~= deep(old(diagnostics)@)
                + disabled_diagnostics(skipped@).take(i + 1));
        }
        i += 1;
    }
    proof {
        assert(disabled_diagnostics(skipped@).take(ranges@.len() as int) =~= disabled_diagnostics(
            skipped@,
        ));
    }
}

/// Adds a diagnostic for every name that has no macro.
pub fn get_macro_not_found_diagnostics(
    errors: &Vec<MacroNotFoundError>,
    diagnostics: &mut Vec<Diagnostic>,
)
    ensures
        deep(final(diagnostics)@) == deep(old(diagnostics)@) + deep(errors@).map_values(
            |error: Located| macro_not_found_diagnostic(error),
        ),
{
    let ghost goal = deep(errors@).map_values(|error: Located| macro_not_found_diagnostic(error));
    let mut i: usize = 0;
    proof {
        assert(deep(diagnostics@) + goal.take(0) =~= deep(diagnostics@));
    }
    while i < errors.len()
        invariant
            i <= errors.len(),
            goal == deep(errors@).map_values(|error: Located| macro_not_found_diagnostic(error)),
            deep(diagnostics@) == deep(old(diagnostics)@) + goal.take(i as int),
        decreases errors.len() - i,
    {
        let ghost before = diagnostics@;
        let mut message = String::from_str("Macro ");
        message.append(errors[i].macro_name.as_str());
        message.append(" not found.");
        let diagnostic = Diagnostic {
            range: errors[i].range,
            message,
            severity: Severity::Error,
            unnecessary: false,
        };
        diagnostics.push(diagnostic);
        proof {
            lemma_deep_push(before, diagnostic);
            assert(goal.take(i + 1) =~= goal.take(i as int).push(diagnostic@));
            assert(deep(before).push(diagnostic@) =~= deep(old(diagnostics)@) + goal.take(i + 1));
        }
        i += 1;
    }
    proof {
        assert(goal.take(errors@.len() as int) =~= goal);
    }
}

/// Adds a diagnostic for every condition that cannot be read.
pub fn get_evaluation_error_diagnostics(
    errors: &Vec<EvaluationError>,
    diagnostics: &mut Vec<Diagnostic>,
)
    ensures
        deep(final(diagnostics)@) == deep(old(diagnostics)@) + deep(errors@).map_values(
            |error: Located| evaluation_error_diagnostic(error),
        ),
{
    let ghost goal = deep(errors@).map_values(|error: Located| evaluation_error_diagnostic(error));
    let mut i: usize = 0;
    proof {
        assert(deep(diagnostics@) + goal.take(0) =~= deep(diagnostics@));
    }
    while i < errors.len()
        invariant
            i <= errors.len(),
            goal == deep(errors@).map_values(|error: Located| evaluation_error_diagnostic(error)),
            deep(diagnostics@) == deep(old(diagnostics)@) + goal.take(i as int),
        decreases errors.len() - i,
    {
        let ghost before = diagnostics@;
        let mut message = String::from_str("Preprocessor condition is invalid: ");
        message.append(errors[i].text.as_str());
        let diagnostic = Diagnostic {
            range: errors[i].range,
            message,
            severity: Severity::Error,
            unnecessary: false,
        };
        diagnostics.push(diagnostic);
        proof {
            lemma_deep_push(before, diagnostic);
            assert(goal.take(i + 1) =~= goal.take(i as int).push(diagnostic@));
            assert(deep(before).push(diagnostic@) =~= deep(old(diagnostics)@) + goal.take(i + 1));
        }
        i += 1;
    }
    proof {
        assert(goal.take(errors@.len() as int) =~= goal);
    }
}

} // verus!
