//! What applying one rule to one folder came to.

use vstd::prelude::*;
use vstd::string::StringExecFns;
use crate::text::decimal;
use crate::text::decimal_text;
use crate::rules::Rule;
use crate::rules::RuleView;

verus! {

/// The mail-store operation at which a rule failed.
#[derive(Debug, Clone, Copy, PartialEq, Eq)]
pub enum Stage {
    Select,
    Search,
    Move,
}

/// How the application of a rule ended.
#[derive(Debug, PartialEq, Eq)]
pub enum Disposition {
    /// The rule does not carry the requested tag: the mail store was not
    /// asked anything.
    SkippedTagFilter,
    /// The search matched no message.
    SkippedNoMatch,
    /// Messages matched, and were left where they are.
    SkippedDisabled,
    /// The matched messages went to the rule's target.
    Moved,
    /// The mail store failed at `stage`, for the reason it gave.
    Failed { stage: Stage, reason: String },
}

/// What a [`Disposition`] holds, as mathematical values.
pub enum DispositionView {
    SkippedTagFilter,
    SkippedNoMatch,
    SkippedDisabled,
    Moved,
    Failed { stage: Stage, reason: Seq<char> },
}

impl View for Disposition {
    type V = DispositionView;

    open spec fn view(&self) -> DispositionView {
        match *self {
            Disposition::SkippedTagFilter => DispositionView::SkippedTagFilter,
            Disposition::SkippedNoMatch => DispositionView::SkippedNoMatch,
            Disposition::SkippedDisabled => DispositionView::SkippedDisabled,
            Disposition::Moved => DispositionView::Moved,
            Disposition::Failed { stage, reason } => DispositionView::Failed {
                stage,
                reason: reason@,
            },
        }
    }
}

/// The record of one rule applied to one folder.
#[derive(Debug, PartialEq, Eq)]
pub struct TriageOutcome {
    /// The folder the rule was applied to.
    pub folder: String,
    /// The rule.
    pub rule: Rule,
    /// How many messages the search matched; 0 where it never came to one.
    pub matched: usize,
    /// How it ended.
    pub disposition: Disposition,
    /// Why the matched messages could not be inspected, where they could
    /// not. This blocks nothing: the rule went on to its decision.
    pub inspection_error: Option<String>,
}

/// What a [`TriageOutcome`] holds, as mathematical values.
pub struct TriageOutcomeView {
    pub folder: Seq<char>,
    pub rule: RuleView,
    pub matched: nat,
    pub disposition: DispositionView,
    pub inspection_error: Option<Seq<char>>,
}

impl View for TriageOutcome {
    type V = TriageOutcomeView;

    open spec fn view(&self) -> TriageOutcomeView {
        TriageOutcomeView {
            folder: self.folder@,
            rule: self.rule@,
            matched: self.matched as nat,
            disposition: self.disposition@,
            inspection_error: self.inspection_error.deep_view(),
        }
    }
}

impl DeepView for TriageOutcome {
    type V = TriageOutcomeView;

    open spec fn deep_view(&self) -> TriageOutcomeView {
        self@
    }
}

/// The name of a stage, as it is reported.
pub open spec fn stage_name(stage: Stage) -> Seq<char> {
    match stage {
        Stage::Select => "select"@,
        Stage::Search => "search"@,
        Stage::Move => "move"@,
    }
}

impl TriageOutcomeView {
    /// What is said of the outcome; nothing of a rule that was passed over.
    pub open spec fn message(self) -> Option<Seq<char>> {
        match self.disposition {
            DispositionView::SkippedTagFilter => None,
            DispositionView::SkippedNoMatch => Some("nothing to move"@),
            DispositionView::SkippedDisabled => Some(
                "rule disabled, did not process "@ + decimal(self.matched) + " messages"@,
            ),
            DispositionView::Moved => Some("processed "@ + decimal(self.matched) + " messages"@),
            DispositionView::Failed { stage, reason } => Some(
                stage_name(stage) + " failed: "@ + reason,
            ),
        }
    }

    /// What is said of the inspection, where it failed.
    pub open spec fn warning(self) -> Option<Seq<char>> {
        match self.inspection_error {
            Some(reason) => Some("fetch failed: "@ + reason),
            None => None,
        }
    }

    /// The line that reports the outcome: folder, rule, filter and target,
    /// then the message; nothing of a rule that was passed over.
    pub open spec fn report(self) -> Option<Seq<char>> {
        match self.message() {
            Some(message) => Some(
                self.folder + ": "@ + self.rule.label() + ": "@ + self.rule.filter + " -> "@
                    + self.rule.target + ": "@ + message,
            ),
            None => None,
        }
    }
}

impl TriageOutcome {
    /// What is said of the outcome; nothing of a rule that was passed over.
    pub fn message(&self) -> (text: Option<String>)
        ensures
            text.deep_view() == self@.message(),
    {
        match &self.disposition {
            Disposition::SkippedTagFilter => None,
            Disposition::SkippedNoMatch => Some(String::from_str("nothing to move")),
            Disposition::SkippedDisabled => {
                let mut text = String::from_str("rule disabled, did not process ");
                text.append(decimal_text(self.matched as u64).as_str());
                text.append(" messages");
                Some(text)
            },
            Disposition::Moved => {
                let mut text = String::from_str("processed ");
                text.append(decimal_text(self.matched as u64).as_str());
                text.append(" messages");
                Some(text)
            },
            Disposition::Failed { stage, reason } => {
                let mut text = String::from_str(
                    match stage {
                        Stage::Select => "select",
                        Stage::Search => "search",
                        Stage::Move => "move",
                    },
                );
                text.append(" failed: ");
                text.append(reason.as_str());
                Some(text)
            },
        }
    }

    /// What is said of the inspection, where it failed.
    pub fn warning(&self) -> (text: Option<String>)
        ensures
            text.deep_view() == self@.warning(),
    {
        match &self.inspection_error {
            Some(reason) => {
                let mut text = String::from_str("fetch failed: ");
                text.append(reason.as_str());
                Some(text)
            },
            None => None,
        }
    }

    /// The line that reports the outcome: folder, rule, filter and target,
    /// then the message; nothing of a rule that was passed over.
    pub fn report(&self) -> (line: Option<String>)
        ensures
            line.deep_view() == self@.report(),
    {
        match self.message() {
            Some(message) => {
                let mut line = self.folder.clone();
                line.append(": ");
                line.append(self.rule.name_and_tag().as_str());
                line.append(": ");
                line.append(self.rule.filter.as_str());
                line.append(" -> ");
                line.append(self.rule.target.as_str());
                line.append(": ");
                line.append(message.as_str());
                Some(line)
            },
            None => None,
        }
    }
}

} // verus!
