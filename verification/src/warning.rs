//! Conditions that are reported and do not, by themselves, end the run.

use vstd::prelude::*;

verus! {

/// Something the user should hear about.
#[derive(Clone, Debug, PartialEq, Eq)]
pub enum Warning {
    /// `variable` was to be handed on untouched and is not in the environment.
    MissingPassVariable { variable: String },
    /// The secret store gave nothing for `secret_id`, which `variable` asks for.
    SecretResolutionFailed { secret_id: String, variable: String },
    /// `variable` asks for a load method that does not exist.
    UnknownLoadMethod { method: String, variable: String },
}

/// The mathematical content of a [`Warning`].
pub enum WarningView {
    MissingPassVariable { variable: Seq<char> },
    SecretResolutionFailed { secret_id: Seq<char>, variable: Seq<char> },
    UnknownLoadMethod { method: Seq<char>, variable: Seq<char> },
}

impl View for Warning {
    type V = WarningView;

    open spec fn view(&self) -> WarningView {
        match self {
            Warning::MissingPassVariable { variable } => WarningView::MissingPassVariable {
                variable: variable@,
            },
            Warning::SecretResolutionFailed {
                secret_id,
                variable,
            } => WarningView::SecretResolutionFailed { secret_id: secret_id@, variable: variable@ },
            Warning::UnknownLoadMethod { method, variable } => WarningView::UnknownLoadMethod {
                method: method@,
                variable: variable@,
            },
        }
    }
}

impl DeepView for Warning {
    type V = WarningView;

    open spec fn deep_view(&self) -> WarningView {
        self.view()
    }
}

/// The text of a warning.
pub open spec fn message_of(warning: WarningView) -> Seq<char> {
    match warning {
        WarningView::MissingPassVariable { variable } => "Variable "@ + variable
            + " not found in environment - cannot pass through"@,
        WarningView::SecretResolutionFailed { secret_id, variable } => "Failed to load secret "@
            + secret_id + " for variable "@ + variable,
        WarningView::UnknownLoadMethod { method, variable } => "Unknown load method "@ + method
            + " for variable "@ + variable,
    }
}

impl Warning {
    /// The text of this warning, for a log.
    pub fn message(&self) -> (text: String)
        ensures
            text@ == message_of(self@),
    {
        match self {
            Warning::MissingPassVariable { variable } => {
                let mut text = "Variable ".to_owned();
                text.append(variable.as_str());
                text.append(" not found in environment - cannot pass through");
                text
            },
            Warning::SecretResolutionFailed { secret_id, variable } => {
                let mut text = "Failed to load secret ".to_owned();
                text.append(secret_id.as_str());
                text.append(" for variable ");
                text.append(variable.as_str());
                text
            },
            Warning::UnknownLoadMethod { method, variable } => {
                let mut text = "Unknown load method ".to_owned();
                text.append(method.as_str());
                text.append(" for variable ");
                text.append(variable.as_str());
                text
            },
        }
    }
}

} // verus!
