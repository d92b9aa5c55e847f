//! The configuration of one run.

use vstd::prelude::*;

verus! {

/// What the user asked for. It is made once, before anything is resolved, and
/// only read afterwards.
#[derive(Clone, Debug, PartialEq, Eq)]
pub struct Configuration {
    /// Names of variables to hand on untouched, whatever else applies.
    pub pass: Vec<String>,
    /// Where set, only variables whose name begins with it are looked at;
    /// the others are handed on untouched.
    pub env_prefix: Option<String>,
    /// Drop a variable that cannot be resolved rather than give up.
    pub ignore_missing: bool,
    /// The command to launch: the program, then its arguments.
    pub cmd: Vec<String>,
}

/// The mathematical content of a [`Configuration`].
pub struct ConfigurationView {
    pub pass: Seq<Seq<char>>,
    pub env_prefix: Option<Seq<char>>,
    pub ignore_missing: bool,
    pub cmd: Seq<Seq<char>>,
}

impl View for Configuration {
    type V = ConfigurationView;

    open spec fn view(&self) -> ConfigurationView {
        ConfigurationView {
            pass: self.pass.deep_view(),
            env_prefix: self.env_prefix.deep_view(),
            ignore_missing: self.ignore_missing,
            cmd: self.cmd.deep_view(),
        }
    }
}

} // verus!
