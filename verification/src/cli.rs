//! The command line as it has been resolved: which survey to run, or the
//! update of the working tree.

use vstd::prelude::*;

verus! {

#[derive(Debug)]
pub struct Cli {
    pub command: Command,
}

#[derive(Debug)]
pub enum Command {
    /// Runs a survey.
    Survey(SurveyArgs),
    /// Updates the extensions repository with the latest changes.
    UpdateRepo,
}

#[derive(Debug)]
pub struct SurveyArgs {
    pub command: SurveyCommand,
}

#[derive(Debug)]
pub enum SurveyCommand {
    /// A survey to find extensions using a particular theme property.
    ThemeProperty {
        /// The name of the theme property to survey: the keys of the sections
        /// that it lies in, innermost first.
        name: Vec<String>,
    },
    /// A survey to find extensions still using the legacy `extension.json` manifest format.
    ExtensionJson,
    /// A survey of the grammars that extensions provide.
    TreeSitterGrammars,
}

} // verus!
