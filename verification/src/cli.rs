//! The command-line dispatcher's decision: which action an argument list
//! names. Carrying the action out is the caller's business.

use vstd::prelude::*;
use crate::text::str_eq;

verus! {

/// What an invocation asks for.
pub enum CliAction {
    /// No arguments: read the hook payload and render the status lines.
    Render,
    /// List every theme, marking the active one.
    ListThemes,
    /// Persist the named theme.
    SetTheme(String),
    /// The set-theme form without its required name argument.
    SetThemeMissingArg,
    /// Register the binary in the host application's settings.
    Init,
    /// Print the usage text.
    Help,
    /// Any other first argument.
    Unknown(String),
}

/// Maps an argument list to the action it names, exactly as the usage text
/// documents the forms.
pub fn parse_cli(args: &Vec<String>) -> (r: CliAction)
    ensures
        args@.len() == 0 ==> r is Render,
        args@.len() > 0 ==> {
            let a0 = args@[0]@;
            if a0 == "--list-themes"@ || a0 == "-l"@ {
                r is ListThemes
            } else if a0 == "--set-theme"@ || a0 == "-t"@ {
                if args@.len() < 2 {
                    r is SetThemeMissingArg
                } else {
                    r matches CliAction::SetTheme(name) && name@ == args@[1]@
                }
            } else if a0 == "--init"@ {
                r is Init
            } else if a0 == "--help"@ || a0 == "-h"@ {
                r is Help
            } else {
                r matches CliAction::Unknown(word) && word@ == args@[0]@
            }
        },
{
    if args.len() == 0 {
        return CliAction::Render;
    }
    let a0 = args[0].as_str();
    if str_eq(a0, "--list-themes") || str_eq(a0, "-l") {
        CliAction::ListThemes
    } else if str_eq(a0, "--set-theme") || str_eq(a0, "-t") {
        if args.len() < 2 {
            CliAction::SetThemeMissingArg
        } else {
            CliAction::SetTheme(args[1].clone())
        }
    } else if str_eq(a0, "--init") {
        CliAction::Init
    } else if str_eq(a0, "--help") || str_eq(a0, "-h") {
        CliAction::Help
    } else {
        CliAction::Unknown(args[0].clone())
    }
}

} // verus!
