use cc_quadstat::cli::{parse_cli, CliAction};
use cc_quadstat::types::{calculate_context_percent, ContextWindow, HookInput, ModelInfo};

fn hook_with_remaining(remaining: Option<i64>) -> HookInput {
    HookInput {
        session_id: None,
        model: ModelInfo { id: None, display_name: None },
        version: None,
        cwd: None,
        exceeds_200k_tokens: None,
        context_window: Some(ContextWindow {
            context_window_size: None,
            total_input_tokens: None,
            remaining_percentage: remaining,
            current_usage: None,
        }),
    }
}

#[test]
fn context_percent_defaults_to_full() {
    let bare = HookInput {
        session_id: None,
        model: ModelInfo { id: None, display_name: None },
        version: None,
        cwd: None,
        exceeds_200k_tokens: None,
        context_window: None,
    };
    assert_eq!(calculate_context_percent(&bare), 100);
    assert_eq!(calculate_context_percent(&hook_with_remaining(None)), 100);
}

#[test]
fn context_percent_is_clamped() {
    assert_eq!(calculate_context_percent(&hook_with_remaining(Some(75))), 75);
    assert_eq!(calculate_context_percent(&hook_with_remaining(Some(0))), 0);
    assert_eq!(calculate_context_percent(&hook_with_remaining(Some(-3))), 0);
    assert_eq!(calculate_context_percent(&hook_with_remaining(Some(250))), 100);
}

fn args(list: &[&str]) -> Vec<String> {
    list.iter().map(|s| String::from(*s)).collect()
}

#[test]
fn no_arguments_means_render() {
    assert!(matches!(parse_cli(&args(&[])), CliAction::Render));
}

#[test]
fn theme_listing_forms() {
    assert!(matches!(parse_cli(&args(&["--list-themes"])), CliAction::ListThemes));
    assert!(matches!(parse_cli(&args(&["-l"])), CliAction::ListThemes));
}

#[test]
fn set_theme_takes_its_argument() {
    match parse_cli(&args(&["--set-theme", "nord"])) {
        CliAction::SetTheme(name) => assert_eq!(name, "nord"),
        _ => panic!("expected a set-theme action"),
    }
    match parse_cli(&args(&["-t", "gruvbox"])) {
        CliAction::SetTheme(name) => assert_eq!(name, "gruvbox"),
        _ => panic!("expected a set-theme action"),
    }
    assert!(matches!(parse_cli(&args(&["--set-theme"])), CliAction::SetThemeMissingArg));
}

#[test]
fn remaining_forms() {
    assert!(matches!(parse_cli(&args(&["--init"])), CliAction::Init));
    assert!(matches!(parse_cli(&args(&["--help"])), CliAction::Help));
    assert!(matches!(parse_cli(&args(&["-h"])), CliAction::Help));
    match parse_cli(&args(&["--bogus"])) {
        CliAction::Unknown(word) => assert_eq!(word, "--bogus"),
        _ => panic!("expected an unknown-option action"),
    }
}
