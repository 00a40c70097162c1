use cc_quadstat::render::{
    effective_width, get_context_colors, render_powerline, render_status_lines,
    resolve_terminal_width, segments_width,
};
use cc_quadstat::theme::find_theme;
use cc_quadstat::types::Segment;

#[test]
fn context_color_partition() {
    let t = find_theme("tokyo-night").unwrap();
    // Good strictly above 50, warn from 21 to 50, bad at or below 20.
    assert_eq!(get_context_colors(&t, 75), (t.ctx_good.fg, t.ctx_good.bg));
    assert_eq!(get_context_colors(&t, 51), (t.ctx_good.fg, t.ctx_good.bg));
    assert_eq!(get_context_colors(&t, 50), (t.ctx_warn.fg, t.ctx_warn.bg));
    assert_eq!(get_context_colors(&t, 35), (t.ctx_warn.fg, t.ctx_warn.bg));
    assert_eq!(get_context_colors(&t, 21), (t.ctx_warn.fg, t.ctx_warn.bg));
    assert_eq!(get_context_colors(&t, 20), (t.ctx_bad.fg, t.ctx_bad.bg));
    assert_eq!(get_context_colors(&t, 10), (t.ctx_bad.fg, t.ctx_bad.bg));
    assert_eq!(get_context_colors(&t, 0), (t.ctx_bad.fg, t.ctx_bad.bg));
}

#[test]
fn powerline_single_segment() {
    let segs = vec![Segment { text: String::from(" hi "), fg: 1, bg: 2 }];
    let line = render_powerline(&segs);
    assert_eq!(
        line,
        "\u{1b}[38;5;1m\u{1b}[48;5;2m\u{1b}[1m hi \u{1b}[0m\u{1b}[38;5;2m\u{e0b0}\u{1b}[0m"
    );
}

#[test]
fn powerline_separator_bridges_backgrounds() {
    let segs = vec![
        Segment { text: String::from(" a "), fg: 1, bg: 2 },
        Segment { text: String::from(" b "), fg: 3, bg: 4 },
    ];
    let line = render_powerline(&segs);
    let expected = String::new()
        + "\u{1b}[38;5;1m\u{1b}[48;5;2m\u{1b}[1m a \u{1b}[0m"
        + "\u{1b}[38;5;2m\u{1b}[48;5;4m\u{e0b0}\u{1b}[0m"
        + "\u{1b}[38;5;3m\u{1b}[48;5;4m\u{1b}[1m b \u{1b}[0m"
        + "\u{1b}[38;5;4m\u{e0b0}\u{1b}[0m";
    assert_eq!(line, expected);
}

#[test]
fn widths_count_text_plus_one_per_segment() {
    let segs = vec![
        Segment { text: String::from(" a "), fg: 1, bg: 2 },
        Segment { text: String::from(" \u{1f9e0} "), fg: 3, bg: 4 },
    ];
    // 3 + 1 and (2 + 2) + 1.
    assert_eq!(segments_width(&segs), 9);
}

#[test]
fn effective_width_reserves_forty_columns() {
    assert_eq!(effective_width(120), 80);
    assert_eq!(effective_width(81), 41);
    assert_eq!(effective_width(80), 40);
    assert_eq!(effective_width(0), 40);
    assert_eq!(resolve_terminal_width(Some(132)), 132);
    assert_eq!(resolve_terminal_width(None), 80);
}

#[test]
fn ladder_keeps_shortened_branch_segment() {
    let t = find_theme("tokyo-night").unwrap();
    let branch = "feature/very-long-branch-name-here"; // 34 ASCII characters
    // Base segments " . " and " v? " cost 9 columns. The full branch segment
    // (" ⎋ <34> ~2 +10-4 " = 47 wide, plus its separator) pushes the line to
    // 57; without the line-change summary it is 41 + 1, line total 51.
    // A 91-column terminal gives 51 usable: only the shortened form fits.
    let (line1, _line2) = render_status_lines(&t, ".", "?", 75, branch, "~2", "+10-4", 0, 0, 91);
    let expected_branch = Segment {
        text: format!(" \u{238b} {} ~2 ", branch),
        fg: t.branch.fg,
        bg: t.branch.bg,
    };
    let expected = render_powerline(&[
        Segment { text: String::from(" . "), fg: t.model.fg, bg: t.model.bg },
        Segment { text: String::from(" v? "), fg: t.version.fg, bg: t.version.bg },
        expected_branch,
    ]);
    assert_eq!(line1, expected);
    assert!(!line1.contains("+10-4"));
}

#[test]
fn ladder_keeps_full_branch_segment_when_it_fits() {
    let t = find_theme("tokyo-night").unwrap();
    let (line1, _) = render_status_lines(&t, ".", "?", 75, "main", "~2", "+10-4", 0, 0, 200);
    assert!(line1.contains(" \u{238b} main ~2 +10-4 "));
}

#[test]
fn ladder_drops_branch_segment_when_nothing_fits() {
    let t = find_theme("tokyo-night").unwrap();
    let long = "a".repeat(60);
    let (line1, _) = render_status_lines(&t, ".", "?", 75, long.as_str(), "", "", 0, 0, 80);
    let expected = render_powerline(&[
        Segment { text: String::from(" . "), fg: t.model.fg, bg: t.model.bg },
        Segment { text: String::from(" v? "), fg: t.version.fg, bg: t.version.bg },
    ]);
    assert_eq!(line1, expected);
}

#[test]
fn end_to_end_render_without_repository() {
    // A payload naming only a remaining percentage of 75, an empty cwd and no
    // repository: line one shows the directory and the version placeholder,
    // line two shows the context percentage in the good colors, no branch.
    let t = find_theme("tokyo-night").unwrap();
    let (line1, line2) = render_status_lines(&t, ".", "?", 75, "", "", "", 0, 0, 80);
    let expected1 = render_powerline(&[
        Segment { text: String::from(" . "), fg: t.model.fg, bg: t.model.bg },
        Segment { text: String::from(" v? "), fg: t.version.fg, bg: t.version.bg },
    ]);
    assert_eq!(line1, expected1);
    assert_eq!(
        line2,
        "\u{1b}[38;5;0m\u{1b}[48;5;78m\u{1b}[1m \u{1f9e0} 75% \u{1b}[0m\u{1b}[38;5;78m\u{e0b0}\u{1b}[0m"
    );
    assert!(!line2.contains("\u{1f4ca}"));
}

#[test]
fn token_segment_appears_when_counts_are_positive() {
    let t = find_theme("tokyo-night").unwrap();
    let (_, line2) = render_status_lines(&t, ".", "?", 75, "", "", "", 170_000, 200_000, 200);
    assert!(line2.contains(" \u{1f4ca} 170k/200k "));
}
