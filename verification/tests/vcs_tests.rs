use cc_quadstat::vcs::{
    count_file_changes, detect_vcs, get_vcs_info, parse_stat_summary, parse_u32, VcsKind,
};

#[test]
fn integer_tokens_parse_exactly() {
    let digits: Vec<char> = "42".chars().collect();
    assert_eq!(parse_u32(&digits), Some(42));
    let signed: Vec<char> = "+42".chars().collect();
    assert_eq!(parse_u32(&signed), Some(42));
    let huge: Vec<char> = "99999999999".chars().collect();
    assert_eq!(parse_u32(&huge), None);
    let empty: Vec<char> = Vec::new();
    assert_eq!(parse_u32(&empty), None);
    let mixed: Vec<char> = "12a".chars().collect();
    assert_eq!(parse_u32(&mixed), None);
}

#[test]
fn file_change_summary_counts_by_status_letter() {
    let input = "A a.txt\nM b.txt\nM c.txt\nD d.txt";
    assert_eq!(count_file_changes(input), "~2+1-1");
}

#[test]
fn file_change_summary_unrecognized_is_empty() {
    assert_eq!(count_file_changes("x one\ny two\n? three"), "");
    assert_eq!(count_file_changes(""), "");
    assert_eq!(count_file_changes("\n\n"), "");
}

#[test]
fn file_change_summary_omits_zero_terms() {
    assert_eq!(count_file_changes("M a\nM b"), "~2");
    assert_eq!(count_file_changes("A a\nA b\nA c"), "+3");
    assert_eq!(count_file_changes("D gone"), "-1");
}

#[test]
fn rename_counts_as_modified() {
    assert_eq!(count_file_changes("R old -> new\nM x"), "~2");
}

#[test]
fn trailing_newline_and_cr_are_tolerated() {
    assert_eq!(count_file_changes("A a.txt\r\nM b.txt\n"), "~1+1");
}

#[test]
fn line_change_summary_reads_both_clauses() {
    let t = "3 files changed, 10 insertions(+), 4 deletions(-)";
    assert_eq!(parse_stat_summary(t), "+10-4");
}

#[test]
fn line_change_summary_omits_missing_terms() {
    assert_eq!(parse_stat_summary("1 file changed, 10 insertions(+)"), "+10");
    assert_eq!(parse_stat_summary("1 file changed, 7 deletions(-)"), "-7");
    assert_eq!(parse_stat_summary(""), "");
    assert_eq!(parse_stat_summary("   \n"), "");
}

#[test]
fn line_change_summary_uses_last_line() {
    let t = "src/a.rs | 5 +++--\n 2 files changed, 3 insertions(+), 2 deletions(-)\n";
    assert_eq!(parse_stat_summary(t), "+3-2");
}

#[test]
fn line_change_summary_ignores_unparsable_numbers() {
    assert_eq!(parse_stat_summary("some insertions(+) happened"), "");
    assert_eq!(parse_stat_summary("nothing of note here"), "");
}

#[test]
fn detection_prefers_jj_over_git() {
    assert_eq!(detect_vcs(true, true), Some(VcsKind::Jj));
    assert_eq!(detect_vcs(false, true), Some(VcsKind::Git));
    assert_eq!(detect_vcs(true, false), Some(VcsKind::Jj));
    assert_eq!(detect_vcs(false, false), None);
}

#[test]
fn no_repository_yields_empty_strings() {
    let (b, fc, lc) = get_vcs_info(None, None, None, None);
    assert_eq!(b, "");
    assert_eq!(fc, "");
    assert_eq!(lc, "");
}

#[test]
fn git_branch_defaults_to_detached() {
    let (b, _, _) = get_vcs_info(Some(VcsKind::Git), None, None, None);
    assert_eq!(b, "detached");
    let (b2, _, _) = get_vcs_info(Some(VcsKind::Git), Some("  \n"), None, None);
    assert_eq!(b2, "detached");
    let (b3, _, _) = get_vcs_info(Some(VcsKind::Git), Some(" main \n"), None, None);
    assert_eq!(b3, "main");
}

#[test]
fn jj_branch_takes_first_line_or_at_sign() {
    let (b, _, _) = get_vcs_info(Some(VcsKind::Jj), Some("trunk\nextra"), None, None);
    assert_eq!(b, "trunk");
    let (b2, _, _) = get_vcs_info(Some(VcsKind::Jj), Some(""), None, None);
    assert_eq!(b2, "@");
    let (b3, _, _) = get_vcs_info(Some(VcsKind::Jj), None, None, None);
    assert_eq!(b3, "@");
}

#[test]
fn vcs_info_parses_both_summaries() {
    let (b, fc, lc) = get_vcs_info(
        Some(VcsKind::Git),
        Some("main\n"),
        Some("M src/lib.rs\nA src/new.rs\n"),
        Some(" 2 files changed, 8 insertions(+), 1 deletion(-)\n"),
    );
    assert_eq!(b, "main");
    assert_eq!(fc, "~1+1");
    assert_eq!(lc, "+8-1");
}
