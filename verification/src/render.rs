//! The rendering engine: ANSI escape construction, powerline segment
//! composition, and the width-aware layout ladder.

use vstd::prelude::*;
use crate::types::{ColorPair, Segment, SegmentView, Theme};
use crate::text::{
    chars_to_string, dec_of, min_nat, push_dec_u64, push_str_chars, str_width, visible_length,
};

verus! {

/// The SGR foreground escape for an 8-bit palette color.
pub open spec fn spec_fg256(code: int) -> Seq<char> {
    "\x1b[38;5;"@ + dec_of(code) + "m"@
}

/// The SGR background escape for an 8-bit palette color.
pub open spec fn spec_bg256(code: int) -> Seq<char> {
    "\x1b[48;5;"@ + dec_of(code) + "m"@
}

pub open spec fn spec_bold() -> Seq<char> {
    "\x1b[1m"@
}

pub open spec fn spec_reset() -> Seq<char> {
    "\x1b[0m"@
}

/// The powerline separator glyph (a private-use codepoint).
pub open spec fn spec_sep() -> Seq<char> {
    "\u{e0b0}"@
}

fn push_fg256(out: &mut Vec<char>, code: u8)
    ensures
        final(out)@ == old(out)@ + spec_fg256(code as int),
{
    push_str_chars(out, "\x1b[38;5;");
    push_dec_u64(out, code as u64);
    push_str_chars(out, "m");
    proof {
        assert(final(out)@ =~= old(out)@ + spec_fg256(code as int));
    }
}

fn push_bg256(out: &mut Vec<char>, code: u8)
    ensures
        final(out)@ == old(out)@ + spec_bg256(code as int),
{
    push_str_chars(out, "\x1b[48;5;");
    push_dec_u64(out, code as u64);
    push_str_chars(out, "m");
    proof {
        assert(final(out)@ =~= old(out)@ + spec_bg256(code as int));
    }
}

/// The SGR foreground escape for an 8-bit palette color.
pub fn fg256(code: u8) -> (r: String)
    ensures
        r@ == spec_fg256(code as int),
{
    let mut v: Vec<char> = Vec::new();
    push_fg256(&mut v, code);
    proof {
        assert(v@ =~= spec_fg256(code as int));
    }
    chars_to_string(&v)
}

/// The SGR background escape for an 8-bit palette color.
pub fn bg256(code: u8) -> (r: String)
    ensures
        r@ == spec_bg256(code as int),
{
    let mut v: Vec<char> = Vec::new();
    push_bg256(&mut v, code);
    proof {
        assert(v@ =~= spec_bg256(code as int));
    }
    chars_to_string(&v)
}

/// The views of a sequence of segments.
pub open spec fn seg_views(s: Seq<Segment>) -> Seq<SegmentView> {
    s.map_values(|x: Segment| x@)
}

/// The styled body of one segment: foreground, background, bold, the text,
/// then a reset.
pub open spec fn spec_segment_body(s: SegmentView) -> Seq<char> {
    spec_fg256(s.fg as int) + spec_bg256(s.bg as int) + spec_bold() + s.text + spec_reset()
}

/// The separator after a segment: its own background as foreground, over the
/// next segment's background, or over the terminal default after the last
/// segment; always followed by a reset.
pub open spec fn spec_sep_after(s: SegmentView, next_bg: Option<u8>) -> Seq<char> {
    match next_bg {
        Some(b) => spec_fg256(s.bg as int) + spec_bg256(b as int) + spec_sep() + spec_reset(),
        None => spec_fg256(s.bg as int) + spec_sep() + spec_reset(),
    }
}

pub open spec fn spec_render_powerline_from(segs: Seq<SegmentView>, i: int) -> Seq<char>
    decreases segs.len() - i,
{
    if i < 0 || i >= segs.len() {
        Seq::empty()
    } else {
        spec_segment_body(segs[i]) + spec_sep_after(
            segs[i],
            if i + 1 < segs.len() {
                Some(segs[i + 1].bg)
            } else {
                None
            },
        ) + spec_render_powerline_from(segs, i + 1)
    }
}

/// One rendered line: every segment's styled body followed by its separator.
pub open spec fn spec_render_powerline(segs: Seq<SegmentView>) -> Seq<char> {
    spec_render_powerline_from(segs, 0)
}

fn push_segment(out: &mut Vec<char>, seg: &Segment, next_bg: Option<u8>)
    ensures
        final(out)@ == old(out)@ + spec_segment_body(seg@) + spec_sep_after(seg@, next_bg),
{
    push_fg256(out, seg.fg);
    push_bg256(out, seg.bg);
    push_str_chars(out, "\x1b[1m");
    push_str_chars(out, seg.text.as_str());
    push_str_chars(out, "\x1b[0m");
    push_fg256(out, seg.bg);
    match next_bg {
        Some(b) => {
            push_bg256(out, b);
        },
        None => {},
    }
    push_str_chars(out, "\u{e0b0}");
    push_str_chars(out, "\x1b[0m");
    proof {
        assert(final(out)@ =~= old(out)@ + spec_segment_body(seg@) + spec_sep_after(
            seg@,
            next_bg,
        ));
    }
}

/// Renders the segments of one line into the final escape-laced string.
pub fn render_powerline(segments: &[Segment]) -> (r: String)
    ensures
        r@ == spec_render_powerline(seg_views(segments@)),
{
    let ghost views = seg_views(segments@);
    let mut out: Vec<char> = Vec::new();
    let n = segments.len();
    let mut i: usize = 0;
    while i < n
        invariant
            n == segments@.len(),
            views == seg_views(segments@),
            i <= n,
            spec_render_powerline(views) == out@ + spec_render_powerline_from(views, i as int),
        decreases n - i,
    {
        let next_bg: Option<u8> = if i + 1 < n {
            Some(segments[i + 1].bg)
        } else {
            None
        };
        proof {
            assert(views[i as int] == segments@[i as int]@);
            if i + 1 < n {
                assert(views[i as int + 1] == segments@[i as int + 1]@);
            }
        }
        push_segment(&mut out, &segments[i], next_bg);
        proof {
            assert(spec_render_powerline(views) =~= out@ + spec_render_powerline_from(
                views,
                i as int + 1,
            ));
        }
        i = i + 1;
    }
    proof {
        assert(spec_render_powerline(views) =~= out@);
    }
    chars_to_string(&out)
}

/// The color pair for the context segment: strictly above 50 percent the
/// "good" role, from 21 to 50 the "warn" role, at or below 20 the "bad" role.
pub open spec fn spec_context_colors(t: Theme, percent: int) -> ColorPair {
    if percent > 50 {
        t.ctx_good
    } else if percent > 20 {
        t.ctx_warn
    } else {
        t.ctx_bad
    }
}

/// The (foreground, background) pair for the context segment.
pub fn get_context_colors(t: &Theme, percent: i32) -> (r: (u8, u8))
    ensures
        r.0 == spec_context_colors(*t, percent as int).fg,
        r.1 == spec_context_colors(*t, percent as int).bg,
{
    if percent > 50 {
        (t.ctx_good.fg, t.ctx_good.bg)
    } else if percent > 20 {
        (t.ctx_warn.fg, t.ctx_warn.bg)
    } else {
        (t.ctx_bad.fg, t.ctx_bad.bg)
    }
}

/// The decimal representation of a possibly negative integer.
pub open spec fn spec_dec_i64(n: int) -> Seq<char> {
    if n < 0 {
        "-"@ + dec_of(-n)
    } else {
        dec_of(n)
    }
}

fn push_dec_i64(out: &mut Vec<char>, n: i64)
    ensures
        final(out)@ == old(out)@ + spec_dec_i64(n as int),
{
    if n < 0 {
        push_str_chars(out, "-");
        let m: u64 = ((-(n + 1)) as u64) + 1;
        proof {
            assert(m as int == -(n as int));
        }
        push_dec_u64(out, m);
        proof {
            assert(final(out)@ =~= old(out)@ + spec_dec_i64(n as int));
        }
    } else {
        push_dec_u64(out, n as u64);
    }
}

/// Abbreviated token counts: truncated integer millions with "M" from one
/// million up, truncated integer thousands with "k" from one thousand up,
/// the literal integer below that.
pub open spec fn spec_format_tokens(n: int) -> Seq<char> {
    if n >= 1000000 {
        dec_of(n / 1000000) + "M"@
    } else if n >= 1000 {
        dec_of(n / 1000) + "k"@
    } else {
        spec_dec_i64(n)
    }
}

/// Formats a token count in its abbreviated form.
pub fn format_tokens(n: i64) -> (r: String)
    ensures
        r@ == spec_format_tokens(n as int),
{
    let mut v: Vec<char> = Vec::new();
    if n >= 1000000 {
        push_dec_u64(&mut v, (n as u64) / 1000000);
        push_str_chars(&mut v, "M");
        proof {
            assert((n as u64 / 1000000) as int == n as int / 1000000);
            assert(v@ =~= spec_format_tokens(n as int));
        }
    } else if n >= 1000 {
        push_dec_u64(&mut v, (n as u64) / 1000);
        push_str_chars(&mut v, "k");
        proof {
            assert((n as u64 / 1000) as int == n as int / 1000);
            assert(v@ =~= spec_format_tokens(n as int));
        }
    } else {
        push_dec_i64(&mut v, n);
        proof {
            assert(v@ =~= spec_format_tokens(n as int));
        }
    }
    chars_to_string(&v)
}

/// The visible width of a line of segments: each segment's text width plus
/// one cell per segment for its separator glyph.
pub open spec fn spec_segments_width(segs: Seq<SegmentView>) -> nat
    decreases segs.len(),
{
    if segs.len() == 0 {
        0
    } else {
        spec_segments_width(segs.drop_last()) + str_width(segs.last().text) + 1
    }
}

fn sat_add(a: usize, b: usize) -> (r: usize)
    ensures
        r as nat == min_nat(a as nat + b as nat, usize::MAX as nat),
{
    if a > usize::MAX - b {
        usize::MAX
    } else {
        a + b
    }
}

proof fn lemma_sat_add_min(b: nat, c: nat, m: nat)
    ensures
        min_nat(min_nat(b, m) + min_nat(c, m), m) == min_nat(b + c, m),
{
}

/// The visible width of a line of segments, saturating at `usize::MAX`.
pub fn segments_width(segs: &[Segment]) -> (r: usize)
    ensures
        r as nat == min_nat(spec_segments_width(seg_views(segs@)), usize::MAX as nat),
{
    let ghost views = seg_views(segs@);
    let n = segs.len();
    let mut width: usize = 0;
    let mut i: usize = 0;
    while i < n
        invariant
            n == segs@.len(),
            views == seg_views(segs@),
            i <= n,
            width as nat == min_nat(spec_segments_width(views.take(i as int)), usize::MAX as nat),
        decreases n - i,
    {
        let w = visible_length(segs[i].text.as_str());
        proof {
            assert(views[i as int] == segs@[i as int]@);
            assert(views.take(i as int + 1).drop_last() =~= views.take(i as int));
            assert(views.take(i as int + 1).last() == views[i as int]);
            lemma_sat_add_min(
                spec_segments_width(views.take(i as int)),
                str_width(views[i as int].text),
                usize::MAX as nat,
            );
        }
        let partial = sat_add(width, w);
        width = sat_add(partial, 1);
        i = i + 1;
    }
    proof {
        assert(views.take(n as int) =~= views);
    }
    width
}

/// The usable columns for a terminal of the given width: 40 columns are
/// reserved for surrounding chrome, with a floor of 40 usable columns.
pub open spec fn spec_effective_width(term: int) -> int {
    if term > 80 {
        term - 40
    } else {
        40
    }
}

/// The usable column budget for one line.
pub fn effective_width(term_width: usize) -> (r: usize)
    ensures
        r as int == spec_effective_width(term_width as int),
        40 <= r <= usize::MAX - 40,
{
    if term_width > 80 {
        term_width - 40
    } else {
        40
    }
}

/// Relies on `terminal_size::terminal_size`: the current terminal's column
/// count, or `None` when standard output is not attached to a terminal. The
/// answer depends on the environment, so nothing is promised of its value.
#[verifier::external_body]
fn probe_terminal_width() -> Option<u16> {
    terminal_size::terminal_size().map(|(w, _)| w.0)
}

/// The column count a probe answer stands for: the probed value, or the
/// documented fallback of 80 columns when the probe failed.
pub fn resolve_terminal_width(probe: Option<u16>) -> (r: usize)
    ensures
        r as int == match probe {
            Some(w) => w as int,
            None => 80,
        },
{
    match probe {
        Some(w) => w as usize,
        None => 80,
    }
}

/// The terminal's current column count, falling back to 80 columns whenever
/// it cannot be determined.
pub fn get_terminal_width() -> (r: usize)
    ensures
        r <= 65535,
{
    resolve_terminal_width(probe_terminal_width())
}

pub open spec fn spec_seg(text: Seq<char>, c: ColorPair) -> SegmentView {
    SegmentView { text, fg: c.fg, bg: c.bg }
}

/// The text of the first mandatory segment: the padded model or directory
/// label.
pub open spec fn spec_model_text(model: Seq<char>) -> Seq<char> {
    " "@ + model + " "@
}

/// The text of the version segment.
pub open spec fn spec_version_text(version: Seq<char>) -> Seq<char> {
    " v"@ + version + " "@
}

/// The text of a branch segment: the branch marker glyph and name, followed
/// by whichever of the two change summaries this ladder level keeps.
pub open spec fn spec_branch_text(branch: Seq<char>, fc: Seq<char>, lc: Seq<char>) -> Seq<char> {
    " \u{238b} "@ + branch + (if fc.len() > 0 {
        " "@ + fc
    } else {
        Seq::<char>::empty()
    }) + (if lc.len() > 0 {
        " "@ + lc
    } else {
        Seq::<char>::empty()
    }) + " "@
}

/// The text of the context segment.
pub open spec fn spec_ctx_text(percent: int) -> Seq<char> {
    " \u{1f9e0} "@ + spec_dec_i64(percent) + "% "@
}

/// The text of the token-usage segment.
pub open spec fn spec_tokens_text(total: int, size: int) -> Seq<char> {
    " \u{1f4ca} "@ + spec_format_tokens(total) + "/"@ + spec_format_tokens(size) + " "@
}

fn model_text(model: &str) -> (r: String)
    ensures
        r@ == spec_model_text(model@),
{
    let mut v: Vec<char> = Vec::new();
    push_str_chars(&mut v, " ");
    push_str_chars(&mut v, model);
    push_str_chars(&mut v, " ");
    proof {
        assert(v@ =~= spec_model_text(model@));
    }
    chars_to_string(&v)
}

fn version_text(version: &str) -> (r: String)
    ensures
        r@ == spec_version_text(version@),
{
    let mut v: Vec<char> = Vec::new();
    push_str_chars(&mut v, " v");
    push_str_chars(&mut v, version);
    push_str_chars(&mut v, " ");
    proof {
        assert(v@ =~= spec_version_text(version@));
    }
    chars_to_string(&v)
}

fn branch_text(branch: &str, fc: &str, lc: &str) -> (r: String)
    ensures
        r@ == spec_branch_text(branch@, fc@, lc@),
{
    let mut v: Vec<char> = Vec::new();
    push_str_chars(&mut v, " \u{238b} ");
    push_str_chars(&mut v, branch);
    if !fc.is_empty() {
        push_str_chars(&mut v, " ");
        push_str_chars(&mut v, fc);
    }
    if !lc.is_empty() {
        push_str_chars(&mut v, " ");
        push_str_chars(&mut v, lc);
    }
    push_str_chars(&mut v, " ");
    proof {
        assert(v@ =~= spec_branch_text(branch@, fc@, lc@));
    }
    chars_to_string(&v)
}

fn ctx_text(percent: i32) -> (r: String)
    ensures
        r@ == spec_ctx_text(percent as int),
{
    let mut v: Vec<char> = Vec::new();
    push_str_chars(&mut v, " \u{1f9e0} ");
    push_dec_i64(&mut v, percent as i64);
    push_str_chars(&mut v, "% ");
    proof {
        assert(v@ =~= spec_ctx_text(percent as int));
    }
    chars_to_string(&v)
}

fn tokens_text(total: i64, size: i64) -> (r: String)
    ensures
        r@ == spec_tokens_text(total as int, size as int),
{
    let mut v: Vec<char> = Vec::new();
    push_str_chars(&mut v, " \u{1f4ca} ");
    let t = format_tokens(total);
    push_str_chars(&mut v, t.as_str());
    push_str_chars(&mut v, "/");
    let s = format_tokens(size);
    push_str_chars(&mut v, s.as_str());
    push_str_chars(&mut v, " ");
    proof {
        assert(v@ =~= spec_tokens_text(total as int, size as int));
    }
    chars_to_string(&v)
}

/// The two mandatory segments that every first line starts with.
pub open spec fn spec_line1_base(t: Theme, model: Seq<char>, version: Seq<char>) -> Seq<
    SegmentView,
> {
    seq![
        spec_seg(spec_model_text(model), t.model),
        spec_seg(spec_version_text(version), t.version),
    ]
}

/// The segments of the first line: the mandatory pair, then the branch
/// segment at the widest ladder level that fits within `eff` — the full text,
/// then without line-changes, then the branch name alone — or no branch
/// segment at all. An empty branch name means no repository was found.
pub open spec fn spec_line1(
    t: Theme,
    model: Seq<char>,
    version: Seq<char>,
    branch: Seq<char>,
    fc: Seq<char>,
    lc: Seq<char>,
    eff: int,
) -> Seq<SegmentView> {
    let base = spec_line1_base(t, model, version);
    if branch.len() == 0 {
        base
    } else {
        let full = spec_seg(spec_branch_text(branch, fc, lc), t.branch);
        let mid = spec_seg(spec_branch_text(branch, fc, Seq::empty()), t.branch);
        let short = spec_seg(spec_branch_text(branch, Seq::empty(), Seq::empty()), t.branch);
        if spec_segments_width(base.push(full)) <= eff {
            base.push(full)
        } else if lc.len() > 0 && spec_segments_width(base.push(mid)) <= eff {
            base.push(mid)
        } else if fc.len() > 0 && spec_segments_width(base.push(short)) <= eff {
            base.push(short)
        } else {
            base
        }
    }
}

/// The segments of the second line: the context segment, then the token
/// usage when both counts are positive and it fits within `eff`.
pub open spec fn spec_line2(t: Theme, percent: int, total: int, size: int, eff: int) -> Seq<
    SegmentView,
> {
    let base = seq![spec_seg(spec_ctx_text(percent), spec_context_colors(t, percent))];
    if total > 0 && size > 0 {
        let tok = spec_seg(spec_tokens_text(total, size), t.version);
        if spec_segments_width(base.push(tok)) <= eff {
            base.push(tok)
        } else {
            base
        }
    } else {
        base
    }
}

/// The full rendered output for one invocation: both lines, laid out for the
/// given terminal width.
pub open spec fn spec_status_lines(
    t: Theme,
    model: Seq<char>,
    version: Seq<char>,
    percent: int,
    branch: Seq<char>,
    fc: Seq<char>,
    lc: Seq<char>,
    total: int,
    size: int,
    term: int,
) -> (Seq<char>, Seq<char>) {
    let eff = spec_effective_width(term);
    (
        spec_render_powerline(spec_line1(t, model, version, branch, fc, lc, eff)),
        spec_render_powerline(spec_line2(t, percent, total, size, eff)),
    )
}

/// Appends `cand` to the line exactly when the line would still fit in `eff`
/// visible columns.
fn try_push_segment(line: &mut Vec<Segment>, base_w: usize, cand: Segment, eff: usize) -> (pushed:
    bool)
    requires
        eff < usize::MAX,
        base_w as nat == min_nat(
            spec_segments_width(seg_views(old(line)@)),
            usize::MAX as nat,
        ),
    ensures
        pushed == (spec_segments_width(seg_views(old(line)@).push(cand@)) <= eff),
        pushed ==> final(line)@ == old(line)@.push(cand),
        !pushed ==> final(line)@ == old(line)@,
{
    let w = visible_length(cand.text.as_str());
    proof {
        let views = seg_views(line@);
        assert(views.push(cand@).drop_last() =~= views);
        assert(views.push(cand@).last() == cand@);
        lemma_sat_add_min(spec_segments_width(views), str_width(cand@.text), usize::MAX as nat);
        lemma_sat_add_min(
            spec_segments_width(views) + str_width(cand@.text),
            1,
            usize::MAX as nat,
        );
    }
    let partial = sat_add(base_w, w);
    let total = sat_add(partial, 1);
    if total <= eff {
        line.push(cand);
        true
    } else {
        false
    }
}

/// Renders the two status lines from the resolved theme, the session values,
/// the version-control summary and the terminal width. Never fails: a
/// segment that cannot fit is left out, never truncated.
pub fn render_status_lines(
    t: &Theme,
    model: &str,
    version: &str,
    context_percent: i32,
    branch: &str,
    file_changes: &str,
    line_changes: &str,
    total_tokens: i64,
    context_window_size: i64,
    term_width: usize,
) -> (r: (String, String))
    ensures
        r.0@ == spec_status_lines(
            *t,
            model@,
            version@,
            context_percent as int,
            branch@,
            file_changes@,
            line_changes@,
            total_tokens as int,
            context_window_size as int,
            term_width as int,
        ).0,
        r.1@ == spec_status_lines(
            *t,
            model@,
            version@,
            context_percent as int,
            branch@,
            file_changes@,
            line_changes@,
            total_tokens as int,
            context_window_size as int,
            term_width as int,
        ).1,
{
    let eff = effective_width(term_width);
    proof {
        reveal_strlit("");
        assert(""@ =~= Seq::<char>::empty());
    }

    let mut line1: Vec<Segment> = Vec::new();
    line1.push(Segment { text: model_text(model), fg: t.model.fg, bg: t.model.bg });
    line1.push(Segment { text: version_text(version), fg: t.version.fg, bg: t.version.bg });
    proof {
        assert(seg_views(line1@) =~= spec_line1_base(*t, model@, version@));
    }
    let ghost base1 = seg_views(line1@);

    if !branch.is_empty() {
        let base_w = segments_width(line1.as_slice());
        let full = Segment {
            text: branch_text(branch, file_changes, line_changes),
            fg: t.branch.fg,
            bg: t.branch.bg,
        };
        proof {
            assert(full@ == spec_seg(spec_branch_text(branch@, file_changes@, line_changes@), t.branch));
        }
        let pushed_full = try_push_segment(&mut line1, base_w, full, eff);
        if !pushed_full {
            let mut pushed_mid = false;
            if !line_changes.is_empty() {
                let mid = Segment {
                    text: branch_text(branch, file_changes, ""),
                    fg: t.branch.fg,
                    bg: t.branch.bg,
                };
                proof {
                    assert(mid@ == spec_seg(
                        spec_branch_text(branch@, file_changes@, Seq::empty()),
                        t.branch,
                    ));
                }
                pushed_mid = try_push_segment(&mut line1, base_w, mid, eff);
            }
            if !pushed_mid && !file_changes.is_empty() {
                let short = Segment {
                    text: branch_text(branch, "", ""),
                    fg: t.branch.fg,
                    bg: t.branch.bg,
                };
                proof {
                    assert(short@ == spec_seg(
                        spec_branch_text(branch@, Seq::empty(), Seq::empty()),
                        t.branch,
                    ));
                }
                let pushed_short = try_push_segment(&mut line1, base_w, short, eff);
                proof {
                    if !pushed_short {
                        assert(seg_views(line1@) =~= base1);
                    } else {
                        assert(seg_views(line1@) =~= base1.push(
                            spec_seg(spec_branch_text(branch@, Seq::empty(), Seq::empty()), t.branch),
                        ));
                    }
                }
            } else {
                proof {
                    if pushed_mid {
                        assert(seg_views(line1@) =~= base1.push(
                            spec_seg(spec_branch_text(branch@, file_changes@, Seq::empty()), t.branch),
                        ));
                    } else {
                        assert(seg_views(line1@) =~= base1);
                    }
                }
            }
        } else {
            proof {
                assert(seg_views(line1@) =~= base1.push(
                    spec_seg(spec_branch_text(branch@, file_changes@, line_changes@), t.branch),
                ));
            }
        }
    }
    proof {
        assert(seg_views(line1@) == spec_line1(
            *t,
            model@,
            version@,
            branch@,
            file_changes@,
            line_changes@,
            spec_effective_width(term_width as int),
        ));
    }
    let line1_str = render_powerline(line1.as_slice());

    let (ctx_fg, ctx_bg) = get_context_colors(t, context_percent);
    let mut line2: Vec<Segment> = Vec::new();
    line2.push(Segment { text: ctx_text(context_percent), fg: ctx_fg, bg: ctx_bg });
    proof {
        assert(seg_views(line2@) =~= seq![
            spec_seg(
                spec_ctx_text(context_percent as int),
                spec_context_colors(*t, context_percent as int),
            ),
        ]);
    }
    let ghost base2 = seg_views(line2@);
    if total_tokens > 0 && context_window_size > 0 {
        let base_w2 = segments_width(line2.as_slice());
        let tok = Segment {
            text: tokens_text(total_tokens, context_window_size),
            fg: t.version.fg,
            bg: t.version.bg,
        };
        proof {
            assert(tok@ == spec_seg(
                spec_tokens_text(total_tokens as int, context_window_size as int),
                t.version,
            ));
        }
        let pushed_tok = try_push_segment(&mut line2, base_w2, tok, eff);
        proof {
            if pushed_tok {
                assert(seg_views(line2@) =~= base2.push(
                    spec_seg(
                        spec_tokens_text(total_tokens as int, context_window_size as int),
                        t.version,
                    ),
                ));
            } else {
                assert(seg_views(line2@) =~= base2);
            }
        }
    }
    proof {
        assert(seg_views(line2@) == spec_line2(
            *t,
            context_percent as int,
            total_tokens as int,
            context_window_size as int,
            spec_effective_width(term_width as int),
        ));
    }
    let line2_str = render_powerline(line2.as_slice());

    (line1_str, line2_str)
}

/// The semantic role the context percentage selects, ordered for comparison:
/// 0 for "bad", 1 for "warn", 2 for "good".
pub open spec fn spec_context_role(percent: int) -> int {
    if percent > 50 {
        2
    } else if percent > 20 {
        1
    } else {
        0
    }
}

/// Law: the context color is a pure function of theme and percentage, and
/// the selected role is monotonic in the percentage — more remaining context
/// never selects a worse role.
pub proof fn lemma_context_role_monotonic(t: Theme, lower: int, higher: int)
    requires
        lower <= higher,
    ensures
        spec_context_role(lower) <= spec_context_role(higher),
        spec_context_colors(t, lower) == (if spec_context_role(lower) == 2 {
            t.ctx_good
        } else if spec_context_role(lower) == 1 {
            t.ctx_warn
        } else {
            t.ctx_bad
        }),
{
}

/// Whether `suffix` closes the string `s`.
pub open spec fn ends_with(s: Seq<char>, suffix: Seq<char>) -> bool {
    s.len() >= suffix.len() && s.subrange(s.len() - suffix.len(), s.len() as int) == suffix
}

proof fn lemma_ends_with_concat(a: Seq<char>, b: Seq<char>, t: Seq<char>)
    requires
        ends_with(b, t),
    ensures
        ends_with(a + b, t),
{
    assert((a + b).subrange((a + b).len() - t.len(), (a + b).len() as int) =~= b.subrange(
        b.len() - t.len(),
        b.len() as int,
    ));
}

proof fn lemma_render_from_ends_with_reset(segs: Seq<SegmentView>, i: int)
    requires
        0 <= i < segs.len(),
    ensures
        ends_with(spec_render_powerline_from(segs, i), spec_reset()),
    decreases segs.len() - i,
{
    let body = spec_segment_body(segs[i]);
    let sep = spec_sep_after(
        segs[i],
        if i + 1 < segs.len() {
            Some(segs[i + 1].bg)
        } else {
            None
        },
    );
    if i + 1 < segs.len() {
        lemma_render_from_ends_with_reset(segs, i + 1);
        lemma_ends_with_concat(body + sep, spec_render_powerline_from(segs, i + 1), spec_reset());
    } else {
        let r = spec_reset();
        assert(r.subrange(0, r.len() as int) =~= r);
        assert(ends_with(r, r));
        lemma_ends_with_concat(spec_fg256(segs[i].bg as int) + spec_sep(), r, r);
        assert(ends_with(sep, r));
        lemma_ends_with_concat(body, sep, r);
        assert(spec_render_powerline_from(segs, i + 1) =~= Seq::<char>::empty());
        assert(spec_render_powerline_from(segs, i) =~= body + sep);
    }
}

/// Law: a rendered line of at least one segment always closes with the reset
/// escape — no styling leaks past its end.
pub proof fn lemma_render_ends_with_reset(segs: Seq<SegmentView>)
    requires
        segs.len() > 0,
    ensures
        ends_with(spec_render_powerline(segs), spec_reset()),
{
    lemma_render_from_ends_with_reset(segs, 0);
}

/// Law: the first line is the two mandatory segments either alone or with
/// exactly one appended branch segment that fits the budget; an addition
/// never disturbs what was already accepted.
pub proof fn lemma_line1_within_budget(
    t: Theme,
    model: Seq<char>,
    version: Seq<char>,
    branch: Seq<char>,
    fc: Seq<char>,
    lc: Seq<char>,
    eff: int,
)
    ensures
        ({
            let base = spec_line1_base(t, model, version);
            let line = spec_line1(t, model, version, branch, fc, lc, eff);
            line == base || (line.len() == 3 && line.take(2) == base && spec_segments_width(line)
                <= eff)
        }),
{
    let base = spec_line1_base(t, model, version);
    let line = spec_line1(t, model, version, branch, fc, lc, eff);
    if line != base {
        assert(line.take(2) =~= base);
    }
}

/// Law: the second line is the context segment either alone or with the
/// token segment appended only when it fits the budget.
pub proof fn lemma_line2_within_budget(t: Theme, percent: int, total: int, size: int, eff: int)
    ensures
        ({
            let base = seq![spec_seg(spec_ctx_text(percent), spec_context_colors(t, percent))];
            let line = spec_line2(t, percent, total, size, eff);
            line == base || (line.len() == 2 && line.take(1) == base && spec_segments_width(line)
                <= eff)
        }),
{
    let base = seq![spec_seg(spec_ctx_text(percent), spec_context_colors(t, percent))];
    let line = spec_line2(t, percent, total, size, eff);
    if line != base {
        assert(line.take(1) =~= base);
    }
}

/// Law (layout ladder): when the full branch segment does not fit in the
/// effective width but the variant without the line-change summary does, the
/// engine keeps that shortened variant — the segment is neither rendered in
/// full nor dropped.
pub proof fn lemma_ladder_prefers_shortened(
    t: Theme,
    model: Seq<char>,
    version: Seq<char>,
    branch: Seq<char>,
    fc: Seq<char>,
    lc: Seq<char>,
    eff: int,
)
    requires
        branch.len() > 0,
        lc.len() > 0,
        spec_segments_width(
            spec_line1_base(t, model, version).push(
                spec_seg(spec_branch_text(branch, fc, lc), t.branch),
            ),
        ) > eff,
        spec_segments_width(
            spec_line1_base(t, model, version).push(
                spec_seg(spec_branch_text(branch, fc, Seq::empty()), t.branch),
            ),
        ) <= eff,
    ensures
        spec_line1(t, model, version, branch, fc, lc, eff) == spec_line1_base(t, model, version)
            .push(spec_seg(spec_branch_text(branch, fc, Seq::empty()), t.branch)),
{
}

} // verus!
