//! Parsing of version-control output: the name-status file-change tally, the
//! shortstat line-change summary, and branch-name normalization.

use vstd::prelude::*;
use crate::text::{
    chars_to_string, copy_range, dec_of, is_ws, is_ws_exec, push_dec_u64, push_str_chars,
    spec_trim, str_to_chars, trim_chars,
};

verus! {

/// The views of a sequence of character vectors.
pub open spec fn views_of(s: Seq<Vec<char>>) -> Seq<Seq<char>> {
    s.map_values(|x: Vec<char>| x@)
}

/// Splitting on a separator, keeping empty pieces, as `str::split` does: the
/// result always holds one piece more than the text holds separators.
pub open spec fn spec_split(s: Seq<char>, sep: char) -> Seq<Seq<char>>
    decreases s.len(),
{
    if s.len() == 0 {
        seq![Seq::<char>::empty()]
    } else {
        let rest = spec_split(s.drop_first(), sep);
        if s[0] == sep {
            seq![Seq::<char>::empty()] + rest
        } else {
            seq![seq![s[0]] + rest[0]] + rest.drop_first()
        }
    }
}

pub proof fn lemma_split_nonempty(s: Seq<char>, sep: char)
    ensures
        spec_split(s, sep).len() >= 1,
{
}

/// The pieces of `v` between occurrences of `sep`.
pub fn split_chars(v: &[char], sep: char) -> (r: Vec<Vec<char>>)
    ensures
        views_of(r@) == spec_split(v@, sep),
{
    let n = v.len();
    let mut done: Vec<Vec<char>> = Vec::new();
    let mut cur: Vec<char> = Vec::new();
    let mut i: usize = 0;
    proof {
        lemma_split_nonempty(v@, sep);
        assert(v@.skip(0) =~= v@);
        assert(cur@ + spec_split(v@, sep)[0] =~= spec_split(v@, sep)[0]);
        assert(views_of(done@) + seq![spec_split(v@, sep)[0]] + spec_split(v@, sep).drop_first()
            =~= spec_split(v@, sep));
    }
    while i < n
        invariant
            n == v@.len(),
            i <= n,
            spec_split(v@, sep) == views_of(done@) + seq![
                cur@ + spec_split(v@.skip(i as int), sep)[0],
            ] + spec_split(v@.skip(i as int), sep).drop_first(),
        decreases n - i,
    {
        let ghost pre = spec_split(v@.skip(i as int), sep);
        let ghost post = spec_split(v@.skip(i as int + 1), sep);
        proof {
            lemma_split_nonempty(v@.skip(i as int + 1), sep);
            assert(v@.skip(i as int)[0] == v@[i as int]);
            assert(v@.skip(i as int).drop_first() =~= v@.skip(i as int + 1));
        }
        if v[i] == sep {
            proof {
                assert(pre =~= seq![Seq::<char>::empty()] + post);
                assert(pre[0] =~= Seq::<char>::empty());
                assert(cur@ + pre[0] =~= cur@);
                assert(pre.drop_first() =~= post);
                assert(seq![Seq::<char>::empty() + post[0]] + post.drop_first() =~= post);
            }
            let ghost done0 = done@;
            let ghost cur0 = cur@;
            done.push(cur);
            cur = Vec::new();
            proof {
                assert(views_of(done@) =~= views_of(done0) + seq![cur0]);
                assert(seq![cur0 + pre[0]] =~= seq![cur0]);
                assert(spec_split(v@, sep) == views_of(done0) + seq![cur0 + pre[0]]
                    + pre.drop_first());
                assert(views_of(done0) + seq![cur0 + pre[0]] + pre.drop_first() =~= views_of(
                    done@,
                ) + post);
                assert(views_of(done@) + seq![cur@ + post[0]] + post.drop_first() =~= views_of(
                    done@,
                ) + post);
            }
        } else {
            proof {
                assert(pre =~= seq![seq![v@[i as int]] + post[0]] + post.drop_first());
                assert(pre[0] == seq![v@[i as int]] + post[0]);
                assert(pre.drop_first() =~= post.drop_first());
            }
            let ghost cur0 = cur@;
            cur.push(v[i]);
            proof {
                assert(cur@ + post[0] =~= cur0 + pre[0]);
                assert(seq![cur@ + post[0]] =~= seq![cur0 + pre[0]]);
                assert(spec_split(v@, sep) == views_of(done@) + seq![cur0 + pre[0]]
                    + pre.drop_first());
                assert(views_of(done@) + seq![cur0 + pre[0]] + pre.drop_first() == views_of(done@)
                    + seq![cur@ + post[0]] + post.drop_first());
            }
        }
        i = i + 1;
    }
    proof {
        assert(v@.skip(n as int) =~= Seq::<char>::empty());
        assert(spec_split(v@.skip(n as int), sep) =~= seq![Seq::<char>::empty()]);
        assert(cur@ + Seq::<char>::empty() =~= cur@);
        assert(spec_split(v@.skip(n as int), sep).drop_first() =~= Seq::<Seq<char>>::empty());
    }
    done.push(cur);
    proof {
        assert(views_of(done@) =~= views_of(done@.drop_last()) + seq![done@.last()@]);
        assert(views_of(done@) =~= spec_split(v@, sep));
    }
    done
}

/// One line with a single trailing carriage return removed.
pub open spec fn strip_cr(s: Seq<char>) -> Seq<char> {
    if s.len() > 0 && s.last() == '\r' {
        s.drop_last()
    } else {
        s
    }
}

/// The lines of a text, as `str::lines` yields them: pieces between newline
/// characters, each with a trailing carriage return removed, and no final
/// empty line after a trailing newline.
pub open spec fn spec_lines(s: Seq<char>) -> Seq<Seq<char>> {
    if s.len() == 0 {
        Seq::<Seq<char>>::empty()
    } else {
        let pieces = spec_split(s, '\n').map_values(|p: Seq<char>| strip_cr(p));
        if s.last() == '\n' {
            pieces.drop_last()
        } else {
            pieces
        }
    }
}

/// The lines of `v`.
pub fn lines_of(v: &[char]) -> (r: Vec<Vec<char>>)
    ensures
        views_of(r@) == spec_lines(v@),
{
    let n = v.len();
    if n == 0 {
        let r: Vec<Vec<char>> = Vec::new();
        proof {
            assert(views_of(r@) =~= spec_lines(v@));
        }
        return r;
    }
    let pieces = split_chars(v, '\n');
    let ghost piece_views = views_of(pieces@);
    let ghost stripped = spec_split(v@, '\n').map_values(|p: Seq<char>| strip_cr(p));
    proof {
        lemma_split_nonempty(v@, '\n');
    }
    let upto: usize = if v[n - 1] == '\n' {
        pieces.len() - 1
    } else {
        pieces.len()
    };
    let mut r: Vec<Vec<char>> = Vec::new();
    let mut i: usize = 0;
    while i < upto
        invariant
            piece_views == views_of(pieces@),
            piece_views == spec_split(v@, '\n'),
            stripped == piece_views.map_values(|p: Seq<char>| strip_cr(p)),
            upto <= pieces@.len(),
            i <= upto,
            views_of(r@) == stripped.take(i as int),
        decreases upto - i,
    {
        let piece = &pieces[i];
        let m = piece.len();
        let line: Vec<char> = if m > 0 && piece[m - 1] == '\r' {
            copy_range(piece.as_slice(), 0, m - 1)
        } else {
            copy_range(piece.as_slice(), 0, m)
        };
        proof {
            assert(piece@.subrange(0, m as int) =~= piece@);
            if m > 0 && piece@.last() == '\r' {
                assert(piece@.subrange(0, m as int - 1) =~= piece@.drop_last());
            }
            assert(line@ == strip_cr(piece_views[i as int]));
            assert(stripped[i as int] == strip_cr(piece_views[i as int]));
            assert(stripped.take(i as int + 1) =~= stripped.take(i as int) + seq![
                stripped[i as int],
            ]);
        }
        let ghost r0 = r@;
        r.push(line);
        proof {
            assert(views_of(r@) =~= views_of(r0) + seq![line@]);
            assert(views_of(r@) == stripped.take(i as int + 1));
        }
        i = i + 1;
    }
    proof {
        if v@.last() == '\n' {
            assert(stripped.take(upto as int) =~= stripped.drop_last());
        } else {
            assert(stripped.take(upto as int) =~= stripped);
        }
    }
    r
}

/// The tallies of a name-status listing, one line per changed file:
/// (modified, added, deleted), a leading `R` (rename) counting as modified.
pub open spec fn spec_status_counts(lines: Seq<Seq<char>>) -> (nat, nat, nat)
    decreases lines.len(),
{
    if lines.len() == 0 {
        (0nat, 0nat, 0nat)
    } else {
        let prev = spec_status_counts(lines.drop_last());
        let t = spec_trim(lines.last());
        if t.len() == 0 {
            prev
        } else if t[0] == 'A' {
            (prev.0, (prev.1 + 1) as nat, prev.2)
        } else if t[0] == 'M' || t[0] == 'R' {
            ((prev.0 + 1) as nat, prev.1, prev.2)
        } else if t[0] == 'D' {
            (prev.0, prev.1, (prev.2 + 1) as nat)
        } else {
            prev
        }
    }
}

/// The compact file-change summary `~M+A-D`, each term omitted when zero.
pub open spec fn spec_changes_str(m: nat, a: nat, d: nat) -> Seq<char> {
    (if m > 0 {
        "~"@ + dec_of(m as int)
    } else {
        Seq::<char>::empty()
    }) + (if a > 0 {
        "+"@ + dec_of(a as int)
    } else {
        Seq::<char>::empty()
    }) + (if d > 0 {
        "-"@ + dec_of(d as int)
    } else {
        Seq::<char>::empty()
    })
}

/// The file-change summary of a whole name-status listing.
pub open spec fn spec_count_file_changes(s: Seq<char>) -> Seq<char> {
    let c = spec_status_counts(spec_lines(s));
    spec_changes_str(c.0, c.1, c.2)
}

/// Tallies a name-status listing into the compact `~M+A-D` form; the empty
/// string when no line starts with a recognized status letter.
pub fn count_file_changes(output: &str) -> (r: String)
    ensures
        r@ == spec_count_file_changes(output@),
{
    let chars = str_to_chars(output);
    let lines = lines_of(chars.as_slice());
    let ghost lviews = views_of(lines@);
    let n = lines.len();
    let mut modified: usize = 0;
    let mut added: usize = 0;
    let mut deleted: usize = 0;
    let mut i: usize = 0;
    while i < n
        invariant
            lviews == views_of(lines@),
            n == lines@.len(),
            i <= n,
            modified as int + added as int + deleted as int <= i as int,
            (modified as nat, added as nat, deleted as nat) == spec_status_counts(
                lviews.take(i as int),
            ),
        decreases n - i,
    {
        proof {
            assert(lviews.take(i as int + 1).drop_last() =~= lviews.take(i as int));
            assert(lviews.take(i as int + 1).last() == lviews[i as int]);
            assert(lviews[i as int] == lines@[i as int]@);
        }
        let t = trim_chars(lines[i].as_slice());
        if t.len() > 0 {
            let c = t[0];
            if c == 'A' {
                added = added + 1;
            } else if c == 'M' || c == 'R' {
                modified = modified + 1;
            } else if c == 'D' {
                deleted = deleted + 1;
            }
        }
        i = i + 1;
    }
    proof {
        assert(lviews.take(n as int) =~= lviews);
    }
    let mut v: Vec<char> = Vec::new();
    if modified > 0 {
        push_str_chars(&mut v, "~");
        push_dec_u64(&mut v, modified as u64);
    }
    if added > 0 {
        push_str_chars(&mut v, "+");
        push_dec_u64(&mut v, added as u64);
    }
    if deleted > 0 {
        push_str_chars(&mut v, "-");
        push_dec_u64(&mut v, deleted as u64);
    }
    proof {
        assert(v@ =~= spec_count_file_changes(output@));
    }
    chars_to_string(&v)
}

/// The run of non-whitespace characters at the start of a string: what
/// splitting on whitespace would yield first on an already-trimmed string.
pub open spec fn spec_token_run(s: Seq<char>) -> Seq<char>
    decreases s.len(),
{
    if s.len() == 0 || is_ws(s[0]) {
        Seq::<char>::empty()
    } else {
        seq![s[0]] + spec_token_run(s.drop_first())
    }
}

proof fn lemma_token_run_take(s: Seq<char>, j: int)
    requires
        0 <= j <= s.len(),
        forall|k: int| 0 <= k < j ==> !is_ws(#[trigger] s[k]),
        j < s.len() ==> is_ws(s[j]),
    ensures
        spec_token_run(s) == s.take(j),
    decreases j,
{
    if j == 0 {
        assert(spec_token_run(s) =~= s.take(0));
    } else {
        lemma_token_run_take(s.drop_first(), j - 1);
        assert(seq![s[0]] + s.drop_first().take(j - 1) =~= s.take(j));
    }
}

/// The leading token of `s`.
pub fn first_token(s: &[char]) -> (r: Vec<char>)
    ensures
        r@ == spec_token_run(s@),
{
    let n = s.len();
    let mut j: usize = 0;
    while j < n && !is_ws_exec(s[j])
        invariant
            j <= n,
            n == s@.len(),
            forall|k: int| 0 <= k < j ==> !is_ws(#[trigger] s@[k]),
        decreases n - j,
    {
        j = j + 1;
    }
    proof {
        lemma_token_run_take(s@, j as int);
    }
    copy_range(s, 0, j)
}

pub open spec fn is_digit(c: char) -> bool {
    48 <= c as u32 <= 57
}

pub open spec fn digit_val(c: char) -> int {
    c as u32 - 48
}

pub open spec fn all_digits(s: Seq<char>) -> bool {
    forall|i: int| 0 <= i < s.len() ==> is_digit(#[trigger] s[i])
}

/// The value of a digit string read in base ten.
pub open spec fn digits_val(s: Seq<char>) -> int
    decreases s.len(),
{
    if s.len() == 0 {
        0
    } else {
        digits_val(s.drop_last()) * 10 + digit_val(s.last())
    }
}

proof fn lemma_digits_val_mono(s: Seq<char>, j: int)
    requires
        0 <= j <= s.len(),
        all_digits(s),
    ensures
        digits_val(s) >= digits_val(s.take(j)),
        digits_val(s) >= 0,
    decreases s.len(),
{
    if s.len() == 0 {
        assert(s.take(j) =~= s);
    } else if j == s.len() {
        assert(s.take(j) =~= s);
        assert(all_digits(s.drop_last()));
        lemma_digits_val_mono(s.drop_last(), s.len() - 1);
    } else {
        assert(all_digits(s.drop_last()));
        lemma_digits_val_mono(s.drop_last(), j);
        assert(s.drop_last().take(j) =~= s.take(j));
    }
}

/// Parsing as `u32`: an optional leading plus sign, then only digits, and a
/// value that fits; anything else is no parse.
pub open spec fn spec_parse_u32(s: Seq<char>) -> Option<u32> {
    let d = if s.len() > 0 && s[0] == '+' {
        s.drop_first()
    } else {
        s
    };
    if d.len() > 0 && all_digits(d) && digits_val(d) <= u32::MAX {
        Some(digits_val(d) as u32)
    } else {
        None
    }
}

/// Parses a base-ten `u32` from the characters of one token.
pub fn parse_u32(s: &[char]) -> (r: Option<u32>)
    ensures
        r == spec_parse_u32(s@),
{
    let n = s.len();
    let start: usize = if n > 0 && s[0] == '+' {
        1
    } else {
        0
    };
    let ghost d = if s@.len() > 0 && s@[0] == '+' {
        s@.drop_first()
    } else {
        s@
    };
    proof {
        assert(d =~= s@.subrange(start as int, n as int));
    }
    if start == n {
        return None;
    }
    let mut acc: u32 = 0;
    let mut i: usize = start;
    while i < n
        invariant
            start <= i <= n,
            n == s@.len(),
            d == s@.subrange(start as int, n as int),
            d == (if s@.len() > 0 && s@[0] == '+' {
                s@.drop_first()
            } else {
                s@
            }),
            all_digits(d.take(i as int - start as int)),
            acc as int == digits_val(d.take(i as int - start as int)),
        decreases n - i,
    {
        let ghost pos = i as int - start as int;
        proof {
            assert(d[pos] == s@[i as int]);
            assert(d.take(pos + 1).drop_last() =~= d.take(pos));
            assert(d.take(pos + 1).last() == d[pos]);
        }
        let c = s[i];
        let cp = c as u32;
        if cp < 48 || cp > 57 {
            proof {
                assert(!is_digit(d[pos]));
                assert(spec_parse_u32(s@) is None);
            }
            return None;
        }
        let dv = cp - 48;
        if acc > (u32::MAX - dv) / 10 {
            proof {
                assert(acc as int * 10 + dv as int > u32::MAX as int);
                assert(digits_val(d.take(pos + 1)) > u32::MAX as int);
                if all_digits(d) {
                    lemma_digits_val_mono(d, pos + 1);
                }
                assert(spec_parse_u32(s@) is None);
            }
            return None;
        }
        acc = acc * 10 + dv;
        i = i + 1;
    }
    proof {
        assert(d.take(n as int - start as int) =~= d);
    }
    Some(acc)
}

/// Whether `sub` occurs contiguously anywhere in `h`.
pub open spec fn contains_sub(h: Seq<char>, sub: Seq<char>) -> bool {
    exists|i: int|
        0 <= i <= h.len() - sub.len() && #[trigger] h.subrange(i, i + sub.len()) == sub
}

/// Substring search.
pub fn contains_sub_exec(h: &[char], sub: &[char]) -> (r: bool)
    ensures
        r == contains_sub(h@, sub@),
{
    let m = sub.len();
    let n = h.len();
    if m > n {
        return false;
    }
    let mut i: usize = 0;
    while i <= n - m
        invariant
            m <= n,
            n == h@.len(),
            m == sub@.len(),
            i <= n - m + 1,
            forall|k: int| 0 <= k < i ==> #[trigger] h@.subrange(k, k + m as int) != sub@,
        decreases n - i,
    {
        let mut j: usize = 0;
        while j < m && h[i + j] == sub[j]
            invariant
                m <= n,
                n == h@.len(),
                m == sub@.len(),
                i <= n - m,
                j <= m,
                forall|l: int| 0 <= l < j ==> h@[i as int + l] == sub@[l],
            decreases m - j,
        {
            j = j + 1;
        }
        if j == m {
            proof {
                assert(h@.subrange(i as int, i as int + m as int) =~= sub@);
            }
            return true;
        }
        proof {
            assert(h@.subrange(i as int, i as int + m as int)[j as int] == h@[i as int + j as int]);
            assert(h@.subrange(i as int, i as int + m as int) != sub@);
        }
        i = i + 1;
    }
    false
}

/// The insertion and deletion counts read from the comma-separated clauses of
/// a diff-stat trailer: the last clause naming "insertion" and the last
/// naming "deletion" each contribute their leading integer; clauses whose
/// integer cannot be read leave the counts unchanged.
pub open spec fn spec_ins_del(parts: Seq<Seq<char>>) -> (nat, nat)
    decreases parts.len(),
{
    if parts.len() == 0 {
        (0nat, 0nat)
    } else {
        let prev = spec_ins_del(parts.drop_last());
        let p = spec_trim(parts.last());
        if contains_sub(p, "insertion"@) {
            match spec_parse_u32(spec_token_run(p)) {
                Some(x) => (x as nat, prev.1),
                None => prev,
            }
        } else if contains_sub(p, "deletion"@) {
            match spec_parse_u32(spec_token_run(p)) {
                Some(x) => (prev.0, x as nat),
                None => prev,
            }
        } else {
            prev
        }
    }
}

/// The compact line-change summary `+I-D` of a diff-stat output's final
/// line, each term omitted when zero; the empty string when the line is
/// absent or unparsable.
pub open spec fn spec_parse_stat_summary(s: Seq<char>) -> Seq<char> {
    let ls = spec_lines(s);
    let last = if ls.len() == 0 {
        Seq::<char>::empty()
    } else {
        ls.last()
    };
    let t = spec_trim(last);
    if t.len() == 0 {
        Seq::<char>::empty()
    } else {
        let c = spec_ins_del(spec_split(t, ','));
        (if c.0 > 0 {
            "+"@ + dec_of(c.0 as int)
        } else {
            Seq::<char>::empty()
        }) + (if c.1 > 0 {
            "-"@ + dec_of(c.1 as int)
        } else {
            Seq::<char>::empty()
        })
    }
}

/// Reads a shortstat-style trailer into the compact `+I-D` form.
pub fn parse_stat_summary(output: &str) -> (r: String)
    ensures
        r@ == spec_parse_stat_summary(output@),
{
    let chars = str_to_chars(output);
    let lines = lines_of(chars.as_slice());
    let last: Vec<char> = if lines.len() == 0 {
        Vec::new()
    } else {
        let k = lines.len() - 1;
        proof {
            assert(views_of(lines@)[k as int] == lines@[k as int]@);
        }
        copy_range(lines[k].as_slice(), 0, lines[k].len())
    };
    proof {
        if lines@.len() > 0 {
            assert(last@ =~= views_of(lines@).last());
        }
    }
    let t = trim_chars(last.as_slice());
    if t.len() == 0 {
        let v: Vec<char> = Vec::new();
        return chars_to_string(&v);
    }
    let parts = split_chars(t.as_slice(), ',');
    let ghost pviews = views_of(parts@);
    let needle_ins = str_to_chars("insertion");
    let needle_del = str_to_chars("deletion");
    let mut ins: u32 = 0;
    let mut del: u32 = 0;
    let n = parts.len();
    let mut i: usize = 0;
    while i < n
        invariant
            pviews == views_of(parts@),
            n == parts@.len(),
            i <= n,
            needle_ins@ == "insertion"@,
            needle_del@ == "deletion"@,
            (ins as nat, del as nat) == spec_ins_del(pviews.take(i as int)),
        decreases n - i,
    {
        proof {
            assert(pviews.take(i as int + 1).drop_last() =~= pviews.take(i as int));
            assert(pviews.take(i as int + 1).last() == pviews[i as int]);
            assert(pviews[i as int] == parts@[i as int]@);
        }
        let p = trim_chars(parts[i].as_slice());
        if contains_sub_exec(p.as_slice(), needle_ins.as_slice()) {
            let tok = first_token(p.as_slice());
            match parse_u32(tok.as_slice()) {
                Some(x) => {
                    ins = x;
                },
                None => {},
            }
        } else if contains_sub_exec(p.as_slice(), needle_del.as_slice()) {
            let tok = first_token(p.as_slice());
            match parse_u32(tok.as_slice()) {
                Some(x) => {
                    del = x;
                },
                None => {},
            }
        }
        i = i + 1;
    }
    proof {
        assert(pviews.take(n as int) =~= pviews);
    }
    let mut v: Vec<char> = Vec::new();
    if ins > 0 {
        push_str_chars(&mut v, "+");
        push_dec_u64(&mut v, ins as u64);
    }
    if del > 0 {
        push_str_chars(&mut v, "-");
        push_dec_u64(&mut v, del as u64);
    }
    proof {
        assert(v@ =~= spec_parse_stat_summary(output@));
    }
    chars_to_string(&v)
}

/// The kind of repository found at a directory.
#[derive(Clone, Copy, Debug, PartialEq, Eq, Structural)]
pub enum VcsKind {
    Jj,
    Git,
}

/// Classifies a directory by its marker subdirectories, jj taking priority
/// over git since the two can coexist.
pub fn detect_vcs(has_jj: bool, has_git: bool) -> (r: Option<VcsKind>)
    ensures
        r == (if has_jj {
            Some(VcsKind::Jj)
        } else if has_git {
            Some(VcsKind::Git)
        } else {
            None::<VcsKind>
        }),
{
    if has_jj {
        Some(VcsKind::Jj)
    } else if has_git {
        Some(VcsKind::Git)
    } else {
        None
    }
}

/// The first line of a text, or the empty string when it has none.
pub open spec fn spec_first_line(s: Seq<char>) -> Seq<char> {
    if spec_lines(s).len() == 0 {
        Seq::<char>::empty()
    } else {
        spec_lines(s)[0]
    }
}

/// The branch label shown for a repository: jj shows its first output line
/// trimmed, with "@" standing in when the command failed or answered
/// nothing; git shows its whole output trimmed, with "detached" standing in.
pub open spec fn spec_branch_label(kind: VcsKind, out: Option<Seq<char>>) -> Seq<char> {
    let raw = match out {
        Some(s) => match kind {
            VcsKind::Jj => spec_trim(spec_first_line(s)),
            VcsKind::Git => spec_trim(s),
        },
        None => Seq::<char>::empty(),
    };
    if raw.len() == 0 {
        match kind {
            VcsKind::Jj => "@"@,
            VcsKind::Git => "detached"@,
        }
    } else {
        raw
    }
}

fn branch_label(kind: VcsKind, out: Option<&str>) -> (r: String)
    ensures
        r@ == spec_branch_label(
            kind,
            match out {
                Some(s) => Some(s@),
                None => None,
            },
        ),
{
    let trimmed: Vec<char> = match out {
        Some(s) => {
            let chars = str_to_chars(s);
            match kind {
                VcsKind::Jj => {
                    let lines = lines_of(chars.as_slice());
                    let first: Vec<char> = if lines.len() == 0 {
                        Vec::new()
                    } else {
                        proof {
                            assert(views_of(lines@)[0] == lines@[0]@);
                        }
                        copy_range(lines[0].as_slice(), 0, lines[0].len())
                    };
                    proof {
                        if lines@.len() == 0 {
                            assert(first@ =~= spec_first_line(s@));
                        } else {
                            assert(lines@[0]@.subrange(0, lines@[0]@.len() as int) =~= lines@[0]@);
                        }
                    }
                    trim_chars(first.as_slice())
                },
                VcsKind::Git => trim_chars(chars.as_slice()),
            }
        },
        None => Vec::new(),
    };
    proof {
        if out is None {
            assert(spec_trim(Seq::<char>::empty()) == Seq::<char>::empty());
        }
    }
    if trimmed.len() == 0 {
        match kind {
            VcsKind::Jj => String::from_str("@"),
            VcsKind::Git => String::from_str("detached"),
        }
    } else {
        chars_to_string(&trimmed)
    }
}

/// The (branch, file-change summary, line-change summary) triple for one
/// invocation, from the detected repository kind and the raw text each
/// version-control command answered (`None` where a command failed). An
/// undetected repository yields three empty strings; failures degrade to the
/// documented placeholders, never to an error.
pub fn get_vcs_info(
    kind: Option<VcsKind>,
    branch_out: Option<&str>,
    diff_out: Option<&str>,
    stat_out: Option<&str>,
) -> (r: (String, String, String))
    ensures
        match kind {
            None => r.0@ == Seq::<char>::empty() && r.1@ == Seq::<char>::empty() && r.2@
                == Seq::<char>::empty(),
            Some(k) => {
                &&& r.0@ == spec_branch_label(
                    k,
                    match branch_out {
                        Some(s) => Some(s@),
                        None => None,
                    },
                )
                &&& r.1@ == match diff_out {
                    Some(s) => spec_count_file_changes(s@),
                    None => Seq::<char>::empty(),
                }
                &&& r.2@ == match stat_out {
                    Some(s) => spec_parse_stat_summary(s@),
                    None => Seq::<char>::empty(),
                }
            },
        },
{
    match kind {
        None => (String::new(), String::new(), String::new()),
        Some(k) => {
            let branch = branch_label(k, branch_out);
            let file_changes = match diff_out {
                Some(s) => count_file_changes(s),
                None => String::new(),
            };
            let line_changes = match stat_out {
                Some(s) => parse_stat_summary(s),
                None => String::new(),
            };
            (branch, file_changes, line_changes)
        },
    }
}

} // verus!