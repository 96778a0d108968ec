//! Theme metadata: the themes directory and the name a theme declares.
//!
//! A theme file declares its name in a comment such as `/* ThemeName */`.
//! The scan takes, of every comment on one line, the text after the
//! opening marker — greedily up to the last closing marker on that line,
//! minus one leading space — and keeps the last one found; a file that
//! declares no name falls back to its file name.

use vstd::prelude::*;

use crate::config::{app_label, App};
use crate::text::{lemma_line_end, lemma_line_end_value, line_end, match_at, copy_range,
    utf8_to_string};
use vstd::utf8::{decode_utf8, valid_utf8};

verus! {

/// One theme: where its file lies and the name it declares.
#[derive(Debug, Clone)]
pub struct Theme {
    pub path: String,
    pub name: String,
}

/// The last closing marker at or after `from` that still fits before
/// `limit`, or -1.
pub open spec fn last_close(s: Seq<u8>, from: int, limit: int) -> int
    decreases limit - from,
    when 0 <= from
{
    if from > limit - 2 {
        -1
    } else {
        let rest = last_close(s, from + 1, limit);
        if rest != -1 {
            rest
        } else if match_at(s, seq![42u8, 47u8], from) {
            from
        } else {
            -1
        }
    }
}

/// Where the comment starting at `i` ends: past its last closing marker
/// on the same line, or -1 when no comment starts there. A comment
/// never spans a line break.
pub open spec fn comment_end_at(s: Seq<u8>, i: int) -> int {
    if 0 <= i && match_at(s, seq![47u8, 42u8], i) {
        let j = last_close(s, i + 2, line_end(s, i));
        if j == -1 {
            -1
        } else {
            j + 2
        }
    } else {
        -1
    }
}

/// The name text of the comment starting at `i`: everything between
/// the markers, minus one leading space.
pub open spec fn group2_at(s: Seq<u8>, i: int) -> Seq<u8>
    recommends
        comment_end_at(s, i) != -1,
{
    let j = comment_end_at(s, i) - 2;
    let start = if i + 2 < j && s[i + 2] == 32 {
        i + 3
    } else {
        i + 2
    };
    s.subrange(start, j)
}

/// The first position at or after `p` where a comment starts, or -1.
pub open spec fn first_comment(s: Seq<u8>, p: int) -> int
    decreases s.len() - p,
    when 0 <= p
{
    if p + 2 > s.len() {
        -1
    } else if comment_end_at(s, p) != -1 {
        p
    } else {
        first_comment(s, p + 1)
    }
}

proof fn lemma_last_close_bounds(s: Seq<u8>, from: int, limit: int)
    requires
        0 <= from,
    ensures
        last_close(s, from, limit) == -1 || (from <= last_close(s, from, limit) <= limit - 2
            && last_close(s, from, limit) + 2 <= s.len()),
    decreases limit - from,
{
    if from <= limit - 2 {
        lemma_last_close_bounds(s, from + 1, limit);
    }
}

proof fn lemma_first_comment_bounds(s: Seq<u8>, p: int)
    requires
        0 <= p,
    ensures
        first_comment(s, p) == -1 || (p <= first_comment(s, p) && comment_end_at(
            s,
            first_comment(s, p),
        ) != -1),
    decreases s.len() - p,
{
    if p + 2 <= s.len() && comment_end_at(s, p) == -1 {
        lemma_first_comment_bounds(s, p + 1);
    }
}

/// The name the file declares: of all its comments, in scan order, the
/// name text of the last.
pub open spec fn last_group2(s: Seq<u8>, p: int) -> Option<Seq<u8>>
    decreases s.len() - p,
    when 0 <= p
    via last_group2_dec
{
    let i = first_comment(s, p);
    if i == -1 {
        Option::None
    } else {
        let e = comment_end_at(s, i);
        let rest = last_group2(s, e);
        match rest {
            Option::Some(g) => Option::Some(g),
            Option::None => Option::Some(group2_at(s, i)),
        }
    }
}

#[via_fn]
proof fn last_group2_dec(s: Seq<u8>, p: int) {
    if 0 <= p {
        lemma_first_comment_bounds(s, p);
        let i = first_comment(s, p);
        if i != -1 {
            if 0 <= i && match_at(s, seq![47u8, 42u8], i) {
                lemma_last_close_bounds(s, i + 2, line_end(s, i));
            }
        }
    }
}

proof fn lemma_last_close_some(s: Seq<u8>, from: int, limit: int, j: int)
    requires
        0 <= from <= j <= limit - 2,
        match_at(s, seq![42u8, 47u8], j),
        forall|k: int| j < k <= limit - 2 ==> !match_at(s, seq![42u8, 47u8], k),
    ensures
        last_close(s, from, limit) == j,
    decreases j - from,
{
    if from < j {
        lemma_last_close_some(s, from + 1, limit, j);
    } else {
        lemma_last_close_none(s, from + 1, limit);
    }
}

proof fn lemma_last_close_none(s: Seq<u8>, from: int, limit: int)
    requires
        0 <= from,
        forall|k: int| from <= k <= limit - 2 ==> !match_at(s, seq![42u8, 47u8], k),
    ensures
        last_close(s, from, limit) == -1,
    decreases limit - from,
{
    if from <= limit - 2 {
        lemma_last_close_none(s, from + 1, limit);
    }
}

proof fn lemma_first_comment_some(s: Seq<u8>, p: int, i: int)
    requires
        0 <= p <= i,
        comment_end_at(s, i) != -1,
        forall|q: int| p <= q < i ==> comment_end_at(s, q) == -1,
    ensures
        first_comment(s, p) == i,
    decreases i - p,
{
    if p < i {
        lemma_first_comment_some(s, p + 1, i);
    }
}

proof fn lemma_first_comment_none(s: Seq<u8>, p: int)
    requires
        0 <= p,
        forall|q: int| p <= q ==> comment_end_at(s, q) == -1,
    ensures
        first_comment(s, p) == -1,
    decreases s.len() - p,
{
    if p + 2 <= s.len() {
        lemma_first_comment_none(s, p + 1);
    }
}

/// The end of the line that position `i` is on.
fn line_end_exec(s: &[u8], i: usize) -> (r: usize)
    requires
        i <= s@.len(),
    ensures
        r == line_end(s@, i as int),
{
    let n = s.len();
    let mut k = i;
    while k < n && s[k] != 10
        invariant
            i <= k <= n,
            n == s@.len(),
            forall|q: int| i <= q < k ==> #[trigger] s@[q] != 10,
        decreases n - k,
    {
        k = k + 1;
    }
    proof {
        lemma_line_end_value(s@, i as int, k as int);
    }
    k
}

/// The last closing marker in `[from, limit - 2]`, if any.
fn last_close_exec(s: &[u8], from: usize, limit: usize) -> (r: Option<usize>)
    requires
        limit <= s@.len(),
    ensures
        match r {
            Some(j) => from <= j && last_close(s@, from as int, limit as int) == j,
            None => last_close(s@, from as int, limit as int) == -1,
        },
{
    if limit < 2 {
        proof {
            lemma_last_close_none(s@, from as int, limit as int);
        }
        return None;
    }
    let mut best: Option<usize> = None;
    let mut k = from;
    while k < limit - 1
        invariant
            from <= k,
            2 <= limit <= s@.len(),
            match best {
                Some(j) => from as int <= j <= k - 1 && j <= limit - 2 && match_at(
                    s@,
                    seq![42u8, 47u8],
                    j as int,
                ) && forall|q: int| j < q < k && q <= limit - 2 ==> !match_at(
                    s@,
                    seq![42u8, 47u8],
                    q,
                ),
                None => forall|q: int| from <= q < k && q <= limit - 2 ==> !match_at(
                    s@,
                    seq![42u8, 47u8],
                    q,
                ),
            },
        decreases limit - k,
    {
        if s[k] == 42 && s[k + 1] == 47 {
            proof {
                assert(s@.subrange(k as int, k + 2) =~= seq![42u8, 47u8]);
            }
            best = Some(k);
        } else {
            proof {
                if match_at(s@, seq![42u8, 47u8], k as int) {
                    assert(s@.subrange(k as int, k + 2)[0] == 42);
                    assert(s@.subrange(k as int, k + 2)[1] == 47);
                }
            }
        }
        k = k + 1;
    }
    proof {
        match best {
            Some(j) => {
                lemma_last_close_some(s@, from as int, limit as int, j as int);
            },
            None => {
                lemma_last_close_none(s@, from as int, limit as int);
            },
        }
    }
    best
}

/// Whether a comment starts at `i`, and where it ends.
fn comment_end_exec(s: &[u8], i: usize) -> (r: Option<usize>)
    requires
        i + 2 <= s@.len(),
    ensures
        match r {
            Some(e) => comment_end_at(s@, i as int) == e && i + 4 <= e <= s@.len(),
            None => comment_end_at(s@, i as int) == -1,
        },
{
    if !(s[i] == 47 && s[i + 1] == 42) {
        proof {
            if match_at(s@, seq![47u8, 42u8], i as int) {
                assert(s@.subrange(i as int, i + 2)[0] == 47);
                assert(s@.subrange(i as int, i + 2)[1] == 42);
            }
        }
        return None;
    }
    proof {
        assert(s@.subrange(i as int, i + 2) =~= seq![47u8, 42u8]);
    }
    let limit = line_end_exec(s, i);
    proof {
        lemma_line_end(s@, i as int);
    }
    match last_close_exec(s, i + 2, limit) {
        Some(j) => {
            proof {
                lemma_last_close_bounds(s@, i + 2, limit as int);
            }
            Some(j + 2)
        },
        None => None,
    }
}

/// The first comment at or after `p`: where it starts and where it
/// ends.
fn next_comment(s: &[u8], p: usize) -> (r: Option<(usize, usize)>)
    requires
        p <= s@.len(),
    ensures
        match r {
            Some(pair) => p <= pair.0 && first_comment(s@, p as int) == pair.0
                && comment_end_at(s@, pair.0 as int) == pair.1 && pair.0 + 4 <= pair.1
                <= s@.len(),
            None => first_comment(s@, p as int) == -1,
        },
{
    let n = s.len();
    let mut i = p;
    while i < n && i + 1 < n
        invariant
            p <= i <= n,
            n == s@.len(),
            forall|q: int| p <= q < i ==> comment_end_at(s@, q) == -1,
        decreases n - i,
    {
        match comment_end_exec(s, i) {
            Some(e) => {
                proof {
                    lemma_first_comment_some(s@, p as int, i as int);
                }
                return Some((i, e));
            },
            None => {
                i = i + 1;
            },
        }
    }
    proof {
        assert forall|q: int| p <= q implies comment_end_at(s@, q) == -1 by {
            if q + 2 > s@.len() && comment_end_at(s@, q) != -1 {
                assert(match_at(s@, seq![47u8, 42u8], q));
            }
        }
        lemma_first_comment_none(s@, p as int);
    }
    None
}

/// The declared name of a theme file, as the comment scan finds it:
/// the name text of the last comment, or `None` when the file has no
/// comment.
pub fn extract_theme_name(contents: &[u8]) -> (r: Option<Vec<u8>>)
    ensures
        match r {
            Some(nb) => last_group2(contents@, 0) == Option::Some(nb@),
            None => last_group2(contents@, 0) is None,
        },
{
    let n = contents.len();
    let mut p: usize = 0;
    let mut best: Option<Vec<u8>> = None;
    loop
        invariant
            0 <= p <= n,
            n == contents@.len(),
            (match last_group2(contents@, 0) {
                Option::Some(g) => match last_group2(contents@, p as int) {
                    Option::Some(h) => g == h,
                    Option::None => best matches Some(nb) && nb@ == g,
                },
                Option::None => best is None && last_group2(contents@, p as int) is None,
            }),
        decreases n + 2 - p,
    {
        let ghost p0 = p as int;
        match next_comment(contents, p) {
            Some((ci, e)) => {
                let j = e - 2;
                let start = if ci + 2 < j && contents[ci + 2] == 32 {
                    ci + 3
                } else {
                    ci + 2
                };
                let g = copy_range(contents, start, j);
                proof {
                    assert(g@ == group2_at(contents@, ci as int));
                    assert(last_group2(contents@, p0) == (match last_group2(contents@, e as int) {
                        Option::Some(gg) => Option::Some(gg),
                        Option::None => Option::Some(group2_at(contents@, ci as int)),
                    }));
                }
                best = Some(g);
                p = e;
            },
            None => {
                proof {
                    assert(last_group2(contents@, p0) is None);
                }
                return best;
            },
        }
    }
}


/// The name a theme file carries: the text of its last name comment,
/// decoded; a file without one, or with an empty or undecodable one,
/// is named after its file name.
pub open spec fn theme_name_of(contents: Seq<u8>, fallback: Seq<char>) -> Seq<char> {
    match last_group2(contents, 0) {
        Option::Some(nb) => if nb.len() > 0 && valid_utf8(nb) {
            decode_utf8(nb)
        } else {
            fallback
        },
        Option::None => fallback,
    }
}

/// The themes directory of one application under the configuration
/// root the caller resolved.
pub fn theme_path(app: &App, config_root: &str) -> (r: String)
    ensures
        r@ == config_root@ + "/"@ + app_label(*app) + "/themes"@,
{
    let s = String::from_str(config_root);
    let s = s.concat("/");
    let label = app.label();
    let s = s.concat(label.as_str());
    s.concat("/themes")
}

/// The metadata of the theme stored as `filename` under the themes
/// directory, from the file contents the caller read: its path there,
/// and the name it declares — or the file name, when it declares none.
pub fn read_theme_data(filename: &str, contents: &[u8], themes_root: &str) -> (t: Theme)
    ensures
        t.path@ == themes_root@ + "/"@ + filename@,
        t.name@ == theme_name_of(contents@, filename@),
{
    let path = String::from_str(themes_root).concat("/").concat(filename);
    let name = match extract_theme_name(contents) {
        Some(nb) => {
            if nb.len() > 0 {
                match utf8_to_string(nb) {
                    Some(s) => s,
                    None => String::from_str(filename),
                }
            } else {
                String::from_str(filename)
            }
        },
        None => String::from_str(filename),
    };
    Theme { path, name }
}

} // verus!
