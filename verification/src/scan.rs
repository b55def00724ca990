//! The block extractor: from a file's raw lines to a registry of records.
//!
//! Lines are normalized and appended to an accumulator.  Whenever the braces
//! in the accumulator balance, the accumulator is one candidate block: it is
//! parsed, a successful parse is merged into the registry, and the
//! accumulator resets whether the parse succeeded or not, so a malformed but
//! balanced block cannot poison the blocks after it.  A non-empty, unbalanced
//! accumulator left at the end of the input is dropped silently.  Each file
//! is scanned on its own: a block must not span two files.

use vstd::prelude::*;

use crate::merge::lemma_merge_keeps_unique;
use crate::merge::merge_repo;
use crate::merge::merge_spec;
use crate::merge::models;
use crate::merge::names_unique;
use crate::parse::parse_string;
use crate::parse::parse_string_spec;
use crate::record::Repo;
use crate::record::RepoModel;
use crate::text::canon;
use crate::text::canon_chars;
use crate::text::chars_of;
use crate::text::count_char;
use crate::text::count_in;
use crate::text::string_from_chars;

verus! {

/// One raw line folded into the extractor's state.
pub open spec fn extract_step(
    entry: Seq<char>,
    repos: Seq<RepoModel>,
    line: Seq<char>,
) -> (Seq<char>, Seq<RepoModel>) {
    let e = entry + canon(line);
    if count_char(e, '{') != 0 && count_char(e, '{') == count_char(e, '}') {
        match parse_string_spec(e) {
            Ok(m) => (Seq::empty(), merge_spec(repos, m)),
            Err(_) => (Seq::empty(), repos),
        }
    } else {
        (e, repos)
    }
}

/// The scan from line `i` on, with the accumulator and registry so far.
pub open spec fn multi_parse_from(
    lines: Seq<Seq<char>>,
    i: int,
    entry: Seq<char>,
    repos: Seq<RepoModel>,
) -> Seq<RepoModel>
    decreases lines.len() - i,
{
    if i < 0 || i >= lines.len() {
        repos
    } else {
        let st = extract_step(entry, repos, lines[i]);
        multi_parse_from(lines, i + 1, st.0, st.1)
    }
}

/// The registry one file's lines yield.
pub open spec fn multi_parse_spec(lines: Seq<Seq<char>>) -> Seq<RepoModel> {
    multi_parse_from(lines, 0, Seq::empty(), Seq::empty())
}

/// A scan that starts from a registry of distinct names keeps the names
/// distinct: merging never duplicates a key.
pub proof fn lemma_multi_parse_unique_from(
    lines: Seq<Seq<char>>,
    i: int,
    entry: Seq<char>,
    repos: Seq<RepoModel>,
)
    requires
        names_unique(repos),
    ensures
        names_unique(multi_parse_from(lines, i, entry, repos)),
    decreases lines.len() - i,
{
    if 0 <= i < lines.len() {
        let e = entry + canon(lines[i]);
        if count_char(e, '{') != 0 && count_char(e, '{') == count_char(e, '}') {
            match parse_string_spec(e) {
                Ok(m) => {
                    lemma_merge_keeps_unique(repos, m);
                },
                Err(_) => {},
            }
        }
        let st = extract_step(entry, repos, lines[i]);
        lemma_multi_parse_unique_from(lines, i + 1, st.0, st.1);
    }
}

/// Within every registry the scanner yields, the name is unique.
pub proof fn lemma_multi_parse_unique(lines: Seq<Seq<char>>)
    ensures
        names_unique(multi_parse_spec(lines)),
{
    lemma_multi_parse_unique_from(lines, 0, Seq::empty(), Seq::empty());
}

/// Scans the lines of one file and folds every balanced block's record into
/// a fresh registry.
pub fn multi_parse_lines(lines: &Vec<String>) -> (repos: Vec<Repo>)
    ensures
        models(repos@) == multi_parse_spec(lines.deep_view()),
        names_unique(models(repos@)),
{
    proof {
        lemma_multi_parse_unique(lines.deep_view());
    }
    let ghost all: Seq<Seq<char>> = lines.deep_view();
    let n = lines.len();
    let mut repos: Vec<Repo> = Vec::new();
    let mut entry: Vec<char> = Vec::new();
    let mut i: usize = 0;
    proof {
        assert(models(repos@) =~= Seq::<RepoModel>::empty());
    }
    while i < n
        invariant
            i <= n,
            n == lines.len(),
            all == lines.deep_view(),
            multi_parse_spec(all) == multi_parse_from(all, i as int, entry@, models(repos@)),
        decreases n - i,
    {
        proof {
            assert(all[i as int] == lines@[i as int]@);
        }
        let raw = chars_of(lines[i].as_str());
        let mut piece = canon_chars(&raw);
        entry.append(&mut piece);
        let opens = count_in(&entry, '{');
        let closes = count_in(&entry, '}');
        if opens != 0 && opens == closes {
            let candidate = string_from_chars(&entry);
            match parse_string(candidate) {
                Ok(rep) => merge_repo(&mut repos, rep),
                Err(_) => {},
            }
            entry.clear();
        }
        i = i + 1;
    }
    repos
}

} // verus!
