//! Line normalization and boolean coercion.
//!
//! A raw line is normalized by dropping every whitespace character and cutting
//! the line at the first `#`, which starts a comment running to the end of the
//! line.  A token is coerced to a boolean by a case-insensitive prefix match
//! against `yes` and `true`; everything else coerces to `false`.

use vstd::prelude::*;
use vstd::std_specs::iter::IteratorSpec;

verus! {

broadcast use vstd::string::group_string_axioms;

/// The Unicode `White_Space` code points, the set that `char::is_whitespace`
/// recognizes.
pub open spec fn is_space(c: char) -> bool {
    let u = c as u32;
    ||| u == 0x09
    ||| u == 0x0A
    ||| u == 0x0B
    ||| u == 0x0C
    ||| u == 0x0D
    ||| u == 0x20
    ||| u == 0x85
    ||| u == 0xA0
    ||| u == 0x1680
    ||| (0x2000 <= u && u <= 0x200A)
    ||| u == 0x2028
    ||| u == 0x2029
    ||| u == 0x202F
    ||| u == 0x205F
    ||| u == 0x3000
}

fn is_space_char(c: char) -> (r: bool)
    ensures
        r == is_space(c),
{
    let u = c as u32;
    u == 0x09 || u == 0x0A || u == 0x0B || u == 0x0C || u == 0x0D || u == 0x20 || u == 0x85
        || u == 0xA0 || u == 0x1680 || (0x2000 <= u && u <= 0x200A) || u == 0x2028 || u == 0x2029
        || u == 0x202F || u == 0x205F || u == 0x3000
}

/// One normalized line: whitespace removed, everything from the first `#` on
/// discarded.
pub open spec fn normalize_spec(s: Seq<char>) -> Seq<char>
    decreases s.len(),
{
    if s.len() == 0 {
        Seq::empty()
    } else if s[0] == '#' {
        Seq::empty()
    } else if is_space(s[0]) {
        normalize_spec(s.skip(1))
    } else {
        seq![s[0]] + normalize_spec(s.skip(1))
    }
}

/// The characters of a string, in order, as a vector.
pub(crate) fn chars_of(s: &str) -> (v: Vec<char>)
    ensures
        v@ == s@,
{
    let mut it = s.chars();
    let mut v: Vec<char> = Vec::new();
    proof {
        assert(v@ + it.remaining() =~= s@);
    }
    loop
        invariant
            it.obeys_prophetic_iter_laws(),
            it.decrease() is Some,
            v@ + it.remaining() == s@,
        ensures
            v@ == s@,
        decreases it.decrease()->0,
    {
        let ghost prev = it.remaining();
        match it.next() {
            Some(c) => {
                proof {
                    assert(v@.push(c) + prev.drop_first() =~= v@ + prev);
                }
                v.push(c);
            },
            None => {
                proof {
                    assert(v@ + it.remaining() =~= v@);
                }
                break ;
            },
        }
    }
    v
}

/// Relies on `String`'s `FromIterator<char>` implementation: collecting
/// characters yields the string made of exactly those characters, in order.
#[verifier::external_body]
pub(crate) fn string_from_chars(v: &Vec<char>) -> (s: String)
    ensures
        s@ == v@,
{
    v.iter().collect()
}

/// Cleans up one line: removes every whitespace character and drops the first
/// `#` and everything after it.
pub fn line_trim(st: &str) -> (r: String)
    ensures
        r@ == normalize_spec(st@),
{
    let v = chars_of(st);
    let mut out: Vec<char> = Vec::new();
    let n = v.len();
    let mut i: usize = 0;
    proof {
        assert(st@.skip(0) =~= st@);
        assert(out@ + normalize_spec(st@) =~= normalize_spec(st@));
    }
    while i < n
        invariant
            i <= n,
            n == v.len(),
            v@ == st@,
            normalize_spec(st@) == out@ + normalize_spec(st@.skip(i as int)),
        decreases n - i,
    {
        let c = v[i];
        proof {
            assert(st@.skip(i as int)[0] == st@[i as int]);
            assert(st@.skip(i as int).skip(1) =~= st@.skip(i as int + 1));
        }
        if c == '#' {
            proof {
                assert(out@ + normalize_spec(st@.skip(i as int)) =~= out@);
            }
            return string_from_chars(&out);
        }
        if is_space_char(c) {
        } else {
            proof {
                assert(out@ + (seq![c] + normalize_spec(st@.skip(i as int + 1))) =~= out@.push(c)
                    + normalize_spec(st@.skip(i as int + 1)));
            }
            out.push(c);
        }
        i = i + 1;
    }
    proof {
        assert(st@.skip(n as int) =~= Seq::<char>::empty());
        assert(out@ + normalize_spec(st@.skip(n as int)) =~= out@);
    }
    string_from_chars(&out)
}

/// Multi-line normalization, one character at a time: whitespace dropped,
/// `#` starting a comment that the next newline ends.  `in_comment` says
/// whether the scan stands inside a comment.
pub open spec fn canon_at(s: Seq<char>, in_comment: bool) -> Seq<char>
    decreases s.len(),
{
    if s.len() == 0 {
        Seq::empty()
    } else if in_comment {
        canon_at(s.skip(1), s[0] != '\n')
    } else if s[0] == '#' {
        canon_at(s.skip(1), true)
    } else if is_space(s[0]) {
        canon_at(s.skip(1), false)
    } else {
        seq![s[0]] + canon_at(s.skip(1), false)
    }
}

/// A whole text normalized: every line stripped of whitespace and of its
/// trailing comment, and the lines run together.
pub open spec fn canon(s: Seq<char>) -> Seq<char> {
    canon_at(s, false)
}

/// Normalizes a block of text that may span several lines.
pub(crate) fn canon_chars(v: &Vec<char>) -> (out: Vec<char>)
    ensures
        out@ == canon(v@),
{
    let mut out: Vec<char> = Vec::new();
    let mut in_comment = false;
    let n = v.len();
    let mut i: usize = 0;
    proof {
        assert(v@.skip(0) =~= v@);
        assert(out@ + canon(v@) =~= canon(v@));
    }
    while i < n
        invariant
            i <= n,
            n == v.len(),
            canon(v@) == out@ + canon_at(v@.skip(i as int), in_comment),
        decreases n - i,
    {
        let c = v[i];
        proof {
            assert(v@.skip(i as int)[0] == v@[i as int]);
            assert(v@.skip(i as int).skip(1) =~= v@.skip(i as int + 1));
        }
        if in_comment {
            in_comment = c != '\n';
        } else if c == '#' {
            in_comment = true;
        } else if is_space_char(c) {
        } else {
            proof {
                assert(out@ + (seq![c] + canon_at(v@.skip(i as int + 1), false)) =~= out@.push(c)
                    + canon_at(v@.skip(i as int + 1), false));
            }
            out.push(c);
        }
        i = i + 1;
    }
    proof {
        assert(v@.skip(n as int) =~= Seq::<char>::empty());
        assert(out@ + canon_at(v@.skip(n as int), in_comment) =~= out@);
    }
    out
}

/// Inside a comment, text without a newline never comes back out.
proof fn lemma_canon_comment(s: Seq<char>)
    requires
        forall|k: int| 0 <= k < s.len() ==> s[k] != '\n',
    ensures
        canon_at(s, true) == Seq::<char>::empty(),
    decreases s.len(),
{
    if s.len() > 0 {
        assert forall|k: int| 0 <= k < s.skip(1).len() implies s.skip(1)[k] != '\n' by {
            assert(s.skip(1)[k] == s[k + 1]);
        }
        lemma_canon_comment(s.skip(1));
    }
}

/// On text without a newline — one physical line — whole-text normalization
/// and single-line normalization agree.
pub proof fn lemma_canon_line(s: Seq<char>)
    requires
        forall|k: int| 0 <= k < s.len() ==> s[k] != '\n',
    ensures
        canon(s) == normalize_spec(s),
    decreases s.len(),
{
    if s.len() > 0 {
        assert forall|k: int| 0 <= k < s.skip(1).len() implies s.skip(1)[k] != '\n' by {
            assert(s.skip(1)[k] == s[k + 1]);
        }
        if s[0] == '#' {
            lemma_canon_comment(s.skip(1));
        } else {
            lemma_canon_line(s.skip(1));
            assert(canon_at(s.skip(1), false) == canon(s.skip(1)));
        }
    }
}

/// The position of the first `c` at or after `i`.
pub open spec fn find_from(s: Seq<char>, i: int, c: char) -> Option<int>
    decreases s.len() - i,
{
    if i < 0 || i >= s.len() {
        None
    } else if s[i] == c {
        Some(i)
    } else {
        find_from(s, i + 1, c)
    }
}

/// What `find_from` yields: the first hit, with nothing equal to `c` before
/// it, or no hit at all.
pub proof fn lemma_find_from(s: Seq<char>, i: int, c: char)
    requires
        0 <= i <= s.len(),
    ensures
        match find_from(s, i, c) {
            Some(j) => i <= j < s.len() && s[j] == c && (forall|k: int| i <= k < j ==> s[k] != c),
            None => forall|k: int| i <= k < s.len() ==> s[k] != c,
        },
    decreases s.len() - i,
{
    if i < s.len() && s[i] != c {
        lemma_find_from(s, i + 1, c);
    }
}

pub(crate) fn find_char(v: &Vec<char>, from: usize, c: char) -> (r: Option<usize>)
    requires
        from <= v.len(),
    ensures
        match r {
            Some(j) => from <= j < v.len() && find_from(v@, from as int, c) == Some(j as int),
            None => find_from(v@, from as int, c) is None,
        },
{
    let n = v.len();
    let mut i: usize = from;
    while i < n
        invariant
            from <= i <= n,
            n == v.len(),
            find_from(v@, from as int, c) == find_from(v@, i as int, c),
        decreases n - i,
    {
        if v[i] == c {
            return Some(i);
        }
        i = i + 1;
    }
    None
}

/// How many times `c` occurs in `s`.
pub open spec fn count_char(s: Seq<char>, c: char) -> nat
    decreases s.len(),
{
    if s.len() == 0 {
        0
    } else {
        (if s[0] == c {
            1nat
        } else {
            0nat
        }) + count_char(s.skip(1), c)
    }
}

pub(crate) fn count_in(v: &Vec<char>, c: char) -> (n: usize)
    ensures
        n as nat == count_char(v@, c),
{
    let len = v.len();
    let mut n: usize = 0;
    let mut i: usize = 0;
    proof {
        assert(v@.skip(0) =~= v@);
    }
    while i < len
        invariant
            i <= len,
            n <= i,
            len == v.len(),
            count_char(v@, c) == n as nat + count_char(v@.skip(i as int), c),
        decreases len - i,
    {
        proof {
            assert(v@.skip(i as int)[0] == v@[i as int]);
            assert(v@.skip(i as int).skip(1) =~= v@.skip(i as int + 1));
        }
        if v[i] == c {
            n = n + 1;
        }
        i = i + 1;
    }
    proof {
        assert(v@.skip(len as int) =~= Seq::<char>::empty());
    }
    n
}

/// Whether a token coerces to `true`: a case-insensitive prefix match against
/// `yes` and `true`.  Everything else, the empty token included, gives
/// `false`.
pub open spec fn coerce_spec(t: Seq<char>) -> bool {
    ||| (t.len() >= 3 && (t[0] == 'y' || t[0] == 'Y') && (t[1] == 'e' || t[1] == 'E') && (t[2]
        == 's' || t[2] == 'S'))
    ||| (t.len() >= 4 && (t[0] == 't' || t[0] == 'T') && (t[1] == 'r' || t[1] == 'R') && (t[2]
        == 'u' || t[2] == 'U') && (t[3] == 'e' || t[3] == 'E'))
}

pub(crate) fn coerce_vec(v: &Vec<char>) -> (r: bool)
    ensures
        r == coerce_spec(v@),
{
    let yes = v.len() >= 3 && (v[0] == 'y' || v[0] == 'Y') && (v[1] == 'e' || v[1] == 'E') && (v[2]
        == 's' || v[2] == 'S');
    let tru = v.len() >= 4 && (v[0] == 't' || v[0] == 'T') && (v[1] == 'r' || v[1] == 'R') && (v[2]
        == 'u' || v[2] == 'U') && (v[3] == 'e' || v[3] == 'E');
    yes || tru
}

/// Total boolean coercion of a token; it never fails, it only ever defaults
/// to `false` for anything unrecognized.
pub fn coerce_bool(token: &str) -> (r: bool)
    ensures
        r == coerce_spec(token@),
{
    let v = chars_of(token);
    coerce_vec(&v)
}

} // verus!
