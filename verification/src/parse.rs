//! The section parser: from one normalized candidate block to a record.
//!
//! A block has the shape `name:{body}`.  The body is a comma-separated list
//! of `key:value` entries; `enabled` binds a bare token that is coerced to a
//! boolean, `url` binds a double-quoted string that must parse as an absolute
//! URL.  Unknown keys, and known keys bound to the wrong value shape, are
//! ignored.  A later entry for the same key wins.  Braces outside quotes in
//! the body are rejected: nested objects are not recognized.

use vstd::prelude::*;

use crate::record::fresh_repo;
use crate::record::MyError;
use crate::record::Repo;
use crate::record::RepoModel;
use crate::text::canon;
use crate::text::canon_chars;
use crate::text::chars_of;
use crate::text::coerce_spec;
use crate::text::coerce_vec;
use crate::text::find_char;
use crate::text::find_from;
use crate::text::string_from_chars;
use crate::urlcheck::parse_url;
use crate::urlcheck::url_normal;

verus! {

/// The key that binds the boolean flag.
pub open spec fn enabled_key() -> Seq<char> {
    seq!['e', 'n', 'a', 'b', 'l', 'e', 'd']
}

/// The key that binds the URL.
pub open spec fn url_key() -> Seq<char> {
    seq!['u', 'r', 'l']
}

/// The two fields a body can bind, each absent until an entry binds it.
pub struct BodyFields {
    pub enabled: Option<bool>,
    pub url: Option<Seq<char>>,
}

/// Where the body scan stands between two characters.
pub enum BodyPhase {
    /// Reading a key, `:` still ahead.
    InKey { key: Seq<char> },
    /// Just past the `:`, the value not begun.
    AtValue { key: Seq<char> },
    /// Reading a bare (unquoted) value.
    InBare { key: Seq<char>, val: Seq<char> },
    /// Reading a quoted value, the closing quote still ahead.
    InQuoted { key: Seq<char>, val: Seq<char> },
    /// Just past a closing quote; only `,` or the end may follow.
    AfterQuote,
}

/// One completed entry folded into the fields: a bare value binds `enabled`,
/// a quoted value binds `url`, and any other combination is ignored.
pub open spec fn commit_entry(f: BodyFields, key: Seq<char>, val: Seq<char>, quoted: bool) -> BodyFields {
    if !quoted && key == enabled_key() {
        BodyFields { enabled: Some(coerce_spec(val)), url: f.url }
    } else if quoted && key == url_key() {
        BodyFields { enabled: f.enabled, url: Some(val) }
    } else {
        f
    }
}

/// One character of body consumed; `None` is a grammar violation.
pub open spec fn body_step(ph: BodyPhase, f: BodyFields, c: char) -> Option<(BodyPhase, BodyFields)> {
    match ph {
        BodyPhase::InKey { key } => {
            if c == ':' {
                Some((BodyPhase::AtValue { key }, f))
            } else if c == ',' || c == '{' || c == '}' {
                None
            } else {
                Some((BodyPhase::InKey { key: key.push(c) }, f))
            }
        },
        BodyPhase::AtValue { key } => {
            if c == '"' {
                Some((BodyPhase::InQuoted { key, val: Seq::empty() }, f))
            } else if c == ',' {
                Some(
                    (
                        BodyPhase::InKey { key: Seq::empty() },
                        commit_entry(f, key, Seq::empty(), false),
                    ),
                )
            } else if c == '{' || c == '}' {
                None
            } else {
                Some((BodyPhase::InBare { key, val: seq![c] }, f))
            }
        },
        BodyPhase::InBare { key, val } => {
            if c == ',' {
                Some((BodyPhase::InKey { key: Seq::empty() }, commit_entry(f, key, val, false)))
            } else if c == '{' || c == '}' {
                None
            } else {
                Some((BodyPhase::InBare { key, val: val.push(c) }, f))
            }
        },
        BodyPhase::InQuoted { key, val } => {
            if c == '"' {
                Some((BodyPhase::AfterQuote, commit_entry(f, key, val, true)))
            } else {
                Some((BodyPhase::InQuoted { key, val: val.push(c) }, f))
            }
        },
        BodyPhase::AfterQuote => {
            if c == ',' {
                Some((BodyPhase::InKey { key: Seq::empty() }, f))
            } else {
                None
            }
        },
    }
}

/// The body ends: a dangling key or an open quote is a violation; a pending
/// value is committed; a trailing comma or an empty body is tolerated.
pub open spec fn body_end(ph: BodyPhase, f: BodyFields) -> Option<BodyFields> {
    match ph {
        BodyPhase::InKey { key } => if key.len() == 0 {
            Some(f)
        } else {
            None
        },
        BodyPhase::AtValue { key } => Some(commit_entry(f, key, Seq::empty(), false)),
        BodyPhase::InBare { key, val } => Some(commit_entry(f, key, val, false)),
        BodyPhase::InQuoted { .. } => None,
        BodyPhase::AfterQuote => Some(f),
    }
}

/// The scan from position `i` on, in phase `ph` with fields `f` so far.
pub open spec fn scan_body(b: Seq<char>, i: int, ph: BodyPhase, f: BodyFields) -> Option<
    BodyFields,
>
    decreases b.len() - i,
{
    if i < 0 || i >= b.len() {
        body_end(ph, f)
    } else {
        match body_step(ph, f, b[i]) {
            None => None,
            Some((ph2, f2)) => scan_body(b, i + 1, ph2, f2),
        }
    }
}

/// What the key/value grammar makes of a whole body, the braces excluded.
pub open spec fn parse_body_spec(b: Seq<char>) -> Option<BodyFields> {
    scan_body(
        b,
        0,
        BodyPhase::InKey { key: Seq::empty() },
        BodyFields { enabled: None, url: None },
    )
}

enum Phase {
    InKey { key: Vec<char> },
    AtValue { key: Vec<char> },
    InBare { key: Vec<char>, val: Vec<char> },
    InQuoted { key: Vec<char>, val: Vec<char> },
    AfterQuote,
}

spec fn phase_view(p: Phase) -> BodyPhase {
    match p {
        Phase::InKey { key } => BodyPhase::InKey { key: key@ },
        Phase::AtValue { key } => BodyPhase::AtValue { key: key@ },
        Phase::InBare { key, val } => BodyPhase::InBare { key: key@, val: val@ },
        Phase::InQuoted { key, val } => BodyPhase::InQuoted { key: key@, val: val@ },
        Phase::AfterQuote => BodyPhase::AfterQuote,
    }
}

spec fn fields_view(en: Option<bool>, ur: Option<Vec<char>>) -> BodyFields {
    BodyFields {
        enabled: en,
        url: match ur {
            Some(v) => Some(v@),
            None => None,
        },
    }
}

fn is_enabled_key(v: &Vec<char>) -> (r: bool)
    ensures
        r == (v@ == enabled_key()),
{
    let r = v.len() == 7 && v[0] == 'e' && v[1] == 'n' && v[2] == 'a' && v[3] == 'b' && v[4] == 'l'
        && v[5] == 'e' && v[6] == 'd';
    proof {
        if r {
            assert(v@ =~= enabled_key());
        }
    }
    r
}

fn is_url_key(v: &Vec<char>) -> (r: bool)
    ensures
        r == (v@ == url_key()),
{
    let r = v.len() == 3 && v[0] == 'u' && v[1] == 'r' && v[2] == 'l';
    proof {
        if r {
            assert(v@ =~= url_key());
        }
    }
    r
}

fn commit_exec(en: Option<bool>, ur: Option<Vec<char>>, key: &Vec<char>, val: Vec<char>, quoted: bool) -> (r: (
    Option<bool>,
    Option<Vec<char>>,
))
    ensures
        fields_view(r.0, r.1) == commit_entry(fields_view(en, ur), key@, val@, quoted),
{
    if !quoted && is_enabled_key(key) {
        (Some(coerce_vec(&val)), ur)
    } else if quoted && is_url_key(key) {
        (en, Some(val))
    } else {
        (en, ur)
    }
}

fn parse_body(b: &Vec<char>) -> (r: Option<(Option<bool>, Option<Vec<char>>)>)
    ensures
        match r {
            Some(f) => parse_body_spec(b@) == Some(fields_view(f.0, f.1)),
            None => parse_body_spec(b@) is None,
        },
{
    let n = b.len();
    let mut i: usize = 0;
    let mut phase = Phase::InKey { key: Vec::new() };
    let mut en: Option<bool> = None;
    let mut ur: Option<Vec<char>> = None;
    while i < n
        invariant
            i <= n,
            n == b.len(),
            parse_body_spec(b@) == scan_body(b@, i as int, phase_view(phase), fields_view(en, ur)),
        decreases n - i,
    {
        let c = b[i];
        phase = match phase {
            Phase::InKey { mut key } => {
                if c == ':' {
                    Phase::AtValue { key }
                } else if c == ',' || c == '{' || c == '}' {
                    return None;
                } else {
                    key.push(c);
                    Phase::InKey { key }
                }
            },
            Phase::AtValue { key } => {
                if c == '"' {
                    Phase::InQuoted { key, val: Vec::new() }
                } else if c == ',' {
                    let f2 = commit_exec(en, ur, &key, Vec::new(), false);
                    en = f2.0;
                    ur = f2.1;
                    Phase::InKey { key: Vec::new() }
                } else if c == '{' || c == '}' {
                    return None;
                } else {
                    let mut val: Vec<char> = Vec::new();
                    val.push(c);
                    proof {
                        assert(val@ =~= seq![c]);
                    }
                    Phase::InBare { key, val }
                }
            },
            Phase::InBare { key, mut val } => {
                if c == ',' {
                    let f2 = commit_exec(en, ur, &key, val, false);
                    en = f2.0;
                    ur = f2.1;
                    Phase::InKey { key: Vec::new() }
                } else if c == '{' || c == '}' {
                    return None;
                } else {
                    val.push(c);
                    Phase::InBare { key, val }
                }
            },
            Phase::InQuoted { key, mut val } => {
                if c == '"' {
                    let f2 = commit_exec(en, ur, &key, val, true);
                    en = f2.0;
                    ur = f2.1;
                    Phase::AfterQuote
                } else {
                    val.push(c);
                    Phase::InQuoted { key, val }
                }
            },
            Phase::AfterQuote => {
                if c == ',' {
                    Phase::InKey { key: Vec::new() }
                } else {
                    return None;
                }
            },
        };
        i = i + 1;
    }
    match phase {
        Phase::InKey { key } => {
            if key.len() == 0 {
                Some((en, ur))
            } else {
                None
            }
        },
        Phase::AtValue { key } => {
            let f2 = commit_exec(en, ur, &key, Vec::new(), false);
            Some((f2.0, f2.1))
        },
        Phase::InBare { key, val } => {
            let f2 = commit_exec(en, ur, &key, val, false);
            Some((f2.0, f2.1))
        },
        Phase::InQuoted { .. } => None,
        Phase::AfterQuote => Some((en, ur)),
    }
}

/// The name a normalized block declares: the text before the first colon,
/// provided a `{` follows somewhere after that colon.
pub open spec fn section_name_spec(s: Seq<char>) -> Option<Seq<char>> {
    match (find_from(s, 0, '{'), find_from(s, 0, ':')) {
        (Some(op), Some(co)) => if co <= op {
            Some(s.take(co))
        } else {
            None
        },
        _ => None,
    }
}

/// The section name of an already-normalized block, when one can be found.
pub fn get_section_name(st: &str) -> (r: Option<String>)
    ensures
        match r {
            Some(n) => section_name_spec(st@) == Some(n@),
            None => section_name_spec(st@) is None,
        },
{
    let v = chars_of(st);
    let op = match find_char(&v, 0, '{') {
        None => return None,
        Some(x) => x,
    };
    let co = match find_char(&v, 0, ':') {
        None => return None,
        Some(x) => x,
    };
    if co > op {
        return None;
    }
    let name = copy_range(&v, 0, co);
    Some(string_from_chars(&name))
}

/// The characters `v[from..to]`, copied out.
fn copy_range(v: &Vec<char>, from: usize, to: usize) -> (out: Vec<char>)
    requires
        from <= to <= v.len(),
    ensures
        out@ == v@.subrange(from as int, to as int),
{
    let mut out: Vec<char> = Vec::new();
    let mut j: usize = from;
    proof {
        assert(out@ =~= v@.subrange(from as int, from as int));
    }
    while j < to
        invariant
            from <= j <= to,
            to <= v.len(),
            out@ == v@.subrange(from as int, j as int),
        decreases to - j,
    {
        proof {
            assert(v@.subrange(from as int, j as int + 1) =~= v@.subrange(
                from as int,
                j as int,
            ).push(v@[j as int]));
        }
        out.push(v[j]);
        j = j + 1;
    }
    out
}

/// The position of the `}` that closes the brace opened just before `i`:
/// the first `}` at or after `i` once every `{` from `i` on is matched.
pub open spec fn find_close(s: Seq<char>, i: int, depth: int) -> Option<int>
    decreases s.len() - i,
{
    if i < 0 || i >= s.len() {
        None
    } else if s[i] == '}' {
        if depth == 0 {
            Some(i)
        } else {
            find_close(s, i + 1, depth - 1)
        }
    } else if s[i] == '{' {
        find_close(s, i + 1, depth + 1)
    } else {
        find_close(s, i + 1, depth)
    }
}

fn find_close_brace(v: &Vec<char>, start: usize) -> (r: Option<usize>)
    requires
        start <= v.len(),
    ensures
        match r {
            Some(j) => start <= j < v.len() && find_close(v@, start as int, 0) == Some(j as int),
            None => find_close(v@, start as int, 0) is None,
        },
{
    let n = v.len();
    let mut i: usize = start;
    let mut depth: usize = 0;
    while i < n
        invariant
            start <= i <= n,
            depth <= i,
            n == v.len(),
            find_close(v@, start as int, 0) == find_close(v@, i as int, depth as int),
        decreases n - i,
    {
        let c = v[i];
        if c == '}' {
            if depth == 0 {
                return Some(i);
            }
            depth = depth - 1;
        } else if c == '{' {
            depth = depth + 1;
        }
        i = i + 1;
    }
    None
}

/// What parsing a raw block yields: the record, or the error that names what
/// was wrong.  The block is normalized first, so callers may hand over raw
/// multi-line text.
pub open spec fn parse_string_spec(raw: Seq<char>) -> Result<RepoModel, MyError> {
    let t = canon(raw);
    match (find_from(t, 0, '{'), find_from(t, 0, ':')) {
        (Some(op), Some(co)) => {
            if co > op {
                Err(MyError::NameError)
            } else if co == 0 {
                Err(MyError::NameError)
            } else if op != co + 1 {
                Err(MyError::SyntaxError)
            } else {
                match find_close(t, op + 1, 0) {
                    None => Err(MyError::SyntaxError),
                    Some(cl) => match parse_body_spec(t.subrange(op + 1, cl)) {
                        None => Err(MyError::SyntaxError),
                        Some(f) => {
                            let en = match f.enabled {
                                Some(b) => b,
                                None => true,
                            };
                            match f.url {
                                None => Ok(RepoModel { name: t.take(co), url: None, enabled: en }),
                                Some(u) => match url_normal(u) {
                                    None => Err(MyError::URLError),
                                    Some(nu) => Ok(
                                        RepoModel { name: t.take(co), url: Some(nu), enabled: en },
                                    ),
                                },
                            }
                        },
                    },
                }
            }
        },
        _ => Err(MyError::NameError),
    }
}

/// Parses one repository description.  The name must be non-empty and stand
/// as `name:{`; the body must follow the key/value grammar; a `url` value
/// must parse as an absolute URL.  A body that does not name `enabled` keeps
/// the record's default, which is `true` — a deliberate configuration
/// decision, not an inference.  Anything after the closing brace of the body
/// is ignored.
pub fn parse_string(entry: String) -> (r: Result<Repo, MyError>)
    ensures
        match r {
            Ok(rep) => parse_string_spec(entry@) == Ok::<RepoModel, MyError>(rep@),
            Err(e) => parse_string_spec(entry@) == Err::<RepoModel, MyError>(e),
        },
{
    let raw = chars_of(entry.as_str());
    let t = canon_chars(&raw);
    let op = match find_char(&t, 0, '{') {
        None => return Err(MyError::NameError),
        Some(x) => x,
    };
    let co = match find_char(&t, 0, ':') {
        None => return Err(MyError::NameError),
        Some(x) => x,
    };
    if co > op {
        return Err(MyError::NameError);
    }
    if co == 0 {
        return Err(MyError::NameError);
    }
    if op != co + 1 {
        return Err(MyError::SyntaxError);
    }
    let cl = match find_close_brace(&t, op + 1) {
        None => return Err(MyError::SyntaxError),
        Some(x) => x,
    };
    let body = copy_range(&t, op + 1, cl);
    let (en, ur) = match parse_body(&body) {
        None => return Err(MyError::SyntaxError),
        Some(f) => f,
    };
    let name_chars = copy_range(&t, 0, co);
    proof {
        assert(t@.subrange(0, co as int) =~= t@.take(co as int));
    }
    let name = string_from_chars(&name_chars);
    let enabled = match en {
        Some(b) => b,
        None => true,
    };
    match ur {
        None => Ok(Repo { name, url: None, enabled }),
        Some(uv) => {
            let us = string_from_chars(&uv);
            match parse_url(us.as_str()) {
                None => Err(MyError::URLError),
                Some(nu) => Ok(Repo { name, url: Some(nu), enabled }),
            }
        },
    }
}

impl From<String> for Repo {
    /// Parses a string containing one repository description; a string that
    /// does not parse gives the fresh record.
    fn from(s: String) -> (r: Repo)
        ensures
            r@ == (match parse_string_spec(s@) {
                Ok(m) => m,
                Err(_) => fresh_repo(),
            }),
    {
        match parse_string(s) {
            Ok(x) => x,
            Err(_) => Repo::new(),
        }
    }
}

impl vstd::std_specs::convert::FromSpecImpl<String> for Repo {
    open spec fn obeys_from_spec() -> bool {
        false
    }

    open spec fn from_spec(v: String) -> Repo {
        arbitrary()
    }
}

} // verus!
