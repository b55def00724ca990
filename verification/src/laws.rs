//! Laws that relate the components: what whole well-formed blocks parse to.

use vstd::prelude::*;

use crate::parse::body_end;
use crate::parse::body_step;
use crate::parse::commit_entry;
use crate::parse::enabled_key;
use crate::parse::find_close;
use crate::parse::parse_body_spec;
use crate::parse::parse_string_spec;
use crate::parse::scan_body;
use crate::parse::url_key;
use crate::parse::BodyFields;
use crate::parse::BodyPhase;
use crate::record::MyError;
use crate::record::RepoModel;
use crate::text::canon;
use crate::text::canon_at;
use crate::text::coerce_spec;
use crate::text::find_from;
use crate::text::is_space;
use crate::text::lemma_find_from;
use crate::urlcheck::url_normal;

verus! {

/// A character that may stand in a section name without disturbing the
/// block's structure: not whitespace, not a comment mark, and not one of the
/// two characters that end the name.
pub open spec fn name_char(c: char) -> bool {
    !is_space(c) && c != '#' && c != ':' && c != '{'
}

/// A character that may stand in a quoted URL value: not whitespace, not a
/// comment mark, not a quote, and not a brace (braces are counted even
/// inside quotes when the closing brace of the block is sought).
pub open spec fn url_char(c: char) -> bool {
    !is_space(c) && c != '#' && c != '"' && c != '{' && c != '}'
}

/// The text `:{enabled:yes}`.
pub open spec fn enabled_yes_tail() -> Seq<char> {
    seq![':', '{', 'e', 'n', 'a', 'b', 'l', 'e', 'd', ':', 'y', 'e', 's', '}']
}

/// The text `:{url:"`.
pub open spec fn url_open_tail() -> Seq<char> {
    seq![':', '{', 'u', 'r', 'l', ':', '"']
}

/// The text `"}`.
pub open spec fn url_close_tail() -> Seq<char> {
    seq!['"', '}']
}

/// Normalization does not touch text that holds no whitespace and no
/// comment mark.
proof fn lemma_canon_clean(s: Seq<char>)
    requires
        forall|k: int| 0 <= k < s.len() ==> s[k] != '#' && !is_space(s[k]),
    ensures
        canon(s) == s,
    decreases s.len(),
{
    if s.len() == 0 {
        assert(canon(s) =~= s);
    } else {
        lemma_canon_clean(s.skip(1));
        assert(seq![s[0]] + s.skip(1) =~= s);
    }
}

/// A character with nothing equal to it before it is what the search finds.
proof fn lemma_find_first_at(s: Seq<char>, c: char, j: int)
    requires
        0 <= j < s.len(),
        s[j] == c,
        forall|k: int| 0 <= k < j ==> s[k] != c,
    ensures
        find_from(s, 0, c) == Some(j),
{
    lemma_find_from(s, 0, c);
    match find_from(s, 0, c) {
        Some(j2) => {
            if j2 < j {
                assert(s[j2] != c);
            } else if j < j2 {
                assert(s[j] != c);
            }
        },
        None => {
            assert(s[j] != c);
        },
    }
}

/// A stretch without braces ends at the closing brace that the search for a
/// balanced close finds.
proof fn lemma_find_close_clean(s: Seq<char>, i: int, j: int)
    requires
        0 <= i <= j < s.len(),
        s[j] == '}',
        forall|k: int| i <= k < j ==> s[k] != '{' && s[k] != '}',
    ensures
        find_close(s, i, 0) == Some(j),
    decreases j - i,
{
    if i < j {
        lemma_find_close_clean(s, i + 1, j);
    }
}

/// Scanning quoted text gathers it into the value, character by character,
/// as long as no quote appears.
proof fn lemma_scan_quoted(
    b: Seq<char>,
    i: int,
    j: int,
    key: Seq<char>,
    val: Seq<char>,
    f: BodyFields,
)
    requires
        0 <= i <= j <= b.len(),
        forall|k: int| i <= k < j ==> b[k] != '"',
    ensures
        scan_body(b, i, BodyPhase::InQuoted { key, val }, f) == scan_body(
            b,
            j,
            BodyPhase::InQuoted { key, val: val + b.subrange(i, j) },
            f,
        ),
    decreases j - i,
{
    if i == j {
        assert(val + b.subrange(i, j) =~= val);
    } else {
        lemma_scan_quoted(b, i + 1, j, key, val.push(b[i]), f);
        assert(val.push(b[i]) + b.subrange(i + 1, j) =~= val + b.subrange(i, j));
    }
}

/// The body `enabled:yes` binds `enabled` to `true` and nothing else.
proof fn lemma_body_enabled_yes(b: Seq<char>)
    requires
        b == seq!['e', 'n', 'a', 'b', 'l', 'e', 'd', ':', 'y', 'e', 's'],
    ensures
        parse_body_spec(b) == Some(BodyFields { enabled: Some(true), url: None }),
{
    let f0 = BodyFields { enabled: None, url: None };
    let k0 = Seq::<char>::empty();
    assert(scan_body(b, 0, BodyPhase::InKey { key: k0 }, f0) == scan_body(
        b,
        1,
        BodyPhase::InKey { key: seq!['e'] },
        f0,
    )) by {
        assert(k0.push('e') =~= seq!['e']);
    }
    assert(scan_body(b, 1, BodyPhase::InKey { key: seq!['e'] }, f0) == scan_body(
        b,
        2,
        BodyPhase::InKey { key: seq!['e', 'n'] },
        f0,
    )) by {
        assert(seq!['e'].push('n') =~= seq!['e', 'n']);
    }
    assert(scan_body(b, 2, BodyPhase::InKey { key: seq!['e', 'n'] }, f0) == scan_body(
        b,
        3,
        BodyPhase::InKey { key: seq!['e', 'n', 'a'] },
        f0,
    )) by {
        assert(seq!['e', 'n'].push('a') =~= seq!['e', 'n', 'a']);
    }
    assert(scan_body(b, 3, BodyPhase::InKey { key: seq!['e', 'n', 'a'] }, f0) == scan_body(
        b,
        4,
        BodyPhase::InKey { key: seq!['e', 'n', 'a', 'b'] },
        f0,
    )) by {
        assert(seq!['e', 'n', 'a'].push('b') =~= seq!['e', 'n', 'a', 'b']);
    }
    assert(scan_body(b, 4, BodyPhase::InKey { key: seq!['e', 'n', 'a', 'b'] }, f0) == scan_body(
        b,
        5,
        BodyPhase::InKey { key: seq!['e', 'n', 'a', 'b', 'l'] },
        f0,
    )) by {
        assert(seq!['e', 'n', 'a', 'b'].push('l') =~= seq!['e', 'n', 'a', 'b', 'l']);
    }
    assert(scan_body(b, 5, BodyPhase::InKey { key: seq!['e', 'n', 'a', 'b', 'l'] }, f0)
        == scan_body(b, 6, BodyPhase::InKey { key: seq!['e', 'n', 'a', 'b', 'l', 'e'] }, f0)) by {
        assert(seq!['e', 'n', 'a', 'b', 'l'].push('e') =~= seq!['e', 'n', 'a', 'b', 'l', 'e']);
    }
    assert(scan_body(b, 6, BodyPhase::InKey { key: seq!['e', 'n', 'a', 'b', 'l', 'e'] }, f0)
        == scan_body(b, 7, BodyPhase::InKey { key: enabled_key() }, f0)) by {
        assert(seq!['e', 'n', 'a', 'b', 'l', 'e'].push('d') =~= enabled_key());
    }
    assert(scan_body(b, 7, BodyPhase::InKey { key: enabled_key() }, f0) == scan_body(
        b,
        8,
        BodyPhase::AtValue { key: enabled_key() },
        f0,
    ));
    assert(scan_body(b, 8, BodyPhase::AtValue { key: enabled_key() }, f0) == scan_body(
        b,
        9,
        BodyPhase::InBare { key: enabled_key(), val: seq!['y'] },
        f0,
    ));
    assert(scan_body(b, 9, BodyPhase::InBare { key: enabled_key(), val: seq!['y'] }, f0)
        == scan_body(b, 10, BodyPhase::InBare { key: enabled_key(), val: seq!['y', 'e'] }, f0))
        by {
        assert(seq!['y'].push('e') =~= seq!['y', 'e']);
    }
    assert(scan_body(b, 10, BodyPhase::InBare { key: enabled_key(), val: seq!['y', 'e'] }, f0)
        == scan_body(b, 11, BodyPhase::InBare { key: enabled_key(), val: seq!['y', 'e', 's'] }, f0))
        by {
        assert(seq!['y', 'e'].push('s') =~= seq!['y', 'e', 's']);
    }
    assert(scan_body(b, 11, BodyPhase::InBare { key: enabled_key(), val: seq!['y', 'e', 's'] }, f0)
        == body_end(BodyPhase::InBare { key: enabled_key(), val: seq!['y', 'e', 's'] }, f0));
    assert(coerce_spec(seq!['y', 'e', 's']));
    assert(commit_entry(f0, enabled_key(), seq!['y', 'e', 's'], false) == (BodyFields {
        enabled: Some(true),
        url: None,
    }));
}

/// Every well-formed single block `name:{enabled:yes}` parses to a record
/// with that name, the flag set, and no URL.
pub proof fn lemma_parse_single_block(name: Seq<char>)
    requires
        name.len() > 0,
        forall|k: int| 0 <= k < name.len() ==> name_char(#[trigger] name[k]),
    ensures
        parse_string_spec(name + enabled_yes_tail()) == Ok::<RepoModel, MyError>(
            RepoModel { name: name, url: None, enabled: true },
        ),
{
    let tail = enabled_yes_tail();
    let s = name + tail;
    let nl = name.len() as int;
    assert forall|k: int| 0 <= k < s.len() implies s[k] != '#' && !is_space(#[trigger] s[k]) by {
        if k < nl {
            assert(s[k] == name[k]);
        } else {
            assert(s[k] == tail[k - nl]);
        }
    }
    lemma_canon_clean(s);
    assert forall|k: int| 0 <= k < nl implies s[k] != ':' && s[k] != '{' by {
        assert(s[k] == name[k]);
    }
    lemma_find_first_at(s, ':', nl);
    lemma_find_first_at(s, '{', nl + 1);
    lemma_find_close_clean(s, nl + 2, nl + 13);
    let body = s.subrange(nl + 2, nl + 13);
    assert(body =~= seq!['e', 'n', 'a', 'b', 'l', 'e', 'd', ':', 'y', 'e', 's']);
    lemma_body_enabled_yes(body);
    assert(s.take(nl) =~= name);
}

/// Every well-formed block `name:{url:"u"}` parses to a record with that
/// name, the default flag, and the URL `u` names when `u` is a well-formed
/// absolute URL; when it is not, the block fails with `URLError` and yields
/// no record.
pub proof fn lemma_parse_url_block(name: Seq<char>, u: Seq<char>)
    requires
        name.len() > 0,
        forall|k: int| 0 <= k < name.len() ==> name_char(#[trigger] name[k]),
        forall|k: int| 0 <= k < u.len() ==> url_char(#[trigger] u[k]),
    ensures
        match url_normal(u) {
            Some(nu) => parse_string_spec(name + url_open_tail() + u + url_close_tail())
                == Ok::<RepoModel, MyError>(RepoModel { name: name, url: Some(nu), enabled: true }),
            None => parse_string_spec(name + url_open_tail() + u + url_close_tail())
                == Err::<RepoModel, MyError>(MyError::URLError),
        },
{
    let head = url_open_tail();
    let close = url_close_tail();
    let s = name + head + u + close;
    let nl = name.len() as int;
    let ul = u.len() as int;
    assert forall|k: int| 0 <= k < s.len() implies s[k] != '#' && !is_space(#[trigger] s[k]) by {
        if k < nl {
            assert(s[k] == name[k]);
        } else if k < nl + 7 {
            assert(s[k] == head[k - nl]);
        } else if k < nl + 7 + ul {
            assert(s[k] == u[k - nl - 7]);
        } else {
            assert(s[k] == close[k - nl - 7 - ul]);
        }
    }
    lemma_canon_clean(s);
    assert forall|k: int| 0 <= k < nl implies s[k] != ':' && s[k] != '{' by {
        assert(s[k] == name[k]);
    }
    lemma_find_first_at(s, ':', nl);
    lemma_find_first_at(s, '{', nl + 1);
    assert forall|k: int| nl + 2 <= k < nl + 7 + ul + 1 implies s[k] != '{' && s[k] != '}' by {
        if k < nl + 7 {
            assert(s[k] == head[k - nl]);
        } else if k < nl + 7 + ul {
            assert(s[k] == u[k - nl - 7]);
        } else {
            assert(s[k] == close[k - nl - 7 - ul]);
        }
    }
    assert(s[nl + 7 + ul + 1] == close[1]);
    lemma_find_close_clean(s, nl + 2, nl + 7 + ul + 1);
    let body = s.subrange(nl + 2, nl + 7 + ul + 1);
    let bul = ul;
    assert(body.len() == 5 + ul + 1);
    let f0 = BodyFields { enabled: None, url: None };
    let k0 = Seq::<char>::empty();
    assert(body[0] == 'u' && body[1] == 'r' && body[2] == 'l' && body[3] == ':' && body[4] == '"')
        by {
        assert(body[0] == s[nl + 2] && s[nl + 2] == head[2]);
        assert(body[1] == s[nl + 3] && s[nl + 3] == head[3]);
        assert(body[2] == s[nl + 4] && s[nl + 4] == head[4]);
        assert(body[3] == s[nl + 5] && s[nl + 5] == head[5]);
        assert(body[4] == s[nl + 6] && s[nl + 6] == head[6]);
    }
    assert(scan_body(body, 0, BodyPhase::InKey { key: k0 }, f0) == scan_body(
        body,
        1,
        BodyPhase::InKey { key: seq!['u'] },
        f0,
    )) by {
        assert(k0.push('u') =~= seq!['u']);
    }
    assert(scan_body(body, 1, BodyPhase::InKey { key: seq!['u'] }, f0) == scan_body(
        body,
        2,
        BodyPhase::InKey { key: seq!['u', 'r'] },
        f0,
    )) by {
        assert(seq!['u'].push('r') =~= seq!['u', 'r']);
    }
    assert(scan_body(body, 2, BodyPhase::InKey { key: seq!['u', 'r'] }, f0) == scan_body(
        body,
        3,
        BodyPhase::InKey { key: url_key() },
        f0,
    )) by {
        assert(seq!['u', 'r'].push('l') =~= url_key());
    }
    assert(scan_body(body, 3, BodyPhase::InKey { key: url_key() }, f0) == scan_body(
        body,
        4,
        BodyPhase::AtValue { key: url_key() },
        f0,
    ));
    assert(scan_body(body, 4, BodyPhase::AtValue { key: url_key() }, f0) == scan_body(
        body,
        5,
        BodyPhase::InQuoted { key: url_key(), val: k0 },
        f0,
    ));
    assert forall|k: int| 5 <= k < 5 + ul implies body[k] != '"' by {
        assert(body[k] == s[nl + 2 + k]);
        assert(s[nl + 2 + k] == u[k - 5]);
    }
    lemma_scan_quoted(body, 5, 5 + ul, url_key(), k0, f0);
    assert(k0 + body.subrange(5, 5 + ul) =~= u) by {
        assert forall|k: int| 0 <= k < ul implies body.subrange(5, 5 + ul)[k] == u[k] by {
            assert(body.subrange(5, 5 + ul)[k] == body[5 + k]);
            assert(body[5 + k] == s[nl + 7 + k]);
            assert(s[nl + 7 + k] == u[k]);
        }
    }
    assert(body[5 + ul] == '"') by {
        assert(body[5 + ul] == s[nl + 7 + ul]);
        assert(s[nl + 7 + ul] == close[0]);
    }
    let f1 = commit_entry(f0, url_key(), u, true);
    assert(f1 == (BodyFields { enabled: None, url: Some(u) }));
    assert(scan_body(body, 5 + ul, BodyPhase::InQuoted { key: url_key(), val: u }, f0)
        == scan_body(body, 5 + ul + 1, BodyPhase::AfterQuote, f1));
    assert(scan_body(body, 5 + ul + 1, BodyPhase::AfterQuote, f1) == body_end(
        BodyPhase::AfterQuote,
        f1,
    ));
    assert(parse_body_spec(body) == Some(f1));
    assert(s.take(nl) =~= name);
}

} // verus!
