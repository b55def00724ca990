//! The repository record and the parser's error taxonomy.

use vstd::prelude::*;
use vstd::string::StringExecFns;

verus! {

/// The ways a candidate block can fail to parse.  A failing block is dropped
/// and scanning continues; no failure here is fatal.
#[derive(Debug, Clone, Copy, PartialEq, Eq, Structural)]
pub enum MyError {
    /// The block has no recognizable `name:{` head.
    NameError,
    /// The body between the braces does not follow the key/value grammar.
    SyntaxError,
    /// The body names a `url` that is not a well-formed absolute URL.
    URLError,
}

/// The abstract value of a [`Repo`]: its fields as mathematical sequences.
pub struct RepoModel {
    pub name: Seq<char>,
    pub url: Option<Seq<char>>,
    pub enabled: bool,
}

/// One repository record.  `name` is the merge key; `url`, when present, is
/// the normalized serialization of a well-formed absolute URL.
#[derive(Debug)]
pub struct Repo {
    pub name: String,
    pub url: Option<String>,
    pub enabled: bool,
}

impl View for Repo {
    type V = RepoModel;

    open spec fn view(&self) -> RepoModel {
        RepoModel {
            name: self.name@,
            url: match self.url {
                Some(u) => Some(u@),
                None => None,
            },
            enabled: self.enabled,
        }
    }
}

impl PartialEq for Repo {
    fn eq(&self, other: &Repo) -> (r: bool) {
        let name_eq = self.name == other.name;
        let url_eq = match (&self.url, &other.url) {
            (Some(a), Some(b)) => *a == *b,
            (None, None) => true,
            _ => false,
        };
        let en_eq = self.enabled == other.enabled;
        name_eq && url_eq && en_eq
    }
}

impl vstd::std_specs::cmp::PartialEqSpecImpl for Repo {
    open spec fn obeys_eq_spec() -> bool {
        true
    }

    open spec fn eq_spec(&self, other: &Repo) -> bool {
        self@ == other@
    }
}

/// The value of a record before any field of a block reaches it: no name, no
/// URL, and enabled.
pub open spec fn fresh_repo() -> RepoModel {
    RepoModel { name: Seq::empty(), url: None, enabled: true }
}

impl Repo {
    /// An empty record; `enabled` starts `true`, the default a block keeps
    /// when it names no `enabled` key.
    pub fn new() -> (r: Repo)
        ensures
            r@ == fresh_repo(),
    {
        Repo { name: String::new(), url: None, enabled: true }
    }

    /// One line of presentation: the name, the flag, and the URL when one is
    /// known.
    pub fn render(&self) -> (s: String)
        ensures
            s@ == render_spec(self@),
    {
        let mut s = String::new();
        s.append(self.name.as_str());
        s.append(" [enabled:");
        if self.enabled {
            s.append("true");
        } else {
            s.append("false");
        }
        match &self.url {
            Some(u) => {
                s.append("url:");
                s.append(u.as_str());
            },
            None => {},
        }
        s.append("]");
        proof {
            assert(s@ =~= render_spec(self@));
        }
        s
    }
}

/// What [`Repo::render`] yields.
pub open spec fn render_spec(m: RepoModel) -> Seq<char> {
    m.name + " [enabled:"@ + (if m.enabled {
        "true"@
    } else {
        "false"@
    }) + (match m.url {
        Some(u) => "url:"@ + u,
        None => Seq::empty(),
    }) + "]"@
}

} // verus!
