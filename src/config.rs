//! Run options, and the decisions taken from them at startup.
use vstd::prelude::*;
use crate::text::{split_on, split_pieces};

verus! {

/// The options of one run.
#[derive(Clone, Debug)]
pub struct SQLdumpRust {
    /// Table names separated by `,`; `None` dumps every table of the schema.
    pub tables: Option<String>,
    /// Whether each table's DDL is preceded by a `DROP TABLE` statement.
    pub drop: bool,
    /// Connect string, as in `admin/pass@//123.45.67.89/XEPDB1`.
    pub ocistring: Option<String>,
    /// Name of an environment variable that holds the connect string.
    pub dbenv: Option<String>,
}

/// The state shared by every table of one run: it is set once, at startup.
#[derive(Clone, Copy, Debug)]
pub struct AppState {
    pub drop: bool,
}

impl Default for AppState {
    fn default() -> (r: AppState)
        ensures
            !r.drop,
    {
        AppState { drop: false }
    }
}

/// The connect string that a run uses: the one read from the environment
/// where there is one, else the one given, else empty.
pub open spec fn chosen_ocistring(given: Option<String>, from_env: Option<String>) -> Seq<char> {
    match from_env {
        Some(e) => e@,
        None => match given {
            Some(g) => g@,
            None => Seq::empty(),
        },
    }
}

/// A connect string of the form `user/password@connect`: it holds an `@`,
/// and the part before its first `@` holds a `/`.
pub open spec fn divisible(s: Seq<char>) -> bool {
    split_pieces(s, '@').len() >= 2 && split_pieces(split_pieces(s, '@')[0], '/').len() >= 2
}

/// User name, password and connect part of a connect string: the text before
/// the first `/`, the text between the first `/` and the next `/` (or the
/// `@`), and the text between the first `@` and the next `@`.
pub open spec fn ocistring_parts(s: Seq<char>) -> Seq<Seq<char>> {
    let at = split_pieces(s, '@');
    let slash = split_pieces(at[0], '/');
    seq![slash[0], slash[1], at[1]]
}

impl SQLdumpRust {
    /// The explicit list of tables, split at each `,`, without any check;
    /// `None` where no list was given.
    pub fn explicit_tables(&self) -> (r: Option<Vec<String>>)
        ensures
            r is None <==> self.tables is None,
            r matches Some(v) ==> v@.map_values(|p: String| p@) == split_pieces(
                self.tables->0@,
                ',',
            ),
    {
        match &self.tables {
            Some(t) => Some(split_on(t.as_str(), ',')),
            None => None,
        }
    }

    /// The connect string of the run, where `from_env` is the value of the
    /// variable that `dbenv` names, if it was read; `None` where that string
    /// is empty.
    pub fn connect_string(&self, from_env: Option<String>) -> (r: Option<String>)
        ensures
            r is None <==> chosen_ocistring(self.ocistring, from_env).len() == 0,
            r matches Some(s) ==> s@ == chosen_ocistring(self.ocistring, from_env),
    {
        let chosen = match from_env {
            Some(e) => e,
            None => match &self.ocistring {
                Some(g) => g.clone(),
                None => String::new(),
            },
        };
        if chosen.as_str().unicode_len() == 0 {
            None
        } else {
            Some(chosen)
        }
    }
}

/// Whether `divide_ocistring` can take the string apart.
pub fn ocistring_is_divisible(s: &str) -> (r: bool)
    ensures
        r == divisible(s@),
{
    let at = split_on(s, '@');
    proof {
        assert(at@.map_values(|p: String| p@).len() == at@.len());
    }
    if at.len() < 2 {
        return false;
    }
    let slash = split_on(at[0].as_str(), '/');
    proof {
        assert(at@.map_values(|p: String| p@)[0] == at@[0]@);
        assert(slash@.map_values(|p: String| p@).len() == slash@.len());
    }
    slash.len() >= 2
}

/// Takes a connect string `user/password@connect` apart into its user name,
/// password and connect part.
pub fn divide_ocistring(ocistring: String) -> (r: Vec<String>)
    requires
        divisible(ocistring@),
    ensures
        r@.map_values(|p: String| p@) == ocistring_parts(ocistring@),
{
    let atmarksep = split_on(ocistring.as_str(), '@');
    let ghost at = atmarksep@.map_values(|p: String| p@);
    assert(at.len() == atmarksep@.len());
    assert(at[0] == atmarksep@[0]@ && at[1] == atmarksep@[1]@);
    let slashsep = split_on(atmarksep[0].as_str(), '/');
    let ghost slash = slashsep@.map_values(|p: String| p@);
    assert(slash.len() == slashsep@.len());
    assert(slash[0] == slashsep@[0]@ && slash[1] == slashsep@[1]@);
    let mut v: Vec<String> = Vec::new();
    v.push(slashsep[0].clone());
    v.push(slashsep[1].clone());
    v.push(atmarksep[1].clone());
    assert(v@.map_values(|p: String| p@) =~= ocistring_parts(ocistring@));
    v
}

} // verus!
