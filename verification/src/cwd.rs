//! The working directory section: the path, or only its last component.

use vstd::prelude::*;
use crate::text::{chars_of, string_from, split_char, split_char_exec, views, slice_of, joined, owned};
use crate::system::io_error_text;

verus! {

broadcast use vstd::string::group_string_axioms;

/// A `[[cwd]]` section: a variable name, whether to show only the last component, and
/// whether it is read in the background.
pub struct Config {
    pub name: Option<String>,
    pub shorten: bool,
    pub deferred: bool,
}

impl Default for Config {
    fn default() -> (c: Self)
        ensures
            c.name is None,
            !c.shorten,
            !c.deferred,
    {
        Config { name: None, shorten: false, deferred: false }
    }
}

/// The components of a path, as `Path::components` keeps them: the pieces between `/`
/// without the empty ones and without `.`.
pub open spec fn path_pieces(pieces: Seq<Seq<char>>) -> Seq<Seq<char>>
    decreases pieces.len(),
{
    if pieces.len() == 0 {
        Seq::empty()
    } else {
        path_pieces(pieces.drop_last()) + (if pieces.last().len() == 0 || pieces.last() == seq!['.'] {
            Seq::empty()
        } else {
            seq![pieces.last()]
        })
    }
}

/// `Path::file_name`: the last component unless it is `..`, and none for a path without
/// components (the root).
pub open spec fn file_name(p: Seq<char>) -> Option<Seq<char>> {
    let c = path_pieces(split_char(p, '/'));
    if c.len() == 0 || c.last() == seq!['.', '.'] {
        None
    } else {
        Some(c.last())
    }
}

/// The path is the root (`/`, however many slashes and `.` components).
pub open spec fn is_root(p: Seq<char>) -> bool {
    p.len() > 0 && p[0] == '/' && path_pieces(split_char(p, '/')).len() == 0
}

/// The text shown for a working directory: the whole path, or with `shorten` its last
/// component (`/` for the root, `.` where it has none).
pub open spec fn cwd_text(shorten: bool, p: Seq<char>) -> Seq<char> {
    if !shorten {
        p
    } else if is_root(p) {
        seq!['/']
    } else {
        match file_name(p) {
            Some(n) => n,
            None => seq!['.'],
        }
    }
}

fn components(p: &[char]) -> (out: Vec<Vec<char>>)
    ensures
        views(out@) == path_pieces(split_char(p@, '/')),
{
    let parts = split_char_exec(p, '/');
    let ghost ps = views(parts@);
    let mut out: Vec<Vec<char>> = Vec::new();
    let mut k: usize = 0;
    while k < parts.len()
        invariant
            k <= parts@.len(),
            ps == views(parts@),
            ps == split_char(p@, '/'),
            views(out@) == path_pieces(ps.take(k as int)),
        decreases parts@.len() - k,
    {
        proof {
            assert(ps.take(k + 1 as int).drop_last() =~= ps.take(k as int));
            assert(ps.take(k + 1 as int).last() == parts@[k as int]@);
        }
        let piece = &parts[k];
        if !(piece.len() == 0 || (piece.len() == 1 && piece[0] == '.')) {
            let ghost before = views(out@);
            out.push(slice_of(piece, 0, piece.len()));
            assert(piece@.subrange(0, piece@.len() as int) =~= piece@);
            assert(views(out@) =~= before + seq![piece@]);
        } else {
            assert(piece@.len() == 0 || piece@ =~= seq!['.']);
            assert(views(out@) =~= views(out@) + Seq::<Seq<char>>::empty());
        }
        k = k + 1;
    }
    assert(ps.take(k as int) =~= ps);
    out
}

/// The text shown for the working directory `path` under a configuration.
pub fn format_cwd(config: &Config, path: &str) -> (s: String)
    ensures
        s@ == cwd_text(config.shorten, path@),
{
    let p = chars_of(path);
    proof {
        reveal_strlit("/");
        reveal_strlit(".");
        assert("/"@ =~= seq!['/']);
        assert("."@ =~= seq!['.']);
    }
    if !config.shorten {
        return string_from(&p);
    }
    let c = components(&p);
    assert(views(c@).len() == c@.len());
    if p.len() > 0 && p[0] == '/' && c.len() == 0 {
        return string_from(&chars_of("/"));
    }
    if c.len() == 0 {
        return string_from(&chars_of("."));
    }
    let last = &c[c.len() - 1];
    assert(views(c@).last() == last@);
    if last.len() == 2 && last[0] == '.' && last[1] == '.' {
        assert(last@ =~= seq!['.', '.']);
        string_from(&chars_of("."))
    } else {
        assert(last@ != seq!['.', '.']);
        string_from(last)
    }
}


/// The working directory could not be had: the system refused, or the path is not UTF-8
/// (the error holds the path's debug text, quoted and escaped as `{:?}` writes it).
#[derive(Debug)]
pub enum CwdError {
    GetCwd(std::io::Error),
    ToString(String),
}

impl CwdError {
    /// The message of the error.
    pub fn to_string(&self) -> (s: String)
        ensures
            (match self {
                CwdError::GetCwd(_) => exists|m: Seq<char>| s@ == "Failed to get current directory: "@ + m,
                CwdError::ToString(d) => s@ == "Invalid characters in path: "@ + d@,
            }),
    {
        match self {
            CwdError::GetCwd(e) => joined("Failed to get current directory: ", io_error_text(e).as_str()),
            CwdError::ToString(d) => joined("Invalid characters in path: ", d.as_str()),
        }
    }
}

/// The working directory as the system gives it: its text where the path is UTF-8, the
/// text of its last component where that component exists and is UTF-8, and its debug
/// text.
pub struct CwdPath {
    pub text: Option<String>,
    pub last: Option<String>,
    pub debug: String,
}

/// The working directory's text under a configuration, for a path read from the system
/// (`get_cwd`): a UTF-8 path as `cwd_text` gives it; a path that is not UTF-8 shortened to
/// its last component where that is UTF-8 (else `.`), and refused unshortened.
pub fn get_cwd(config: &Config, path: Result<CwdPath, std::io::Error>) -> (r: Result<String, CwdError>)
    ensures
        match path {
            Err(_) => r matches Err(CwdError::GetCwd(_)),
            Ok(p) => match p.text {
                Some(t) => r matches Ok(s) && s@ == cwd_text(config.shorten, t@),
                None => if config.shorten {
                    r matches Ok(s) && s@ == match p.last {
                        Some(l) => l@,
                        None => "."@,
                    }
                } else {
                    r matches Err(CwdError::ToString(d)) && d@ == p.debug@
                },
            },
        },
{
    match path {
        Err(e) => Err(CwdError::GetCwd(e)),
        Ok(p) => match p.text {
            Some(t) => Ok(format_cwd(config, t.as_str())),
            None => if config.shorten {
                match p.last {
                    Some(l) => Ok(l),
                    None => Ok(owned(".")),
                }
            } else {
                Err(CwdError::ToString(p.debug))
            },
        },
    }
}

} // verus!
