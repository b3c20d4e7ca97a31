//! Telling a file's format by its name.
//!
//! The format of a history file is decided by the extension of its path and
//! by nothing else: what the file holds plays no part, and a file that does
//! not parse in the format of its extension is not tried in another. The
//! extension is the text behind the last `.` of the path, provided that this
//! `.` lies in the last `/`-separated segment and is not the first character
//! of that segment.

use vstd::prelude::*;

verus! {

/// A text format that holds a history.
#[derive(Clone, Copy, Debug, PartialEq, Eq, Structural)]
pub enum Format {
    /// JSON, for paths that end in `.json`.
    Json,
    /// TOML, for paths that end in `.toml`.
    Toml,
}

/// The position of the last `c` in `text`, or `-1` where there is none.
pub open spec fn last_position(text: Seq<char>, c: char) -> int
    decreases text.len(),
{
    if text.len() == 0 {
        -1
    } else if text.last() == c {
        text.len() - 1
    } else {
        last_position(text.drop_last(), c)
    }
}

/// The extension of `path`, without its dot. A path whose last segment holds
/// no dot, or no dot but its first character, has none.
pub open spec fn extension(path: Seq<char>) -> Option<Seq<char>> {
    let dot = last_position(path, '.');
    let slash = last_position(path, '/');
    if dot > slash + 1 {
        Some(path.skip(dot + 1))
    } else {
        None
    }
}

/// The format that the extension of `path` names, if it names one.
pub open spec fn format_of(path: Seq<char>) -> Option<Format> {
    match extension(path) {
        Some(name) => {
            if name == seq!['j', 's', 'o', 'n'] {
                Some(Format::Json)
            } else if name == seq!['t', 'o', 'm', 'l'] {
                Some(Format::Toml)
            } else {
                None
            }
        },
        None => None,
    }
}

/// `position` is the last position of `c` in `text` if `c` stands there and
/// nowhere behind it, and `-1` is if `c` stands nowhere.
pub proof fn lemma_last_position(text: Seq<char>, c: char, position: int)
    requires
        position == -1 || (0 <= position < text.len() && text[position] == c),
        forall|k: int| position < k < text.len() ==> text[k] != c,
    ensures
        last_position(text, c) == position,
    decreases text.len(),
{
    if text.len() > 0 && text.last() != c {
        lemma_last_position(text.drop_last(), c, position);
    }
}

/// The characters of `text`, one by one.
fn characters(text: &str) -> (chars: Vec<char>)
    ensures
        chars@ == text@,
{
    let mut chars: Vec<char> = Vec::new();
    for c in it: text.chars()
        invariant
            it.seq() == text@,
            chars@ == text@.take(it.index()),
    {
        chars.push(c);
        assert(text@.take(it.index() + 1) =~= text@.take(it.index()).push(c));
    }
    assert(text@.take(text@.len() as int) =~= text@);
    chars
}

/// Where the extension of `path` begins, if it has one.
fn extension_start(path: &Vec<char>) -> (start: Option<usize>)
    ensures
        start matches Some(at) ==> at <= path@.len() && extension(path@) == Some(
            path@.skip(at as int),
        ),
        start is None ==> extension(path@) is None,
{
    let mut at: usize = path.len();
    while at > 0 && path[at - 1] != '.' && path[at - 1] != '/'
        invariant
            at <= path.len(),
            forall|k: int| at <= k < path@.len() ==> path@[k] != '.' && path@[k] != '/',
        decreases at,
    {
        at -= 1;
    }
    if at == 0 {
        proof {
            lemma_last_position(path@, '.', -1);
            lemma_last_position(path@, '/', -1);
        }
        None
    } else if path[at - 1] == '/' {
        proof {
            lemma_last_position(path@, '/', at - 1);
            lemma_dot_before(path@, at - 1);
        }
        None
    } else {
        proof {
            lemma_last_position(path@, '.', at - 1);
        }
        if at == 1 {
            proof {
                lemma_last_position(path@, '/', -1);
            }
            None
        } else if path[at - 2] == '/' {
            proof {
                lemma_last_position(path@, '/', at - 2);
            }
            None
        } else {
            proof {
                lemma_slash_before(path@, at - 2);
            }
            Some(at)
        }
    }
}

/// Where no `.` stands at `bound` or behind it, the last `.` stands before
/// `bound`.
proof fn lemma_dot_before(text: Seq<char>, bound: int)
    requires
        0 <= bound <= text.len(),
        forall|k: int| bound <= k < text.len() ==> text[k] != '.',
    ensures
        last_position(text, '.') < bound,
    decreases text.len(),
{
    if text.len() > bound {
        lemma_dot_before(text.drop_last(), bound);
    } else {
        lemma_last_position_bound(text, '.');
    }
}

/// Where no `/` stands at `bound` or behind it, the last `/` stands before
/// `bound`.
proof fn lemma_slash_before(text: Seq<char>, bound: int)
    requires
        0 <= bound <= text.len(),
        forall|k: int| bound <= k < text.len() ==> text[k] != '/',
    ensures
        last_position(text, '/') < bound,
    decreases text.len(),
{
    if text.len() > bound {
        lemma_slash_before(text.drop_last(), bound);
    } else {
        lemma_last_position_bound(text, '/');
    }
}

/// The last position of a character lies within the text, or is `-1`.
proof fn lemma_last_position_bound(text: Seq<char>, c: char)
    ensures
        -1 <= last_position(text, c) < text.len(),
    decreases text.len(),
{
    if text.len() > 0 && text.last() != c {
        lemma_last_position_bound(text.drop_last(), c);
    }
}

impl Format {
    /// The format that the extension of `path` names: JSON for `json`,
    /// TOML for `toml`, in lowercase; `None` for any other extension and for
    /// a path without one.
    pub fn of_path(path: &str) -> (format: Option<Format>)
        ensures
            format == format_of(path@),
    {
        let chars = characters(path);
        match extension_start(&chars) {
            None => None,
            Some(at) => {
                let ghost name = chars@.skip(at as int);
                let ghost json = seq!['j', 's', 'o', 'n'];
                let ghost toml = seq!['t', 'o', 'm', 'l'];
                assert(json.len() == 4 && toml.len() == 4 && name.len() == chars@.len() - at);
                if chars.len() - at != 4 {
                    None
                } else {
                    assert(name[0] == chars@[at as int] && name[1] == chars@[at + 1] && name[2]
                        == chars@[at + 2] && name[3] == chars@[at + 3]);
                    assert(json[0] == 'j' && json[1] == 's' && json[2] == 'o' && json[3] == 'n');
                    assert(toml[0] == 't' && toml[1] == 'o' && toml[2] == 'm' && toml[3] == 'l');
                    if chars[at] == 'j' && chars[at + 1] == 's' && chars[at + 2] == 'o' && chars[at
                        + 3] == 'n' {
                        assert(name =~= json);
                        Some(Format::Json)
                    } else if chars[at] == 't' && chars[at + 1] == 'o' && chars[at + 2] == 'm'
                        && chars[at + 3] == 'l' {
                        assert(name =~= toml);
                        Some(Format::Toml)
                    } else {
                        None
                    }
                }
            },
        }
    }
}

} // verus!
