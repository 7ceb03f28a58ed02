//! Path strings, modelled as character sequences. A separator is `/`
//! or `\`; the final component is what follows the last separator; the
//! extension is what follows the last dot of the final component,
//! provided that dot is not the component's first character.

use vstd::prelude::*;
use crate::text::str_eq;

verus! {

/// A path-separator character.
pub open spec fn is_sep(c: char) -> bool {
    c == '/' || c == '\\'
}

/// The index of the last separator of `p`, or -1 if there is none.
pub open spec fn last_sep(p: Seq<char>) -> int
    decreases p.len(),
{
    if p.len() == 0 {
        -1
    } else if is_sep(p.last()) {
        p.len() - 1
    } else {
        last_sep(p.drop_last())
    }
}

/// The index of the last dot of `p`, or -1 if there is none.
pub open spec fn last_dot(p: Seq<char>) -> int
    decreases p.len(),
{
    if p.len() == 0 {
        -1
    } else if p.last() == '.' {
        p.len() - 1
    } else {
        last_dot(p.drop_last())
    }
}

pub proof fn lemma_last_sep_bounds(p: Seq<char>)
    ensures
        -1 <= last_sep(p) < p.len(),
    decreases p.len(),
{
    if p.len() > 0 && !is_sep(p.last()) {
        lemma_last_sep_bounds(p.drop_last());
    }
}

pub proof fn lemma_last_dot_bounds(p: Seq<char>)
    ensures
        -1 <= last_dot(p) < p.len(),
    decreases p.len(),
{
    if p.len() > 0 && p.last() != '.' {
        lemma_last_dot_bounds(p.drop_last());
    }
}

/// The parent directory of `p`: the part before the last separator,
/// or the separator itself when the path names an entry of the root.
/// A path without a separator has no determinable parent.
pub open spec fn parent_dir_spec(p: Seq<char>) -> Option<Seq<char>> {
    let i = last_sep(p);
    if i < 0 {
        None
    } else if i == 0 {
        Some(p.subrange(0, 1))
    } else {
        Some(p.subrange(0, i))
    }
}

/// The extension of `p`'s final component, without its dot.
pub open spec fn extension_spec(p: Seq<char>) -> Option<Seq<char>> {
    let d = last_dot(p);
    if d > last_sep(p) + 1 {
        Some(p.subrange(d + 1, p.len() as int))
    } else {
        None
    }
}

/// `dir` and `name` joined with a separator, unless `dir` is empty or
/// already ends in one.
pub open spec fn join_spec(dir: Seq<char>, name: Seq<char>) -> Seq<char> {
    if dir.len() == 0 {
        name
    } else if is_sep(dir.last()) {
        dir + name
    } else {
        dir + seq!['/'] + name
    }
}

/// The position of the last separator of `p`, if any.
pub fn scan_last_sep(p: &str) -> (r: Option<usize>)
    ensures
        match r {
            Some(i) => last_sep(p@) == i,
            None => last_sep(p@) == -1,
        },
{
    let n = p.unicode_len();
    let mut best: Option<usize> = None;
    let mut i: usize = 0;
    proof {
        assert(p@.take(0) =~= Seq::<char>::empty());
    }
    while i < n
        invariant
            n == p@.len(),
            i <= n,
            match best {
                Some(b) => b < i && last_sep(p@.take(i as int)) == b,
                None => last_sep(p@.take(i as int)) == -1,
            },
        decreases n - i,
    {
        let c = p.get_char(i);
        proof {
            assert(p@.take(i + 1).drop_last() =~= p@.take(i as int));
            assert(p@.take(i + 1).last() == p@[i as int]);
        }
        if c == '/' || c == '\\' {
            best = Some(i);
        }
        i = i + 1;
    }
    proof {
        assert(p@.take(n as int) =~= p@);
    }
    best
}

/// The position of the last dot of `p`, if any.
pub fn scan_last_dot(p: &str) -> (r: Option<usize>)
    ensures
        match r {
            Some(i) => last_dot(p@) == i,
            None => last_dot(p@) == -1,
        },
{
    let n = p.unicode_len();
    let mut best: Option<usize> = None;
    let mut i: usize = 0;
    proof {
        assert(p@.take(0) =~= Seq::<char>::empty());
    }
    while i < n
        invariant
            n == p@.len(),
            i <= n,
            match best {
                Some(b) => b < i && last_dot(p@.take(i as int)) == b,
                None => last_dot(p@.take(i as int)) == -1,
            },
        decreases n - i,
    {
        let c = p.get_char(i);
        proof {
            assert(p@.take(i + 1).drop_last() =~= p@.take(i as int));
            assert(p@.take(i + 1).last() == p@[i as int]);
        }
        if c == '.' {
            best = Some(i);
        }
        i = i + 1;
    }
    proof {
        assert(p@.take(n as int) =~= p@);
    }
    best
}

/// The parent directory of `p`, if one can be determined.
pub fn parent_of(p: &str) -> (r: Option<String>)
    ensures
        match r {
            Some(d) => parent_dir_spec(p@) == Some(d@),
            None => parent_dir_spec(p@) is None,
        },
{
    proof {
        lemma_last_sep_bounds(p@);
    }
    match scan_last_sep(p) {
        None => None,
        Some(i) => {
            if i == 0 {
                Some(p.substring_char(0, 1).to_owned())
            } else {
                Some(p.substring_char(0, i).to_owned())
            }
        },
    }
}

/// The extension of `p`'s final component, if any.
pub fn extension_of(p: &str) -> (r: Option<String>)
    ensures
        match r {
            Some(e) => extension_spec(p@) == Some(e@),
            None => extension_spec(p@) is None,
        },
{
    proof {
        lemma_last_sep_bounds(p@);
        lemma_last_dot_bounds(p@);
    }
    let n = p.unicode_len();
    let sep = scan_last_sep(p);
    let dot = scan_last_dot(p);
    let start: usize = match sep {
        Some(i) => i + 1,
        None => 0,
    };
    match dot {
        Some(d) => {
            // the dot counts only when it is not the component's first character
            if d > start {
                Some(p.substring_char(d + 1, n).to_owned())
            } else {
                None
            }
        },
        None => None,
    }
}

/// Does `p` end in the rule-configuration extension?
pub fn has_config_extension(p: &str) -> (r: bool)
    ensures
        r == (extension_spec(p@) == Some("json"@)),
{
    match extension_of(p) {
        Some(e) => str_eq(e.as_str(), "json"),
        None => false,
    }
}

/// Joins a directory and a file name into one path.
pub fn join_path(dir: &str, name: &str) -> (r: String)
    ensures
        r@ == join_spec(dir@, name@),
{
    let n = dir.unicode_len();
    if n == 0 {
        return name.to_owned();
    }
    let c = dir.get_char(n - 1);
    let mut out = dir.to_owned();
    if !(c == '/' || c == '\\') {
        out.append("/");
        proof {
            reveal_strlit("/");
            assert("/"@ =~= seq!['/']);
        }
    }
    out.append(name);
    out
}

} // verus!
