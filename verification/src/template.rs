//! The naming-rule template grammar: a template is a string in which a
//! placeholder is written `{name}`, with `name` a non-empty run of ASCII
//! letters, digits and underscores. Scanning goes left to right and takes
//! each placeholder at its first possible start, so occurrences never
//! overlap and duplicates are kept in order.

use vstd::prelude::*;

verus! {

/// A character that may appear in a placeholder token name:
/// ASCII letters, digits and underscore.
pub open spec fn is_word_char(c: char) -> bool {
    let u = c as u32;
    (48 <= u && u <= 57) || (65 <= u && u <= 90) || (97 <= u && u <= 122) || u == 95
}

/// Executable test for a token-name character.
pub fn word_char(c: char) -> (r: bool)
    ensures
        r == is_word_char(c),
{
    let u = c as u32;
    (48 <= u && u <= 57) || (65 <= u && u <= 90) || (97 <= u && u <= 122) || u == 95
}

/// A placeholder occupies positions `i..=j` of `s`: an opening brace,
/// a non-empty all-word-character token name, and a closing brace.
pub open spec fn is_placeholder(s: Seq<char>, i: int, j: int) -> bool {
    &&& 0 <= i
    &&& i + 1 < j
    &&& j < s.len()
    &&& s[i] == '{'
    &&& s[j] == '}'
    &&& forall|k: int| i < k < j ==> is_word_char(#[trigger] s[k])
}

pub open spec fn has_placeholder_at(s: Seq<char>, i: int) -> bool {
    exists|j: int| is_placeholder(s, i, j)
}

/// The closing-brace position of the placeholder starting at `i`.
/// Well defined because the token name runs to the first non-word
/// character, which must be the closing brace.
pub open spec fn placeholder_end(s: Seq<char>, i: int) -> int {
    choose|j: int| is_placeholder(s, i, j)
}

pub proof fn lemma_placeholder_end_unique(s: Seq<char>, i: int, j1: int, j2: int)
    requires
        is_placeholder(s, i, j1),
        is_placeholder(s, i, j2),
    ensures
        j1 == j2,
{
    if j1 < j2 {
        assert(is_word_char(s[j1]));
        assert(s[j1] == '}');
        assert(!is_word_char('}'));
    }
    if j2 < j1 {
        assert(is_word_char(s[j2]));
        assert(s[j2] == '}');
        assert(!is_word_char('}'));
    }
}

/// The token names of all placeholders of `s`, in order of appearance,
/// duplicates kept.
pub open spec fn extract_spec(s: Seq<char>) -> Seq<Seq<char>>
    decreases s.len(),
{
    if s.len() == 0 {
        Seq::empty()
    } else if has_placeholder_at(s, 0) {
        let j = placeholder_end(s, 0);
        seq![s.subrange(1, j)] + extract_spec(s.subrange(j + 1, s.len() as int))
    } else {
        extract_spec(s.subrange(1, s.len() as int))
    }
}

/// Scans a template and returns its placeholder token names in order of
/// first appearance, duplicates preserved; a template without
/// placeholders yields an empty vector.
pub fn extract_tokens(template: &str) -> (r: Vec<String>)
    ensures
        r.deep_view() == extract_spec(template@),
{
    let ghost s = template@;
    let n = template.unicode_len();
    let mut toks: Vec<String> = Vec::new();
    let mut p: usize = 0;
    proof {
        assert(s.subrange(0, n as int) =~= s);
        assert(toks.deep_view() =~= Seq::<Seq<char>>::empty());
        assert(Seq::<Seq<char>>::empty() + extract_spec(s) =~= extract_spec(s));
    }
    while p < n
        invariant
            n == s.len(),
            s == template@,
            p <= n,
            extract_spec(s) == toks.deep_view() + extract_spec(s.subrange(p as int, n as int)),
        decreases n - p,
    {
        let ghost t = s.subrange(p as int, n as int);
        let mut q: usize = p + 1;
        if template.get_char(p) == '{' {
            while q < n && word_char(template.get_char(q))
                invariant
                    n == s.len(),
                    s == template@,
                    p < q <= n,
                    forall|k: int| p < k < q ==> is_word_char(#[trigger] s[k]),
                decreases n - q,
            {
                q = q + 1;
            }
        }
        if template.get_char(p) == '{' && q > p + 1 && q < n && template.get_char(q) == '}' {
            let tok = template.substring_char(p + 1, q).to_owned();
            proof {
                assert(is_placeholder(t, 0, q - p)) by {
                    assert(forall|k: int| 0 < k < q - p ==> is_word_char(#[trigger] t[k]));
                }
                assert(has_placeholder_at(t, 0));
                lemma_placeholder_end_unique(t, 0, placeholder_end(t, 0), q - p);
                assert(t.subrange(1, q - p) =~= s.subrange(p + 1, q as int));
                assert(t.subrange(q - p + 1, t.len() as int) =~= s.subrange(
                    q + 1,
                    n as int,
                ));
                assert(tok@ == s.subrange(p + 1, q as int));
            }
            toks.push(tok);
            proof {
                assert(toks.deep_view() =~= toks.deep_view().subrange(
                    0,
                    toks.deep_view().len() - 1,
                ) + seq![s.subrange(p + 1, q as int)]);
                assert(extract_spec(s) == toks.deep_view() + extract_spec(
                    s.subrange(q + 1, n as int),
                ));
            }
            p = q + 1;
        } else {
            proof {
                assert forall|j: int| !is_placeholder(t, 0, j) by {
                    if is_placeholder(t, 0, j) {
                        assert(t[0] == s[p as int]);
                        assert(s[p as int] == '{');
                        // the token name runs to the first non-word character
                        if p + j < q {
                            assert(is_word_char(s[p + j]));
                            assert(t[j] == s[p + j]);
                            assert(!is_word_char('}'));
                        } else if p + j > q {
                            assert(q < n);
                            assert(is_word_char(t[q - p]));
                            assert(t[q - p] == s[q as int]);
                        } else {
                            assert(q - p == j);
                            assert(s[q as int] == t[j]);
                        }
                    }
                }
                assert(!has_placeholder_at(t, 0));
                if t.len() > 0 {
                    assert(t.subrange(1, t.len() as int) =~= s.subrange(p + 1, n as int));
                }
            }
            p = p + 1;
        }
    }
    proof {
        assert(s.subrange(n as int, n as int) =~= Seq::<char>::empty());
        assert(toks.deep_view() + Seq::<Seq<char>>::empty() =~= toks.deep_view());
    }
    toks
}

} // verus!
