//! Laws of the template grammar and the resolver, proved once and for
//! all: substituting a single-string, brace-free value for every token
//! of a well-formed template leaves a string without placeholders.

use vstd::prelude::*;
use crate::resolve::brace;
use crate::resolve::extension_value;
use crate::resolve::resolved_name_spec;
use crate::resolve::substitute_all;
use crate::selection::TokenValue;
use crate::selection::lookup_string_spec;
use crate::template::extract_spec;
use crate::template::has_placeholder_at;
use crate::template::is_placeholder;
use crate::template::is_word_char;
use crate::template::lemma_placeholder_end_unique;
use crate::template::placeholder_end;
use crate::text::match_at;
use crate::text::replace_all;

verus! {

/// A non-empty run of token-name characters.
pub open spec fn word_token(t: Seq<char>) -> bool {
    t.len() > 0 && forall|i: int| 0 <= i < t.len() ==> is_word_char(#[trigger] t[i])
}

/// No brace character occurs in `v`.
pub open spec fn brace_free(v: Seq<char>) -> bool {
    forall|i: int| 0 <= i < v.len() ==> (#[trigger] v[i]) != '{' && v[i] != '}'
}

/// Every character of a well-formed template either belongs to a
/// placeholder or is no brace at all; stray braces are ruled out.
pub open spec fn well_formed_template(s: Seq<char>) -> bool
    decreases s.len(),
{
    if s.len() == 0 {
        true
    } else if has_placeholder_at(s, 0) {
        well_formed_template(s.subrange(placeholder_end(s, 0) + 1, s.len() as int))
    } else if s[0] != '{' && s[0] != '}' {
        well_formed_template(s.subrange(1, s.len() as int))
    } else {
        false
    }
}

/// Every token a template mentions is a non-empty word run.
pub proof fn lemma_extract_words(s: Seq<char>)
    ensures
        forall|k: int| 0 <= k < extract_spec(s).len() ==> word_token(#[trigger] extract_spec(s)[k]),
    decreases s.len(),
{
    if s.len() == 0 {
    } else if has_placeholder_at(s, 0) {
        let j = placeholder_end(s, 0);
        assert(is_placeholder(s, 0, j));
        let rest = s.subrange(j + 1, s.len() as int);
        lemma_extract_words(rest);
        let body = s.subrange(1, j);
        assert(word_token(body)) by {
            assert forall|i: int| 0 <= i < body.len() implies is_word_char(#[trigger] body[i]) by {
                assert(body[i] == s[i + 1]);
            }
        }
        assert forall|k: int| 0 <= k < extract_spec(s).len() implies word_token(
            #[trigger] extract_spec(s)[k],
        ) by {
            if k == 0 {
                assert(extract_spec(s)[0] == body);
            } else {
                assert(extract_spec(s)[k] == extract_spec(rest)[k - 1]);
            }
        }
    } else {
        let tail = s.subrange(1, s.len() as int);
        lemma_extract_words(tail);
        assert(extract_spec(s) == extract_spec(tail));
        assert forall|k: int| 0 <= k < extract_spec(s).len() implies word_token(
            #[trigger] extract_spec(s)[k],
        ) by {
            assert(extract_spec(s)[k] == extract_spec(tail)[k]);
        }
    }
}

/// A string in which `{` never occurs mentions no token.
pub proof fn lemma_no_open_extract_empty(s: Seq<char>)
    requires
        forall|i: int| 0 <= i < s.len() ==> (#[trigger] s[i]) != '{',
    ensures
        extract_spec(s) == Seq::<Seq<char>>::empty(),
    decreases s.len(),
{
    if s.len() > 0 {
        assert forall|j: int| !is_placeholder(s, 0, j) by {
            if is_placeholder(s, 0, j) {
                assert(s[0] == '{');
            }
        }
        lemma_no_open_extract_empty(s.subrange(1, s.len() as int));
    }
}

/// Text without `{` in front of a string adds no token.
pub proof fn lemma_prepend_extract(v: Seq<char>, x: Seq<char>)
    requires
        forall|i: int| 0 <= i < v.len() ==> (#[trigger] v[i]) != '{',
    ensures
        extract_spec(v + x) == extract_spec(x),
    decreases v.len(),
{
    if v.len() == 0 {
        assert(v + x =~= x);
    } else {
        let s = v + x;
        assert forall|j: int| !is_placeholder(s, 0, j) by {
            if is_placeholder(s, 0, j) {
                assert(s[0] == v[0]);
            }
        }
        assert(s.subrange(1, s.len() as int) =~= v.subrange(1, v.len() as int) + x);
        lemma_prepend_extract(v.subrange(1, v.len() as int), x);
    }
}

/// Brace-free text in front of a well-formed template keeps it
/// well formed.
pub proof fn lemma_prepend_wf(v: Seq<char>, x: Seq<char>)
    requires
        brace_free(v),
        well_formed_template(x),
    ensures
        well_formed_template(v + x),
    decreases v.len(),
{
    if v.len() == 0 {
        assert(v + x =~= x);
    } else {
        let s = v + x;
        assert forall|j: int| !is_placeholder(s, 0, j) by {
            if is_placeholder(s, 0, j) {
                assert(s[0] == v[0]);
            }
        }
        assert(s[0] == v[0]);
        assert(s.subrange(1, s.len() as int) =~= v.subrange(1, v.len() as int) + x);
        lemma_prepend_wf(v.subrange(1, v.len() as int), x);
    }
}

/// Where the pattern does not start, replacement keeps the first
/// character and goes on behind it.
pub proof fn lemma_replace_unfold_char(s: Seq<char>, pat: Seq<char>, v: Seq<char>)
    requires
        pat.len() > 0,
        s.len() > 0,
        !match_at(s, pat, 0),
    ensures
        replace_all(s, pat, v) == seq![s[0]] + replace_all(s.skip(1), pat, v),
{
    if s.len() < pat.len() {
        assert(s.skip(1).len() < pat.len());
        assert(replace_all(s.skip(1), pat, v) == s.skip(1));
        assert(s =~= seq![s[0]] + s.skip(1));
    } else {
        assert(s.subrange(0, pat.len() as int) != pat);
    }
}

/// Replacement copies any prefix in which the pattern starts nowhere.
pub proof fn lemma_replace_copies_prefix(s: Seq<char>, pat: Seq<char>, v: Seq<char>, k: int)
    requires
        pat.len() > 0,
        0 <= k <= s.len(),
        forall|i: int| 0 <= i < k ==> !match_at(s, pat, i),
    ensures
        replace_all(s, pat, v) == s.subrange(0, k) + replace_all(s.skip(k), pat, v),
    decreases k,
{
    if k == 0 {
        assert(s.skip(0) =~= s);
        assert(s.subrange(0, 0) + replace_all(s, pat, v) =~= replace_all(s, pat, v));
    } else {
        lemma_replace_unfold_char(s, pat, v);
        let s1 = s.skip(1);
        assert forall|i: int| 0 <= i < k - 1 implies !match_at(s1, pat, i) by {
            if match_at(s1, pat, i) {
                assert(s1.subrange(i, i + pat.len()) =~= s.subrange(i + 1, i + 1 + pat.len()));
                assert(match_at(s, pat, i + 1));
            }
        }
        lemma_replace_copies_prefix(s1, pat, v, k - 1);
        assert(s1.skip(k - 1) =~= s.skip(k));
        assert(s1.subrange(0, k - 1) =~= s.subrange(1, k));
        assert(seq![s[0]] + (s.subrange(1, k) + replace_all(s.skip(k), pat, v)) =~= s.subrange(
            0,
            k,
        ) + replace_all(s.skip(k), pat, v));
    }
}

/// The token list with every occurrence of one token removed.
pub open spec fn remove_tok(ts: Seq<Seq<char>>, t: Seq<char>) -> Seq<Seq<char>>
    decreases ts.len(),
{
    if ts.len() == 0 {
        Seq::empty()
    } else if ts[0] == t {
        remove_tok(ts.drop_first(), t)
    } else {
        seq![ts[0]] + remove_tok(ts.drop_first(), t)
    }
}

/// Whatever remains after removing `t` was there before and is not `t`.
pub proof fn lemma_remove_tok_sub(ts: Seq<Seq<char>>, t: Seq<char>)
    ensures
        forall|b: Seq<char>| #[trigger] remove_tok(ts, t).contains(b) ==> ts.contains(b) && b != t,
    decreases ts.len(),
{
    if ts.len() > 0 {
        lemma_remove_tok_sub(ts.drop_first(), t);
        let dropped = remove_tok(ts.drop_first(), t);
        assert forall|b: Seq<char>| #[trigger] remove_tok(ts, t).contains(b) implies ts.contains(b)
            && b != t by {
            if ts[0] == t {
                assert(remove_tok(ts, t) == dropped);
                assert(dropped.contains(b));
                assert(ts.drop_first().contains(b) && b != t);
                let i = choose|i: int| 0 <= i < ts.drop_first().len() && ts.drop_first()[i] == b;
                assert(ts[i + 1] == b);
            } else {
                let r = seq![ts[0]] + dropped;
                assert(remove_tok(ts, t) == r);
                assert(r.contains(b));
                let i = choose|i: int| 0 <= i < r.len() && r[i] == b;
                if i == 0 {
                    assert(ts[0] == b);
                } else {
                    assert(r[i] == dropped[i - 1]);
                    assert(dropped.contains(b));
                    assert(ts.drop_first().contains(b) && b != t);
                    let m = choose|m: int|
                        0 <= m < ts.drop_first().len() && ts.drop_first()[m] == b;
                    assert(ts[m + 1] == b);
                }
            }
        }
    }
}

/// Replacing one token's placeholder in a well-formed template keeps
/// the template well formed and removes exactly that token from the
/// extracted list.
pub proof fn lemma_replace_template(s: Seq<char>, t: Seq<char>, v: Seq<char>)
    requires
        well_formed_template(s),
        word_token(t),
        brace_free(v),
    ensures
        well_formed_template(replace_all(s, brace(t), v)),
        extract_spec(replace_all(s, brace(t), v)) == remove_tok(extract_spec(s), t),
    decreases s.len(),
{
    let pat = brace(t);
    let plen = pat.len() as int;
    assert(plen == t.len() + 2);
    assert(pat[0] == '{');
    assert(pat[plen - 1] == '}');
    assert(forall|k: int| 0 < k < plen - 1 ==> pat[k] == t[k - 1]);
    if s.len() == 0 {
        assert(replace_all(s, pat, v) == s);
        assert(remove_tok(extract_spec(s), t) =~= Seq::<Seq<char>>::empty());
    } else if has_placeholder_at(s, 0) {
        let j = placeholder_end(s, 0);
        assert(is_placeholder(s, 0, j));
        let body = s.subrange(1, j);
        let rest = s.subrange(j + 1, s.len() as int);
        assert(extract_spec(s) == seq![body] + extract_spec(rest));
        assert(well_formed_template(rest));
        lemma_replace_template(rest, t, v);
        assert(s.skip(j + 1) =~= rest);
        if body == t {
            // the pattern stands at the front: replacement inserts the value
            assert(j == t.len() as int + 1);
            assert(s.subrange(0, plen) =~= pat) by {
                assert forall|k: int| 0 <= k < plen implies s.subrange(0, plen)[k] == pat[k] by {
                    if 0 < k < plen - 1 {
                        assert(s[k] == body[k - 1]);
                    }
                }
            }
            assert(plen <= s.len());
            assert(replace_all(s, pat, v) == v + replace_all(s.skip(plen), pat, v));
            assert(s.skip(plen) =~= rest);
            lemma_prepend_extract(v, replace_all(rest, pat, v));
            lemma_prepend_wf(v, replace_all(rest, pat, v));
            assert((seq![body] + extract_spec(rest)).drop_first() =~= extract_spec(rest));
            assert(remove_tok(extract_spec(s), t) == remove_tok(extract_spec(rest), t));
        } else {
            // the pattern starts nowhere inside this placeholder
            assert forall|i: int| 0 <= i < j + 1 implies !match_at(s, pat, i) by {
                if match_at(s, pat, i) {
                    assert(s.subrange(i, i + plen)[0] == s[i]);
                    assert(s[i] == '{');
                    if i == 0 {
                        assert(t.len() as int + 1 < s.len());
                        assert(s[t.len() as int + 1] == pat[plen - 1]) by {
                            assert(s.subrange(0, plen)[plen - 1] == s[plen - 1]);
                        }
                        assert(is_placeholder(s, 0, t.len() as int + 1)) by {
                            assert forall|k: int| 0 < k < t.len() as int + 1 implies is_word_char(
                                #[trigger] s[k],
                            ) by {
                                assert(s.subrange(0, plen)[k] == s[k]);
                                assert(pat[k] == t[k - 1]);
                            }
                        }
                        lemma_placeholder_end_unique(s, 0, j, t.len() as int + 1);
                        assert(body =~= t) by {
                            assert forall|k: int| 0 <= k < t.len() implies body[k] == t[k] by {
                                assert(s.subrange(0, plen)[k + 1] == s[k + 1]);
                            }
                        }
                    } else if i < j {
                        assert(is_word_char(s[i]));
                        assert(!is_word_char('{'));
                    } else {
                        assert(s[j] == '}');
                    }
                }
            }
            lemma_replace_copies_prefix(s, pat, v, j + 1);
            let rr = replace_all(rest, pat, v);
            let s2 = s.subrange(0, j + 1) + rr;
            assert(replace_all(s.skip(j + 1), pat, v) == rr);
            assert(replace_all(s, pat, v) == s2);
            assert(is_placeholder(s2, 0, j)) by {
                assert forall|k: int| 0 <= k <= j implies s2[k] == s[k] by {}
                assert(s2[0] == '{');
                assert(s2[j] == '}');
            }
            assert(has_placeholder_at(s2, 0));
            lemma_placeholder_end_unique(s2, 0, placeholder_end(s2, 0), j);
            assert(s2.subrange(1, j) =~= body);
            assert(s2.subrange(j + 1, s2.len() as int) =~= rr);
            assert(extract_spec(s2) == seq![body] + extract_spec(rr));
            assert(remove_tok(extract_spec(s), t) == seq![body] + remove_tok(
                extract_spec(rest),
                t,
            )) by {
                assert((seq![body] + extract_spec(rest)).drop_first() =~= extract_spec(rest));
            }
            assert(well_formed_template(s2));
        }
    } else {
        // a plain character: replacement copies it
        assert(s[0] != '{' && s[0] != '}');
        let tail = s.subrange(1, s.len() as int);
        assert(!match_at(s, pat, 0)) by {
            if match_at(s, pat, 0) {
                assert(s.subrange(0, plen)[0] == s[0]);
            }
        }
        lemma_replace_unfold_char(s, pat, v);
        assert(s.skip(1) =~= tail);
        lemma_replace_template(tail, t, v);
        let rr = replace_all(tail, pat, v);
        let s2 = seq![s[0]] + rr;
        assert(replace_all(s, pat, v) == s2);
        assert forall|j: int| !is_placeholder(s2, 0, j) by {
            if is_placeholder(s2, 0, j) {
                assert(s2[0] == s[0]);
            }
        }
        assert(s2.subrange(1, s2.len() as int) =~= rr);
        assert(extract_spec(s2) == extract_spec(rr));
        assert(extract_spec(s) == extract_spec(tail));
        assert(well_formed_template(s2));
    }
}

/// Substituting values for all listed tokens of a well-formed template
/// leaves no token at all, provided every token the template still
/// mentions stands in the list.
pub proof fn lemma_substitute_all_clean(
    s: Seq<char>,
    tokens: Seq<Seq<char>>,
    entries: Seq<(String, TokenValue)>,
)
    requires
        well_formed_template(s),
        forall|k: int| 0 <= k < tokens.len() ==> word_token(#[trigger] tokens[k]),
        forall|k: int|
            0 <= k < tokens.len() ==> lookup_string_spec(entries, #[trigger] tokens[k]) is Some,
        forall|k: int|
            0 <= k < tokens.len() ==> brace_free(
                lookup_string_spec(entries, #[trigger] tokens[k])->0,
            ),
        forall|b: Seq<char>| #[trigger] extract_spec(s).contains(b) ==> tokens.contains(b),
    ensures
        extract_spec(substitute_all(s, tokens, entries)) == Seq::<Seq<char>>::empty(),
        well_formed_template(substitute_all(s, tokens, entries)),
    decreases tokens.len(),
{
    if tokens.len() == 0 {
        if extract_spec(s).len() > 0 {
            assert(extract_spec(s).contains(extract_spec(s)[0]));
            assert(false);
        }
        assert(extract_spec(s) =~= Seq::<Seq<char>>::empty());
    } else {
        let t = tokens[0];
        let v = lookup_string_spec(entries, t)->0;
        lemma_replace_template(s, t, v);
        let s2 = replace_all(s, brace(t), v);
        lemma_remove_tok_sub(extract_spec(s), t);
        assert forall|b: Seq<char>| #[trigger] extract_spec(s2).contains(b) implies
            tokens.drop_first().contains(b) by {
            assert(extract_spec(s).contains(b) && b != t);
            let i = choose|i: int| 0 <= i < tokens.len() && tokens[i] == b;
            assert(tokens.drop_first()[i - 1] == b);
        }
        assert(forall|k: int|
            0 <= k < tokens.drop_first().len() ==> tokens.drop_first()[k] == tokens[k + 1]);
        lemma_substitute_all_clean(s2, tokens.drop_first(), entries);
        assert(substitute_all(s, tokens, entries) == substitute_all(
            s2,
            tokens.drop_first(),
            entries,
        ));
    }
}

/// Law: for a well-formed template whose every token carries a
/// single-string, brace-free value, substituting all of them and
/// re-extracting tokens yields the empty sequence — no placeholder
/// survives the substitution.
pub proof fn lemma_substitution_removes_tokens(rule: Seq<char>, entries: Seq<(String, TokenValue)>)
    requires
        well_formed_template(rule),
        forall|k: int|
            0 <= k < extract_spec(rule).len() ==> lookup_string_spec(
                entries,
                #[trigger] extract_spec(rule)[k],
            ) is Some,
        forall|k: int|
            0 <= k < extract_spec(rule).len() ==> brace_free(
                lookup_string_spec(entries, #[trigger] extract_spec(rule)[k])->0,
            ),
    ensures
        extract_spec(substitute_all(rule, extract_spec(rule), entries)) == Seq::<
            Seq<char>,
        >::empty(),
        well_formed_template(substitute_all(rule, extract_spec(rule), entries)),
{
    lemma_extract_words(rule);
    lemma_substitute_all_clean(rule, extract_spec(rule), entries);
}

/// A well-formed template that mentions no token holds no brace at all.
pub proof fn lemma_wf_without_tokens_is_brace_free(s: Seq<char>)
    requires
        well_formed_template(s),
        extract_spec(s) == Seq::<Seq<char>>::empty(),
    ensures
        brace_free(s),
    decreases s.len(),
{
    if s.len() > 0 {
        if has_placeholder_at(s, 0) {
            assert(extract_spec(s).len() > 0);
        } else {
            let tail = s.subrange(1, s.len() as int);
            assert(extract_spec(s) == extract_spec(tail));
            lemma_wf_without_tokens_is_brace_free(tail);
            assert forall|i: int| 0 <= i < s.len() implies (#[trigger] s[i]) != '{' && s[i]
                != '}' by {
                if i > 0 {
                    assert(tail[i - 1] == s[i]);
                }
            }
        }
    }
}

/// Law: under the same conditions, with a brace-free extension, the
/// fully resolved file name — substituted template, dot, extension —
/// mentions no token either.
pub proof fn lemma_resolved_name_has_no_tokens(rule: Seq<char>, entries: Seq<(String, TokenValue)>)
    requires
        well_formed_template(rule),
        forall|k: int|
            0 <= k < extract_spec(rule).len() ==> lookup_string_spec(
                entries,
                #[trigger] extract_spec(rule)[k],
            ) is Some,
        forall|k: int|
            0 <= k < extract_spec(rule).len() ==> brace_free(
                lookup_string_spec(entries, #[trigger] extract_spec(rule)[k])->0,
            ),
        extension_value(entries) is Some,
        brace_free(extension_value(entries)->0),
    ensures
        extract_spec(resolved_name_spec(rule, entries)) == Seq::<Seq<char>>::empty(),
{
    lemma_substitution_removes_tokens(rule, entries);
    let sub = substitute_all(rule, extract_spec(rule), entries);
    lemma_wf_without_tokens_is_brace_free(sub);
    let resolved = resolved_name_spec(rule, entries);
    let ext = extension_value(entries)->0;
    assert forall|i: int| 0 <= i < resolved.len() implies (#[trigger] resolved[i]) != '{' by {
        if i < sub.len() {
            assert(resolved[i] == sub[i]);
        } else if i == sub.len() {
            assert(resolved[i] == '.');
        } else {
            assert(resolved[i] == ext[i - sub.len() - 1]);
        }
    }
    lemma_no_open_extract_empty(resolved);
}

} // verus!
