//! The name resolver: substitutes the selected value for every
//! placeholder of a template, in order of first appearance, and appends
//! the selected extension after a dot.

use vstd::prelude::*;
use crate::errors::RuleError;
use crate::selection::Selection;
use crate::selection::TokenValue;
use crate::selection::lookup_string_spec;
use crate::template::extract_spec;
use crate::template::extract_tokens;
use crate::text::replace_all;
use crate::text::replace_all_str;

verus! {

/// The token name wrapped in braces, as it stands in a template.
pub open spec fn brace(t: Seq<char>) -> Seq<char> {
    seq!['{'] + t + seq!['}']
}

/// `rule` after substituting, token by token in the given order, the
/// selected single-string value for every occurrence of each token's
/// placeholder. A token without a single-string value changes nothing.
pub open spec fn substitute_all(
    rule: Seq<char>,
    tokens: Seq<Seq<char>>,
    entries: Seq<(String, TokenValue)>,
) -> Seq<char>
    decreases tokens.len(),
{
    if tokens.len() == 0 {
        rule
    } else {
        match lookup_string_spec(entries, tokens[0]) {
            Some(val) => substitute_all(
                replace_all(rule, brace(tokens[0]), val),
                tokens.drop_first(),
                entries,
            ),
            None => substitute_all(rule, tokens.drop_first(), entries),
        }
    }
}

/// The first token of the list that has no single-string value in the
/// selection, if any.
pub open spec fn first_unresolved(
    tokens: Seq<Seq<char>>,
    entries: Seq<(String, TokenValue)>,
) -> Option<Seq<char>>
    decreases tokens.len(),
{
    if tokens.len() == 0 {
        None
    } else if lookup_string_spec(entries, tokens[0]) is None {
        Some(tokens[0])
    } else {
        first_unresolved(tokens.drop_first(), entries)
    }
}

/// The selected extension: the `extension` value, or failing that the
/// legacy `extends` value.
pub open spec fn extension_value(entries: Seq<(String, TokenValue)>) -> Option<Seq<char>> {
    match lookup_string_spec(entries, "extension"@) {
        Some(v) => Some(v),
        None => lookup_string_spec(entries, "extends"@),
    }
}

/// Every token of the template has a single-string value and an
/// extension was selected.
pub open spec fn name_resolvable(rule: Seq<char>, entries: Seq<(String, TokenValue)>) -> bool {
    &&& first_unresolved(extract_spec(rule), entries) is None
    &&& extension_value(entries) is Some
}

/// The fully resolved file name: the substituted template, a dot, and
/// the selected extension.
pub open spec fn resolved_name_spec(rule: Seq<char>, entries: Seq<(String, TokenValue)>) -> Seq<
    char,
> {
    substitute_all(rule, extract_spec(rule), entries) + seq!['.'] + extension_value(entries)->0
}

/// Builds the placeholder string `{token}` for a token name.
pub fn brace_token(t: &str) -> (r: String)
    ensures
        r@ == brace(t@),
        r@.len() > 0,
{
    let mut out = "{".to_owned();
    out.append(t);
    out.append("}");
    proof {
        reveal_strlit("{");
        reveal_strlit("}");
        assert("{"@ =~= seq!['{']);
        assert("}"@ =~= seq!['}']);
        assert("{"@ + t@ + "}"@ =~= brace(t@));
    }
    out
}

/// Resolves the file name a template and selection describe.
///
/// Succeeds exactly when every token of the template has a
/// single-string value and an extension (or legacy `extends`) value is
/// selected; the result is then the substituted template, a dot, and
/// the extension. Fails with the first unresolved token otherwise, and
/// with `MissingExtension` when only the extension is wanting. Touches
/// no file.
pub fn resolve_file_name(rule: &str, selection: &Selection) -> (r: Result<String, RuleError>)
    ensures
        match r {
            Ok(name) => {
                &&& name_resolvable(rule@, selection.entries@)
                &&& name@ == resolved_name_spec(rule@, selection.entries@)
            },
            Err(e) => match e {
                RuleError::MissingSelectionValue(t) => first_unresolved(
                    extract_spec(rule@),
                    selection.entries@,
                ) == Some(t@),
                RuleError::MissingExtension => {
                    &&& first_unresolved(extract_spec(rule@), selection.entries@) is None
                    &&& extension_value(selection.entries@) is None
                },
                _ => false,
            },
        },
{
    let ghost es = selection.entries@;
    let tokens = extract_tokens(rule);
    let ghost toks = tokens.deep_view();
    let mut name: String = rule.to_owned();
    let n = tokens.len();
    let mut i: usize = 0;
    proof {
        assert(toks.skip(0) =~= toks);
    }
    while i < n
        invariant
            n == tokens.len(),
            toks == tokens.deep_view(),
            toks == extract_spec(rule@),
            es == selection.entries@,
            i <= n,
            substitute_all(name@, toks.skip(i as int), es) == substitute_all(rule@, toks, es),
            first_unresolved(toks, es) == first_unresolved(toks.skip(i as int), es),
        decreases n - i,
    {
        let tok = vstd::std_specs::vec::vec_index(&tokens, i);
        proof {
            assert(toks.skip(i as int)[0] == toks[i as int]);
            assert(toks[i as int] == tok@);
            assert(toks.skip(i as int).drop_first() =~= toks.skip(i + 1));
        }
        match selection.get_string(tok.as_str()) {
            Some(v) => {
                let pat = brace_token(tok.as_str());
                name = replace_all_str(name.as_str(), pat.as_str(), v.as_str());
            },
            None => {
                return Err(RuleError::MissingSelectionValue(tok.clone()));
            },
        }
        i = i + 1;
    }
    proof {
        assert(toks.skip(n as int) =~= Seq::<Seq<char>>::empty());
    }
    let ext = match selection.get_string("extension") {
        Some(v) => v,
        None => match selection.get_string("extends") {
            Some(v) => v,
            None => {
                return Err(RuleError::MissingExtension);
            },
        },
    };
    let mut out = name;
    out.append(".");
    proof {
        reveal_strlit(".");
        assert("."@ =~= seq!['.']);
    }
    out.append(ext.as_str());
    Ok(out)
}

} // verus!
