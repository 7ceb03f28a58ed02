//! The data the host hands in: a rule document (template plus optional
//! stored selection) and the per-operation selection mapping token
//! names — including the reserved `rule`, `extension` and legacy
//! `extends` keys — to chosen values.

use vstd::prelude::*;
use crate::text::str_eq;

verus! {

/// The value a user chose for a token: the single-string form takes
/// part in filename substitution; the ordered list form is carried
/// through for display and never substituted.
pub enum TokenValue {
    Single(String),
    Multiple(Vec<String>),
}

/// An ordered mapping from token names to chosen values, as the host
/// supplied it. Lookup takes the first binding of a key.
pub struct Selection {
    pub entries: Vec<(String, TokenValue)>,
}

/// A rule-configuration document: the naming template and, optionally,
/// the selection stored alongside it.
pub struct RuleDocument {
    pub rule: String,
    pub selection: Option<Selection>,
}

/// The first value bound to `key`, if any.
pub open spec fn lookup_spec(entries: Seq<(String, TokenValue)>, key: Seq<char>) -> Option<
    TokenValue,
>
    decreases entries.len(),
{
    if entries.len() == 0 {
        None
    } else if entries[0].0@ == key {
        Some(entries[0].1)
    } else {
        lookup_spec(entries.drop_first(), key)
    }
}

/// The single-string value bound to `key`: `Some` exactly when the key
/// is bound and its first binding is the single-string form.
pub open spec fn lookup_string_spec(
    entries: Seq<(String, TokenValue)>,
    key: Seq<char>,
) -> Option<Seq<char>> {
    match lookup_spec(entries, key) {
        Some(TokenValue::Single(v)) => Some(v@),
        _ => None,
    }
}

impl Selection {
    /// An empty selection.
    pub fn new() -> (r: Selection)
        ensures
            r.entries@.len() == 0,
    {
        Selection { entries: Vec::new() }
    }

    /// Appends a binding.
    pub fn push(&mut self, key: String, value: TokenValue)
        ensures
            final(self).entries@ == old(self).entries@.push((key, value)),
    {
        self.entries.push((key, value));
    }

    /// The single-string value bound to `key`, if the key is bound to
    /// one.
    pub fn get_string(&self, key: &str) -> (r: Option<&String>)
        ensures
            match r {
                Some(v) => lookup_string_spec(self.entries@, key@) == Some(v@),
                None => lookup_string_spec(self.entries@, key@) is None,
            },
    {
        let ghost es = self.entries@;
        let n = self.entries.len();
        let mut i: usize = 0;
        proof {
            assert(es.skip(0) =~= es);
        }
        while i < n
            invariant
                n == es.len(),
                es == self.entries@,
                i <= n,
                lookup_spec(es, key@) == lookup_spec(es.skip(i as int), key@),
            decreases n - i,
        {
            let e = vstd::std_specs::vec::vec_index(&self.entries, i);
            proof {
                assert(es.skip(i as int)[0] == es[i as int]);
                assert(es.skip(i as int).drop_first() =~= es.skip(i + 1));
            }
            if str_eq(e.0.as_str(), key) {
                match &e.1 {
                    TokenValue::Single(v) => {
                        return Some(v);
                    },
                    TokenValue::Multiple(_) => {
                        return None;
                    },
                }
            }
            i = i + 1;
        }
        proof {
            assert(es.skip(n as int) =~= Seq::<(String, TokenValue)>::empty());
        }
        None
    }
}

} // verus!
