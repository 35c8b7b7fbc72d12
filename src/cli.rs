use vstd::prelude::*;

use crate::error::Error;
use crate::text::{find_char, is_alphabetic, trim_chars, trim_str, first_index, unicode_alphabetic};

verus! {

/// Which part of a request an override patches.
#[derive(Debug, Clone, Copy, PartialEq, Eq, Structural)]
pub enum KeyValType {
    Query,
    Header,
    Body,
}

/// One classified override: `key=value` (query), `%key=value` (header) or
/// `@key=value` (body), with the sigil stripped from the key.
#[derive(Debug, Clone, PartialEq, Eq)]
pub struct KeyVal {
    pub key_type: KeyValType,
    pub key: String,
    pub value: String,
}

/// The overrides of one invocation, grouped by kind, each group in input order.
#[derive(Debug, Clone, Default, PartialEq, Eq)]
pub struct ExtraArgs {
    pub headers: Vec<(String, String)>,
    pub query: Vec<(String, String)>,
    pub body: Vec<(String, String)>,
}

/// The key/value pairs of a sequence of string pairs.
pub open spec fn pairs_view(v: Seq<(String, String)>) -> Seq<(Seq<char>, Seq<char>)> {
    v.map_values(|p: (String, String)| (p.0@, p.1@))
}

/// What a token classifies as: its kind, its key without the sigil and its
/// value, or `None` when the token is not a valid override.
pub open spec fn override_of(s: Seq<char>) -> Option<(KeyValType, Seq<char>, Seq<char>)> {
    let i = first_index(s, '=');
    if i >= s.len() {
        None
    } else {
        let key = trim_chars(s.subrange(0, i));
        let value = trim_chars(s.subrange(i + 1, s.len() as int));
        if key.len() == 0 {
            None
        } else if key[0] == '%' {
            Some((KeyValType::Header, key.drop_first(), value))
        } else if key[0] == '@' {
            Some((KeyValType::Body, key.drop_first(), value))
        } else if unicode_alphabetic(key[0]) {
            Some((KeyValType::Query, key, value))
        } else {
            None
        }
    }
}

/// The pairs of the overrides of kind `k` among `args`, in order.
pub open spec fn pairs_of_kind(args: Seq<KeyVal>, k: KeyValType) -> Seq<(Seq<char>, Seq<char>)>
    decreases args.len(),
{
    if args.len() == 0 {
        seq![]
    } else {
        let rest = pairs_of_kind(args.drop_last(), k);
        let a = args.last();
        if a.key_type == k {
            rest.push((a.key@, a.value@))
        } else {
            rest
        }
    }
}

/// Classifies one override token.
pub fn parse_key_value(s: &str) -> (r: Result<KeyVal, Error>)
    ensures
        match r {
            Ok(kv) => override_of(s@) == Some((kv.key_type, kv.key@, kv.value@)),
            Err(e) => override_of(s@) is None && e == Error::InvalidOverride,
        },
{
    let n = s.unicode_len();
    let i = find_char(s, '=');
    if i >= n {
        return Err(Error::InvalidOverride);
    }
    let key = trim_str(s.substring_char(0, i));
    let value = trim_str(s.substring_char(i + 1, n));
    let klen = key.unicode_len();
    if klen == 0 {
        return Err(Error::InvalidOverride);
    }
    let first = key.get_char(0);
    let (key_type, key) = if first == '%' {
        (KeyValType::Header, key.substring_char(1, klen))
    } else if first == '@' {
        (KeyValType::Body, key.substring_char(1, klen))
    } else if is_alphabetic(first) {
        (KeyValType::Query, key)
    } else {
        return Err(Error::InvalidOverride);
    };
    Ok(KeyVal { key_type, key: key.to_string(), value: value.to_string() })
}

/// No token whose trimmed key starts with a character other than `%`, `@`
/// or a letter classifies as an override.
pub proof fn lemma_unknown_sigil_rejected(s: Seq<char>)
    requires
        first_index(s, '=') < s.len(),
        trim_chars(s.subrange(0, first_index(s, '='))).len() > 0,
        ({
            let c = trim_chars(s.subrange(0, first_index(s, '=')))[0];
            c != '%' && c != '@' && !unicode_alphabetic(c)
        }),
    ensures
        override_of(s) is None,
{
}

impl ExtraArgs {
    /// Groups classified overrides by kind, keeping their order.
    pub fn from_key_vals(args: Vec<KeyVal>) -> (r: ExtraArgs)
        ensures
            pairs_view(r.headers@) == pairs_of_kind(args@, KeyValType::Header),
            pairs_view(r.query@) == pairs_of_kind(args@, KeyValType::Query),
            pairs_view(r.body@) == pairs_of_kind(args@, KeyValType::Body),
    {
        let mut headers: Vec<(String, String)> = Vec::new();
        let mut query: Vec<(String, String)> = Vec::new();
        let mut body: Vec<(String, String)> = Vec::new();
        let n = args.len();
        let mut i: usize = 0;
        while i < n
            invariant
                n == args@.len(),
                i <= n,
                pairs_view(headers@) == pairs_of_kind(args@.subrange(0, i as int), KeyValType::Header),
                pairs_view(query@) == pairs_of_kind(args@.subrange(0, i as int), KeyValType::Query),
                pairs_view(body@) == pairs_of_kind(args@.subrange(0, i as int), KeyValType::Body),
            decreases n - i,
        {
            let arg = &args[i];
            let pair = (arg.key.clone(), arg.value.clone());
            proof {
                let pre = args@.subrange(0, i as int);
                let next = args@.subrange(0, i + 1);
                assert(next.drop_last() =~= pre);
                assert(next.last() == args@[i as int]);
            }
            match arg.key_type {
                KeyValType::Header => headers.push(pair),
                KeyValType::Query => query.push(pair),
                KeyValType::Body => body.push(pair),
            }
            proof {
                assert(pairs_view(headers@) =~= pairs_of_kind(args@.subrange(0, i + 1), KeyValType::Header));
                assert(pairs_view(query@) =~= pairs_of_kind(args@.subrange(0, i + 1), KeyValType::Query));
                assert(pairs_view(body@) =~= pairs_of_kind(args@.subrange(0, i + 1), KeyValType::Body));
            }
            i = i + 1;
        }
        assert(args@.subrange(0, n as int) =~= args@);
        ExtraArgs { headers, query, body }
    }

    /// Overrides of the query only.
    pub fn new_with_query(query: Vec<(String, String)>) -> (r: ExtraArgs)
        ensures
            r.headers@.len() == 0,
            r.query@ == query@,
            r.body@.len() == 0,
    {
        ExtraArgs { headers: Vec::new(), query, body: Vec::new() }
    }

    /// No overrides at all.
    pub fn empty() -> (r: ExtraArgs)
        ensures
            r.headers@.len() == 0,
            r.query@.len() == 0,
            r.body@.len() == 0,
    {
        ExtraArgs { headers: Vec::new(), query: Vec::new(), body: Vec::new() }
    }
}

impl From<Vec<KeyVal>> for ExtraArgs {
    fn from(args: Vec<KeyVal>) -> ExtraArgs {
        ExtraArgs::from_key_vals(args)
    }
}

impl vstd::std_specs::convert::FromSpecImpl<Vec<KeyVal>> for ExtraArgs {
    open spec fn obeys_from_spec() -> bool {
        false
    }

    open spec fn from_spec(v: Vec<KeyVal>) -> ExtraArgs {
        arbitrary()
    }
}

} // verus!
