//! Query parameters of a request URI.
use vstd::prelude::*;

use crate::text::{chars_of, parse_usize, split_from, split_on, string_from_chars, usize_value};

verus! {

/// What `urlencoding::decode` makes of a text: the percent-decoded text,
/// or nothing where the decoded bytes are not UTF-8.
pub uninterp spec fn percent_decoded(s: Seq<char>) -> Option<Seq<char>>;

/// Relies on `urlencoding::decode`: its result depends on the text alone,
/// it fails only where the decoded bytes are not UTF-8, and a text without
/// `%` comes back unchanged.
#[verifier::external_body]
fn url_decode(s: &str) -> (r: Option<String>)
    ensures
        r matches Some(d) ==> percent_decoded(s@) == Some(d@),
        r is None ==> percent_decoded(s@) is None,
        !s@.contains('%') ==> r is Some && r->0@ == s@,
{
    match urlencoding::decode(s) {
        Ok(d) => Some(d.into_owned()),
        Err(_) => None,
    }
}

/// The first position at or after `i` where `c` stands in `s`.
pub open spec fn first_from(s: Seq<char>, c: char, i: int) -> Option<int>
    decreases s.len() - i,
{
    if i >= s.len() || i < 0 {
        None
    } else if s[i] == c {
        Some(i)
    } else {
        first_from(s, c, i + 1)
    }
}

/// The first position where `c` stands in `s`.
pub open spec fn first_index(s: Seq<char>, c: char) -> Option<int> {
    first_from(s, c, 0)
}

/// A value percent-decoded, or as it stands where it does not decode.
pub open spec fn decoded_or_raw(v: Seq<char>) -> Seq<char> {
    match percent_decoded(v) {
        Some(d) => d,
        None => v,
    }
}

/// The name of a `name=value` parameter; a parameter without `=` is a
/// name alone.
pub open spec fn param_key(p: Seq<char>) -> Seq<char> {
    match first_index(p, '=') {
        Some(e) => p.subrange(0, e),
        None => p,
    }
}

/// The decoded value of a `name=value` parameter; empty for a name alone.
pub open spec fn param_value(p: Seq<char>) -> Seq<char> {
    match first_index(p, '=') {
        Some(e) => decoded_or_raw(p.subrange(e + 1, p.len() as int)),
        None => seq![],
    }
}

/// The parameters, a later one replacing an earlier one of the same name.
pub open spec fn params_of(fields: Seq<Seq<char>>) -> Map<Seq<char>, Seq<char>>
    decreases fields.len(),
{
    if fields.len() == 0 {
        Map::empty()
    } else {
        params_of(fields.drop_last()).insert(param_key(fields.last()), param_value(fields.last()))
    }
}

/// The parameters of a URI: those of the `&`-separated fields after its
/// first `?`; none where it has no `?`.
pub open spec fn query_of(uri: Seq<char>) -> Map<Seq<char>, Seq<char>> {
    match first_index(uri, '?') {
        Some(q) => params_of(split_on(uri.subrange(q + 1, uri.len() as int), '&')),
        None => Map::empty(),
    }
}

/// Name and value pairs, a later pair overriding an earlier one.
pub open spec fn pairs_map(s: Seq<(String, String)>) -> Map<Seq<char>, Seq<char>>
    decreases s.len(),
{
    if s.len() == 0 {
        Map::empty()
    } else {
        pairs_map(s.drop_last()).insert(s.last().0@, s.last().1@)
    }
}

/// Query parameters by name.
pub struct QueryParams {
    entries: Vec<(String, String)>,
}

impl View for QueryParams {
    type V = Map<Seq<char>, Seq<char>>;

    closed spec fn view(&self) -> Map<Seq<char>, Seq<char>> {
        pairs_map(self.entries@)
    }
}

/// Copies `v[from..to]`.
fn slice_chars(v: &Vec<char>, from: usize, to: usize) -> (r: Vec<char>)
    requires
        from <= to <= v.len(),
    ensures
        r@ == v@.subrange(from as int, to as int),
{
    let mut r: Vec<char> = Vec::new();
    let mut k: usize = from;
    while k < to
        invariant
            from <= k <= to <= v.len(),
            r@ == v@.subrange(from as int, k as int),
        decreases to - k,
    {
        r.push(v[k]);
        proof {
            assert(r@ =~= v@.subrange(from as int, k + 1));
        }
        k = k + 1;
    }
    r
}

/// The first position at or after `from` where `c` stands in `v`.
fn find_char(v: &Vec<char>, c: char, from: usize) -> (r: Option<usize>)
    requires
        from <= v.len(),
    ensures
        r matches Some(i) ==> first_from(v@, c, from as int) == Some(i as int) && from <= i < v.len(),
        r is None ==> first_from(v@, c, from as int) is None,
{
    let mut i: usize = from;
    while i < v.len()
        invariant
            from <= i <= v.len(),
            first_from(v@, c, from as int) == first_from(v@, c, i as int),
        decreases v.len() - i,
    {
        if v[i] == c {
            return Some(i);
        }
        i = i + 1;
    }
    None
}

/// The name and decoded value of one parameter.
fn param_entry(p: &Vec<char>) -> (r: (String, String))
    ensures
        r.0@ == param_key(p@),
        r.1@ == param_value(p@),
{
    match find_char(p, '=', 0) {
        Some(e) => {
            let key = string_from_chars(&slice_chars(p, 0, e));
            let raw = string_from_chars(&slice_chars(p, e + 1, p.len()));
            let value = match url_decode(raw.as_str()) {
                Some(d) => d,
                None => raw,
            };
            (key, value)
        },
        None => (string_from_chars(p), String::new()),
    }
}

impl QueryParams {
    /// No parameters.
    pub fn new() -> (r: QueryParams)
        ensures
            r@ == Map::<Seq<char>, Seq<char>>::empty(),
    {
        QueryParams { entries: Vec::new() }
    }

    /// Sets `key` to `value`, replacing what it held.
    pub fn insert(&mut self, key: String, value: String)
        ensures
            final(self)@ == old(self)@.insert(key@, value@),
    {
        let ghost before = self.entries@;
        self.entries.push((key, value));
        proof {
            assert(self.entries@.drop_last() =~= before);
        }
    }

    /// The position of the pair that gives `key` its value.
    fn position(&self, key: &str) -> (r: Option<usize>)
        ensures
            r matches Some(i) ==> i < self.entries@.len() && self@.contains_key(key@)
                && self@[key@] == self.entries@[i as int].1@,
            r is None ==> !self@.contains_key(key@),
    {
        let k = key.to_owned();
        let mut n: usize = self.entries.len();
        proof {
            assert(self.entries@.take(n as int) =~= self.entries@);
        }
        while n > 0
            invariant
                n <= self.entries@.len(),
                k@ == key@,
                pairs_map(self.entries@.take(n as int)).contains_key(key@) == self@.contains_key(
                    key@,
                ),
                self@.contains_key(key@) ==> pairs_map(self.entries@.take(n as int))[key@]
                    == self@[key@],
            decreases n,
        {
            let ghost t = self.entries@.take(n as int);
            proof {
                assert(t.drop_last() =~= self.entries@.take(n - 1));
                assert(t.last() == self.entries@[n - 1]);
            }
            if self.entries[n - 1].0 == k {
                return Some(n - 1);
            }
            n = n - 1;
        }
        None
    }
}

/// The parameters of a URI: the `&`-separated fields after its first
/// `?`, each `name=value` with the value percent-decoded (kept as it
/// stands where it does not decode) or a bare `name` with an empty value; a
/// later field replaces an earlier one of the same name.
pub fn parse_query_params(uri: &str) -> (r: QueryParams)
    ensures
        r@ == query_of(uri@),
{
    let chars = chars_of(uri);
    let mut params = QueryParams::new();
    let q = match find_char(&chars, '?', 0) {
        Some(q) => q,
        None => {
            return params;
        },
    };
    let query = slice_chars(&chars, q + 1, chars.len());
    let ghost s = query@;
    let ghost mut done: Seq<Seq<char>> = seq![];
    let mut cur: Vec<char> = Vec::new();
    let mut i: usize = 0;
    proof {
        assert(cur@ =~= seq![]);
        assert(split_on(s, '&') =~= done + split_from(s, '&', 0, cur@));
        assert(params@ =~= params_of(done));
    }
    while i < query.len()
        invariant
            s == query@,
            i <= s.len(),
            split_on(s, '&') == done + split_from(s, '&', i as int, cur@),
            params@ == params_of(done),
        decreases s.len() - i,
    {
        let c = query[i];
        if c == '&' {
            proof {
                assert(split_from(s, '&', i as int, cur@) == seq![cur@] + split_from(
                    s,
                    '&',
                    i + 1,
                    seq![],
                ));
                assert(done + (seq![cur@] + split_from(s, '&', i + 1, seq![])) =~= done.push(cur@)
                    + split_from(s, '&', i + 1, seq![]));
            }
            let (key, value) = param_entry(&cur);
            params.insert(key, value);
            proof {
                assert(done.push(cur@).drop_last() =~= done);
                done = done.push(cur@);
            }
            cur = Vec::new();
            proof {
                assert(cur@ =~= seq![]);
            }
        } else {
            proof {
                assert(split_from(s, '&', i as int, cur@) == split_from(s, '&', i + 1, cur@.push(c)));
            }
            cur.push(c);
        }
        i = i + 1;
    }
    proof {
        assert(split_from(s, '&', i as int, cur@) == seq![cur@]);
        assert(split_on(s, '&') =~= done.push(cur@));
        assert(done.push(cur@).drop_last() =~= done);
    }
    let (key, value) = param_entry(&cur);
    params.insert(key, value);
    params
}

/// The value of `key`, else `default`.
pub fn get_string(params: &QueryParams, key: &str, default: Option<&str>) -> (r: Option<String>)
    ensures
        params@.contains_key(key@) ==> r is Some && r->0@ == params@[key@],
        !params@.contains_key(key@) ==> (r is Some <==> default is Some),
        !params@.contains_key(key@) ==> (r matches Some(v) ==> v@ == default->0@),
{
    match params.position(key) {
        Some(i) => Some(params.entries[i].1.clone()),
        None => match default {
            Some(d) => Some(d.to_owned()),
            None => None,
        },
    }
}

/// Whether `key` is set to `true`.
pub fn get_bool_flag(params: &QueryParams, key: &str) -> (r: bool)
    ensures
        r == (params@.contains_key(key@) && params@[key@] == "true"@),
{
    match params.position(key) {
        Some(i) => params.entries[i].1 == String::from_str("true"),
        None => false,
    }
}

/// The value of `key` read as a `usize`, else `default`; at least 1.
pub fn get_int(params: &QueryParams, key: &str, default: usize) -> (r: usize)
    ensures
        r == (if params@.contains_key(key@) && usize_value(params@[key@]) is Some {
            if usize_value(params@[key@])->0 >= 1 {
                usize_value(params@[key@])->0
            } else {
                1
            }
        } else if default >= 1 {
            default as int
        } else {
            1
        }),
{
    let v: usize = match params.position(key) {
        Some(i) => {
            let chars = chars_of(params.entries[i].1.as_str());
            match parse_usize(&chars) {
                Some(n) => n,
                None => default,
            }
        },
        None => default,
    };
    if v < 1 {
        1
    } else {
        v
    }
}

} // verus!
