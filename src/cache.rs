//! The bounded pattern cache: regular expressions compiled once and kept by
//! their source text, with the whole cache cleared when it is full, and the
//! capture helpers built on it.

use vstd::prelude::*;
use vstd::string::*;
use regex::Regex;
use crate::text::chars_of;

verus! {

#[verifier::external_type_specification]
#[verifier::external_body]
pub struct ExRegex(regex::Regex);

#[verifier::external_type_specification]
#[verifier::external_body]
pub struct ExRegexError(regex::Error);

/// `pattern` is a regular expression that `regex::Regex::new` accepts.
pub uninterp spec fn regex_compiles(pattern: Seq<char>) -> bool;

/// The pattern that a compiled expression was built from (`Regex::as_str`).
pub uninterp spec fn regex_source(re: Regex) -> Seq<char>;

/// The name of each capture group of `pattern`, in the order of their opening
/// parentheses; the first is the whole match.
pub uninterp spec fn capture_names_of(pattern: Seq<char>) -> Seq<Option<Seq<char>>>;

/// The text of each capture group in the first match of `pattern` in `text`
/// (`None` for a group that took no part), or `None` where it does not match.
pub uninterp spec fn capture_texts(pattern: Seq<char>, text: Seq<char>) -> Option<Seq<Option<Seq<char>>>>;

/// The views of optional strings.
pub open spec fn opt_views(v: Seq<Option<String>>) -> Seq<Option<Seq<char>>> {
    v.map_values(|o: Option<String>| match o {
        Some(s) => Some(s@),
        None => None,
    })
}

/// Relies on `regex::Regex::new`: whether it compiles depends on the pattern
/// alone, and the expression keeps its pattern (`Regex::as_str`).
#[verifier::external_body]
fn compile(pattern: &str) -> (r: Result<Regex, regex::Error>)
    ensures
        r is Ok <==> regex_compiles(pattern@),
        r matches Ok(re) ==> regex_source(re) == pattern@,
{
    Regex::new(pattern)
}

/// A pattern that does not compile.
#[derive(Clone, Copy, Debug, PartialEq, Eq, Structural)]
pub struct PatternCompileError;

/// The patterns held after a lookup of `p` that compiled: a hit leaves them
/// as they are; a miss clears a full cache (a `limit` of 0 means no bound)
/// and then adds `p`.
pub open spec fn keys_after_get(keys: Seq<Seq<char>>, limit: nat, p: Seq<char>) -> Seq<Seq<char>> {
    if keys.contains(p) {
        keys
    } else if limit > 0 && keys.len() == limit {
        seq![p]
    } else {
        keys.push(p)
    }
}

pub struct PatternsCache {
    patterns: Vec<String>,
    regexes: Vec<Regex>,
    limit: usize,
    size: usize,
}

impl PatternsCache {
    /// The patterns held, in the order they were added.
    pub closed spec fn keys(&self) -> Seq<Seq<char>> {
        self.patterns@.map_values(|s: String| s@)
    }

    /// The compiled expressions, one for each key.
    pub closed spec fn compiled(&self) -> Seq<Regex> {
        self.regexes@
    }

    pub closed spec fn spec_limit(&self) -> nat {
        self.limit as nat
    }

    /// Keys are distinct, each has its compiled expression, and a bounded
    /// cache holds at most `limit` of them.
    pub closed spec fn wf(&self) -> bool {
        &&& self.patterns.len() == self.regexes.len()
        &&& self.size == self.patterns.len()
        &&& self.keys().no_duplicates()
        &&& self.limit > 0 ==> self.size <= self.limit
        &&& forall|i: int|
            0 <= i < self.regexes.len() ==> regex_source(#[trigger] self.regexes@[i])
                == self.keys()[i] && regex_compiles(self.keys()[i])
    }

    pub fn new() -> (r: Self)
        ensures
            r.wf(),
            r.keys() == Seq::<Seq<char>>::empty(),
            r.spec_limit() == 0,
    {
        let r = Self { patterns: Vec::new(), regexes: Vec::new(), limit: 0, size: 0 };
        assert(r.keys() =~= Seq::<Seq<char>>::empty());
        r
    }

    pub fn with_capacity(capacity: usize) -> (r: Self)
        ensures
            r.wf(),
            r.keys() == Seq::<Seq<char>>::empty(),
            r.spec_limit() == 0,
    {
        let r = Self {
            patterns: Vec::with_capacity(capacity),
            regexes: Vec::with_capacity(capacity),
            limit: 0,
            size: 0,
        };
        assert(r.keys() =~= Seq::<Seq<char>>::empty());
        r
    }

    /// The cache with its bound set to `value`; it must hold no more than
    /// that already.
    pub fn limit(self, value: usize) -> (r: Self)
        requires
            self.wf(),
            value > 0 ==> self.keys().len() <= value,
        ensures
            r.wf(),
            r.keys() == self.keys(),
            r.compiled() == self.compiled(),
            r.spec_limit() == value,
    {
        let mut s = self;
        s.limit = value;
        s
    }

    fn position(&self, pattern: &String) -> (r: Option<usize>)
        requires
            self.wf(),
        ensures
            r matches Some(i) ==> i < self.keys().len() && self.keys()[i as int] == pattern@,
            r is None ==> !self.keys().contains(pattern@),
    {
        let mut i: usize = 0;
        while i < self.patterns.len()
            invariant
                self.wf(),
                i <= self.patterns.len(),
                forall|j: int| 0 <= j < i ==> self.keys()[j] != pattern@,
            decreases self.patterns.len() - i,
        {
            if self.patterns[i] == *pattern {
                return Some(i);
            }
            i = i + 1;
        }
        proof {
            if self.keys().contains(pattern@) {
                let j = choose|j: int| 0 <= j < self.keys().len() && self.keys()[j] == pattern@;
                assert(j < i);
            }
        }
        None
    }

    /// The compiled expression for `pattern`. A hit changes nothing. A miss
    /// compiles the pattern; if that fails the cache is left as it was,
    /// else a full cache is cleared and the pattern is added.
    pub fn get(&mut self, pattern: &str) -> (r: Result<&Regex, PatternCompileError>)
        requires
            old(self).wf(),
        ensures
            final(self).wf(),
            final(self).spec_limit() == old(self).spec_limit(),
            old(self).keys().contains(pattern@) ==> r is Ok && final(self).keys() == old(self).keys()
                && final(self).compiled() == old(self).compiled(),
            r is Ok <==> regex_compiles(pattern@),
            r matches Ok(re) ==> regex_source(*re) == pattern@,
            r is Ok ==> final(self).keys() == keys_after_get(
                old(self).keys(),
                old(self).spec_limit(),
                pattern@,
            ),
            r matches Ok(re) ==> exists|i: int|
                0 <= i < final(self).keys().len() && final(self).keys()[i] == pattern@
                    && final(self).compiled()[i] == *re,
            r is Err ==> final(self).keys() == old(self).keys() && final(self).compiled() == old(
                self,
            ).compiled(),
    {
        let key = pattern.to_owned();
        match self.position(&key) {
            Some(i) => {
                let re = &self.regexes[i];
                assert(self.keys()[i as int] == pattern@ && self.compiled()[i as int] == *re);
                assert(regex_source(self.regexes@[i as int]) == self.keys()[i as int]);
                Ok(re)
            },
            None => {
                match compile(pattern) {
                    Ok(re) => {
                        if self.limit > 0 && self.size == self.limit {
                            self.clear();
                        }
                        let ghost before = self.keys();
                        self.patterns.push(key);
                        self.regexes.push(re);
                        self.size = self.patterns.len();
                        proof {
                            assert(self.keys() =~= before.push(pattern@));
                            assert forall|a: int, b: int|
                                0 <= a < b < self.keys().len() implies self.keys()[a]
                                != self.keys()[b] by {
                                if b == self.keys().len() - 1 {
                                    assert(before[a] == self.keys()[a]);
                                    assert(!before.contains(pattern@));
                                }
                            }
                            if old(self).limit > 0 && old(self).size == old(self).limit {
                                assert(self.keys() =~= seq![pattern@]);
                            }
                            assert forall|k: int| 0 <= k < self.regexes.len() implies regex_source(
                                #[trigger] self.regexes@[k],
                            ) == self.keys()[k] && regex_compiles(self.keys()[k]) by {
                                if k < self.regexes.len() - 1 {
                                    assert(self.keys()[k] == before[k]);
                                }
                            }
                        }
                        let last = self.regexes.len() - 1;
                        let re = &self.regexes[last];
                        assert(self.keys()[last as int] == pattern@ && self.compiled()[last as int]
                            == *re);
                        Ok(re)
                    },
                    Err(_) => Err(PatternCompileError),
                }
            },
        }
    }

    pub fn len(&self) -> (r: usize)
        requires
            self.wf(),
        ensures
            r == self.keys().len(),
    {
        self.size
    }

    pub fn get_limit(&self) -> (r: usize)
        ensures
            r == self.spec_limit(),
    {
        self.limit
    }

    pub fn is_limited(&self) -> (r: bool)
        ensures
            r == (self.spec_limit() > 0),
    {
        self.limit > 0
    }

    pub fn reached_limit(&self) -> (r: bool)
        requires
            self.wf(),
        ensures
            r == (self.spec_limit() > 0 && self.keys().len() >= self.spec_limit()),
    {
        self.limit > 0 && self.size >= self.limit
    }

    pub fn clear(&mut self)
        requires
            old(self).wf(),
        ensures
            final(self).wf(),
            final(self).keys() == Seq::<Seq<char>>::empty(),
            final(self).spec_limit() == old(self).spec_limit(),
    {
        self.patterns.clear();
        self.regexes.clear();
        self.size = 0;
        assert(self.keys() =~= Seq::<Seq<char>>::empty());
    }
}

/// The keys after looking up each pattern of `ps` in turn, every one
/// compiling.
pub open spec fn keys_after_all(keys: Seq<Seq<char>>, limit: nat, ps: Seq<Seq<char>>) -> Seq<Seq<char>>
    decreases ps.len(),
{
    if ps.len() == 0 {
        keys
    } else {
        keys_after_all(keys_after_get(keys, limit, ps[0]), limit, ps.drop_first())
    }
}

proof fn lemma_fill_distinct(keys: Seq<Seq<char>>, limit: nat, ps: Seq<Seq<char>>)
    requires
        ps.no_duplicates(),
        forall|k: int| 0 <= k < ps.len() ==> !keys.contains(#[trigger] ps[k]),
        keys.len() + ps.len() <= limit,
    ensures
        keys_after_all(keys, limit, ps) == keys + ps,
    decreases ps.len(),
{
    if ps.len() > 0 {
        let next = keys.push(ps[0]);
        assert(keys_after_get(keys, limit, ps[0]) == next);
        let rest = ps.drop_first();
        assert forall|k: int| 0 <= k < rest.len() implies !next.contains(#[trigger] rest[k]) by {
            assert(rest[k] == ps[k + 1]);
            assert(!keys.contains(ps[k + 1]));
            if next.contains(rest[k]) {
                let j = choose|j: int| 0 <= j < next.len() && next[j] == rest[k];
                if j < keys.len() {
                    assert(keys[j] == rest[k]);
                } else {
                    assert(ps[0] == ps[k + 1]);
                }
            }
        }
        assert(rest.no_duplicates()) by {
            assert forall|a: int, b: int| 0 <= a < b < rest.len() implies rest[a] != rest[b] by {
                assert(rest[a] == ps[a + 1] && rest[b] == ps[b + 1]);
            }
        }
        lemma_fill_distinct(next, limit, rest);
        assert(next + rest =~= keys + ps);
    }
}

/// Looking up `limit + 1` distinct patterns in an empty cache bounded by
/// `limit` leaves one pattern in it: the first `limit` fill it, and the last
/// one clears it before it is added.
pub proof fn lemma_overflow_clears(limit: nat, ps: Seq<Seq<char>>)
    requires
        limit > 0,
        ps.len() == limit + 1,
        ps.no_duplicates(),
    ensures
        keys_after_all(Seq::empty(), limit, ps).len() == 1,
    decreases limit,
{
    let first = ps.take(limit as int);
    assert(first.no_duplicates()) by {
        assert forall|a: int, b: int| 0 <= a < b < first.len() implies first[a] != first[b] by {
            assert(first[a] == ps[a] && first[b] == ps[b]);
        }
    }
    lemma_fill_distinct(Seq::empty(), limit, first);
    lemma_after_all_split(Seq::empty(), limit, ps, limit as int);
    let full = Seq::<Seq<char>>::empty() + first;
    assert(full =~= first);
    let last = ps[limit as int];
    assert(!full.contains(last)) by {
        if full.contains(last) {
            let j = choose|j: int| 0 <= j < full.len() && full[j] == last;
            assert(ps[j] == ps[limit as int]);
        }
    }
    assert(ps.skip(limit as int) =~= seq![last]);
    assert(keys_after_all(full, limit, seq![last]) == keys_after_all(
        keys_after_get(full, limit, last),
        limit,
        seq![last].drop_first(),
    ));
    assert(seq![last].drop_first() =~= Seq::<Seq<char>>::empty());
}

proof fn lemma_after_all_split(keys: Seq<Seq<char>>, limit: nat, ps: Seq<Seq<char>>, k: int)
    requires
        0 <= k <= ps.len(),
    ensures
        keys_after_all(keys, limit, ps) == keys_after_all(
            keys_after_all(keys, limit, ps.take(k)),
            limit,
            ps.skip(k),
        ),
    decreases k,
{
    if k == 0 {
        assert(ps.take(0) =~= Seq::<Seq<char>>::empty());
        assert(ps.skip(0) =~= ps);
    } else {
        let next = keys_after_get(keys, limit, ps[0]);
        lemma_after_all_split(next, limit, ps.drop_first(), k - 1);
        assert(ps.take(k).drop_first() =~= ps.drop_first().take(k - 1));
        assert(ps.take(k)[0] == ps[0]);
        assert(ps.drop_first().skip(k - 1) =~= ps.skip(k));
    }
}

/// Relies on `Regex::capture_names`: one entry per capture group, in the
/// order of their opening parentheses; the first is the whole match, which
/// has no name. The names depend on the pattern alone.
#[verifier::external_body]
fn group_names(re: &Regex) -> (r: Vec<Option<String>>)
    ensures
        opt_views(r@) == capture_names_of(regex_source(*re)),
        r.len() >= 1,
        r[0] is None,
{
    re.capture_names().map(|n| n.map(|s| s.to_string())).collect()
}

/// Relies on `Regex::captures` and `Captures::iter`: on a match, the text of
/// each capture group in order, or `None` for a group that took no part; the
/// first is the whole match, which is always there. The result depends on
/// the pattern and the text alone.
#[verifier::external_body]
fn group_texts(re: &Regex, text: &str) -> (r: Option<Vec<Option<String>>>)
    ensures
        r is Some <==> capture_texts(regex_source(*re), text@) is Some,
        r matches Some(g) ==> opt_views(g@) == capture_texts(regex_source(*re), text@)->0,
        r matches Some(g) ==> g.len() >= 1 && g[0] is Some,
{
    re.captures(text).map(|c| c.iter().map(|m| m.map(|m| m.as_str().to_string())).collect())
}

/// Hexadecimal digit character of `n < 16`, lower case.
pub open spec fn hex_digit_char(n: u32) -> char {
    if n < 10 {
        ((0x30 + n) as u32) as char
    } else {
        ((0x61 + n - 10) as u32) as char
    }
}

/// A character as it stands inside a JSON string: `"` and `\` behind a
/// backslash, control characters as `\u00XX`.
pub open spec fn json_escape_char(c: char) -> Seq<char> {
    if c == '"' {
        seq!['\\', '"']
    } else if c == '\\' {
        seq!['\\', '\\']
    } else if (c as u32) < 0x20 {
        seq!['\\', 'u', '0', '0', hex_digit_char((c as u32) / 16), hex_digit_char((c as u32) % 16)]
    } else {
        seq![c]
    }
}

/// `s` as it stands inside a JSON string.
pub open spec fn json_escaped(s: Seq<char>) -> Seq<char>
    decreases s.len(),
{
    if s.len() == 0 {
        Seq::empty()
    } else {
        json_escaped(s.drop_last()) + json_escape_char(s.last())
    }
}

/// `"name":"value"`, both escaped.
pub open spec fn json_entry(name: Seq<char>, value: Seq<char>) -> Seq<char> {
    seq!['"'] + json_escaped(name) + seq!['"', ':', '"'] + json_escaped(value) + seq!['"']
}

/// The entries for the groups below `k` that have a name and took part in
/// the match.
pub open spec fn named_entries(names: Seq<Option<Seq<char>>>, groups: Seq<Option<Seq<char>>>, k: int) -> Seq<Seq<char>>
    decreases k,
{
    if k <= 0 {
        Seq::empty()
    } else {
        let before = named_entries(names, groups, k - 1);
        match (names[k - 1], groups[k - 1]) {
            (Some(n), Some(v)) => before.push(json_entry(n, v)),
            _ => before,
        }
    }
}

/// The entries joined by commas.
pub open spec fn joined(es: Seq<Seq<char>>) -> Seq<char>
    decreases es.len(),
{
    if es.len() == 0 {
        Seq::empty()
    } else if es.len() == 1 {
        es[0]
    } else {
        joined(es.drop_last()) + seq![','] + es.last()
    }
}

pub open spec fn group_count(names: Seq<Option<Seq<char>>>, groups: Seq<Option<Seq<char>>>) -> int {
    if names.len() <= groups.len() {
        names.len() as int
    } else {
        groups.len() as int
    }
}

/// The JSON object of the named groups that took part in a match, in group
/// order.
pub open spec fn json_object(names: Seq<Option<Seq<char>>>, groups: Seq<Option<Seq<char>>>) -> Seq<char> {
    seq!['{'] + joined(named_entries(names, groups, group_count(names, groups))) + seq!['}']
}

fn hex_char(n: u32) -> (c: char)
    requires
        n < 16,
    ensures
        c == hex_digit_char(n),
{
    let v: u32 = if n < 10 {
        0x30 + n
    } else {
        0x61 + n - 10
    };
    match core::char::from_u32(v) {
        Some(c) => {
            proof {
                vstd::utf8::char_u32_cast(c, v);
            }
            c
        },
        None => {
            assert(vstd::utf8::is_scalar(v));
            '0'
        },
    }
}

/// Appends `s` as it stands inside a JSON string.
fn push_json_escaped(out: &mut String, s: &String)
    ensures
        final(out)@ == old(out)@ + json_escaped(s@),
{
    let chars = chars_of(s.as_str());
    let ghost start = out@;
    let mut i: usize = 0;
    while i < chars.len()
        invariant
            chars@ == s@,
            i <= chars.len(),
            out@ == start + json_escaped(s@.take(i as int)),
        decreases chars.len() - i,
    {
        let c = chars[i];
        let ghost before = out@;
        let u = c as u32;
        if c == '"' {
            out.push('\\');
            out.push('"');
        } else if c == '\\' {
            out.push('\\');
            out.push('\\');
        } else if u < 0x20 {
            out.push('\\');
            out.push('u');
            out.push('0');
            out.push('0');
            out.push(hex_char(u / 16));
            out.push(hex_char(u % 16));
        } else {
            out.push(c);
        }
        proof {
            assert(out@ =~= before + json_escape_char(c));
            assert(s@.take(i + 1).drop_last() =~= s@.take(i as int));
            assert(s@.take(i + 1).last() == c);
            assert(start + json_escaped(s@.take(i as int)) + json_escape_char(c) =~= start
                + json_escaped(s@.take(i + 1)));
        }
        i = i + 1;
    }
    assert(s@.take(i as int) =~= s@);
}

/// The JSON object of the named groups of a match, from the group names and
/// the group texts.
pub fn named_groups_json(names: &Vec<Option<String>>, groups: &Vec<Option<String>>) -> (r: String)
    ensures
        r@ == json_object(opt_views(names@), opt_views(groups@)),
{
    let ghost ns = opt_views(names@);
    let ghost gs = opt_views(groups@);
    let count = if names.len() <= groups.len() {
        names.len()
    } else {
        groups.len()
    };
    let mut body = String::new();
    let mut empty = true;
    let mut k: usize = 0;
    while k < count
        invariant
            ns == opt_views(names@),
            gs == opt_views(groups@),
            count as int == group_count(ns, gs),
            count <= names.len() && count <= groups.len(),
            k <= count,
            empty == (named_entries(ns, gs, k as int).len() == 0),
            body@ == joined(named_entries(ns, gs, k as int)),
        decreases count - k,
    {
        proof {
            assert(ns[k as int] == match names@[k as int] {
                Some(s) => Some(s@),
                None => None::<Seq<char>>,
            });
            assert(gs[k as int] == match groups@[k as int] {
                Some(s) => Some(s@),
                None => None::<Seq<char>>,
            });
        }
        match (&names[k], &groups[k]) {
            (Some(n), Some(v)) => {
                let ghost before = named_entries(ns, gs, k as int);
                let ghost old_body = body@;
                if !empty {
                    body.push(',');
                }
                empty = false;
                let ghost mid = body@;
                body.push('"');
                push_json_escaped(&mut body, n);
                body.push('"');
                body.push(':');
                body.push('"');
                push_json_escaped(&mut body, v);
                body.push('"');
                proof {
                    assert(body@ =~= mid + json_entry(n@, v@));
                    let es = before.push(json_entry(n@, v@));
                    assert(es.drop_last() =~= before);
                    if before.len() == 0 {
                        assert(body@ =~= json_entry(n@, v@));
                    } else {
                        assert(body@ =~= old_body + seq![','] + json_entry(n@, v@));
                    }
                }
            },
            _ => {},
        }
        k = k + 1;
    }
    let mut r = String::new();
    r.push('{');
    r.append(body.as_str());
    r.push('}');
    assert(r@ =~= json_object(ns, gs));
    r
}

/// The text of the first capture group, where there is one and it took part
/// in the match.
pub fn first_group(groups: &Vec<Option<String>>) -> (r: Option<String>)
    ensures
        groups.len() > 1 && groups[1] is Some ==> (r matches Some(s) && s@ == groups[1]->0@),
        !(groups.len() > 1 && groups[1] is Some) ==> r is None,
{
    if groups.len() > 1 {
        match &groups[1] {
            Some(s) => Some(s.clone()),
            None => None,
        }
    } else {
        None
    }
}

/// A regex request: the text to search and the pattern to search it with.
pub struct RegexData {
    pub text: String,
    pub pattern: String,
}

/// Why a regex request gave no answer.
#[derive(Clone, Copy, Debug, PartialEq, Eq, Structural)]
pub enum RegexError {
    /// The pattern does not compile.
    PatternCompile,
    /// The pattern does not match the text.
    NoMatch,
    /// The match has no first capture group, or that group took no part in it.
    NoGroup,
}

/// The cache after a request for `pattern`: `keys_after_get` where the
/// pattern compiles, else unchanged.
pub open spec fn cache_after_request(old_c: PatternsCache, new_c: PatternsCache, pattern: Seq<char>) -> bool {
    &&& new_c.wf()
    &&& new_c.spec_limit() == old_c.spec_limit()
    &&& regex_compiles(pattern) ==> new_c.keys() == keys_after_get(old_c.keys(), old_c.spec_limit(), pattern)
    &&& !regex_compiles(pattern) ==> new_c.keys() == old_c.keys()
}

/// What the first-group request answers, given what the pattern matched.
pub open spec fn first_group_answer(pattern: Seq<char>, text: Seq<char>) -> Result<Seq<char>, RegexError> {
    if !regex_compiles(pattern) {
        Err(RegexError::PatternCompile)
    } else {
        match capture_texts(pattern, text) {
            None => Err(RegexError::NoMatch),
            Some(g) => if g.len() > 1 && g[1] is Some {
                Ok(g[1]->0)
            } else {
                Err(RegexError::NoGroup)
            },
        }
    }
}

/// What the JSON request answers, given what the pattern matched.
pub open spec fn json_answer(pattern: Seq<char>, text: Seq<char>) -> Result<Seq<char>, RegexError> {
    if !regex_compiles(pattern) {
        Err(RegexError::PatternCompile)
    } else {
        match capture_texts(pattern, text) {
            None => Err(RegexError::NoMatch),
            Some(g) => Ok(json_object(capture_names_of(pattern), g)),
        }
    }
}

/// The text of the first capture group of `request.pattern` on
/// `request.text`, compiling the pattern through `cache`.
pub fn regex_capture_group(cache: &mut PatternsCache, request: &RegexData) -> (r: Result<String, RegexError>)
    requires
        old(cache).wf(),
    ensures
        cache_after_request(*old(cache), *final(cache), request.pattern@),
        match first_group_answer(request.pattern@, request.text@) {
            Ok(t) => r matches Ok(s) && s@ == t,
            Err(e) => r == Err::<String, RegexError>(e),
        },
{
    let re = match cache.get(request.pattern.as_str()) {
        Ok(re) => re,
        Err(_) => return Err(RegexError::PatternCompile),
    };
    match group_texts(re, request.text.as_str()) {
        Some(groups) => {
            proof {
                let g = opt_views(groups@);
                if groups@.len() > 1 {
                    assert(g[1] == match groups@[1] {
                        Some(s) => Some(s@),
                        None => None::<Seq<char>>,
                    });
                }
            }
            match first_group(&groups) {
                Some(s) => Ok(s),
                None => Err(RegexError::NoGroup),
            }
        },
        None => Err(RegexError::NoMatch),
    }
}

/// The JSON object of the named capture groups of `request.pattern` on
/// `request.text`, compiling the pattern through `cache`.
pub fn regex_to_json(cache: &mut PatternsCache, request: &RegexData) -> (r: Result<String, RegexError>)
    requires
        old(cache).wf(),
    ensures
        cache_after_request(*old(cache), *final(cache), request.pattern@),
        match json_answer(request.pattern@, request.text@) {
            Ok(t) => r matches Ok(s) && s@ == t,
            Err(e) => r == Err::<String, RegexError>(e),
        },
{
    let re = match cache.get(request.pattern.as_str()) {
        Ok(re) => re,
        Err(_) => return Err(RegexError::PatternCompile),
    };
    let names = group_names(re);
    match group_texts(re, request.text.as_str()) {
        Some(groups) => Ok(named_groups_json(&names, &groups)),
        None => Err(RegexError::NoMatch),
    }
}

} // verus!
