use crate::data::webhook::AllowedPath;
use crate::data::webhook::AllowedPaths;
use crate::error::Error;
use vstd::prelude::*;

verus! {

/// An HTTP method as it arrives on a request. The table of allowed paths
/// only ever permits the five methods the forwarder translates; the other
/// standard methods can still reach the authorization check (and are
/// permitted by an `ALL` rule).
#[allow(non_camel_case_types)]
#[derive(Clone, Copy, Debug, PartialEq, Eq, Hash, Structural)]
pub enum Method {
    GET,
    POST,
    PUT,
    PATCH,
    DELETE,
    HEAD,
    CONNECT,
    OPTIONS,
    TRACE,
}

impl Method {
    pub open spec fn spec_name(self) -> Seq<char> {
        match self {
            Method::GET => "GET"@,
            Method::POST => "POST"@,
            Method::PUT => "PUT"@,
            Method::PATCH => "PATCH"@,
            Method::DELETE => "DELETE"@,
            Method::HEAD => "HEAD"@,
            Method::CONNECT => "CONNECT"@,
            Method::OPTIONS => "OPTIONS"@,
            Method::TRACE => "TRACE"@,
        }
    }

    pub fn name(&self) -> (r: &'static str)
        ensures
            r@ == self.spec_name(),
    {
        match self {
            Method::GET => "GET",
            Method::POST => "POST",
            Method::PUT => "PUT",
            Method::PATCH => "PATCH",
            Method::DELETE => "DELETE",
            Method::HEAD => "HEAD",
            Method::CONNECT => "CONNECT",
            Method::OPTIONS => "OPTIONS",
            Method::TRACE => "TRACE",
        }
    }

    /// The concrete method an `AllowedMethod` stands for; the `ALL`
    /// sentinel stands for no single method.
    pub open spec fn spec_of_allowed(value: AllowedMethod) -> Option<Method> {
        match value {
            AllowedMethod::ALL => None,
            AllowedMethod::GET => Some(Method::GET),
            AllowedMethod::POST => Some(Method::POST),
            AllowedMethod::PUT => Some(Method::PUT),
            AllowedMethod::PATCH => Some(Method::PATCH),
            AllowedMethod::DELETE => Some(Method::DELETE),
        }
    }

    pub fn try_from(value: AllowedMethod) -> (r: Result<Method, Error>)
        ensures
            r matches Ok(m) ==> Method::spec_of_allowed(value) == Some(m),
            r is Err <==> Method::spec_of_allowed(value) is None,
            r matches Err(e) ==> e is Custom,
    {
        match value {
            AllowedMethod::ALL => Err(Error::custom(String::from_str(
                "Can't convert ALL to a single method",
            ))),
            AllowedMethod::GET => Ok(Method::GET),
            AllowedMethod::POST => Ok(Method::POST),
            AllowedMethod::PUT => Ok(Method::PUT),
            AllowedMethod::PATCH => Ok(Method::PATCH),
            AllowedMethod::DELETE => Ok(Method::DELETE),
        }
    }
}

/// A method token as it appears in configuration: either one of the five
/// concrete methods the forwarder translates, or the `ALL` sentinel that
/// permits every method.
#[allow(non_camel_case_types)]
#[derive(Clone, Copy, Debug, PartialEq, Eq, Hash, Structural)]
pub enum AllowedMethod {
    ALL,
    GET,
    POST,
    PUT,
    PATCH,
    DELETE,
}

/// ASCII upper-casing of a single character; other characters are kept.
pub open spec fn spec_upper_char(c: char) -> char {
    if 97 <= c as u32 && c as u32 <= 122 {
        ((c as u32 - 32) as u8) as char
    } else {
        c
    }
}

/// ASCII upper-casing of a whole string, character by character.
pub open spec fn spec_upper(s: Seq<char>) -> Seq<char> {
    s.map_values(|c: char| spec_upper_char(c))
}

fn upper_char(c: char) -> (r: char)
    ensures
        r == spec_upper_char(c),
{
    let u = c as u32;
    if 97 <= u && u <= 122 {
        ((u - 32) as u8) as char
    } else {
        c
    }
}

/// Case-insensitive comparison of `s` against an upper-case token `t`.
pub(crate) fn matches_upper(s: &str, t: &str) -> (r: bool)
    ensures
        r == (spec_upper(s@) == t@),
{
    let n = s.unicode_len();
    let m = t.unicode_len();
    if n != m {
        assert(spec_upper(s@).len() == s@.len());
        return false;
    }
    let mut i: usize = 0;
    while i < n
        invariant
            n == s@.len(),
            n == t@.len(),
            i <= n,
            forall|j: int| 0 <= j < i ==> spec_upper_char(s@[j]) == t@[j],
        decreases n - i,
    {
        let c = upper_char(s.get_char(i));
        let d = t.get_char(i);
        if c != d {
            assert(spec_upper(s@)[i as int] != t@[i as int]);
            return false;
        }
        i += 1;
    }
    assert(spec_upper(s@) =~= t@);
    true
}

impl AllowedMethod {
    pub open spec fn spec_name(self) -> Seq<char> {
        match self {
            AllowedMethod::ALL => "ALL"@,
            AllowedMethod::GET => "GET"@,
            AllowedMethod::POST => "POST"@,
            AllowedMethod::PUT => "PUT"@,
            AllowedMethod::PATCH => "PATCH"@,
            AllowedMethod::DELETE => "DELETE"@,
        }
    }

    pub fn name(&self) -> (r: &'static str)
        ensures
            r@ == self.spec_name(),
    {
        match self {
            AllowedMethod::ALL => "ALL",
            AllowedMethod::GET => "GET",
            AllowedMethod::POST => "POST",
            AllowedMethod::PUT => "PUT",
            AllowedMethod::PATCH => "PATCH",
            AllowedMethod::DELETE => "DELETE",
        }
    }

    /// How a configuration token reads as a method: case-insensitively,
    /// against the fixed set of method names.
    pub open spec fn spec_parse(s: Seq<char>) -> Option<AllowedMethod> {
        if spec_upper(s) == "ALL"@ {
            Some(AllowedMethod::ALL)
        } else if spec_upper(s) == "GET"@ {
            Some(AllowedMethod::GET)
        } else if spec_upper(s) == "POST"@ {
            Some(AllowedMethod::POST)
        } else if spec_upper(s) == "PUT"@ {
            Some(AllowedMethod::PUT)
        } else if spec_upper(s) == "PATCH"@ {
            Some(AllowedMethod::PATCH)
        } else if spec_upper(s) == "DELETE"@ {
            Some(AllowedMethod::DELETE)
        } else {
            None
        }
    }

    pub fn try_from(value: &String) -> (r: Result<AllowedMethod, Error>)
        ensures
            r matches Ok(m) ==> AllowedMethod::spec_parse(value@) == Some(m),
            r is Err <==> AllowedMethod::spec_parse(value@) is None,
            r matches Err(e) ==> e is Custom,
    {
        let s = value.as_str();
        if matches_upper(s, "ALL") {
            Ok(AllowedMethod::ALL)
        } else if matches_upper(s, "GET") {
            Ok(AllowedMethod::GET)
        } else if matches_upper(s, "POST") {
            Ok(AllowedMethod::POST)
        } else if matches_upper(s, "PUT") {
            Ok(AllowedMethod::PUT)
        } else if matches_upper(s, "PATCH") {
            Ok(AllowedMethod::PATCH)
        } else if matches_upper(s, "DELETE") {
            Ok(AllowedMethod::DELETE)
        } else {
            Err(Error::custom(String::from_str("Unknown method: ").concat(s)))
        }
    }
}

// --- splitting of the configuration string ---

/// Whether `sep` occurs in `s` at position `i`.
pub open spec fn spec_match_at(s: Seq<char>, sep: Seq<char>, i: int) -> bool {
    0 <= i && i + sep.len() <= s.len() && s.subrange(i, i + sep.len()) == sep
}

/// The first position where `sep` occurs in `s`.
pub open spec fn spec_find(s: Seq<char>, sep: Seq<char>) -> Option<int>
    decreases s.len(),
{
    if sep.len() == 0 {
        Some(0)
    } else if s.len() < sep.len() {
        None
    } else if s.subrange(0, sep.len() as int) == sep {
        Some(0)
    } else {
        match spec_find(s.skip(1), sep) {
            Some(j) => Some(j + 1),
            None => None,
        }
    }
}

/// The first occurrence is an occurrence, and nothing before it is one;
/// where there is none, nothing occurs at all.
proof fn lemma_find_first(s: Seq<char>, sep: Seq<char>)
    requires
        sep.len() > 0,
    ensures
        spec_find(s, sep) matches Some(i) ==> spec_match_at(s, sep, i) && (forall|j: int|
            0 <= j < i ==> !spec_match_at(s, sep, j)),
        spec_find(s, sep) is None ==> (forall|j: int| !spec_match_at(s, sep, j)),
    decreases s.len(),
{
    if s.len() < sep.len() {
        assert forall|j: int| !spec_match_at(s, sep, j) by {}
    } else if s.subrange(0, sep.len() as int) == sep {
    } else {
        lemma_find_first(s.skip(1), sep);
        assert forall|j: int| 1 <= j && j + sep.len() <= s.len() implies spec_match_at(
            s,
            sep,
            j,
        ) == spec_match_at(s.skip(1), sep, j - 1) by {
            assert(s.skip(1).subrange(j - 1, j - 1 + sep.len()) =~= s.subrange(j, j + sep.len()));
        }
        assert(!spec_match_at(s, sep, 0));
    }
}

/// The parts of `s` between the non-overlapping occurrences of `sep`,
/// taken left to right.
pub open spec fn spec_split(s: Seq<char>, sep: Seq<char>) -> Seq<Seq<char>>
    decreases s.len(),
    when sep.len() > 0
    via spec_split_decreases
{
    match spec_find(s, sep) {
        None => seq![s],
        Some(i) => seq![s.subrange(0, i)] + spec_split(s.skip(i + sep.len()), sep),
    }
}

#[via_fn]
proof fn spec_split_decreases(s: Seq<char>, sep: Seq<char>) {
    lemma_find_first(s, sep);
}

fn match_at(s: &str, sep: &str, i: usize) -> (r: bool)
    requires
        s@.len() <= usize::MAX,
        i + sep@.len() <= s@.len(),
    ensures
        r == spec_match_at(s@, sep@, i as int),
{
    let m = sep.unicode_len();
    let mut j: usize = 0;
    while j < m
        invariant
            s@.len() <= usize::MAX,
            m == sep@.len(),
            i + m <= s@.len(),
            j <= m,
            forall|l: int| 0 <= l < j ==> s@[i + l] == sep@[l],
        decreases m - j,
    {
        if s.get_char(i + j) != sep.get_char(j) {
            assert(s@.subrange(i as int, i + m) != sep@) by {
                assert(s@.subrange(i as int, i + m)[j as int] != sep@[j as int]);
            }
            return false;
        }
        j += 1;
    }
    assert(s@.subrange(i as int, i + m) =~= sep@);
    true
}

fn find_sub(s: &str, sep: &str) -> (r: Option<usize>)
    requires
        sep@.len() > 0,
    ensures
        r matches Some(i) ==> Some(i as int) == spec_find(s@, sep@),
        r is None <==> spec_find(s@, sep@) is None,
{
    proof {
        lemma_find_first(s@, sep@);
    }
    let n = s.unicode_len();
    let m = sep.unicode_len();
    if n < m {
        return None;
    }
    let mut i: usize = 0;
    while i <= n - m
        invariant
            n == s@.len(),
            m == sep@.len(),
            0 < m <= n,
            i <= n - m + 1,
            forall|j: int| 0 <= j < i ==> !spec_match_at(s@, sep@, j),
        decreases n - i,
    {
        if match_at(s, sep, i) {
            proof {
                lemma_find_first(s@, sep@);
                if spec_find(s@, sep@) is None {
                    assert(!spec_match_at(s@, sep@, i as int));
                }
                let k = spec_find(s@, sep@)->Some_0;
                assert(spec_match_at(s@, sep@, k));
                assert(!(k < i) && !(i < k));
            }
            return Some(i);
        }
        i += 1;
    }
    proof {
        assert forall|j: int| !spec_match_at(s@, sep@, j) by {
            if 0 <= j <= n - m {
                assert(!spec_match_at(s@, sep@, j));
            }
        }
        if spec_find(s@, sep@) is Some {
            let k = spec_find(s@, sep@)->Some_0;
            assert(spec_match_at(s@, sep@, k));
        }
    }
    None
}

/// The views of a list of split parts.
pub open spec fn spec_part_views(parts: Seq<String>) -> Seq<Seq<char>> {
    parts.map_values(|p: String| p@)
}

/// Split `s` on every occurrence of `sep`, left to right.
fn split_string(s: &str, sep: &str) -> (r: Vec<String>)
    requires
        sep@.len() > 0,
    ensures
        spec_part_views(r@) == spec_split(s@, sep@),
{
    let m = sep.unicode_len();
    let mut rest = String::from_str(s);
    let mut out: Vec<String> = Vec::new();
    loop
        invariant
            m == sep@.len(),
            m > 0,
            spec_split(s@, sep@) == spec_part_views(out@) + spec_split(rest@, sep@),
        decreases rest@.len(),
    {
        match find_sub(rest.as_str(), sep) {
            Some(i) => {
                proof {
                    lemma_find_first(rest@, sep@);
                }
                let head = rest.as_str().substring_char(0, i);
                let n = rest.as_str().unicode_len();
                let tail = rest.as_str().substring_char(i + m, n);
                let ghost old_rest = rest@;
                out.push(String::from_str(head));
                rest = String::from_str(tail);
                proof {
                    assert(head@ =~= old_rest.subrange(0, i as int));
                    assert(rest@ =~= old_rest.skip(i + m));
                    assert(spec_part_views(out@) =~= spec_part_views(out@.drop_last()) + seq![
                        old_rest.subrange(0, i as int)]);
                    assert(spec_part_views(out@.drop_last()) + (seq![
                        old_rest.subrange(0, i as int)] + spec_split(old_rest.skip(i + m), sep@))
                        =~= (spec_part_views(out@.drop_last()) + seq![
                        old_rest.subrange(0, i as int)]) + spec_split(old_rest.skip(i + m), sep@));
                }
            },
            None => {
                out.push(rest);
                proof {
                    assert(spec_part_views(out@) =~= spec_part_views(out@.drop_last()) + seq![
                        out@.last()@]);
                    assert(spec_part_views(out@) + Seq::<Seq<char>>::empty() =~= spec_part_views(
                        out@,
                    ));
                }
                return out;
            },
        }
    }
}

// --- parsing of the allowed-path configuration ---

/// The deduplicated methods a token list names, in first-appearance
/// order, or nothing if any token is unknown.
pub open spec fn spec_parse_methods(tokens: Seq<Seq<char>>) -> Option<Seq<AllowedMethod>>
    decreases tokens.len(),
{
    if tokens.len() == 0 {
        Some(Seq::empty())
    } else {
        match spec_parse_methods(tokens.drop_last()) {
            None => None,
            Some(ms) => match AllowedMethod::spec_parse(tokens.last()) {
                None => None,
                Some(m) => Some(
                    if ms.contains(m) {
                        ms
                    } else {
                        ms.push(m)
                    },
                ),
            },
        }
    }
}

/// A token list that fails on some prefix fails as a whole.
proof fn lemma_parse_methods_prefix_none(tokens: Seq<Seq<char>>, i: int)
    requires
        0 <= i <= tokens.len(),
        spec_parse_methods(tokens.take(i)) is None,
    ensures
        spec_parse_methods(tokens) is None,
    decreases tokens.len() - i,
{
    if i < tokens.len() {
        assert(tokens.take(i + 1).drop_last() =~= tokens.take(i));
        lemma_parse_methods_prefix_none(tokens, i + 1);
    } else {
        assert(tokens.take(i) =~= tokens);
    }
}

fn contains_allowed_method(ms: &Vec<AllowedMethod>, m: AllowedMethod) -> (r: bool)
    ensures
        r == ms@.contains(m),
{
    let n = ms.len();
    let mut i: usize = 0;
    while i < n
        invariant
            n == ms@.len(),
            i <= n,
            forall|j: int| 0 <= j < i ==> ms@[j] != m,
        decreases n - i,
    {
        if ms[i] == m {
            return true;
        }
        i += 1;
    }
    false
}

fn parse_methods(tokens: &Vec<String>) -> (r: Result<Vec<AllowedMethod>, Error>)
    ensures
        r is Ok <==> spec_parse_methods(spec_part_views(tokens@)) is Some,
        r matches Ok(ms) ==> Some(ms@) == spec_parse_methods(spec_part_views(tokens@)),
        r matches Err(e) ==> e is Custom,
{
    let mut out: Vec<AllowedMethod> = Vec::new();
    let n = tokens.len();
    let mut i: usize = 0;
    while i < n
        invariant
            n == tokens@.len(),
            i <= n,
            Some(out@) == spec_parse_methods(spec_part_views(tokens@).take(i as int)),
        decreases n - i,
    {
        proof {
            assert(spec_part_views(tokens@).take(i + 1).drop_last() =~= spec_part_views(
                tokens@,
            ).take(i as int));
            assert(spec_part_views(tokens@).take(i + 1).last() == tokens@[i as int]@);
        }
        match AllowedMethod::try_from(&tokens[i]) {
            Ok(m) => {
                if !contains_allowed_method(&out, m) {
                    out.push(m);
                }
            },
            Err(e) => {
                proof {
                    lemma_parse_methods_prefix_none(spec_part_views(tokens@), i + 1);
                }
                return Err(e);
            },
        }
        i += 1;
    }
    proof {
        assert(spec_part_views(tokens@).take(n as int) =~= spec_part_views(tokens@));
    }
    Ok(out)
}

/// One configuration entry `pattern:methods`: the pattern is the text
/// before the first colon, the methods are read from the text between
/// the first and the second colon; any later colon-separated text is
/// ignored. An entry without a colon names no methods and is rejected.
pub open spec fn spec_parse_entry(e: Seq<char>) -> Option<(Seq<char>, Seq<AllowedMethod>)> {
    let parts = spec_split(e, seq![':']);
    if parts.len() < 2 {
        None
    } else {
        match spec_parse_methods(spec_split(parts[1], seq![','])) {
            None => None,
            Some(ms) => Some((parts[0], ms)),
        }
    }
}

fn parse_entry(entry: &String) -> (r: Result<(String, Vec<AllowedMethod>), Error>)
    ensures
        r is Ok <==> spec_parse_entry(entry@) is Some,
        r matches Ok(kv) ==> Some((kv.0@, kv.1@)) == spec_parse_entry(entry@),
        r matches Err(e) ==> e is Custom,
{
    proof {
        reveal_strlit(":");
        reveal_strlit(",");
        assert(":"@ =~= seq![':']);
        assert(","@ =~= seq![',']);
    }
    let parts = split_string(entry.as_str(), ":");
    if parts.len() < 2 {
        return Err(Error::custom(String::from_str("Methods are missing")));
    }
    let tokens = split_string(parts[1].as_str(), ",");
    match parse_methods(&tokens) {
        Ok(methods) => Ok((parts[0].clone(), methods)),
        Err(e) => Err(e),
    }
}

/// The views of parsed (pattern, methods) pairs.
pub open spec fn spec_entry_views(v: Seq<(String, Vec<AllowedMethod>)>) -> Seq<
    (Seq<char>, Seq<AllowedMethod>),
> {
    v.map_values(|e: (String, Vec<AllowedMethod>)| (e.0@, e.1@))
}

/// The first position at which `key` stands in `entries`.
pub open spec fn spec_key_index(
    entries: Seq<(Seq<char>, Seq<AllowedMethod>)>,
    key: Seq<char>,
) -> Option<int>
    decreases entries.len(),
{
    if entries.len() == 0 {
        None
    } else if entries.first().0 == key {
        Some(0)
    } else {
        match spec_key_index(entries.drop_first(), key) {
            Some(i) => Some(i + 1),
            None => None,
        }
    }
}

/// The first position of a key is in bounds, holds the key, and nothing
/// before it does; where there is none, no position holds the key.
proof fn lemma_key_index(entries: Seq<(Seq<char>, Seq<AllowedMethod>)>, key: Seq<char>)
    ensures
        spec_key_index(entries, key) matches Some(i) ==> 0 <= i < entries.len() && entries[i].0
            == key && (forall|j: int| 0 <= j < i ==> entries[j].0 != key),
        spec_key_index(entries, key) is None ==> (forall|j: int|
            0 <= j < entries.len() ==> entries[j].0 != key),
    decreases entries.len(),
{
    if entries.len() > 0 && entries.first().0 != key {
        lemma_key_index(entries.drop_first(), key);
        if spec_key_index(entries, key) is None {
            assert forall|j: int| 0 <= j < entries.len() implies entries[j].0 != key by {
                if j >= 1 {
                    assert(entries[j] == entries.drop_first()[j - 1]);
                    assert(entries.drop_first()[j - 1].0 != key);
                }
            }
        } else {
            let i = spec_key_index(entries, key)->Some_0;
            assert(entries[i] == entries.drop_first()[i - 1]);
            assert forall|j: int| 0 <= j < i implies entries[j].0 != key by {
                if j >= 1 {
                    assert(entries[j] == entries.drop_first()[j - 1]);
                    assert(entries.drop_first()[j - 1].0 != key);
                }
            }
        }
    }
}

/// Insert or replace: a later entry for a pattern replaces the earlier
/// one, as an insert into a map keyed by the pattern would.
pub open spec fn spec_upsert(
    entries: Seq<(Seq<char>, Seq<AllowedMethod>)>,
    key: Seq<char>,
    value: Seq<AllowedMethod>,
) -> Seq<(Seq<char>, Seq<AllowedMethod>)> {
    match spec_key_index(entries, key) {
        Some(i) => entries.update(i, (key, value)),
        None => entries.push((key, value)),
    }
}

/// The (pattern, methods) pairs a list of entry texts resolves to, or
/// nothing if any entry is malformed.
pub open spec fn spec_parse_entries(entries: Seq<Seq<char>>) -> Option<
    Seq<(Seq<char>, Seq<AllowedMethod>)>,
>
    decreases entries.len(),
{
    if entries.len() == 0 {
        Some(Seq::empty())
    } else {
        match spec_parse_entries(entries.drop_last()) {
            None => None,
            Some(m) => match spec_parse_entry(entries.last()) {
                None => None,
                Some(kv) => Some(spec_upsert(m, kv.0, kv.1)),
            },
        }
    }
}

/// An entry list that fails on some prefix fails as a whole.
proof fn lemma_parse_entries_prefix_none(entries: Seq<Seq<char>>, i: int)
    requires
        0 <= i <= entries.len(),
        spec_parse_entries(entries.take(i)) is None,
    ensures
        spec_parse_entries(entries) is None,
    decreases entries.len() - i,
{
    if i < entries.len() {
        assert(entries.take(i + 1).drop_last() =~= entries.take(i));
        lemma_parse_entries_prefix_none(entries, i + 1);
    } else {
        assert(entries.take(i) =~= entries);
    }
}

/// The allowed-path configuration as one string: entries separated by
/// `"; "`, each mapping a route pattern to its method tokens.
pub open spec fn spec_parse_paths(s: Seq<char>) -> Option<Seq<(Seq<char>, Seq<AllowedMethod>)>> {
    spec_parse_entries(spec_split(s, seq![';', ' ']))
}

fn find_key(entries: &Vec<(String, Vec<AllowedMethod>)>, key: &String) -> (r: Option<usize>)
    ensures
        r matches Some(i) ==> Some(i as int) == spec_key_index(spec_entry_views(entries@), key@),
        r is None <==> spec_key_index(spec_entry_views(entries@), key@) is None,
{
    proof {
        lemma_key_index(spec_entry_views(entries@), key@);
    }
    let n = entries.len();
    let mut i: usize = 0;
    while i < n
        invariant
            n == entries@.len(),
            i <= n,
            forall|j: int| 0 <= j < i ==> spec_entry_views(entries@)[j].0 != key@,
        decreases n - i,
    {
        if entries[i].0 == *key {
            proof {
                lemma_key_index(spec_entry_views(entries@), key@);
                assert(entries@[i as int].0@ == key@);
                assert(spec_entry_views(entries@)[i as int].0 == key@);
                if spec_key_index(spec_entry_views(entries@), key@) is None {
                    assert(spec_entry_views(entries@)[i as int].0 != key@);
                }
                let k = spec_key_index(spec_entry_views(entries@), key@)->Some_0;
                assert(spec_entry_views(entries@)[k].0 == key@);
                assert(!(k < i) && !(i < k));
            }
            return Some(i);
        }
        i += 1;
    }
    proof {
        if spec_key_index(spec_entry_views(entries@), key@) is Some {
            let k = spec_key_index(spec_entry_views(entries@), key@)->Some_0;
            assert(spec_entry_views(entries@)[k].0 == key@);
        }
    }
    None
}

/// Read the whole allowed-path configuration: split into entries, parse
/// each, and let a later entry for the same pattern replace the earlier
/// one.
pub fn parse_paths(s: &str) -> (r: Result<Vec<(String, Vec<AllowedMethod>)>, Error>)
    ensures
        r is Ok <==> spec_parse_paths(s@) is Some,
        r matches Ok(v) ==> Some(spec_entry_views(v@)) == spec_parse_paths(s@),
        r matches Err(e) ==> e is Custom,
{
    proof {
        reveal_strlit("; ");
        assert("; "@ =~= seq![';', ' ']);
    }
    let entries = split_string(s, "; ");
    let mut out: Vec<(String, Vec<AllowedMethod>)> = Vec::new();
    let n = entries.len();
    let mut i: usize = 0;
    while i < n
        invariant
            n == entries@.len(),
            i <= n,
            spec_part_views(entries@) == spec_split(s@, seq![';', ' ']),
            Some(spec_entry_views(out@)) == spec_parse_entries(
                spec_part_views(entries@).take(i as int),
            ),
        decreases n - i,
    {
        proof {
            assert(spec_part_views(entries@).take(i + 1).drop_last() =~= spec_part_views(
                entries@,
            ).take(i as int));
            assert(spec_part_views(entries@).take(i + 1).last() == entries@[i as int]@);
        }
        let (path, methods) = match parse_entry(&entries[i]) {
            Ok(kv) => kv,
            Err(e) => {
                proof {
                    lemma_parse_entries_prefix_none(spec_part_views(entries@), i + 1);
                }
                return Err(e);
            },
        };
        let ghost before = out@;
        match find_key(&out, &path) {
            Some(j) => {
                proof {
                    lemma_key_index(spec_entry_views(out@), path@);
                }
                out.set(j, (path, methods));
                proof {
                    assert(spec_entry_views(out@) =~= spec_entry_views(before).update(
                        j as int,
                        (path@, methods@),
                    ));
                }
            },
            None => {
                out.push((path, methods));
                proof {
                    assert(spec_entry_views(out@) =~= spec_entry_views(before).push(
                        (path@, methods@),
                    ));
                }
            },
        }
        i += 1;
    }
    proof {
        assert(spec_part_views(entries@).take(n as int) =~= spec_part_views(entries@));
    }
    Ok(out)
}

// --- resolving parsed configuration into the table's types ---

/// The concrete methods of a token list, in first-appearance order,
/// with the `ALL` sentinel itself skipped.
pub open spec fn spec_method_list(ms: Seq<AllowedMethod>) -> Seq<Method>
    decreases ms.len(),
{
    if ms.len() == 0 {
        Seq::empty()
    } else {
        let prev = spec_method_list(ms.drop_last());
        match Method::spec_of_allowed(ms.last()) {
            None => prev,
            Some(m) => if prev.contains(m) {
                prev
            } else {
                prev.push(m)
            },
        }
    }
}

/// The method set one rule resolves to: nothing explicit when `ALL` is
/// present (explicit methods would be redundant), the concrete methods
/// otherwise.
pub open spec fn spec_resolved_methods(ms: Seq<AllowedMethod>) -> Seq<Method> {
    if ms.contains(AllowedMethod::ALL) {
        Seq::empty()
    } else {
        spec_method_list(ms)
    }
}

impl AllowedPath {
    /// Resolve a token set into one rule: `ALL` permits every method
    /// and discards the explicit methods as redundant; otherwise the
    /// concrete methods are kept, each once.
    pub fn try_from(value: Vec<AllowedMethod>) -> (r: Result<AllowedPath, Error>)
        ensures
            r is Ok,
            r matches Ok(p) ==> p.spec_all() == value@.contains(AllowedMethod::ALL)
                && p.spec_methods() == spec_resolved_methods(value@),
    {
        if contains_allowed_method(&value, AllowedMethod::ALL) {
            return Ok(AllowedPath::new(true, Vec::new()));
        }
        let n = value.len();
        let mut filtered_methods: Vec<Method> = Vec::new();
        let mut i: usize = 0;
        while i < n
            invariant
                n == value@.len(),
                i <= n,
                !value@.contains(AllowedMethod::ALL),
                filtered_methods@ == spec_method_list(value@.take(i as int)),
            decreases n - i,
        {
            proof {
                assert(value@.take(i + 1).drop_last() =~= value@.take(i as int));
                assert(value@.take(i + 1).last() == value@[i as int]);
                assert(value@.contains(value@[i as int]));
            }
            match Method::try_from(value[i]) {
                Ok(m) => {
                    if !contains_concrete_method(&filtered_methods, m) {
                        filtered_methods.push(m);
                    }
                },
                Err(e) => {
                    return Err(e);
                },
            }
            i += 1;
        }
        proof {
            assert(value@.take(n as int) =~= value@);
        }
        Ok(AllowedPath::new(false, filtered_methods))
    }
}

fn contains_concrete_method(ms: &Vec<Method>, m: Method) -> (r: bool)
    ensures
        r == ms@.contains(m),
{
    let n = ms.len();
    let mut i: usize = 0;
    while i < n
        invariant
            n == ms@.len(),
            i <= n,
            forall|j: int| 0 <= j < i ==> ms@[j] != m,
        decreases n - i,
    {
        if ms[i] == m {
            return true;
        }
        i += 1;
    }
    false
}

/// The anchored pattern of each parsed entry, in order.
pub open spec fn spec_table_patterns(v: Seq<(String, Vec<AllowedMethod>)>) -> Seq<Seq<char>> {
    v.map_values(|e: (String, Vec<AllowedMethod>)| crate::data::webhook::spec_anchor(e.0@))
}

impl AllowedPaths {
    /// Resolve a whole parsed configuration into the table: each entry's
    /// token set becomes a rule, and the patterns are compiled together.
    pub fn try_from(value: Vec<(String, Vec<AllowedMethod>)>) -> (r: Result<AllowedPaths, Error>)
        ensures
            r is Ok <==> crate::data::webhook::regexes_compile(spec_table_patterns(value@)),
            r matches Ok(t) ==> t.wf() && t.spec_patterns() == spec_table_patterns(value@)
                && t.spec_entries().len() == value@.len() && (forall|i: int|
                0 <= i < value@.len() ==> (#[trigger] t.spec_entries()[i]).spec_all()
                    == value@[i].1@.contains(AllowedMethod::ALL)
                    && t.spec_entries()[i].spec_methods() == spec_resolved_methods(value@[i].1@)),
            r matches Err(e) ==> e is Regex,
    {
        let ghost orig = value@;
        let mut rest = value;
        let mut allowed_paths: Vec<(String, AllowedPath)> = Vec::new();
        while rest.len() > 0
            invariant
                rest@ == orig.skip(orig.len() - rest@.len()),
                rest@.len() <= orig.len(),
                allowed_paths@.len() == orig.len() - rest@.len(),
                forall|i: int|
                    0 <= i < allowed_paths@.len() ==> (#[trigger] allowed_paths@[i]).0
                        == orig[i].0 && allowed_paths@[i].1.spec_all() == orig[i].1@.contains(
                        AllowedMethod::ALL,
                    ) && allowed_paths@[i].1.spec_methods() == spec_resolved_methods(orig[i].1@),
            decreases rest@.len(),
        {
            let (path, methods) = rest.remove(0);
            match AllowedPath::try_from(methods) {
                Ok(rule) => {
                    allowed_paths.push((path, rule));
                },
                Err(e) => {
                    return Err(e);
                },
            }
        }
        proof {
            assert(crate::data::webhook::spec_anchored_patterns(allowed_paths@)
                =~= spec_table_patterns(orig));
        }
        AllowedPaths::new(allowed_paths)
    }
}

/// Address the inbound server binds to; consumed by the surrounding
/// process, not by the forwarding core itself.
pub struct ServerConfig {
    host: String,
    port: u16,
}

impl ServerConfig {
    pub closed spec fn spec_host(self) -> Seq<char> {
        self.host@
    }

    pub closed spec fn spec_port(self) -> u16 {
        self.port
    }

    pub fn new(host: String, port: u16) -> (r: ServerConfig)
        ensures
            r.spec_host() == host@,
            r.spec_port() == port,
    {
        ServerConfig { host, port }
    }

    pub fn host(&self) -> (r: &String)
        ensures
            r@ == self.spec_host(),
    {
        &self.host
    }

    pub fn port(&self) -> (r: u16)
        ensures
            r == self.spec_port(),
    {
        self.port
    }
}

} // verus!
