use crate::config::Method;
use crate::converter::header_value_str_ok;
use crate::converter::spec_valid_header_value;
use crate::error::Error;
use vstd::prelude::*;

verus! {

// --- the regex engine, as far as this crate relies on it ---

#[verifier::external_type_specification]
#[verifier::external_body]
pub struct ExRegexSet(regex::RegexSet);

/// Whether this set of route patterns compiles: every pattern is a valid
/// regular expression and the compiled set stays within the engine's
/// size limit.
pub uninterp spec fn regexes_compile(patterns: Seq<Seq<char>>) -> bool;

/// The patterns a compiled set was built from, in construction order.
pub uninterp spec fn regex_set_patterns(rs: regex::RegexSet) -> Seq<Seq<char>>;

/// Whether the regular expression `pattern` matches anywhere in `text`.
pub uninterp spec fn regex_match(pattern: Seq<char>, text: Seq<char>) -> bool;

/// The views of a list of pattern strings.
pub open spec fn views_of(patterns: Seq<String>) -> Seq<Seq<char>> {
    patterns.map_values(|p: String| p@)
}

/// Relies on regex::RegexSet::new: it fails exactly when the patterns do
/// not compile, and on success the set holds the given patterns in the
/// given order. A failure is handed back as its display text.
#[verifier::external_body]
fn regex_set_new(patterns: &Vec<String>) -> (r: Result<regex::RegexSet, String>)
    ensures
        r is Ok <==> regexes_compile(views_of(patterns@)),
        r matches Ok(rs) ==> regex_set_patterns(rs) == views_of(patterns@),
{
    regex::RegexSet::new(patterns).map_err(|e| e.to_string())
}

/// Relies on regex::RegexSet::matches and SetMatches::matched: flag `i`
/// of the result says whether pattern `i` of the set matches the text.
#[verifier::external_body]
fn regex_set_matched(rs: &regex::RegexSet, text: &str) -> (r: Vec<bool>)
    ensures
        r@.len() == regex_set_patterns(*rs).len(),
        forall|i: int|
            0 <= i < r@.len() ==> r@[i] == regex_match(regex_set_patterns(*rs)[i], text@),
{
    let found = rs.matches(text);
    (0..rs.len()).map(|i| found.matched(i)).collect()
}

// --- URL joining, through the url crate ---

/// The result of parsing `base` as a URL and joining `path` onto it,
/// serialized back to a string; `None` where `base` does not parse or
/// the join fails. A pure function of the two strings.
pub uninterp spec fn spec_url_join(base: Seq<char>, path: Seq<char>) -> Option<Seq<char>>;

/// Relies on url::Url::parse and url::Url::join, whose outcome depends
/// only on the argument strings.
#[verifier::external_body]
fn url_join(base: &str, path: &str) -> (r: Option<String>)
    ensures
        r is Some <==> spec_url_join(base@, path@) is Some,
        r matches Some(s) ==> spec_url_join(base@, path@) == Some(s@),
{
    match url::Url::parse(base) {
        Ok(u) => match u.join(path) {
            Ok(joined) => Some(String::from(joined)),
            Err(_) => None,
        },
        Err(_) => None,
    }
}

// --- one rule of the table: a method set with an ALL sentinel ---

/// The methods one route pattern permits: either everything (`all`) or
/// an explicit set of concrete methods.
pub struct AllowedPath {
    all: bool,
    methods: Vec<Method>,
}

impl AllowedPath {
    pub closed spec fn spec_all(self) -> bool {
        self.all
    }

    pub closed spec fn spec_methods(self) -> Seq<Method> {
        self.methods@
    }

    /// Whether this rule permits `method`.
    pub open spec fn spec_permits(self, method: Method) -> bool {
        self.spec_all() || self.spec_methods().contains(method)
    }

    pub fn new(all: bool, methods: Vec<Method>) -> (r: AllowedPath)
        ensures
            r.spec_all() == all,
            r.spec_methods() == methods@,
    {
        AllowedPath { all, methods }
    }

    pub fn all(&self) -> (r: bool)
        ensures
            r == self.spec_all(),
    {
        self.all
    }

    pub fn methods(&self) -> (r: &Vec<Method>)
        ensures
            r@ == self.spec_methods(),
    {
        &self.methods
    }

    pub fn is_allowed(&self, method: &Method) -> (r: bool)
        ensures
            r == self.spec_permits(*method),
    {
        if self.all {
            return true;
        }
        let n = self.methods.len();
        let mut i: usize = 0;
        while i < n
            invariant
                n == self.methods@.len(),
                i <= n,
                forall|j: int| 0 <= j < i ==> self.methods@[j] != *method,
            decreases n - i,
        {
            if self.methods[i] == *method {
                return true;
            }
            i += 1;
        }
        false
    }
}

// --- anchoring of route patterns ---

/// A pattern anchored at both ends: `^` is prefixed and `$` suffixed
/// unless already present, so a path can never match only partially.
pub open spec fn spec_anchor(p: Seq<char>) -> Seq<char> {
    let q = if p.len() > 0 && p[0] == '^' {
        p
    } else {
        seq!['^'] + p
    };
    if q[q.len() - 1] == '$' {
        q
    } else {
        q + seq!['$']
    }
}

/// Anchoring is idempotent: a pattern that already carries its anchors
/// is left unchanged, so no `^` or `$` is ever duplicated.
pub proof fn lemma_anchor_idempotent(p: Seq<char>)
    ensures
        spec_anchor(spec_anchor(p)) == spec_anchor(p),
{
    let a = spec_anchor(p);
    assert(a.len() > 0);
    assert(a[0] == '^');
    assert(a[a.len() - 1] == '$');
}

fn anchor_pattern(p: &str) -> (r: String)
    ensures
        r@ == spec_anchor(p@),
{
    let n = p.unicode_len();
    let mut q: String;
    if n > 0 && p.get_char(0) == '^' {
        q = String::from_str(p);
    } else {
        q = String::from_str("^");
        q.append(p);
        proof {
            reveal_strlit("^");
            assert(q@ =~= seq!['^'] + p@);
        }
    }
    let m = q.as_str().unicode_len();
    assert(q@.len() > 0);
    if q.as_str().get_char(m - 1) != '$' {
        let ghost before = q@;
        q.append("$");
        proof {
            reveal_strlit("$");
            assert(q@ =~= before + seq!['$']);
        }
    }
    q
}

// --- the allowed-path table ---

/// The anchored patterns of a list of (pattern, rule) pairs.
pub open spec fn spec_anchored_patterns(entries: Seq<(String, AllowedPath)>) -> Seq<Seq<char>> {
    entries.map_values(|e: (String, AllowedPath)| spec_anchor(e.0@))
}

/// The rules of a list of (pattern, rule) pairs.
pub open spec fn spec_path_rules(entries: Seq<(String, AllowedPath)>) -> Seq<AllowedPath> {
    entries.map_values(|e: (String, AllowedPath)| e.1)
}

/// The table of permitted routes: one compiled multi-pattern matcher
/// over all anchored patterns, plus the rule that belongs to each
/// pattern, aligned by index. Built once at startup, read-only after.
pub struct AllowedPaths {
    matcher: regex::RegexSet,
    patterns: Vec<String>,
    entries: Vec<AllowedPath>,
}

impl AllowedPaths {
    /// The anchored pattern texts of the table, in matcher order.
    pub closed spec fn spec_patterns(self) -> Seq<Seq<char>> {
        views_of(self.patterns@)
    }

    /// The rule of each pattern, aligned with `spec_patterns`.
    pub closed spec fn spec_entries(self) -> Seq<AllowedPath> {
        self.entries@
    }

    /// The compiled matcher corresponds, pattern for pattern, to the
    /// stored table.
    pub closed spec fn wf(self) -> bool {
        &&& regex_set_patterns(self.matcher) == self.spec_patterns()
        &&& self.spec_patterns().len() == self.spec_entries().len()
    }

    /// Union semantics: a path and method are allowed as soon as any
    /// matching pattern permits the method.
    pub open spec fn spec_allows(self, path: Seq<char>, method: Method) -> bool {
        exists|i: int|
            0 <= i < self.spec_patterns().len() && regex_match(self.spec_patterns()[i], path)
                && self.spec_entries()[i].spec_permits(method)
    }

    /// An empty table never allows anything: no pattern can match, so no
    /// rule can permit.
    pub proof fn lemma_empty_allows_nothing(self, path: Seq<char>, method: Method)
        requires
            self.spec_entries().len() == 0,
            self.wf(),
        ensures
            !self.spec_allows(path, method),
    {
    }

    /// Anchor every pattern of the table, keying each rule by the
    /// anchored text; patterns already anchored are left as they are.
    pub fn escape_regexes(paths: Vec<(String, AllowedPath)>) -> (r: Vec<(String, AllowedPath)>)
        ensures
            r@.len() == paths@.len(),
            forall|i: int|
                0 <= i < r@.len() ==> r@[i].0@ == spec_anchor(paths@[i].0@) && r@[i].1
                    == paths@[i].1,
    {
        let ghost orig = paths@;
        let mut rest = paths;
        let mut out: Vec<(String, AllowedPath)> = Vec::new();
        while rest.len() > 0
            invariant
                out@.len() + rest@.len() == orig.len(),
                rest@ == orig.skip(out@.len() as int),
                forall|i: int|
                    0 <= i < out@.len() ==> out@[i].0@ == spec_anchor(orig[i].0@) && out@[i].1
                        == orig[i].1,
            decreases rest@.len(),
        {
            let (pattern, rule) = rest.remove(0);
            let anchored = anchor_pattern(pattern.as_str());
            out.push((anchored, rule));
        }
        out
    }

    pub fn new(allowed_methods: Vec<(String, AllowedPath)>) -> (r: Result<AllowedPaths, Error>)
        ensures
            r is Ok <==> regexes_compile(spec_anchored_patterns(allowed_methods@)),
            r matches Ok(t) ==> t.wf() && t.spec_patterns() == spec_anchored_patterns(
                allowed_methods@,
            ) && t.spec_entries() == spec_path_rules(allowed_methods@),
            r matches Err(e) ==> e is Regex,
    {
        let ghost orig = allowed_methods@;
        let escaped = Self::escape_regexes(allowed_methods);
        let ghost esc = escaped@;
        let mut rest = escaped;
        let mut patterns: Vec<String> = Vec::new();
        let mut entries: Vec<AllowedPath> = Vec::new();
        while rest.len() > 0
            invariant
                patterns@.len() == entries@.len(),
                patterns@.len() + rest@.len() == esc.len(),
                rest@ == esc.skip(patterns@.len() as int),
                forall|i: int|
                    0 <= i < patterns@.len() ==> patterns@[i] == esc[i].0 && entries@[i]
                        == esc[i].1,
            decreases rest@.len(),
        {
            let (pattern, rule) = rest.remove(0);
            patterns.push(pattern);
            entries.push(rule);
        }
        proof {
            assert(views_of(patterns@) =~= spec_anchored_patterns(orig));
            assert(entries@ =~= spec_path_rules(orig));
        }
        match regex_set_new(&patterns) {
            Ok(matcher) => Ok(AllowedPaths { matcher, patterns, entries }),
            Err(e) => Err(Error::Regex(e)),
        }
    }

    pub fn is_allowed(&self, path: &str, method: &Method) -> (r: bool)
        requires
            self.wf(),
        ensures
            r == self.spec_allows(path@, *method),
    {
        let flags = regex_set_matched(&self.matcher, path);
        let n = flags.len();
        let mut i: usize = 0;
        while i < n
            invariant
                self.wf(),
                n == flags@.len(),
                n == self.spec_patterns().len(),
                n == self.spec_entries().len(),
                i <= n,
                forall|j: int|
                    0 <= j < flags@.len() ==> flags@[j] == regex_match(
                        self.spec_patterns()[j],
                        path@,
                    ),
                forall|j: int|
                    0 <= j < i ==> !(regex_match(self.spec_patterns()[j], path@)
                        && self.spec_entries()[j].spec_permits(*method)),
            decreases n - i,
        {
            if flags[i] && self.entries[i].is_allowed(method) {
                return true;
            }
            i += 1;
        }
        false
    }
}

// --- everything one forwarded request needs, shared read-only ---

/// The process-lifetime data of the forwarder: the target host requests
/// are rewritten onto, the table of permitted routes, and the two
/// service-credential header values. The credential strings are checked
/// once, at construction, to be valid header values; afterwards they are
/// exposed only as such.
pub struct WebHookData {
    target_host: String,
    allowed_paths: AllowedPaths,
    access_id: String,
    access_secret: String,
}

impl WebHookData {
    pub closed spec fn spec_target_host(self) -> Seq<char> {
        self.target_host@
    }

    pub closed spec fn spec_allowed_paths(self) -> AllowedPaths {
        self.allowed_paths
    }

    pub closed spec fn spec_access_id(self) -> Seq<char> {
        self.access_id@
    }

    pub closed spec fn spec_access_secret(self) -> Seq<char> {
        self.access_secret@
    }

    /// The table behind this data is intact, and both credentials carry
    /// only valid header-value bytes.
    pub open spec fn wf(self) -> bool {
        self.spec_allowed_paths().wf()
    }

    pub fn new(
        target_host: String,
        allowed_paths: AllowedPaths,
        access_id: String,
        access_secret: String,
    ) -> (r: Result<WebHookData, Error>)
        ensures
            r is Ok <==> spec_valid_header_value(vstd::utf8::encode_utf8(access_id@))
                && spec_valid_header_value(vstd::utf8::encode_utf8(access_secret@)),
            r matches Ok(d) ==> d.spec_target_host() == target_host@ && d.spec_allowed_paths()
                == allowed_paths && d.spec_access_id() == access_id@ && d.spec_access_secret()
                == access_secret@,
            r matches Err(e) ==> e is Custom,
    {
        if !header_value_str_ok(access_id.as_str()) {
            return Err(Error::custom(String::from_str(
                "Failed to map access id to header value",
            )));
        }
        if !header_value_str_ok(access_secret.as_str()) {
            return Err(Error::custom(String::from_str(
                "Failed to map access secret to header value",
            )));
        }
        Ok(WebHookData { target_host, allowed_paths, access_id, access_secret })
    }

    pub fn allowed_paths(&self) -> (r: &AllowedPaths)
        ensures
            r == self.spec_allowed_paths(),
    {
        &self.allowed_paths
    }

    pub fn access_id(&self) -> (r: &String)
        ensures
            r@ == self.spec_access_id(),
    {
        &self.access_id
    }

    pub fn access_secret(&self) -> (r: &String)
        ensures
            r@ == self.spec_access_secret(),
    {
        &self.access_secret
    }

    pub fn get_target_url(&self, path: &str) -> (r: Result<String, Error>)
        ensures
            r is Ok <==> spec_url_join(self.spec_target_host(), path@) is Some,
            r matches Ok(u) ==> Some(u@) == spec_url_join(self.spec_target_host(), path@),
            r matches Err(e) ==> e is Custom,
    {
        match url_join(self.target_host.as_str(), path) {
            Some(u) => Ok(u),
            None => Err(Error::custom(String::from_str("Failed to join URL"))),
        }
    }

    pub fn is_allowed_path(&self, path: &str, method: &Method) -> (r: bool)
        requires
            self.wf(),
        ensures
            r == self.spec_allowed_paths().spec_allows(path@, *method),
    {
        self.allowed_paths.is_allowed(path, method)
    }
}

} // verus!
