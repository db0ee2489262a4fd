//! The argument model: URLs, `key=value` pairs and the two subcommands.

use vstd::prelude::*;

verus! {

/// Why a command-line argument was turned down.
#[derive(Debug, Clone, PartialEq, Eq)]
pub enum ArgError {
    /// The argument is not a URL; `reason` is the URL parser's description of the fault.
    InvalidUrl { reason: String },
    /// The argument holds no `=`; `input` is the argument as it was given.
    InvalidKeyValue { input: String },
}

/// The mathematical value of an [`ArgError`].
pub enum ArgErrorView {
    InvalidUrl { reason: Seq<char> },
    InvalidKeyValue { input: Seq<char> },
}

impl View for ArgError {
    type V = ArgErrorView;

    open spec fn view(&self) -> ArgErrorView {
        match self {
            ArgError::InvalidUrl { reason } => ArgErrorView::InvalidUrl { reason: reason@ },
            ArgError::InvalidKeyValue { input } => ArgErrorView::InvalidKeyValue { input: input@ },
        }
    }
}

/// What the URL parser answers for the text `s`: `None` where `s` is an
/// absolute URL, else its description of the first fault.
pub uninterp spec fn url_fault(s: Seq<char>) -> Option<Seq<char>>;

/// Runs `reqwest::Url::parse` on `s` and keeps, of a failure, the error's
/// `Display` text.
///
/// Trusted: the answer depends on `s` alone, and a text that is accepted holds
/// a `:` (the parser accepts nothing without a scheme, and a scheme ends in `:`).
#[verifier::external_body]
fn url_check(s: &str) -> (fault: Option<String>)
    ensures
        fault.deep_view() == url_fault(s@),
        fault is None ==> s@.contains(':'),
{
    match reqwest::Url::parse(s) {
        Ok(_) => None,
        Err(e) => Some(e.to_string()),
    }
}

/// What [`parse_url`] returns for the text `s`, given the parser's answer.
pub open spec fn url_outcome(s: Seq<char>, fault: Option<Seq<char>>) -> Result<
    Seq<char>,
    ArgErrorView,
> {
    match fault {
        None => Ok(s),
        Some(reason) => Err(ArgErrorView::InvalidUrl { reason }),
    }
}

/// The view of the result of parsing an argument into a string.
pub open spec fn url_result_view(r: Result<String, ArgError>) -> Result<Seq<char>, ArgErrorView> {
    match r {
        Ok(u) => Ok(u@),
        Err(e) => Err(e@),
    }
}

/// Turns the URL parser's answer for `s` into the accepted URL or the error.
pub fn url_from_check(s: &str, fault: Option<String>) -> (r: Result<String, ArgError>)
    ensures
        url_result_view(r) == url_outcome(s@, fault.deep_view()),
{
    match fault {
        None => Ok(s.to_owned()),
        Some(reason) => Err(ArgError::InvalidUrl { reason }),
    }
}

/// Accepts `s` if it is an absolute URL, and hands it back unchanged.
///
/// Only the syntax is checked, never whether the URL can be reached.
pub fn parse_url(s: &str) -> (r: Result<String, ArgError>)
    ensures
        url_result_view(r) == url_outcome(s@, url_fault(s@)),
        !s@.contains(':') ==> r is Err,
{
    let fault = url_check(s);
    url_from_check(s, fault)
}

/// A `key=value` argument, split at its first `=`.
#[derive(Debug, Clone, PartialEq, Eq)]
pub struct KvPair {
    pub k: String,
    pub v: String,
}

impl View for KvPair {
    type V = (Seq<char>, Seq<char>);

    open spec fn view(&self) -> (Seq<char>, Seq<char>) {
        (self.k@, self.v@)
    }
}

impl DeepView for KvPair {
    type V = (Seq<char>, Seq<char>);

    open spec fn deep_view(&self) -> (Seq<char>, Seq<char>) {
        self@
    }
}

/// `i` is the place of the first `=` in `s`.
pub open spec fn is_first_separator(s: Seq<char>, i: int) -> bool {
    &&& 0 <= i < s.len()
    &&& s[i] == '='
    &&& forall|j: int| 0 <= j < i ==> s[j] != '='
}

/// The key and the value that `s` splits into: what stands before its first
/// `=` and what stands after it. `None` where `s` holds no `=`.
pub open spec fn split_kv(s: Seq<char>) -> Option<(Seq<char>, Seq<char>)> {
    if s.contains('=') {
        let i = choose|i: int| is_first_separator(s, i);
        Some((s.take(i), s.skip(i + 1)))
    } else {
        None
    }
}

/// What parsing the argument `s` as a pair gives.
pub open spec fn kv_outcome(s: Seq<char>) -> Result<(Seq<char>, Seq<char>), ArgErrorView> {
    match split_kv(s) {
        Some(pair) => Ok(pair),
        None => Err(ArgErrorView::InvalidKeyValue { input: s }),
    }
}

/// The view of the result of parsing an argument into a pair.
pub open spec fn kv_result_view(r: Result<KvPair, ArgError>) -> Result<
    (Seq<char>, Seq<char>),
    ArgErrorView,
> {
    match r {
        Ok(pair) => Ok(pair@),
        Err(e) => Err(e@),
    }
}

/// A text has at most one first `=`.
pub proof fn lemma_first_separator_unique(s: Seq<char>, i: int, j: int)
    requires
        is_first_separator(s, i),
        is_first_separator(s, j),
    ensures
        i == j,
{
    if i < j {
        assert(s[i] != '=');
    } else if j < i {
        assert(s[j] != '=');
    }
}

/// A text with an `=` has a first one.
pub proof fn lemma_first_separator_exists(s: Seq<char>)
    requires
        s.contains('='),
    ensures
        exists|i: int| is_first_separator(s, i),
    decreases s.len(),
{
    let j = choose|j: int| 0 <= j < s.len() && s[j] == '=';
    let head = s.take(j);
    if head.contains('=') {
        lemma_first_separator_exists(head);
        let i = choose|i: int| is_first_separator(head, i);
        assert forall|m: int| 0 <= m < i implies s[m] != '=' by {
            assert(head[m] == s[m]);
        }
        assert(head[i] == s[i]);
        assert(is_first_separator(s, i));
    } else {
        assert forall|m: int| 0 <= m < j implies s[m] != '=' by {
            assert(head[m] == s[m]);
        }
        assert(is_first_separator(s, j));
    }
}

/// Where `i` is the place of the first `=` of `s`, `s` splits there.
pub proof fn lemma_split_at(s: Seq<char>, i: int)
    requires
        is_first_separator(s, i),
    ensures
        split_kv(s) == Some((s.take(i), s.skip(i + 1))),
{
    let c = choose|c: int| is_first_separator(s, c);
    lemma_first_separator_unique(s, i, c);
}

/// A text without `=` is no pair.
pub proof fn law_no_separator_is_rejected(s: Seq<char>)
    requires
        !s.contains('='),
    ensures
        kv_outcome(s) == Err::<(Seq<char>, Seq<char>), ArgErrorView>(
            ArgErrorView::InvalidKeyValue { input: s },
        ),
{
}

/// A text with an `=` is a pair.
pub proof fn law_separator_is_accepted(s: Seq<char>)
    requires
        s.contains('='),
    ensures
        kv_outcome(s) is Ok,
{
}

/// Only the first `=` splits: a key without `=`, an `=` and any value, put
/// together, split into that key and that value again, whatever the value
/// holds.
pub proof fn law_split_on_first_separator(k: Seq<char>, v: Seq<char>)
    requires
        !k.contains('='),
    ensures
        split_kv(k + seq!['='] + v) == Some((k, v)),
{
    let s = k + seq!['='] + v;
    let i = k.len() as int;
    assert(s[i] == '=');
    assert forall|j: int| 0 <= j < i implies s[j] != '=' by {
        assert(s[j] == k[j]);
    }
    lemma_split_at(s, i);
    assert(s.take(i) =~= k);
    assert(s.skip(i + 1) =~= v);
}

/// The two parts of a pair, with an `=` between them, are the text that was
/// split, and the key holds no `=`.
pub proof fn law_split_rejoins(s: Seq<char>)
    requires
        s.contains('='),
    ensures
        split_kv(s) matches Some((k, v)) && s == k + seq!['='] + v && !k.contains('='),
{
    lemma_first_separator_exists(s);
    let i = choose|i: int| is_first_separator(s, i);
    let k = s.take(i);
    let v = s.skip(i + 1);
    assert(s =~= k + seq!['='] + v);
    if k.contains('=') {
        let j = choose|j: int| 0 <= j < k.len() && k[j] == '=';
        assert(s[j] == k[j]);
    }
}

/// The place of the first `=` in `s`, counted in characters.
pub fn find_separator(s: &str) -> (r: Option<usize>)
    ensures
        match r {
            Some(i) => is_first_separator(s@, i as int),
            None => !s@.contains('='),
        },
{
    let n = s.unicode_len();
    let mut idx: usize = 0;
    for c in it: s.chars()
        invariant
            it.seq() == s@,
            idx == it.index(),
            n == s@.len(),
            forall|j: int| 0 <= j < idx ==> s@[j] != '=',
    {
        if c == '=' {
            return Some(idx);
        }
        idx = idx + 1;
    }
    None
}

impl KvPair {
    /// Splits `s` at its first `=` into key and value. The value may be empty
    /// and may itself hold `=`; a text without `=` is an error that carries `s`.
    pub fn from_str(s: &str) -> (r: Result<KvPair, ArgError>)
        ensures
            kv_result_view(r) == kv_outcome(s@),
    {
        match find_separator(s) {
            Some(i) => {
                let n = s.unicode_len();
                proof {
                    lemma_split_at(s@, i as int);
                }
                let k = s.substring_char(0, i).to_owned();
                let v = s.substring_char(i + 1, n).to_owned();
                Ok(KvPair { k, v })
            },
            None => Err(ArgError::InvalidKeyValue { input: s.to_owned() }),
        }
    }
}

/// Parses one `key=value` argument: see [`KvPair::from_str`].
pub fn parse_kv_pair(s: &str) -> (r: Result<KvPair, ArgError>)
    ensures
        kv_result_view(r) == kv_outcome(s@),
        r is Ok <==> s@.contains('='),
{
    KvPair::from_str(s)
}

impl ArgError {
    /// The text that reports this error: the URL parser's description, or
    /// `Failed to parse ` followed by the argument that holds no `=`.
    pub open spec fn spec_message(self) -> Seq<char> {
        match self {
            ArgError::InvalidUrl { reason } => reason@,
            ArgError::InvalidKeyValue { input } => "Failed to parse "@ + input@,
        }
    }

    /// The text that reports this error.
    pub fn message(&self) -> (m: String)
        ensures
            m@ == self.spec_message(),
    {
        match self {
            ArgError::InvalidUrl { reason } => reason.clone(),
            ArgError::InvalidKeyValue { input } => {
                let mut m = "Failed to parse ".to_owned();
                m.append(input.as_str());
                m
            },
        }
    }
}

/// The arguments of `get`: the URL to fetch.
#[derive(Debug, Clone, PartialEq, Eq)]
pub struct Get {
    pub url: String,
}

/// The arguments of `post`: the URL, and the pairs that make up the body.
#[derive(Debug, Clone, PartialEq, Eq)]
pub struct Post {
    pub url: String,
    pub body: Vec<KvPair>,
}

/// What the program was asked to do.
#[derive(Debug, Clone, PartialEq, Eq)]
pub enum SubCommand {
    Get(Get),
    Post(Post),
}

} // verus!
