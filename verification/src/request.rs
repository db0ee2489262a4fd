//! The request executor's planning half: from a subcommand to the one
//! request that is to be sent.

use crate::args::{Get, KvPair, Post, SubCommand};
use crate::text::str_eq;
use vstd::prelude::*;

verus! {

/// Keys with their values, as mathematical texts.
pub type Pairs = Seq<(Seq<char>, Seq<char>)>;

/// `k` is the key of one of `e`.
pub open spec fn has_key(e: Pairs, k: Seq<char>) -> bool {
    exists|i: int| 0 <= i < e.len() && #[trigger] e[i].0 == k
}

/// A place in `e` where the key is `k`.
pub open spec fn key_index(e: Pairs, k: Seq<char>) -> int {
    choose|i: int| 0 <= i < e.len() && #[trigger] e[i].0 == k
}

/// No key stands twice in `e`.
pub open spec fn unique_keys(e: Pairs) -> bool {
    forall|i: int, j: int| 0 <= i < j < e.len() ==> #[trigger] e[i].0 != #[trigger] e[j].0
}

/// `e` after `k` was given the value `v`: a key that `e` holds keeps its place
/// and takes the new value, a new key goes to the end.
pub open spec fn put(e: Pairs, k: Seq<char>, v: Seq<char>) -> Pairs {
    if has_key(e, k) {
        e.update(key_index(e, k), (k, v))
    } else {
        e.push((k, v))
    }
}

/// The members of the body that `pairs` make: each pair is put in its turn,
/// so of two pairs with one key the later one gives the value.
pub open spec fn body_entries(pairs: Pairs) -> Pairs
    decreases pairs.len(),
{
    if pairs.len() == 0 {
        Seq::empty()
    } else {
        put(body_entries(pairs.drop_last()), pairs.last().0, pairs.last().1)
    }
}

/// The mapping that the members `e` stand for.
pub open spec fn as_map(e: Pairs) -> Map<Seq<char>, Seq<char>> {
    Map::new(|k: Seq<char>| has_key(e, k), |k: Seq<char>| e[key_index(e, k)].1)
}

/// Putting a pair keeps the keys unique.
pub proof fn lemma_put_unique(e: Pairs, k: Seq<char>, v: Seq<char>)
    requires
        unique_keys(e),
    ensures
        unique_keys(put(e, k, v)),
        put(e, k, v).len() >= e.len(),
{
    let r = put(e, k, v);
    if has_key(e, k) {
        assert forall|i: int, j: int| 0 <= i < j < r.len() implies #[trigger] r[i].0
            != #[trigger] r[j].0 by {
            assert(r[i].0 == e[i].0);
            assert(r[j].0 == e[j].0);
        }
    } else {
        assert forall|i: int, j: int| 0 <= i < j < r.len() implies #[trigger] r[i].0
            != #[trigger] r[j].0 by {
            if j < e.len() {
                assert(r[i].0 == e[i].0);
                assert(r[j].0 == e[j].0);
            } else {
                assert(r[i].0 == e[i].0);
                assert(r[j].0 == k);
            }
        }
    }
}

/// Putting a pair gives its key that value, and leaves the other keys as they were.
pub proof fn lemma_put_map(e: Pairs, k: Seq<char>, v: Seq<char>)
    requires
        unique_keys(e),
    ensures
        as_map(put(e, k, v)) == as_map(e).insert(k, v),
{
    let r = put(e, k, v);
    lemma_put_unique(e, k, v);
    assert forall|q: Seq<char>| has_key(r, q) <==> (q == k || has_key(e, q)) by {
        if has_key(r, q) {
            let i = key_index(r, q);
            if i < e.len() {
                if q != k {
                    assert(r[i] == e[i]);
                    assert(e[i].0 == q);
                }
            }
        }
        if q == k {
            if has_key(e, k) {
                let m = key_index(e, k);
                assert(r[m].0 == k);
            } else {
                assert(r[e.len() as int].0 == k);
            }
        } else if has_key(e, q) {
            let i = key_index(e, q);
            assert(r[i].0 == e[i].0);
        }
    }
    assert forall|q: Seq<char>| has_key(r, q) implies #[trigger] as_map(r)[q] == as_map(e).insert(
        k,
        v,
    )[q] by {
        let i = key_index(r, q);
        if q == k {
            if has_key(e, k) {
                let m = key_index(e, k);
                assert(r[m].0 == k);
                if i != m {
                    if i < m {
                        assert(r[i].0 != r[m].0);
                    } else {
                        assert(r[m].0 != r[i].0);
                    }
                }
            } else {
                if i < e.len() {
                    assert(e[i].0 == k);
                }
            }
        } else {
            assert(r[i].0 == q);
            if i >= e.len() {
                assert(r[i].0 == k);
            }
            assert(e[i].0 == q);
            let m = key_index(e, q);
            if i != m {
                if i < m {
                    assert(e[i].0 != e[m].0);
                } else {
                    assert(e[m].0 != e[i].0);
                }
            }
            assert(r[i].1 == e[i].1);
        }
    }
    assert(as_map(r) =~= as_map(e).insert(k, v));
}

/// No key stands twice among the members of a body.
pub proof fn law_body_keys_are_unique(pairs: Pairs)
    ensures
        unique_keys(body_entries(pairs)),
        body_entries(pairs).len() <= pairs.len(),
    decreases pairs.len(),
{
    if pairs.len() > 0 {
        law_body_keys_are_unique(pairs.drop_last());
        let e = body_entries(pairs.drop_last());
        lemma_put_unique(e, pairs.last().0, pairs.last().1);
    }
}

/// The body holds exactly the keys that the pairs give.
pub proof fn law_body_keys_are_the_given(pairs: Pairs, k: Seq<char>)
    ensures
        has_key(body_entries(pairs), k) <==> has_key(pairs, k),
    decreases pairs.len(),
{
    if pairs.len() > 0 {
        let init = pairs.drop_last();
        let e = body_entries(init);
        law_body_keys_are_the_given(init, k);
        law_body_keys_are_unique(init);
        lemma_put_map(e, pairs.last().0, pairs.last().1);
        let r = body_entries(pairs);
        assert(as_map(r).dom().contains(k) <==> has_key(r, k));
        assert(as_map(e).dom().contains(k) <==> has_key(e, k));
        if has_key(pairs, k) {
            let i = key_index(pairs, k);
            if i < init.len() {
                assert(init[i].0 == k);
            }
        }
        if has_key(init, k) {
            let i = key_index(init, k);
            assert(pairs[i].0 == k);
        }
        if k == pairs.last().0 {
            assert(pairs[pairs.len() - 1].0 == k);
        }
    }
}

/// The last write wins: the body gives a key the value of the last pair that
/// holds this key.
pub proof fn law_last_write_wins(pairs: Pairs, i: int)
    requires
        0 <= i < pairs.len(),
        forall|j: int| i < j < pairs.len() ==> (#[trigger] pairs[j]).0 != pairs[i].0,
    ensures
        has_key(body_entries(pairs), pairs[i].0),
        as_map(body_entries(pairs))[pairs[i].0] == pairs[i].1,
    decreases pairs.len(),
{
    let init = pairs.drop_last();
    let e = body_entries(init);
    law_body_keys_are_unique(init);
    lemma_put_map(e, pairs.last().0, pairs.last().1);
    let r = body_entries(pairs);
    assert(as_map(r).dom().contains(pairs[i].0) <==> has_key(r, pairs[i].0));
    if i < pairs.len() - 1 {
        assert(init[i] == pairs[i]);
        assert forall|j: int| i < j < init.len() implies (#[trigger] init[j]).0 != init[i].0 by {
            assert(init[j] == pairs[j]);
        }
        law_last_write_wins(init, i);
        assert(pairs[pairs.len() - 1].0 != pairs[i].0);
        assert(as_map(e).dom().contains(pairs[i].0));
    }
}

/// `i` is the place of the first pair of `pairs` with the key `k`.
pub open spec fn is_first_mention(pairs: Pairs, i: int, k: Seq<char>) -> bool {
    &&& 0 <= i < pairs.len()
    &&& pairs[i].0 == k
    &&& forall|j: int| 0 <= j < i ==> (#[trigger] pairs[j]).0 != k
}

/// A key that the pairs give is given somewhere first.
pub proof fn lemma_first_mention_exists(pairs: Pairs, k: Seq<char>)
    requires
        has_key(pairs, k),
    ensures
        exists|i: int| is_first_mention(pairs, i, k),
    decreases pairs.len(),
{
    let init = pairs.drop_last();
    if has_key(init, k) {
        lemma_first_mention_exists(init, k);
        let i = choose|i: int| is_first_mention(init, i, k);
        assert(pairs[i] == init[i]);
        assert forall|j: int| 0 <= j < i implies (#[trigger] pairs[j]).0 != k by {
            assert(pairs[j] == init[j]);
        }
        assert(is_first_mention(pairs, i, k));
    } else {
        let m = key_index(pairs, k);
        let last = pairs.len() - 1;
        if m < last {
            assert(init[m].0 == k);
        }
        assert forall|j: int| 0 <= j < last implies (#[trigger] pairs[j]).0 != k by {
            assert(init[j].0 == pairs[j].0);
        }
        assert(is_first_mention(pairs, last, k));
    }
}

/// The members of a body stand in the order in which their keys were first
/// given: of two members, the key of the earlier one was first given before
/// the key of the later one.
pub proof fn law_body_keeps_first_order(pairs: Pairs, a: int, b: int)
    requires
        0 <= a < b < body_entries(pairs).len(),
    ensures
        exists|i: int, j: int|
            i < j && is_first_mention(pairs, i, body_entries(pairs)[a].0) && is_first_mention(
                pairs,
                j,
                body_entries(pairs)[b].0,
            ),
    decreases pairs.len(),
{
    let init = pairs.drop_last();
    let before = body_entries(init);
    let now = body_entries(pairs);
    let k = pairs.last().0;
    let last = pairs.len() - 1;
    law_body_keys_are_unique(init);
    if has_key(before, k) || b < before.len() {
        assert(now[a].0 == before[a].0);
        assert(now[b].0 == before[b].0);
        law_body_keeps_first_order(init, a, b);
        let (i, j) = choose|i: int, j: int|
            i < j && is_first_mention(init, i, before[a].0) && is_first_mention(
                init,
                j,
                before[b].0,
            );
        assert(pairs[i] == init[i] && pairs[j] == init[j]);
        assert forall|m: int| 0 <= m < i implies (#[trigger] pairs[m]).0 != now[a].0 by {
            assert(pairs[m] == init[m]);
        }
        assert forall|m: int| 0 <= m < j implies (#[trigger] pairs[m]).0 != now[b].0 by {
            assert(pairs[m] == init[m]);
        }
        assert(is_first_mention(pairs, i, now[a].0) && is_first_mention(pairs, j, now[b].0));
    } else {
        assert(now[b].0 == k);
        assert(now[a] == before[a]);
        let ka = before[a].0;
        law_body_keys_are_the_given(init, ka);
        law_body_keys_are_the_given(init, k);
        lemma_first_mention_exists(init, ka);
        let i = choose|i: int| is_first_mention(init, i, ka);
        assert(pairs[i] == init[i]);
        assert forall|m: int| 0 <= m < i implies (#[trigger] pairs[m]).0 != ka by {
            assert(pairs[m] == init[m]);
        }
        assert forall|m: int| 0 <= m < last implies (#[trigger] pairs[m]).0 != k by {
            assert(init[m].0 == pairs[m].0);
        }
        assert(is_first_mention(pairs, i, now[a].0) && is_first_mention(pairs, last, now[b].0));
    }
}

/// The body of a `post` request: keys with their values, no key twice, in the
/// order in which the keys were first given.
#[derive(Debug, PartialEq, Eq)]
pub struct RequestBody {
    entries: Vec<KvPair>,
}

impl View for RequestBody {
    type V = Pairs;

    closed spec fn view(&self) -> Pairs {
        self.entries.deep_view()
    }
}

impl RequestBody {
    #[verifier::type_invariant]
    spec fn keys_are_unique(&self) -> bool {
        unique_keys(self.entries.deep_view())
    }

    /// A body without members.
    pub fn new() -> (b: RequestBody)
        ensures
            b@ == Pairs::empty(),
    {
        let b = RequestBody { entries: Vec::new() };
        assert(b@ =~= Pairs::empty());
        b
    }

    /// The place of the key `k` among the members.
    pub fn position(&self, k: &str) -> (r: Option<usize>)
        ensures
            match r {
                Some(i) => has_key(self@, k@) && i == key_index(self@, k@),
                None => !has_key(self@, k@),
            },
    {
        proof {
            use_type_invariant(self);
        }
        let n = self.entries.len();
        let mut i: usize = 0;
        while i < n
            invariant
                0 <= i <= n,
                n == self.entries.len(),
                unique_keys(self@),
                forall|j: int| 0 <= j < i ==> (#[trigger] self@[j]).0 != k@,
            decreases n - i,
        {
            if str_eq(self.entries[i].k.as_str(), k) {
                proof {
                    let m = key_index(self@, k@);
                    assert(self@[i as int].0 == k@);
                    if m < i {
                        assert(self@[m].0 != k@);
                    } else if i < m {
                        assert(self@[i as int].0 != self@[m].0);
                    }
                }
                return Some(i);
            }
            i = i + 1;
        }
        None
    }

    /// Gives the key `k` the value `v`: a key that the body holds keeps its
    /// place and takes the new value, a new key goes to the end.
    pub fn insert(&mut self, k: String, v: String)
        ensures
            final(self)@ == put(old(self)@, k@, v@),
            unique_keys(final(self)@),
    {
        proof {
            use_type_invariant(&*self);
            lemma_put_unique(self@, k@, v@);
        }
        let ghost before = self@;
        let place = self.position(k.as_str());
        let mut entries: Vec<KvPair> = Vec::new();
        assert(entries.deep_view() =~= Pairs::empty());
        std::mem::swap(&mut self.entries, &mut entries);
        match place {
            Some(i) => {
                entries.set(i, KvPair { k, v });
                assert(entries.deep_view() =~= before.update(i as int, (k@, v@)));
            },
            None => {
                entries.push(KvPair { k, v });
                assert(entries.deep_view() =~= before.push((k@, v@)));
            },
        }
        std::mem::swap(&mut self.entries, &mut entries);
    }

    /// The body that `pairs` make: each pair is put in its turn, so of two
    /// pairs with one key the later one gives the value.
    pub fn from_pairs(pairs: &Vec<KvPair>) -> (b: RequestBody)
        ensures
            b@ == body_entries(pairs.deep_view()),
            unique_keys(b@),
    {
        let mut b = RequestBody::new();
        let n = pairs.len();
        let mut i: usize = 0;
        assert(pairs.deep_view().take(0) =~= Pairs::empty());
        while i < n
            invariant
                0 <= i <= n,
                n == pairs.len(),
                unique_keys(b@),
                b@ == body_entries(pairs.deep_view().take(i as int)),
            decreases n - i,
        {
            proof {
                let all = pairs.deep_view();
                assert(all.take(i + 1).drop_last() =~= all.take(i as int));
                assert(all.take(i + 1).last() == (pairs[i as int].k@, pairs[i as int].v@));
            }
            b.insert(pairs[i].k.clone(), pairs[i].v.clone());
            i = i + 1;
        }
        assert(pairs.deep_view().take(n as int) =~= pairs.deep_view());
        b
    }

    /// The number of members.
    pub fn len(&self) -> (n: usize)
        ensures
            n == self@.len(),
    {
        self.entries.len()
    }

    /// The member at place `i`, if there is one.
    pub fn get(&self, i: usize) -> (p: Option<&KvPair>)
        ensures
            match p {
                Some(pair) => i < self@.len() && pair@ == self@[i as int],
                None => i >= self@.len(),
            },
    {
        if i < self.entries.len() {
            Some(&self.entries[i])
        } else {
            None
        }
    }
}

/// The JSON string literal for the text `s`: `s` in double quotes, with the
/// escapes that JSON asks for.
pub uninterp spec fn json_string(s: Seq<char>) -> Seq<char>;

/// Writes `s` as a JSON string literal, by `serde_json`'s `Display` for the
/// string value `serde_json::Value::String`.
///
/// Trusted: the literal depends on `s` alone.
#[verifier::external_body]
fn quote_json(s: &str) -> (q: String)
    ensures
        q@ == json_string(s@),
{
    serde_json::Value::String(s.to_owned()).to_string()
}

/// Each key and each value of `e` as a JSON string literal.
pub open spec fn quoted(e: Pairs) -> Pairs {
    Seq::new(e.len(), |i: int| (json_string(e[i].0), json_string(e[i].1)))
}

/// One member of an object: the key's literal, a colon, the value's literal.
pub open spec fn member_text(p: (Seq<char>, Seq<char>)) -> Seq<char> {
    p.0 + ":"@ + p.1
}

/// The members of an object in their order, with a comma between two of them.
pub open spec fn members_text(q: Pairs) -> Seq<char>
    decreases q.len(),
{
    if q.len() == 0 {
        Seq::empty()
    } else if q.len() == 1 {
        member_text(q[0])
    } else {
        members_text(q.drop_last()) + ","@ + member_text(q.last())
    }
}

/// The compact text of the object whose members, already written as
/// literals, are `q`.
pub open spec fn object_text(q: Pairs) -> Seq<char> {
    "{"@ + members_text(q) + "}"@
}

/// The compact JSON text of the object with the members `e`.
pub open spec fn json_object(e: Pairs) -> Seq<char> {
    object_text(quoted(e))
}

/// Frames members that are already written as JSON literals into the text of
/// one object: braces around them, a colon in each, commas between them.
pub fn frame_object(q: &Vec<(String, String)>) -> (text: String)
    ensures
        text@ == object_text(q.deep_view()),
{
    let ghost all = q.deep_view();
    let mut text = "{".to_owned();
    let n = q.len();
    let mut i: usize = 0;
    assert(all.take(0) =~= Pairs::empty());
    assert(text@ =~= "{"@ + members_text(all.take(0)));
    while i < n
        invariant
            0 <= i <= n,
            n == q.len(),
            all == q.deep_view(),
            text@ == "{"@ + members_text(all.take(i as int)),
        decreases n - i,
    {
        let ghost before = text@;
        if i > 0 {
            text.append(",");
        }
        text.append(q[i].0.as_str());
        text.append(":");
        text.append(q[i].1.as_str());
        proof {
            let now = all.take(i + 1);
            assert(now.drop_last() =~= all.take(i as int));
            assert(now.last() == (q[i as int].0@, q[i as int].1@));
            if i == 0 {
                assert(members_text(all.take(0)) =~= Seq::<char>::empty());
                assert(text@ =~= "{"@ + member_text(now[0]));
            } else {
                assert(text@ =~= "{"@ + (members_text(now.drop_last()) + ","@ + member_text(
                    now.last(),
                )));
            }
        }
        i = i + 1;
    }
    assert(all.take(n as int) =~= all);
    text.append("}");
    text
}

impl RequestBody {
    /// The body as the compact JSON text of one object, whose members stand in
    /// the body's order and hold strings only.
    pub fn to_json(&self) -> (text: String)
        ensures
            text@ == json_object(self@),
    {
        let n = self.entries.len();
        let mut q: Vec<(String, String)> = Vec::new();
        let mut i: usize = 0;
        while i < n
            invariant
                0 <= i <= n,
                n == self.entries.len(),
                q.len() == i,
                forall|j: int| 0 <= j < i ==> (#[trigger] q[j]).0@ == json_string(self@[j].0),
                forall|j: int| 0 <= j < i ==> (#[trigger] q[j]).1@ == json_string(self@[j].1),
            decreases n - i,
        {
            let k = quote_json(self.entries[i].k.as_str());
            let v = quote_json(self.entries[i].v.as_str());
            q.push((k, v));
            i = i + 1;
        }
        assert(q.deep_view() =~= quoted(self@));
        frame_object(&q)
    }
}

/// The method of a request.
#[derive(Debug, Clone, Copy, PartialEq, Eq)]
pub enum Method {
    Get,
    Post,
}

/// The one request of an invocation, ready to be sent. A body is JSON text
/// and goes out with the content type `application/json`.
#[derive(Debug, Clone, PartialEq, Eq)]
pub struct Request {
    pub method: Method,
    pub url: String,
    pub body: Option<String>,
}

/// The request of `get`: a GET to the URL, without a body.
pub fn get_request(args: &Get) -> (r: Request)
    ensures
        r.method is Get,
        r.url@ == args.url@,
        r.body is None,
{
    Request { method: Method::Get, url: args.url.clone(), body: None }
}

/// The request of `post`: a POST to the URL, whose body is the JSON object
/// that the pairs make.
pub fn post_request(args: &Post) -> (r: Request)
    ensures
        r.method is Post,
        r.url@ == args.url@,
        r.body.deep_view() == Some(json_object(body_entries(args.body.deep_view()))),
{
    let body = RequestBody::from_pairs(&args.body);
    Request { method: Method::Post, url: args.url.clone(), body: Some(body.to_json()) }
}

/// What [`plan`] returns for a subcommand: method, URL and body.
pub open spec fn planned(cmd: SubCommand) -> (Method, Seq<char>, Option<Seq<char>>) {
    match cmd {
        SubCommand::Get(args) => (Method::Get, args.url@, None),
        SubCommand::Post(args) => (
            Method::Post,
            args.url@,
            Some(json_object(body_entries(args.body.deep_view()))),
        ),
    }
}

/// The request that a subcommand asks for.
pub fn plan(cmd: &SubCommand) -> (r: Request)
    ensures
        (r.method, r.url@, r.body.deep_view()) == planned(*cmd),
{
    match cmd {
        SubCommand::Get(args) => get_request(args),
        SubCommand::Post(args) => post_request(args),
    }
}

} // verus!
