//! A decoded request, the parameters that a route captures from its path,
//! and the rule by which a path fits a route pattern.

use crate::req_res_structs::body_view;
use crate::req_res_structs::header_views;
use crate::req_res_structs::BodyType;
use crate::req_res_structs::BodyView;
use crate::req_res_structs::Method;
use crate::text::span_string;
use crate::text::span_texts;
use crate::text::spans_equal;
use crate::text::spans_within;
use crate::text::split;
use crate::text::split_spans;
use crate::text::str_eq;
use crate::text::to_chars;
use crate::text::Span;
use vstd::prelude::*;

verus! {

/// Whether no two of `entries` have the same name.
pub open spec fn names_unique(entries: Seq<(String, String)>) -> bool {
    forall|i: int, j: int|
        0 <= i < j < entries.len() ==> (#[trigger] entries[i]).0@ != (#[trigger] entries[j]).0@
}

/// The map from each name among `entries` to the value that stands beside it.
pub open spec fn entries_map(entries: Seq<(String, String)>) -> Map<Seq<char>, Seq<char>> {
    Map::new(
        |name: Seq<char>| exists|i: int| 0 <= i < entries.len() && (#[trigger] entries[i]).0@ == name,
        |name: Seq<char>|
            entries[choose|i: int| 0 <= i < entries.len() && (#[trigger] entries[i]).0@ == name].1@,
    )
}

/// With unique names, each entry is what the map holds under its name.
pub proof fn lemma_entries_map(entries: Seq<(String, String)>, i: int)
    requires
        names_unique(entries),
        0 <= i < entries.len(),
    ensures
        entries_map(entries).contains_key(entries[i].0@),
        entries_map(entries)[entries[i].0@] == entries[i].1@,
{
    let name = entries[i].0@;
    let j = choose|j: int| 0 <= j < entries.len() && (#[trigger] entries[j]).0@ == name;
    assert(j == i);
}

/// The parameters that a route captured from a path: values by name, each
/// name at most once. Two sets of parameters are equal where they bind the
/// same names to the same values, in whatever order they were bound.
#[derive(Debug)]
pub struct RouteParams {
    entries: Vec<(String, String)>,
}

impl View for RouteParams {
    type V = Map<Seq<char>, Seq<char>>;

    closed spec fn view(&self) -> Map<Seq<char>, Seq<char>> {
        entries_map(self.entries@)
    }
}

impl PartialEq for RouteParams {
    fn eq(&self, other: &Self) -> (same: bool) {
        let same = self.is_within(other) && other.is_within(self);
        proof {
            if same {
                assert(self@ =~= other@);
            }
        }
        same
    }
}

impl vstd::std_specs::cmp::PartialEqSpecImpl for RouteParams {
    open spec fn obeys_eq_spec() -> bool {
        true
    }

    open spec fn eq_spec(&self, other: &Self) -> bool {
        self@ == other@
    }
}

impl Clone for RouteParams {
    fn clone(&self) -> (copy: Self)
        ensures
            copy@ == self@,
    {
        proof {
            use_type_invariant(self);
        }
        let mut entries: Vec<(String, String)> = Vec::new();
        let mut i: usize = 0;
        while i < self.entries.len()
            invariant
                i <= self.entries@.len(),
                entries@ == self.entries@.take(i as int),
            decreases self.entries@.len() - i,
        {
            entries.push((self.entries[i].0.clone(), self.entries[i].1.clone()));
            proof {
                assert(entries@ =~= self.entries@.take(i + 1));
            }
            i += 1;
        }
        proof {
            assert(entries@ =~= self.entries@);
        }
        RouteParams { entries }
    }
}

impl RouteParams {
    #[verifier::type_invariant]
    spec fn well_formed(&self) -> bool {
        names_unique(self.entries@)
    }

    pub fn new() -> (params: RouteParams)
        ensures
            params@ == Map::<Seq<char>, Seq<char>>::empty(),
    {
        let params = RouteParams { entries: Vec::new() };
        proof {
            assert(params@ =~= Map::<Seq<char>, Seq<char>>::empty());
        }
        params
    }

    /// Whether `other` binds every name that is bound here, and to the same
    /// value.
    pub fn is_within(&self, other: &Self) -> (within: bool)
        ensures
            within == self@.submap_of(other@),
    {
        proof {
            use_type_invariant(self);
        }
        let mut i: usize = 0;
        while i < self.entries.len()
            invariant
                i <= self.entries@.len(),
                names_unique(self.entries@),
                forall|k: int|
                    0 <= k < i ==> other@.contains_key((#[trigger] self.entries@[k]).0@)
                        && other@[self.entries@[k].0@] == self.entries@[k].1@,
            decreases self.entries@.len() - i,
        {
            proof {
                lemma_entries_map(self.entries@, i as int);
            }
            match other.get(self.entries[i].0.as_str()) {
                Some(value) => {
                    if !str_eq(value.as_str(), self.entries[i].1.as_str()) {
                        return false;
                    }
                },
                None => {
                    return false;
                },
            }
            i += 1;
        }
        proof {
            assert forall|name: Seq<char>| #[trigger]
                self@.dom().contains(name) implies other@.dom().contains(name) && self@[name]
                == other@[name] by {
                let k = choose|k: int|
                    0 <= k < self.entries@.len() && (#[trigger] self.entries@[k]).0@ == name;
                lemma_entries_map(self.entries@, k);
            }
        }
        true
    }

    /// Where `name` stands among the entries, if it does.
    fn position(&self, name: &str) -> (found: Option<usize>)
        ensures
            match found {
                Some(i) => i < self.entries@.len() && self.entries@[i as int].0@ == name@,
                None => forall|k: int|
                    0 <= k < self.entries@.len() ==> (#[trigger] self.entries@[k]).0@ != name@,
            },
    {
        let mut i: usize = 0;
        while i < self.entries.len()
            invariant
                i <= self.entries@.len(),
                forall|k: int| 0 <= k < i ==> (#[trigger] self.entries@[k]).0@ != name@,
            decreases self.entries@.len() - i,
        {
            if str_eq(self.entries[i].0.as_str(), name) {
                return Some(i);
            }
            i += 1;
        }
        None
    }

    pub fn len(&self) -> (n: usize)
        ensures
            n == self@.dom().len(),
            self@.dom().finite(),
    {
        proof {
            use_type_invariant(self);
            lemma_entries_dom(self.entries@);
        }
        self.entries.len()
    }

    pub fn is_empty(&self) -> (empty: bool)
        ensures
            empty == (self@ == Map::<Seq<char>, Seq<char>>::empty()),
    {
        proof {
            use_type_invariant(self);
            if self.entries@.len() > 0 {
                lemma_entries_map(self.entries@, 0);
            } else {
                assert(self@ =~= Map::<Seq<char>, Seq<char>>::empty());
            }
        }
        self.entries.len() == 0
    }

    pub fn contains_key(&self, name: &str) -> (present: bool)
        ensures
            present == self@.contains_key(name@),
    {
        proof {
            use_type_invariant(self);
        }
        self.position(name).is_some()
    }

    /// The value bound to `name`, if there is one.
    pub fn get(&self, name: &str) -> (value: Option<&String>)
        ensures
            value is Some <==> self@.contains_key(name@),
            value is Some ==> value->Some_0@ == self@[name@],
    {
        proof {
            use_type_invariant(self);
        }
        match self.position(name) {
            Some(i) => {
                proof {
                    lemma_entries_map(self.entries@, i as int);
                }
                Some(&self.entries[i].1)
            },
            None => None,
        }
    }

    /// Binds `name` to `value`, and hands back what `name` was bound to before.
    pub fn insert(&mut self, name: String, value: String) -> (previous: Option<String>)
        ensures
            final(self)@ == old(self)@.insert(name@, value@),
            previous is Some <==> old(self)@.contains_key(name@),
            previous is Some ==> previous->Some_0@ == old(self)@[name@],
    {
        proof {
            use_type_invariant(&*self);
        }
        let ghost before = self.entries@;
        let found = self.position(name.as_str());
        // The entries are taken out while they change, and put back once no
        // name stands twice in them again.
        let mut entries: Vec<(String, String)> = Vec::new();
        std::mem::swap(&mut self.entries, &mut entries);
        match found {
            Some(i) => {
                let previous = entries[i].1.clone();
                proof {
                    lemma_entries_map(before, i as int);
                }
                entries.set(i, (name, value));
                proof {
                    let after = entries@;
                    assert(names_unique(after)) by {
                        assert forall|a: int, b: int| 0 <= a < b < after.len() implies (
                        #[trigger] after[a]).0@ != (#[trigger] after[b]).0@ by {
                            assert(after[a].0@ == before[a].0@);
                            assert(after[b].0@ == before[b].0@);
                        }
                    }
                    assert(entries_map(after) =~= entries_map(before).insert(name@, value@)) by {
                        lemma_replaced(before, after, i as int);
                    }
                }
                std::mem::swap(&mut self.entries, &mut entries);
                Some(previous)
            },
            None => {
                entries.push((name, value));
                proof {
                    let after = entries@;
                    assert(after.drop_last() =~= before);
                    assert(names_unique(after));
                    assert(entries_map(after) =~= entries_map(before).insert(name@, value@)) by {
                        lemma_appended(before, after);
                    }
                }
                std::mem::swap(&mut self.entries, &mut entries);
                None
            },
        }
    }
}

/// The names of the entries are as many as the entries, where they are unique.
pub proof fn lemma_entries_dom(entries: Seq<(String, String)>)
    requires
        names_unique(entries),
    ensures
        entries_map(entries).dom().finite(),
        entries_map(entries).dom().len() == entries.len(),
    decreases entries.len(),
{
    if entries.len() == 0 {
        assert(entries_map(entries).dom() =~= Set::<Seq<char>>::empty());
    } else {
        let front = entries.drop_last();
        let last = entries.last();
        assert(names_unique(front)) by {
            assert forall|a: int, b: int| 0 <= a < b < front.len() implies (#[trigger] front[a]).0@
                != (#[trigger] front[b]).0@ by {
                assert(front[a] == entries[a]);
                assert(front[b] == entries[b]);
            }
        }
        lemma_entries_dom(front);
        lemma_appended(front, entries);
        assert(entries_map(entries).dom() =~= entries_map(front).dom().insert(last.0@));
        assert(!entries_map(front).dom().contains(last.0@)) by {
            if entries_map(front).dom().contains(last.0@) {
                let i = choose|i: int| 0 <= i < front.len() && (#[trigger] front[i]).0@ == last.0@;
                assert(front[i] == entries[i]);
                assert(entries[entries.len() - 1] == last);
            }
        }
    }
}

/// Appending an entry adds its binding to the map.
proof fn lemma_appended(before: Seq<(String, String)>, after: Seq<(String, String)>)
    requires
        names_unique(after),
        after.len() == before.len() + 1,
        after.drop_last() == before,
    ensures
        entries_map(after) == entries_map(before).insert(after.last().0@, after.last().1@),
{
    let last = after.last();
    let last_index = after.len() - 1;
    let target = entries_map(before).insert(last.0@, last.1@);
    assert(names_unique(before)) by {
        assert forall|a: int, b: int| 0 <= a < b < before.len() implies (#[trigger] before[a]).0@
            != (#[trigger] before[b]).0@ by {
            assert(before[a] == after[a]);
            assert(before[b] == after[b]);
        }
    }
    assert forall|name: Seq<char>| #[trigger]
        entries_map(after).dom().contains(name) implies target.dom().contains(name) && target[name]
        == entries_map(after)[name] by {
        let i = choose|i: int| 0 <= i < after.len() && (#[trigger] after[i]).0@ == name;
        lemma_entries_map(after, i);
        if i < before.len() {
            assert(before[i] == after[i]);
            lemma_entries_map(before, i);
        }
    }
    assert forall|name: Seq<char>| #[trigger] target.dom().contains(name) implies entries_map(
        after,
    ).dom().contains(name) by {
        if name == last.0@ {
            assert(after[last_index].0@ == name);
        } else {
            let i = choose|i: int| 0 <= i < before.len() && (#[trigger] before[i]).0@ == name;
            assert(before[i] == after[i]);
        }
    }
    assert(entries_map(after) =~= target);
}

/// Replacing the value of an entry replaces its binding in the map.
proof fn lemma_replaced(before: Seq<(String, String)>, after: Seq<(String, String)>, at: int)
    requires
        names_unique(before),
        names_unique(after),
        0 <= at < before.len(),
        after.len() == before.len(),
        after[at].0@ == before[at].0@,
        forall|k: int| 0 <= k < before.len() && k != at ==> after[k] == before[k],
    ensures
        entries_map(after) == entries_map(before).insert(after[at].0@, after[at].1@),
{
    let target = entries_map(before).insert(after[at].0@, after[at].1@);
    assert forall|name: Seq<char>| #[trigger]
        entries_map(after).dom().contains(name) implies target.dom().contains(name) && target[name]
        == entries_map(after)[name] by {
        let i = choose|i: int| 0 <= i < after.len() && (#[trigger] after[i]).0@ == name;
        lemma_entries_map(after, i);
        lemma_entries_map(before, i);
    }
    assert forall|name: Seq<char>| #[trigger] target.dom().contains(name) implies entries_map(
        after,
    ).dom().contains(name) by {
        if name == after[at].0@ {
        } else {
            let i = choose|i: int| 0 <= i < before.len() && (#[trigger] before[i]).0@ == name;
            assert(after[i] == before[i]);
        }
    }
    assert(entries_map(after) =~= target);
}

/// Whether a segment of a pattern stands for a parameter: it starts with a
/// colon.
pub open spec fn is_capture(segment: Seq<char>) -> bool {
    segment.len() > 0 && segment[0] == ':'
}

/// Whether the segments of a path fit those of a pattern: there are as many,
/// and each one either meets a capture or equals the pattern's segment.
pub open spec fn segments_match(pattern: Seq<Seq<char>>, path: Seq<Seq<char>>) -> bool {
    &&& pattern.len() == path.len()
    &&& forall|i: int|
        0 <= i < pattern.len() ==> is_capture(#[trigger] pattern[i]) || pattern[i] == path[i]
}

/// Whether `path` fits `pattern`, both taken apart at every `/`.
pub open spec fn pattern_matches(pattern: Seq<char>, path: Seq<char>) -> bool {
    segments_match(split(pattern, '/'), split(path, '/'))
}

/// The parameters that the first `n` segments of a pattern capture from the
/// segments of a path: the name is the capture without its colon, the value
/// the segment of the path at the same place. Where a name is captured
/// twice, the later segment stays.
pub open spec fn bindings(pattern: Seq<Seq<char>>, path: Seq<Seq<char>>, n: nat) -> Map<
    Seq<char>,
    Seq<char>,
>
    decreases n,
{
    if n == 0 {
        Map::empty()
    } else {
        let before = bindings(pattern, path, (n - 1) as nat);
        if is_capture(pattern[n - 1]) {
            before.insert(pattern[n - 1].skip(1), path[n - 1])
        } else {
            before
        }
    }
}

/// The parameters that `pattern` captures from `path`, over the segments
/// that both have.
pub open spec fn captures(pattern: Seq<char>, path: Seq<char>) -> Map<Seq<char>, Seq<char>> {
    let p = split(pattern, '/');
    let q = split(path, '/');
    bindings(
        p,
        q,
        if p.len() <= q.len() {
            p.len()
        } else {
            q.len()
        },
    )
}

/// Whether the segment that `span` covers in `s` is a capture.
fn capture_at(s: &Vec<char>, span: Span) -> (capture: bool)
    requires
        span.within(s@.len()),
    ensures
        capture == is_capture(span.of(s@)),
{
    span.start < span.end && s[span.start] == ':'
}

/// Whether `path` fits `pattern`.
pub fn path_matches(pattern: &str, path: &str) -> (fits: bool)
    ensures
        fits == pattern_matches(pattern@, path@),
{
    let p = to_chars(pattern);
    let q = to_chars(path);
    let ps = split_spans(&p, Span { start: 0, end: p.len() }, '/');
    let qs = split_spans(&q, Span { start: 0, end: q.len() }, '/');
    proof {
        assert(p@.subrange(0, p@.len() as int) =~= p@);
        assert(q@.subrange(0, q@.len() as int) =~= q@);
    }
    if ps.len() != qs.len() {
        return false;
    }
    let ghost pattern_segments = split(pattern@, '/');
    let ghost path_segments = split(path@, '/');
    let mut i: usize = 0;
    while i < ps.len()
        invariant
            i <= ps@.len() == qs@.len(),
            spans_within(ps@, p@.len()),
            spans_within(qs@, q@.len()),
            pattern_segments == split(pattern@, '/'),
            path_segments == split(path@, '/'),
            span_texts(ps@, p@) == pattern_segments,
            span_texts(qs@, q@) == path_segments,
            forall|k: int|
                0 <= k < i ==> is_capture(#[trigger] pattern_segments[k]) || pattern_segments[k]
                    == path_segments[k],
        decreases ps@.len() - i,
    {
        proof {
            assert(span_texts(ps@, p@)[i as int] == ps@[i as int].of(p@));
            assert(span_texts(qs@, q@)[i as int] == qs@[i as int].of(q@));
        }
        if !capture_at(&p, ps[i]) && !spans_equal(&p, ps[i], &q, qs[i]) {
            proof {
                assert(!is_capture(pattern_segments[i as int]));
                assert(pattern_segments[i as int] != path_segments[i as int]);
            }
            return false;
        }
        i += 1;
    }
    true
}

/// A request as the decoder hands it out, and as a handler receives it once
/// the route's parameters have been bound.
#[derive(Debug, PartialEq, Clone)]
pub struct Request {
    pub method: Method,
    /// The target of the request line, as it was written: a query, if there
    /// is one, is still part of it.
    pub path: String,
    /// The header lines in the order of their arrival; `None` where there
    /// were none.
    pub headers: Option<Vec<String>>,
    pub body: Option<BodyType>,
    /// Empty until a route has been found for the request.
    pub rest_params: RouteParams,
}

pub struct RequestView {
    pub method: Method,
    pub path: Seq<char>,
    pub headers: Seq<Seq<char>>,
    pub body: Option<BodyView>,
    pub rest_params: Map<Seq<char>, Seq<char>>,
}

impl View for Request {
    type V = RequestView;

    open spec fn view(&self) -> RequestView {
        RequestView {
            method: self.method,
            path: self.path@,
            headers: header_views(self.headers),
            body: body_view(self.body),
            rest_params: self.rest_params@,
        }
    }
}

impl Default for Request {
    fn default() -> (request: Self)
        ensures
            request.method == Method::GET,
            request.path@ == Seq::<char>::empty(),
            request.headers is None,
            request.body is None,
            request.rest_params@ == Map::<Seq<char>, Seq<char>>::empty(),
    {
        Request {
            method: Method::GET,
            path: String::new(),
            headers: None,
            body: None,
            rest_params: RouteParams::new(),
        }
    }
}

impl Request {
    /// Binds the parameters that `pattern` captures from the path of this
    /// request. What was bound before stays, but for a name that is bound
    /// anew.
    pub fn parse_args(&mut self, pattern: &str)
        ensures
            final(self).rest_params@ == old(self).rest_params@.union_prefer_right(
                captures(pattern@, old(self).path@),
            ),
            final(self).method == old(self).method,
            final(self).path == old(self).path,
            final(self).headers == old(self).headers,
            final(self).body == old(self).body,
    {
        let p = to_chars(pattern);
        let q = to_chars(self.path.as_str());
        let ps = split_spans(&p, Span { start: 0, end: p.len() }, '/');
        let qs = split_spans(&q, Span { start: 0, end: q.len() }, '/');
        proof {
            assert(p@.subrange(0, p@.len() as int) =~= p@);
            assert(q@.subrange(0, q@.len() as int) =~= q@);
        }
        let count = if ps.len() <= qs.len() {
            ps.len()
        } else {
            qs.len()
        };
        let ghost pattern_segments = split(pattern@, '/');
        let ghost path_segments = split(self.path@, '/');
        let ghost bound = self.rest_params@;
        let mut i: usize = 0;
        proof {
            assert(bound.union_prefer_right(bindings(pattern_segments, path_segments, 0)) =~= bound);
        }
        while i < count
            invariant
                i <= count,
                count <= ps@.len(),
                count <= qs@.len(),
                p@ == pattern@,
                q@ == self.path@,
                self.path == old(self).path,
                self.method == old(self).method,
                self.headers == old(self).headers,
                self.body == old(self).body,
                spans_within(ps@, p@.len()),
                spans_within(qs@, q@.len()),
                span_texts(ps@, p@) == pattern_segments,
                span_texts(qs@, q@) == path_segments,
                self.rest_params@ == bound.union_prefer_right(
                    bindings(pattern_segments, path_segments, i as nat),
                ),
            decreases count - i,
        {
            proof {
                assert(span_texts(ps@, p@)[i as int] == ps@[i as int].of(p@));
                assert(span_texts(qs@, q@)[i as int] == qs@[i as int].of(q@));
            }
            let segment = ps[i];
            if capture_at(&p, segment) {
                let name = span_string(pattern, Span { start: segment.start + 1, end: segment.end });
                let value = span_string(self.path.as_str(), qs[i]);
                proof {
                    assert(name@ =~= pattern_segments[i as int].skip(1));
                    assert(bound.union_prefer_right(
                        bindings(pattern_segments, path_segments, (i + 1) as nat),
                    ) =~= bound.union_prefer_right(
                        bindings(pattern_segments, path_segments, i as nat),
                    ).insert(name@, value@));
                }
                self.rest_params.insert(name, value);
            }
            i += 1;
        }
    }

    /// Whether the path of this request fits the pattern `path`. The request
    /// is left as it was.
    pub fn is_similar(&mut self, path: &str) -> (fits: bool)
        ensures
            fits == pattern_matches(path@, old(self).path@),
            *final(self) == *old(self),
    {
        path_matches(path, self.path.as_str())
    }
}

} // verus!
