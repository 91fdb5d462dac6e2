//! The line-by-line parser of both files, and the store it fills.
use vstd::prelude::*;
use crate::grammar::{
    comment_or_empty, config_header, continuation_line, credentials_header, extract_continuation,
    extract_profile, extract_profile_with_profile_prefix, extract_property, header_view,
    is_comment_or_empty, property_line, starts_header,
};
use crate::store::{assoc, distinct_keys, lemma_assoc_contains, lemma_assoc_index, lemma_assoc_remove, Properties};
use crate::text::{str_equal, trim};

verus! {

/// Which header grammar a file is read with.
#[derive(Clone, Copy, Debug, PartialEq, Eq, Structural)]
pub enum Grammar {
    /// `[name]`
    Credentials,
    /// `[default]` or `[profile name]`
    Config,
}

/// The header grammar of `g` applied to a line.
pub open spec fn header_of(g: Grammar, line: Seq<char>) -> Option<Result<Seq<char>, ()>> {
    match g {
        Grammar::Credentials => credentials_header(line),
        Grammar::Config => config_header(line),
    }
}

/// Where the parser stands between two lines: the open profile (none before
/// the first valid header and after a malformed one), and the key/value pair
/// that is still being read (continuation lines may extend its value).
pub struct LineState {
    pub profile: Option<Seq<char>>,
    pub pending: Option<(Seq<char>, Seq<char>)>,
}

/// The state before the first line: no profile open, nothing pending.
pub open spec fn start_state() -> LineState {
    LineState { profile: None, pending: None }
}

/// Sets `key` of `profile` to `value`, unless it already has a value.
pub open spec fn add_property(
    store: Map<Seq<char>, Map<Seq<char>, Seq<char>>>,
    profile: Seq<char>,
    key: Seq<char>,
    value: Seq<char>,
) -> Map<Seq<char>, Map<Seq<char>, Seq<char>>> {
    let props = if store.contains_key(profile) {
        store[profile]
    } else {
        Map::empty()
    };
    if props.contains_key(key) {
        store
    } else {
        store.insert(profile, props.insert(key, value))
    }
}

/// Saves the pending pair under the open profile, if there are both.
pub open spec fn flush(store: Map<Seq<char>, Map<Seq<char>, Seq<char>>>, st: LineState) -> Map<
    Seq<char>,
    Map<Seq<char>, Seq<char>>,
> {
    match (st.profile, st.pending) {
        (Some(p), Some((k, v))) => add_property(store, p, k, v),
        _ => store,
    }
}

/// What one line does to the store and to the parser's state.
pub open spec fn step(
    g: Grammar,
    store: Map<Seq<char>, Map<Seq<char>, Seq<char>>>,
    st: LineState,
    line: Seq<char>,
) -> (Map<Seq<char>, Map<Seq<char>, Seq<char>>>, LineState) {
    if comment_or_empty(line) {
        (store, st)
    } else if header_of(g, line) is Some {
        match header_of(g, line)->0 {
            Ok(name) => (flush(store, st), LineState { profile: Some(name), pending: None }),
            Err(_) => (flush(store, st), start_state()),
        }
    } else if st.profile is None {
        (store, st)
    } else if continuation_line(line) is Some {
        match st.pending {
            Some((k, v)) => (
                store,
                LineState {
                    profile: st.profile,
                    pending: Some((k, v + continuation_line(line)->0)),
                },
            ),
            None => (store, st),
        }
    } else if property_line(line) is Some {
        (flush(store, st), LineState { profile: st.profile, pending: property_line(line) })
    } else {
        (store, st)
    }
}

/// The store and state after the lines, one after the other.
pub open spec fn run(g: Grammar, store: Map<Seq<char>, Map<Seq<char>, Seq<char>>>, lines: Seq<
    Seq<char>,
>) -> (Map<Seq<char>, Map<Seq<char>, Seq<char>>>, LineState)
    decreases lines.len(),
{
    if lines.len() == 0 {
        (store, start_state())
    } else {
        let r = run(g, store, lines.drop_last());
        step(g, r.0, r.1, lines.last())
    }
}

/// The store after a whole file, the last pending pair saved.
pub open spec fn parse_lines(g: Grammar, store: Map<Seq<char>, Map<Seq<char>, Seq<char>>>, lines: Seq<
    Seq<char>,
>) -> Map<Seq<char>, Map<Seq<char>, Seq<char>>> {
    let r = run(g, store, lines);
    flush(r.0, r.1)
}

/// The lines of a file as sequences of characters.
pub open spec fn lines_view(lines: Seq<String>) -> Seq<Seq<char>> {
    lines.map_values(|l: String| l@)
}

/// Reads a header line with the grammar of `g`.
pub fn extract_header(g: Grammar, line: &str) -> (r: Option<Result<&str, ()>>)
    ensures
        header_view(r) == header_of(g, line@),
{
    match g {
        Grammar::Credentials => extract_profile(line),
        Grammar::Config => extract_profile_with_profile_prefix(line),
    }
}

/// Profile name -> property key -> value, filled from the credentials file
/// and then from the config file.
pub struct Config {
    profiles: Vec<(String, Properties)>,
}

impl View for Config {
    type V = Map<Seq<char>, Map<Seq<char>, Seq<char>>>;

    closed spec fn view(&self) -> Self::V {
        assoc(self.pairs())
    }
}

impl Config {
    pub closed spec fn pairs(&self) -> Seq<(Seq<char>, Map<Seq<char>, Seq<char>>)> {
        self.profiles@.map_values(|p: (String, Properties)| (p.0@, p.1@))
    }

    pub closed spec fn wf(&self) -> bool {
        &&& distinct_keys(self.pairs())
        &&& forall|i: int| 0 <= i < self.profiles@.len() ==> (#[trigger] self.profiles@[i]).1.wf()
    }

    /// An empty store.
    pub fn new() -> (r: Config)
        ensures
            r.wf(),
            r@ == Map::<Seq<char>, Map<Seq<char>, Seq<char>>>::empty(),
    {
        let r = Config { profiles: Vec::new() };
        assert(r.pairs() =~= Seq::<(Seq<char>, Map<Seq<char>, Seq<char>>)>::empty());
        r
    }

    fn find_profile(&self, name: &str) -> (r: Option<usize>)
        requires
            self.wf(),
        ensures
            r is Some <==> self@.contains_key(name@),
            r matches Some(i) ==> i < self.pairs().len() && self.pairs()[i as int].0 == name@,
    {
        let mut i: usize = 0;
        while i < self.profiles.len()
            invariant
                i <= self.profiles@.len(),
                forall|j: int| 0 <= j < i ==> self.pairs()[j].0 != name@,
            decreases self.profiles@.len() - i,
        {
            if str_equal(self.profiles[i].0.as_str(), name) {
                assert(self.pairs()[i as int].0 == name@);
                proof {
                    lemma_assoc_contains(self.pairs(), name@);
                }
                return Some(i);
            }
            i = i + 1;
        }
        proof {
            lemma_assoc_contains(self.pairs(), name@);
        }
        None
    }

    /// Saves a key/value pair under a profile, when all three are given and
    /// the key has no value there yet.
    pub fn add_property_if_any(
        &mut self,
        profile: &Option<String>,
        key: Option<String>,
        value: Option<String>,
    )
        requires
            old(self).wf(),
        ensures
            final(self).wf(),
            final(self)@ == (match (profile, key, value) {
                (Some(p), Some(k), Some(v)) => add_property(old(self)@, p@, k@, v@),
                _ => old(self)@,
            }),
    {
        if let Some(p) = profile {
            if let (Some(k), Some(v)) = (key, value) {
                let ghost s = self.pairs();
                match self.find_profile(p.as_str()) {
                    Some(i) => {
                        proof {
                            lemma_assoc_index(s, i as int);
                            lemma_assoc_remove(s, i as int);
                        }
                        let mut entry = self.profiles.remove(i);
                        assert(self.pairs() =~= s.remove(i as int));
                        assert(entry.1.wf());
                        entry.1.insert_if_absent(k, v);
                        let ghost mid = self.pairs();
                        self.profiles.push(entry);
                        assert(self.pairs() =~= mid.push((p@, entry.1@)));
                        assert(self.pairs().drop_last() =~= mid);
                        proof {
                            lemma_assoc_contains(s.remove(i as int), p@);
                            assert forall|a: int, b: int|
                                0 <= a < b < self.pairs().len() implies self.pairs()[a].0
                                != self.pairs()[b].0 by {
                                if b == self.pairs().len() - 1 {
                                    assert(mid[a].0 == self.pairs()[a].0);
                                }
                            }
                            assert(self@ =~= add_property(assoc(s), p@, k@, v@));
                        }
                    },
                    None => {
                        let mut props = Properties::new();
                        props.insert_if_absent(k, v);
                        proof {
                            lemma_assoc_contains(s, p@);
                        }
                        self.profiles.push((p.clone(), props));
                        assert(self.pairs() =~= s.push((p@, props@)));
                        assert(self.pairs().drop_last() =~= s);
                        assert(self@ =~= add_property(assoc(s), p@, k@, v@));
                    },
                }
            }
        }
    }

    /// Takes the properties of a profile out of the store.
    pub fn remove_profile(&mut self, profile: &str) -> (r: Option<Properties>)
        requires
            old(self).wf(),
        ensures
            final(self).wf(),
            final(self)@ == old(self)@.remove(profile@),
            r is Some <==> old(self)@.contains_key(profile@),
            r matches Some(props) ==> props.wf() && props@ == old(self)@[profile@],
    {
        match self.find_profile(profile) {
            Some(i) => {
                let ghost s = self.pairs();
                proof {
                    lemma_assoc_index(s, i as int);
                    lemma_assoc_remove(s, i as int);
                }
                let entry = self.profiles.remove(i);
                assert(self.pairs() =~= s.remove(i as int));
                Some(entry.1)
            },
            None => {
                assert(self@.remove(profile@) =~= self@);
                None
            },
        }
    }

    /// Reads the lines of a credentials file into the store.
    pub fn parse_credentials(&mut self, lines: &Vec<String>)
        requires
            old(self).wf(),
        ensures
            final(self).wf(),
            final(self)@ == parse_lines(Grammar::Credentials, old(self)@, lines_view(lines@)),
    {
        self.parse_internal(lines, Grammar::Credentials)
    }

    /// Reads the lines of a config file into the store.
    pub fn parse_config(&mut self, lines: &Vec<String>)
        requires
            old(self).wf(),
        ensures
            final(self).wf(),
            final(self)@ == parse_lines(Grammar::Config, old(self)@, lines_view(lines@)),
    {
        self.parse_internal(lines, Grammar::Config)
    }

    /// Reads the lines of a file into the store: comments and blank lines are
    /// skipped, a header opens a profile (a malformed one closes it until the
    /// next valid header), key/value pairs are saved under the open profile,
    /// and continuation lines extend the last value.
    pub fn parse_internal(&mut self, lines: &Vec<String>, grammar: Grammar)
        requires
            old(self).wf(),
        ensures
            final(self).wf(),
            final(self)@ == parse_lines(grammar, old(self)@, lines_view(lines@)),
    {
        let ghost store0 = self@;
        let mut current_profile: Option<String> = None;
        let mut current_key: Option<String> = None;
        let mut current_value: Option<String> = None;
        let mut i: usize = 0;
        assert(lines_view(lines@).subrange(0, 0) =~= Seq::<Seq<char>>::empty());
        while i < lines.len()
            invariant
                self.wf(),
                i <= lines@.len(),
                current_key is Some == current_value is Some,
                current_profile is None ==> current_key is None,
                run(grammar, store0, lines_view(lines@).subrange(0, i as int)) == (
                self@,
                LineState {
                    profile: match current_profile {
                        Some(p) => Some(p@),
                        None => None,
                    },
                    pending: match (current_key, current_value) {
                        (Some(k), Some(v)) => Some((k@, v@)),
                        _ => None,
                    },
                },
            ),
            decreases lines@.len() - i,
        {
            let ghost before = lines_view(lines@).subrange(0, i as int);
            let ghost st = run(grammar, store0, before).1;
            let line = lines[i].as_str();
            assert(lines_view(lines@).subrange(0, i + 1).drop_last() =~= before);
            assert(lines_view(lines@).subrange(0, i + 1).last() == line@);
            if is_comment_or_empty(line) {
            } else if let Some(header) = extract_header(grammar, line) {
                self.add_property_if_any(&current_profile, current_key.take(), current_value.take());
                match header {
                    Ok(name) => {
                        current_profile = Some(name.to_owned());
                    },
                    Err(()) => {
                        current_profile = None;
                    },
                }
            } else if current_profile.is_none() {
            } else if let Some(continuation) = extract_continuation(line) {
                if current_value.is_some() {
                    let mut value = current_value.take().unwrap();
                    value.append(continuation);
                    current_value = Some(value);
                }
            } else if let Some((key, value)) = extract_property(line) {
                self.add_property_if_any(&current_profile, current_key.take(), current_value.take());
                current_key = Some(key.to_owned());
                current_value = Some(value.to_owned());
            }
            i = i + 1;
        }
        assert(lines_view(lines@).subrange(0, lines@.len() as int) =~= lines_view(lines@));
        self.add_property_if_any(&current_profile, current_key.take(), current_value.take());
    }
}

/// A comment or blank line changes neither the store nor the parser's state.
pub proof fn lemma_comment_line_changes_nothing(
    g: Grammar,
    store: Map<Seq<char>, Map<Seq<char>, Seq<char>>>,
    st: LineState,
    line: Seq<char>,
)
    requires
        comment_or_empty(line),
    ensures
        step(g, store, st, line) == (store, st),
{
}

/// A continuation line appends its trimmed content to the pending value,
/// with nothing in between, and leaves the store as it is.
pub proof fn lemma_continuation_appends(
    g: Grammar,
    store: Map<Seq<char>, Map<Seq<char>, Seq<char>>>,
    profile: Seq<char>,
    key: Seq<char>,
    value: Seq<char>,
    line: Seq<char>,
)
    requires
        continuation_line(line) is Some,
        !comment_or_empty(line),
    ensures
        step(g, store, LineState { profile: Some(profile), pending: Some((key, value)) }, line) == (
        store,
        LineState { profile: Some(profile), pending: Some((key, value + trim(line))) },
    ),
{
    assert(!starts_header(line));
}

/// After a malformed header no profile is open: the lines up to the next
/// header are attributed to no profile and leave the store as the header
/// left it.
pub proof fn lemma_malformed_header_recovery(
    g: Grammar,
    store: Map<Seq<char>, Map<Seq<char>, Seq<char>>>,
    before: Seq<Seq<char>>,
    header: Seq<char>,
    after: Seq<Seq<char>>,
)
    requires
        header_of(g, header) == Some(Err::<Seq<char>, ()>(())),
        !comment_or_empty(header),
        forall|i: int| 0 <= i < after.len() ==> header_of(g, #[trigger] after[i]) is None,
    ensures
        run(g, store, before.push(header) + after) == (
            flush(run(g, store, before).0, run(g, store, before).1),
            start_state(),
        ),
    decreases after.len(),
{
    if after.len() == 0 {
        assert(before.push(header) + after =~= before.push(header));
        assert(before.push(header).drop_last() =~= before);
    } else {
        let shorter = after.drop_last();
        assert forall|i: int| 0 <= i < shorter.len() implies header_of(g, #[trigger] shorter[i]) is None by {
            assert(shorter[i] == after[i]);
        }
        lemma_malformed_header_recovery(g, store, before, header, shorter);
        assert((before.push(header) + after).drop_last() =~= before.push(header) + shorter);
        assert((before.push(header) + after).last() == after.last());
        assert(header_of(g, after[after.len() - 1]) is None);
    }
}

/// A valid header opens its profile with nothing pending, after saving the
/// pair that was pending.
pub proof fn lemma_valid_header_opens_profile(
    g: Grammar,
    store: Map<Seq<char>, Map<Seq<char>, Seq<char>>>,
    st: LineState,
    line: Seq<char>,
    name: Seq<char>,
)
    requires
        header_of(g, line) == Some(Ok::<Seq<char>, ()>(name)),
        !comment_or_empty(line),
    ensures
        step(g, store, st, line) == (flush(store, st), LineState { profile: Some(name), pending: None }),
{
}

/// A file without lines leaves the store as it is.
pub proof fn lemma_parse_no_lines(g: Grammar, store: Map<Seq<char>, Map<Seq<char>, Seq<char>>>)
    ensures
        parse_lines(g, store, Seq::empty()) == store,
{
}

/// `first` laid over `second`: a profile of either, with the keys of both;
/// where both give a key a value, the value of `first`.
pub open spec fn shadow(
    first: Map<Seq<char>, Map<Seq<char>, Seq<char>>>,
    second: Map<Seq<char>, Map<Seq<char>, Seq<char>>>,
) -> Map<Seq<char>, Map<Seq<char>, Seq<char>>> {
    Map::new(
        |p: Seq<char>| first.contains_key(p) || second.contains_key(p),
        |p: Seq<char>|
            if !first.contains_key(p) {
                second[p]
            } else if !second.contains_key(p) {
                first[p]
            } else {
                second[p].union_prefer_right(first[p])
            },
    )
}

proof fn lemma_shadow_empty(s: Map<Seq<char>, Map<Seq<char>, Seq<char>>>)
    ensures
        shadow(s, Map::empty()) == s,
{
    assert(shadow(s, Map::empty()) =~= s);
}

proof fn lemma_add_property_shadow(
    s: Map<Seq<char>, Map<Seq<char>, Seq<char>>>,
    x: Map<Seq<char>, Map<Seq<char>, Seq<char>>>,
    p: Seq<char>,
    k: Seq<char>,
    v: Seq<char>,
)
    ensures
        add_property(shadow(s, x), p, k, v) == shadow(s, add_property(x, p, k, v)),
{
    let lhs = add_property(shadow(s, x), p, k, v);
    let rhs = shadow(s, add_property(x, p, k, v));
    assert(lhs.dom() =~= rhs.dom());
    assert forall|q: Seq<char>| lhs.contains_key(q) implies lhs[q] == rhs[q] by {
        if q == p {
            assert(lhs[q] =~= rhs[q]);
        }
    }
    assert(lhs =~= rhs);
}

proof fn lemma_flush_shadow(
    s: Map<Seq<char>, Map<Seq<char>, Seq<char>>>,
    x: Map<Seq<char>, Map<Seq<char>, Seq<char>>>,
    st: LineState,
)
    ensures
        flush(shadow(s, x), st) == shadow(s, flush(x, st)),
{
    if let (Some(p), Some((k, v))) = (st.profile, st.pending) {
        lemma_add_property_shadow(s, x, p, k, v);
    }
}

proof fn lemma_run_shadow(
    g: Grammar,
    s: Map<Seq<char>, Map<Seq<char>, Seq<char>>>,
    lines: Seq<Seq<char>>,
)
    ensures
        run(g, s, lines).0 == shadow(s, run(g, Map::empty(), lines).0),
        run(g, s, lines).1 == run(g, Map::empty(), lines).1,
    decreases lines.len(),
{
    if lines.len() == 0 {
        lemma_shadow_empty(s);
    } else {
        lemma_run_shadow(g, s, lines.drop_last());
        let r = run(g, Map::empty(), lines.drop_last());
        lemma_flush_shadow(s, r.0, r.1);
    }
}

/// Reading a file into a store is laying the store over what the file
/// alone gives.
pub proof fn lemma_parse_shadows(
    g: Grammar,
    s: Map<Seq<char>, Map<Seq<char>, Seq<char>>>,
    lines: Seq<Seq<char>>,
)
    ensures
        parse_lines(g, s, lines) == shadow(s, parse_lines(g, Map::empty(), lines)),
{
    lemma_run_shadow(g, s, lines);
    let r = run(g, Map::empty(), lines);
    lemma_flush_shadow(s, r.0, r.1);
}

} // verus!
