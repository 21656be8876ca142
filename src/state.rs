//! The persisted state: for each hostname, the last IP address that the
//! provider confirmed as applied.

use vstd::prelude::*;

verus! {

/// The pairs of a list of string pairs, as sequences of characters.
pub open spec fn pairs_view(v: Seq<(String, String)>) -> Seq<(Seq<char>, Seq<char>)> {
    v.map_values(|p: (String, String)| (p.0@, p.1@))
}

/// The mapping that a list of pairs describes, read in order: a later pair for a
/// key replaces an earlier one.
pub open spec fn map_of_pairs(s: Seq<(Seq<char>, Seq<char>)>) -> Map<Seq<char>, Seq<char>>
    decreases s.len(),
{
    if s.len() == 0 {
        Map::empty()
    } else {
        map_of_pairs(s.drop_last()).insert(s.last().0, s.last().1)
    }
}

/// No key occurs twice in the list.
pub open spec fn keys_distinct(s: Seq<(Seq<char>, Seq<char>)>) -> bool {
    forall|i: int, j: int| 0 <= i < j < s.len() ==> #[trigger] s[i].0 != #[trigger] s[j].0
}

/// What `serde_json` reads from a text as a JSON object whose values are all
/// strings, as its pairs in ascending key order; `None` where the text is not one.
pub uninterp spec fn parsed_string_map(text: Seq<char>) -> Option<Seq<(Seq<char>, Seq<char>)>>;

/// The pretty-printed JSON object that `serde_json` writes for a mapping given
/// by its pairs.
pub uninterp spec fn pretty_json_of_map(pairs: Seq<(Seq<char>, Seq<char>)>) -> Seq<char>;

/// The mapping that a persisted-state text stands for: `None` (no text could be
/// read) and a text that is not a JSON object of strings both stand for the
/// empty mapping.
pub open spec fn state_of_text(text: Option<Seq<char>>) -> Map<Seq<char>, Seq<char>> {
    match text {
        None => Map::empty(),
        Some(t) => match parsed_string_map(t) {
            None => Map::empty(),
            Some(p) => map_of_pairs(p),
        },
    }
}

/// Relies on `serde_json::from_str` into a `BTreeMap<String, String>`: the
/// result depends on the text alone; the map's pairs are handed out in key order.
#[verifier::external_body]
fn parse_string_map(text: &str) -> (r: Option<Vec<(String, String)>>)
    ensures
        match r {
            Some(v) => parsed_string_map(text@) == Some(pairs_view(v@)),
            None => parsed_string_map(text@) is None,
        },
{
    serde_json::from_str::<std::collections::BTreeMap<String, String>>(text).ok().map(
        |m| m.into_iter().collect(),
    )
}

/// Relies on `serde_json::to_string_pretty` of a `BTreeMap<String, String>`:
/// the text depends on the pairs alone, and it is always produced, since
/// serialising fails only for a failing `Serialize` impl or a non-string map key.
#[verifier::external_body]
fn pretty_string_map(pairs: &Vec<(String, String)>) -> (r: Option<String>)
    ensures
        r is Some,
        r matches Some(t) ==> t@ == pretty_json_of_map(pairs_view(pairs@)),
{
    let m: std::collections::BTreeMap<String, String> = pairs.iter().cloned().collect();
    serde_json::to_string_pretty(&m).ok()
}

/// A key is in the mapping of a list exactly when some pair of the list has it.
pub proof fn lemma_map_of_pairs_dom(s: Seq<(Seq<char>, Seq<char>)>, k: Seq<char>)
    ensures
        map_of_pairs(s).contains_key(k) <==> exists|i: int| 0 <= i < s.len() && #[trigger] s[i].0 == k,
    decreases s.len(),
{
    if s.len() > 0 {
        let t = s.drop_last();
        lemma_map_of_pairs_dom(t, k);
        if map_of_pairs(s).contains_key(k) {
            if k == s.last().0 {
                assert(s[s.len() - 1].0 == k);
            } else {
                let i = choose|i: int| 0 <= i < t.len() && #[trigger] t[i].0 == k;
                assert(s[i].0 == k);
            }
        }
        if exists|i: int| 0 <= i < s.len() && #[trigger] s[i].0 == k {
            let i = choose|i: int| 0 <= i < s.len() && #[trigger] s[i].0 == k;
            if i < s.len() - 1 {
                assert(t[i].0 == k);
            }
        }
    }
}

/// In a list without repeated keys, each pair gives the value of its key.
pub proof fn lemma_map_of_pairs_value(s: Seq<(Seq<char>, Seq<char>)>, i: int)
    requires
        keys_distinct(s),
        0 <= i < s.len(),
    ensures
        map_of_pairs(s).contains_key(s[i].0),
        map_of_pairs(s)[s[i].0] == s[i].1,
    decreases s.len(),
{
    let t = s.drop_last();
    if i < s.len() - 1 {
        assert(keys_distinct(t)) by {
            assert forall|a: int, b: int| 0 <= a < b < t.len() implies #[trigger] t[a].0
                != #[trigger] t[b].0 by {
                assert(s[a].0 != s[b].0);
            }
        }
        lemma_map_of_pairs_value(t, i);
        assert(s[i].0 != s[s.len() - 1].0);
    }
}

/// Replacing the value of a pair in a list without repeated keys replaces that
/// value in the mapping.
proof fn lemma_map_of_pairs_update(s: Seq<(Seq<char>, Seq<char>)>, i: int, v: Seq<char>)
    requires
        keys_distinct(s),
        0 <= i < s.len(),
    ensures
        keys_distinct(s.update(i, (s[i].0, v))),
        map_of_pairs(s.update(i, (s[i].0, v))) == map_of_pairs(s).insert(s[i].0, v),
{
    let u = s.update(i, (s[i].0, v));
    assert(keys_distinct(u)) by {
        assert forall|a: int, b: int| 0 <= a < b < u.len() implies #[trigger] u[a].0
            != #[trigger] u[b].0 by {
            assert(u[a].0 == s[a].0 && u[b].0 == s[b].0);
        }
    }
    let m1 = map_of_pairs(u);
    let m2 = map_of_pairs(s).insert(s[i].0, v);
    assert forall|k: Seq<char>| m1.contains_key(k) <==> m2.contains_key(k) by {
        lemma_map_of_pairs_dom(u, k);
        lemma_map_of_pairs_dom(s, k);
        if exists|j: int| 0 <= j < s.len() && #[trigger] s[j].0 == k {
            let j = choose|j: int| 0 <= j < s.len() && #[trigger] s[j].0 == k;
            assert(u[j].0 == k);
        }
        if exists|j: int| 0 <= j < u.len() && #[trigger] u[j].0 == k {
            let j = choose|j: int| 0 <= j < u.len() && #[trigger] u[j].0 == k;
            assert(s[j].0 == k);
        }
    }
    assert forall|k: Seq<char>| m1.contains_key(k) implies m1[k] == m2[k] by {
        lemma_map_of_pairs_dom(u, k);
        let j = choose|j: int| 0 <= j < u.len() && #[trigger] u[j].0 == k;
        lemma_map_of_pairs_value(u, j);
        if j != i {
            lemma_map_of_pairs_value(s, j);
        }
    }
    assert(m1 =~= m2);
}

/// The last IP address applied for each hostname, with at most one entry per
/// hostname.
pub struct IpState {
    entries: Vec<(String, String)>,
}

impl View for IpState {
    type V = Map<Seq<char>, Seq<char>>;

    closed spec fn view(&self) -> Map<Seq<char>, Seq<char>> {
        map_of_pairs(self.pairs())
    }
}

impl IpState {
    /// The entries, in the order in which they are kept.
    pub closed spec fn pairs(&self) -> Seq<(Seq<char>, Seq<char>)> {
        pairs_view(self.entries@)
    }

    /// The entries name each hostname at most once.
    pub closed spec fn wf(&self) -> bool {
        keys_distinct(pairs_view(self.entries@))
    }

    /// The empty mapping: no hostname has a last-known IP.
    pub fn new() -> (r: IpState)
        ensures
            r.wf(),
            r@ == Map::<Seq<char>, Seq<char>>::empty(),
    {
        let r = IpState { entries: Vec::new() };
        assert(pairs_view(r.entries@) =~= Seq::empty());
        r
    }

    /// The last IP applied for `hostname`, if any.
    pub fn get(&self, hostname: &str) -> (r: Option<String>)
        requires
            self.wf(),
        ensures
            match r {
                Some(ip) => self@.contains_key(hostname@) && self@[hostname@] == ip@,
                None => !self@.contains_key(hostname@),
            },
    {
        let ghost s = pairs_view(self.entries@);
        let key = String::from_str(hostname);
        let mut i: usize = 0;
        while i < self.entries.len()
            invariant
                0 <= i <= self.entries.len(),
                s == pairs_view(self.entries@),
                keys_distinct(s),
                key@ == hostname@,
                forall|j: int| 0 <= j < i ==> #[trigger] s[j].0 != hostname@,
            decreases self.entries.len() - i,
        {
            assert(s[i as int] == (self.entries@[i as int].0@, self.entries@[i as int].1@));
            if self.entries[i].0 == key {
                proof {
                    lemma_map_of_pairs_value(s, i as int);
                }
                return Some(self.entries[i].1.clone());
            }
            i = i + 1;
        }
        proof {
            lemma_map_of_pairs_dom(s, hostname@);
        }
        None
    }

    /// Records `ip` as the last IP applied for `hostname`.
    pub fn set(&mut self, hostname: &str, ip: &str)
        requires
            old(self).wf(),
        ensures
            final(self).wf(),
            final(self)@ == old(self)@.insert(hostname@, ip@),
    {
        let ghost s = pairs_view(self.entries@);
        let key = String::from_str(hostname);
        let mut i: usize = 0;
        while i < self.entries.len()
            invariant
                0 <= i <= self.entries.len(),
                s == pairs_view(self.entries@),
                self.entries@ == old(self).entries@,
                keys_distinct(s),
                key@ == hostname@,
                forall|j: int| 0 <= j < i ==> #[trigger] s[j].0 != hostname@,
            decreases self.entries.len() - i,
        {
            assert(s[i as int] == (self.entries@[i as int].0@, self.entries@[i as int].1@));
            if self.entries[i].0 == key {
                self.entries.set(i, (key, String::from_str(ip)));
                proof {
                    lemma_map_of_pairs_update(s, i as int, ip@);
                    assert(pairs_view(self.entries@) =~= s.update(i as int, (s[i as int].0, ip@)));
                }
                return;
            }
            i = i + 1;
        }
        self.entries.push((key, String::from_str(ip)));
        proof {
            let t = pairs_view(self.entries@);
            assert(t =~= s.push((hostname@, ip@)));
            assert(t.drop_last() =~= s);
            assert(keys_distinct(t)) by {
                assert forall|a: int, b: int| 0 <= a < b < t.len() implies #[trigger] t[a].0
                    != #[trigger] t[b].0 by {
                    if b < s.len() {
                        assert(t[a] == s[a] && t[b] == s[b]);
                    } else {
                        assert(t[a] == s[a]);
                    }
                }
            }
        }
    }

    /// The entries, one per hostname.
    pub fn entries(&self) -> (r: &Vec<(String, String)>)
        requires
            self.wf(),
        ensures
            pairs_view(r@) == self.pairs(),
            keys_distinct(self.pairs()),
            map_of_pairs(self.pairs()) == self@,
    {
        &self.entries
    }

    /// The mapping that a list of pairs describes; a later pair for a hostname
    /// replaces an earlier one.
    pub fn from_pairs(pairs: Vec<(String, String)>) -> (r: IpState)
        ensures
            r.wf(),
            r@ == map_of_pairs(pairs_view(pairs@)),
    {
        let mut r = IpState::new();
        let mut i: usize = 0;
        while i < pairs.len()
            invariant
                0 <= i <= pairs.len(),
                r.wf(),
                r@ == map_of_pairs(pairs_view(pairs@).take(i as int)),
            decreases pairs.len() - i,
        {
            r.set(pairs[i].0.as_str(), pairs[i].1.as_str());
            proof {
                let s = pairs_view(pairs@);
                assert(s.take(i + 1).drop_last() =~= s.take(i as int));
            }
            i = i + 1;
        }
        proof {
            assert(pairs_view(pairs@).take(pairs@.len() as int) =~= pairs_view(pairs@));
        }
        r
    }

    /// The state that a persisted text holds; a text that is not a JSON object
    /// of strings gives the empty mapping.
    pub fn parse(text: &str) -> (r: IpState)
        ensures
            r.wf(),
            r@ == state_of_text(Some(text@)),
    {
        match parse_string_map(text) {
            Some(pairs) => IpState::from_pairs(pairs),
            None => IpState::new(),
        }
    }

    /// The state at startup, from the persisted text if it could be read: a
    /// missing or invalid text gives the empty mapping.
    pub fn load(text: Option<String>) -> (r: IpState)
        ensures
            r.wf(),
            r@ == state_of_text(
                match text {
                    Some(t) => Some(t@),
                    None => None,
                },
            ),
    {
        match text {
            Some(t) => IpState::parse(t.as_str()),
            None => IpState::new(),
        }
    }

    /// The state as pretty-printed JSON text, for writing back to storage;
    /// the text is always produced.
    pub fn render(&self) -> (r: Option<String>)
        requires
            self.wf(),
        ensures
            r is Some,
            r matches Some(t) ==> t@ == pretty_json_of_map(self.pairs()),
    {
        pretty_string_map(&self.entries)
    }
}

} // verus!
