//! The per-session token ledger: each session's four raw usage components (plus a legacy
//! carryover), folded from transcript lines and merged prune-proof with the stored ledger.
//! The single total the pet runs on is derived at read time by a counting mode.

use vstd::prelude::*;

use crate::mode::{clamp_u64, weight_spec, CountMode};

verus! {

/// One session's raw usage, kept un-collapsed so any counting mode can weight it later.
#[derive(Clone, Copy, PartialEq, Eq, Debug, Default, Structural)]
pub struct Comp {
    pub input: u64,
    pub output: u64,
    pub cache_creation: u64,
    pub cache_read: u64,
    /// Flat total carried over from the older one-number-per-session schema; Raw only.
    pub legacy: u64,
}

/// The all-zero components.
pub open spec fn zero_comp() -> Comp {
    Comp { input: 0, output: 0, cache_creation: 0, cache_read: 0, legacy: 0 }
}

/// The map from session id to components that a list of (id, components) pairs describes,
/// later pairs overriding earlier ones.
pub open spec fn pairs_map(s: Seq<(String, Comp)>) -> Map<Seq<char>, Comp>
    decreases s.len(),
{
    if s.len() == 0 {
        Map::empty()
    } else {
        pairs_map(s.drop_last()).insert(s.last().0@, s.last().1)
    }
}

/// No two pairs share a session id.
pub open spec fn ids_unique(s: Seq<(String, Comp)>) -> bool {
    forall|i: int, j: int| 0 <= i < j < s.len() ==> s[i].0@ != s[j].0@
}

/// With unique ids, the map holds exactly the listed ids, each with its listed components.
pub proof fn lemma_pairs_map(s: Seq<(String, Comp)>)
    requires
        ids_unique(s),
    ensures
        forall|j: int|
            0 <= j < s.len() ==> #[trigger] pairs_map(s).contains_key(s[j].0@) && pairs_map(s)[s[j].0@]
                == s[j].1,
        forall|k: Seq<char>|
            #[trigger] pairs_map(s).contains_key(k) ==> exists|j: int| 0 <= j < s.len() && s[j].0@ == k,
        pairs_map(s).dom().finite(),
        pairs_map(s).dom().len() == s.len(),
    decreases s.len(),
{
    if s.len() > 0 {
        let t = s.drop_last();
        assert(ids_unique(t));
        lemma_pairs_map(t);
        let m = pairs_map(t);
        assert(!m.contains_key(s.last().0@)) by {
            if m.contains_key(s.last().0@) {
                let j = choose|j: int| 0 <= j < t.len() && t[j].0@ == s.last().0@;
                assert(s[j].0@ == s[s.len() - 1].0@);
            }
        }
        assert forall|k: Seq<char>| #[trigger] pairs_map(s).contains_key(k) implies exists|j: int|
            0 <= j < s.len() && s[j].0@ == k by {
            if k != s.last().0@ {
                let j = choose|j: int| 0 <= j < t.len() && t[j].0@ == k;
                assert(s[j].0@ == k);
            } else {
                assert(s[s.len() - 1].0@ == k);
            }
        }
        assert forall|j: int| 0 <= j < s.len() implies #[trigger] pairs_map(s).contains_key(
            s[j].0@,
        ) && pairs_map(s)[s[j].0@] == s[j].1 by {
            if j < s.len() - 1 {
                assert(s[j] == t[j]);
                assert(t[j].0@ != s.last().0@);
                assert(m.contains_key(t[j].0@) && m[t[j].0@] == t[j].1);
            }
        }
    }
}

/// The sum, over the sessions in `ks`, of their weight in `m` under `mode`.
pub open spec fn weight_sum_over(m: Map<Seq<char>, Comp>, ks: Set<Seq<char>>, mode: CountMode) -> int {
    ks.fold(0int, |acc: int, k: Seq<char>| acc + weight_spec(mode, m[k]) as int)
}

/// The sum of every session's weight under `mode` (exact, without saturation).
pub open spec fn weight_sum(m: Map<Seq<char>, Comp>, mode: CountMode) -> int {
    weight_sum_over(m, m.dom(), mode)
}

proof fn lemma_weight_step_commutes(m: Map<Seq<char>, Comp>, mode: CountMode)
    ensures
        vstd::set::fold::is_fun_commutative(
            |acc: int, k: Seq<char>| acc + weight_spec(mode, m[k]) as int,
        ),
{
}

/// Adding one more session to the summed set adds its weight.
pub proof fn lemma_weight_sum_insert(
    m: Map<Seq<char>, Comp>,
    ks: Set<Seq<char>>,
    k: Seq<char>,
    mode: CountMode,
)
    requires
        ks.finite(),
        !ks.contains(k),
    ensures
        weight_sum_over(m, ks.insert(k), mode) == weight_sum_over(m, ks, mode) + weight_spec(
            mode,
            m[k],
        ),
{
    lemma_weight_step_commutes(m, mode);
    vstd::set::fold::lemma_fold_insert(
        ks,
        0int,
        |acc: int, k: Seq<char>| acc + weight_spec(mode, m[k]) as int,
        k,
    );
}

/// The empty set of sessions sums to zero.
pub proof fn lemma_weight_sum_empty(m: Map<Seq<char>, Comp>, mode: CountMode)
    ensures
        weight_sum_over(m, Set::empty(), mode) == 0,
{
    vstd::set::fold::lemma_fold_empty(0int, |acc: int, k: Seq<char>| acc + weight_spec(mode, m[k]) as int);
}

/// Sums of weights are never negative.
pub proof fn lemma_weight_sum_nonneg(m: Map<Seq<char>, Comp>, ks: Set<Seq<char>>, mode: CountMode)
    requires
        ks.finite(),
    ensures
        weight_sum_over(m, ks, mode) >= 0,
    decreases ks.len(),
{
    if ks.len() == 0 {
        assert(ks =~= Set::empty());
        lemma_weight_sum_empty(m, mode);
    } else {
        let k = ks.choose();
        lemma_weight_sum_nonneg(m, ks.remove(k), mode);
        lemma_weight_sum_insert(m, ks.remove(k), k, mode);
        assert(ks.remove(k).insert(k) =~= ks);
    }
}

/// Only the sessions summed over matter: maps that agree on `ks` give the same sum.
pub proof fn lemma_weight_sum_agree(
    m1: Map<Seq<char>, Comp>,
    m2: Map<Seq<char>, Comp>,
    ks: Set<Seq<char>>,
    mode: CountMode,
)
    requires
        ks.finite(),
        forall|k: Seq<char>| ks.contains(k) ==> m1[k] == m2[k],
    ensures
        weight_sum_over(m1, ks, mode) == weight_sum_over(m2, ks, mode),
    decreases ks.len(),
{
    if ks.len() == 0 {
        assert(ks =~= Set::empty());
        lemma_weight_sum_empty(m1, mode);
        lemma_weight_sum_empty(m2, mode);
    } else {
        let k = ks.choose();
        lemma_weight_sum_agree(m1, m2, ks.remove(k), mode);
        lemma_weight_sum_insert(m1, ks.remove(k), k, mode);
        lemma_weight_sum_insert(m2, ks.remove(k), k, mode);
        assert(ks.remove(k).insert(k) =~= ks);
    }
}

/// Overwriting the pair that holds `sid` keeps ids unique and updates the map at `sid`.
proof fn lemma_pairs_update(old_pairs: Seq<(String, Comp)>, i: int, sid: String, comp: Comp)
    requires
        ids_unique(old_pairs),
        0 <= i < old_pairs.len(),
        old_pairs[i].0@ == sid@,
    ensures
        ids_unique(old_pairs.update(i, (sid, comp))),
        pairs_map(old_pairs.update(i, (sid, comp))) == pairs_map(old_pairs).insert(sid@, comp),
{
    let new_pairs = old_pairs.update(i, (sid, comp));
    assert forall|a: int, b: int| 0 <= a < b < new_pairs.len() implies new_pairs[a].0@
        != new_pairs[b].0@ by {
        if a == i {
            assert(old_pairs[a].0@ == sid@);
        } else if b == i {
            assert(old_pairs[b].0@ == sid@);
        }
    }
    lemma_pairs_map(new_pairs);
    lemma_pairs_map(old_pairs);
    let m_new = pairs_map(new_pairs);
    let m_exp = pairs_map(old_pairs).insert(sid@, comp);
    assert forall|k: Seq<char>| #[trigger] m_new.contains_key(k) implies m_exp.contains_key(k) by {
        let j = choose|j: int| 0 <= j < new_pairs.len() && new_pairs[j].0@ == k;
        if j != i {
            assert(new_pairs[j] == old_pairs[j]);
        }
    }
    assert forall|k: Seq<char>| #[trigger] m_exp.contains_key(k) implies m_new.contains_key(k)
        && m_new[k] == m_exp[k] by {
        if k == sid@ {
            assert(new_pairs[i].0@ == k);
        } else {
            let j = choose|j: int| 0 <= j < old_pairs.len() && old_pairs[j].0@ == k;
            assert(j != i);
            assert(new_pairs[j] == old_pairs[j]);
        }
    }
    assert(m_new =~= m_exp);
}

/// Session id → components. Each session id occurs once.
pub struct Ledger {
    pairs: Vec<(String, Comp)>,
}

impl View for Ledger {
    type V = Map<Seq<char>, Comp>;

    closed spec fn view(&self) -> Map<Seq<char>, Comp> {
        pairs_map(self.pairs@)
    }
}

impl Ledger {
    #[verifier::type_invariant]
    closed spec fn inv(self) -> bool {
        ids_unique(self.pairs@)
    }

    /// The pairs in storage order.
    pub closed spec fn pairs_spec(&self) -> Seq<(String, Comp)> {
        self.pairs@
    }

    /// The empty ledger.
    pub fn new() -> (l: Ledger)
        ensures
            l@ == Map::<Seq<char>, Comp>::empty(),
    {
        Ledger { pairs: Vec::new() }
    }

    /// The number of sessions.
    pub fn len(&self) -> (n: usize)
        ensures
            self@.dom().finite(),
            n == self@.dom().len(),
    {
        proof {
            use_type_invariant(self);
            lemma_pairs_map(self.pairs@);
        }
        self.pairs.len()
    }

    /// Where `sid` is stored, if it is.
    fn find(&self, sid: &str) -> (r: Option<usize>)
        ensures
            r matches Some(i) ==> i < self.pairs@.len() && self.pairs@[i as int].0@ == sid@,
            r is None ==> !self@.contains_key(sid@),
    {
        proof {
            use_type_invariant(self);
            lemma_pairs_map(self.pairs@);
        }
        let key = sid.to_owned();
        let mut i: usize = 0;
        while i < self.pairs.len()
            invariant
                0 <= i <= self.pairs@.len(),
                key@ == sid@,
                forall|j: int| 0 <= j < i ==> self.pairs@[j].0@ != sid@,
            decreases self.pairs.len() - i,
        {
            if self.pairs[i].0 == key {
                return Some(i);
            }
            i = i + 1;
        }
        proof {
            if self@.contains_key(sid@) {
                let j = choose|j: int| 0 <= j < self.pairs@.len() && self.pairs@[j].0@ == sid@;
                assert(self.pairs@[j].0@ != sid@);
            }
        }
        None
    }

    /// The components stored for `sid`, if any.
    pub fn get(&self, sid: &str) -> (r: Option<Comp>)
        ensures
            r == (if self@.contains_key(sid@) { Some(self@[sid@]) } else { None }),
    {
        proof {
            use_type_invariant(self);
            lemma_pairs_map(self.pairs@);
        }
        match self.find(sid) {
            Some(i) => Some(self.pairs[i].1),
            None => None,
        }
    }

    /// Store `comp` for `sid`, replacing what was there.
    pub fn insert(&mut self, sid: String, comp: Comp)
        ensures
            final(self)@ == old(self)@.insert(sid@, comp),
    {
        proof {
            use_type_invariant(&*self);
            lemma_pairs_map(self.pairs@);
        }
        let ghost old_pairs = self.pairs@;
        let found = self.find(sid.as_str());
        let mut pairs: Vec<(String, Comp)> = Vec::new();
        std::mem::swap(&mut pairs, &mut self.pairs);
        assert(pairs@ == old_pairs);
        match found {
            Some(i) => {
                let ghost new_pairs = old_pairs.update(i as int, (sid, comp));
                proof {
                    lemma_pairs_update(old_pairs, i as int, sid, comp);
                }
                pairs.set(i, (sid, comp));
                self.pairs = pairs;
            },
            None => {
                let ghost new_pairs = old_pairs.push((sid, comp));
                proof {
                    assert(ids_unique(new_pairs)) by {
                        assert forall|a: int, b: int| 0 <= a < b < new_pairs.len() implies new_pairs[a].0@
                            != new_pairs[b].0@ by {
                            if b == old_pairs.len() {
                                assert(pairs_map(old_pairs).contains_key(old_pairs[a].0@));
                            } else {
                                assert(new_pairs[a] == old_pairs[a] && new_pairs[b] == old_pairs[b]);
                            }
                        }
                    }
                    assert(new_pairs.drop_last() =~= old_pairs);
                }
                pairs.push((sid, comp));
                self.pairs = pairs;
            },
        }
    }

    /// The stored (session id, components) pairs, each session once.
    pub fn to_pairs(&self) -> (r: Vec<(String, Comp)>)
        ensures
            r@ == self.pairs_spec(),
            ids_unique(r@),
            pairs_map(r@) == self@,
    {
        proof {
            use_type_invariant(self);
        }
        let mut out: Vec<(String, Comp)> = Vec::new();
        let mut i: usize = 0;
        while i < self.pairs.len()
            invariant
                0 <= i <= self.pairs@.len(),
                out@ == self.pairs@.take(i as int),
            decreases self.pairs.len() - i,
        {
            let sid = self.pairs[i].0.clone();
            out.push((sid, self.pairs[i].1));
            assert(out@ =~= self.pairs@.take(i + 1));
            i = i + 1;
        }
        assert(out@ =~= self.pairs@);
        out
    }
}

/// All-time total under `mode`: the saturating sum of per-session weights, i.e. the exact
/// sum clamped to `u64::MAX`.
pub fn total(ledger: &Ledger, mode: CountMode) -> (t: u64)
    ensures
        t == clamp_u64(weight_sum(ledger@, mode)),
{
    proof {
        use_type_invariant(ledger);
        lemma_pairs_map(ledger.pairs@);
    }
    let ghost m = ledger@;
    let ghost s = ledger.pairs@;
    let mut acc: u64 = 0;
    let mut i: usize = 0;
    let ghost mut ks: Set<Seq<char>> = Set::empty();
    proof {
        lemma_weight_sum_empty(m, mode);
    }
    while i < ledger.pairs.len()
        invariant
            0 <= i <= s.len(),
            s == ledger.pairs@,
            m == ledger@,
            ids_unique(s),
            forall|j: int| 0 <= j < s.len() ==> #[trigger] m.contains_key(s[j].0@) && m[s[j].0@] == s[j].1,
            ks.finite(),
            ks == Set::new(|k: Seq<char>| exists|j: int| 0 <= j < i && s[j].0@ == k),
            weight_sum_over(m, ks, mode) >= 0,
            acc == clamp_u64(weight_sum_over(m, ks, mode)),
        decreases s.len() - i,
    {
        let w = mode.weight(&ledger.pairs[i].1);
        proof {
            let k = s[i as int].0@;
            assert(!ks.contains(k)) by {
                if ks.contains(k) {
                    let j = choose|j: int| 0 <= j < i && s[j].0@ == k;
                    assert(s[j].0@ != s[i as int].0@);
                }
            }
            assert(m.contains_key(s[i as int].0@) && m[k] == s[i as int].1);
            assert(w == weight_spec(mode, m[k]));
            lemma_weight_sum_insert(m, ks, k, mode);
            let ks2 = ks.insert(k);
            assert(ks2 =~= Set::new(|kk: Seq<char>| exists|j: int| 0 <= j < i + 1 && s[j].0@ == kk)) by {
                assert forall|kk: Seq<char>| ks2.contains(kk) implies exists|j: int|
                    0 <= j < i + 1 && s[j].0@ == kk by {
                    if kk == k {
                        assert(s[i as int].0@ == kk);
                    } else {
                        let j = choose|j: int| 0 <= j < i && s[j].0@ == kk;
                        assert(0 <= j < i + 1 && s[j].0@ == kk);
                    }
                }
                assert forall|kk: Seq<char>| (exists|j: int| 0 <= j < i + 1 && s[j].0@ == kk) implies ks2.contains(kk) by {
                    let j = choose|j: int| 0 <= j < i + 1 && s[j].0@ == kk;
                    if j < i {
                        assert(ks.contains(kk));
                    }
                }
            }
            ks = ks2;
        }
        acc = acc.saturating_add(w);
        i = i + 1;
    }
    proof {
        assert(ks =~= m.dom()) by {
            assert forall|kk: Seq<char>| m.dom().contains(kk) implies ks.contains(kk) by {
                let j = choose|j: int| 0 <= j < s.len() && s[j].0@ == kk;
                assert(0 <= j < i && s[j].0@ == kk);
            }
        }
    }
    acc
}

/// One session's weighted total under `mode` (0 if the session is unknown).
pub fn session_total(ledger: &Ledger, sid: &str, mode: CountMode) -> (t: u64)
    ensures
        t == (if ledger@.contains_key(sid@) { weight_spec(mode, ledger@[sid@]) } else { 0 }),
{
    match ledger.get(sid) {
        Some(c) => mode.weight(&c),
        None => 0,
    }
}

/// Prune-proof merge: freshly scanned components win for the sessions they cover (replacing
/// any legacy carryover); sessions only in the old ledger (their transcripts pruned) stay.
pub fn merge(old: Ledger, scan: Ledger) -> (merged: Ledger)
    ensures
        merged@ == old@.union_prefer_right(scan@),
{
    let mut out = old;
    let pairs = scan.to_pairs();
    let ghost m0 = out@;
    let mut i: usize = 0;
    while i < pairs.len()
        invariant
            0 <= i <= pairs@.len(),
            ids_unique(pairs@),
            pairs_map(pairs@) == scan@,
            out@ == m0.union_prefer_right(pairs_map(pairs@.take(i as int))),
        decreases pairs.len() - i,
    {
        let sid = pairs[i].0.clone();
        let comp = pairs[i].1;
        out.insert(sid, comp);
        proof {
            assert(pairs@.take(i + 1).drop_last() =~= pairs@.take(i as int));
            assert(out@ =~= m0.union_prefer_right(pairs_map(pairs@.take(i + 1))));
        }
        i = i + 1;
    }
    assert(pairs@.take(pairs@.len() as int) =~= pairs@);
    out
}

/// A JSON value, as much of it as the transcript scan reads. Numbers keep only their value
/// as a non-negative integer that fits a `u64` (`None` for any other number).
pub enum Json {
    Null,
    Bool(bool),
    Number(Option<u64>),
    Str(String),
    Array(Vec<Json>),
    Object(Vec<(String, Json)>),
}

/// A JSON value as the specifications see it: strings as characters, arrays and objects
/// as sequences.
pub enum JsonView {
    Null,
    Bool(bool),
    Number(Option<u64>),
    Str(Seq<char>),
    Array(Seq<JsonView>),
    Object(Seq<(Seq<char>, JsonView)>),
}

/// The view of a JSON value.
pub open spec fn json_view(j: Json) -> JsonView
    decreases j, 0nat,
{
    match j {
        Json::Null => JsonView::Null,
        Json::Bool(b) => JsonView::Bool(b),
        Json::Number(n) => JsonView::Number(n),
        Json::Str(s) => JsonView::Str(s@),
        Json::Array(items) => {
            proof {
                assert(decreases_to!(items => items@));
            }
            JsonView::Array(items_view(items@))
        },
        Json::Object(members) => {
            proof {
                assert(decreases_to!(members => members@));
            }
            JsonView::Object(members_view(members@))
        },
    }
}

/// The views of a sequence of JSON values, in order.
pub open spec fn items_view(items: Seq<Json>) -> Seq<JsonView>
    decreases items, 1nat,
{
    if items.len() == 0 {
        Seq::empty()
    } else {
        items_view(items.drop_last()).push(json_view(items[items.len() - 1]))
    }
}

/// The views of an object's members, in order: each key's characters and its value's view.
pub open spec fn members_view(members: Seq<(String, Json)>) -> Seq<(Seq<char>, JsonView)>
    decreases members, 1nat,
{
    if members.len() == 0 {
        Seq::empty()
    } else {
        let m = members[members.len() - 1];
        proof {
            assert(decreases_to!(members => members[members.len() - 1]));
        }
        members_view(members.drop_last()).push((m.0@, json_view(m.1)))
    }
}

impl View for Json {
    type V = JsonView;

    open spec fn view(&self) -> JsonView {
        json_view(*self)
    }
}

/// The members' views line up with the members one for one.
proof fn lemma_members_view(members: Seq<(String, Json)>)
    ensures
        members_view(members).len() == members.len(),
        forall|i: int|
            0 <= i < members.len() ==> #[trigger] members_view(members)[i] == (
                members[i].0@,
                json_view(members[i].1),
            ),
    decreases members.len(),
{
    if members.len() > 0 {
        lemma_members_view(members.drop_last());
        assert forall|i: int| 0 <= i < members.len() implies #[trigger] members_view(members)[i] == (
            members[i].0@,
            json_view(members[i].1),
        ) by {
            if i < members.len() - 1 {
                assert(members.drop_last()[i] == members[i]);
            }
        }
    }
}

/// The value of member `key` among `members`; a later duplicate key wins.
pub open spec fn member_lookup(members: Seq<(Seq<char>, JsonView)>, key: Seq<char>) -> Option<JsonView>
    decreases members.len(),
{
    if members.len() == 0 {
        None
    } else if members.last().0 == key {
        Some(members.last().1)
    } else {
        member_lookup(members.drop_last(), key)
    }
}

/// Member `key` of an object; `None` for a missing key or a value that is not an object.
pub open spec fn json_get(j: JsonView, key: Seq<char>) -> Option<JsonView> {
    match j {
        JsonView::Object(members) => member_lookup(members, key),
        _ => None,
    }
}

/// A value read as a token count: its `u64` value, or 0 when absent or not such a number.
pub open spec fn count_of(j: Option<JsonView>) -> u64 {
    match j {
        Some(JsonView::Number(Some(n))) => n,
        _ => 0,
    }
}

/// The session id of a transcript line: its `sessionId` member, when that is a string.
pub open spec fn line_session(doc: JsonView) -> Option<Seq<char>> {
    match json_get(doc, "sessionId"@) {
        Some(JsonView::Str(s)) => Some(s),
        _ => None,
    }
}

/// The usage record of a transcript line: member `usage` of member `message`.
pub open spec fn line_usage(doc: JsonView) -> Option<JsonView> {
    match json_get(doc, "message"@) {
        Some(msg) => json_get(msg, "usage"@),
        None => None,
    }
}

/// `c` with one usage record's four counts added on (saturating); the legacy carryover is
/// left as it was.
pub open spec fn add_usage_spec(c: Comp, usage: JsonView) -> Comp {
    Comp {
        input: c.input.saturating_add(count_of(json_get(usage, "input_tokens"@))),
        output: c.output.saturating_add(count_of(json_get(usage, "output_tokens"@))),
        cache_creation: c.cache_creation.saturating_add(
            count_of(json_get(usage, "cache_creation_input_tokens"@)),
        ),
        cache_read: c.cache_read.saturating_add(
            count_of(json_get(usage, "cache_read_input_tokens"@)),
        ),
        legacy: c.legacy,
    }
}

/// The ledger after folding in one transcript record: a record with a string `sessionId`
/// and a `message.usage` member adds its counts to that session (starting from zero for a
/// new session); any other record leaves the ledger as it was.
pub open spec fn add_record_spec(scan: Map<Seq<char>, Comp>, doc: JsonView) -> Map<Seq<char>, Comp> {
    match (line_session(doc), line_usage(doc)) {
        (Some(sid), Some(usage)) => scan.insert(
            sid,
            add_usage_spec(if scan.contains_key(sid) { scan[sid] } else { zero_comp() }, usage),
        ),
        _ => scan,
    }
}

/// Member `key` of `j`, when `j` is an object that has it.
pub fn json_member<'a>(j: &'a Json, key: &str) -> (r: Option<&'a Json>)
    ensures
        match r {
            Some(v) => json_get(j@, key@) == Some(v@),
            None => json_get(j@, key@) is None,
        },
{
    match j {
        Json::Object(members) => {
            let k = key.to_owned();
            let ghost mv = members_view(members@);
            proof {
                lemma_members_view(members@);
                assert(mv.take(mv.len() as int) =~= mv);
            }
            let mut i = members.len();
            while i > 0
                invariant
                    i <= members@.len(),
                    mv == members_view(members@),
                    mv.len() == members@.len(),
                    forall|t: int|
                        0 <= t < members@.len() ==> #[trigger] mv[t] == (
                            members@[t].0@,
                            json_view(members@[t].1),
                        ),
                    k@ == key@,
                    json_get(j@, key@) == member_lookup(mv, key@),
                    member_lookup(mv, key@) == member_lookup(mv.take(i as int), key@),
                decreases i,
            {
                assert(mv.take(i as int).drop_last() =~= mv.take(i - 1));
                assert(mv.take(i as int).last() == mv[i - 1]);
                if members[i - 1].0 == k {
                    return Some(&members[i - 1].1);
                }
                i = i - 1;
            }
            None
        },
        _ => None,
    }
}

/// A member read as a token count (0 when absent or not a `u64`).
fn member_count(usage: &Json, key: &str) -> (n: u64)
    ensures
        n == count_of(json_get(usage@, key@)),
{
    match json_member(usage, key) {
        Some(Json::Number(Some(n))) => *n,
        _ => 0,
    }
}

/// Fold one parsed transcript record into `scan`: the record's session gains its
/// `message.usage` counts (input, output, cache creation, cache read); records without a
/// string `sessionId` or without a usage record change nothing.
pub fn add_record(scan: &mut Ledger, doc: &Json)
    ensures
        final(scan)@ == add_record_spec(old(scan)@, doc@),
{
    let sid = match json_member(doc, "sessionId") {
        Some(Json::Str(s)) => s,
        _ => return ,
    };
    let usage = match json_member(doc, "message") {
        Some(msg) => match json_member(msg, "usage") {
            Some(u) => u,
            None => return ,
        },
        None => return ,
    };
    let e = match scan.get(sid.as_str()) {
        Some(c) => c,
        None => Comp { input: 0, output: 0, cache_creation: 0, cache_read: 0, legacy: 0 },
    };
    let updated = Comp {
        input: e.input.saturating_add(member_count(usage, "input_tokens")),
        output: e.output.saturating_add(member_count(usage, "output_tokens")),
        cache_creation: e.cache_creation.saturating_add(
            member_count(usage, "cache_creation_input_tokens"),
        ),
        cache_read: e.cache_read.saturating_add(member_count(usage, "cache_read_input_tokens")),
        legacy: e.legacy,
    };
    scan.insert(sid.clone(), updated);
}

/// `serde_json::Value`, a parsed JSON document. Only carried from the parser into
/// `json_from_value`; nothing in it is read here.
#[verifier::external_type_specification]
#[verifier::external_body]
pub struct ExJsonValue(serde_json::Value);

/// The JSON document that `text` parses to, as `serde_json` parses it (`None` when `text`
/// is not one JSON document). A function of the text alone.
pub uninterp spec fn json_text(text: Seq<char>) -> Option<JsonView>;

/// Copies a parsed `serde_json::Value` into a `Json`, variant for variant: numbers by
/// `serde_json::Number::as_u64`, array items and object members in the value's order. Used
/// only by `parse_json`, whose contract covers the result.
#[verifier::external_body]
fn json_from_value(v: &serde_json::Value) -> (j: Json) {
    match v {
        serde_json::Value::Null => Json::Null,
        serde_json::Value::Bool(b) => Json::Bool(*b),
        serde_json::Value::Number(n) => Json::Number(n.as_u64()),
        serde_json::Value::String(s) => Json::Str(s.clone()),
        serde_json::Value::Array(a) => Json::Array(a.iter().map(json_from_value).collect()),
        serde_json::Value::Object(m) => Json::Object(
            m.iter().map(|(k, x)| (k.clone(), json_from_value(x))).collect(),
        ),
    }
}

/// Parses `text` with `serde_json::from_str::<serde_json::Value>`. The contract only names
/// the outcome (`json_text`): what JSON `serde_json` accepts and what it builds from it is
/// not restated here.
#[verifier::external_body]
fn parse_json(text: &str) -> (r: Option<Json>)
    ensures
        json_text(text@) == match r {
            Some(j) => Some(j@),
            None => None,
        },
{
    match serde_json::from_str::<serde_json::Value>(text) {
        Ok(v) => Some(json_from_value(&v)),
        Err(_) => None,
    }
}

/// Fold one transcript line into `scan`: a line that parses as JSON is folded in as a
/// record (see `add_record`); any other line is skipped.
pub fn add_line(scan: &mut Ledger, line: &str)
    ensures
        final(scan)@ == match json_text(line@) {
            Some(doc) => add_record_spec(old(scan)@, doc),
            None => old(scan)@,
        },
{
    match parse_json(line) {
        Some(doc) => add_record(scan, &doc),
        None => {},
    }
}

/// Prune-proof merge: every session of either ledger survives; a rescanned session takes
/// its fresh components, a session whose transcript is gone keeps its stored ones.
pub proof fn lemma_merge_keeps_and_overrides(
    old: Map<Seq<char>, Comp>,
    scan: Map<Seq<char>, Comp>,
    sid: Seq<char>,
)
    ensures
        old.union_prefer_right(scan).dom() == old.dom().union(scan.dom()),
        scan.contains_key(sid) ==> old.union_prefer_right(scan)[sid] == scan[sid],
        !scan.contains_key(sid) && old.contains_key(sid) ==> old.union_prefer_right(scan)[sid]
            == old[sid],
{
    assert(old.union_prefer_right(scan).dom() =~= old.dom().union(scan.dom()));
}

/// Merging the same scan twice is the same as merging it once.
pub proof fn lemma_merge_idempotent(old: Map<Seq<char>, Comp>, scan: Map<Seq<char>, Comp>)
    ensures
        old.union_prefer_right(scan).union_prefer_right(scan) == old.union_prefer_right(scan),
{
    assert(old.union_prefer_right(scan).union_prefer_right(scan) =~= old.union_prefer_right(scan));
}

/// Each session counts once: replacing one session's components changes the exact sum by
/// the difference of its weights.
pub proof fn lemma_weight_sum_replace(
    m: Map<Seq<char>, Comp>,
    sid: Seq<char>,
    c: Comp,
    mode: CountMode,
)
    requires
        m.dom().finite(),
    ensures
        weight_sum(m.insert(sid, c), mode) == weight_sum(m.remove(sid), mode) + weight_spec(mode, c),
        weight_sum(m, mode) == weight_sum(m.remove(sid), mode) + if m.contains_key(sid) {
            weight_spec(mode, m[sid]) as int
        } else {
            0
        },
{
    let rest = m.remove(sid);
    let ks = rest.dom();
    assert(ks =~= m.dom().remove(sid));
    let m2 = m.insert(sid, c);
    assert(m2.dom() =~= ks.insert(sid));
    lemma_weight_sum_insert(m2, ks, sid, mode);
    lemma_weight_sum_agree(m2, rest, ks, mode);
    if m.contains_key(sid) {
        assert(m.dom() =~= ks.insert(sid));
        lemma_weight_sum_insert(m, ks, sid, mode);
        lemma_weight_sum_agree(m, rest, ks, mode);
    } else {
        assert(m.dom() =~= ks);
        lemma_weight_sum_agree(m, rest, ks, mode);
    }
}

/// Looking a key up in an object gives the value of the last member with that key, however
/// many members the object has, and nothing when no member has it.
pub proof fn lemma_json_get_last_member(members: Seq<(Seq<char>, JsonView)>, key: Seq<char>)
    ensures
        forall|i: int|
            0 <= i < members.len() && #[trigger] members[i].0 == key && (forall|j: int|
                i < j < members.len() ==> members[j].0 != key) ==> json_get(
                JsonView::Object(members),
                key,
            ) == Some(members[i].1),
        (forall|j: int| 0 <= j < members.len() ==> members[j].0 != key) ==> json_get(
            JsonView::Object(members),
            key,
        ) is None,
    decreases members.len(),
{
    if members.len() > 0 {
        let rest = members.drop_last();
        lemma_json_get_last_member(rest, key);
        let last = members.len() - 1;
        assert forall|i: int|
            0 <= i < members.len() && #[trigger] members[i].0 == key && (forall|j: int|
                i < j < members.len() ==> members[j].0 != key) implies json_get(
            JsonView::Object(members),
            key,
        ) == Some(members[i].1) by {
            if i < last {
                assert(members[last].0 != key);
                assert(rest[i] == members[i]);
                assert forall|j: int| i < j < rest.len() implies rest[j].0 != key by {
                    assert(rest[j] == members[j]);
                }
            }
        }
        if forall|j: int| 0 <= j < members.len() ==> members[j].0 != key {
            assert forall|j: int| 0 <= j < rest.len() implies rest[j].0 != key by {
                assert(rest[j] == members[j]);
            }
            assert(members[last].0 != key);
        }
    }
}

} // verus!
