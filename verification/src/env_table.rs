//! A model of the process environment-variable table.
//!
//! The table is a finite mapping from variable name to value, kept as a list
//! of pairs with pairwise-distinct names. Its mathematical view is a
//! `Map<Seq<char>, Seq<char>>`, and every operation is specified against that
//! view.

use vstd::prelude::*;

use crate::EnvAction;

verus! {

/// True when no two pairs of `s` share a name.
pub open spec fn keys_unique(s: Seq<(String, String)>) -> bool {
    forall|i: int, j: int| 0 <= i < j < s.len() ==> s[i].0@ != s[j].0@
}

/// The mapping that a pair list denotes: later pairs win, though a
/// well-formed table never repeats a name.
pub open spec fn as_map(s: Seq<(String, String)>) -> Map<Seq<char>, Seq<char>>
    decreases s.len(),
{
    if s.len() == 0 {
        Map::empty()
    } else {
        as_map(s.drop_last()).insert(s.last().0@, s.last().1@)
    }
}

/// True when some pair among the first `n` of `s` has the name `k`.
pub open spec fn name_in_prefix(s: Seq<(String, String)>, n: int, k: Seq<char>) -> bool {
    exists|t: int| 0 <= t < n && s[t].0@ == k
}

/// A pair list denotes a mapping that holds exactly the listed names.
pub proof fn lemma_as_map_contains(s: Seq<(String, String)>, k: Seq<char>)
    ensures
        as_map(s).contains_key(k) <==> name_in_prefix(s, s.len() as int, k),
    decreases s.len(),
{
    if s.len() > 0 {
        lemma_as_map_contains(s.drop_last(), k);
        if s.last().0@ == k {
            assert(s[s.len() - 1].0@ == k);
        } else if as_map(s.drop_last()).contains_key(k) {
            let t = choose|t: int| 0 <= t < s.len() - 1 && s.drop_last()[t].0@ == k;
            assert(s[t].0@ == k);
        } else if name_in_prefix(s, s.len() as int, k) {
            let t = choose|t: int| 0 <= t < s.len() && s[t].0@ == k;
            assert(s.drop_last()[t].0@ == k);
        }
    }
}

/// In a well-formed list, looking the `i`-th name up in the denoted mapping
/// yields the `i`-th value.
pub proof fn lemma_as_map_index(s: Seq<(String, String)>, i: int)
    requires
        keys_unique(s),
        0 <= i < s.len(),
    ensures
        as_map(s).contains_key(s[i].0@),
        as_map(s)[s[i].0@] == s[i].1@,
    decreases s.len(),
{
    if i == s.len() - 1 {
    } else {
        assert(keys_unique(s.drop_last())) by {
            assert(forall|p: int, q: int|
                0 <= p < q < s.len() - 1 ==> s.drop_last()[p].0@ == s[p].0@
                    && s.drop_last()[q].0@ == s[q].0@);
        }
        lemma_as_map_index(s.drop_last(), i);
        assert(s.drop_last()[i] == s[i]);
        assert(s.last().0@ != s[i].0@);
    }
}

/// Removing the `i`-th pair of a well-formed list removes exactly its name
/// from the denoted mapping.
pub proof fn lemma_as_map_remove(s: Seq<(String, String)>, i: int)
    requires
        keys_unique(s),
        0 <= i < s.len(),
    ensures
        as_map(s.remove(i)) == as_map(s).remove(s[i].0@),
    decreases s.len(),
{
    assert(keys_unique(s.drop_last())) by {
        assert(forall|p: int, q: int|
            0 <= p < q < s.len() - 1 ==> s.drop_last()[p].0@ == s[p].0@
                && s.drop_last()[q].0@ == s[q].0@);
    }
    if i == s.len() - 1 {
        assert(s.remove(i) =~= s.drop_last());
        lemma_as_map_contains(s.drop_last(), s[i].0@);
        assert(!name_in_prefix(s.drop_last(), s.len() - 1, s[i].0@)) by {
            assert(forall|t: int| 0 <= t < s.len() - 1 ==> s.drop_last()[t].0@ == s[t].0@);
        }
        assert(as_map(s.drop_last()).remove(s[i].0@) =~= as_map(s.drop_last()));
        assert(as_map(s).remove(s[i].0@) =~= as_map(s.drop_last()));
    } else {
        lemma_as_map_remove(s.drop_last(), i);
        assert(s.remove(i).drop_last() =~= s.drop_last().remove(i));
        assert(s.remove(i).last() == s.last());
        assert(as_map(s.remove(i)) == as_map(s.drop_last().remove(i)).insert(
            s.last().0@,
            s.last().1@,
        ));
        assert(s.last().0@ != s[i].0@);
        assert(as_map(s.drop_last()).remove(s[i].0@).insert(s.last().0@, s.last().1@)
            =~= as_map(s.drop_last()).insert(s.last().0@, s.last().1@).remove(s[i].0@));
    }
}

/// Overwriting the value of the `i`-th pair of a well-formed list updates
/// exactly its name in the denoted mapping.
pub proof fn lemma_as_map_update(s: Seq<(String, String)>, i: int, p: (String, String))
    requires
        keys_unique(s),
        0 <= i < s.len(),
        p.0@ == s[i].0@,
    ensures
        as_map(s.update(i, p)) == as_map(s).insert(p.0@, p.1@),
    decreases s.len(),
{
    assert(keys_unique(s.drop_last())) by {
        assert(forall|pp: int, q: int|
            0 <= pp < q < s.len() - 1 ==> s.drop_last()[pp].0@ == s[pp].0@
                && s.drop_last()[q].0@ == s[q].0@);
    }
    if i == s.len() - 1 {
        assert(s.update(i, p).drop_last() =~= s.drop_last());
        assert(s.update(i, p).last() == p);
        assert(as_map(s.update(i, p)) == as_map(s.drop_last()).insert(p.0@, p.1@));
        assert(as_map(s.drop_last()).insert(s.last().0@, s.last().1@).insert(p.0@, p.1@)
            =~= as_map(s.drop_last()).insert(p.0@, p.1@));
    } else {
        lemma_as_map_update(s.drop_last(), i, p);
        assert(s.update(i, p).drop_last() =~= s.drop_last().update(i, p));
        assert(s.update(i, p).last() == s.last());
        assert(s.last().0@ != s[i].0@);
        assert(as_map(s.drop_last()).insert(p.0@, p.1@).insert(s.last().0@, s.last().1@)
            =~= as_map(s.drop_last()).insert(s.last().0@, s.last().1@).insert(p.0@, p.1@));
    }
}

/// The environment-variable table of a process, modelled as a finite map
/// from name to value.
pub struct EnvTable {
    pairs: Vec<(String, String)>,
}

impl View for EnvTable {
    type V = Map<Seq<char>, Seq<char>>;

    closed spec fn view(&self) -> Map<Seq<char>, Seq<char>> {
        as_map(self.pairs@)
    }
}

impl EnvTable {
    /// Well-formed: no variable name occurs twice. Every table satisfies
    /// this by construction.
    #[verifier::type_invariant]
    closed spec fn wf(&self) -> bool {
        keys_unique(self.pairs@)
    }

    /// The empty table.
    pub fn new() -> (t: EnvTable)
        ensures
            t@ == Map::<Seq<char>, Seq<char>>::empty(),
    {
        EnvTable { pairs: Vec::new() }
    }

    /// The position of `name` in a pair list, if it is there.
    fn find_in(pairs: &Vec<(String, String)>, name: &String) -> (r: Option<usize>)
        ensures
            match r {
                Some(i) => i < pairs@.len() && pairs@[i as int].0@ == name@,
                None => !name_in_prefix(pairs@, pairs@.len() as int, name@),
            },
    {
        let mut i: usize = 0;
        while i < pairs.len()
            invariant
                i <= pairs@.len(),
                forall|t: int| 0 <= t < i ==> pairs@[t].0@ != name@,
            decreases pairs@.len() - i,
        {
            if pairs[i].0.eq(name) {
                return Some(i);
            }
            i += 1;
        }
        None
    }

    /// The position of `name` in the pair list, if it is there.
    fn find(&self, name: &String) -> (r: Option<usize>)
        ensures
            match r {
                Some(i) => i < self.pairs@.len() && self.pairs@[i as int].0@ == name@,
                None => !name_in_prefix(self.pairs@, self.pairs@.len() as int, name@),
            },
    {
        Self::find_in(&self.pairs, name)
    }

    /// The number of variables in the table.
    pub fn len(&self) -> (n: usize)
        ensures
            n == self@.dom().len(),
    {
        proof {
            use_type_invariant(&*self);
            lemma_as_map_len(self.pairs@);
        }
        self.pairs.len()
    }

    /// The value of `name`, or `None` when the table does not hold it.
    pub fn get(&self, name: &String) -> (r: Option<&String>)
        ensures
            match r {
                Some(v) => self@.contains_key(name@) && v@ == self@[name@],
                None => !self@.contains_key(name@),
            },
    {
        proof {
            use_type_invariant(&*self);
            lemma_as_map_contains(self.pairs@, name@);
        }
        match self.find(name) {
            Some(i) => {
                proof {
                    lemma_as_map_index(self.pairs@, i as int);
                }
                Some(&self.pairs[i].1)
            },
            None => None,
        }
    }

    /// Give `name` the value `value`, adding the variable if it is absent.
    pub fn set(&mut self, name: String, value: String)
        ensures
            final(self)@ == old(self)@.insert(name@, value@),
    {
        proof {
            use_type_invariant(&*self);
        }
        let ghost s = self.pairs@;
        let mut pairs: Vec<(String, String)> = Vec::new();
        core::mem::swap(&mut pairs, &mut self.pairs);
        match Self::find_in(&pairs, &name) {
            Some(i) => {
                proof {
                    lemma_as_map_update(s, i as int, (name, value));
                }
                pairs[i] = (name, value);
                proof {
                    assert(keys_unique(pairs@)) by {
                        assert(forall|t: int|
                            0 <= t < pairs@.len() && t != i ==> pairs@[t] == s[t]);
                    }
                }
            },
            None => {
                proof {
                    let p = (name, value);
                    assert(s.push(p).drop_last() =~= s);
                    assert(s.push(p).last() == p);
                    assert(forall|t: int| 0 <= t < s.len() ==> s.push(p)[t] == s[t]);
                }
                pairs.push((name, value));
            },
        }
        self.pairs = pairs;
    }

    /// Remove `name` from the table; a no-op when it is absent.
    pub fn unset(&mut self, name: &String)
        ensures
            final(self)@ == old(self)@.remove(name@),
    {
        proof {
            use_type_invariant(&*self);
        }
        let ghost s = self.pairs@;
        let mut pairs: Vec<(String, String)> = Vec::new();
        core::mem::swap(&mut pairs, &mut self.pairs);
        match Self::find_in(&pairs, name) {
            Some(i) => {
                proof {
                    lemma_as_map_remove(s, i as int);
                    s.remove_ensures(i as int);
                    assert forall|p: int, q: int|
                        0 <= p < q < s.remove(i as int).len() implies s.remove(i as int)[p].0@
                        != s.remove(i as int)[q].0@ by {
                        assert(s.remove(i as int)[p] == if p < i { s[p] } else { s[p + 1] });
                        assert(s.remove(i as int)[q] == if q < i { s[q] } else { s[q + 1] });
                    }
                }
                pairs.remove(i);
            },
            None => {
                proof {
                    lemma_as_map_contains(s, name@);
                    assert(as_map(s).remove(name@) =~= as_map(s));
                }
            },
        }
        self.pairs = pairs;
    }

    /// An exact copy of the table.
    pub fn snapshot(&self) -> (t: EnvTable)
        ensures
            t@ == self@,
    {
        proof {
            use_type_invariant(&*self);
        }
        let mut pairs: Vec<(String, String)> = Vec::new();
        let mut i: usize = 0;
        while i < self.pairs.len()
            invariant
                i <= self.pairs@.len(),
                pairs@.len() == i,
                forall|t: int| 0 <= t < i ==> pairs@[t] == self.pairs@[t],
            decreases self.pairs@.len() - i,
        {
            let k = self.pairs[i].0.clone();
            let v = self.pairs[i].1.clone();
            pairs.push((k, v));
            i += 1;
        }
        proof {
            assert(pairs@ =~= self.pairs@);
        }
        EnvTable { pairs }
    }
}

/// The mapping after one action is carried out against `m`.
pub open spec fn spec_apply_action(
    m: Map<Seq<char>, Seq<char>>,
    a: EnvAction,
) -> Map<Seq<char>, Seq<char>> {
    match a {
        EnvAction::SetVar(k, v) => m.insert(k@, v@),
        EnvAction::UnsetVar(k) => m.remove(k@),
    }
}

/// The mapping after the actions of `acts` are carried out in order.
pub open spec fn spec_apply_actions(
    m: Map<Seq<char>, Seq<char>>,
    acts: Seq<EnvAction>,
) -> Map<Seq<char>, Seq<char>>
    decreases acts.len(),
{
    if acts.len() == 0 {
        m
    } else {
        spec_apply_action(spec_apply_actions(m, acts.drop_last()), acts.last())
    }
}

/// Appending one action applies it after the earlier ones.
pub proof fn lemma_apply_actions_push(
    m: Map<Seq<char>, Seq<char>>,
    acts: Seq<EnvAction>,
    a: EnvAction,
)
    ensures
        spec_apply_actions(m, acts.push(a)) == spec_apply_action(spec_apply_actions(m, acts), a),
{
    assert(acts.push(a).drop_last() =~= acts);
    assert(acts.push(a).last() == a);
}

/// The mapping after one set-or-unset override is carried out against `m`.
/// A pair `(name, Some(value))` sets the variable; `(name, None)` unsets it.
pub open spec fn spec_apply_override(
    m: Map<Seq<char>, Seq<char>>,
    p: (String, Option<String>),
) -> Map<Seq<char>, Seq<char>> {
    match p.1 {
        Some(v) => m.insert(p.0@, v@),
        None => m.remove(p.0@),
    }
}

/// The mapping after the overrides of `ps` are carried out in order.
pub open spec fn spec_apply_overrides(
    m: Map<Seq<char>, Seq<char>>,
    ps: Seq<(String, Option<String>)>,
) -> Map<Seq<char>, Seq<char>>
    decreases ps.len(),
{
    if ps.len() == 0 {
        m
    } else {
        spec_apply_override(spec_apply_overrides(m, ps.drop_last()), ps.last())
    }
}

/// Appending one override applies it after the earlier ones.
pub proof fn lemma_apply_overrides_push(
    m: Map<Seq<char>, Seq<char>>,
    ps: Seq<(String, Option<String>)>,
    p: (String, Option<String>),
)
    ensures
        spec_apply_overrides(m, ps.push(p)) == spec_apply_override(
            spec_apply_overrides(m, ps),
            p,
        ),
{
    assert(ps.push(p).drop_last() =~= ps);
    assert(ps.push(p).last() == p);
}

impl EnvTable {
    /// Carry one action out against the table.
    pub fn apply_action(&mut self, a: &EnvAction)
        ensures
            final(self)@ == spec_apply_action(old(self)@, *a),
    {
        match a {
            EnvAction::SetVar(k, v) => self.set(k.clone(), v.clone()),
            EnvAction::UnsetVar(k) => self.unset(k),
        }
    }

    /// Carry the actions of `acts` out in order.
    pub fn apply_actions(&mut self, acts: &Vec<EnvAction>)
        ensures
            final(self)@ == spec_apply_actions(old(self)@, acts@),
    {
        let mut i: usize = 0;
        while i < acts.len()
            invariant
                i <= acts@.len(),
                self@ == spec_apply_actions(old(self)@, acts@.take(i as int)),
            decreases acts@.len() - i,
        {
            self.apply_action(&acts[i]);
            proof {
                lemma_apply_actions_push(old(self)@, acts@.take(i as int), acts@[i as int]);
                assert(acts@.take(i + 1) =~= acts@.take(i as int).push(acts@[i as int]));
            }
            i += 1;
        }
        proof {
            assert(acts@.take(acts@.len() as int) =~= acts@);
        }
    }

    /// Carry the set-or-unset overrides of `vars` out in order: a pair
    /// `(name, Some(value))` sets the variable, `(name, None)` unsets it.
    pub fn apply_overrides(&mut self, vars: &Vec<(String, Option<String>)>)
        ensures
            final(self)@ == spec_apply_overrides(old(self)@, vars@),
    {
        let mut i: usize = 0;
        while i < vars.len()
            invariant
                i <= vars@.len(),
                self@ == spec_apply_overrides(old(self)@, vars@.take(i as int)),
            decreases vars@.len() - i,
        {
            match &vars[i].1 {
                Some(v) => self.set(vars[i].0.clone(), v.clone()),
                None => {
                    let name = vars[i].0.clone();
                    self.unset(&name);
                },
            }
            proof {
                lemma_apply_overrides_push(old(self)@, vars@.take(i as int), vars@[i as int]);
                assert(vars@.take(i + 1) =~= vars@.take(i as int).push(vars@[i as int]));
            }
            i += 1;
        }
        proof {
            assert(vars@.take(vars@.len() as int) =~= vars@);
        }
    }
}

/// Agreement of two mappings at one name: both hold it with the same value,
/// or neither holds it.
pub open spec fn agrees_at(
    a: Map<Seq<char>, Seq<char>>,
    b: Map<Seq<char>, Seq<char>>,
    k: Seq<char>,
) -> bool {
    a.contains_key(k) == b.contains_key(k) && (a.contains_key(k) ==> a[k] == b[k])
}

impl EnvTable {
    /// The actions that bring a table in the state `current` back to
    /// `snapshot`: every variable now set is reset to its snapshot value or
    /// unset when the snapshot lacks it, and every variable the snapshot
    /// holds but `current` lost is set again.
    ///
    /// Replaying the returned actions against `current` yields exactly the
    /// snapshot, whatever was done to the table in between.
    pub fn reconcile(current: &EnvTable, snapshot: &EnvTable) -> (acts: Vec<EnvAction>)
        ensures
            spec_apply_actions(current@, acts@) == snapshot@,
    {
        proof {
            use_type_invariant(current);
            use_type_invariant(snapshot);
        }
        let ghost m0 = current@;
        let mut acts: Vec<EnvAction> = Vec::new();

        let mut i: usize = 0;
        while i < current.pairs.len()
            invariant
                i <= current.pairs@.len(),
                current.wf(),
                snapshot.wf(),
                m0 == current@,
                forall|t: int|
                    0 <= t < i ==> #[trigger] agrees_at(
                        spec_apply_actions(m0, acts@),
                        snapshot@,
                        current.pairs@[t].0@,
                    ),
                forall|k: Seq<char>|
                    !name_in_prefix(current.pairs@, i as int, k) ==> #[trigger] agrees_at(
                        spec_apply_actions(m0, acts@),
                        m0,
                        k,
                    ),
            decreases current.pairs@.len() - i,
        {
            let ghost prev_acts = acts@;
            let ghost ki = current.pairs@[i as int].0@;
            let k = current.pairs[i].0.clone();
            match snapshot.get(&k) {
                Some(v) => {
                    let value = v.clone();
                    acts.push(EnvAction::SetVar(k, value));
                },
                None => {
                    acts.push(EnvAction::UnsetVar(k));
                },
            }
            proof {
                lemma_apply_actions_push(m0, prev_acts, acts@.last());
                let a_prev = spec_apply_actions(m0, prev_acts);
                let a_now = spec_apply_actions(m0, acts@);
                assert(agrees_at(a_now, snapshot@, ki));
                assert forall|t: int| 0 <= t < i + 1 implies #[trigger] agrees_at(
                    a_now,
                    snapshot@,
                    current.pairs@[t].0@,
                ) by {
                    if t < i {
                        assert(current.pairs@[t].0@ != ki);
                        assert(agrees_at(a_prev, snapshot@, current.pairs@[t].0@));
                    }
                }
                assert forall|k2: Seq<char>|
                    !name_in_prefix(current.pairs@, i + 1, k2) implies #[trigger] agrees_at(
                    a_now,
                    m0,
                    k2,
                ) by {
                    assert(!name_in_prefix(current.pairs@, i as int, k2));
                    assert(k2 != ki);
                    assert(agrees_at(a_prev, m0, k2));
                }
            }
            i += 1;
        }

        let ghost after_first = spec_apply_actions(m0, acts@);
        proof {
            assert forall|k: Seq<char>|
                !m0.contains_key(k) && !name_in_prefix(snapshot.pairs@, 0int, k)
                    implies !spec_apply_actions(m0, acts@).contains_key(k) by {
                lemma_as_map_contains(current.pairs@, k);
                assert(!name_in_prefix(current.pairs@, current.pairs@.len() as int, k));
                assert(agrees_at(after_first, m0, k));
            }
        }

        let mut j: usize = 0;
        while j < snapshot.pairs.len()
            invariant
                j <= snapshot.pairs@.len(),
                current.wf(),
                snapshot.wf(),
                m0 == current@,
                forall|t: int|
                    0 <= t < current.pairs@.len() ==> #[trigger] agrees_at(
                        spec_apply_actions(m0, acts@),
                        snapshot@,
                        current.pairs@[t].0@,
                    ),
                forall|t: int|
                    0 <= t < j && !m0.contains_key(#[trigger] snapshot.pairs@[t].0@) ==> {
                        let a = spec_apply_actions(m0, acts@);
                        a.contains_key(snapshot.pairs@[t].0@) && a[snapshot.pairs@[t].0@]
                            == snapshot@[snapshot.pairs@[t].0@]
                    },
                forall|k: Seq<char>|
                    !m0.contains_key(k) && !name_in_prefix(snapshot.pairs@, j as int, k)
                        ==> !spec_apply_actions(m0, acts@).contains_key(k),
            decreases snapshot.pairs@.len() - j,
        {
            let ghost prev_acts = acts@;
            let ghost kj = snapshot.pairs@[j as int].0@;
            let k = snapshot.pairs[j].0.clone();
            let absent = current.get(&k).is_none();
            if absent {
                let value = snapshot.pairs[j].1.clone();
                acts.push(EnvAction::SetVar(k, value));
            }
            proof {
                let a_prev = spec_apply_actions(m0, prev_acts);
                if absent {
                    lemma_apply_actions_push(m0, prev_acts, acts@.last());
                } else {
                    assert(acts@ == prev_acts);
                }
                let a_now = spec_apply_actions(m0, acts@);
                lemma_as_map_index(snapshot.pairs@, j as int);
                assert forall|t: int| 0 <= t < current.pairs@.len() implies #[trigger] agrees_at(
                    a_now,
                    snapshot@,
                    current.pairs@[t].0@,
                ) by {
                    assert(agrees_at(a_prev, snapshot@, current.pairs@[t].0@));
                    if absent {
                        lemma_as_map_index(current.pairs@, t);
                        assert(m0.contains_key(current.pairs@[t].0@));
                        assert(current.pairs@[t].0@ != kj);
                    }
                }
                assert forall|t: int|
                    0 <= t < j + 1 && !m0.contains_key(
                        #[trigger] snapshot.pairs@[t].0@,
                    ) implies {
                    let a = spec_apply_actions(m0, acts@);
                    a.contains_key(snapshot.pairs@[t].0@) && a[snapshot.pairs@[t].0@]
                        == snapshot@[snapshot.pairs@[t].0@]
                } by {
                    if t < j {
                        assert(snapshot.pairs@[t].0@ != kj);
                        assert(a_prev.contains_key(snapshot.pairs@[t].0@)
                            && a_prev[snapshot.pairs@[t].0@]
                            == snapshot@[snapshot.pairs@[t].0@]);
                    } else {
                        assert(!m0.contains_key(kj));
                        assert(absent);
                    }
                }
                assert forall|k2: Seq<char>|
                    !m0.contains_key(k2) && !name_in_prefix(snapshot.pairs@, j + 1, k2)
                        implies !spec_apply_actions(m0, acts@).contains_key(k2) by {
                    assert(!name_in_prefix(snapshot.pairs@, j as int, k2));
                    assert(k2 != kj);
                    assert(!a_prev.contains_key(k2));
                }
            }
            j += 1;
        }

        proof {
            let a = spec_apply_actions(m0, acts@);
            assert forall|k: Seq<char>| #[trigger]
                a.contains_key(k) == snapshot@.contains_key(k) && (a.contains_key(k)
                    ==> a[k] == snapshot@[k]) by {
                lemma_as_map_contains(current.pairs@, k);
                lemma_as_map_contains(snapshot.pairs@, k);
                if m0.contains_key(k) {
                    let t = choose|t: int|
                        0 <= t < current.pairs@.len() && current.pairs@[t].0@ == k;
                    assert(agrees_at(a, snapshot@, current.pairs@[t].0@));
                } else {
                    if snapshot@.contains_key(k) {
                        let t = choose|t: int|
                            0 <= t < snapshot.pairs@.len() && snapshot.pairs@[t].0@ == k;
                        assert(0 <= t < snapshot.pairs@.len()
                            && !m0.contains_key(snapshot.pairs@[t].0@));
                    }
                }
            }
            assert(a =~= snapshot@);
        }
        acts
    }

    /// Bring the table back to `snapshot`, whatever its current state.
    pub fn restore(&mut self, snapshot: &EnvTable)
        ensures
            final(self)@ == snapshot@,
    {
        let acts = EnvTable::reconcile(self, snapshot);
        self.apply_actions(&acts);
    }
}

/// A well-formed list denotes a mapping with as many names as pairs.
pub proof fn lemma_as_map_len(s: Seq<(String, String)>)
    requires
        keys_unique(s),
    ensures
        as_map(s).dom().finite(),
        as_map(s).dom().len() == s.len(),
    decreases s.len(),
{
    if s.len() == 0 {
        assert(as_map(s).dom() =~= Set::<Seq<char>>::empty());
    } else {
        assert(keys_unique(s.drop_last())) by {
            assert(forall|p: int, q: int|
                0 <= p < q < s.len() - 1 ==> s.drop_last()[p].0@ == s[p].0@
                    && s.drop_last()[q].0@ == s[q].0@);
        }
        lemma_as_map_len(s.drop_last());
        lemma_as_map_contains(s.drop_last(), s.last().0@);
        assert(!name_in_prefix(s.drop_last(), s.len() - 1, s.last().0@)) by {
            assert(forall|t: int| 0 <= t < s.len() - 1 ==> s.drop_last()[t].0@ == s[t].0@);
        }
        assert(as_map(s).dom() =~= as_map(s.drop_last()).dom().insert(s.last().0@));
    }
}

} // verus!
