//! The recipes of a cookbook: a two-phase map from recipe ids to recipes.
//! A recipe is inserted once, edited in place, and once deleted its id stays
//! deleted: later operations on that id are ignored.

use vstd::prelude::*;

use crate::state::recipe::{same_content, Recipe, RecipeOp};
use crate::time::{lemma_time_lt_total, lemma_time_lt_transitive, time_equal, time_less, time_lt, Time};

verus! {

/// Whether some entry of `s` has key `k`.
pub open spec fn has_key<V>(s: Seq<(Time, V)>, k: Time) -> bool {
    exists|i: int| 0 <= i < s.len() && #[trigger] s[i].0 == k
}

/// Whether the keys of `s` strictly increase.
pub open spec fn keys_sorted<V>(s: Seq<(Time, V)>) -> bool {
    forall|i: int, j: int| 0 <= i < j < s.len() ==> time_lt(#[trigger] s[i].0, #[trigger] s[j].0)
}

/// The map from keys to values that the entries `s` describe.
pub open spec fn entries_map<V>(s: Seq<(Time, V)>) -> Map<Time, V> {
    Map::new(
        |k: Time| has_key(s, k),
        |k: Time| s[choose|i: int| 0 <= i < s.len() && #[trigger] s[i].0 == k].1,
    )
}

/// An operation on the recipes of a cookbook.
#[derive(Clone, Debug, PartialEq)]
pub enum RecipeMapOp<T> {
    /// Adds a new recipe under a fresh id.
    Insert { key: T, value: Recipe<T> },
    /// Applies an operation to the recipe with the given id.
    Apply { key: T, operation: RecipeOp<T> },
    /// Deletes the recipe with the given id, for good.
    Delete { key: T },
}

impl<T> RecipeMapOp<T> {
    /// The id of the recipe that the operation concerns.
    pub open spec fn spec_key(self) -> T {
        match self {
            RecipeMapOp::Insert { key, .. } => key,
            RecipeMapOp::Apply { key, .. } => key,
            RecipeMapOp::Delete { key } => key,
        }
    }

    /// The id of the recipe that the operation concerns.
    pub fn key(&self) -> (r: &T)
        ensures
            *r == self.spec_key(),
    {
        match self {
            RecipeMapOp::Insert { key, .. } => key,
            RecipeMapOp::Apply { key, .. } => key,
            RecipeMapOp::Delete { key } => key,
        }
    }

    /// The operation with every time mapped through `g`.
    pub open spec fn spec_fmap<U>(self, g: spec_fn(T) -> U) -> RecipeMapOp<U> {
        match self {
            RecipeMapOp::Insert { key, value } => RecipeMapOp::Insert {
                key: g(key),
                value: value.spec_fmap(g),
            },
            RecipeMapOp::Apply { key, operation } => RecipeMapOp::Apply {
                key: g(key),
                operation: operation.spec_fmap(g),
            },
            RecipeMapOp::Delete { key } => RecipeMapOp::Delete { key: g(key) },
        }
    }

    /// Whether `r` is the same kind of operation, on a key and with times
    /// that `rel` relates to this operation's, and with the same values.
    pub open spec fn maps_times_by<U>(self, r: RecipeMapOp<U>, rel: spec_fn(T, U) -> bool) -> bool {
        match (self, r) {
            (
                RecipeMapOp::Insert { key: k, value: v },
                RecipeMapOp::Insert { key: k2, value: v2 },
            ) => rel(k, k2) && v.maps_times_by(v2, rel),
            (
                RecipeMapOp::Apply { key: k, operation: o },
                RecipeMapOp::Apply { key: k2, operation: o2 },
            ) => rel(k, k2) && o.maps_time_by(o2, rel),
            (RecipeMapOp::Delete { key: k }, RecipeMapOp::Delete { key: k2 }) => rel(k, k2),
            _ => false,
        }
    }

    /// Maps every time of the operation through `f`.
    pub fn fmap<U>(self, f: impl Fn(T) -> U) -> (r: RecipeMapOp<U>)
        requires
            forall|t: T| f.requires((t,)),
        ensures
            self.maps_times_by(r, |t: T, u: U| f.ensures((t,), u)),
            forall|g: spec_fn(T) -> U|
                (forall|t: T, u: U| f.ensures((t,), u) ==> u == g(t)) ==> #[trigger] self.spec_fmap(
                    g,
                ) == r,
    {
        match self {
            RecipeMapOp::Insert { key, value } => {
                let key = f(key);
                let value = value.fmap(&f);
                RecipeMapOp::Insert { key, value }
            },
            RecipeMapOp::Apply { key, operation } => {
                let key = f(key);
                let operation = operation.fmap(&f);
                RecipeMapOp::Apply { key, operation }
            },
            RecipeMapOp::Delete { key } => RecipeMapOp::Delete { key: f(key) },
        }
    }
}

/// What a recipe map stands for: the recipes by id, and the deleted ids.
#[verifier::ext_equal]
pub struct RecipeMapModel {
    pub recipes: Map<Time, Recipe<Time>>,
    pub tombstones: Set<Time>,
}

impl RecipeMapModel {
    /// Whether `op` may be applied: an id that is not deleted is inserted
    /// only when absent, and edited only when present, by a write whose time
    /// differs from that of the write it competes with.
    pub open spec fn op_is_valid(self, op: RecipeMapOp<Time>) -> bool {
        self.tombstones.contains(op.spec_key()) || match op {
            RecipeMapOp::Insert { key, .. } => !self.recipes.dom().contains(key),
            RecipeMapOp::Apply { key, operation } => self.recipes.dom().contains(key)
                && self.recipes[key].target_time(operation) != operation.spec_time(),
            RecipeMapOp::Delete { .. } => true,
        }
    }

    /// The time against which `op` competes, if it competes with a write.
    pub open spec fn competing(self, op: RecipeMapOp<Time>) -> Option<Time> {
        match op {
            RecipeMapOp::Apply { key, operation } => if !self.tombstones.contains(key)
                && self.recipes.dom().contains(key) {
                Some(self.recipes[key].target_time(operation))
            } else {
                None
            },
            _ => None,
        }
    }

    /// The state after `op`, where `current_precedes` tells whether the
    /// write that `op` competes with comes before it.
    pub open spec fn spec_apply(self, current_precedes: bool, op: RecipeMapOp<Time>) -> Self {
        if self.tombstones.contains(op.spec_key()) {
            self
        } else {
            match op {
                RecipeMapOp::Insert { key, value } => RecipeMapModel {
                    recipes: self.recipes.insert(key, value),
                    tombstones: self.tombstones,
                },
                RecipeMapOp::Apply { key, operation } => RecipeMapModel {
                    recipes: self.recipes.insert(
                        key,
                        self.recipes[key].spec_apply(current_precedes, operation),
                    ),
                    tombstones: self.tombstones,
                },
                RecipeMapOp::Delete { key } => RecipeMapModel {
                    recipes: self.recipes.remove(key),
                    tombstones: self.tombstones.insert(key),
                },
            }
        }
    }

    /// Applying `op` with the precedence that `precedes` decides.
    pub open spec fn merge(self, op: RecipeMapOp<Time>, precedes: spec_fn(Time, Time) -> bool) -> Self {
        let current_precedes = match (self.competing(op), op) {
            (Some(t), RecipeMapOp::Apply { operation, .. }) => precedes(t, operation.spec_time()),
            _ => false,
        };
        self.spec_apply(current_precedes, op)
    }
}

/// The recipes of a cookbook, kept in order of their ids, with the ids of
/// the deleted recipes.
#[derive(Debug)]
pub struct RecipeMap {
    entries: Vec<(Time, Recipe<Time>)>,
    tombstones: Vec<Time>,
}

impl View for RecipeMap {
    type V = RecipeMapModel;

    closed spec fn view(&self) -> RecipeMapModel {
        RecipeMapModel { recipes: entries_map(self.entries@), tombstones: self.tombstones@.to_set() }
    }
}

proof fn lemma_sorted_unique<V>(s: Seq<(Time, V)>, i: int, j: int)
    requires
        keys_sorted(s),
        0 <= i < s.len(),
        0 <= j < s.len(),
        s[i].0 == s[j].0,
    ensures
        i == j,
{
    if i < j {
        assert(time_lt(s[i].0, s[j].0));
    } else if j < i {
        assert(time_lt(s[j].0, s[i].0));
    }
}

proof fn lemma_map_at<V>(s: Seq<(Time, V)>, i: int)
    requires
        keys_sorted(s),
        0 <= i < s.len(),
    ensures
        entries_map(s).dom().contains(s[i].0),
        entries_map(s)[s[i].0] == s[i].1,
{
    let k = s[i].0;
    assert(has_key(s, k));
    let j = choose|j: int| 0 <= j < s.len() && #[trigger] s[j].0 == k;
    lemma_sorted_unique(s, i, j);
}

proof fn lemma_insert_sorted<V>(s: Seq<(Time, V)>, p: int, k: Time, v: V)
    requires
        keys_sorted(s),
        0 <= p <= s.len(),
        forall|j: int| 0 <= j < p ==> time_lt(#[trigger] s[j].0, k),
        forall|j: int| p <= j < s.len() ==> time_lt(k, #[trigger] s[j].0),
    ensures
        keys_sorted(s.insert(p, (k, v))),
        entries_map(s.insert(p, (k, v))) =~= entries_map(s).insert(k, v),
{
    let t = s.insert(p, (k, v));
    assert forall|i: int, j: int| 0 <= i < j < t.len() implies time_lt(
        #[trigger] t[i].0,
        #[trigger] t[j].0,
    ) by {
        if j < p {
        } else if j == p {
        } else if i < p {
            assert(time_lt(s[i].0, k));
            assert(time_lt(k, s[j - 1].0));
            lemma_time_lt_transitive(s[i].0, k, s[j - 1].0);
        } else if i == p {
        } else {
            assert(time_lt(s[i - 1].0, s[j - 1].0));
        }
    }
    assert forall|x: Time| #[trigger] has_key(t, x) == (has_key(s, x) || x == k) by {
        if has_key(t, x) {
            let i = choose|i: int| 0 <= i < t.len() && #[trigger] t[i].0 == x;
            if i < p {
                assert(s[i].0 == x);
            } else if i > p {
                assert(s[i - 1].0 == x);
            }
        }
        if has_key(s, x) {
            let i = choose|i: int| 0 <= i < s.len() && #[trigger] s[i].0 == x;
            if i < p {
                assert(t[i].0 == x);
            } else {
                assert(t[i + 1].0 == x);
            }
        }
        if x == k {
            assert(t[p].0 == x);
        }
    }
    assert forall|x: Time| #[trigger] entries_map(t).dom().contains(x) implies entries_map(t)[x] == entries_map(s).insert(k, v)[x] by {
        let i = choose|i: int| 0 <= i < t.len() && #[trigger] t[i].0 == x;
        lemma_map_at(t, i);
        if i < p {
            lemma_map_at(s, i);
        } else if i > p {
            lemma_map_at(s, i - 1);
        }
    }
}

proof fn lemma_remove_sorted<V>(s: Seq<(Time, V)>, p: int)
    requires
        keys_sorted(s),
        0 <= p < s.len(),
    ensures
        keys_sorted(s.remove(p)),
        entries_map(s.remove(p)) =~= entries_map(s).remove(s[p].0),
{
    let t = s.remove(p);
    let k = s[p].0;
    assert forall|i: int, j: int| 0 <= i < j < t.len() implies time_lt(
        #[trigger] t[i].0,
        #[trigger] t[j].0,
    ) by {
        if j < p {
        } else if i < p {
            assert(time_lt(s[i].0, s[j + 1].0));
        } else {
            assert(time_lt(s[i + 1].0, s[j + 1].0));
        }
    }
    assert forall|x: Time| #[trigger] has_key(t, x) == (has_key(s, x) && x != k) by {
        if has_key(t, x) {
            let i = choose|i: int| 0 <= i < t.len() && #[trigger] t[i].0 == x;
            if i < p {
                assert(s[i].0 == x);
                if x == k {
                    lemma_sorted_unique(s, i, p);
                }
            } else {
                assert(s[i + 1].0 == x);
                if x == k {
                    lemma_sorted_unique(s, i + 1, p);
                }
            }
        }
        if has_key(s, x) && x != k {
            let i = choose|i: int| 0 <= i < s.len() && #[trigger] s[i].0 == x;
            if i < p {
                assert(t[i].0 == x);
            } else {
                assert(t[i - 1].0 == x);
            }
        }
    }
    assert forall|x: Time| #[trigger] entries_map(t).dom().contains(x) implies entries_map(t)[x] == entries_map(s).remove(k)[x] by {
        let i = choose|i: int| 0 <= i < t.len() && #[trigger] t[i].0 == x;
        lemma_map_at(t, i);
        if i < p {
            lemma_map_at(s, i);
        } else {
            lemma_map_at(s, i + 1);
        }
    }
}

proof fn lemma_update_sorted<V>(s: Seq<(Time, V)>, p: int, v: V)
    requires
        keys_sorted(s),
        0 <= p < s.len(),
    ensures
        keys_sorted(s.update(p, (s[p].0, v))),
        entries_map(s.update(p, (s[p].0, v))) =~= entries_map(s).insert(s[p].0, v),
{
    let t = s.update(p, (s[p].0, v));
    let k = s[p].0;
    assert forall|i: int, j: int| 0 <= i < j < t.len() implies time_lt(
        #[trigger] t[i].0,
        #[trigger] t[j].0,
    ) by {
        assert(time_lt(s[i].0, s[j].0));
    }
    assert forall|x: Time| #[trigger] has_key(t, x) == (has_key(s, x) || x == k) by {
        if has_key(t, x) {
            let i = choose|i: int| 0 <= i < t.len() && #[trigger] t[i].0 == x;
            assert(s[i].0 == x);
        }
        if has_key(s, x) {
            let i = choose|i: int| 0 <= i < s.len() && #[trigger] s[i].0 == x;
            assert(t[i].0 == x);
        }
        if x == k {
            assert(t[p].0 == x);
        }
    }
    assert forall|x: Time| #[trigger] entries_map(t).dom().contains(x) implies entries_map(t)[x] == entries_map(s).insert(k, v)[x] by {
        let i = choose|i: int| 0 <= i < t.len() && #[trigger] t[i].0 == x;
        lemma_map_at(t, i);
        if i != p {
            lemma_map_at(s, i);
            if s[i].0 == k {
                lemma_sorted_unique(s, i, p);
            }
        }
    }
}

/// The first position whose key does not come before `key`.
fn search(entries: &Vec<(Time, Recipe<Time>)>, key: &Time) -> (p: usize)
    requires
        keys_sorted(entries@),
    ensures
        p <= entries@.len(),
        forall|j: int| 0 <= j < p ==> time_lt(#[trigger] entries@[j].0, *key),
        forall|j: int| p < j < entries@.len() ==> time_lt(*key, #[trigger] entries@[j].0),
        p < entries@.len() && entries@[p as int].0 != *key ==> time_lt(*key, entries@[p as int].0),
        has_key(entries@, *key) <==> (p < entries@.len() && entries@[p as int].0 == *key),
{
    let mut p: usize = 0;
    let n = entries.len();
    let mut before = p < n && time_less(&entries[p].0, key);
    while before
        invariant
            n == entries@.len(),
            p <= entries@.len(),
            keys_sorted(entries@),
            forall|j: int| 0 <= j < p ==> time_lt(#[trigger] entries@[j].0, *key),
            before == (p < entries@.len() && time_lt(entries@[p as int].0, *key)),
        decreases entries@.len() - p,
    {
        p += 1;
        before = p < n && time_less(&entries[p].0, key);
    }
    let ghost s = entries@;
    proof {
        if p < s.len() {
            lemma_time_lt_total(s[p as int].0, *key);
            assert forall|j: int| p < j < s.len() implies time_lt(*key, #[trigger] s[j].0) by {
                assert(time_lt(s[p as int].0, s[j].0));
                if s[p as int].0 != *key {
                    lemma_time_lt_transitive(*key, s[p as int].0, s[j].0);
                }
            }
        }
        if has_key(s, *key) {
            let i = choose|i: int| 0 <= i < s.len() && #[trigger] s[i].0 == *key;
            if i < p {
                assert(time_lt(s[i].0, *key));
            } else if i > p {
                assert(time_lt(*key, s[i].0));
            }
        }
    }
    p
}

/// Whether `key` occurs in `times`.
fn contains_time(times: &Vec<Time>, key: &Time) -> (r: bool)
    ensures
        r == times@.contains(*key),
{
    let mut i: usize = 0;
    while i < times.len()
        invariant
            i <= times@.len(),
            forall|j: int| 0 <= j < i ==> times@[j] != *key,
        decreases times@.len() - i,
    {
        if time_equal(&times[i], key) {
            assert(times@[i as int] == *key);
            return true;
        }
        i += 1;
    }
    false
}

impl RecipeMap {
    #[verifier::type_invariant]
    spec fn well_formed(self) -> bool {
        &&& keys_sorted(self.entries@)
        &&& forall|i: int|
            0 <= i < self.entries@.len() ==> !self.tombstones@.contains(
                #[trigger] self.entries@[i].0,
            )
    }

    /// The recipes with their ids, in increasing order of id.
    pub closed spec fn spec_entries(self) -> Seq<(Time, Recipe<Time>)> {
        self.entries@
    }

    /// A map with no recipes and no deleted ids.
    pub fn new() -> (r: Self)
        ensures
            r@.recipes == Map::<Time, Recipe<Time>>::empty(),
            r@.tombstones == Set::<Time>::empty(),
    {
        let r = RecipeMap { entries: Vec::new(), tombstones: Vec::new() };
        assert(r@.recipes =~= Map::<Time, Recipe<Time>>::empty());
        assert(r@.tombstones =~= Set::<Time>::empty());
        r
    }

    /// The operation that adds `value` under the id `key`.
    pub fn insert(key: Time, value: Recipe<Time>) -> (r: RecipeMapOp<Time>)
        ensures
            r == (RecipeMapOp::Insert { key, value }),
    {
        RecipeMapOp::Insert { key, value }
    }

    /// The recipe with id `key`, if there is one.
    pub fn get(&self, key: &Time) -> (r: Option<&Recipe<Time>>)
        ensures
            r is Some <==> self@.recipes.dom().contains(*key),
            r matches Some(v) ==> *v == self@.recipes[*key],
    {
        proof {
            use_type_invariant(self);
        }
        let p = search(&self.entries, key);
        if p < self.entries.len() && time_equal(&self.entries[p].0, key) {
            proof {
                lemma_map_at(self.entries@, p as int);
            }
            Some(&self.entries[p].1)
        } else {
            None
        }
    }

    /// The recipes with their ids, in increasing order of id.
    pub fn entries(&self) -> (r: &Vec<(Time, Recipe<Time>)>)
        ensures
            r@ == self.spec_entries(),
            keys_sorted(r@),
            entries_map(r@) == self@.recipes,
    {
        proof {
            use_type_invariant(self);
        }
        &self.entries
    }

    /// Whether the recipe with id `key` has been deleted.
    pub fn is_deleted(&self, key: &Time) -> (r: bool)
        ensures
            r == self@.tombstones.contains(*key),
    {
        contains_time(&self.tombstones, key)
    }

    /// A copy of the map: the same ids, recipes with the same content, the
    /// same deleted ids.
    pub fn duplicate(&self) -> (r: Self)
        ensures
            r@.tombstones == self@.tombstones,
            r@.recipes.dom() == self@.recipes.dom(),
            forall|k: Time| #[trigger]
                self@.recipes.dom().contains(k) ==> same_content(r@.recipes[k], self@.recipes[k]),
    {
        proof {
            use_type_invariant(self);
        }
        let ghost s = self.entries@;
        let mut entries: Vec<(Time, Recipe<Time>)> = Vec::new();
        let mut i: usize = 0;
        while i < self.entries.len()
            invariant
                i <= s.len(),
                s == self.entries@,
                keys_sorted(s),
                entries@.len() == i,
                forall|j: int| 0 <= j < i ==> (#[trigger] entries@[j]).0 == s[j].0 && same_content(entries@[j].1, s[j].1),
            decreases s.len() - i,
        {
            let key = self.entries[i].0;
            let recipe = self.entries[i].1.duplicate();
            entries.push((key, recipe));
            i += 1;
        }
        let mut tombstones: Vec<Time> = Vec::new();
        let mut j: usize = 0;
        while j < self.tombstones.len()
            invariant
                j <= self.tombstones@.len(),
                tombstones@ == self.tombstones@.subrange(0, j as int),
            decreases self.tombstones@.len() - j,
        {
            tombstones.push(self.tombstones[j]);
            assert(tombstones@ =~= self.tombstones@.subrange(0, j + 1));
            j += 1;
        }
        assert(tombstones@ =~= self.tombstones@);
        let ghost e = entries@;
        assert forall|a: int, b: int| 0 <= a < b < e.len() implies time_lt(#[trigger] e[a].0, #[trigger] e[b].0) by {
            assert(time_lt(s[a].0, s[b].0));
        }
        assert forall|x: Time| #[trigger] has_key(e, x) == has_key(s, x) by {
            if has_key(e, x) {
                let a = choose|a: int| 0 <= a < e.len() && #[trigger] e[a].0 == x;
                assert(s[a].0 == x);
            }
            if has_key(s, x) {
                let a = choose|a: int| 0 <= a < s.len() && #[trigger] s[a].0 == x;
                assert(e[a].0 == x);
            }
        }
        assert forall|k: Time| #[trigger] self@.recipes.dom().contains(k) implies same_content(
            entries_map(e)[k],
            entries_map(s)[k],
        ) by {
            let a = choose|a: int| 0 <= a < s.len() && #[trigger] s[a].0 == k;
            lemma_map_at(s, a);
            lemma_map_at(e, a);
        }
        let r = RecipeMap { entries, tombstones };
        assert(r@.recipes.dom() =~= self@.recipes.dom());
        r
    }

    /// Whether `op` may be applied (see `RecipeMapModel::op_is_valid`).
    pub fn op_is_valid(&self, op: &RecipeMapOp<Time>) -> (r: bool)
        ensures
            r == self@.op_is_valid(*op),
    {
        if self.is_deleted(op.key()) {
            return true;
        }
        match op {
            RecipeMapOp::Insert { key, .. } => self.get(key).is_none(),
            RecipeMapOp::Apply { key, operation } => match self.get(key) {
                Some(recipe) => !time_equal(recipe.competing_time(operation), operation.time()),
                None => false,
            },
            RecipeMapOp::Delete { .. } => true,
        }
    }

    /// The time against which `op` competes, if it competes with a write:
    /// for an edit of a recipe that is present, the time of the write held
    /// by the field it writes.
    pub fn competing_time(&self, op: &RecipeMapOp<Time>) -> (r: Option<Time>)
        ensures
            r == self@.competing(*op),
    {
        match op {
            RecipeMapOp::Apply { key, operation } => {
                if self.is_deleted(key) {
                    None
                } else {
                    match self.get(key) {
                        Some(recipe) => Some(*recipe.competing_time(operation)),
                        None => None,
                    }
                }
            },
            _ => None,
        }
    }

    /// Applies `op`. An operation on a deleted id changes nothing. Otherwise
    /// an insertion adds the recipe, an edit applies its operation to the
    /// recipe (where `current_precedes` tells whether the write it competes
    /// with comes before it), and a deletion removes the recipe and marks
    /// its id deleted.
    pub fn apply(self, current_precedes: bool, op: RecipeMapOp<Time>) -> (r: Self)
        requires
            self@.op_is_valid(op),
        ensures
            r@ == self@.spec_apply(current_precedes, op),
    {
        proof {
            use_type_invariant(&self);
        }
        let ghost old_model = self@;
        let RecipeMap { mut entries, mut tombstones } = self;
        let ghost s = entries@;
        if contains_time(&tombstones, op.key()) {
            return RecipeMap { entries, tombstones };
        }
        match op {
            RecipeMapOp::Insert { key, value } => {
                let p = search(&entries, &key);
                proof {
                    lemma_insert_sorted(s, p as int, key, value);
                }
                entries.insert(p, (key, value));
                let r = RecipeMap { entries, tombstones };
                assert(r@ =~= old_model.spec_apply(current_precedes, RecipeMapOp::Insert { key, value }));
                r
            },
            RecipeMapOp::Apply { key, operation } => {
                let p = search(&entries, &key);
                proof {
                    lemma_map_at(s, p as int);
                }
                let (k, recipe) = entries.remove(p);
                let updated = recipe.apply(current_precedes, operation);
                proof {
                    lemma_update_sorted(s, p as int, updated);
                    assert(s.remove(p as int).insert(p as int, (k, updated)) =~= s.update(
                        p as int,
                        (k, updated),
                    ));
                }
                entries.insert(p, (k, updated));
                let r = RecipeMap { entries, tombstones };
                assert(r@ =~= old_model.spec_apply(
                    current_precedes,
                    RecipeMapOp::Apply { key, operation },
                ));
                r
            },
            RecipeMapOp::Delete { key } => {
                let p = search(&entries, &key);
                if p < entries.len() && time_equal(&entries[p].0, &key) {
                    proof {
                        lemma_remove_sorted(s, p as int);
                    }
                    entries.remove(p);
                } else {
                    assert(entries_map(s).remove(key) =~= entries_map(s));
                }
                let ghost e = entries@;
                let ghost before = tombstones@;
                tombstones.push(key);
                proof {
                    assert forall|i: int| 0 <= i < e.len() implies !tombstones@.contains(
                        #[trigger] e[i].0,
                    ) by {
                        if e[i].0 == key {
                            assert(has_key(e, key));
                        }
                        assert(tombstones@.contains(e[i].0) ==> before.contains(e[i].0) || e[i].0 == key);
                    }
                }
                assert forall|x: Time| #[trigger] tombstones@.contains(x) == (before.contains(x) || x == key) by {
                    if tombstones@.contains(x) {
                        let i = choose|i: int| 0 <= i < tombstones@.len() && tombstones@[i] == x;
                        if i < before.len() {
                            assert(before[i] == x);
                        }
                    }
                    if before.contains(x) {
                        let i = choose|i: int| 0 <= i < before.len() && before[i] == x;
                        assert(tombstones@[i] == x);
                    }
                    if x == key {
                        assert(tombstones@[before.len() as int] == x);
                    }
                }
                let r = RecipeMap { entries, tombstones };
                assert(r@.tombstones =~= old_model.tombstones.insert(key));
                assert(r@ =~= old_model.spec_apply(current_precedes, RecipeMapOp::Delete { key }));
                r
            },
        }
    }
}

} // verus!
