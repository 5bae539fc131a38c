//! Last-writer-wins register.

use vstd::prelude::*;

verus! {

/// A last-writer-wins register: a value together with the logical time of
/// the write that produced it. An operation on the register is itself a
/// timed value.
#[derive(Clone, Debug, PartialEq)]
pub struct Lww<T, A> {
    pub time: T,
    pub value: A,
}

/// Whether `precedes` orders the given times strictly and totally: of two
/// distinct times exactly one precedes the other, and the order is transitive.
pub open spec fn orders_strictly<T>(precedes: spec_fn(T, T) -> bool, times: Set<T>) -> bool {
    &&& forall|s: T, t: T|
        #![trigger precedes(s, t)]
        times.contains(s) && times.contains(t) && s != t ==> precedes(s, t) != precedes(t, s)
    &&& forall|s: T| #![trigger precedes(s, s)] times.contains(s) ==> !precedes(s, s)
    &&& forall|r: T, s: T, t: T|
        #![trigger precedes(r, s), precedes(s, t)]
        times.contains(r) && times.contains(s) && times.contains(t) && precedes(r, s) && precedes(
            s,
            t,
        ) ==> precedes(r, t)
}

impl<T, A> Lww<T, A> {
    /// A register holding `value`, written at `time`.
    pub fn new(time: T, value: A) -> (r: Self)
        ensures
            r.time == time,
            r.value == value,
    {
        Lww { time, value }
    }

    /// The time of the write that the register holds.
    pub fn time(&self) -> (r: &T)
        ensures
            *r == self.time,
    {
        &self.time
    }

    /// The value that the register holds.
    pub fn value(&self) -> (r: &A)
        ensures
            *r == self.value,
    {
        &self.value
    }

    /// What applying `op` gives, where `current_precedes` tells whether the
    /// held write comes before `op` in the causal order (ties between
    /// concurrent writes broken by the order on times): the later write wins.
    pub open spec fn spec_apply(self, current_precedes: bool, op: Self) -> Self {
        if current_precedes {
            op
        } else {
            self
        }
    }

    /// Applying `op` with the precedence that `precedes` decides.
    pub open spec fn merge(self, op: Self, precedes: spec_fn(T, T) -> bool) -> Self {
        self.spec_apply(precedes(self.time, op.time), op)
    }

    /// Applies the write `op`: the later of the held write and `op` wins.
    /// `current_precedes` is the outcome of comparing the held write's time
    /// with `op`'s in the causal order; two writes never share a time.
    pub fn apply(self, current_precedes: bool, op: Self) -> (r: Self)
        requires
            self.time != op.time,
        ensures
            r == self.spec_apply(current_precedes, op),
    {
        if current_precedes {
            op
        } else {
            self
        }
    }

    /// The register with every time mapped through `g`.
    pub open spec fn spec_fmap<U>(self, g: spec_fn(T) -> U) -> Lww<U, A> {
        Lww { time: g(self.time), value: self.value }
    }

    /// Whether `r` is this register with its time replaced by one that
    /// `rel` relates to it, and the same value.
    pub open spec fn maps_time_by<U>(self, r: Lww<U, A>, rel: spec_fn(T, U) -> bool) -> bool {
        rel(self.time, r.time) && r.value == self.value
    }

    /// Maps the time of the write through `f`, keeping the value.
    pub fn fmap<U>(self, f: impl Fn(T) -> U) -> (r: Lww<U, A>)
        requires
            forall|t: T| f.requires((t,)),
        ensures
            f.ensures((self.time,), r.time),
            r.value == self.value,
            self.maps_time_by(r, |t: T, u: U| f.ensures((t,), u)),
            forall|g: spec_fn(T) -> U|
                (forall|t: T, u: U| f.ensures((t,), u) ==> u == g(t)) ==> #[trigger] self.spec_fmap(
                    g,
                ) == r,
    {
        let Lww { time, value } = self;
        let time = f(time);
        Lww { time, value }
    }
}

/// Last-writer-wins converges: two writes applied to a register give the same
/// register in either order, whenever the causal order with its tie-break
/// orders the three times strictly.
pub proof fn lemma_lww_apply_commutes<T, A>(
    x: Lww<T, A>,
    a: Lww<T, A>,
    b: Lww<T, A>,
    precedes: spec_fn(T, T) -> bool,
)
    requires
        x.time != a.time,
        x.time != b.time,
        a.time != b.time,
        orders_strictly(precedes, set![x.time, a.time, b.time]),
    ensures
        x.merge(a, precedes).merge(b, precedes) == x.merge(b, precedes).merge(a, precedes),
{
    let s = set![x.time, a.time, b.time];
    assert(s.contains(x.time) && s.contains(a.time) && s.contains(b.time));
    let _ = precedes(x.time, a.time);
    let _ = precedes(a.time, x.time);
    let _ = precedes(x.time, b.time);
    let _ = precedes(b.time, x.time);
    let _ = precedes(a.time, b.time);
    let _ = precedes(b.time, a.time);
}

/// The time-mapping of a register is a functor: mapping with the identity
/// changes nothing.
pub proof fn lemma_lww_fmap_identity<T, A>(x: Lww<T, A>)
    ensures
        x.spec_fmap(|t: T| t) == x,
{
}

/// Mapping with `g` after `f` is mapping with their composition.
pub proof fn lemma_lww_fmap_compose<T, U, W, A>(
    x: Lww<T, A>,
    f: spec_fn(T) -> U,
    g: spec_fn(U) -> W,
)
    ensures
        x.spec_fmap(f).spec_fmap(g) == x.spec_fmap(|t: T| g(f(t))),
{
}

} // verus!
