//! The control layer: controllers read measurements (XMEAS) and write
//! manipulated variables (XMV). Controllers are injected into a
//! [`ControllerBank`], which applies them in order once per simulation tick.
//!
//! The layer is generic over the sample type `X` of the plant's vectors
//! (the simulator instantiates it with `f64`): what is decided here — which
//! controller is addressed, which parameters an update changes, what a
//! controller reports about itself — does not depend on arithmetic.
use vstd::prelude::*;

verus! {

/// Parameters that can be updated at runtime. `None` leaves a parameter as it is.
pub struct ControllerParams<X> {
    pub kp: Option<X>,
    pub ki: Option<X>,
    pub kd: Option<X>,
    pub setpoint: Option<X>,
    pub bias: Option<X>,
    pub enabled: Option<bool>,
}

/// Read-only snapshot of a controller's configuration and live values.
pub struct ControllerInfo<X> {
    pub id: String,
    /// "P", "PI" or "PID".
    pub controller_type: String,
    pub xmeas_idx: usize,
    pub xmv_idx: usize,
    pub kp: X,
    pub ki: X,
    pub kd: X,
    pub setpoint: X,
    pub bias: X,
    pub enabled: bool,
}

/// A single control loop: reads XMEAS, writes XMV.
///
/// `step` is called once per simulation tick, after the plant has advanced
/// and after the start-up ramp has set the feed valves.
pub trait Controller {
    /// The type of the plant's samples.
    type Sample;

    /// One control step of `self` on the measurements `xmeas` may turn the
    /// manipulated variables `xmv` into `next_xmv`. A controller type refines
    /// this relation to describe its control law; by default it allows any
    /// outcome.
    open spec fn steps_to(&self, xmeas: Seq<Self::Sample>, xmv: Seq<Self::Sample>, next_xmv: Seq<Self::Sample>) -> bool {
        true
    }

    /// Executes one control step. A controller whose `info()` reports it
    /// disabled leaves `xmv` as it is.
    fn step(&mut self, xmeas: &[Self::Sample], xmv: &mut [Self::Sample])
        ensures
            old(self).steps_to(xmeas@, old(xmv)@, final(xmv)@),
            forall|inf: ControllerInfo<Self::Sample>|
                #[trigger] call_ensures(Self::info, (&*old(self),), inf) && !inf.enabled
                    ==> final(xmv)@ == old(xmv)@;

    /// Unique identifier of this controller.
    fn id(&self) -> &str;

    /// A snapshot of this controller's configuration.
    fn info(&self) -> ControllerInfo<Self::Sample>;

    /// Applies a partial parameter update. Unsupported fields are ignored.
    fn update(&mut self, params: &ControllerParams<Self::Sample>);
}

/// Proportional controller:
/// `xmv[xmv_idx] = clamp(bias + kp * (xmeas[xmeas_idx] - setpoint), 0, 100)`.
///
/// The control law itself is arithmetic on samples and is applied by the
/// simulator; this type holds the loop's configuration.
pub struct PController<X> {
    pub id: String,
    pub xmeas_idx: usize,
    pub xmv_idx: usize,
    pub kp: X,
    pub setpoint: X,
    pub bias: X,
    pub enabled: bool,
}

/// A parameter after a partial update: the new value if one is given.
pub open spec fn updated<T>(new: Option<T>, current: T) -> T {
    match new {
        Some(v) => v,
        None => current,
    }
}

impl<X: Copy> PController<X> {
    /// A new, enabled proportional controller.
    pub fn new(id: &str, xmeas_idx: usize, xmv_idx: usize, kp: X, setpoint: X, bias: X) -> (c: Self)
        ensures
            c.id@ == id@,
            c.xmeas_idx == xmeas_idx,
            c.xmv_idx == xmv_idx,
            c.kp == kp,
            c.setpoint == setpoint,
            c.bias == bias,
            c.enabled,
    {
        PController { id: String::from_str(id), xmeas_idx, xmv_idx, kp, setpoint, bias, enabled: true }
    }

    /// The controller's identifier.
    pub fn id(&self) -> (r: &str)
        ensures
            r@ == self.id@,
    {
        self.id.as_str()
    }

    /// Where a control step writes: the XMV index when the controller is
    /// enabled, nowhere when it is disabled (a disabled controller no-ops).
    pub fn output_index(&self) -> (r: Option<usize>)
        ensures
            r == if self.enabled { Some(self.xmv_idx) } else { None::<usize> },
    {
        if self.enabled {
            Some(self.xmv_idx)
        } else {
            None
        }
    }

    /// Applies a partial update: `kp`, `setpoint`, `bias` and `enabled` take
    /// the given values; `ki` and `kd` do not exist for a P controller and
    /// are ignored, as are the identifier and the indices.
    pub fn update(&mut self, params: &ControllerParams<X>)
        ensures
            final(self).kp == updated(params.kp, old(self).kp),
            final(self).setpoint == updated(params.setpoint, old(self).setpoint),
            final(self).bias == updated(params.bias, old(self).bias),
            final(self).enabled == updated(params.enabled, old(self).enabled),
            final(self).id == old(self).id,
            final(self).xmeas_idx == old(self).xmeas_idx,
            final(self).xmv_idx == old(self).xmv_idx,
    {
        if let Some(kp) = params.kp {
            self.kp = kp;
        }
        if let Some(sp) = params.setpoint {
            self.setpoint = sp;
        }
        if let Some(b) = params.bias {
            self.bias = b;
        }
        if let Some(en) = params.enabled {
            self.enabled = en;
        }
    }
}

impl<X: Copy + Default> PController<X> {
    /// The controller's configuration, reported as type "P"; a P controller
    /// has no integral or derivative action, so `ki` and `kd` are the
    /// sample type's default (zero for `f64`).
    pub fn info(&self) -> (i: ControllerInfo<X>)
        ensures
            i.id@ == self.id@,
            i.controller_type@ == seq!['P'],
            i.xmeas_idx == self.xmeas_idx,
            i.xmv_idx == self.xmv_idx,
            i.kp == self.kp,
            i.setpoint == self.setpoint,
            i.bias == self.bias,
            i.enabled == self.enabled,
            call_ensures(X::default, (), i.ki),
            call_ensures(X::default, (), i.kd),
    {
        proof {
            reveal_strlit("P");
        }
        ControllerInfo {
            id: self.id.clone(),
            controller_type: String::from_str("P"),
            xmeas_idx: self.xmeas_idx,
            xmv_idx: self.xmv_idx,
            kp: self.kp,
            ki: X::default(),
            kd: X::default(),
            setpoint: self.setpoint,
            bias: self.bias,
            enabled: self.enabled,
        }
    }
}

/// Holds an ordered list of controllers and applies them in order each tick.
///
/// Each controller writes to its own XMV index. No arbitration is performed:
/// if two controllers target the same index, the last one wins. Lookups by
/// identifier ask each controller for its `id()` at the time of the lookup.
pub struct ControllerBank<C> {
    controllers: Vec<C>,
}

/// `id` is what the controller's `id()` returned when the bank asked.
pub open spec fn id_of<C: Controller>(c: C, id: Seq<char>) -> bool {
    exists|r: &str| call_ensures(C::id, (&c,), r) && r@ == id
}

/// `ids[i]` is what controller `s[i]` reported as its identifier.
pub open spec fn reported_ids<C: Controller>(s: Seq<C>, ids: Seq<Seq<char>>) -> bool {
    &&& ids.len() == s.len()
    &&& forall|i: int| 0 <= i < s.len() ==> id_of(s[i], #[trigger] ids[i])
}

/// The controllers of `s` paired with the identifiers `ids` they reported.
pub open spec fn tagged<C>(s: Seq<C>, ids: Seq<Seq<char>>) -> Seq<(Seq<char>, C)> {
    Seq::new(s.len(), |i: int| (ids[i], s[i]))
}

/// The controllers of tagged entries, in order.
pub open spec fn untagged<C>(t: Seq<(Seq<char>, C)>) -> Seq<C> {
    t.map_values(|e: (Seq<char>, C)| e.1)
}

/// Some entry of `s` has identifier `id`.
pub open spec fn has_id<C>(s: Seq<(Seq<char>, C)>, id: Seq<char>) -> bool {
    exists|i: int| 0 <= i < s.len() && (#[trigger] s[i]).0 == id
}

/// `i` is the position of the first entry of `s` with identifier `id`.
pub open spec fn first_with_id<C>(s: Seq<(Seq<char>, C)>, id: Seq<char>, i: int) -> bool {
    &&& 0 <= i < s.len()
    &&& s[i].0 == id
    &&& forall|j: int| 0 <= j < i ==> (#[trigger] s[j]).0 != id
}

/// The entries of `s` whose identifier is not `id`, in their order.
pub open spec fn without_id<C>(s: Seq<(Seq<char>, C)>, id: Seq<char>) -> Seq<(Seq<char>, C)> {
    s.filter(|e: (Seq<char>, C)| e.0 != id)
}

/// A lookup of `id` in `s` found position `i`: the controllers up to `i`
/// reported the identifiers `ids`, and `s[i]` is the first that reported `id`.
pub open spec fn found_at<C: Controller>(s: Seq<C>, id: Seq<char>, ids: Seq<Seq<char>>, i: int) -> bool {
    &&& 0 <= i < s.len()
    &&& reported_ids(s.take(i + 1), ids)
    &&& first_with_id(tagged(s.take(i + 1), ids), id, i)
}

/// A lookup of `id` in `s` found nothing: every controller reported an
/// identifier (`ids`) other than `id`.
pub open spec fn not_found<C: Controller>(s: Seq<C>, id: Seq<char>, ids: Seq<Seq<char>>) -> bool {
    &&& reported_ids(s, ids)
    &&& !has_id(tagged(s, ids), id)
}

impl<C> View for ControllerBank<C> {
    type V = Seq<C>;

    closed spec fn view(&self) -> Seq<C> {
        self.controllers@
    }
}

impl<C> Default for ControllerBank<C> {
    /// An empty bank.
    fn default() -> (b: Self)
        ensures
            b@ == Seq::<C>::empty(),
    {
        ControllerBank { controllers: Vec::new() }
    }
}

proof fn lemma_without_id_push<C>(t: Seq<(Seq<char>, C)>, e: (Seq<char>, C), id: Seq<char>)
    ensures
        without_id(t.push(e), id) == if e.0 == id { without_id(t, id) } else { without_id(t, id).push(e) },
        has_id(t.push(e), id) == (has_id(t, id) || e.0 == id),
{
    reveal(Seq::filter);
    assert(t.push(e).drop_last() =~= t);
    if has_id(t, id) {
        let w = choose|w: int| 0 <= w < t.len() && (#[trigger] t[w]).0 == id;
        assert(t.push(e)[w] == t[w]);
    }
    if has_id(t.push(e), id) && e.0 != id {
        let w = choose|w: int| 0 <= w < t.len() + 1 && (#[trigger] t.push(e)[w]).0 == id;
        assert(t[w] == t.push(e)[w]);
    }
    if e.0 == id {
        assert(t.push(e)[t.len() as int] == e);
    }
}

/// Filtering out `id` shortens the list exactly when some entry has `id`.
proof fn lemma_without_id_len<C>(s: Seq<(Seq<char>, C)>, id: Seq<char>)
    ensures
        without_id(s, id).len() <= s.len(),
        has_id(s, id) <==> without_id(s, id).len() < s.len(),
    decreases s.len(),
{
    if s.len() > 0 {
        let d = s.drop_last();
        lemma_without_id_len(d, id);
        assert(d.push(s.last()) =~= s);
        lemma_without_id_push(d, s.last(), id);
    }
}

/// Of the identifiers that the controllers reported to `remove(id)`, none
/// of the kept ones is `id`, and every controller that reported another
/// identifier is kept, in its order.
pub proof fn law_removed_id_is_gone<C>(s: Seq<(Seq<char>, C)>, id: Seq<char>)
    ensures
        !has_id(without_id(s, id), id),
        forall|e: (Seq<char>, C)| s.contains(e) && e.0 != id ==> #[trigger] without_id(s, id).contains(e),
{
    broadcast use vstd::seq_lib::group_filter_ensures;
    let f = |e: (Seq<char>, C)| e.0 != id;
    if has_id(without_id(s, id), id) {
        let w = choose|w: int| 0 <= w < without_id(s, id).len() && (#[trigger] without_id(s, id)[w]).0 == id;
        s.lemma_filter_pred(f, w);
    }
    assert forall|e: (Seq<char>, C)| s.contains(e) && e.0 != id implies #[trigger] without_id(s, id).contains(e) by {
        let i = choose|i: int| 0 <= i < s.len() && s[i] == e;
        s.lemma_filter_contains(f, i);
    }
}

/// When the controllers already in the bank report identifiers other than
/// `id` and the added one reports `id`, a lookup of `id` finds the added one.
pub proof fn law_lookup_finds_added<C>(s: Seq<(Seq<char>, C)>, id: Seq<char>, c: C)
    requires
        !has_id(s, id),
    ensures
        first_with_id(s.push((id, c)), id, s.len() as int),
        s.push((id, c))[s.len() as int].1 == c,
{
    assert forall|j: int| 0 <= j < s.len() implies (#[trigger] s.push((id, c))[j]).0 != id by {
        assert(s.push((id, c))[j] == s[j]);
    }
}

impl<C: Controller> ControllerBank<C> {
    /// Asks controller `i` for its identifier.
    fn id_at(&self, i: usize) -> (r: String)
        requires
            i < self@.len(),
        ensures
            id_of(self@[i as int], r@),
    {
        let c = &self.controllers[i];
        let r = c.id();
        proof {
            assert(call_ensures(C::id, (c,), r));
        }
        r.to_owned()
    }

    /// The position of the first controller whose identifier is `id`.
    fn position(&self, id: &str) -> (r: Option<usize>)
        ensures
            match r {
                Some(i) => exists|ids: Seq<Seq<char>>| found_at(self@, id@, ids, i as int),
                None => exists|ids: Seq<Seq<char>>| not_found(self@, id@, ids),
            },
    {
        let key = String::from_str(id);
        let ghost mut ids: Seq<Seq<char>> = Seq::empty();
        let mut i: usize = 0;
        while i < self.controllers.len()
            invariant
                i <= self@.len(),
                self@ == self.controllers@,
                key@ == id@,
                reported_ids(self@.take(i as int), ids),
                !has_id(tagged(self@.take(i as int), ids), id@),
            decreases self.controllers.len() - i,
        {
            let cur = self.id_at(i);
            let ghost old_ids = ids;
            proof {
                ids = ids.push(cur@);
                assert(self@.take(i + 1) =~= self@.take(i as int).push(self@[i as int]));
                assert(tagged(self@.take(i + 1), ids) =~= tagged(self@.take(i as int), old_ids).push((cur@, self@[i as int])));
                lemma_without_id_push(tagged(self@.take(i as int), old_ids), (cur@, self@[i as int]), id@);
                assert forall|j: int| 0 <= j < i + 1 implies id_of(self@.take(i + 1)[j], #[trigger] ids[j]) by {
                    if j < i {
                        assert(self@.take(i + 1)[j] == self@.take(i as int)[j]);
                        assert(ids[j] == old_ids[j]);
                    }
                }
            }
            if cur == key {
                proof {
                    let t = tagged(self@.take(i + 1), ids);
                    assert forall|j: int| 0 <= j < i implies (#[trigger] t[j]).0 != id@ by {
                        assert(t[j] == tagged(self@.take(i as int), old_ids)[j]);
                    }
                    assert(found_at(self@, id@, ids, i as int));
                }
                let r = Some(i);
                assert(r matches Some(p) && found_at(self@, id@, ids, p as int));
                return r;
            }
            i = i + 1;
        }
        proof {
            assert(self@.take(i as int) =~= self@);
            assert(not_found(self@, id@, ids));
        }
        None
    }

    /// The first controller whose identifier is `id`, if any.
    pub fn get(&self, id: &str) -> (r: Option<&C>)
        ensures
            match r {
                Some(c) => exists|ids: Seq<Seq<char>>, i: int| found_at(self@, id@, ids, i) && *c == self@[i],
                None => exists|ids: Seq<Seq<char>>| not_found(self@, id@, ids),
            },
    {
        match self.position(id) {
            Some(i) => Some(&self.controllers[i]),
            None => None,
        }
    }

    /// The first controller whose identifier is `id`, for in-place changes.
    /// Changes made through the reference reach that controller only.
    pub fn get_mut(&mut self, id: &str) -> (r: Option<&mut C>)
        ensures
            match r {
                Some(c) => exists|ids: Seq<Seq<char>>, i: int|
                    found_at(old(self)@, id@, ids, i) && *c == old(self)@[i]
                        && final(self)@ == old(self)@.update(i, *final(c)),
                None => (exists|ids: Seq<Seq<char>>| not_found(old(self)@, id@, ids)) && final(self)@ == old(self)@,
            },
    {
        match self.position(id) {
            Some(i) => Some(&mut self.controllers[i]),
            None => None,
        }
    }

    /// Removes every controller whose identifier is `id`; returns whether
    /// one was removed (the bank got shorter).
    pub fn remove(&mut self, id: &str) -> (removed: bool)
        ensures
            exists|ids: Seq<Seq<char>>| {
                &&& reported_ids(old(self)@, ids)
                &&& final(self)@ == untagged(without_id(tagged(old(self)@, ids), id@))
                &&& removed == has_id(tagged(old(self)@, ids), id@)
            },
            removed == (final(self)@.len() < old(self)@.len()),
    {
        let key = String::from_str(id);
        let ghost orig = self@;
        let ghost mut ids: Seq<Seq<char>> = Seq::empty();
        let mut i: usize = 0;
        let ghost mut k: int = 0;
        let mut removed = false;
        while i < self.controllers.len()
            invariant
                key@ == id@,
                0 <= k <= orig.len(),
                self@ == self.controllers@,
                reported_ids(orig.take(k), ids),
                i == without_id(tagged(orig.take(k), ids), id@).len(),
                self@ == untagged(without_id(tagged(orig.take(k), ids), id@)) + orig.skip(k),
                removed == has_id(tagged(orig.take(k), ids), id@),
            decreases self.controllers.len() - i,
        {
            let ghost w = without_id(tagged(orig.take(k), ids), id@);
            proof {
                assert(self@[i as int] == orig.skip(k)[0]);
                assert(orig.skip(k)[0] == orig[k]);
            }
            let cur = self.id_at(i);
            let ghost old_ids = ids;
            let ghost e = (cur@, orig[k]);
            proof {
                ids = ids.push(cur@);
                assert(orig.take(k + 1) =~= orig.take(k).push(orig[k]));
                assert(tagged(orig.take(k + 1), ids) =~= tagged(orig.take(k), old_ids).push(e));
                lemma_without_id_push(tagged(orig.take(k), old_ids), e, id@);
                assert forall|j: int| 0 <= j < k + 1 implies id_of(orig.take(k + 1)[j], #[trigger] ids[j]) by {
                    if j < k {
                        assert(orig.take(k + 1)[j] == orig.take(k)[j]);
                        assert(ids[j] == old_ids[j]);
                    }
                }
            }
            if cur == key {
                let ghost before = self@;
                self.controllers.remove(i);
                removed = true;
                proof {
                    assert(untagged(w) =~= before.subrange(0, i as int));
                    assert(orig.skip(k + 1) =~= orig.skip(k).drop_first());
                    assert(self@ =~= untagged(w) + orig.skip(k + 1));
                }
            } else {
                i = i + 1;
                proof {
                    assert(untagged(w.push(e)) =~= untagged(w).push(orig[k]));
                    assert(self@ =~= untagged(w.push(e)) + orig.skip(k + 1));
                }
            }
            proof {
                k = k + 1;
            }
        }
        proof {
            assert(orig.take(k) =~= orig);
            assert(orig.skip(k) =~= Seq::<C>::empty());
            assert(self@ =~= untagged(without_id(tagged(orig, ids), id@)));
            lemma_without_id_len(tagged(orig, ids), id@);
        }
        removed
    }

    /// Appends a controller; it is applied after those already in the bank.
    pub fn add(&mut self, ctrl: C)
        ensures
            final(self)@ == old(self)@.push(ctrl),
    {
        self.controllers.push(ctrl);
    }

    /// The configuration of every controller, in bank order.
    pub fn list(&self) -> (r: Vec<ControllerInfo<C::Sample>>)
        ensures
            r.len() == self@.len(),
            forall|i: int| 0 <= i < r.len() ==> call_ensures(C::info, (&self@[i],), #[trigger] r@[i]),
    {
        let mut r: Vec<ControllerInfo<C::Sample>> = Vec::new();
        let mut i: usize = 0;
        while i < self.controllers.len()
            invariant
                i <= self.controllers.len(),
                self@ == self.controllers@,
                r.len() == i,
                forall|j: int| 0 <= j < i ==> call_ensures(C::info, (&self@[j],), #[trigger] r@[j]),
            decreases self.controllers.len() - i,
        {
            let info = self.controllers[i].info();
            r.push(info);
            i = i + 1;
        }
        r
    }

    /// Applies every controller once, in bank order: controller `i` steps on
    /// `xmeas` and the manipulated variables that controller `i - 1` left
    /// (`xmvs[i]`), leaving `xmvs[i + 1]`; the bank keeps its size and order.
    pub fn step(&mut self, xmeas: &[C::Sample], xmv: &mut [C::Sample])
        ensures
            exists|xmvs: Seq<Seq<C::Sample>>| {
                &&& xmvs[0] == old(xmv)@
                &&& xmvs.last() == final(xmv)@
                &&& stepped_in_order(old(self)@, final(self)@, xmeas@, xmvs)
            },
            final(self)@.len() == old(self)@.len(),
            forall|i: int| 0 <= i < old(self)@.len() ==> exists|m: &mut C, xm: &mut [C::Sample]|
                mut_ref_current(m) == #[trigger] old(self)@[i] && mut_ref_future(m) == final(self)@[i]
                    && call_ensures(C::step, (m, xmeas, xm), ()),
    {
        let ghost orig = self.controllers@;
        let ghost mut xmvs: Seq<Seq<C::Sample>> = seq![xmv@];
        let mut i: usize = 0;
        while i < self.controllers.len()
            invariant
                i <= self.controllers.len(),
                self.controllers@.len() == orig.len(),
                xmvs.len() == i + 1,
                xmvs[0] == old(xmv)@,
                xmvs.last() == xmv@,
                forall|j: int| i <= j < orig.len() ==> #[trigger] self.controllers@[j] == orig[j],
                forall|j: int| 0 <= j < i ==> exists|m: &mut C, xm: &mut [C::Sample]|
                    mut_ref_current(m) == #[trigger] orig[j] && mut_ref_future(m) == self.controllers@[j]
                        && call_ensures(C::step, (m, xmeas, xm), ()),
                forall|j: int| 0 <= j < i ==> orig[j].steps_to(xmeas@, #[trigger] xmvs[j], xmvs[j + 1]),
            decreases self.controllers.len() - i,
        {
            let ghost before = self.controllers@;
            let ghost xmv_before = xmv@;
            let c = &mut self.controllers[i];
            c.step(xmeas, xmv);
            proof {
                assert(exists|m: &mut C, xm: &mut [C::Sample]|
                    mut_ref_current(m) == orig[i as int] && mut_ref_future(m) == self.controllers@[i as int]
                        && call_ensures(C::step, (m, xmeas, xm), ()));
                assert forall|j: int| 0 <= j < i implies self.controllers@[j] == #[trigger] before[j] by {}
                assert forall|j: int| i < j < orig.len() implies #[trigger] self.controllers@[j] == orig[j] by {
                    assert(self.controllers@[j] == before[j]);
                }
                assert(orig[i as int].steps_to(xmeas@, xmv_before, xmv@));
                let old_xmvs = xmvs;
                xmvs = xmvs.push(xmv@);
                assert forall|j: int| 0 <= j < i + 1 implies orig[j].steps_to(xmeas@, #[trigger] xmvs[j], xmvs[j + 1]) by {
                    if j < i {
                        assert(xmvs[j] == old_xmvs[j]);
                        assert(xmvs[j + 1] == old_xmvs[j + 1]);
                    } else {
                        assert(xmvs[j] == xmv_before);
                    }
                }
            }
            i = i + 1;
        }
    }
}

/// `after` is the bank `before` after each controller, in order, took one
/// step on `xmeas`: controller `i` (as it was before its step) turned
/// `xmvs[i]` into `xmvs[i + 1]`, and the bank's size stayed.
pub open spec fn stepped_in_order<C: Controller>(
    before: Seq<C>,
    after: Seq<C>,
    xmeas: Seq<C::Sample>,
    xmvs: Seq<Seq<C::Sample>>,
) -> bool {
    &&& after.len() == before.len()
    &&& xmvs.len() == before.len() + 1
    &&& forall|i: int| 0 <= i < before.len() ==> before[i].steps_to(xmeas, #[trigger] xmvs[i], xmvs[i + 1])
}

} // verus!
