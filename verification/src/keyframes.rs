//! Values that change over a picture's kept source: keys, their velocity, and setting,
//! pulling and cycling them.

use crate::time::Time;
use vstd::prelude::*;

verus! {

/// How a value goes on from a key to the next: eased, in a straight line, or held.
#[derive(Clone, Copy, PartialEq, Eq, Structural, Debug)]
pub enum Interp {
    Smooth,
    Linear,
    Hold,
}

impl Interp {
    /// The velocity that follows when the chip is clicked.
    pub open spec fn next(self) -> Interp {
        match self {
            Interp::Smooth => Interp::Linear,
            Interp::Linear => Interp::Hold,
            Interp::Hold => Interp::Smooth,
        }
    }

    fn cycled(self) -> (r: Interp)
        ensures
            r == self.next(),
    {
        match self {
            Interp::Smooth => Interp::Linear,
            Interp::Linear => Interp::Hold,
            Interp::Hold => Interp::Smooth,
        }
    }
}

/// The keys of a curve, the earliest first. Times are in the picture's kept source,
/// values in thousandths.
#[derive(PartialEq, Eq, Debug)]
pub enum Keys {
    End,
    Key { at: Time, value: i32, ease: Interp, rest: Box<Keys> },
}

impl Keys {
    /// How many keys there are.
    pub open spec fn count(self) -> nat
        decreases self,
    {
        match self {
            Keys::End => 0,
            Keys::Key { rest, .. } => 1 + rest.count(),
        }
    }

    /// The value and the velocity of the key at `t`.
    pub open spec fn find(self, t: Time) -> Option<(i32, Interp)>
        decreases self,
    {
        match self {
            Keys::End => None,
            Keys::Key { at, value, ease, rest } => if at == t { Some((value, ease)) } else { rest.find(t) },
        }
    }

    /// Every key is later than `t`, and each later than the one before.
    pub open spec fn rising_from(self, t: int) -> bool
        decreases self,
    {
        match self {
            Keys::End => true,
            Keys::Key { at, rest, .. } => t < at && rest.rising_from(at as int),
        }
    }

    /// With a key at `t`: the value of the one that is there, or a new one in its
    /// place among the others, which is eased.
    pub open spec fn put(self, t: Time, v: i32) -> Keys
        decreases self,
    {
        match self {
            Keys::End => Keys::Key { at: t, value: v, ease: Interp::Smooth, rest: Box::new(Keys::End) },
            Keys::Key { at, value, ease, rest } => if t < at {
                Keys::Key { at: t, value: v, ease: Interp::Smooth, rest: Box::new(self) }
            } else if t == at {
                Keys::Key { at, value: v, ease, rest }
            } else {
                Keys::Key { at, value, ease, rest: Box::new(rest.put(t, v)) }
            },
        }
    }

    /// Without the key at `t`.
    pub open spec fn pulled(self, t: Time) -> Keys
        decreases self,
    {
        match self {
            Keys::End => Keys::End,
            Keys::Key { at, value, ease, rest } => if at == t {
                *rest
            } else {
                Keys::Key { at, value, ease, rest: Box::new(rest.pulled(t)) }
            },
        }
    }

    /// With the next velocity on the key at `t`.
    pub open spec fn eased(self, t: Time) -> Keys
        decreases self,
    {
        match self {
            Keys::End => Keys::End,
            Keys::Key { at, value, ease, rest } => if at == t {
                Keys::Key { at, value, ease: ease.next(), rest }
            } else {
                Keys::Key { at, value, ease, rest: Box::new(rest.eased(t)) }
            },
        }
    }

    fn key_at(&self, t: Time) -> (r: Option<(i32, Interp)>)
        ensures
            r == self.find(t),
        decreases self,
    {
        match self {
            Keys::End => None,
            Keys::Key { at, value, ease, rest } => if *at == t { Some((*value, *ease)) } else { rest.key_at(t) },
        }
    }

    fn with_key(self, t: Time, v: i32) -> (r: Keys)
        ensures
            r == self.put(t, v),
        decreases self,
    {
        match self {
            Keys::End => Keys::Key { at: t, value: v, ease: Interp::Smooth, rest: Box::new(Keys::End) },
            Keys::Key { at, value, ease, rest } => if t < at {
                Keys::Key {
                    at: t,
                    value: v,
                    ease: Interp::Smooth,
                    rest: Box::new(Keys::Key { at, value, ease, rest }),
                }
            } else if t == at {
                Keys::Key { at, value: v, ease, rest }
            } else {
                Keys::Key { at, value, ease, rest: Box::new((*rest).with_key(t, v)) }
            },
        }
    }

    fn without_key(self, t: Time) -> (r: Keys)
        ensures
            r == self.pulled(t),
        decreases self,
    {
        match self {
            Keys::End => Keys::End,
            Keys::Key { at, value, ease, rest } => if at == t {
                *rest
            } else {
                Keys::Key { at, value, ease, rest: Box::new((*rest).without_key(t)) }
            },
        }
    }

    fn with_ease(self, t: Time) -> (r: Keys)
        ensures
            r == self.eased(t),
        decreases self,
    {
        match self {
            Keys::End => Keys::End,
            Keys::Key { at, value, ease, rest } => if at == t {
                Keys::Key { at, value, ease: ease.cycled(), rest }
            } else {
                Keys::Key { at, value, ease, rest: Box::new((*rest).with_ease(t)) }
            },
        }
    }

    pub(crate) fn same(&self, other: &Keys) -> (r: bool)
        ensures
            r == (*self == *other),
        decreases self,
    {
        match (self, other) {
            (Keys::End, Keys::End) => true,
            (
                Keys::Key { at, value, ease, rest },
                Keys::Key { at: at2, value: value2, ease: ease2, rest: rest2 },
            ) => *at == *at2 && *value == *value2 && *ease == *ease2 && rest.same(rest2),
            _ => false,
        }
    }
}

impl Clone for Keys {
    fn clone(&self) -> (r: Self)
        ensures
            r == *self,
        decreases self,
    {
        match self {
            Keys::End => Keys::End,
            Keys::Key { at, value, ease, rest } => Keys::Key {
                at: *at,
                value: *value,
                ease: *ease,
                rest: Box::new((&**rest).clone()),
            },
        }
    }
}

/// A value in thousandths, the same throughout or along a curve.
#[derive(PartialEq, Eq, Debug)]
pub enum Animated {
    Const(i32),
    Curve(Keys),
}

impl Clone for Animated {
    fn clone(&self) -> (r: Self)
        ensures
            r == *self,
    {
        match self {
            Animated::Const(v) => Animated::Const(*v),
            Animated::Curve(k) => Animated::Curve(k.clone()),
        }
    }
}

impl Animated {
    /// A curve of two eased keys.
    pub open spec fn sweep(from: i32, to: i32, over: Time) -> Animated {
        Animated::Curve(
            Keys::Key {
                at: 0,
                value: from,
                ease: Interp::Smooth,
                rest: Box::new(
                    Keys::Key { at: over, value: to, ease: Interp::Smooth, rest: Box::new(Keys::End) },
                ),
            },
        )
    }

    pub(crate) fn new_sweep(from: i32, to: i32, over: Time) -> (r: Animated)
        ensures
            r == Animated::sweep(from, to, over),
    {
        Animated::Curve(
            Keys::Key {
                at: 0,
                value: from,
                ease: Interp::Smooth,
                rest: Box::new(
                    Keys::Key { at: over, value: to, ease: Interp::Smooth, rest: Box::new(Keys::End) },
                ),
            },
        )
    }

    /// With `v` written at `t`: on a curve as the key there, and otherwise throughout.
    pub open spec fn written(self, t: Time, v: i32) -> Animated {
        match self {
            Animated::Const(_) => Animated::Const(v),
            Animated::Curve(k) => Animated::Curve(k.put(t, v)),
        }
    }

    /// With a key dropped at `t`, or the one there pulled. `now` is what the curve
    /// gives at `t`, which a dropped key keeps. A curve whose last key is pulled has
    /// that key's value throughout.
    pub open spec fn toggled(self, t: Time, now: i32) -> Animated {
        match self {
            Animated::Const(v) => Animated::Curve(Keys::End.put(t, v)),
            Animated::Curve(k) => match k.find(t) {
                None => Animated::Curve(k.put(t, now)),
                Some((v, _)) => if k.pulled(t) is End { Animated::Const(v) } else { Animated::Curve(k.pulled(t)) },
            },
        }
    }

    /// With the next velocity on the key at `t`.
    pub open spec fn cycled(self, t: Time) -> Animated {
        match self {
            Animated::Const(v) => Animated::Const(v),
            Animated::Curve(k) => Animated::Curve(k.eased(t)),
        }
    }

    /// The velocity of the key at `t`.
    pub open spec fn ease_of(self, t: Time) -> Option<Interp> {
        match self {
            Animated::Const(_) => None,
            Animated::Curve(k) => match k.find(t) {
                Some((_, ease)) => Some(ease),
                None => None,
            },
        }
    }

    /// Whether the value follows a curve.
    pub fn is_animated(&self) -> (r: bool)
        ensures
            r == (*self is Curve),
    {
        matches!(self, Animated::Curve(_))
    }

    /// Write `v` at `t`.
    pub fn write(self, t: Time, v: i32) -> (r: Animated)
        ensures
            r == self.written(t, v),
    {
        match self {
            Animated::Const(_) => Animated::Const(v),
            Animated::Curve(k) => Animated::Curve(k.with_key(t, v)),
        }
    }

    /// Drop a key at `t`, or pull the one there.
    pub fn toggle_key(self, t: Time, now: i32) -> (r: Animated)
        ensures
            r == self.toggled(t, now),
    {
        match self {
            Animated::Const(v) => Animated::Curve(Keys::End.with_key(t, v)),
            Animated::Curve(k) => match k.key_at(t) {
                None => Animated::Curve(k.with_key(t, now)),
                Some((v, _)) => {
                    let left: Keys = k.without_key(t);
                    if matches!(left, Keys::End) { Animated::Const(v) } else { Animated::Curve(left) }
                },
            },
        }
    }

    /// Click the velocity of the key at `t`.
    pub fn cycle_interp(self, t: Time) -> (r: Animated)
        ensures
            r == self.cycled(t),
    {
        match self {
            Animated::Const(v) => Animated::Const(v),
            Animated::Curve(k) => Animated::Curve(k.with_ease(t)),
        }
    }

    /// The velocity of the key at `t`, where there is one.
    pub fn key_interp(&self, t: Time) -> (r: Option<Interp>)
        ensures
            r == self.ease_of(t),
    {
        match self {
            Animated::Const(_) => None,
            Animated::Curve(k) => match k.key_at(t) {
                Some((_, ease)) => Some(ease),
                None => None,
            },
        }
    }

    pub(crate) fn same(&self, other: &Animated) -> (r: bool)
        ensures
            r == (*self == *other),
    {
        match (self, other) {
            (Animated::Const(v), Animated::Const(w)) => *v == *w,
            (Animated::Curve(k), Animated::Curve(l)) => k.same(l),
            _ => false,
        }
    }
}

/// Law: a key that was set is found with its value, every other key is as it was, and
/// the keys stay in order.
pub proof fn law_set_key(k: Keys, t: Time, v: i32, u: Time, low: int)
    requires
        k.rising_from(low),
        low < t,
    ensures
        k.put(t, v).find(t) == Some(
            (
                v,
                match k.find(t) {
                    Some((_, ease)) => ease,
                    None => Interp::Smooth,
                },
            ),
        ),
        u != t ==> k.put(t, v).find(u) == k.find(u),
        k.put(t, v).rising_from(low),
    decreases k,
{
    reveal_with_fuel(Keys::rising_from, 3);
    if let Keys::Key { at, rest, .. } = k {
        if t > at {
            law_set_key(*rest, t, v, u, at as int);
        } else {
            lemma_none_before(*rest, at as int, t);
        }
    }
}

/// Law: a key that was pulled is gone, every other key is as it was, and the keys stay
/// in order.
pub proof fn law_pull_key(k: Keys, t: Time, u: Time, low: int)
    requires
        k.rising_from(low),
    ensures
        k.pulled(t).find(t) is None,
        u != t ==> k.pulled(t).find(u) == k.find(u),
        k.pulled(t).rising_from(low),
    decreases k,
{
    if let Keys::Key { at, rest, .. } = k {
        if at == t {
            lemma_none_before(*rest, at as int, t);
            lemma_rising_lower(*rest, at as int, low);
        } else {
            law_pull_key(*rest, t, u, at as int);
        }
    }
}

/// Law: dropping a key where there is none and pulling it again leaves the curve as it
/// was.
pub proof fn law_pull_undoes_drop(k: Keys, t: Time, v: i32)
    requires
        k.find(t) is None,
    ensures
        k.put(t, v).pulled(t) == k,
    decreases k,
{
    if let Keys::Key { at, rest, .. } = k {
        if t > at {
            law_pull_undoes_drop(*rest, t, v);
        }
    }
}

/// Law: cycling changes only the velocity of the one key, and three clicks come back
/// to where they started.
pub proof fn law_cycle_velocity(k: Keys, t: Time, u: Time)
    ensures
        k.eased(t).find(t) == match k.find(t) {
            Some((v, ease)) => Some((v, ease.next())),
            None => None::<(i32, Interp)>,
        },
        u != t ==> k.eased(t).find(u) == k.find(u),
        k.eased(t).eased(t).eased(t) == k,
    decreases k,
{
    if let Keys::Key { at, rest, .. } = k {
        law_cycle_velocity(*rest, t, u);
    }
}

/// No key lies at or before what the keys rise from.
proof fn lemma_none_before(k: Keys, low: int, t: Time)
    requires
        k.rising_from(low),
        t <= low,
    ensures
        k.find(t) is None,
    decreases k,
{
    if let Keys::Key { at, rest, .. } = k {
        lemma_none_before(*rest, at as int, t);
    }
}

proof fn lemma_rising_lower(k: Keys, low: int, lower: int)
    requires
        k.rising_from(low),
        lower <= low,
    ensures
        k.rising_from(lower),
{
}

/// Law: the diamond sets a key at a time that has none, with the value that shows there,
/// and takes it away again; the first key of a constant holds its value.
pub proof fn law_diamond(a: Animated, t: Time, now: i32)
    ensures
        a matches Animated::Const(v) ==> {
            &&& a.toggled(t, now) is Curve
            &&& a.toggled(t, now)->Curve_0.find(t) == Some((v, Interp::Smooth))
            &&& a.toggled(t, now)->Curve_0.count() == 1
            &&& a.toggled(t, now).toggled(t, now) == a
        },
        a matches Animated::Curve(k) ==> k.find(t) is None && !(k is End) ==> a.toggled(t, now) is Curve && a.toggled(
            t,
            now,
        ).toggled(t, now) == a,
        a matches Animated::Curve(k) ==> k.find(t) is Some && k.count() == 1 ==> a.toggled(t, now) == Animated::Const(
            (k.find(t)->0).0,
        ),
        a matches Animated::Curve(k) ==> k.find(t) is Some && k.count() > 1 ==> a.toggled(t, now) is Curve && a.toggled(
            t,
            now,
        )->Curve_0.count() == k.count() - 1,
{
    reveal_with_fuel(Keys::put, 2);
    reveal_with_fuel(Keys::find, 3);
    reveal_with_fuel(Keys::pulled, 3);
    reveal_with_fuel(Keys::count, 3);
    if let Animated::Curve(k) = a {
        if k.find(t) is None {
            law_pull_undoes_drop(k, t, now);
            lemma_put_is_found(k, t, now);
        } else {
            lemma_pulled_count(k, t);
        }
    }
}

proof fn lemma_put_is_found(k: Keys, t: Time, v: i32)
    requires
        k.find(t) is None,
    ensures
        k.put(t, v).find(t) is Some,
    decreases k,
{
    if let Keys::Key { at, value, ease, rest } = k {
        if t > at {
            lemma_put_is_found(*rest, t, v);
        }
    }
}

proof fn lemma_pulled_count(k: Keys, t: Time)
    requires
        k.find(t) is Some,
    ensures
        k.pulled(t).count() + 1 == k.count(),
    decreases k,
{
    if let Keys::Key { at, value, ease, rest } = k {
        if at != t {
            lemma_pulled_count(*rest, t);
        }
    }
}

/// Law: a value written to a constant replaces it; written to a curve it becomes the key
/// at that time and leaves every other key. Cycling goes through smooth, linear and hold
/// and comes back.
pub proof fn law_write_value(a: Animated, t: Time, v: i32, u: Time, low: int)
    requires
        a matches Animated::Curve(k) ==> k.rising_from(low) && low < t,
    ensures
        a is Const ==> a.written(t, v) == Animated::Const(v) && a.cycled(t) == a,
        a matches Animated::Curve(k) ==> {
            &&& a.written(t, v) is Curve
            &&& a.written(t, v)->Curve_0.find(t) is Some && (a.written(t, v)->Curve_0.find(t)->0).0 == v
            &&& u != t ==> a.written(t, v)->Curve_0.find(u) == k.find(u)
            &&& a.cycled(t).cycled(t).cycled(t) == a
        },
        Interp::Smooth.next() == Interp::Linear && Interp::Linear.next() == Interp::Hold && Interp::Hold.next()
            == Interp::Smooth,
{
    if let Animated::Curve(k) = a {
        law_set_key(k, t, v, u, low);
        law_cycle_velocity(k, t, u);
    }
}

} // verus!
