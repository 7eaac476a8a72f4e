use vstd::prelude::*;

verus! {

/// `c` behaves as the function `g`: every result it can return is `g`'s.
pub open spec fn computes1<A, R, C: Fn(A) -> R>(c: C, g: spec_fn(A) -> R) -> bool {
    forall|a: A, r: R| #[trigger] c.ensures((a,), r) ==> r == g(a)
}

/// `c` behaves as the two-argument function `g`.
pub open spec fn computes2<A, B, R, C: Fn(A, B) -> R>(c: C, g: spec_fn(A, B) -> R) -> bool {
    forall|a: A, b: B, r: R| #[trigger] c.ensures((a, b), r) ==> r == g(a, b)
}

/// The secant iteration from the estimates `x0`, `x1`, after `done` updates
/// out of a budget of `max_iterations`.
///
/// Each update computes `x2 = next(x0, x1)`. The iteration succeeds with `x2`
/// once `settled(x1, x2)` holds (the step from `x1` to `x2` is within the
/// precision); otherwise it fails when the budget is spent or `x2` is not
/// finite, and else goes on from `(x1, x2)`.
pub open spec fn secant_from<T>(
    next: spec_fn(T, T) -> T,
    settled: spec_fn(T, T) -> bool,
    finite: spec_fn(T) -> bool,
    x0: T,
    x1: T,
    done: nat,
    max_iterations: nat,
) -> Option<T>
    decreases max_iterations - done,
{
    let x2 = next(x0, x1);
    if settled(x1, x2) {
        Some(x2)
    } else if done >= max_iterations || !finite(x2) {
        None
    } else {
        secant_from(next, settled, finite, x1, x2, done + 1, max_iterations)
    }
}

/// Refines a root of a scalar function by the secant method, from the two
/// starting estimates `x0` and `x1`.
///
/// `next(x0, x1)` is the secant update `x1 - f(x1) * (x1 - x0) / (f(x1) - f(x0))`,
/// `settled(x1, x2)` tells whether `|x2 - x1|` is within the precision, and
/// `finite(x)` whether an estimate is finite. The result is the first
/// settled estimate, or `None` once more than `max_iterations` updates have
/// been made or an update is not finite.
pub fn secant<T, N, S, F>(x0: T, x1: T, max_iterations: usize, next: N, settled: S, finite: F) -> (r:
    Option<T>) where T: Copy, N: Fn(T, T) -> T, S: Fn(T, T) -> bool, F: Fn(T) -> bool
    requires
        forall|a: T, b: T| next.requires((a, b)),
        forall|a: T, b: T| settled.requires((a, b)),
        forall|a: T| finite.requires((a,)),
    ensures
        forall|n: spec_fn(T, T) -> T, s: spec_fn(T, T) -> bool, f: spec_fn(T) -> bool|
            computes2(next, n) && computes2(settled, s) && computes1(finite, f) ==> r
                == #[trigger] secant_from(n, s, f, x0, x1, 0, max_iterations as nat),
{
    let mut a = x0;
    let mut b = x1;
    let mut done: usize = 0;
    loop
        invariant
            done <= max_iterations,
            forall|a: T, b: T| next.requires((a, b)),
            forall|a: T, b: T| settled.requires((a, b)),
            forall|a: T| finite.requires((a,)),
            forall|n: spec_fn(T, T) -> T, s: spec_fn(T, T) -> bool, f: spec_fn(T) -> bool|
                computes2(next, n) && computes2(settled, s) && computes1(finite, f) ==> #[trigger]
                secant_from(n, s, f, x0, x1, 0, max_iterations as nat) == secant_from(
                    n,
                    s,
                    f,
                    a,
                    b,
                    done as nat,
                    max_iterations as nat,
                ),
        decreases max_iterations - done,
    {
        let c = next(a, b);
        let close = settled(b, c);
        let ok = finite(c);
        assert forall|n: spec_fn(T, T) -> T, s: spec_fn(T, T) -> bool, f: spec_fn(T) -> bool|
            computes2(next, n) && computes2(settled, s) && computes1(finite, f) implies
            #[trigger] secant_from(n, s, f, a, b, done as nat, max_iterations as nat) == (if close {
                Some(c)
            } else if done >= max_iterations || !ok {
                None
            } else {
                secant_from(n, s, f, b, c, done as nat + 1, max_iterations as nat)
            }) by {
            assert(next.ensures((a, b), c));
            assert(settled.ensures((b, c), close));
            assert(finite.ensures((c,), ok));
        }
        if close {
            return Some(c);
        }
        if done >= max_iterations || !ok {
            return None;
        }
        a = b;
        b = c;
        done = done + 1;
    }
}

/// A root that the secant iteration returns is a settled update: the secant
/// step `next(a, b)` from some pair of estimates, within the precision of
/// `b`.
pub proof fn secant_result_is_settled<T>(
    next: spec_fn(T, T) -> T,
    settled: spec_fn(T, T) -> bool,
    finite: spec_fn(T) -> bool,
    x0: T,
    x1: T,
    done: nat,
    max_iterations: nat,
    root: T,
)
    requires
        secant_from(next, settled, finite, x0, x1, done, max_iterations) == Some(root),
    ensures
        exists|a: T, b: T| root == next(a, b) && #[trigger] settled(b, next(a, b)),
    decreases max_iterations - done,
{
    let x2 = next(x0, x1);
    if settled(x1, x2) {
        assert(root == next(x0, x1) && settled(x1, next(x0, x1)));
    } else {
        secant_result_is_settled(next, settled, finite, x1, x2, done + 1, max_iterations, root);
    }
}

/// Where no update ever settles (as for a function without a real root),
/// the secant iteration ends in failure.
pub proof fn secant_fails_when_unsettled<T>(
    next: spec_fn(T, T) -> T,
    settled: spec_fn(T, T) -> bool,
    finite: spec_fn(T) -> bool,
    x0: T,
    x1: T,
    done: nat,
    max_iterations: nat,
)
    requires
        forall|a: T, b: T| !#[trigger] settled(a, b),
    ensures
        secant_from(next, settled, finite, x0, x1, done, max_iterations) is None,
    decreases max_iterations - done,
{
    let x2 = next(x0, x1);
    if !(done >= max_iterations || !finite(x2)) {
        secant_fails_when_unsettled(next, settled, finite, x1, x2, done + 1, max_iterations);
    }
}

/// Uniform-step marching from sample `i` on: sample `i` lies at
/// `position(i)`; marching stops with no hit at the first sample that is not
/// `within` range, with a hit at the first sample that is `inside` a surface,
/// and with no hit after the last index a `usize` can count.
pub open spec fn march_from<T>(
    position: spec_fn(usize) -> T,
    within: spec_fn(T) -> bool,
    inside: spec_fn(T) -> bool,
    i: nat,
) -> Option<T>
    decreases usize::MAX - i,
{
    let t = position(i as usize);
    if !within(t) {
        None
    } else if inside(t) {
        Some(t)
    } else if i >= usize::MAX {
        None
    } else {
        march_from(position, within, inside, i + 1)
    }
}

/// Marches along a ray with a fixed stride and returns the parameter of the
/// first sample that lies inside or on a surface, unrefined.
///
/// `position(i)` is the parameter of sample `i` (`min + step * i`),
/// `within(t)` tells whether `t` is still short of the far bound, and
/// `inside(t)` whether the scene's distance at `t` is zero or less. `None`
/// means that the ray left the range without a hit.
pub fn ray_march<T, P, W, H>(position: P, within: W, inside: H) -> (r: Option<T>) where
    T: Copy,
    P: Fn(usize) -> T,
    W: Fn(T) -> bool,
    H: Fn(T) -> bool,

    requires
        forall|i: usize| position.requires((i,)),
        forall|t: T| within.requires((t,)),
        forall|t: T| inside.requires((t,)),
    ensures
        forall|p: spec_fn(usize) -> T, w: spec_fn(T) -> bool, h: spec_fn(T) -> bool|
            computes1(position, p) && computes1(within, w) && computes1(inside, h) ==> r
                == #[trigger] march_from(p, w, h, 0),
{
    let mut i: usize = 0;
    loop
        invariant
            forall|i: usize| position.requires((i,)),
            forall|t: T| within.requires((t,)),
            forall|t: T| inside.requires((t,)),
            forall|p: spec_fn(usize) -> T, w: spec_fn(T) -> bool, h: spec_fn(T) -> bool|
                computes1(position, p) && computes1(within, w) && computes1(inside, h)
                    ==> #[trigger] march_from(p, w, h, 0) == march_from(p, w, h, i as nat),
        decreases usize::MAX - i,
    {
        let t = position(i);
        let in_range = within(t);
        let hit = inside(t);
        assert forall|p: spec_fn(usize) -> T, w: spec_fn(T) -> bool, h: spec_fn(T) -> bool|
            computes1(position, p) && computes1(within, w) && computes1(inside, h) implies
            #[trigger] march_from(p, w, h, i as nat) == (if !in_range {
                None
            } else if hit {
                Some(t)
            } else if i == usize::MAX {
                None
            } else {
                march_from(p, w, h, i as nat + 1)
            }) by {
            assert(position.ensures((i,), t));
            assert(within.ensures((t,), in_range));
            assert(inside.ensures((t,), hit));
        }
        if !in_range {
            return None;
        }
        if hit {
            return Some(t);
        }
        if i == usize::MAX {
            return None;
        }
        i = i + 1;
    }
}

/// A hit of the marcher is a sample in range and inside a surface, and every
/// sample before it was in range and outside.
pub proof fn march_hit_is_first_inside<T>(
    position: spec_fn(usize) -> T,
    within: spec_fn(T) -> bool,
    inside: spec_fn(T) -> bool,
    i: nat,
    t: T,
)
    requires
        i <= usize::MAX,
        march_from(position, within, inside, i) == Some(t),
    ensures
        exists|k: nat|
            #![trigger position(k as usize)]
            i <= k <= usize::MAX && t == position(k as usize) && within(t) && inside(t) && forall|
                j: nat,
            |
                i <= j < k ==> within(#[trigger] position(j as usize)) && !inside(
                    position(j as usize),
                ),
    decreases usize::MAX - i,
{
    let s = position(i as usize);
    if within(s) && !inside(s) && i < usize::MAX {
        march_hit_is_first_inside(position, within, inside, i + 1, t);
        let k = choose|k: nat|
            #![trigger position(k as usize)]
            i + 1 <= k <= usize::MAX && t == position(k as usize) && within(t) && inside(t)
                && forall|j: nat|
                i + 1 <= j < k ==> within(#[trigger] position(j as usize)) && !inside(
                    position(j as usize),
                );
        assert forall|j: nat| i <= j < k implies within(#[trigger] position(j as usize)) && !inside(
            position(j as usize),
        ) by {
            if j == i {
            } else {
                assert(i + 1 <= j < k);
            }
        }
    }
}

/// A ray along which no sample lies inside a surface misses.
pub proof fn march_misses_when_never_inside<T>(
    position: spec_fn(usize) -> T,
    within: spec_fn(T) -> bool,
    inside: spec_fn(T) -> bool,
    i: nat,
)
    requires
        i <= usize::MAX,
        forall|k: usize| !#[trigger] inside(position(k)),
    ensures
        march_from(position, within, inside, i) is None,
    decreases usize::MAX - i,
{
    let s = position(i as usize);
    assert(!inside(position(i as usize)));
    if within(s) && i < usize::MAX {
        march_misses_when_never_inside(position, within, inside, i + 1);
    }
}

} // verus!
