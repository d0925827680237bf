//! Watering positions along the rail, and the shortest way to visit several of them.

use crate::intensity_config::IntensityConfig;
use itertools::Itertools;
use vstd::prelude::*;

verus! {

/// Why no route could be planned.
#[derive(Debug, Clone, Copy, PartialEq, Eq, Structural)]
pub enum WateringPositionError {
    /// No position was given.
    Empty,
    /// No given position lies at the starting coordinate.
    NotFound,
}

/// Where the actuator stands to water one pot, and how hard it waters there.
#[derive(Debug, Clone, Copy)]
pub struct WateringPosition {
    pub stepper: i32,
    pub servo: u8,
    pub water_time_curve: IntensityConfig,
    pub water_pwm_curve: IntensityConfig,
}

impl PartialEq for WateringPosition {
    fn eq(&self, other: &Self) -> (r: bool) {
        self.stepper == other.stepper && self.servo == other.servo
    }
}

impl vstd::std_specs::cmp::PartialEqSpecImpl for WateringPosition {
    open spec fn obeys_eq_spec() -> bool {
        true
    }

    open spec fn eq_spec(&self, other: &Self) -> bool {
        self.stepper == other.stepper && self.servo == other.servo
    }
}

impl PartialOrd for WateringPosition {
    fn partial_cmp(&self, other: &Self) -> (r: Option<std::cmp::Ordering>) {
        if self.stepper > other.stepper {
            Some(std::cmp::Ordering::Greater)
        } else if self.stepper < other.stepper {
            Some(std::cmp::Ordering::Less)
        } else if self.servo > other.servo {
            Some(std::cmp::Ordering::Greater)
        } else if self.servo < other.servo {
            Some(std::cmp::Ordering::Less)
        } else {
            Some(std::cmp::Ordering::Equal)
        }
    }
}

impl vstd::std_specs::cmp::PartialOrdSpecImpl for WateringPosition {
    open spec fn obeys_partial_cmp_spec() -> bool {
        true
    }

    open spec fn partial_cmp_spec(&self, other: &Self) -> Option<std::cmp::Ordering> {
        if self.stepper > other.stepper {
            Some(std::cmp::Ordering::Greater)
        } else if self.stepper < other.stepper {
            Some(std::cmp::Ordering::Less)
        } else if self.servo > other.servo {
            Some(std::cmp::Ordering::Greater)
        } else if self.servo < other.servo {
            Some(std::cmp::Ordering::Less)
        } else {
            Some(std::cmp::Ordering::Equal)
        }
    }
}

/// The rail distance between two positions.
pub open spec fn distance_spec(from: WateringPosition, to: WateringPosition) -> int {
    if to.stepper >= from.stepper {
        to.stepper - from.stepper
    } else {
        from.stepper - to.stepper
    }
}

/// The rail distance travelled when the positions `l[path[0]]`, `l[path[1]]`, ... are
/// visited in that order.
pub open spec fn total_distance_spec(l: Seq<WateringPosition>, path: Seq<usize>) -> int
    decreases path.len(),
{
    if path.len() < 2 {
        0
    } else {
        total_distance_spec(l, path.drop_last()) + distance_spec(
            l[path[path.len() - 2] as int],
            l[path[path.len() - 1] as int],
        )
    }
}

/// The positions that the references of `l` point to.
pub open spec fn positions_of(l: Seq<&WateringPosition>) -> Seq<WateringPosition> {
    l.map_values(|p: &WateringPosition| *p)
}

/// Some position of `l` lies at the coordinate `pos`.
pub open spec fn has_stepper(l: Seq<WateringPosition>, pos: int) -> bool {
    exists|i: int| 0 <= i < l.len() && (#[trigger] l[i]).stepper == pos
}

/// `i` is the first index of `l` whose position lies at the coordinate `pos`.
pub open spec fn is_first_at(l: Seq<WateringPosition>, pos: int, i: int) -> bool {
    &&& 0 <= i < l.len()
    &&& l[i].stepper == pos
    &&& forall|j: int| 0 <= j < i ==> (#[trigger] l[j]).stepper != pos
}

/// `p` holds every element of `items` once, in some order (`items` itself holds none twice).
pub open spec fn is_arrangement(p: Seq<usize>, items: Seq<usize>) -> bool {
    &&& p.len() == items.len()
    &&& p.no_duplicates()
    &&& forall|j: int| 0 <= j < p.len() ==> items.contains(#[trigger] p[j])
}

/// `path` visits each of the `n` positions once and starts with `anchor`.
pub open spec fn is_route(n: int, anchor: usize, path: Seq<usize>) -> bool {
    &&& path.len() == n
    &&& n > 0
    &&& path[0] == anchor
    &&& path.no_duplicates()
    &&& forall|j: int| 0 <= j < path.len() ==> (#[trigger] path[j]) < n
}

/// The indices `0..n` other than `anchor`, in the order in which the search takes them:
/// ascending, but with 0 standing in the place of `anchor`.
pub open spec fn remaining(n: int, anchor: usize) -> Seq<usize> {
    Seq::new(
        (n - 1) as nat,
        |j: int|
            if j + 1 == anchor {
                0usize
            } else {
                (j + 1) as usize
            },
    )
}

/// The route that starts at `anchor` and goes on as `perm` says.
pub open spec fn route(anchor: usize, perm: Seq<usize>) -> Seq<usize> {
    seq![anchor] + perm
}

/// The index of the first shortest route among the first `k` of `perms`.
pub open spec fn first_shortest(
    l: Seq<WateringPosition>,
    anchor: usize,
    perms: Seq<Seq<usize>>,
    k: int,
) -> int
    decreases k,
{
    if k <= 1 {
        0
    } else {
        let b = first_shortest(l, anchor, perms, k - 1);
        if total_distance_spec(l, route(anchor, perms[k - 1])) < total_distance_spec(
            l,
            route(anchor, perms[b]),
        ) {
            k - 1
        } else {
            b
        }
    }
}

/// The first of the shortest among the routes that start at `anchor` and go on as one
/// of `perms` says.
pub open spec fn shortest_of(l: Seq<WateringPosition>, anchor: usize, perms: Seq<Seq<usize>>) -> Seq<
    usize,
> {
    route(anchor, perms[first_shortest(l, anchor, perms, perms.len() as int)])
}

/// `anchor` and all that `perms` hold are indices of `n` positions.
pub open spec fn routes_fit(n: int, anchor: usize, perms: Seq<Seq<usize>>) -> bool {
    &&& anchor < n
    &&& forall|i: int, j: int|
        0 <= i < perms.len() && 0 <= j < perms[i].len() ==> (#[trigger] perms[i][j]) < n
}

/// The first index of `l` whose position lies at the coordinate `pos`.
pub open spec fn anchor_of(l: Seq<WateringPosition>, pos: int) -> int {
    choose|i: int| is_first_at(l, pos, i)
}

/// The first of the shortest routes over all positions of `l` that start at the first
/// position at the coordinate `pos`, in the order in which the routes are tried: the
/// remaining indices in every arrangement, in the order of [`permutation_list`].
pub open spec fn minimal_path(l: Seq<WateringPosition>, pos: int) -> Seq<usize> {
    let anchor = anchor_of(l, pos) as usize;
    shortest_of(l, anchor, permutation_list(remaining(l.len() as int, anchor)))
}

/// The arrangements of `items`, in the order in which `itertools` yields them.
pub uninterp spec fn permutation_list(items: Seq<usize>) -> Seq<Seq<usize>>;

/// All arrangements of `items`, from `Itertools::permutations` with the full length.
///
/// Trusted: the outcome depends on `items` alone; and where `items` holds nothing twice,
/// each entry holds every element of `items` once, and every such arrangement is among
/// the entries.
#[verifier::external_body]
fn permutations(items: &Vec<usize>) -> (r: Vec<Vec<usize>>)
    ensures
        r.deep_view() == permutation_list(items@),
        items@.no_duplicates() ==> forall|i: int|
            0 <= i < r.len() ==> is_arrangement(#[trigger] r[i]@, items@),
        items@.no_duplicates() ==> forall|p: Seq<usize>| #[trigger]
            is_arrangement(p, items@) ==> exists|i: int| 0 <= i < r.len() && r[i]@ == p,
{
    items.iter().copied().permutations(items.len()).collect()
}

/// Every index below `n` other than `anchor` is among `remaining(n, anchor)`, which holds
/// nothing else and nothing twice.
pub proof fn lemma_remaining(n: int, anchor: usize)
    requires
        0 <= anchor < n <= usize::MAX,
    ensures
        remaining(n, anchor).len() == n - 1,
        remaining(n, anchor).no_duplicates(),
        forall|v: usize| #[trigger]
            remaining(n, anchor).contains(v) <==> v < n && v != anchor,
{
    let rest = remaining(n, anchor);
    assert forall|v: usize| #[trigger] rest.contains(v) <==> v < n && v != anchor by {
        if v < n && v != anchor {
            if v == 0 {
                assert(rest[anchor - 1] == v);
            } else {
                assert(rest[v - 1] == v);
            }
        }
    }
}

impl WateringPosition {
    /// A position at the coordinate `stepper`, watered along the given curves.
    pub fn new(
        stepper: i32,
        servo: u8,
        water_time_curve: IntensityConfig,
        water_pwm_curve: IntensityConfig,
    ) -> (r: WateringPosition)
        ensures
            r.stepper == stepper,
            r.servo == servo,
            r.water_time_curve == water_time_curve,
            r.water_pwm_curve == water_pwm_curve,
    {
        WateringPosition { stepper, servo, water_time_curve, water_pwm_curve }
    }

    /// The rail distance between two positions.
    pub fn distance(from: &WateringPosition, to: &WateringPosition) -> (d: u32)
        ensures
            d == distance_spec(*from, *to),
    {
        let a: i64 = from.stepper as i64;
        let b: i64 = to.stepper as i64;
        if b >= a {
            (b - a) as u32
        } else {
            (a - b) as u32
        }
    }

    /// The rail distance travelled along `path`.
    pub fn total_distance(l: &[&WateringPosition], path: &[usize]) -> (d: u128)
        requires
            forall|j: int| 0 <= j < path@.len() ==> (#[trigger] path@[j]) < l@.len(),
        ensures
            d == total_distance_spec(positions_of(l@), path@),
    {
        let mut acc: u128 = 0;
        if path.len() < 2 {
            return acc;
        }
        let mut k: usize = 1;
        assert(path@.take(1).len() < 2);
        while k < path.len()
            invariant
                1 <= k <= path@.len(),
                forall|j: int| 0 <= j < path@.len() ==> (#[trigger] path@[j]) < l@.len(),
                acc == total_distance_spec(positions_of(l@), path@.take(k as int)),
                acc <= (k - 1) * 0xffff_ffff,
            decreases path@.len() - k,
        {
            let step: u32 = WateringPosition::distance(l[path[k - 1]], l[path[k]]);
            proof {
                let whole = path@.take(k + 1);
                assert(whole.drop_last() =~= path@.take(k as int));
                assert(whole[whole.len() - 2] == path@[k - 1]);
                assert(whole[whole.len() - 1] == path@[k as int]);
            }
            acc = acc + step as u128;
            k = k + 1;
        }
        assert(path@.take(k as int) =~= path@);
        acc
    }

    /// Finds the shortest order in which to visit all positions of `l`, starting from the
    /// first one that lies at `start_pos`.
    ///
    /// The search tries every order, so its cost grows as the factorial of `l.len()`.
    pub fn find_minimal_distance_path(l: &[&WateringPosition], start_pos: i32) -> (r: Result<
        Vec<usize>,
        WateringPositionError,
    >)
        ensures
            l@.len() == 0 ==> r == Err::<Vec<usize>, _>(WateringPositionError::Empty),
            l@.len() > 0 && !has_stepper(positions_of(l@), start_pos as int) ==> r == Err::<Vec<usize>, _>(
                WateringPositionError::NotFound,
            ),
            l@.len() > 0 && has_stepper(positions_of(l@), start_pos as int) ==> r.is_ok(),
            r matches Ok(path) ==> {
                let anchor = path@[0];
                &&& is_first_at(positions_of(l@), start_pos as int, anchor as int)
                &&& is_route(l@.len() as int, anchor, path@)
                &&& path@ == minimal_path(positions_of(l@), start_pos as int)
                &&& forall|q: Seq<usize>| #[trigger]
                    is_route(l@.len() as int, anchor, q) ==> total_distance_spec(positions_of(l@), path@)
                        <= total_distance_spec(positions_of(l@), q)
            },
    {
        let n = l.len();
        if n == 0 {
            return Err(WateringPositionError::Empty);
        }
        let mut anchor: usize = 0;
        while anchor < n && l[anchor].stepper != start_pos
            invariant
                n == l@.len(),
                0 <= anchor <= n,
                forall|j: int| 0 <= j < anchor ==> (#[trigger] positions_of(l@)[j]).stepper != start_pos,
            decreases n - anchor,
        {
            anchor = anchor + 1;
        }
        if anchor >= n {
            return Err(WateringPositionError::NotFound);
        }
        let mut rest: Vec<usize> = Vec::new();
        let mut j: usize = 1;
        while j < n
            invariant
                n == l@.len(),
                1 <= j <= n,
                anchor < n,
                rest@ =~= remaining(j as int, anchor),
            decreases n - j,
        {
            rest.push(
                if j == anchor {
                    0
                } else {
                    j
                },
            );
            j = j + 1;
        }
        proof {
            lemma_remaining(n as int, anchor);
        }
        let perms = permutations(&rest);
        let ghost named = permutation_list(rest@);
        assert(is_arrangement(rest@, rest@));
        assert(perms.len() >= 1);
        assert(named.len() == perms.len());
        assert forall|i: int| 0 <= i < perms.len() implies #[trigger] named[i] == perms[i]@ by {
            assert(perms.deep_view()[i] == perms[i]@);
        }
        assert(routes_fit(n as int, anchor, named)) by {
            assert forall|i: int, j: int|
                0 <= i < named.len() && 0 <= j < named[i].len() implies (#[trigger] named[i][j])
                < n by {
                assert(is_arrangement(perms[i]@, rest@));
                assert(rest@.contains(perms[i]@[j]));
            }
        }
        let best_path: Vec<usize> = match WateringPosition::shortest_route(l, anchor, &perms) {
            Some(path) => path,
            None => {
                return Err(WateringPositionError::NotFound);
            },
        };
        proof {
            let b = first_shortest(positions_of(l@), anchor, named, named.len() as int);
            assert(is_arrangement(perms[b]@, rest@));
            Self::lemma_route_is_route(n as int, anchor, named[b]);
            assert(is_first_at(positions_of(l@), start_pos as int, anchor as int));
            let chosen = anchor_of(positions_of(l@), start_pos as int);
            assert(is_first_at(positions_of(l@), start_pos as int, chosen));
            assert(chosen == anchor);
            assert forall|q: Seq<usize>| #[trigger]
                is_route(n as int, anchor, q) implies total_distance_spec(positions_of(l@), best_path@)
                <= total_distance_spec(positions_of(l@), q) by {
                let tail = q.skip(1);
                assert forall|j: int| 0 <= j < tail.len() implies remaining(
                    n as int,
                    anchor,
                ).contains(#[trigger] tail[j]) by {
                    assert(tail[j] == q[j + 1]);
                    assert(q[j + 1] != q[0]);
                }
                assert(tail.no_duplicates()) by {
                    assert forall|a: int, b: int|
                        0 <= a < tail.len() && 0 <= b < tail.len() && a != b implies tail[a]
                        != tail[b] by {
                        assert(tail[a] == q[a + 1]);
                        assert(tail[b] == q[b + 1]);
                    }
                }
                assert(is_arrangement(tail, rest@));
                let i = choose|i: int| 0 <= i < perms.len() && perms[i]@ == tail;
                assert(named[i] == tail);
                assert(q =~= route(anchor, tail));
            }
        }
        Ok(best_path)
    }

    /// Picks the shortest among the routes that start at `anchor` and go on as one of
    /// `perms` says; among equally short ones, the first. There is none where `perms`
    /// is empty.
    pub fn shortest_route(l: &[&WateringPosition], anchor: usize, perms: &Vec<Vec<usize>>) -> (r:
        Option<Vec<usize>>)
        requires
            routes_fit(l@.len() as int, anchor, perms.deep_view()),
        ensures
            r.is_some() <==> perms@.len() > 0,
            r matches Some(path) ==> {
                &&& path@ == shortest_of(positions_of(l@), anchor, perms.deep_view())
                &&& 0 <= first_shortest(
                    positions_of(l@),
                    anchor,
                    perms.deep_view(),
                    perms@.len() as int,
                ) < perms@.len()
                &&& forall|i: int|
                    0 <= i < perms@.len() ==> total_distance_spec(positions_of(l@), path@)
                        <= total_distance_spec(
                        positions_of(l@),
                        route(anchor, #[trigger] perms.deep_view()[i]),
                    )
            },
    {
        if perms.len() == 0 {
            return None;
        }
        let ghost named = perms.deep_view();
        assert(named.len() == perms.len());
        assert forall|i: int| 0 <= i < perms.len() implies #[trigger] named[i] == perms[i]@ by {
            assert(perms.deep_view()[i] =~= perms[i]@);
        }
        let mut best_path: Vec<usize> = Self::path_from(anchor, &perms[0]);
        proof {
            Self::lemma_route_fits(l@.len() as int, anchor, named, 0);
            assert(best_path@ == route(anchor, named[0]));
        }
        let mut min_distance: u128 = WateringPosition::total_distance(l, best_path.as_slice());
        let mut k: usize = 1;
        while k < perms.len()
            invariant
                1 <= k <= perms.len(),
                named == perms.deep_view(),
                named.len() == perms.len(),
                routes_fit(l@.len() as int, anchor, named),
                forall|i: int| 0 <= i < perms.len() ==> #[trigger] named[i] == perms[i]@,
                best_path@ == route(
                    anchor,
                    named[first_shortest(positions_of(l@), anchor, named, k as int)],
                ),
                0 <= first_shortest(positions_of(l@), anchor, named, k as int) < k,
                min_distance == total_distance_spec(positions_of(l@), best_path@),
                forall|i: int|
                    0 <= i < k ==> min_distance <= total_distance_spec(
                        positions_of(l@),
                        route(anchor, #[trigger] named[i]),
                    ),
            decreases perms.len() - k,
        {
            let path = Self::path_from(anchor, &perms[k]);
            proof {
                Self::lemma_route_fits(l@.len() as int, anchor, named, k as int);
                assert(path@ == route(anchor, named[k as int]));
            }
            let dist = WateringPosition::total_distance(l, path.as_slice());
            if dist < min_distance {
                min_distance = dist;
                best_path = path;
            }
            k = k + 1;
        }
        Some(best_path)
    }

    /// A route over indices that fit holds indices that fit.
    proof fn lemma_route_fits(n: int, anchor: usize, perms: Seq<Seq<usize>>, i: int)
        requires
            routes_fit(n, anchor, perms),
            0 <= i < perms.len(),
        ensures
            forall|j: int|
                0 <= j < route(anchor, perms[i]).len() ==> (#[trigger] route(anchor, perms[i])[j])
                    < n,
    {
        let path = route(anchor, perms[i]);
        assert forall|j: int| 0 <= j < path.len() implies (#[trigger] path[j]) < n by {
            if j > 0 {
                assert(path[j] == perms[i][j - 1]);
            }
        }
    }

    /// The route that starts at `anchor` and goes on as `perm` says.
    fn path_from(anchor: usize, perm: &Vec<usize>) -> (path: Vec<usize>)
        ensures
            path@ == route(anchor, perm@),
    {
        let mut path: Vec<usize> = Vec::new();
        path.push(anchor);
        let mut i: usize = 0;
        while i < perm.len()
            invariant
                0 <= i <= perm.len(),
                path@ =~= route(anchor, perm@.take(i as int)),
            decreases perm.len() - i,
        {
            path.push(perm[i]);
            i = i + 1;
        }
        assert(perm@.take(i as int) =~= perm@);
        path
    }

    /// A route built from an arrangement of the remaining indices visits every position
    /// once.
    proof fn lemma_route_is_route(n: int, anchor: usize, perm: Seq<usize>)
        requires
            0 <= anchor < n <= usize::MAX,
            is_arrangement(perm, remaining(n, anchor)),
        ensures
            is_route(n, anchor, route(anchor, perm)),
    {
        lemma_remaining(n, anchor);
        let path = route(anchor, perm);
        assert forall|j: int| 0 <= j < path.len() implies (#[trigger] path[j]) < n by {
            if j > 0 {
                assert(path[j] == perm[j - 1]);
                assert(remaining(n, anchor).contains(perm[j - 1]));
            }
        }
        assert forall|a: int, b: int|
            0 <= a < path.len() && 0 <= b < path.len() && a != b implies path[a] != path[b] by {
            if a > 0 {
                assert(path[a] == perm[a - 1]);
                assert(remaining(n, anchor).contains(perm[a - 1]));
            }
            if b > 0 {
                assert(path[b] == perm[b - 1]);
                assert(remaining(n, anchor).contains(perm[b - 1]));
            }
        }
    }
}

} // verus!
