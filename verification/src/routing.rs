use crate::emergency::{paused_status, EmergencyManager};
use crate::error::{ErrorCode, SLIPPAGE_CODE};
use crate::key::Pubkey;
use crate::constants::MAX_HOPS;
use crate::swap::{swap_effect, swap_output, SwapManager};
use crate::types::{PoolSnapshot, PoolView, SharedLiquidityPool, SwapPath};
use vstd::prelude::*;

verus! {

/// The models of a sequence of pools.
pub open spec fn pool_views(s: Seq<SharedLiquidityPool>) -> Seq<PoolView> {
    s.map_values(|p: SharedLiquidityPool| p@)
}

/// The byte views of a sequence of addresses.
pub open spec fn key_views(s: Seq<Pubkey>) -> Seq<Seq<u8>> {
    s.map_values(|k: Pubkey| k@)
}

/// The views of a sequence of index paths.
pub open spec fn index_paths(s: Seq<Vec<usize>>) -> Seq<Seq<usize>> {
    s.map_values(|p: Vec<usize>| p@)
}

/// Depth-first enumeration of the swap routes from token `current` to token
/// `target` through at most `hops` pools, each route given by the indices of
/// its pools and extending `path`. A pool is skipped when it is `blocked`
/// (paused) or when it would lead to a token already in `visited`. Routes
/// come in the order in which the search finds them: pools are tried in
/// index order, and a route is recorded as soon as it reaches `target`.
/// `lemma_dfs_finds_routes` shows that these are exactly the routes that
/// `is_route` describes.
pub open spec fn dfs_paths(
    pools: Seq<PoolView>,
    blocked: Seq<bool>,
    current: Seq<u8>,
    target: Seq<u8>,
    hops: nat,
    path: Seq<usize>,
    visited: Seq<Seq<u8>>,
) -> Seq<Seq<usize>>
    decreases hops, 1int, 0int,
{
    if current == target {
        seq![path]
    } else if hops == 0 {
        Seq::empty()
    } else {
        explore_paths(pools, blocked, current, target, hops, path, visited, 0)
    }
}

/// The routes found by trying the pools from index `j` on.
pub open spec fn explore_paths(
    pools: Seq<PoolView>,
    blocked: Seq<bool>,
    current: Seq<u8>,
    target: Seq<u8>,
    hops: nat,
    path: Seq<usize>,
    visited: Seq<Seq<u8>>,
    j: int,
) -> Seq<Seq<usize>>
    decreases hops, 0int, pools.len() - j + 1,
{
    if j < 0 || j >= pools.len() {
        Seq::empty()
    } else {
        branch_paths(pools, blocked, current, target, hops, path, visited, j) + explore_paths(
            pools,
            blocked,
            current,
            target,
            hops,
            path,
            visited,
            j + 1,
        )
    }
}

/// The routes found by going through pool `j` next.
pub open spec fn branch_paths(
    pools: Seq<PoolView>,
    blocked: Seq<bool>,
    current: Seq<u8>,
    target: Seq<u8>,
    hops: nat,
    path: Seq<usize>,
    visited: Seq<Seq<u8>>,
    j: int,
) -> Seq<Seq<usize>>
    decreases hops, 0int, pools.len() - j,
{
    if j < 0 || j >= pools.len() || hops == 0 || blocked[j] {
        Seq::empty()
    } else if pools[j].token_a_mint@ == current {
        let next = pools[j].token_b_mint@;
        if visited.contains(next) {
            Seq::empty()
        } else {
            dfs_paths(
                pools,
                blocked,
                next,
                target,
                (hops - 1) as nat,
                path.push(j as usize),
                visited.push(next),
            )
        }
    } else if pools[j].token_b_mint@ == current {
        let next = pools[j].token_a_mint@;
        if visited.contains(next) {
            Seq::empty()
        } else {
            dfs_paths(
                pools,
                blocked,
                next,
                target,
                (hops - 1) as nat,
                path.push(j as usize),
                visited.push(next),
            )
        }
    } else {
        Seq::empty()
    }
}

/// The pools that are paused at the time `now`.
pub open spec fn blocked_flags(pools: Seq<PoolView>, now: Result<i64, ErrorCode>) -> Seq<bool> {
    Seq::new(
        pools.len(),
        |j: int| paused_status(pools[j].emergency_pause, now) == Ok::<bool, ErrorCode>(true),
    )
}

/// The error of the first pool whose pause status cannot be read at `now`.
pub open spec fn first_status_error(pools: Seq<PoolView>, now: Result<i64, ErrorCode>) -> Option<
    ErrorCode,
>
    decreases pools.len(),
{
    if pools.len() == 0 {
        None
    } else {
        match first_status_error(pools.drop_last(), now) {
            Some(e) => Some(e),
            None => match paused_status(pools.last().emergency_pause, now) {
                Err(e) => Some(e),
                Ok(_) => None,
            },
        }
    }
}

/// All swap routes from `input` to `output` through at most `hops` pools
/// that are not paused at `now`. Looking for routes reads the pause status
/// of every pool, and fails with the first status that cannot be read.
pub open spec fn all_paths(
    pools: Seq<PoolView>,
    now: Result<i64, ErrorCode>,
    input: Seq<u8>,
    output: Seq<u8>,
    hops: nat,
) -> Result<Seq<Seq<usize>>, ErrorCode> {
    if input != output && hops > 0 && first_status_error(pools, now) is Some {
        Err(first_status_error(pools, now)->Some_0)
    } else {
        Ok(dfs_paths(pools, blocked_flags(pools, now), input, output, hops, seq![], seq![]))
    }
}

/// What a route records of a pool.
pub open spec fn snapshot(p: PoolView) -> PoolSnapshot {
    PoolSnapshot {
        token_a_mint: p.token_a_mint,
        token_b_mint: p.token_b_mint,
        reserve_a: p.reserve_a,
        reserve_b: p.reserve_b,
        fee: p.fee,
    }
}

/// The pools of a route given by indices.
pub open spec fn snapshot_path(pools: Seq<PoolView>, path: Seq<usize>) -> Seq<PoolSnapshot> {
    path.map_values(|j: usize| snapshot(pools[j as int]))
}

/// Hop `i` of a route goes from token A to token B: the first hop always
/// does, a later one when the previous pool's token B is this pool's token A.
pub open spec fn hop_a_to_b(path: Seq<PoolSnapshot>, i: int) -> bool {
    i == 0 || path[i - 1].token_b_mint@ == path[i].token_a_mint@
}

/// Amount obtained after the first `i` hops of a route, starting from `amount`.
pub open spec fn simulate_hops(path: Seq<PoolSnapshot>, amount: u64, i: nat) -> Result<u64, ErrorCode>
    decreases i,
{
    if i == 0 {
        Ok(amount)
    } else {
        match simulate_hops(path, amount, (i - 1) as nat) {
            Err(e) => Err(e),
            Ok(x) => {
                let k = i - 1;
                let s = path[k];
                if hop_a_to_b(path, k) {
                    swap_output(s.reserve_a, s.reserve_b, x, s.fee)
                } else {
                    swap_output(s.reserve_b, s.reserve_a, x, s.fee)
                }
            },
        }
    }
}

/// Amount obtained at the end of a route.
pub open spec fn simulate_path(path: Seq<PoolSnapshot>, amount: u64) -> Result<u64, ErrorCode> {
    simulate_hops(path, amount, path.len())
}

/// Every pool of every route charges a fee of at most 100%.
pub open spec fn route_fees_valid(routes: Seq<Seq<PoolSnapshot>>) -> bool {
    forall|i: int, k: int|
        0 <= i < routes.len() && 0 <= k < routes[i].len() ==> #[trigger] routes[i][k].fee <= 10000
}

/// Best route among the first `n`: the first one with the highest output,
/// provided it is above zero, with that output (zero when there is none).
/// Fails with the first failing simulation.
pub open spec fn scan_best(routes: Seq<Seq<PoolSnapshot>>, amount: u64, n: nat) -> Result<
    (Option<int>, u64),
    ErrorCode,
>
    decreases n,
{
    if n == 0 {
        Ok((None, 0))
    } else {
        match scan_best(routes, amount, (n - 1) as nat) {
            Err(e) => Err(e),
            Ok(best) => match simulate_path(routes[n - 1], amount) {
                Err(e) => Err(e),
                Ok(o) => if o > best.1 {
                    Ok((Some(n - 1), o))
                } else {
                    Ok(best)
                },
            },
        }
    }
}

/// A copy of a list of pool indices.
fn copy_indices(v: &Vec<usize>) -> (r: Vec<usize>)
    ensures
        r@ == v@,
{
    let mut r: Vec<usize> = Vec::new();
    let mut i: usize = 0;
    while i < v.len()
        invariant
            0 <= i <= v@.len(),
            r@ =~= v@.take(i as int),
        decreases v@.len() - i,
    {
        r.push(v[i]);
        i = i + 1;
    }
    assert(v@.take(i as int) =~= v@);
    r
}

/// Whether `v` holds the address `key`.
fn contains_key(v: &Vec<Pubkey>, key: &Pubkey) -> (r: bool)
    ensures
        r == key_views(v@).contains(key@),
{
    let mut i: usize = 0;
    while i < v.len()
        invariant
            0 <= i <= v@.len(),
            forall|j: int| 0 <= j < i ==> (#[trigger] v@[j])@ != key@,
        decreases v@.len() - i,
    {
        if v[i].same_as(key) {
            assert(key_views(v@)[i as int] == key@);
            return true;
        }
        i = i + 1;
    }
    proof {
        if key_views(v@).contains(key@) {
            let j = choose|j: int| 0 <= j < key_views(v@).len() && key_views(v@)[j] == key@;
            assert(v@[j]@ == key@);
        }
    }
    false
}

fn copy_path(path: &Vec<usize>) -> (out: Vec<usize>)
    ensures
        out@ == path@,
{
    let mut out: Vec<usize> = Vec::new();
    let mut i: usize = 0;
    while i < path.len()
        invariant
            0 <= i <= path@.len(),
            out@ =~= path@.take(i as int),
        decreases path@.len() - i,
    {
        out.push(path[i]);
        assert(out@ =~= path@.take(i as int + 1));
        i = i + 1;
    }
    assert(path@.take(i as int) =~= path@);
    out
}

/// The route of pools given by the indices `path`.
fn snapshot_route(pools: &[SharedLiquidityPool], path: &Vec<usize>) -> (route: Vec<PoolSnapshot>)
    requires
        forall|k: int| 0 <= k < path@.len() ==> #[trigger] path@[k] < pools@.len(),
    ensures
        route@ == snapshot_path(pool_views(pools@), path@),
{
    let mut route: Vec<PoolSnapshot> = Vec::new();
    let mut k: usize = 0;
    while k < path.len()
        invariant
            0 <= k <= path@.len(),
            forall|m: int| 0 <= m < path@.len() ==> #[trigger] path@[m] < pools@.len(),
            route@ =~= snapshot_path(pool_views(pools@), path@).take(k as int),
        decreases path@.len() - k,
    {
        let j = path[k];
        let pool = &pools[j];
        route.push(
            PoolSnapshot {
                token_a_mint: pool.token_a_mint,
                token_b_mint: pool.token_b_mint,
                reserve_a: pool.reserve_a,
                reserve_b: pool.reserve_b,
                fee: pool.fee,
            },
        );
        assert(route@ =~= snapshot_path(pool_views(pools@), path@).take(k as int + 1));
        k = k + 1;
    }
    assert(snapshot_path(pool_views(pools@), path@).take(k as int) =~= snapshot_path(
        pool_views(pools@),
        path@,
    ));
    route
}

impl SwapManager {
    /// Depth-first search for the routes from `current_token` to
    /// `target_token`, skipping the `blocked` pools: appends to `paths` the
    /// routes (as pool indices) that extend `current_path`.
    pub fn dfs_find_paths(
        pools: &[SharedLiquidityPool],
        blocked: &Vec<bool>,
        current_token: Pubkey,
        target_token: Pubkey,
        remaining_hops: usize,
        current_path: &mut Vec<usize>,
        visited: &mut Vec<Pubkey>,
        paths: &mut Vec<Vec<usize>>,
    )
        requires
            blocked@.len() == pools@.len(),
            forall|k: int|
                0 <= k < old(current_path)@.len() ==> #[trigger] old(current_path)@[k]
                    < pools@.len(),
        ensures
            final(current_path)@ == old(current_path)@,
            final(visited)@ == old(visited)@,
            index_paths(final(paths)@) == index_paths(old(paths)@) + dfs_paths(
                pool_views(pools@),
                blocked@,
                current_token@,
                target_token@,
                remaining_hops as nat,
                old(current_path)@,
                key_views(old(visited)@),
            ),
            forall|i: int, k: int|
                old(paths)@.len() <= i < final(paths)@.len() && 0 <= k < final(paths)@[i]@.len()
                    ==> #[trigger] final(paths)@[i]@[k] < pools@.len(),
            forall|i: int| 0 <= i < old(paths)@.len() ==> #[trigger] final(paths)@[i] == old(paths)@[i],
        decreases remaining_hops,
    {
        let ghost pv = pool_views(pools@);
        let ghost path0 = current_path@;
        let ghost vis0 = key_views(visited@);
        let ghost hops = remaining_hops as nat;
        if current_token.same_as(&target_token) {
            let found = copy_path(current_path);
            paths.push(found);
            assert(index_paths(paths@) =~= index_paths(old(paths)@).push(path0));
            assert(seq![path0] =~= Seq::<Seq<usize>>::empty().push(path0));
            assert(index_paths(old(paths)@) + seq![path0] =~= index_paths(old(paths)@).push(path0));
            return;
        }
        if remaining_hops == 0 {
            assert(index_paths(old(paths)@) + Seq::<Seq<usize>>::empty() =~= index_paths(
                old(paths)@,
            ));
            return;
        }
        let n = pools.len();
        let mut j: usize = 0;
        assert(index_paths(paths@) + explore_paths(
            pv,
            blocked@,
            current_token@,
            target_token@,
            hops,
            path0,
            vis0,
            0,
        ) == index_paths(old(paths)@) + explore_paths(
            pv,
            blocked@,
            current_token@,
            target_token@,
            hops,
            path0,
            vis0,
            0,
        ));
        while j < n
            invariant
                0 <= j <= n,
                n == pools@.len(),
                blocked@.len() == n,
                pv == pool_views(pools@),
                hops == remaining_hops as nat,
                remaining_hops > 0,
                current_token@ != target_token@,
                current_path@ == path0,
                key_views(visited@) == vis0,
                visited@ == old(visited)@,
                path0 == old(current_path)@,
                forall|k: int| 0 <= k < path0.len() ==> #[trigger] path0[k] < pools@.len(),
                index_paths(paths@) + explore_paths(
                    pv,
                    blocked@,
                    current_token@,
                    target_token@,
                    hops,
                    path0,
                    vis0,
                    j as int,
                ) =~= index_paths(old(paths)@) + explore_paths(
                    pv,
                    blocked@,
                    current_token@,
                    target_token@,
                    hops,
                    path0,
                    vis0,
                    0,
                ),
                forall|i: int, k: int|
                    old(paths)@.len() <= i < paths@.len() && 0 <= k < paths@[i]@.len()
                        ==> #[trigger] paths@[i]@[k] < pools@.len(),
                forall|i: int| 0 <= i < old(paths)@.len() ==> #[trigger] paths@[i] == old(paths)@[i],
                old(paths)@.len() <= paths@.len(),
            decreases n - j,
        {
            let ghost before = index_paths(paths@);
            let ghost before_len = paths@.len();
            let ghost br = branch_paths(
                pv,
                blocked@,
                current_token@,
                target_token@,
                hops,
                path0,
                vis0,
                j as int,
            );
            assert(pv[j as int] == pools@[j as int]@);
            if !blocked[j] {
                let pool = &pools[j];
                if pool.token_a_mint.same_as(&current_token) {
                    let next = pool.token_b_mint;
                    if !contains_key(visited, &next) {
                        visited.push(next);
                        current_path.push(j);
                        assert(key_views(visited@) =~= vis0.push(next@));
                        Self::dfs_find_paths(
                            pools,
                            blocked,
                            next,
                            target_token,
                            remaining_hops - 1,
                            current_path,
                            visited,
                            paths,
                        );
                        current_path.pop();
                        visited.pop();
                        assert(current_path@ =~= path0);
                        assert(visited@ =~= old(visited)@);
                    } else {
                        assert(index_paths(paths@) =~= before + br);
                    }
                } else if pool.token_b_mint.same_as(&current_token) {
                    let next = pool.token_a_mint;
                    if !contains_key(visited, &next) {
                        visited.push(next);
                        current_path.push(j);
                        assert(key_views(visited@) =~= vis0.push(next@));
                        Self::dfs_find_paths(
                            pools,
                            blocked,
                            next,
                            target_token,
                            remaining_hops - 1,
                            current_path,
                            visited,
                            paths,
                        );
                        current_path.pop();
                        visited.pop();
                        assert(current_path@ =~= path0);
                        assert(visited@ =~= old(visited)@);
                    } else {
                        assert(index_paths(paths@) =~= before + br);
                    }
                } else {
                    assert(index_paths(paths@) =~= before + br);
                }
            } else {
                assert(index_paths(paths@) =~= before + br);
            }
            assert(index_paths(paths@) =~= before + br);
            assert(explore_paths(
                pv,
                blocked@,
                current_token@,
                target_token@,
                hops,
                path0,
                vis0,
                j as int,
            ) == br + explore_paths(
                pv,
                blocked@,
                current_token@,
                target_token@,
                hops,
                path0,
                vis0,
                j as int + 1,
            ));
            j = j + 1;
        }
        assert(explore_paths(
            pv,
            blocked@,
            current_token@,
            target_token@,
            hops,
            path0,
            vis0,
            n as int,
        ) == Seq::<Seq<usize>>::empty());
        assert(index_paths(paths@) =~= index_paths(paths@) + Seq::<Seq<usize>>::empty());
    }
}

/// Every index of every path is below `n`.
pub open spec fn indices_below(paths: Seq<Seq<usize>>, n: int) -> bool {
    forall|i: int, k: int| 0 <= i < paths.len() && 0 <= k < paths[i].len() ==> #[trigger] paths[i][k] < n
}

proof fn lemma_concat_indices_below(a: Seq<Seq<usize>>, b: Seq<Seq<usize>>, n: int)
    requires
        indices_below(a, n),
        indices_below(b, n),
    ensures
        indices_below(a + b, n),
{
    assert forall|i: int, k: int| 0 <= i < (a + b).len() && 0 <= k < (a + b)[i].len() implies #[trigger] (a
        + b)[i][k] < n by {
        if i < a.len() {
            assert((a + b)[i] == a[i]);
        } else {
            assert((a + b)[i] == b[i - a.len()]);
        }
    }
}

/// The routes of a search go through existing pools only, when the path it
/// extends does.
proof fn lemma_dfs_indices(
    pools: Seq<PoolView>,
    blocked: Seq<bool>,
    current: Seq<u8>,
    target: Seq<u8>,
    hops: nat,
    path: Seq<usize>,
    visited: Seq<Seq<u8>>,
)
    requires
        forall|k: int| 0 <= k < path.len() ==> #[trigger] path[k] < pools.len(),
    ensures
        indices_below(dfs_paths(pools, blocked, current, target, hops, path, visited), pools.len() as int),
    decreases hops, 1int, 0int,
{
    if current == target {
        let r = dfs_paths(pools, blocked, current, target, hops, path, visited);
        assert(r == seq![path]);
        assert forall|i: int, k: int| 0 <= i < r.len() && 0 <= k < r[i].len() implies #[trigger] r[i][k]
            < pools.len() by {
            assert(r[i] == path);
        }
    } else if hops == 0 {
    } else {
        lemma_explore_indices(pools, blocked, current, target, hops, path, visited, 0);
    }
}

proof fn lemma_explore_indices(
    pools: Seq<PoolView>,
    blocked: Seq<bool>,
    current: Seq<u8>,
    target: Seq<u8>,
    hops: nat,
    path: Seq<usize>,
    visited: Seq<Seq<u8>>,
    j: int,
)
    requires
        forall|k: int| 0 <= k < path.len() ==> #[trigger] path[k] < pools.len(),
    ensures
        indices_below(
            explore_paths(pools, blocked, current, target, hops, path, visited, j),
            pools.len() as int,
        ),
    decreases hops, 0int, pools.len() - j + 1,
{
    if j < 0 || j >= pools.len() {
    } else {
        lemma_branch_indices(pools, blocked, current, target, hops, path, visited, j);
        lemma_explore_indices(pools, blocked, current, target, hops, path, visited, j + 1);
        lemma_concat_indices_below(
            branch_paths(pools, blocked, current, target, hops, path, visited, j),
            explore_paths(pools, blocked, current, target, hops, path, visited, j + 1),
            pools.len() as int,
        );
    }
}

proof fn lemma_branch_indices(
    pools: Seq<PoolView>,
    blocked: Seq<bool>,
    current: Seq<u8>,
    target: Seq<u8>,
    hops: nat,
    path: Seq<usize>,
    visited: Seq<Seq<u8>>,
    j: int,
)
    requires
        forall|k: int| 0 <= k < path.len() ==> #[trigger] path[k] < pools.len(),
    ensures
        indices_below(
            branch_paths(pools, blocked, current, target, hops, path, visited, j),
            pools.len() as int,
        ),
    decreases hops, 0int, pools.len() - j,
{
    if j < 0 || j >= pools.len() || hops == 0 || blocked[j] {
    } else {
        let extended = path.push(j as usize);
        assert forall|k: int| 0 <= k < extended.len() implies #[trigger] extended[k] < pools.len() by {
            if k < path.len() {
                assert(extended[k] == path[k]);
            }
        }
        if pools[j].token_a_mint@ == current {
            let next = pools[j].token_b_mint@;
            if !visited.contains(next) {
                lemma_dfs_indices(
                    pools,
                    blocked,
                    next,
                    target,
                    (hops - 1) as nat,
                    extended,
                    visited.push(next),
                );
            }
        } else if pools[j].token_b_mint@ == current {
            let next = pools[j].token_a_mint@;
            if !visited.contains(next) {
                lemma_dfs_indices(
                    pools,
                    blocked,
                    next,
                    target,
                    (hops - 1) as nat,
                    extended,
                    visited.push(next),
                );
            }
        }
    }
}

/// When every pool charges a fee of at most 100%, so does every pool of every
/// route that a search finds.
pub proof fn lemma_route_fees_valid(
    pools: Seq<PoolView>,
    now: Result<i64, ErrorCode>,
    input: Seq<u8>,
    output: Seq<u8>,
    hops: nat,
)
    requires
        forall|i: int| 0 <= i < pools.len() ==> #[trigger] pools[i].fee <= 10000,
    ensures
        all_paths(pools, now, input, output, hops) matches Ok(ps) ==> route_fees_valid(
            route_pools(pools, ps),
        ),
{
    if let Ok(ps) = all_paths(pools, now, input, output, hops) {
        lemma_dfs_indices(pools, blocked_flags(pools, now), input, output, hops, seq![], seq![]);
        let routes = route_pools(pools, ps);
        assert forall|i: int, k: int| 0 <= i < routes.len() && 0 <= k < routes[i].len() implies #[trigger] routes[i][k].fee
            <= 10000 by {
            assert(routes[i] == snapshot_path(pools, ps[i]));
            assert(ps[i][k] < pools.len());
            assert(routes[i][k] == snapshot(pools[ps[i][k] as int]));
        }
    }
}

/// The route that the scan of the first `n` routes picks gives the highest
/// output of them all: every one of them simulates to at most that output,
/// and the picked one to exactly it (none is picked when all give zero).
pub proof fn law_best_route_is_best(routes: Seq<Seq<PoolSnapshot>>, amount: u64, n: nat)
    requires
        scan_best(routes, amount, n) is Ok,
    ensures
        ({
            let best = scan_best(routes, amount, n).unwrap();
            &&& forall|i: int|
                0 <= i < n ==> ((#[trigger] simulate_path(routes[i], amount)) matches Ok(o) && o
                    <= best.1)
            &&& best.0 matches Some(b) ==> 0 <= b < n && simulate_path(routes[b], amount) == Ok::<
                u64,
                ErrorCode,
            >(best.1)
            &&& best.0 is None ==> best.1 == 0
        }),
    decreases n,
{
    if n > 0 {
        law_best_route_is_best(routes, amount, (n - 1) as nat);
    }
}

/// The swap path that `find_best_swap_path` returns is one of the routes it
/// found, and no route it found gives a higher output.
pub proof fn law_best_path_is_best(
    pools: Seq<SharedLiquidityPool>,
    r: Result<Option<SwapPath>, ErrorCode>,
    input_token: Pubkey,
    output_token: Pubkey,
    input_amount: u64,
    min_output_amount: u64,
    now: Result<i64, ErrorCode>,
)
    requires
        best_path_outcome(
            pools,
            r,
            input_token,
            output_token,
            input_amount,
            min_output_amount,
            now,
        ),
        r matches Ok(Some(p)),
    ensures
        ({
            let ps = all_paths(
                pool_views(pools),
                now,
                input_token@,
                output_token@,
                MAX_HOPS as nat,
            ).unwrap();
            let routes = route_pools(pool_views(pools), ps);
            let best = r.unwrap().unwrap().pools@;
            &&& routes.contains(best)
            &&& simulate_path(best, input_amount) matches Ok(top) && top >= min_output_amount
                && forall|i: int|
                0 <= i < routes.len() ==> ((#[trigger] simulate_path(routes[i], input_amount)) matches Ok(
                    o,
                ) && o <= top)
        }),
{
    let ps = all_paths(pool_views(pools), now, input_token@, output_token@, MAX_HOPS as nat).unwrap();
    let routes = route_pools(pool_views(pools), ps);
    law_best_route_is_best(routes, input_amount, routes.len());
    let best = scan_best(routes, input_amount, routes.len()).unwrap();
    let b = best.0.unwrap();
    assert(routes[b] == r.unwrap().unwrap().pools@);
}

/// The token that pool `pool` leads to from token `current`: its other
/// token (token A is matched first), none when it does not hold `current`.
pub open spec fn hop_target(pool: PoolView, current: Seq<u8>) -> Option<Seq<u8>> {
    if pool.token_a_mint@ == current {
        Some(pool.token_b_mint@)
    } else if pool.token_b_mint@ == current {
        Some(pool.token_a_mint@)
    } else {
        None
    }
}

/// `ext` (pool indices) is a route from token `current` to token `target` in
/// at most `hops` hops: each pool exists, is not blocked (paused) and holds
/// the token reached so far; no token reached is in `visited` or reached
/// twice; the route stops as soon as it reaches `target`.
pub open spec fn is_route(
    pools: Seq<PoolView>,
    blocked: Seq<bool>,
    current: Seq<u8>,
    target: Seq<u8>,
    hops: nat,
    visited: Seq<Seq<u8>>,
    ext: Seq<usize>,
) -> bool
    decreases ext.len(),
{
    if ext.len() == 0 {
        current == target
    } else {
        let j = ext[0] as int;
        &&& current != target
        &&& hops > 0
        &&& 0 <= j < pools.len()
        &&& !blocked[j]
        &&& hop_target(pools[j], current) matches Some(next) && !visited.contains(next)
            && is_route(
            pools,
            blocked,
            next,
            target,
            (hops - 1) as nat,
            visited.push(next),
            ext.drop_first(),
        )
    }
}

/// `q` is `path` followed by a route as `is_route` describes it.
pub open spec fn extends_by_route(
    pools: Seq<PoolView>,
    blocked: Seq<bool>,
    current: Seq<u8>,
    target: Seq<u8>,
    hops: nat,
    path: Seq<usize>,
    visited: Seq<Seq<u8>>,
    q: Seq<usize>,
) -> bool {
    &&& q.len() >= path.len()
    &&& q.take(path.len() as int) == path
    &&& is_route(pools, blocked, current, target, hops, visited, q.skip(path.len() as int))
}

proof fn lemma_contains_concat<A>(a: Seq<A>, b: Seq<A>, x: A)
    ensures
        (a + b).contains(x) <==> a.contains(x) || b.contains(x),
{
    if (a + b).contains(x) {
        let i = choose|i: int| 0 <= i < (a + b).len() && (a + b)[i] == x;
        if i < a.len() {
            assert(a[i] == x);
        } else {
            assert(b[i - a.len()] == x);
        }
    }
    if a.contains(x) {
        let i = choose|i: int| 0 <= i < a.len() && a[i] == x;
        assert((a + b)[i] == x);
    }
    if b.contains(x) {
        let i = choose|i: int| 0 <= i < b.len() && b[i] == x;
        assert((a + b)[i + a.len()] == x);
    }
}

/// Extending `path` by `j` and then by a route is extending `path` by a
/// route that starts with `j`.
proof fn lemma_extends_step(path: Seq<usize>, j: usize, q: Seq<usize>)
    ensures
        (q.len() >= path.len() + 1 && q.take(path.len() + 1int) == path.push(j)) <==> (q.len()
            >= path.len() && q.take(path.len() as int) == path && q.skip(path.len() as int).len()
            > 0 && q.skip(path.len() as int)[0] == j),
        q.len() >= path.len() + 1 ==> q.skip(path.len() + 1int) == q.skip(
            path.len() as int,
        ).drop_first(),
{
    let n = path.len() as int;
    if q.len() >= n + 1 {
        assert(q.skip(n + 1) =~= q.skip(n).drop_first());
        if q.take(n + 1) == path.push(j) {
            assert(q.take(n) =~= q.take(n + 1).take(n));
            assert(path.push(j).take(n) =~= path);
            assert(q.take(n + 1)[n] == q[n]);
        }
        if q.take(n) == path && q.skip(n)[0] == j {
            assert(q.take(n + 1) =~= path.push(j)) by {
                assert forall|i: int| 0 <= i < n + 1 implies q.take(n + 1)[i] == path.push(j)[i] by {
                    if i < n {
                        assert(q.take(n)[i] == q[i]);
                    } else {
                        assert(q.skip(n)[0] == q[n]);
                    }
                }
            }
        }
    }
}

/// The search finds exactly the routes: a sequence of pool indices is among
/// the routes found from `current` extending `path` exactly when it is
/// `path` followed by a route from `current` to `target`.
pub proof fn lemma_dfs_finds_routes(
    pools: Seq<PoolView>,
    blocked: Seq<bool>,
    current: Seq<u8>,
    target: Seq<u8>,
    hops: nat,
    path: Seq<usize>,
    visited: Seq<Seq<u8>>,
    q: Seq<usize>,
)
    requires
        blocked.len() == pools.len(),
        pools.len() <= usize::MAX,
    ensures
        dfs_paths(pools, blocked, current, target, hops, path, visited).contains(q)
            <==> extends_by_route(pools, blocked, current, target, hops, path, visited, q),
    decreases hops, 1int, 0int,
{
    let n = path.len() as int;
    if current == target {
        let r = dfs_paths(pools, blocked, current, target, hops, path, visited);
        assert(r == seq![path]);
        if r.contains(q) {
            assert(r[0] == q);
            assert(q.take(n) =~= path);
            assert(q.skip(n) =~= Seq::<usize>::empty());
        }
        if extends_by_route(pools, blocked, current, target, hops, path, visited, q) {
            assert(q.skip(n).len() == 0);
            assert(q =~= q.take(n));
            assert(r[0] == q);
        }
    } else if hops == 0 {
    } else {
        lemma_explore_finds_routes(pools, blocked, current, target, hops, path, visited, 0, q);
        if extends_by_route(pools, blocked, current, target, hops, path, visited, q) {
            assert(q.skip(n).len() > 0);
        }
    }
}

proof fn lemma_explore_finds_routes(
    pools: Seq<PoolView>,
    blocked: Seq<bool>,
    current: Seq<u8>,
    target: Seq<u8>,
    hops: nat,
    path: Seq<usize>,
    visited: Seq<Seq<u8>>,
    j: int,
    q: Seq<usize>,
)
    requires
        blocked.len() == pools.len(),
        pools.len() <= usize::MAX,
        current != target,
        hops > 0,
        0 <= j,
    ensures
        explore_paths(pools, blocked, current, target, hops, path, visited, j).contains(q) <==> (
        extends_by_route(pools, blocked, current, target, hops, path, visited, q) && q.skip(
            path.len() as int,
        )[0] >= j),
    decreases hops, 0int, pools.len() - j + 1,
{
    let n = path.len() as int;
    if j >= pools.len() {
        if extends_by_route(pools, blocked, current, target, hops, path, visited, q) {
            assert(q.skip(n).len() > 0);
        }
    } else {
        lemma_branch_finds_routes(pools, blocked, current, target, hops, path, visited, j, q);
        lemma_explore_finds_routes(pools, blocked, current, target, hops, path, visited, j + 1, q);
        lemma_contains_concat(
            branch_paths(pools, blocked, current, target, hops, path, visited, j),
            explore_paths(pools, blocked, current, target, hops, path, visited, j + 1),
            q,
        );
    }
}

proof fn lemma_branch_finds_routes(
    pools: Seq<PoolView>,
    blocked: Seq<bool>,
    current: Seq<u8>,
    target: Seq<u8>,
    hops: nat,
    path: Seq<usize>,
    visited: Seq<Seq<u8>>,
    j: int,
    q: Seq<usize>,
)
    requires
        blocked.len() == pools.len(),
        pools.len() <= usize::MAX,
        current != target,
        hops > 0,
        0 <= j < pools.len(),
    ensures
        branch_paths(pools, blocked, current, target, hops, path, visited, j).contains(q) <==> (
        extends_by_route(pools, blocked, current, target, hops, path, visited, q) && q.skip(
            path.len() as int,
        )[0] == j),
    decreases hops, 0int, pools.len() - j,
{
    let n = path.len() as int;
    lemma_extends_step(path, j as usize, q);
    if blocked[j] {
    } else {
        match hop_target(pools[j], current) {
            None => {},
            Some(next) => {
                if !visited.contains(next) {
                    lemma_dfs_finds_routes(
                        pools,
                        blocked,
                        next,
                        target,
                        (hops - 1) as nat,
                        path.push(j as usize),
                        visited.push(next),
                        q,
                    );
                }
            },
        }
    }
}


/// The routes that a search finds from `input` to `output` are exactly the
/// routes of at most `hops` hops through pools that are not paused at `now`
/// (`is_route`), when the pause status of every pool can be read.
pub proof fn law_all_paths_are_the_routes(
    pools: Seq<PoolView>,
    now: Result<i64, ErrorCode>,
    input: Seq<u8>,
    output: Seq<u8>,
    hops: nat,
    q: Seq<usize>,
)
    requires
        pools.len() <= usize::MAX,
        all_paths(pools, now, input, output, hops) is Ok,
    ensures
        all_paths(pools, now, input, output, hops)->Ok_0.contains(q) <==> is_route(
            pools,
            blocked_flags(pools, now),
            input,
            output,
            hops,
            seq![],
            q,
        ),
{
    lemma_dfs_finds_routes(pools, blocked_flags(pools, now), input, output, hops, seq![], seq![], q);
    assert(q.take(0) =~= Seq::<usize>::empty());
    assert(q.skip(0) =~= q);
}

/// The swap path that `find_best_swap_path` returns gives at least the
/// output of every route from the input token to the output token through
/// pools that are not paused.
pub proof fn law_best_path_beats_every_route(
    pools: Seq<SharedLiquidityPool>,
    r: Result<Option<SwapPath>, ErrorCode>,
    input_token: Pubkey,
    output_token: Pubkey,
    input_amount: u64,
    min_output_amount: u64,
    now: Result<i64, ErrorCode>,
    q: Seq<usize>,
)
    requires
        pools.len() <= usize::MAX,
        best_path_outcome(
            pools,
            r,
            input_token,
            output_token,
            input_amount,
            min_output_amount,
            now,
        ),
        r matches Ok(Some(p)),
        is_route(
            pool_views(pools),
            blocked_flags(pool_views(pools), now),
            input_token@,
            output_token@,
            MAX_HOPS as nat,
            seq![],
            q,
        ),
    ensures
        simulate_path(r.unwrap().unwrap().pools@, input_amount) matches Ok(top) && simulate_path(
            snapshot_path(pool_views(pools), q),
            input_amount,
        ) matches Ok(o) && o <= top,
{
    let views = pool_views(pools);
    law_best_path_is_best(
        pools,
        r,
        input_token,
        output_token,
        input_amount,
        min_output_amount,
        now,
    );
    law_all_paths_are_the_routes(views, now, input_token@, output_token@, MAX_HOPS as nat, q);
    let ps = all_paths(views, now, input_token@, output_token@, MAX_HOPS as nat)->Ok_0;
    let i = choose|i: int| 0 <= i < ps.len() && ps[i] == q;
    let routes = route_pools(views, ps);
    assert(routes[i] == snapshot_path(views, q));
}


/// Routes of a search, with the pools they go through.
pub open spec fn route_pools(pools: Seq<PoolView>, paths: Seq<Seq<usize>>) -> Seq<Seq<PoolSnapshot>> {
    paths.map_values(|p: Seq<usize>| snapshot_path(pools, p))
}

/// No path of `paths` carries an output or price-impact estimate.
pub open spec fn estimates_unset(paths: Seq<SwapPath>) -> bool {
    forall|i: int|
        0 <= i < paths.len() ==> (#[trigger] paths[i]).expected_output == 0 && paths[i].price_impact
            == 0
}

/// The pool indices held by a sequence of swap paths.
pub open spec fn path_indices(paths: Seq<SwapPath>) -> Seq<Seq<usize>> {
    paths.map_values(|p: SwapPath| p.pool_indices@)
}

proof fn lemma_estimates_unset_at(paths: Seq<SwapPath>, b: int)
    requires
        estimates_unset(paths),
        0 <= b < paths.len(),
    ensures
        paths[b].expected_output == 0,
        paths[b].price_impact == 0,
{
    assert(paths[b].expected_output == 0 && paths[b].price_impact == 0);
}

/// The routes held by a sequence of swap paths.
pub open spec fn path_routes(paths: Seq<SwapPath>) -> Seq<Seq<PoolSnapshot>> {
    paths.map_values(|p: SwapPath| p.pools@)
}

proof fn lemma_first_status_error_step(pools: Seq<PoolView>, now: Result<i64, ErrorCode>, j: int)
    requires
        0 <= j < pools.len(),
    ensures
        pools.take(j + 1).drop_last() == pools.take(j),
        pools.take(j + 1).last() == pools[j],
{
    assert(pools.take(j + 1).drop_last() =~= pools.take(j));
}

proof fn lemma_first_status_error_sticky(pools: Seq<PoolView>, now: Result<i64, ErrorCode>, m: int)
    requires
        0 <= m <= pools.len(),
        first_status_error(pools.take(m), now) is Some,
    ensures
        first_status_error(pools, now) == first_status_error(pools.take(m), now),
    decreases pools.len(),
{
    if pools.len() == m {
        assert(pools.take(m) =~= pools);
    } else {
        assert(pools.drop_last().take(m) =~= pools.take(m));
        lemma_first_status_error_sticky(pools.drop_last(), now, m);
    }
}

proof fn lemma_simulate_sticky(path: Seq<PoolSnapshot>, amount: u64, m: nat, n: nat)
    requires
        m <= n,
        simulate_hops(path, amount, m) is Err,
    ensures
        simulate_hops(path, amount, n) == simulate_hops(path, amount, m),
    decreases n,
{
    if n > m {
        lemma_simulate_sticky(path, amount, m, (n - 1) as nat);
    }
}

impl SwapManager {
    /// Find all swap routes from `input_token` to `output_token` through at
    /// most `max_hops` pools that are not paused at the time `now`.
    pub fn find_all_paths(
        pools: &[SharedLiquidityPool],
        input_token: Pubkey,
        output_token: Pubkey,
        max_hops: usize,
        now: Result<i64, ErrorCode>,
    ) -> (r: Result<Vec<SwapPath>, ErrorCode>)
        ensures
            all_paths(pool_views(pools@), now, input_token@, output_token@, max_hops as nat) matches Err(
                e,
            ) ==> r == Err::<Vec<SwapPath>, ErrorCode>(e),
            all_paths(pool_views(pools@), now, input_token@, output_token@, max_hops as nat) is Ok
                ==> r is Ok,
            r matches Ok(v) ==> path_routes(v@) == route_pools(
                pool_views(pools@),
                all_paths(pool_views(pools@), now, input_token@, output_token@, max_hops as nat)->Ok_0,
            ),
            r matches Ok(v) ==> estimates_unset(v@),
            r matches Ok(v) ==> path_indices(v@) == all_paths(
                pool_views(pools@),
                now,
                input_token@,
                output_token@,
                max_hops as nat,
            )->Ok_0,
    {
        let ghost pv = pool_views(pools@);
        let searching = !input_token.same_as(&output_token) && max_hops > 0;
        let mut blocked: Vec<bool> = Vec::new();
        let n = pools.len();
        let mut j: usize = 0;
        while j < n
            invariant
                0 <= j <= n,
                n == pools@.len(),
                pv == pool_views(pools@),
                searching == (input_token@ != output_token@ && max_hops > 0),
                blocked@ =~= blocked_flags(pv, now).take(j as int),
                searching ==> first_status_error(pv.take(j as int), now) is None,
            decreases n - j,
        {
            proof {
                lemma_first_status_error_step(pv, now, j as int);
            }
            assert(pv[j as int] == pools@[j as int]@);
            match EmergencyManager::is_paused(&pools[j], now) {
                Ok(b) => blocked.push(b),
                Err(e) => {
                    if searching {
                        proof {
                            assert(first_status_error(pv.take(j as int + 1), now) == Some(e));
                            lemma_first_status_error_sticky(pv, now, j as int + 1);
                        }
                        return Err(e);
                    }
                    blocked.push(false);
                },
            }
            assert(blocked@ =~= blocked_flags(pv, now).take(j as int + 1));
            j = j + 1;
        }
        assert(blocked@ =~= blocked_flags(pv, now));
        assert(pv.take(n as int) =~= pv);
        let mut index_routes: Vec<Vec<usize>> = Vec::new();
        let mut current_path: Vec<usize> = Vec::new();
        let mut visited: Vec<Pubkey> = Vec::new();
        Self::dfs_find_paths(
            pools,
            &blocked,
            input_token,
            output_token,
            max_hops,
            &mut current_path,
            &mut visited,
            &mut index_routes,
        );
        assert(key_views(Seq::<Pubkey>::empty()) =~= Seq::<Seq<u8>>::empty());
        assert(index_paths(index_routes@) =~= dfs_paths(
            pv,
            blocked_flags(pv, now),
            input_token@,
            output_token@,
            max_hops as nat,
            seq![],
            seq![],
        ));
        let ghost ps = index_paths(index_routes@);
        assert(searching ==> first_status_error(pv, now) is None);
        let mut routes: Vec<SwapPath> = Vec::new();
        let mut i: usize = 0;
        while i < index_routes.len()
            invariant
                0 <= i <= index_routes@.len(),
                pv == pool_views(pools@),
                ps == index_paths(index_routes@),
                forall|a: int, k: int|
                    0 <= a < index_routes@.len() && 0 <= k < index_routes@[a]@.len()
                        ==> #[trigger] index_routes@[a]@[k] < pools@.len(),
                path_routes(routes@) =~= route_pools(pv, ps).take(i as int),
                path_indices(routes@) =~= ps.take(i as int),
                forall|a: int|
                    0 <= a < routes@.len() ==> #[trigger] routes@[a].expected_output == 0
                        && routes@[a].price_impact == 0,
            decreases index_routes@.len() - i,
        {
            let route = snapshot_route(pools, &index_routes[i]);
            assert(ps[i as int] == index_routes@[i as int]@);
            assert(route_pools(pv, ps)[i as int] == snapshot_path(pv, ps[i as int]));
            let ghost old_routes = routes@;
            let pool_indices = copy_indices(&index_routes[i]);
            routes.push(
                SwapPath { pools: route, pool_indices, expected_output: 0, price_impact: 0 },
            );
            assert(path_routes(routes@) =~= path_routes(old_routes).push(route@));
            assert(path_routes(routes@) =~= route_pools(pv, ps).take(i as int + 1));
            assert(path_indices(routes@) =~= path_indices(old_routes).push(ps[i as int]));
            assert(path_indices(routes@) =~= ps.take(i as int + 1));
            i = i + 1;
        }
        assert(route_pools(pv, ps).take(i as int) =~= route_pools(pv, ps));
        assert(ps.take(i as int) =~= ps);
        assert(all_paths(pv, now, input_token@, output_token@, max_hops as nat) == Ok::<
            Seq<Seq<usize>>,
            ErrorCode,
        >(ps));
        assert(path_routes(routes@) == route_pools(pool_views(pools@), ps));
        assert(path_indices(routes@) == ps);
        assert(estimates_unset(routes@));
        assert(path_routes(routes@) == route_pools(
            pool_views(pools@),
            all_paths(pool_views(pools@), now, input_token@, output_token@, max_hops as nat)->Ok_0,
        ));
        Ok(routes)
    }

    /// Simulate a swap route: the amount obtained at its end from
    /// `input_amount`, using the reserves and fees recorded in the route.
    pub fn simulate_swap_path(pools: &[SharedLiquidityPool], path: &SwapPath, input_amount: u64) -> (r:
        Result<u64, ErrorCode>)
        requires
            forall|k: int| 0 <= k < path.pools@.len() ==> #[trigger] path.pools@[k].fee <= 10000,
        ensures
            r == simulate_path(path.pools@, input_amount),
    {
        let mut current_amount = input_amount;
        let n = path.pools.len();
        let mut i: usize = 0;
        while i < n
            invariant
                0 <= i <= n,
                n == path.pools@.len(),
                forall|k: int| 0 <= k < path.pools@.len() ==> #[trigger] path.pools@[k].fee <= 10000,
                simulate_hops(path.pools@, input_amount, i as nat) == Ok::<u64, ErrorCode>(
                    current_amount,
                ),
            decreases n - i,
        {
            let pool = path.pools[i];
            let is_token_a_to_b = i == 0 || path.pools[i - 1].token_b_mint.same_as(
                &pool.token_a_mint,
            );
            assert(is_token_a_to_b == hop_a_to_b(path.pools@, i as int));
            current_amount = match SwapManager::calculate_swap_output(
                if is_token_a_to_b {
                    pool.reserve_a
                } else {
                    pool.reserve_b
                },
                if is_token_a_to_b {
                    pool.reserve_b
                } else {
                    pool.reserve_a
                },
                current_amount,
                pool.fee,
            ) {
                Ok(a) => a,
                Err(e) => {
                    proof {
                        lemma_simulate_sticky(path.pools@, input_amount, i as nat + 1, n as nat);
                    }
                    return Err(e);
                },
            };
            i = i + 1;
        }
        Ok(current_amount)
    }
}

/// An optional index as an integer.
pub open spec fn opt_index(o: Option<usize>) -> Option<int> {
    match o {
        Some(i) => Some(i as int),
        None => None,
    }
}

/// The pools after the first `i` hops of a multi-hop swap of `amount` along
/// `route`, hop `k` swapping in `pools[indices[k]]`, the pool the route
/// names for it, in the direction the route's tokens give; only the last hop demands
/// `min_output_amount`. The swap stops at the first failing hop.
pub open spec fn multi_hop(
    pools: Seq<PoolView>,
    route: Seq<PoolSnapshot>,
    indices: Seq<usize>,
    amount: u64,
    min_output_amount: u64,
    now: Result<i64, ErrorCode>,
    i: nat,
) -> (Seq<PoolView>, Result<u64, ErrorCode>)
    decreases i,
{
    if i == 0 {
        (pools, Ok(amount))
    } else {
        let prev = multi_hop(pools, route, indices, amount, min_output_amount, now, (i - 1) as nat);
        match prev.1 {
            Err(e) => prev,
            Ok(x) => {
                let k = i - 1;
                let j = indices[k] as int;
                let step = swap_effect(
                    prev.0[j],
                    x,
                    if k == route.len() - 1 {
                        min_output_amount
                    } else {
                        0
                    },
                    hop_a_to_b(route, k),
                    now,
                );
                (prev.0.update(j, step.0), step.1)
            },
        }
    }
}

/// A multi-hop swap along a route of at least one hop that succeeds hands
/// out at least `min_output_amount`: the slippage limit applies to what
/// the swap finally returns, whatever the intermediate hops gave.
pub proof fn law_multi_hop_output_meets_minimum(
    pools: Seq<PoolView>,
    route: Seq<PoolSnapshot>,
    indices: Seq<usize>,
    amount: u64,
    min_output_amount: u64,
    now: Result<i64, ErrorCode>,
    out: u64,
)
    requires
        route.len() > 0,
        multi_hop(pools, route, indices, amount, min_output_amount, now, route.len()).1 == Ok::<
            u64,
            ErrorCode,
        >(out),
    ensures
        out >= min_output_amount,
{
    let n = route.len();
    let prev = multi_hop(pools, route, indices, amount, min_output_amount, now, (n - 1) as nat);
    assert(prev.1 is Ok);
    let k = n - 1;
    let j = indices[k] as int;
    let x = prev.1->Ok_0;
    let step = swap_effect(prev.0[j], x, min_output_amount, hop_a_to_b(route, k), now);
    assert(step.1 == Ok::<u64, ErrorCode>(out));
}

/// Before the last hop the slippage limit plays no part: the first `i`
/// hops of a route of more than `i` hops go the same way whatever
/// `min_output_amount` is asked for.
pub proof fn law_multi_hop_minimum_only_at_last_hop(
    pools: Seq<PoolView>,
    route: Seq<PoolSnapshot>,
    indices: Seq<usize>,
    amount: u64,
    min_output_amount: u64,
    now: Result<i64, ErrorCode>,
    i: nat,
)
    requires
        i < route.len(),
    ensures
        multi_hop(pools, route, indices, amount, min_output_amount, now, i) == multi_hop(
            pools,
            route,
            indices,
            amount,
            0,
            now,
            i,
        ),
    decreases i,
{
    if i > 0 {
        law_multi_hop_minimum_only_at_last_hop(
            pools,
            route,
            indices,
            amount,
            min_output_amount,
            now,
            (i - 1) as nat,
        );
    }
}

proof fn lemma_multi_hop_sticky(
    pools: Seq<PoolView>,
    route: Seq<PoolSnapshot>,
    indices: Seq<usize>,
    amount: u64,
    min_output_amount: u64,
    now: Result<i64, ErrorCode>,
    m: nat,
    n: nat,
)
    requires
        m <= n,
        multi_hop(pools, route, indices, amount, min_output_amount, now, m).1 is Err,
    ensures
        multi_hop(pools, route, indices, amount, min_output_amount, now, n) == multi_hop(
            pools,
            route,
            indices,
            amount,
            min_output_amount,
            now,
            m,
        ),
    decreases n,
{
    if n > m {
        lemma_multi_hop_sticky(
            pools,
            route,
            indices,
            amount,
            min_output_amount,
            now,
            m,
            (n - 1) as nat,
        );
    }
}

impl SwapManager {
    /// Find the best swap route from `input_token` to `output_token`: the
    /// first of the routes through pools not paused at `now` whose simulated
    /// output is highest, provided it is above zero and at least
    /// `min_output_amount`.
    #[verifier::loop_isolation(false)]
    pub fn find_best_swap_path(
        pools: &[SharedLiquidityPool],
        input_token: Pubkey,
        output_token: Pubkey,
        input_amount: u64,
        min_output_amount: u64,
        now: Result<i64, ErrorCode>,
    ) -> (r: Result<Option<SwapPath>, ErrorCode>)
        requires
            all_paths(pool_views(pools@), now, input_token@, output_token@, MAX_HOPS as nat) matches Ok(
                ps,
            ) ==> route_fees_valid(route_pools(pool_views(pools@), ps)),
        ensures
            best_path_outcome(pools@, r, input_token, output_token, input_amount, min_output_amount, now),
    {
        let paths = Self::find_all_paths(pools, input_token, output_token, MAX_HOPS, now)?;
        let ghost routes = path_routes(paths@);
        let mut best_index: Option<usize> = None;
        let mut best_output: u64 = 0;
        let n = paths.len();
        let mut i: usize = 0;
        while i < n
            invariant
                0 <= i <= n,
                n == paths@.len(),
                routes == path_routes(paths@),
                all_paths(pool_views(pools@), now, input_token@, output_token@, MAX_HOPS as nat) is Ok,
                estimates_unset(paths@),
                path_indices(paths@) == all_paths(
                    pool_views(pools@),
                    now,
                    input_token@,
                    output_token@,
                    MAX_HOPS as nat,
                )->Ok_0,
                route_fees_valid(routes),
                scan_best(routes, input_amount, i as nat) == Ok::<(Option<int>, u64), ErrorCode>(
                    (opt_index(best_index), best_output),
                ),
                best_index matches Some(b) ==> b < i,
            decreases n - i,
        {
            assert(routes[i as int] == paths@[i as int].pools@);
            let output = match Self::simulate_swap_path(pools, &paths[i], input_amount) {
                Ok(o) => o,
                Err(e) => {
                    proof {
                        lemma_scan_sticky(routes, input_amount, i as nat + 1, n as nat);
                    }
                    return Err(e);
                },
            };
            if output > best_output {
                best_output = output;
                best_index = Some(i);
            }
            i = i + 1;
        }
        if best_output < min_output_amount {
            return Err(ErrorCode::Custom(SLIPPAGE_CODE));
        }
        match best_index {
            None => Ok(None),
            Some(b) => {
                assert(paths@[b as int].pool_indices@ == path_indices(paths@)[b as int]);
                let ghost before = paths@;
                let mut paths = paths;
                let best = paths.swap_remove(b);
                proof {
                    lemma_estimates_unset_at(before, b as int);
                }
                Ok(Some(best))
            },
        }
    }

    /// Execute a multi-hop swap of `input_amount` along `path`: hop `k`
    /// swaps in the pool that the path names, `pools[path.pool_indices[k]]`,
    /// in the direction that the path's tokens give; `now` is the clock's
    /// reading. Returns the amount obtained.
    #[verifier::loop_isolation(false)]
    pub fn execute_multi_hop_swap(
        pools: &mut Vec<SharedLiquidityPool>,
        path: &SwapPath,
        input_amount: u64,
        min_output_amount: u64,
        now: Result<i64, ErrorCode>,
    ) -> (r: Result<u64, ErrorCode>)
        requires
            path.pool_indices@.len() == path.pools@.len(),
            forall|k: int|
                0 <= k < path.pool_indices@.len() ==> #[trigger] path.pool_indices@[k] < old(
                    pools,
                )@.len(),
            forall|k: int|
                0 <= k < path.pool_indices@.len() ==> old(pools)@[#[trigger] path.pool_indices@[k] as int].fee
                    <= 10000,
        ensures
            (pool_views(final(pools)@), r) == multi_hop(
                pool_views(old(pools)@),
                path.pools@,
                path.pool_indices@,
                input_amount,
                min_output_amount,
                now,
                path.pools@.len(),
            ),
    {
        let ghost pv0 = pool_views(pools@);
        let ghost route = path.pools@;
        let ghost indices = path.pool_indices@;
        let mut current_amount = input_amount;
        let n = path.pools.len();
        let mut i: usize = 0;
        while i < n
            invariant
                0 <= i <= n,
                n == route.len(),
                route == path.pools@,
                indices == path.pool_indices@,
                indices.len() == n,
                pools@.len() == pv0.len(),
                forall|k: int| 0 <= k < n ==> #[trigger] indices[k] < pools@.len(),
                forall|k: int| 0 <= k < n ==> pools@[#[trigger] indices[k] as int].fee <= 10000,
                (pool_views(pools@), Ok::<u64, ErrorCode>(current_amount)) == multi_hop(
                    pv0,
                    route,
                    indices,
                    input_amount,
                    min_output_amount,
                    now,
                    i as nat,
                ),
            decreases n - i,
        {
            let is_token_a_to_b = i == 0 || path.pools[i - 1].token_b_mint.same_as(
                &path.pools[i].token_a_mint,
            );
            assert(is_token_a_to_b == hop_a_to_b(route, i as int));
            let min_out = if i == n - 1 {
                min_output_amount
            } else {
                0
            };
            let j = path.pool_indices[i];
            let ghost before = pools@;
            assert(pool_views(before)[j as int] == before[j as int]@);
            let res = SwapManager::execute_swap(
                &mut pools[j],
                current_amount,
                min_out,
                is_token_a_to_b,
                now,
            );
            assert(pool_views(pools@) =~= pool_views(before).update(j as int, pools@[j as int]@));
            assert(pools@[j as int].fee == before[j as int].fee);
            assert forall|k: int| 0 <= k < n implies pools@[#[trigger] indices[k] as int].fee <= 10000 by {
                if indices[k] != j {
                    assert(pools@[indices[k] as int] == before[indices[k] as int]);
                }
            }
            match res {
                Ok(out) => {
                    current_amount = out;
                },
                Err(e) => {
                    proof {
                        lemma_multi_hop_sticky(
                            pv0,
                            route,
                            indices,
                            input_amount,
                            min_output_amount,
                            now,
                            i as nat + 1,
                            n as nat,
                        );
                    }
                    return Err(e);
                },
            }
            i = i + 1;
        }
        Ok(current_amount)
    }

}

proof fn lemma_scan_sticky(routes: Seq<Seq<PoolSnapshot>>, amount: u64, m: nat, n: nat)
    requires
        m <= n,
        scan_best(routes, amount, m) is Err,
    ensures
        scan_best(routes, amount, n) == scan_best(routes, amount, m),
    decreases n,
{
    if n > m {
        lemma_scan_sticky(routes, amount, m, (n - 1) as nat);
    }
}

/// Outcome of `find_best_swap_path`: how `post` and `r` relate to `pre`.
pub open spec fn best_path_outcome(
    pools: Seq<SharedLiquidityPool>,
    r: Result<Option<SwapPath>, ErrorCode>,
    input_token: Pubkey,
    output_token: Pubkey,
    input_amount: u64,
    min_output_amount: u64,
    now: Result<i64, ErrorCode>,
) -> bool {
    ({
        let ap = all_paths(
            pool_views(pools),
            now,
            input_token@,
            output_token@,
            MAX_HOPS as nat,
        );
        match ap {
            Err(e) => r == Err::<Option<SwapPath>, ErrorCode>(e),
            Ok(ps) => {
                let routes = route_pools(pool_views(pools), ps);
                match scan_best(routes, input_amount, routes.len()) {
                    Err(e) => r == Err::<Option<SwapPath>, ErrorCode>(e),
                    Ok(best) => if best.1 < min_output_amount {
                        r == Err::<Option<SwapPath>, ErrorCode>(
                            ErrorCode::Custom(SLIPPAGE_CODE),
                        )
                    } else {
                        match best.0 {
                            None => r matches Ok(None),
                            Some(i) => r matches Ok(Some(p)) && p.pools@ == routes[i]
                                && p.pool_indices@ == ps[i]
                                && p.expected_output == 0 && p.price_impact == 0,
                        }
                    },
                }
            },
        }
    })
}

} // verus!
