//! The static partition of the port space among workers.
//!
//! Worker `i` of `n` starts at port `i + 1` and advances by `n`. Before it
//! advances it checks the distance to the top of the port space: when that
//! distance is at most `n` it stops, so it never steps past `MAX_PORT`.
use vstd::prelude::*;
use vstd::arithmetic::div_mod::{
    lemma_fundamental_div_mod, lemma_fundamental_div_mod_converse_mod, lemma_mod_sub_multiples_vanish,
    lemma_small_mod, lemma_div_minus_one, lemma_div_is_ordered,
};

verus! {

/// The highest port number.
pub const MAX_PORT: u16 = 65535;

/// The ports that a worker probes from port `p` on, with stride `n`.
pub open spec fn ports_from(p: int, n: int) -> Seq<int>
    decreases MAX_PORT - p,
{
    if MAX_PORT - p <= n || n < 1 {
        seq![p]
    } else {
        seq![p].add(ports_from(p + n, n))
    }
}

/// The ports that worker `i` of `n` probes, in the order it probes them.
pub open spec fn worker_ports_spec(i: int, n: int) -> Seq<int> {
    ports_from(i + 1, n)
}

/// Whether some worker of `n` probes port `p`.
pub open spec fn covered(p: int, n: int) -> bool {
    exists|i: int| 0 <= i < n && #[trigger] worker_ports_spec(i, n).contains(p)
}

/// The worker count is one that a scan can run with.
pub open spec fn valid_worker_count(n: int) -> bool {
    1 <= n <= MAX_PORT
}

/// The port at which worker `worker` starts.
pub fn first_port(worker: u16, worker_count: u16) -> (r: u16)
    requires
        worker < worker_count,
    ensures
        r == worker + 1,
        r == worker_ports_spec(worker as int, worker_count as int)[0],
{
    worker + 1
}

/// The port that a worker probes after `port`, or `None` when `port` was its last.
pub fn next_port(port: u16, worker_count: u16) -> (r: Option<u16>)
    requires
        1 <= worker_count,
    ensures
        r == (if MAX_PORT - port <= worker_count {
            None
        } else {
            Some((port + worker_count) as u16)
        }),
        r matches Some(q) ==> port < q <= MAX_PORT,
        ports_from(port as int, worker_count as int) == (match r {
            None => seq![port as int],
            Some(q) => seq![port as int].add(ports_from(q as int, worker_count as int)),
        }),
{
    if MAX_PORT - port <= worker_count {
        None
    } else {
        Some(port + worker_count)
    }
}

/// All the ports that worker `worker` of `worker_count` probes, in order.
pub fn worker_ports(worker: u16, worker_count: u16) -> (r: Vec<u16>)
    requires
        worker < worker_count,
    ensures
        r@.map_values(|x: u16| x as int) == worker_ports_spec(worker as int, worker_count as int),
{
    let mut r: Vec<u16> = Vec::new();
    let mut port: u16 = first_port(worker, worker_count);
    loop
        invariant
            1 <= worker_count,
            r@.map_values(|x: u16| x as int).add(ports_from(port as int, worker_count as int))
                == worker_ports_spec(worker as int, worker_count as int),
        decreases MAX_PORT - port,
    {
        r.push(port);
        match next_port(port, worker_count) {
            None => {
                assert(r@.map_values(|x: u16| x as int) =~= worker_ports_spec(
                    worker as int,
                    worker_count as int,
                ));
                return r;
            },
            Some(q) => {
                port = q;
            },
        }
    }
}

/// Which ports a worker that starts at `s` with stride `n` probes: `s` itself,
/// and every later port below `MAX_PORT` that is a whole number of strides away.
pub proof fn lemma_ports_from_contains(s: int, n: int, q: int)
    requires
        1 <= s <= MAX_PORT,
        1 <= n,
    ensures
        ports_from(s, n).contains(q) <==> (q == s || (s < q < MAX_PORT && (q - s) % n == 0)),
    decreases MAX_PORT - s,
{
    if MAX_PORT - s <= n {
        assert(ports_from(s, n) =~= seq![s]);
        if s < q < MAX_PORT {
            lemma_small_mod((q - s) as nat, n as nat);
        }
        assert(seq![s].contains(q) ==> seq![s][0] == q);
        assert(seq![s][0] == s);
    } else {
        let tail = ports_from(s + n, n);
        assert(ports_from(s, n) =~= seq![s].add(tail));
        lemma_ports_from_contains(s + n, n, q);
        lemma_mod_sub_multiples_vanish(q - s, n);
        assert(-n + (q - s) == q - (s + n));
        if s < q < s + n {
            lemma_small_mod((q - s) as nat, n as nat);
        }
        if ports_from(s, n).contains(q) {
            let k = choose|k: int| 0 <= k < ports_from(s, n).len() && ports_from(s, n)[k] == q;
            if k > 0 {
                assert(tail[k - 1] == q);
                assert(tail.contains(q));
                if q == s + n {
                    assert((q - s) % n == 0) by {
                        lemma_fundamental_div_mod_converse_mod(q - s, n, 1, 0);
                    }
                }
            }
        }
        if tail.contains(q) {
            let k = choose|k: int| 0 <= k < tail.len() && tail[k] == q;
            assert(ports_from(s, n)[k + 1] == q);
        }
        if q == s {
            assert(ports_from(s, n)[0] == q);
        }
    }
}

/// Which worker probes port `p`: port `p` belongs to worker `(p - 1) % n`, and
/// that worker probes it exactly when `p` lies below `MAX_PORT` or is its first port.
pub proof fn lemma_worker_ports_contains(i: int, n: int, p: int)
    requires
        valid_worker_count(n),
        0 <= i < n,
    ensures
        worker_ports_spec(i, n).contains(p) <==> (1 <= p && (p - 1) % n == i && (p < MAX_PORT
            || p == i + 1)),
{
    lemma_ports_from_contains(i + 1, n, p);
    if 1 <= p {
        lemma_fundamental_div_mod(p - 1, n);
        let d = (p - 1) / n;
        if (p - 1) % n == i {
            // p - 1 - i is a multiple of n
            assert(p - (i + 1) == d * n) by (nonlinear_arith)
                requires p - 1 == n * d + (p - 1) % n, (p - 1) % n == i;
            assert((d * n) % n == 0) by {
                lemma_fundamental_div_mod_converse_mod(d * n, n, d, 0);
            }
            assert(d * n >= 0) by (nonlinear_arith)
                requires p - 1 >= 0, p - 1 == n * d + (p - 1) % n, (p - 1) % n < n, n > 0;
        }
        if p == i + 1 {
            lemma_small_mod(i as nat, n as nat);
        }
        if i + 1 < p && (p - (i + 1)) % n == 0 {
            lemma_fundamental_div_mod(p - (i + 1), n);
            let e = (p - (i + 1)) / n;
            assert(p - 1 == e * n + i) by (nonlinear_arith)
                requires p - (i + 1) == n * e + 0;
            lemma_fundamental_div_mod_converse_mod(p - 1, n, e, i);
        }
    }
}

/// The workers' ports are disjoint: no port is probed by two workers.
pub proof fn lemma_partitions_disjoint(n: int, i: int, j: int, p: int)
    requires
        valid_worker_count(n),
        0 <= i < n,
        0 <= j < n,
        worker_ports_spec(i, n).contains(p),
        worker_ports_spec(j, n).contains(p),
    ensures
        i == j,
{
    lemma_worker_ports_contains(i, n, p);
    lemma_worker_ports_contains(j, n, p);
}

/// Every port that some worker probes is a port number, and every port below
/// `MAX_PORT` is probed by some worker. `MAX_PORT` itself is probed only when
/// there is one worker per port.
pub proof fn lemma_partition_coverage(n: int, p: int)
    requires
        valid_worker_count(n),
    ensures
        covered(p, n) <==> (1 <= p < MAX_PORT || (p == MAX_PORT && n == MAX_PORT)),
{
    if 1 <= p {
        let i = (p - 1) % n;
        lemma_fundamental_div_mod(p - 1, n);
        lemma_worker_ports_contains(i, n, p);
        if p < MAX_PORT || (p == MAX_PORT && n == MAX_PORT) {
            if n == MAX_PORT && p == MAX_PORT {
                lemma_fundamental_div_mod_converse_mod(p - 1, n, 0, p - 1);
            }
            assert(worker_ports_spec(i, n).contains(p));
        }
    }
    if covered(p, n) {
        let i = choose|i: int| 0 <= i < n && #[trigger] worker_ports_spec(i, n).contains(p);
        lemma_worker_ports_contains(i, n, p);
        if p == MAX_PORT {
            assert(i + 1 == MAX_PORT);
        }
    }
}

/// The ports that no worker probes, out of `1..=MAX_PORT`.
pub open spec fn missed_ports(n: int) -> Set<int> {
    Set::new(|p: int| 1 <= p <= MAX_PORT && !covered(p, n))
}

/// With at least two workers, the ports that no worker probes are at most one
/// fewer than the workers: the boundary check loses only the top port.
pub proof fn lemma_missed_ports_bounded(n: int)
    requires
        2 <= n <= MAX_PORT,
    ensures
        missed_ports(n).finite(),
        missed_ports(n).len() <= n - 1,
{
    assert forall|p: int| #[trigger] missed_ports(n).contains(p) implies set![MAX_PORT as int].contains(p) by {
        lemma_partition_coverage(n, p);
    }
    vstd::set_lib::lemma_len_subset(missed_ports(n), set![MAX_PORT as int]);
}

proof fn lemma_stride_one(p: int)
    requires
        1 <= p <= MAX_PORT - 1,
    ensures
        ports_from(p, 1) == Seq::new((MAX_PORT - p) as nat, |k: int| p + k),
    decreases MAX_PORT - p,
{
    if MAX_PORT - p > 1 {
        lemma_stride_one(p + 1);
    }
    assert(ports_from(p, 1) =~= Seq::new((MAX_PORT - p) as nat, |k: int| p + k));
}

/// A single worker probes the ports one after another, from 1 up to the
/// port below `MAX_PORT`.
pub proof fn lemma_single_worker_sequential()
    ensures
        worker_ports_spec(0, 1) == Seq::new((MAX_PORT - 1) as nat, |k: int| k + 1),
{
    lemma_stride_one(1);
    assert(Seq::new((MAX_PORT - 1) as nat, |k: int| 1 + k) =~= Seq::new(
        (MAX_PORT - 1) as nat,
        |k: int| k + 1,
    ));
}

/// A worker that starts at `s` probes at most `(MAX_PORT - s) / n + 1` ports.
pub proof fn lemma_ports_from_len(s: int, n: int)
    requires
        s <= MAX_PORT,
        1 <= n,
    ensures
        ports_from(s, n).len() <= (MAX_PORT - s) / n + 1,
    decreases MAX_PORT - s,
{
    if MAX_PORT - s <= n {
        assert(0 <= (MAX_PORT - s) / n) by (nonlinear_arith) requires MAX_PORT - s >= 0, n >= 1;
    } else {
        lemma_ports_from_len(s + n, n);
        lemma_div_minus_one(MAX_PORT - s, n);
        assert(-n + (MAX_PORT - s) == MAX_PORT - (s + n));
    }
}

/// Every worker stops after a bounded number of probes: at most `MAX_PORT / n + 1`.
pub proof fn lemma_worker_terminates(i: int, n: int)
    requires
        valid_worker_count(n),
        0 <= i < n,
    ensures
        worker_ports_spec(i, n).len() <= (MAX_PORT as int) / n + 1,
{
    lemma_ports_from_len(i + 1, n);
    lemma_div_is_ordered(MAX_PORT - (i + 1), MAX_PORT as int, n);
}

} // verus!
