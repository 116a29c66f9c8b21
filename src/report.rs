//! The Open Port Report: the ports found during a scan, collected in the
//! order the workers found them, and handed out in ascending order without
//! duplicates once the scan is over.
use vstd::prelude::*;

verus! {

broadcast use vstd::seq_lib::group_seq_properties;

/// Number of distinct `u16` values.
pub const PORT_SPACE: usize = 65536;

/// The members of `s` below `hi`, in ascending order.
pub open spec fn ascending_below(s: Set<u16>, hi: int) -> Seq<u16>
    decreases hi,
{
    if hi <= 0 {
        Seq::empty()
    } else if s.contains((hi - 1) as u16) {
        ascending_below(s, hi - 1).push((hi - 1) as u16)
    } else {
        ascending_below(s, hi - 1)
    }
}

/// The report as it is printed: the distinct ports of `found`, ascending.
pub open spec fn sorted_report(found: Seq<u16>) -> Seq<u16> {
    ascending_below(found.to_set(), PORT_SPACE as int)
}

/// Each element of `s` is smaller than the next.
pub open spec fn strictly_ascending(s: Seq<u16>) -> bool {
    forall|a: int, b: int| 0 <= a < b < s.len() ==> s[a] < s[b]
}

proof fn lemma_ascending_below(s: Set<u16>, hi: int)
    requires
        0 <= hi <= PORT_SPACE,
    ensures
        strictly_ascending(ascending_below(s, hi)),
        forall|k: int|
            0 <= k < ascending_below(s, hi).len() ==> #[trigger] ascending_below(s, hi)[k] < hi,
        forall|x: u16| #[trigger]
            ascending_below(s, hi).contains(x) <==> (x < hi && s.contains(x)),
    decreases hi,
{
    if hi > 0 {
        lemma_ascending_below(s, hi - 1);
    }
}

/// Two strictly ascending sequences with the same elements are equal.
proof fn lemma_ascending_unique(a: Seq<u16>, b: Seq<u16>)
    requires
        strictly_ascending(a),
        strictly_ascending(b),
        forall|x: u16| a.contains(x) <==> b.contains(x),
    ensures
        a == b,
    decreases a.len(),
{
    if a.len() == 0 {
        if b.len() > 0 {
            assert(b.contains(b[0]));
        }
        assert(a =~= b);
    } else {
        assert(a.contains(a[0]));
        assert(b.contains(b[0]));
        let ka = choose|k: int| 0 <= k < a.len() && a[k] == b[0];
        let kb = choose|k: int| 0 <= k < b.len() && b[k] == a[0];
        assert(a[0] <= a[ka]);
        assert(b[0] <= b[kb]);
        let ta = a.drop_first();
        let tb = b.drop_first();
        assert forall|x: u16| ta.contains(x) <==> tb.contains(x) by {
            if ta.contains(x) {
                let k = choose|k: int| 0 <= k < ta.len() && ta[k] == x;
                assert(a[k + 1] == x);
                assert(a.contains(x));
                let j = choose|j: int| 0 <= j < b.len() && b[j] == x;
                assert(j != 0);
                assert(tb[j - 1] == x);
            }
            if tb.contains(x) {
                let k = choose|k: int| 0 <= k < tb.len() && tb[k] == x;
                assert(b[k + 1] == x);
                assert(b.contains(x));
                let j = choose|j: int| 0 <= j < a.len() && a[j] == x;
                assert(j != 0);
                assert(ta[j - 1] == x);
            }
        }
        lemma_ascending_unique(ta, tb);
        assert(a =~= b) by {
            assert forall|k: int| 0 <= k < a.len() implies a[k] == b[k] by {
                if k > 0 {
                    assert(ta[k - 1] == tb[k - 1]);
                }
            }
        }
    }
}

/// The sorted report is strictly ascending and holds exactly the ports that
/// were found: sorting adds no port and loses none.
pub proof fn lemma_sorted_report_exact(found: Seq<u16>)
    ensures
        strictly_ascending(sorted_report(found)),
        forall|x: u16| #[trigger] sorted_report(found).contains(x) <==> found.contains(x),
{
    lemma_ascending_below(found.to_set(), PORT_SPACE as int);
}

/// Sorting the report a second time changes nothing.
pub proof fn lemma_sort_idempotent(found: Seq<u16>)
    ensures
        sorted_report(sorted_report(found)) == sorted_report(found),
{
    lemma_sorted_report_exact(found);
    lemma_sorted_report_exact(sorted_report(found));
    lemma_ascending_unique(sorted_report(sorted_report(found)), sorted_report(found));
}

/// The sorted report depends only on which ports were found, not on the order
/// in which the workers found them nor on how often.
pub proof fn lemma_sort_ignores_discovery_order(a: Seq<u16>, b: Seq<u16>)
    requires
        a.to_set() == b.to_set(),
    ensures
        sorted_report(a) == sorted_report(b),
{
}

/// A report in which no port arrived twice, as the workers' disjoint shares
/// give, comes out of sorting as a rearrangement of itself: no duplicates, as
/// many ports, and the same ones.
pub proof fn lemma_sort_rearranges_distinct(found: Seq<u16>)
    requires
        found.no_duplicates(),
    ensures
        sorted_report(found).no_duplicates(),
        sorted_report(found).len() == found.len(),
        forall|x: u16| #[trigger] sorted_report(found).contains(x) <==> found.contains(x),
{
    let f = sorted_report(found);
    lemma_sorted_report_exact(found);
    assert(f.to_set() =~= found.to_set());
    found.unique_seq_to_set();
    f.unique_seq_to_set();
}

/// A report that is already strictly ascending comes out of sorting unchanged.
pub proof fn lemma_sort_keeps_ascending(found: Seq<u16>)
    requires
        strictly_ascending(found),
    ensures
        sorted_report(found) == found,
{
    lemma_sorted_report_exact(found);
    lemma_ascending_unique(sorted_report(found), found);
}

/// A report built only from ports that were found listening lists no port
/// without a listener.
pub proof fn lemma_no_false_positives(found: Seq<u16>, listening: Set<u16>)
    requires
        forall|k: int| 0 <= k < found.len() ==> listening.contains(#[trigger] found[k]),
    ensures
        forall|x: u16| #[trigger] sorted_report(found).contains(x) ==> listening.contains(x),
{
    lemma_sorted_report_exact(found);
}

/// The distinct ports of `found` in ascending order.
pub fn sort_report(found: &Vec<u16>) -> (r: Vec<u16>)
    ensures
        r@ == sorted_report(found@),
{
    let mut seen: Vec<bool> = Vec::new();
    let mut k: usize = 0;
    while k < PORT_SPACE
        invariant
            k <= PORT_SPACE,
            seen@.len() == k,
            forall|j: int| 0 <= j < k ==> !(#[trigger] seen@[j]),
        decreases PORT_SPACE - k,
    {
        seen.push(false);
        k = k + 1;
    }
    let mut j: usize = 0;
    while j < found.len()
        invariant
            seen@.len() == PORT_SPACE,
            j <= found@.len(),
            forall|x: u16| #[trigger] seen@[x as int] == found@.subrange(0, j as int).contains(x),
        decreases found@.len() - j,
    {
        let x = found[j];
        assert(found@.subrange(0, j + 1) =~= found@.subrange(0, j as int).push(x));
        seen.set(x as usize, true);
        j = j + 1;
    }
    assert(found@.subrange(0, found@.len() as int) =~= found@);
    let mut r: Vec<u16> = Vec::new();
    let mut p: usize = 0;
    while p < PORT_SPACE
        invariant
            p <= PORT_SPACE,
            seen@.len() == PORT_SPACE,
            forall|x: u16| #[trigger] seen@[x as int] == found@.contains(x),
            r@ == ascending_below(found@.to_set(), p as int),
        decreases PORT_SPACE - p,
    {
        if seen[p] {
            assert(seen@[(p as u16) as int]);
            r.push(p as u16);
        } else {
            assert(!seen@[(p as u16) as int]);
        }
        p = p + 1;
    }
    r
}

/// The ports found during a scan, in the order they arrived.
pub struct OpenPortReport {
    found: Vec<u16>,
}

impl View for OpenPortReport {
    type V = Seq<u16>;

    closed spec fn view(&self) -> Seq<u16> {
        self.found@
    }
}

impl OpenPortReport {
    /// A report with no port in it.
    pub fn new() -> (r: OpenPortReport)
        ensures
            r@ == Seq::<u16>::empty(),
    {
        OpenPortReport { found: Vec::new() }
    }

    /// Adds a port that a worker found open.
    pub fn record(&mut self, port: u16)
        ensures
            final(self)@ == old(self)@.push(port),
    {
        self.found.push(port);
    }

    /// How many ports were recorded, duplicates included.
    pub fn len(&self) -> (r: usize)
        ensures
            r == self@.len(),
    {
        self.found.len()
    }

    /// The recorded ports, distinct and in ascending order.
    pub fn sorted(&self) -> (r: Vec<u16>)
        ensures
            r@ == sorted_report(self@),
    {
        sort_report(&self.found)
    }
}

} // verus!
