//! Numbers that are given out and come back.
use vstd::prelude::*;

verus! {

/// Whether a number is the lowest one that is not given out.
pub open spec fn is_lowest_free(used: Seq<u64>, n: u64) -> bool {
    &&& !used.contains(n)
    &&& forall|m: u64| m < n ==> #[trigger] used.contains(m)
}

/// The numbers that are given out once one of them came back.
pub open spec fn without_number(used: Seq<u64>, n: u64) -> Seq<u64> {
    used.filter(|m: u64| m != n)
}

/// A list that holds all numbers below a bound is at least that long.
proof fn lemma_long_enough(used: Seq<u64>, n: nat)
    requires
        forall|m: u64| m < n ==> #[trigger] used.contains(m),
        n <= u64::MAX + 1,
    ensures
        n <= used.len(),
    decreases n,
{
    if n > 0 {
        let top = (n - 1) as u64;
        assert(used.contains(top));
        let k = choose|k: int| 0 <= k < used.len() && used[k] == top;
        let rest = used.remove(k);
        assert forall|m: u64| m < n - 1 implies #[trigger] rest.contains(m) by {
            assert(used.contains(m));
            let j = choose|j: int| 0 <= j < used.len() && used[j] == m;
            if j < k {
                assert(rest[j] == m);
            } else {
                assert(rest[j - 1] == m);
            }
        }
        lemma_long_enough(rest, (n - 1) as nat);
    }
}

/// A number that is not the one that came back is still given out.
pub proof fn lemma_without_number(used: Seq<u64>, n: u64, m: u64)
    ensures
        without_number(used, n).contains(m) <==> used.contains(m) && m != n,
    decreases used.len(),
{
    reveal(Seq::filter);
    if used.len() > 0 {
        let fewer = used.drop_last();
        let last = used.last();
        let before = without_number(fewer, n);
        let after = without_number(used, n);
        lemma_without_number(fewer, n, m);
        assert(after == if last != n {
            before.push(last)
        } else {
            before
        });
        if used.contains(m) {
            let k = choose|k: int| 0 <= k < used.len() && used[k] == m;
            if k < fewer.len() {
                assert(fewer[k] == m);
            }
        }
        if fewer.contains(m) {
            let k = choose|k: int| 0 <= k < fewer.len() && fewer[k] == m;
            assert(used[k] == m);
        }
        if before.contains(m) {
            let k = choose|k: int| 0 <= k < before.len() && before[k] == m;
            assert(after[k] == m);
        }
        if after.contains(m) {
            let k = choose|k: int| 0 <= k < after.len() && after[k] == m;
            if k < before.len() {
                assert(before[k] == m);
            }
        }
        if last == m && m != n {
            assert(after[before.len() as int] == m);
        }
        assert(used[used.len() - 1] == last);
    }
}

/// Whether a number is given out.
fn is_used(used: &Vec<u64>, n: u64) -> (r: bool)
    ensures
        r == used@.contains(n),
{
    let mut i: usize = 0;
    while i < used.len()
        invariant
            i <= used@.len(),
            forall|k: int| 0 <= k < i ==> #[trigger] used@[k] != n,
        decreases used@.len() - i,
    {
        if used[i] == n {
            proof {
                assert(used@[i as int] == n);
            }
            return true;
        }
        i = i + 1;
    }
    false
}

/// The lowest number that is not given out. There always is one: no list holds
/// all of them.
pub fn lowest_free(used: &Vec<u64>) -> (r: u64)
    ensures
        is_lowest_free(used@, r),
{
    let total: usize = used.len();
    let mut n: u64 = 0;
    while is_used(used, n)
        invariant
            total == used@.len(),
            n <= total,
            forall|m: u64| m < n ==> #[trigger] used@.contains(m),
        decreases total - n,
    {
        proof {
            lemma_long_enough(used@, (n + 1) as nat);
        }
        n = n + 1;
    }
    n
}

/// The numbers that are given out once one of them came back.
pub fn taken_back(used: &Vec<u64>, n: u64) -> (r: Vec<u64>)
    ensures
        r@ == without_number(used@, n),
{
    let mut rest: Vec<u64> = Vec::new();
    let mut i: usize = 0;
    proof {
        reveal(Seq::filter);
        assert(without_number(used@.take(0), n) =~= Seq::<u64>::empty());
    }
    while i < used.len()
        invariant
            i <= used@.len(),
            rest@ == without_number(used@.take(i as int), n),
        decreases used@.len() - i,
    {
        proof {
            reveal(Seq::filter);
            assert(used@.take(i + 1).drop_last() =~= used@.take(i as int));
        }
        if used[i] != n {
            rest.push(used[i]);
        }
        i = i + 1;
    }
    proof {
        assert(used@.take(i as int) =~= used@);
    }
    rest
}

/// The lowest free number is none of those that are given out, each lower one
/// is, and there is only one such number.
pub proof fn law_lowest_free(used: Seq<u64>, n: u64, m: u64, i: int)
    requires
        is_lowest_free(used, n),
    ensures
        0 <= i < used.len() ==> used[i] != n,
        m < n ==> exists|k: int| 0 <= k < used.len() && #[trigger] used[k] == m,
        is_lowest_free(used, m) ==> m == n,
{
    if 0 <= i < used.len() && used[i] == n {
        assert(used.contains(n));
    }
    if m < n {
        assert(used.contains(m));
    }
    if is_lowest_free(used, m) && n < m {
        assert(used.contains(n));
    }
}

} // verus!
