//! Scoring the player's planet guesses against the true planetary system.
//!
//! Each guess, in order, claims the first true planet that is still
//! unclaimed and close enough to it.  Whether a guess is close enough to a
//! planet is decided by the caller and handed over as a matrix
//! `close[guess][planet]`.
use vstd::prelude::*;

verus! {

/// The first planet at or after `from` that is still unclaimed and close to
/// the guess whose row is `row`, or `taken.len()` when there is none.
pub open spec fn first_free(row: Seq<bool>, taken: Seq<bool>, from: int) -> int
    decreases taken.len() - from,
{
    if from >= taken.len() {
        taken.len() as int
    } else if !taken[from] && row[from] {
        from
    } else {
        first_free(row, taken, from + 1)
    }
}

/// Which of the `planet_count` planets are claimed once the first `n`
/// guesses have been scored.
pub open spec fn taken_after(close: Seq<Seq<bool>>, planet_count: nat, n: nat) -> Seq<bool>
    decreases n,
{
    if n == 0 {
        Seq::new(planet_count, |i: int| false)
    } else {
        let t = taken_after(close, planet_count, (n - 1) as nat);
        let c = first_free(close[n - 1], t, 0);
        if c < planet_count {
            t.update(c, true)
        } else {
            t
        }
    }
}

/// The planet claimed by guess `g`, or `planet_count` when it claims none.
pub open spec fn claim(close: Seq<Seq<bool>>, planet_count: nat, g: nat) -> int {
    first_free(close[g as int], taken_after(close, planet_count, g), 0)
}

/// Whether guess `g` is confirmed, that is, claims a planet.
pub open spec fn confirmed(close: Seq<Seq<bool>>, planet_count: nat, g: nat) -> bool {
    claim(close, planet_count, g) < planet_count
}

/// The number of confirmed guesses among the first `n`.
pub open spec fn confirmed_count(close: Seq<Seq<bool>>, planet_count: nat, n: nat) -> nat
    decreases n,
{
    if n == 0 {
        0
    } else {
        confirmed_count(close, planet_count, (n - 1) as nat) + if confirmed(
            close,
            planet_count,
            (n - 1) as nat,
        ) {
            1nat
        } else {
            0nat
        }
    }
}

/// The number of `true` entries of `s`.
pub open spec fn count_true(s: Seq<bool>) -> nat
    decreases s.len(),
{
    if s.len() == 0 {
        0
    } else {
        count_true(s.drop_last()) + if s.last() {
            1nat
        } else {
            0nat
        }
    }
}

proof fn lemma_first_free_range(row: Seq<bool>, taken: Seq<bool>, from: int)
    requires
        0 <= from,
    ensures
        from <= first_free(row, taken, from) <= taken.len() || (from > taken.len() && first_free(
            row,
            taken,
            from,
        ) == taken.len()),
        first_free(row, taken, from) < taken.len() ==> !taken[first_free(row, taken, from)]
            && row[first_free(row, taken, from)],
        forall|r: int|
            from <= r < first_free(row, taken, from) && r < taken.len() ==> !(!taken[r] && row[r]),
    decreases taken.len() - from,
{
    if from < taken.len() && !(!taken[from] && row[from]) {
        lemma_first_free_range(row, taken, from + 1);
    }
}

/// A scan from `from` that finds nothing free and close before `stop` (and
/// finds `stop` free and close, unless it is the end) lands on `stop`.
proof fn lemma_first_free_is(row: Seq<bool>, taken: Seq<bool>, from: int, stop: int)
    requires
        0 <= from <= stop <= taken.len(),
        forall|r: int| from <= r < stop ==> !(!taken[r] && row[r]),
        stop < taken.len() ==> !taken[stop] && row[stop],
    ensures
        first_free(row, taken, from) == stop,
    decreases stop - from,
{
    if from < stop {
        lemma_first_free_is(row, taken, from + 1, stop);
    }
}

proof fn lemma_taken_len(close: Seq<Seq<bool>>, planet_count: nat, n: nat)
    ensures
        taken_after(close, planet_count, n).len() == planet_count,
    decreases n,
{
    if n > 0 {
        let m = (n - 1) as nat;
        lemma_taken_len(close, planet_count, m);
        lemma_first_free_range(close[m as int], taken_after(close, planet_count, m), 0);
    }
}

/// Scores each guess: `result[g]` is true when guess `g` claims a planet.
/// Guesses are taken in order; each claims the first planet that is still
/// unclaimed and for which `close[g][planet]` holds.  Each planet is claimed
/// at most once.
pub fn match_planets(close: &Vec<Vec<bool>>, planet_count: usize) -> (result: Vec<bool>)
    requires
        forall|g: int| 0 <= g < close.len() ==> #[trigger] close[g].len() == planet_count,
    ensures
        result.len() == close.len(),
        forall|g: int|
            0 <= g < close.len() ==> #[trigger] result[g] == confirmed(
                close.deep_view(),
                planet_count as nat,
                g as nat,
            ),
{
    let ghost cl = close.deep_view();
    let ghost pc = planet_count as nat;
    let mut taken: Vec<bool> = Vec::new();
    let mut i: usize = 0;
    while i < planet_count
        invariant
            i <= planet_count,
            taken.len() == i,
            forall|r: int| 0 <= r < i ==> !#[trigger] taken[r],
        decreases planet_count - i,
    {
        taken.push(false);
        i = i + 1;
    }
    assert(taken@ == taken_after(cl, pc, 0));
    let mut result: Vec<bool> = Vec::new();
    let mut g: usize = 0;
    while g < close.len()
        invariant
            cl == close.deep_view(),
            pc == planet_count,
            forall|h: int| 0 <= h < close.len() ==> #[trigger] close[h].len() == planet_count,
            g <= close.len(),
            result.len() == g,
            taken@ == taken_after(cl, pc, g as nat),
            forall|h: int| 0 <= h < g ==> #[trigger] result[h] == confirmed(cl, pc, h as nat),
        decreases close.len() - g,
    {
        let row = &close[g];
        assert(row@ == cl[g as int]);
        proof {
            lemma_taken_len(cl, pc, g as nat);
        }
        let mut r: usize = 0;
        let mut found = false;
        while r < planet_count
            invariant_except_break
                !found,
            invariant
                row.len() == planet_count,
                taken.len() == planet_count,
                r <= planet_count,
                forall|q: int| 0 <= q < r ==> !(!taken[q] && row[q]),
            ensures
                r <= planet_count,
                forall|q: int| 0 <= q < r ==> !(!taken[q] && row[q]),
                found ==> r < planet_count && !taken[r as int] && row[r as int],
                !found ==> r == planet_count,
            decreases planet_count - r,
        {
            if !taken[r] && row[r] {
                found = true;
                break;
            }
            r = r + 1;
        }
        proof {
            lemma_first_free_is(cl[g as int], taken@, 0, r as int);
        }
        if found {
            taken.set(r, true);
        }
        result.push(found);
        g = g + 1;
    }
    result
}

// ─── Laws ─────────────────────────────────────────────────────────────────────

/// Law: a confirmed guess is close to the planet it claims, and that planet
/// was still unclaimed when the guess was scored; an unconfirmed guess is
/// close to no planet that was still unclaimed.
pub proof fn law_claim_is_free_and_close(close: Seq<Seq<bool>>, planet_count: nat, g: nat)
    requires
        g < close.len(),
        forall|h: int| 0 <= h < close.len() ==> #[trigger] close[h].len() == planet_count,
    ensures
        confirmed(close, planet_count, g) ==> close[g as int][claim(close, planet_count, g)]
            && !taken_after(close, planet_count, g)[claim(close, planet_count, g)],
        !confirmed(close, planet_count, g) ==> forall|r: int|
            0 <= r < planet_count && #[trigger] close[g as int][r] ==> taken_after(
                close,
                planet_count,
                g,
            )[r],
{
    lemma_taken_len(close, planet_count, g);
    lemma_first_free_range(close[g as int], taken_after(close, planet_count, g), 0);
}

/// A planet stays claimed once claimed, and what is claimed after `n`
/// guesses is exactly what some confirmed earlier guess claimed.
proof fn lemma_taken_means_claimed(close: Seq<Seq<bool>>, planet_count: nat, n: nat, r: int)
    requires
        n <= close.len(),
        0 <= r < planet_count,
    ensures
        taken_after(close, planet_count, n)[r] <==> exists|h: nat|
            h < n && confirmed(close, planet_count, h) && #[trigger] claim(close, planet_count, h)
                == r,
    decreases n,
{
    lemma_taken_len(close, planet_count, n);
    if n > 0 {
        let m = (n - 1) as nat;
        lemma_taken_means_claimed(close, planet_count, m, r);
        lemma_taken_len(close, planet_count, m);
        lemma_first_free_range(close[m as int], taken_after(close, planet_count, m), 0);
        if taken_after(close, planet_count, n)[r] {
            if !taken_after(close, planet_count, m)[r] {
                assert(confirmed(close, planet_count, m) && claim(close, planet_count, m) == r);
            }
        }
        if exists|h: nat|
            h < n && confirmed(close, planet_count, h) && #[trigger] claim(close, planet_count, h)
                == r {
            let h = choose|h: nat|
                h < n && confirmed(close, planet_count, h) && #[trigger] claim(close, planet_count, h)
                    == r;
            if h < m {
                assert(taken_after(close, planet_count, m)[r]);
            }
        }
    }
}

/// Law: a guess claims the lowest-indexed planet that is close to it and
/// still unclaimed: every planet before its claim is either not close to the
/// guess or already claimed by an earlier guess.
pub proof fn law_claim_is_lowest(close: Seq<Seq<bool>>, planet_count: nat, g: nat)
    requires
        g < close.len(),
        forall|h: int| 0 <= h < close.len() ==> #[trigger] close[h].len() == planet_count,
    ensures
        forall|r: int|
            0 <= r < claim(close, planet_count, g) && r < planet_count ==> !(#[trigger] close[g as int][r]
                && !taken_after(close, planet_count, g)[r]),
{
    lemma_taken_len(close, planet_count, g);
    lemma_first_free_range(close[g as int], taken_after(close, planet_count, g), 0);
}

/// Law: no two confirmed guesses claim the same planet.
pub proof fn law_claims_distinct(close: Seq<Seq<bool>>, planet_count: nat, g1: nat, g2: nat)
    requires
        g1 < g2 < close.len(),
        forall|h: int| 0 <= h < close.len() ==> #[trigger] close[h].len() == planet_count,
        confirmed(close, planet_count, g1),
        confirmed(close, planet_count, g2),
    ensures
        claim(close, planet_count, g1) != claim(close, planet_count, g2),
{
    let c1 = claim(close, planet_count, g1);
    lemma_first_free_range(close[g1 as int], taken_after(close, planet_count, g1), 0);
    lemma_taken_means_claimed(close, planet_count, g2, c1);
    assert(taken_after(close, planet_count, g2)[c1]);
    law_claim_is_free_and_close(close, planet_count, g2);
}

proof fn lemma_count_true_update(s: Seq<bool>, i: int)
    requires
        0 <= i < s.len(),
        !s[i],
    ensures
        count_true(s.update(i, true)) == count_true(s) + 1,
    decreases s.len(),
{
    let u = s.update(i, true);
    if i == s.len() - 1 {
        assert(u.drop_last() == s.drop_last());
    } else {
        lemma_count_true_update(s.drop_last(), i);
        assert(u.drop_last() == s.drop_last().update(i, true));
    }
}

proof fn lemma_count_true_all_false(s: Seq<bool>)
    requires
        forall|i: int| 0 <= i < s.len() ==> !#[trigger] s[i],
    ensures
        count_true(s) == 0,
    decreases s.len(),
{
    if s.len() > 0 {
        lemma_count_true_all_false(s.drop_last());
    }
}

proof fn lemma_count_true_bound(s: Seq<bool>)
    ensures
        count_true(s) <= s.len(),
    decreases s.len(),
{
    if s.len() > 0 {
        lemma_count_true_bound(s.drop_last());
    }
}

proof fn lemma_confirmed_count_is_taken(close: Seq<Seq<bool>>, planet_count: nat, n: nat)
    requires
        n <= close.len(),
        forall|h: int| 0 <= h < close.len() ==> #[trigger] close[h].len() == planet_count,
    ensures
        confirmed_count(close, planet_count, n) == count_true(taken_after(close, planet_count, n)),
    decreases n,
{
    if n == 0 {
        lemma_count_true_all_false(taken_after(close, planet_count, 0));
    } else {
        let m = (n - 1) as nat;
        lemma_confirmed_count_is_taken(close, planet_count, m);
        lemma_taken_len(close, planet_count, m);
        lemma_first_free_range(close[m as int], taken_after(close, planet_count, m), 0);
        if confirmed(close, planet_count, m) {
            lemma_count_true_update(
                taken_after(close, planet_count, m),
                claim(close, planet_count, m),
            );
        }
    }
}

/// Law: no more guesses are confirmed than there are planets.
pub proof fn law_confirmed_at_most_planets(close: Seq<Seq<bool>>, planet_count: nat)
    requires
        forall|h: int| 0 <= h < close.len() ==> #[trigger] close[h].len() == planet_count,
    ensures
        confirmed_count(close, planet_count, close.len()) <= planet_count,
{
    lemma_confirmed_count_is_taken(close, planet_count, close.len());
    lemma_count_true_bound(taken_after(close, planet_count, close.len()));
    lemma_taken_len(close, planet_count, close.len());
}

/// Law: when every guess is close to every planet, guess `g` claims planet
/// `g`, so exactly the first `planet_count` guesses are confirmed.
pub proof fn law_all_close(close: Seq<Seq<bool>>, planet_count: nat, g: nat)
    requires
        g < close.len(),
        forall|h: int, r: int|
            0 <= h < close.len() && 0 <= r < planet_count ==> #[trigger] close[h][r],
        forall|h: int| 0 <= h < close.len() ==> #[trigger] close[h].len() == planet_count,
    ensures
        claim(close, planet_count, g) == if g < planet_count {
            g as int
        } else {
            planet_count as int
        },
        confirmed(close, planet_count, g) == (g < planet_count),
    decreases g,
{
    let t = taken_after(close, planet_count, g);
    lemma_taken_len(close, planet_count, g);
    assert forall|r: int| 0 <= r < planet_count implies #[trigger] t[r] == (r < g) by {
        lemma_taken_means_claimed(close, planet_count, g, r);
        if r < g {
            law_all_close(close, planet_count, r as nat);
            assert(claim(close, planet_count, r as nat) == r);
        } else {
            if exists|h: nat| h < g && confirmed(close, planet_count, h) && #[trigger] claim(close, planet_count, h) == r {
                let h = choose|h: nat| h < g && confirmed(close, planet_count, h) && #[trigger] claim(close, planet_count, h) == r;
                law_all_close(close, planet_count, h);
            }
        }
    }
    let stop = if g < planet_count { g as int } else { planet_count as int };
    lemma_first_free_is(close[g as int], t, 0, stop);
}

} // verus!
