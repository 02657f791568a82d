use vstd::prelude::*;

use crate::messages::same_text;

verus! {

/// The link at `i` is the first one with its address.
pub open spec fn is_first(urls: Seq<String>, i: int) -> bool {
    forall|j: int| 0 <= j < i ==> urls[j]@ != urls[i]@
}

/// The positions, among the first `n` links, of the first link of each address.
pub open spec fn firsts_upto(urls: Seq<String>, n: nat) -> Seq<int>
    decreases n,
{
    if n == 0 {
        Seq::empty()
    } else {
        let rest = firsts_upto(urls, (n - 1) as nat);
        if is_first(urls, n - 1) {
            rest.push(n - 1)
        } else {
            rest
        }
    }
}

/// Which links of a message get an embed.
pub struct EmbedPlan {
    /// The positions of the links to embed, in order; the embed's position is its rank.
    pub picks: Vec<usize>,
    /// The limit of embeds was reached, and the rest of the links are ignored.
    pub limited: bool,
}

/// The number of picks for `n` distinct addresses under the limit `max_embeds` (a limit
/// of zero or less is never reached).
pub open spec fn picked_count(n: nat, max_embeds: i16) -> nat {
    if max_embeds > 0 && n >= max_embeds {
        max_embeds as nat
    } else {
        n
    }
}

proof fn lemma_firsts_upto_len(urls: Seq<String>, n: nat)
    ensures
        firsts_upto(urls, n).len() <= n,
    decreases n,
{
    if n > 0 {
        lemma_firsts_upto_len(urls, (n - 1) as nat);
    }
}

proof fn lemma_firsts_upto_prefix(urls: Seq<String>, m: nat, n: nat)
    requires
        m <= n,
    ensures
        firsts_upto(urls, m).len() <= firsts_upto(urls, n).len(),
        firsts_upto(urls, m) == firsts_upto(urls, n).subrange(0, firsts_upto(urls, m).len() as int),
    decreases n,
{
    if m < n {
        lemma_firsts_upto_prefix(urls, m, (n - 1) as nat);
        let rest = firsts_upto(urls, (n - 1) as nat);
        if is_first(urls, n - 1) {
            assert(rest.push(n - 1).subrange(0, firsts_upto(urls, m).len() as int) =~= rest.subrange(
                0,
                firsts_upto(urls, m).len() as int,
            ));
        }
    } else {
        assert(firsts_upto(urls, n).subrange(0, firsts_upto(urls, n).len() as int) =~= firsts_upto(urls, n));
    }
}

/// Chooses the links of a message to embed: each address once, at its first link, in
/// order, up to `max_embeds` embeds.
pub fn plan_embeds(urls: &Vec<String>, max_embeds: i16) -> (plan: EmbedPlan)
    requires
        urls@.len() < i16::MAX,
    ensures
        ({
            let firsts = firsts_upto(urls@, urls@.len());
            let k = picked_count(firsts.len(), max_embeds);
            &&& plan.picks@.len() == k
            &&& forall|r: int| 0 <= r < k ==> plan.picks@[r] == firsts[r]
            &&& plan.limited == (max_embeds > 0 && firsts.len() >= max_embeds)
        }),
{
    let mut picks: Vec<usize> = Vec::new();
    let mut position: i16 = 0;
    let mut i: usize = 0;
    proof {
        lemma_firsts_upto_len(urls@, urls@.len());
    }
    while i < urls.len()
        invariant
            i <= urls@.len(),
            urls@.len() < i16::MAX,
            picks@.len() == position,
            position as nat == firsts_upto(urls@, i as nat).len(),
            forall|r: int| 0 <= r < picks@.len() ==> picks@[r] == firsts_upto(urls@, i as nat)[r],
            !(max_embeds > 0 && position >= max_embeds),
        decreases urls@.len() - i,
    {
        proof {
            lemma_firsts_upto_len(urls@, i as nat);
        }
        let mut first = true;
        let mut j: usize = 0;
        while j < i
            invariant
                i < urls@.len(),
                j <= i,
                first == (forall|k: int| 0 <= k < j ==> urls@[k]@ != urls@[i as int]@),
            decreases i - j,
        {
            if same_text(urls[j].as_str(), urls[i].as_str()) {
                first = false;
            }
            j = j + 1;
        }
        let ghost before = picks@;
        if first {
            picks.push(i);
            position = position + 1;
            proof {
                assert(firsts_upto(urls@, (i + 1) as nat) == firsts_upto(urls@, i as nat).push(i as int));
                assert forall|r: int| 0 <= r < picks@.len() implies picks@[r] == firsts_upto(urls@, (i + 1) as nat)[r] by {
                    if r < before.len() {
                        assert(picks@[r] == before[r]);
                    }
                }
            }
            if position == max_embeds {
                proof {
                    lemma_firsts_upto_prefix(urls@, (i + 1) as nat, urls@.len());
                    let all = firsts_upto(urls@, urls@.len());
                    assert forall|r: int| 0 <= r < picks@.len() implies picks@[r] == all[r] by {
                        assert(all.subrange(0, picks@.len() as int)[r] == all[r]);
                    }
                }
                return EmbedPlan { picks, limited: true };
            }
        }
        i = i + 1;
    }
    proof {
        let all = firsts_upto(urls@, urls@.len());
        assert(all == firsts_upto(urls@, i as nat));
    }
    EmbedPlan { picks, limited: false }
}

/// Whether a known embed of a link is fetched again: when there is none yet, or it has
/// expired (`expires` at or before `now`).
pub fn embed_needs_refresh(expires: Option<i64>, now: i64) -> (b: bool)
    ensures
        b == match expires {
            Some(e) => e <= now,
            None => true,
        },
{
    match expires {
        Some(e) => e <= now,
        None => true,
    }
}

proof fn lemma_firsts_upto_props(urls: Seq<String>, n: nat)
    requires
        n <= urls.len(),
    ensures
        forall|r: int| 0 <= r < firsts_upto(urls, n).len() ==> {
            let i = #[trigger] firsts_upto(urls, n)[r];
            0 <= i < n && is_first(urls, i)
        },
        forall|r1: int, r2: int| 0 <= r1 < r2 < firsts_upto(urls, n).len() ==> #[trigger] firsts_upto(urls, n)[r1] < #[trigger] firsts_upto(urls, n)[r2],
    decreases n,
{
    if n > 0 {
        lemma_firsts_upto_props(urls, (n - 1) as nat);
        let rest = firsts_upto(urls, (n - 1) as nat);
        let all = firsts_upto(urls, n);
        if is_first(urls, n - 1) {
            assert forall|r: int| 0 <= r < all.len() implies {
                let i = #[trigger] all[r];
                0 <= i < n && is_first(urls, i)
            } by {
                if r < rest.len() {
                    assert(all[r] == rest[r]);
                }
            }
            assert forall|r1: int, r2: int| 0 <= r1 < r2 < all.len() implies #[trigger] all[r1] < #[trigger] all[r2] by {
                assert(all[r1] == rest[r1]);
                if r2 < rest.len() {
                    assert(all[r2] == rest[r2]);
                }
            }
        }
    }
}

/// Each address is embedded at most once: no two picked links share their address.
pub proof fn lemma_embeds_distinct(urls: Seq<String>)
    ensures
        forall|r1: int, r2: int| 0 <= r1 < r2 < firsts_upto(urls, urls.len()).len()
            ==> urls[#[trigger] firsts_upto(urls, urls.len())[r1]]@ != urls[#[trigger] firsts_upto(urls, urls.len())[r2]]@,
{
    lemma_firsts_upto_props(urls, urls.len());
}

} // verus!
