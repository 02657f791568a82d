use vstd::prelude::*;

verus! {

/// No later position holds the same party id: this row is the one kept for its party.
pub open spec fn is_last(ids: Seq<u64>, p: int) -> bool {
    forall|q: int| p < q < ids.len() ==> ids[q] != ids[p]
}

/// The positions among the first `n` rows that are kept, one per party.
pub open spec fn kept_upto(ids: Seq<u64>, n: nat) -> Seq<usize>
    decreases n,
{
    if n == 0 {
        Seq::empty()
    } else {
        let rest = kept_upto(ids, (n - 1) as nat);
        if is_last(ids, n - 1) {
            rest.push((n - 1) as usize)
        } else {
            rest
        }
    }
}

/// The positions among the first `n` items (roles or emotes) that belong to the party `id`.
pub open spec fn items_upto(owners: Seq<u64>, id: u64, n: nat) -> Seq<usize>
    decreases n,
{
    if n == 0 {
        Seq::empty()
    } else {
        let rest = items_upto(owners, id, (n - 1) as nat);
        if owners[n - 1] == id {
            rest.push((n - 1) as usize)
        } else {
            rest
        }
    }
}

/// A party of the ready event: the row it is built from, and the positions of its items.
pub struct ReadyParty {
    pub row: usize,
    pub items: Vec<usize>,
}

fn items_of(owners: &Vec<u64>, id: u64) -> (items: Vec<usize>)
    ensures
        items@ == items_upto(owners@, id, owners@.len()),
{
    let mut items: Vec<usize> = Vec::new();
    let mut j: usize = 0;
    while j < owners.len()
        invariant
            j <= owners@.len(),
            items@ == items_upto(owners@, id, j as nat),
        decreases owners@.len() - j,
    {
        if owners[j] == id {
            items.push(j);
        }
        j = j + 1;
    }
    items
}

/// Groups the items of the ready event (roles, emotes), given the party each belongs to,
/// under the parties of the user, given by the party id of each row. Each party appears
/// once, built from its last row; an item of no listed party is dropped; items keep their
/// order.
pub fn group_by_party(party_ids: &Vec<u64>, owners: &Vec<u64>) -> (parties: Vec<ReadyParty>)
    ensures
        parties@.len() == kept_upto(party_ids@, party_ids@.len()).len(),
        forall|k: int| 0 <= k < parties@.len() ==> {
            let row = kept_upto(party_ids@, party_ids@.len())[k];
            &&& (#[trigger] parties@[k]).row == row
            &&& parties@[k].items@ == items_upto(owners@, party_ids@[row as int], owners@.len())
        },
{
    let mut parties: Vec<ReadyParty> = Vec::new();
    let mut p: usize = 0;
    while p < party_ids.len()
        invariant
            p <= party_ids@.len(),
            parties@.len() == kept_upto(party_ids@, p as nat).len(),
            forall|k: int| 0 <= k < parties@.len() ==> {
                let row = kept_upto(party_ids@, p as nat)[k];
                &&& (#[trigger] parties@[k]).row == row
                &&& parties@[k].items@ == items_upto(owners@, party_ids@[row as int], owners@.len())
            },
        decreases party_ids@.len() - p,
    {
        let id = party_ids[p];
        let mut last = true;
        let mut q: usize = p + 1;
        while q < party_ids.len()
            invariant
                p < party_ids@.len(),
                p < q <= party_ids@.len(),
                id == party_ids@[p as int],
                last == (forall|r: int| p < r < q ==> party_ids@[r] != id),
            decreases party_ids@.len() - q,
        {
            if party_ids[q] == id {
                last = false;
            }
            q = q + 1;
        }
        let ghost before = parties@;
        if last {
            let items = items_of(owners, id);
            parties.push(ReadyParty { row: p, items });
            proof {
                assert(kept_upto(party_ids@, (p + 1) as nat) == kept_upto(party_ids@, p as nat).push(p));
                assert forall|k: int| 0 <= k < parties@.len() implies {
                    let row = kept_upto(party_ids@, (p + 1) as nat)[k];
                    &&& (#[trigger] parties@[k]).row == row
                    &&& parties@[k].items@ == items_upto(owners@, party_ids@[row as int], owners@.len())
                } by {
                    if k < before.len() {
                        assert(parties@[k] == before[k]);
                    }
                }
            }
        }
        p = p + 1;
    }
    parties
}

} // verus!
