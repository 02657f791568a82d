use vstd::prelude::*;

use crate::login::{all_digits, digits_value, is_digit, unsigned_digits};

verus! {

/// What `Snowflake::from_str` makes of bytes: an optional `+` and decimal digits whose value
/// is a nonzero 64-bit unsigned integer.
pub open spec fn parse_snowflake_spec(s: Seq<u8>) -> Option<u64> {
    let d = unsigned_digits(s);
    if d.len() > 0 && all_digits(d) && 0 < digits_value(d) <= u64::MAX {
        Some(digits_value(d) as u64)
    } else {
        None
    }
}

proof fn lemma_digits_nonneg(s: Seq<u8>)
    requires
        all_digits(s),
    ensures
        digits_value(s) >= 0,
    decreases s.len(),
{
    if s.len() > 0 {
        assert(all_digits(s.drop_last()));
        lemma_digits_nonneg(s.drop_last());
        assert(is_digit(s[s.len() - 1]));
    }
}

proof fn lemma_digits_prefix_le(s: Seq<u8>, k: int)
    requires
        all_digits(s),
        0 <= k <= s.len(),
    ensures
        digits_value(s.subrange(0, k)) <= digits_value(s),
    decreases s.len(),
{
    if k == s.len() {
        assert(s.subrange(0, k) =~= s);
    } else {
        let p = s.drop_last();
        assert(all_digits(p));
        lemma_digits_prefix_le(p, k);
        assert(p.subrange(0, k) =~= s.subrange(0, k));
        lemma_digits_nonneg(p);
        assert(is_digit(s[s.len() - 1]));
    }
}

/// Reads the bytes `content[from..to]` as a snowflake id, as `Snowflake::from_str` does.
fn parse_snowflake(content: &[u8], from: usize, to: usize) -> (res: Option<u64>)
    requires
        from <= to <= content@.len(),
    ensures
        res == parse_snowflake_spec(content@.subrange(from as int, to as int)),
{
    let ghost s = content@.subrange(from as int, to as int);
    let start: usize = if from < to && content[from] == 43u8 {
        from + 1
    } else {
        from
    };
    let ghost d = unsigned_digits(s);
    assert(d =~= content@.subrange(start as int, to as int));
    if start >= to {
        return None;
    }
    let mut acc: u64 = 0;
    let mut i: usize = start;
    while i < to
        invariant
            from <= start <= i <= to <= content@.len(),
            start < to,
            d == content@.subrange(start as int, to as int),
            d == unsigned_digits(content@.subrange(from as int, to as int)),
            forall|j: int| start <= j < i ==> is_digit(#[trigger] content@[j]),
            acc == digits_value(content@.subrange(start as int, i as int)),
        decreases to - i,
    {
        let c = content[i];
        if !(48u8 <= c && c <= 57u8) {
            assert(d[i - start] == c);
            assert(!all_digits(d));
            return None;
        }
        let ghost pre = content@.subrange(start as int, i as int);
        let ghost next = content@.subrange(start as int, i + 1);
        assert(next.drop_last() =~= pre);
        let digit = (c - 48u8) as u64;
        if acc > (u64::MAX - digit) / 10 {
            proof {
                assert(acc * 10 + digit > u64::MAX) by (nonlinear_arith)
                    requires
                        acc > (u64::MAX - digit) / 10,
                        digit <= 9,
                ;
                assert(digits_value(next) > u64::MAX);
                if all_digits(d) {
                    assert(next =~= d.subrange(0, i + 1 - start));
                    lemma_digits_prefix_le(d, i + 1 - start);
                }
            }
            return None;
        }
        proof {
            assert(acc * 10 + digit <= u64::MAX) by (nonlinear_arith)
                requires
                    acc <= (u64::MAX - digit) / 10,
                    digit <= 9,
            ;
        }
        acc = acc * 10 + digit;
        i = i + 1;
    }
    assert(all_digits(d));
    assert(content@.subrange(start as int, i as int) =~= d);
    if acc == 0 {
        return None;
    }
    Some(acc)
}

/// The decimal digits of `n`, as `Display` writes a number.
pub open spec fn decimal(n: nat) -> Seq<u8>
    decreases n,
{
    if n < 10 {
        seq![(48 + n) as u8]
    } else {
        decimal(n / 10).push((48 + n % 10) as u8)
    }
}

/// Writes `n` in decimal.
fn format_decimal(n: u64) -> (v: Vec<u8>)
    ensures
        v@ == decimal(n as nat),
{
    let mut rev: Vec<u8> = Vec::new();
    let mut m = n;
    while m >= 10
        invariant
            decimal(n as nat) == decimal(m as nat) + rev@.reverse(),
        decreases m,
    {
        let d = (48 + m % 10) as u8;
        let ghost before = rev@;
        rev.push(d);
        proof {
            assert(decimal(m as nat) == decimal((m / 10) as nat).push(d));
            assert(rev@.reverse() =~= seq![d] + before.reverse());
            assert(decimal(m as nat) + before.reverse() =~= decimal((m / 10) as nat) + rev@.reverse());
        }
        m = m / 10;
    }
    let ghost before = rev@;
    rev.push((48 + m) as u8);
    proof {
        assert(rev@.reverse() =~= seq![(48 + m) as u8] + before.reverse());
        assert(decimal(n as nat) =~= rev@.reverse());
    }
    let mut out: Vec<u8> = Vec::new();
    let mut k: usize = rev.len();
    while k > 0
        invariant
            k <= rev@.len(),
            out@ == rev@.reverse().subrange(0, (rev@.len() - k) as int),
        decreases k,
    {
        k = k - 1;
        out.push(rev[k]);
        proof {
            assert(out@ =~= rev@.reverse().subrange(0, (rev@.len() - k) as int));
        }
    }
    assert(out@ =~= rev@.reverse());
    out
}

/// A custom emote in a message: `<:name:id>`, where `start..end` are the bytes of
/// `name:id`, as the markdown scanner reports them.
#[derive(Debug, Clone, Copy, PartialEq, Eq, Structural)]
pub struct EmoteSpan {
    pub start: usize,
    pub end: usize,
}

/// A custom emote whose id reads: the bytes `start..colon` are its name, and `id` its id.
#[derive(Debug, Clone, Copy, PartialEq, Eq, Structural)]
pub struct EmoteRef {
    pub start: usize,
    pub colon: usize,
    pub end: usize,
    pub id: u64,
}

/// The first colon in `s[start..end]`.
pub open spec fn first_colon(s: Seq<u8>, start: int, end: int) -> Option<int>
    decreases end - start,
{
    if end <= start {
        None
    } else {
        match first_colon(s, start, end - 1) {
            Some(c) => Some(c),
            None => if s[end - 1] == 58u8 {
                Some(end - 1)
            } else {
                None
            },
        }
    }
}

/// The emote a span stands for, when its text is `name:id` with a readable id.
pub open spec fn emote_ref_of(s: Seq<u8>, span: EmoteSpan) -> Option<EmoteRef> {
    match first_colon(s, span.start as int, span.end as int) {
        None => None,
        Some(c) => match parse_snowflake_spec(s.subrange(c + 1, span.end as int)) {
            Some(id) => Some(EmoteRef { start: span.start, colon: c as usize, end: span.end, id }),
            None => None,
        },
    }
}

/// The emotes of the first `n` spans that read.
pub open spec fn refs_upto(s: Seq<u8>, spans: Seq<EmoteSpan>, n: nat) -> Seq<EmoteRef>
    decreases n,
{
    if n == 0 {
        Seq::empty()
    } else {
        let rest = refs_upto(s, spans, (n - 1) as nat);
        match emote_ref_of(s, spans[n - 1]) {
            Some(r) => rest.push(r),
            None => rest,
        }
    }
}

/// The spans lie inside the message, each after the `<:` and before the `>` around it, in
/// order and apart.
pub open spec fn spans_ordered(len: nat, spans: Seq<EmoteSpan>) -> bool {
    &&& forall|k: int| 0 <= k < spans.len() ==> 2 <= (#[trigger] spans[k]).start <= spans[k].end < len
    &&& forall|k: int, l: int| 0 <= k < l < spans.len() ==> (#[trigger] spans[k]).end + 3 <= (#[trigger] spans[l]).start
}

/// The same for emotes, whose colon lies in their span.
pub open spec fn refs_ordered(len: nat, refs: Seq<EmoteRef>) -> bool {
    &&& forall|k: int| 0 <= k < refs.len() ==> 2 <= (#[trigger] refs[k]).start <= refs[k].colon < refs[k].end < len
    &&& forall|k: int, l: int| 0 <= k < l < refs.len() ==> (#[trigger] refs[k]).end + 3 <= (#[trigger] refs[l]).start
}

fn find_colon(s: &[u8], start: usize, end: usize) -> (c: Option<usize>)
    requires
        start <= end <= s@.len(),
    ensures
        c == match first_colon(s@, start as int, end as int) {
            Some(i) => Some(i as usize),
            None => None::<usize>,
        },
{
    let mut i: usize = start;
    while i < end
        invariant
            start <= i <= end <= s@.len(),
            first_colon(s@, start as int, i as int) is None,
        decreases end - i,
    {
        if s[i] == 58u8 {
            assert(first_colon(s@, start as int, i + 1) == Some(i as int));
            proof {
                lemma_first_colon_extend(s@, start as int, i + 1, end as int);
            }
            return Some(i);
        }
        i = i + 1;
    }
    None
}

proof fn lemma_first_colon_extend(s: Seq<u8>, start: int, mid: int, end: int)
    requires
        start <= mid <= end,
        first_colon(s, start, mid) is Some,
    ensures
        first_colon(s, start, end) == first_colon(s, start, mid),
    decreases end - mid,
{
    if mid < end {
        lemma_first_colon_extend(s, start, mid, end - 1);
    }
}

proof fn lemma_first_colon_range(s: Seq<u8>, start: int, end: int)
    ensures
        first_colon(s, start, end) matches Some(c) ==> start <= c < end,
    decreases end - start,
{
    if end > start {
        lemma_first_colon_range(s, start, end - 1);
    }
}

/// The custom emotes of a message that name an emote id, in order, from the spans of custom
/// emotes that the markdown scanner found.
pub fn find_emote_refs(content: &[u8], spans: &Vec<EmoteSpan>) -> (refs: Vec<EmoteRef>)
    requires
        forall|k: int| 0 <= k < spans@.len() ==> (#[trigger] spans@[k]).start <= spans@[k].end <= content@.len(),
    ensures
        refs@ == refs_upto(content@, spans@, spans@.len()),
        spans_ordered(content@.len(), spans@) ==> refs_ordered(content@.len(), refs@),
{
    let mut refs: Vec<EmoteRef> = Vec::new();
    let mut i: usize = 0;
    while i < spans.len()
        invariant
            i <= spans@.len(),
            forall|k: int| 0 <= k < spans@.len() ==> (#[trigger] spans@[k]).start <= spans@[k].end <= content@.len(),
            refs@ == refs_upto(content@, spans@, i as nat),
            spans_ordered(content@.len(), spans@) ==> {
                &&& refs_ordered(content@.len(), refs@)
                &&& forall|k: int, j: int| 0 <= k < refs@.len() && i <= j < spans@.len() ==> (#[trigger] refs@[k]).end + 3
                    <= (#[trigger] spans@[j]).start
            },
        decreases spans@.len() - i,
    {
        let span = spans[i];
        proof {
            lemma_first_colon_range(content@, span.start as int, span.end as int);
        }
        match find_colon(content, span.start, span.end) {
            Some(c) => {
                match parse_snowflake(content, c + 1, span.end) {
                    Some(id) => {
                        let ghost before = refs@;
                        refs.push(EmoteRef { start: span.start, colon: c, end: span.end, id });
                        proof {
                            if spans_ordered(content@.len(), spans@) {
                                assert forall|k: int, l: int| 0 <= k < l < refs@.len() implies (#[trigger] refs@[k]).end + 3
                                    <= (#[trigger] refs@[l]).start by {
                                    if l == before.len() {
                                        assert(refs@[k] == before[k]);
                                    } else {
                                        assert(refs@[k] == before[k] && refs@[l] == before[l]);
                                    }
                                }
                                assert forall|k: int, j: int| 0 <= k < refs@.len() && i + 1 <= j < spans@.len() implies (#[trigger] refs@[k]).end
                                    + 3 <= (#[trigger] spans@[j]).start by {
                                    if k < before.len() {
                                        assert(refs@[k] == before[k]);
                                    } else {
                                        assert(spans@[i as int].end + 3 <= spans@[j].start);
                                    }
                                }
                                assert forall|k: int| 0 <= k < refs@.len() implies 2 <= (#[trigger] refs@[k]).start <= refs@[k].colon
                                    < refs@[k].end < content@.len() by {
                                    if k < before.len() {
                                        assert(refs@[k] == before[k]);
                                    } else {
                                        assert(2 <= spans@[i as int].start);
                                    }
                                }
                            }
                        }
                    },
                    None => {},
                }
            },
            None => {},
        }
        i = i + 1;
    }
    refs
}

/// `s` is strictly increasing.
pub open spec fn strictly_increasing(s: Seq<u64>) -> bool {
    forall|a: int, b: int| 0 <= a < b < s.len() ==> s[a] < s[b]
}

/// `s` is in increasing order, repeats allowed.
pub open spec fn sorted(s: Seq<u64>) -> bool {
    forall|a: int, b: int| 0 <= a <= b < s.len() ==> s[a] <= s[b]
}

/// `s` with each run of equal consecutive elements cut down to its first.
pub open spec fn dedup_consecutive(s: Seq<u64>) -> Seq<u64>
    decreases s.len(),
{
    if s.len() <= 1 {
        s
    } else {
        let rest = dedup_consecutive(s.drop_last());
        if s.last() == s[s.len() - 2] {
            rest
        } else {
            rest.push(s.last())
        }
    }
}

/// One of the first `n` emotes names the id `x`.
pub open spec fn names_id(refs: Seq<EmoteRef>, n: int, x: u64) -> bool {
    exists|k: int| 0 <= k < n && (#[trigger] refs[k]).id == x
}

/// The ids of the emotes of a message, in a `smallvec::SmallVec`.
#[verifier::external_body]
pub struct EmoteIds {
    ids: smallvec::SmallVec<[u64; 8]>,
}

/// The ids an `EmoteIds` holds, in order.
pub uninterp spec fn emote_id_list(ids: EmoteIds) -> Seq<u64>;

/// The empty list of ids.
pub open spec fn no_ids() -> Seq<u64> {
    Seq::empty()
}

/// An empty list of ids.
///
/// Trusted: calls `smallvec::SmallVec::new`, which starts empty.
#[verifier::external_body]
fn ids_new() -> (ids: EmoteIds)
    ensures
        emote_id_list(ids) == no_ids(),
{
    EmoteIds { ids: smallvec::SmallVec::new() }
}

/// Appends an id.
///
/// Trusted: calls `smallvec::SmallVec::push`, which appends the element.
#[verifier::external_body]
fn ids_push(ids: &mut EmoteIds, id: u64)
    ensures
        emote_id_list(*final(ids)) == emote_id_list(*old(ids)).push(id),
{
    ids.ids.push(id);
}

/// Sorts the ids.
///
/// Trusted: calls `sort_unstable` of std on the ids as a slice, which puts the same elements
/// in increasing order.
#[verifier::external_body]
fn ids_sort(ids: &mut EmoteIds)
    ensures
        sorted(emote_id_list(*final(ids))),
        emote_id_list(*final(ids)).to_multiset() == emote_id_list(*old(ids)).to_multiset(),
{
    ids.ids.sort_unstable();
}

/// Removes consecutive repeated ids.
///
/// Trusted: calls `smallvec::SmallVec::dedup`, which keeps an element when it differs from
/// the last one kept.
#[verifier::external_body]
fn ids_dedup(ids: &mut EmoteIds)
    ensures
        emote_id_list(*final(ids)) == dedup_consecutive(emote_id_list(*old(ids))),
{
    ids.ids.dedup();
}

/// The number of ids.
///
/// Trusted: calls `smallvec::SmallVec::len`.
#[verifier::external_body]
fn ids_len(ids: &EmoteIds) -> (n: usize)
    ensures
        n == emote_id_list(*ids).len(),
{
    ids.ids.len()
}

/// The id at a position.
///
/// Trusted: indexes the `smallvec::SmallVec`, which panics out of bounds; `requires` leaves
/// that out.
#[verifier::external_body]
fn ids_at(ids: &EmoteIds, i: usize) -> (id: u64)
    requires
        i < emote_id_list(*ids).len(),
    ensures
        id == emote_id_list(*ids)[i as int],
{
    ids.ids[i]
}

impl EmoteIds {
    /// The ids, in order.
    pub fn to_vec(&self) -> (v: Vec<u64>)
        ensures
            v@ == emote_id_list(*self),
    {
        let n = ids_len(self);
        let mut v: Vec<u64> = Vec::new();
        let mut i: usize = 0;
        while i < n
            invariant
                n == emote_id_list(*self).len(),
                i <= n,
                v@ == emote_id_list(*self).subrange(0, i as int),
            decreases n - i,
        {
            v.push(ids_at(self, i));
            proof {
                assert(v@ =~= emote_id_list(*self).subrange(0, i + 1));
            }
            i = i + 1;
        }
        assert(v@ =~= emote_id_list(*self));
        v
    }
}

proof fn lemma_dedup_sorted(s: Seq<u64>)
    requires
        sorted(s),
    ensures
        strictly_increasing(dedup_consecutive(s)),
        forall|x: u64| dedup_consecutive(s).contains(x) <==> s.contains(x),
        s.len() > 0 ==> dedup_consecutive(s).len() > 0 && dedup_consecutive(s).last() == s.last(),
    decreases s.len(),
{
    if s.len() > 1 {
        let p = s.drop_last();
        assert(sorted(p));
        lemma_dedup_sorted(p);
        let r = dedup_consecutive(p);
        assert(p.last() == s[s.len() - 2]);
        assert forall|x: u64| s.contains(x) <==> (p.contains(x) || x == s.last()) by {
            if s.contains(x) {
                let k = choose|k: int| 0 <= k < s.len() && s[k] == x;
                if k < p.len() {
                    assert(p[k] == x);
                }
            }
            if p.contains(x) {
                let k = choose|k: int| 0 <= k < p.len() && p[k] == x;
                assert(s[k] == x);
            }
            if x == s.last() {
                assert(s[s.len() - 1] == x);
            }
        }
        if s.last() == s[s.len() - 2] {
            assert(p.contains(s.last())) by {
                assert(p[p.len() - 1] == s.last());
            }
        } else {
            assert(s[s.len() - 2] < s.last());
            let n = r.push(s.last());
            assert forall|a: int, b: int| 0 <= a < b < n.len() implies n[a] < n[b] by {
                if b == r.len() {
                    assert(r.contains(r[a]));
                    assert(p.contains(r[a]));
                    let k = choose|k: int| 0 <= k < p.len() && p[k] == r[a];
                    assert(s[k] <= s[s.len() - 2]);
                } else {
                    assert(n[a] == r[a] && n[b] == r[b]);
                }
            }
            assert forall|x: u64| n.contains(x) <==> (r.contains(x) || x == s.last()) by {
                if n.contains(x) {
                    let k = choose|k: int| 0 <= k < n.len() && n[k] == x;
                    if k < r.len() {
                        assert(r[k] == x);
                    }
                }
                if r.contains(x) {
                    let k = choose|k: int| 0 <= k < r.len() && r[k] == x;
                    assert(n[k] == x);
                }
                if x == s.last() {
                    assert(n[r.len() as int] == x);
                }
            }
        }
    }
}

/// The ids the emotes name, each once, in increasing order: collected, sorted, and with
/// repeats removed.
pub fn distinct_emote_ids(refs: &Vec<EmoteRef>) -> (ids: EmoteIds)
    ensures
        strictly_increasing(emote_id_list(ids)),
        forall|x: u64| emote_id_list(ids).contains(x) <==> names_id(refs@, refs@.len() as int, x),
{
    let mut ids = ids_new();
    let mut i: usize = 0;
    while i < refs.len()
        invariant
            i <= refs@.len(),
            emote_id_list(ids).len() == i,
            forall|k: int| 0 <= k < i ==> emote_id_list(ids)[k] == (#[trigger] refs@[k]).id,
        decreases refs@.len() - i,
    {
        ids_push(&mut ids, refs[i].id);
        i = i + 1;
    }
    let ghost collected = emote_id_list(ids);
    assert forall|x: u64| collected.contains(x) <==> names_id(refs@, refs@.len() as int, x) by {
        if collected.contains(x) {
            let k = choose|k: int| 0 <= k < collected.len() && collected[k] == x;
            assert(refs@[k].id == x);
        }
        if names_id(refs@, refs@.len() as int, x) {
            let k = choose|k: int| 0 <= k < refs@.len() && (#[trigger] refs@[k]).id == x;
            assert(collected[k] == x);
        }
    }
    ids_sort(&mut ids);
    let ghost sorted_ids = emote_id_list(ids);
    assert forall|x: u64| sorted_ids.contains(x) <==> collected.contains(x) by {
        sorted_ids.to_multiset_ensures();
        collected.to_multiset_ensures();
        assert(sorted_ids.to_multiset().count(x) == collected.to_multiset().count(x));
    }
    ids_dedup(&mut ids);
    proof {
        lemma_dedup_sorted(sorted_ids);
        assert forall|x: u64| emote_id_list(ids).contains(x) <==> names_id(refs@, refs@.len() as int, x) by {
            assert(dedup_consecutive(sorted_ids).contains(x) <==> sorted_ids.contains(x));
            assert(sorted_ids.contains(x) <==> collected.contains(x));
            assert(collected.contains(x) <==> names_id(refs@, refs@.len() as int, x));
        }
    }
    ids
}

/// An emote that the user may use, as the lookup of the named ids found it.
pub struct UsableEmote {
    pub name: Vec<u8>,
    pub id: u64,
}

/// The position of the first usable emote, among the first `n`, with the id `id`.
pub open spec fn usable_upto(usable: Seq<UsableEmote>, id: u64, n: nat) -> Option<int>
    decreases n,
{
    if n == 0 {
        None
    } else {
        match usable_upto(usable, id, (n - 1) as nat) {
            Some(i) => Some(i),
            None => if usable[n - 1].id == id {
                Some(n - 1)
            } else {
                None
            },
        }
    }
}

/// What an emote of the message becomes: `<:name:id>` with the name it has, if the user may
/// use it; otherwise the plain text `:name:` that was written.
pub open spec fn replacement(s: Seq<u8>, r: EmoteRef, usable: Seq<UsableEmote>) -> Seq<u8> {
    match usable_upto(usable, r.id, usable.len()) {
        Some(i) => seq![60u8, 58u8] + usable[i].name@ + seq![58u8] + decimal(r.id as nat) + seq![62u8],
        None => seq![58u8] + s.subrange(r.start as int, r.colon as int) + seq![58u8],
    }
}

/// Where the text after the first `k` emotes resumes: after the `>` of the last of them.
pub open spec fn prev_end(refs: Seq<EmoteRef>, k: int) -> int {
    if k == 0 {
        0
    } else {
        refs[k - 1].end + 1
    }
}

/// The message up to the end of its `n`-th emote, rewritten.
pub open spec fn rewritten_upto(s: Seq<u8>, refs: Seq<EmoteRef>, usable: Seq<UsableEmote>, n: nat) -> Seq<u8>
    decreases n,
{
    if n == 0 {
        Seq::empty()
    } else {
        rewritten_upto(s, refs, usable, (n - 1) as nat) + s.subrange(prev_end(refs, n - 1), refs[n - 1].start - 2)
            + replacement(s, refs[n - 1], usable)
    }
}

/// The whole message, rewritten.
pub open spec fn rewritten(s: Seq<u8>, refs: Seq<EmoteRef>, usable: Seq<UsableEmote>) -> Seq<u8> {
    rewritten_upto(s, refs, usable, refs.len()) + s.subrange(prev_end(refs, refs.len() as int), s.len() as int)
}

proof fn lemma_usable_upto_range(usable: Seq<UsableEmote>, id: u64, n: nat)
    requires
        n <= usable.len(),
    ensures
        usable_upto(usable, id, n) matches Some(i) ==> 0 <= i < n && usable[i].id == id,
    decreases n,
{
    if n > 0 {
        lemma_usable_upto_range(usable, id, (n - 1) as nat);
    }
}

fn find_usable(usable: &Vec<UsableEmote>, id: u64) -> (found: Option<usize>)
    ensures
        found is None <==> usable_upto(usable@, id, usable@.len()) is None,
        found matches Some(i) ==> i < usable@.len() && usable_upto(usable@, id, usable@.len()) == Some(i as int),
{
    proof {
        lemma_usable_upto_range(usable@, id, usable@.len());
    }
    let mut i: usize = 0;
    while i < usable.len()
        invariant
            i <= usable@.len(),
            usable_upto(usable@, id, i as nat) is None,
        decreases usable@.len() - i,
    {
        if usable[i].id == id {
            proof {
                lemma_usable_upto_extend(usable@, id, (i + 1) as nat, usable@.len());
            }
            return Some(i);
        }
        i = i + 1;
    }
    None
}

proof fn lemma_usable_upto_extend(usable: Seq<UsableEmote>, id: u64, m: nat, n: nat)
    requires
        m <= n,
        usable_upto(usable, id, m) is Some,
    ensures
        usable_upto(usable, id, n) == usable_upto(usable, id, m),
    decreases n - m,
{
    if m < n {
        lemma_usable_upto_extend(usable, id, m, (n - 1) as nat);
    }
}

fn append_range(out: &mut Vec<u8>, src: &[u8], from: usize, to: usize)
    requires
        from <= to <= src@.len(),
    ensures
        final(out)@ == old(out)@ + src@.subrange(from as int, to as int),
{
    let ghost start = out@;
    let mut i: usize = from;
    while i < to
        invariant
            from <= i <= to <= src@.len(),
            out@ == start + src@.subrange(from as int, i as int),
        decreases to - i,
    {
        out.push(src[i]);
        proof {
            assert(src@.subrange(from as int, i + 1) =~= src@.subrange(from as int, i as int).push(src@[i as int]));
        }
        i = i + 1;
    }
}

/// Rewrites the custom emotes of a message: each emote the user may use is written with the
/// name it has, `<:name:id>`; any other is left as the plain text `:name:`.
pub fn rewrite_emotes(content: &[u8], refs: &Vec<EmoteRef>, usable: &Vec<UsableEmote>) -> (out: Vec<u8>)
    requires
        refs_ordered(content@.len(), refs@),
    ensures
        out@ == rewritten(content@, refs@, usable@),
{
    let mut out: Vec<u8> = Vec::new();
    let mut last_end: usize = 0;
    let mut k: usize = 0;
    let n = content.len();
    while k < refs.len()
        invariant
            n == content@.len(),
            k <= refs@.len(),
            refs_ordered(content@.len(), refs@),
            last_end == prev_end(refs@, k as int),
            last_end <= content@.len(),
            k < refs@.len() ==> last_end + 2 <= refs@[k as int].start,
            out@ == rewritten_upto(content@, refs@, usable@, k as nat),
        decreases refs@.len() - k,
    {
        let r = refs[k];
        assert(2 <= refs@[k as int].start <= refs@[k as int].colon < refs@[k as int].end < content@.len());
        let ghost pre = out@;
        append_range(&mut out, content, last_end, r.start - 2);
        let ghost mid = out@;
        let ghost gap = content@.subrange(last_end as int, r.start - 2);
        match find_usable(usable, r.id) {
            Some(i) => {
                out.push(60u8);
                out.push(58u8);
                let name = &usable[i].name;
                append_range(&mut out, name.as_slice(), 0, name.len());
                out.push(58u8);
                let digits = format_decimal(r.id);
                append_range(&mut out, digits.as_slice(), 0, digits.len());
                out.push(62u8);
                proof {
                    let nm = usable@[i as int].name@;
                    let dg = decimal(r.id as nat);
                    assert(nm.subrange(0, nm.len() as int) =~= nm);
                    assert(dg.subrange(0, dg.len() as int) =~= dg);
                    assert(out@ =~= mid + (seq![60u8, 58u8] + nm + seq![58u8] + dg + seq![62u8]));
                }
            },
            None => {
                out.push(58u8);
                append_range(&mut out, content, r.start, r.colon);
                out.push(58u8);
                proof {
                    assert(out@ =~= mid + (seq![58u8] + content@.subrange(r.start as int, r.colon as int) + seq![58u8]));
                }
            },
        }
        proof {
            assert(out@ =~= pre + gap + replacement(content@, r, usable@));
            assert(rewritten_upto(content@, refs@, usable@, (k + 1) as nat) == pre + gap + replacement(content@, r, usable@));
            if k + 1 < refs@.len() {
                assert(refs@[k as int].end + 3 <= refs@[k + 1].start);
            }
        }
        last_end = r.end + 1;
        k = k + 1;
    }
    append_range(&mut out, content, last_end, content.len());
    out
}

proof fn lemma_decimal_digits(n: nat)
    ensures
        decimal(n).len() > 0,
        all_digits(decimal(n)),
        digits_value(decimal(n)) == n,
    decreases n,
{
    if n >= 10 {
        lemma_decimal_digits(n / 10);
        let p = decimal(n / 10);
        let d = decimal(n);
        assert(d.drop_last() =~= p);
        assert forall|i: int| 0 <= i < d.len() implies is_digit(#[trigger] d[i]) by {
            if i < p.len() {
                assert(d[i] == p[i]);
            }
        }
        let r = n % 10;
        assert(r < 10);
        assert(d.last() == (48 + r) as u8);
        assert(((48 + r) as u8) as int == 48 + r);
        assert(digits_value(d) == digits_value(p) * 10 + (d.last() - 48));
        assert((n / 10) * 10 + n % 10 == n);
    } else {
        let d = decimal(n);
        assert(d.drop_last() =~= Seq::<u8>::empty());
        assert(d.last() == (48 + n) as u8);
        assert(((48 + n) as u8) as int == 48 + n);
        assert(digits_value(d) == digits_value(d.drop_last()) * 10 + (d.last() - 48));
    }
}

/// Reading back an id written in decimal gives the id: what the rewriting writes names the
/// same emote when the message is read again.
pub proof fn lemma_decimal_reads_back(id: u64)
    requires
        id > 0,
    ensures
        parse_snowflake_spec(decimal(id as nat)) == Some(id),
{
    lemma_decimal_digits(id as nat);
    let d = decimal(id as nat);
    assert(is_digit(d[0]));
    assert(unsigned_digits(d) == d);
}

/// A message without readable emotes is left as it is.
pub proof fn lemma_no_emotes_unchanged(s: Seq<u8>, usable: Seq<UsableEmote>)
    ensures
        rewritten(s, Seq::empty(), usable) == s,
{
    assert(s.subrange(0, s.len() as int) =~= s);
    assert(rewritten(s, Seq::empty(), usable) =~= s);
}

} // verus!
