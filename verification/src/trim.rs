use vstd::prelude::*;

use crate::error::ApiError;

verus! {

/// The number of bytes of `s` equal to `b`.
pub open spec fn occurrences(s: Seq<u8>, b: u8) -> nat
    decreases s.len(),
{
    if s.len() == 0 {
        0
    } else {
        occurrences(s.drop_last(), b) + if s.last() == b {
            1nat
        } else {
            0nat
        }
    }
}

/// `bytecount::count`: the number of bytes of `haystack` equal to `needle`.
#[verifier::external_body]
fn count_bytes(haystack: &[u8], needle: u8) -> (n: usize)
    ensures
        n == occurrences(haystack@, needle),
{
    bytecount::count(haystack, needle)
}

/// The allowed size of a message: its byte length lies in `min_len..max_len`, and it has
/// at most `max_newlines` newlines.
#[derive(Debug, Clone, Copy, PartialEq, Eq, Structural)]
pub struct TrimLimits {
    pub min_len: usize,
    pub max_len: usize,
    pub max_newlines: usize,
}

/// Whether byte `i` of `s` survives trimming: a newline preceded by two newlines is dropped.
pub open spec fn kept_byte(s: Seq<u8>, i: int) -> bool {
    !(i >= 2 && s[i] == 10u8 && s[i - 1] == 10u8 && s[i - 2] == 10u8)
}

/// `s` with every run of more than two consecutive newlines cut down to two.
pub open spec fn collapse_newlines(s: Seq<u8>) -> Seq<u8>
    decreases s.len(),
{
    if s.len() == 0 {
        s
    } else {
        collapse_newlines(s.drop_last()) + if kept_byte(s, s.len() - 1) {
            seq![s.last()]
        } else {
            Seq::<u8>::empty()
        }
    }
}

/// The outcome of trimming `content` under `limits`.
pub open spec fn trim_outcome(content: Seq<u8>, limits: TrimLimits) -> Result<Seq<u8>, ApiError> {
    if content.len() == 0 {
        Ok(content)
    } else {
        let t = collapse_newlines(content);
        if limits.min_len <= t.len() < limits.max_len && occurrences(t, 10u8)
            <= limits.max_newlines {
            Ok(t)
        } else {
            Err(ApiError::BadRequest)
        }
    }
}

/// Trims a message: runs of more than two newlines are cut down to two; the result must
/// then fit `limits` (byte length and number of newlines), else `BadRequest`. An empty
/// message is returned as it is.
pub fn trim_message(content: &[u8], limits: TrimLimits) -> (res: Result<Vec<u8>, ApiError>)
    ensures
        match (res, trim_outcome(content@, limits)) {
            (Ok(v), Ok(t)) => v@ == t,
            (Err(e), Err(f)) => e == f,
            _ => false,
        },
{
    if content.len() == 0 {
        let mut v: Vec<u8> = Vec::new();
        assert(v@ =~= content@);
        return Ok(v);
    }
    let ghost s = content@;
    let mut out: Vec<u8> = Vec::new();
    let mut count: usize = 0;
    let n = content.len();
    let mut i: usize = 0;
    while i < n
        invariant
            n == content.len(),
            s == content@,
            i <= n,
            out@ == collapse_newlines(s.take(i as int)),
            count <= i,
            // `count` is the length of the run of newlines that ends the prefix, capped at 3
            count <= 3,
            forall|k: int| 1 <= k <= count ==> #[trigger] s[i - k] == 10u8,
            count < 3 && count < i ==> s[i - count - 1] != 10u8,
        decreases n - i,
    {
        let byte = content[i];
        let ghost next = s.take(i + 1);
        assert(next.drop_last() =~= s.take(i as int));
        assert(next.last() == byte);
        if byte == 10u8 {
            if count < 3 {
                count = count + 1;
            }
        } else {
            count = 0;
        }
        assert(kept_byte(next, i as int) == !(count >= 3)) by {
            if count >= 3 {
                assert(s[i - 1] == 10u8 && s[i - 2] == 10u8);
            } else if i >= 2 && byte == 10u8 && s[i - 1] == 10u8 && s[i - 2] == 10u8 {
                assert(false);
            }
        }
        if count < 3 {
            out.push(byte);
        }
        i = i + 1;
    }
    assert(s.take(n as int) =~= s);
    let newlines = count_bytes(out.as_slice(), 10u8);
    let len = out.len();
    let too_large = !(limits.min_len <= len && len < limits.max_len);
    let too_long = newlines > limits.max_newlines;
    if too_large || too_long {
        return Err(ApiError::BadRequest);
    }
    Ok(out)
}

/// The number of newlines that end `s`.
pub open spec fn trailing_newlines(s: Seq<u8>) -> nat
    decreases s.len(),
{
    if s.len() == 0 || s.last() != 10u8 {
        0
    } else {
        1 + trailing_newlines(s.drop_last())
    }
}

/// `s` has no run of three newlines.
pub open spec fn no_triple_newline(s: Seq<u8>) -> bool {
    forall|i: int| 2 <= i < s.len() ==> !(#[trigger] s[i] == 10u8 && s[i - 1] == 10u8 && s[i - 2] == 10u8)
}

proof fn lemma_collapse_shape(s: Seq<u8>)
    ensures
        no_triple_newline(collapse_newlines(s)),
        trailing_newlines(collapse_newlines(s)) == if trailing_newlines(s) < 2 {
            trailing_newlines(s)
        } else {
            2
        },
        collapse_newlines(s).len() <= s.len(),
    decreases s.len(),
{
    if s.len() > 0 {
        let p = s.drop_last();
        lemma_collapse_shape(p);
        let c = collapse_newlines(p);
        let b = s.last();
        let i = s.len() - 1;
        if b == 10u8 {
            assert(trailing_newlines(s) == 1 + trailing_newlines(p));
            if p.len() > 0 && p.last() == 10u8 {
                assert(trailing_newlines(p) == 1 + trailing_newlines(p.drop_last()));
            }
            if i >= 2 && s[i - 1] == 10u8 && s[i - 2] == 10u8 {
                assert(p.last() == 10u8);
                assert(p.drop_last().last() == 10u8);
                assert(trailing_newlines(p.drop_last()) >= 1);
                assert(trailing_newlines(p) >= 2);
            } else {
                assert(trailing_newlines(p) < 2) by {
                    if trailing_newlines(p) >= 2 {
                        assert(p.len() > 0 && p.last() == 10u8);
                        assert(trailing_newlines(p.drop_last()) >= 1);
                        assert(p.drop_last().len() > 0 && p.drop_last().last() == 10u8);
                        assert(s[i - 1] == p.last());
                        assert(s[i - 2] == p.drop_last().last());
                    }
                }
                let n = c.push(b);
                assert(collapse_newlines(s) =~= n);
                assert(n.drop_last() =~= c);
                assert forall|k: int| 2 <= k < n.len() implies !(#[trigger] n[k] == 10u8 && n[k - 1] == 10u8 && n[k - 2] == 10u8) by {
                    if k == n.len() - 1 && n[k - 1] == 10u8 && n[k - 2] == 10u8 {
                        assert(c.last() == 10u8);
                        assert(trailing_newlines(c) == 1 + trailing_newlines(c.drop_last()));
                        assert(c.drop_last().last() == 10u8);
                        assert(trailing_newlines(c.drop_last()) >= 1);
                    } else if k < n.len() - 1 {
                        assert(n[k] == c[k] && n[k - 1] == c[k - 1] && n[k - 2] == c[k - 2]);
                    }
                }
            }
        } else {
            let n = c.push(b);
            assert(collapse_newlines(s) =~= n);
            assert forall|k: int| 2 <= k < n.len() implies !(#[trigger] n[k] == 10u8 && n[k - 1] == 10u8 && n[k - 2] == 10u8) by {
                if k < n.len() - 1 {
                    assert(n[k] == c[k] && n[k - 1] == c[k - 1] && n[k - 2] == c[k - 2]);
                }
            }
        }
    }
}

proof fn lemma_collapse_identity(t: Seq<u8>)
    requires
        no_triple_newline(t),
    ensures
        collapse_newlines(t) == t,
    decreases t.len(),
{
    if t.len() > 0 {
        let p = t.drop_last();
        assert forall|i: int| 2 <= i < p.len() implies !(#[trigger] p[i] == 10u8 && p[i - 1] == 10u8 && p[i - 2] == 10u8) by {
            assert(t[i] == p[i] && t[i - 1] == p[i - 1] && t[i - 2] == p[i - 2]);
        }
        lemma_collapse_identity(p);
        let i = t.len() - 1;
        if i >= 2 {
            assert(!(t[i] == 10u8 && t[i - 1] == 10u8 && t[i - 2] == 10u8));
        }
        assert(kept_byte(t, i));
        assert(collapse_newlines(t) =~= p + seq![t.last()]);
        assert(p + seq![t.last()] =~= t);
    }
}

/// Trimming leaves no run of more than two newlines and never lengthens a message, and
/// trimming a trimmed message changes nothing.
pub proof fn lemma_collapse_idempotent(s: Seq<u8>)
    ensures
        no_triple_newline(collapse_newlines(s)),
        collapse_newlines(s).len() <= s.len(),
        collapse_newlines(collapse_newlines(s)) == collapse_newlines(s),
{
    lemma_collapse_shape(s);
    lemma_collapse_identity(collapse_newlines(s));
}

/// A message that trimming accepted is accepted again, unchanged, under the same limits.
pub proof fn lemma_trim_accepts_own_output(s: Seq<u8>, t: Seq<u8>, limits: TrimLimits)
    requires
        trim_outcome(s, limits) == Ok::<Seq<u8>, ApiError>(t),
    ensures
        trim_outcome(t, limits) == Ok::<Seq<u8>, ApiError>(t),
{
    if s.len() > 0 {
        lemma_collapse_idempotent(s);
    }
}

} // verus!
