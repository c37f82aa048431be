use vstd::prelude::*;

verus! {

/// Mathematical image of a [`Function`]: its name as a character sequence,
/// its load address and its exact byte contents.
pub ghost struct FuncModel {
    pub name: Seq<char>,
    pub address: usize,
    pub data: Seq<u8>,
}

/// An immutable byte range with a name and a load address; the unit of
/// extraction, disassembly and comparison.
///
/// Invariant (maintained by every constructor of an executable's table):
/// `data` is non-empty — a zero-length extraction is never materialized.
#[derive(Clone, Debug)]
pub struct Function {
    pub name: String,
    pub address: usize,
    pub data: Vec<u8>,
}

impl View for Function {
    type V = FuncModel;

    open spec fn view(&self) -> FuncModel {
        FuncModel { name: self.name@, address: self.address, data: self.data@ }
    }
}

/// Number of positions `idx` of `a` at which `b` also has an element and
/// `a[idx] == b[idx]`. Positions beyond `b`'s length never match.
pub open spec fn matching_count(a: Seq<u8>, b: Seq<u8>) -> int
    decreases a.len(),
{
    if a.len() == 0 {
        0
    } else {
        matching_count(a.drop_last(), b) + if a.len() - 1 < b.len() && a.last() == b[a.len() - 1] {
            1int
        } else {
            0int
        }
    }
}

/// A perfect positional match of `a` inside `b` is not a truncated view of a
/// longer `b`: the condition that the byte-similarity score enforces.
pub open spec fn no_truncated_match(a: Seq<u8>, b: Seq<u8>) -> bool {
    matching_count(a, b) == a.len() ==> b.len() == a.len()
}

/// Byte-similarity score between two functions, as the exact pair of the
/// number of matching byte positions and the reference length. A host that
/// wants the usual floating-point percentage computes
/// `matching / total * 100`; the pair itself is exact and reproducible.
#[derive(Clone, Copy, Debug, PartialEq, Eq, Structural)]
pub struct MatchScore {
    pub matching: usize,
    pub total: usize,
}

impl MatchScore {
    /// A score of exactly 100 percent.
    pub open spec fn is_perfect(self) -> bool {
        self.matching == self.total
    }
}

/// The number of matching positions never exceeds the reference length.
pub proof fn lemma_matching_count_le(a: Seq<u8>, b: Seq<u8>)
    ensures
        0 <= matching_count(a, b) <= a.len(),
    decreases a.len(),
{
    if a.len() > 0 {
        lemma_matching_count_le(a.drop_last(), b);
    }
}

/// Comparing a byte sequence against itself matches at every position.
pub proof fn lemma_self_match(a: Seq<u8>)
    ensures
        matching_count(a, a) == a.len(),
    decreases a.len(),
{
    if a.len() > 0 {
        lemma_self_match(a.drop_last());
        assert(matching_count(a.drop_last(), a.drop_last()) == matching_count(a.drop_last(), a))
            by {
            lemma_matching_count_prefix(a.drop_last(), a.drop_last(), a);
        }
    }
}

/// Only the first `a.len()` positions of the compared sequence matter: two
/// comparands that agree there give the same count.
proof fn lemma_matching_count_prefix(a: Seq<u8>, b1: Seq<u8>, b2: Seq<u8>)
    requires
        a.len() <= b1.len(),
        a.len() <= b2.len(),
        forall|i: int| 0 <= i < a.len() ==> b1[i] == b2[i],
    ensures
        matching_count(a, b1) == matching_count(a, b2),
    decreases a.len(),
{
    if a.len() > 0 {
        lemma_matching_count_prefix(a.drop_last(), b1, b2);
    }
}

/// Two sequences of equal length that differ at some position never reach a
/// perfect count.
pub proof fn lemma_differing_byte_lowers_count(a: Seq<u8>, b: Seq<u8>, k: int)
    requires
        0 <= k < a.len(),
        k < b.len(),
        a[k] != b[k],
    ensures
        matching_count(a, b) < a.len(),
    decreases a.len(),
{
    lemma_matching_count_le(a.drop_last(), b);
    if k < a.len() - 1 {
        lemma_differing_byte_lowers_count(a.drop_last(), b, k);
    }
}

/// A perfect count forces `b` to be at least as long as `a`: every position
/// of `a` must have found a partner.
pub proof fn lemma_perfect_match_not_shorter(a: Seq<u8>, b: Seq<u8>)
    requires
        matching_count(a, b) == a.len(),
    ensures
        b.len() >= a.len(),
    decreases a.len(),
{
    if a.len() > 0 {
        lemma_matching_count_le(a.drop_last(), b);
        lemma_perfect_match_not_shorter(a.drop_last(), b);
    }
}

/// Counts the positions at which `a` and `b` hold the same byte.
fn matching_count_exec(a: &Vec<u8>, b: &Vec<u8>) -> (r: usize)
    ensures
        r == matching_count(a@, b@),
        r <= a@.len(),
{
    let n = a.len();
    let mut matching: usize = 0;
    let mut idx: usize = 0;
    while idx < n
        invariant
            n == a@.len(),
            0 <= idx <= n,
            matching == matching_count(a@.take(idx as int), b@),
            matching <= idx,
        decreases n - idx,
    {
        if idx < b.len() && a[idx] == b[idx] {
            matching = matching + 1;
        }
        proof {
            assert(a@.take(idx as int + 1).drop_last() =~= a@.take(idx as int));
            assert(a@.take(idx as int + 1).last() == a@[idx as int]);
        }
        idx = idx + 1;
    }
    proof {
        assert(a@.take(n as int) =~= a@);
    }
    matching
}

impl Function {
    /// The runtime form of the consistency condition that the score
    /// enforces: a perfect positional match of `self` against `other` is
    /// genuine, not a truncated window over a longer `other`.
    pub fn check_no_truncated_match(&self, other: &Function) -> (r: bool)
        ensures
            r == no_truncated_match(self.data@, other.data@),
    {
        let m = matching_count_exec(&self.data, &other.data);
        !(m == self.data.len() && other.data.len() != self.data.len())
    }

    /// Positional byte-similarity score of `self` against `other`.
    ///
    /// A strict positional equality count: position `idx` of `self.data`
    /// scores when `other.data` has the equal byte at the same `idx`.
    /// Insertions and deletions shift every later byte and collapse the
    /// score by design.
    ///
    /// The caller rules out the one misleading configuration — a perfect
    /// count over a strictly longer `other` — which the score treats as an
    /// input-consistency violation, so that a perfect score coincides
    /// exactly with byte-for-byte equality.
    pub fn compute_raw_diff(&self, other: &Function) -> (r: MatchScore)
        requires
            self.data@.len() > 0,
            no_truncated_match(self.data@, other.data@),
        ensures
            r.matching == matching_count(self@.data, other@.data),
            r.total == self@.data.len(),
            r.is_perfect() ==> self@.data == other@.data,
    {
        let n = self.data.len();
        let matching = matching_count_exec(&self.data, &other.data);
        proof {
            if matching == n {
                assert forall|i: int| 0 <= i < self.data@.len() implies self.data@[i]
                    == other.data@[i] by {
                    if self.data@[i] != other.data@[i] {
                        lemma_differing_byte_lowers_count(self.data@, other.data@, i);
                    }
                }
                assert(self.data@ =~= other.data@);
            }
        }
        MatchScore { matching, total: n }
    }
}

} // verus!
