//! The redeemers of a transaction in their canonical order, and the choice of
//! one of them.
use crate::ledger::{Redeemer, RedeemerTag};
use crate::text::{decimal_text, push_decimal};
use vstd::prelude::*;
use vstd::string::*;

verus! {

/// The place of a tag among the tags.
pub open spec fn tag_rank(tag: RedeemerTag) -> int {
    match tag {
        RedeemerTag::Spend => 0,
        RedeemerTag::Mint => 1,
        RedeemerTag::Cert => 2,
        RedeemerTag::Reward => 3,
        RedeemerTag::Vote => 4,
        RedeemerTag::Propose => 5,
    }
}

/// The number by which redeemers are ordered: first by tag, then by index.
pub open spec fn purpose_key(redeemer: Redeemer) -> int {
    tag_rank(redeemer.tag) * 0x1_0000_0000 + redeemer.index
}

/// Whether two redeemers are for the same thing: they have the same tag and
/// the same index.
pub open spec fn same_purpose(a: Redeemer, b: Redeemer) -> bool {
    a.tag == b.tag && a.index == b.index
}

/// Whether each redeemer comes before all that follow it, by tag and then by
/// index.
pub open spec fn canonical_order(redeemers: Seq<Redeemer>) -> bool {
    forall|i: int, j: int|
        0 <= i < j < redeemers.len() ==> purpose_key(redeemers[i]) < purpose_key(redeemers[j])
}

/// Whether no redeemer before place `j` is for the same thing as the one at `j`.
pub open spec fn first_of_purpose(raw: Seq<Redeemer>, j: int) -> bool {
    &&& 0 <= j < raw.len()
    &&& forall|k: int| 0 <= k < j ==> !same_purpose(raw[k], raw[j])
}

/// Whether `x` stands at place `j` of `raw`, and no redeemer before it is for
/// the same thing.
pub open spec fn stands_first(raw: Seq<Redeemer>, j: int, x: Redeemer) -> bool {
    first_of_purpose(raw, j) && raw[j] == x
}

/// Whether `out` has at place `i` a redeemer for the same thing as `x`.
pub open spec fn holds_purpose(out: Seq<Redeemer>, i: int, x: Redeemer) -> bool {
    0 <= i < out.len() && same_purpose(out[i], x)
}

/// Whether `x` is a redeemer of `raw`, and the first of `raw` for its thing.
pub open spec fn first_in(raw: Seq<Redeemer>, x: Redeemer) -> bool {
    exists|j: int| stands_first(raw, j, x)
}

/// Whether `out` has a redeemer for the same thing as `x`.
pub open spec fn purpose_in(out: Seq<Redeemer>, x: Redeemer) -> bool {
    exists|i: int| holds_purpose(out, i, x)
}

/// Whether `out` is the canonical sequence of `raw`: it is in canonical order,
/// and for each thing that `raw` has a redeemer for it holds the first of them,
/// unchanged, and nothing else.
pub open spec fn canonical_of(out: Seq<Redeemer>, raw: Seq<Redeemer>) -> bool {
    &&& canonical_order(out)
    &&& forall|i: int| 0 <= i < out.len() ==> first_in(raw, #[trigger] out[i])
    &&& forall|j: int| 0 <= j < raw.len() ==> purpose_in(out, #[trigger] raw[j])
}

/// The redeemers that some references point to.
pub open spec fn values(refs: Seq<&Redeemer>) -> Seq<Redeemer> {
    Seq::new(refs.len(), |i: int| *refs[i])
}

/// Redeemers for the same thing have the same key, and no others.
pub proof fn lemma_key_tells_purpose(a: Redeemer, b: Redeemer)
    ensures
        same_purpose(a, b) <==> purpose_key(a) == purpose_key(b),
{
}

/// The number by which a redeemer is ordered.
fn key_of(redeemer: &Redeemer) -> (key: u64)
    ensures
        key == purpose_key(*redeemer),
{
    let rank: u64 = match redeemer.tag {
        RedeemerTag::Spend => 0,
        RedeemerTag::Mint => 1,
        RedeemerTag::Cert => 2,
        RedeemerTag::Reward => 3,
        RedeemerTag::Vote => 4,
        RedeemerTag::Propose => 5,
    };
    rank * 0x1_0000_0000 + redeemer.index as u64
}

/// A redeemer put between those with smaller keys and those with greater keys
/// leaves the order.
proof fn lemma_place_keeps_order(before: Seq<Redeemer>, x: Redeemer, at: int)
    requires
        canonical_order(before),
        0 <= at <= before.len(),
        forall|j: int| 0 <= j < at ==> purpose_key(#[trigger] before[j]) < purpose_key(x),
        at < before.len() ==> purpose_key(x) < purpose_key(before[at]),
    ensures
        canonical_order(before.insert(at, x)),
{
    let after = before.insert(at, x);
    assert forall|a: int, b: int| 0 <= a < b < after.len() implies purpose_key(after[a])
        < purpose_key(after[b]) by {
        if b == at {
            assert(after[a] == before[a]);
        } else if a == at {
            assert(after[b] == before[b - 1]);
            assert(purpose_key(before[at]) <= purpose_key(before[b - 1]));
        } else if b < at {
            assert(after[a] == before[a] && after[b] == before[b]);
        } else if a < at {
            assert(after[a] == before[a] && after[b] == before[b - 1]);
        } else {
            assert(after[a] == before[a - 1] && after[b] == before[b - 1]);
        }
    }
}

/// A redeemer whose key lies strictly between the keys around its place is for
/// a thing that none of the others is for.
proof fn lemma_place_is_new(before: Seq<Redeemer>, x: Redeemer, at: int, m: int)
    requires
        canonical_order(before),
        0 <= at <= before.len(),
        forall|j: int| 0 <= j < at ==> purpose_key(#[trigger] before[j]) < purpose_key(x),
        at < before.len() ==> purpose_key(x) < purpose_key(before[at]),
        0 <= m < before.len(),
    ensures
        !same_purpose(before[m], x),
{
    lemma_key_tells_purpose(before[m], x);
    if m > at {
        assert(purpose_key(before[at]) < purpose_key(before[m]));
    }
}

/// A redeemer for a new thing, put where the order wants it, gives the
/// canonical sequence of what was seen and that redeemer.
proof fn lemma_place_new(before: Seq<Redeemer>, seen: Seq<Redeemer>, x: Redeemer, at: int)
    requires
        canonical_of(before, seen),
        0 <= at <= before.len(),
        forall|j: int| 0 <= j < at ==> purpose_key(#[trigger] before[j]) < purpose_key(x),
        at < before.len() ==> purpose_key(x) < purpose_key(before[at]),
    ensures
        canonical_of(before.insert(at, x), seen.push(x)),
{
    let after = before.insert(at, x);
    let next = seen.push(x);
    lemma_place_keeps_order(before, x, at);
    let n = seen.len() as int;
    assert forall|k: int| 0 <= k < n implies !same_purpose(next[k], next[n]) by {
        assert(seen[k] == next[k]);
        assert(purpose_in(before, seen[k]));
        let m = choose|m: int| holds_purpose(before, m, seen[k]);
        lemma_place_is_new(before, x, at, m);
    }
    assert(stands_first(next, n, x));
    assert forall|a: int| 0 <= a < after.len() implies first_in(next, #[trigger] after[a]) by {
        if a == at {
            assert(stands_first(next, n, after[a]));
        } else {
            let b = if a < at {
                a
            } else {
                a - 1
            };
            assert(after[a] == before[b]);
            assert(first_in(seen, before[b]));
            let j = choose|j: int| stands_first(seen, j, before[b]);
            lemma_first_stays(seen, x, j);
            assert(stands_first(next, j, after[a]));
        }
    }
    assert forall|j: int| 0 <= j < next.len() implies purpose_in(after, #[trigger] next[j]) by {
        if j == n {
            assert(holds_purpose(after, at, next[j]));
        } else {
            assert(next[j] == seen[j]);
            assert(purpose_in(before, seen[j]));
            let m = choose|m: int| holds_purpose(before, m, seen[j]);
            let a = if m < at {
                m
            } else {
                m + 1
            };
            assert(after[a] == before[m]);
            assert(holds_purpose(after, a, next[j]));
        }
    }
}

/// What stands first in a sequence stands first when one more follows.
proof fn lemma_first_stays(seen: Seq<Redeemer>, x: Redeemer, j: int)
    requires
        first_of_purpose(seen, j),
    ensures
        first_of_purpose(seen.push(x), j),
        seen.push(x)[j] == seen[j],
{
    let next = seen.push(x);
    assert forall|k: int| 0 <= k < j implies !same_purpose(next[k], next[j]) by {
        assert(seen[k] == next[k] && seen[j] == next[j]);
    }
}

/// A redeemer for a thing that already has one changes nothing.
proof fn lemma_keep_first(before: Seq<Redeemer>, seen: Seq<Redeemer>, x: Redeemer, at: int)
    requires
        canonical_of(before, seen),
        0 <= at < before.len(),
        same_purpose(before[at], x),
    ensures
        canonical_of(before, seen.push(x)),
{
    let next = seen.push(x);
    assert forall|a: int| 0 <= a < before.len() implies first_in(next, #[trigger] before[a]) by {
        assert(first_in(seen, before[a]));
        let j = choose|j: int| stands_first(seen, j, before[a]);
        lemma_first_stays(seen, x, j);
        assert(stands_first(next, j, before[a]));
    }
    assert forall|j: int| 0 <= j < next.len() implies purpose_in(before, #[trigger] next[j]) by {
        if j == seen.len() {
            assert(holds_purpose(before, at, next[j]));
        } else {
            assert(next[j] == seen[j]);
            assert(purpose_in(before, seen[j]));
            let m = choose|m: int| holds_purpose(before, m, seen[j]);
            assert(holds_purpose(before, m, next[j]));
        }
    }
}

/// The redeemers of a transaction in canonical order: by tag, then by index.
/// Of several redeemers for the same thing the first stays.
pub fn normalize_redeemers<'a>(raw: &'a Vec<Redeemer>) -> (out: Vec<&'a Redeemer>)
    ensures
        canonical_of(values(out@), raw@),
{
    let mut out: Vec<&'a Redeemer> = Vec::new();
    let mut i: usize = 0;
    assert(values(out@) =~= Seq::empty());
    while i < raw.len()
        invariant
            i <= raw@.len(),
            canonical_of(values(out@), raw@.take(i as int)),
        decreases raw@.len() - i,
    {
        let key = key_of(&raw[i]);
        let ghost before = values(out@);
        let mut at: usize = 0;
        while at < out.len() && key_of(out[at]) < key
            invariant
                at <= out@.len(),
                before == values(out@),
                forall|j: int| 0 <= j < at ==> purpose_key(#[trigger] before[j]) < key,
            decreases out@.len() - at,
        {
            assert(before[at as int] == *out@[at as int]);
            at += 1;
        }
        let present = at < out.len() && key_of(out[at]) == key;
        proof {
            if at < out@.len() {
                assert(before[at as int] == *out@[at as int]);
            }
            assert(raw@.take(i + 1) =~= raw@.take(i as int).push(raw@[i as int]));
        }
        if !present {
            out.insert(at, &raw[i]);
            proof {
                assert(values(out@) =~= before.insert(at as int, raw@[i as int]));
                lemma_place_new(before, raw@.take(i as int), raw@[i as int], at as int);
            }
        } else {
            proof {
                lemma_key_tells_purpose(before[at as int], raw@[i as int]);
                lemma_keep_first(before, raw@.take(i as int), raw@[i as int], at as int);
            }
        }
        i += 1;
    }
    assert(raw@.take(raw@.len() as int) =~= raw@);
    out
}

/// Two redeemers for the same thing that both stand first in `raw` are one.
proof fn lemma_same_first(raw: Seq<Redeemer>, x: Redeemer, y: Redeemer)
    requires
        first_in(raw, x),
        first_in(raw, y),
        same_purpose(x, y),
    ensures
        x == y,
{
    let j = choose|j: int| stands_first(raw, j, x);
    let k = choose|k: int| stands_first(raw, k, y);
    if j < k {
        assert(!same_purpose(raw[j], raw[k]));
    } else if k < j {
        assert(!same_purpose(raw[k], raw[j]));
    }
}

/// Two canonical sequences of `raw` agree on the first `n` places of the one.
proof fn lemma_canonical_prefix(a: Seq<Redeemer>, b: Seq<Redeemer>, raw: Seq<Redeemer>, n: int)
    requires
        canonical_of(a, raw),
        canonical_of(b, raw),
        0 <= n <= a.len(),
    ensures
        n <= b.len(),
        forall|i: int| 0 <= i < n ==> a[i] == b[i],
    decreases n,
{
    if n > 0 {
        lemma_canonical_prefix(a, b, raw, n - 1);
        let x = a[n - 1];
        assert(first_in(raw, x));
        let j = choose|j: int| stands_first(raw, j, x);
        assert(purpose_in(b, raw[j]));
        let m = choose|m: int| holds_purpose(b, m, x);
        lemma_key_tells_purpose(b[m], x);
        if m < n - 1 {
            assert(a[m] == b[m]);
            assert(purpose_key(a[m]) < purpose_key(a[n - 1]));
        } else if m > n - 1 {
            let y = b[n - 1];
            assert(first_in(raw, y));
            let jy = choose|jy: int| stands_first(raw, jy, y);
            assert(purpose_in(a, raw[jy]));
            let k = choose|k: int| holds_purpose(a, k, y);
            lemma_key_tells_purpose(a[k], y);
            assert(purpose_key(b[n - 1]) < purpose_key(b[m]));
            if k > n - 1 {
                assert(purpose_key(a[n - 1]) < purpose_key(a[k]));
            } else if k < n - 1 {
                assert(a[k] == b[k]);
                assert(purpose_key(b[k]) < purpose_key(b[n - 1]));
            }
        } else {
            assert(first_in(raw, b[m]));
            lemma_same_first(raw, b[m], x);
        }
    }
}

/// A sequence has one canonical sequence only: to normalize it twice, and to
/// pick the redeemer at the same place each time, gives the same redeemer.
pub proof fn lemma_canonical_unique(a: Seq<Redeemer>, b: Seq<Redeemer>, raw: Seq<Redeemer>)
    requires
        canonical_of(a, raw),
        canonical_of(b, raw),
    ensures
        a == b,
{
    lemma_canonical_prefix(a, b, raw, a.len() as int);
    lemma_canonical_prefix(b, a, raw, b.len() as int);
    assert(a =~= b);
}

/// To normalize is idempotent: a sequence in canonical order is its own
/// canonical sequence.
pub proof fn lemma_canonical_idempotent(out: Seq<Redeemer>, raw: Seq<Redeemer>)
    requires
        canonical_order(raw),
        canonical_of(out, raw),
    ensures
        out == raw,
{
    assert forall|i: int| 0 <= i < raw.len() implies first_in(raw, #[trigger] raw[i]) by {
        assert forall|k: int| 0 <= k < i implies !same_purpose(raw[k], raw[i]) by {
            lemma_key_tells_purpose(raw[k], raw[i]);
        }
        assert(stands_first(raw, i, raw[i]));
    }
    assert forall|j: int| 0 <= j < raw.len() implies purpose_in(raw, #[trigger] raw[j]) by {
        assert(holds_purpose(raw, j, raw[j]));
    }
    lemma_canonical_unique(out, raw, raw);
}

/// Whether redeemers for the same thing are the same redeemer.
pub open spec fn one_per_purpose(raw: Seq<Redeemer>) -> bool {
    forall|i: int, j: int|
        0 <= i < raw.len() && 0 <= j < raw.len() && same_purpose(raw[i], raw[j]) ==> raw[i]
            == raw[j]
}

/// Before each redeemer stands the first one for the same thing, or it is
/// that one itself.
proof fn lemma_first_exists(raw: Seq<Redeemer>, k: int)
    requires
        0 <= k < raw.len(),
    ensures
        exists|j: int| 0 <= j <= k && first_of_purpose(raw, j) && same_purpose(raw[j], raw[k]),
    decreases k,
{
    if first_of_purpose(raw, k) {
        assert(same_purpose(raw[k], raw[k]));
    } else {
        let m = choose|m: int| 0 <= m < k && same_purpose(raw[m], raw[k]);
        lemma_first_exists(raw, m);
        let j = choose|j: int|
            0 <= j <= m && first_of_purpose(raw, j) && same_purpose(raw[j], raw[m]);
        assert(0 <= j <= k && first_of_purpose(raw, j) && same_purpose(raw[j], raw[k]));
    }
}

/// The canonical sequence does not depend on the order of the raw redeemers:
/// two sequences that hold the same redeemers, one for each thing, have the
/// same canonical sequence.
pub proof fn lemma_canonical_order_independent(
    out1: Seq<Redeemer>,
    raw1: Seq<Redeemer>,
    out2: Seq<Redeemer>,
    raw2: Seq<Redeemer>,
)
    requires
        forall|x: Redeemer| raw1.contains(x) <==> raw2.contains(x),
        one_per_purpose(raw1),
        canonical_of(out1, raw1),
        canonical_of(out2, raw2),
    ensures
        out1 == out2,
{
    assert forall|i: int| 0 <= i < out1.len() implies first_in(raw2, #[trigger] out1[i]) by {
        let x = out1[i];
        assert(first_in(raw1, x));
        let j = choose|j: int| stands_first(raw1, j, x);
        assert(raw1.contains(x));
        assert(raw2.contains(x));
        let k = choose|k: int| 0 <= k < raw2.len() && raw2[k] == x;
        lemma_first_exists(raw2, k);
        let f = choose|f: int|
            0 <= f <= k && first_of_purpose(raw2, f) && same_purpose(raw2[f], raw2[k]);
        assert(raw2.contains(raw2[f]));
        assert(raw1.contains(raw2[f]));
        let g = choose|g: int| 0 <= g < raw1.len() && raw1[g] == raw2[f];
        assert(same_purpose(raw1[g], raw1[j]));
        assert(stands_first(raw2, f, x));
    }
    assert forall|j: int| 0 <= j < raw2.len() implies purpose_in(out1, #[trigger] raw2[j]) by {
        assert(raw2.contains(raw2[j]));
        assert(raw1.contains(raw2[j]));
        let g = choose|g: int| 0 <= g < raw1.len() && raw1[g] == raw2[j];
        assert(purpose_in(out1, raw1[g]));
    }
    lemma_canonical_unique(out1, out2, raw2);
}

/// Why no redeemer could be chosen.
#[derive(Clone, Copy, Debug, PartialEq, Eq)]
pub enum RedeemerError {
    /// The transaction carries no redeemers.
    NoRedeemers,
    /// The transaction has only `available` redeemers.
    IndexOutOfBounds { requested: usize, available: usize },
}

impl RedeemerError {
    /// The error in words.
    pub open spec fn text(self) -> Seq<char> {
        match self {
            RedeemerError::NoRedeemers => "Transaction contains no redeemers"@,
            RedeemerError::IndexOutOfBounds { requested, available } => "Invalid redeemer index "@
                + decimal_text(requested as nat) + ". Transaction has "@ + decimal_text(
                available as nat,
            ) + " redeemer(s)"@,
        }
    }

    /// The error in words.
    pub fn message(&self) -> (out: String)
        ensures
            out@ == self.text(),
    {
        match self {
            RedeemerError::NoRedeemers => String::from_str("Transaction contains no redeemers"),
            RedeemerError::IndexOutOfBounds { requested, available } => {
                let mut out = String::from_str("Invalid redeemer index ");
                push_decimal(&mut out, *requested as u128);
                out.append(". Transaction has ");
                push_decimal(&mut out, *available as u128);
                out.append(" redeemer(s)");
                out
            },
        }
    }
}

/// Whether a transaction carries no redeemer at all: it has no table of
/// redeemers, or its table is empty.
pub open spec fn no_redeemers(redeemers: Option<Vec<Redeemer>>) -> bool {
    match redeemers {
        None => true,
        Some(raw) => raw@.len() == 0,
    }
}

/// The redeemers of a transaction in canonical order. A transaction that
/// carries no redeemer at all has none to put in order: that is a failure of
/// its own, apart from an index that is out of bounds.
pub fn get_redeemers<'a>(redeemers: &'a Option<Vec<Redeemer>>) -> (outcome: Result<
    Vec<&'a Redeemer>,
    RedeemerError,
>)
    ensures
        no_redeemers(*redeemers) ==> outcome == Err::<Vec<&'a Redeemer>, RedeemerError>(
            RedeemerError::NoRedeemers,
        ),
        !no_redeemers(*redeemers) ==> outcome is Ok && canonical_of(
            values(outcome->Ok_0@),
            redeemers->Some_0@,
        ),
{
    match redeemers {
        None => Err(RedeemerError::NoRedeemers),
        Some(raw) => if raw.len() == 0 {
            Err(RedeemerError::NoRedeemers)
        } else {
            Ok(normalize_redeemers(raw))
        },
    }
}

/// Where the first redeemer for what `redeemer` is for stands in `raw`.
pub fn position_of_purpose(raw: &Vec<Redeemer>, redeemer: &Redeemer) -> (place: Option<usize>)
    ensures
        place is Some <==> exists|j: int|
            0 <= j < raw@.len() && same_purpose(#[trigger] raw@[j], *redeemer),
        place matches Some(j) ==> first_of_purpose(raw@, j as int) && same_purpose(
            raw@[j as int],
            *redeemer,
        ),
{
    let mut j: usize = 0;
    while j < raw.len()
        invariant
            j <= raw@.len(),
            forall|k: int| 0 <= k < j ==> !same_purpose(#[trigger] raw@[k], *redeemer),
        decreases raw@.len() - j,
    {
        if same_tag(raw[j].tag, redeemer.tag) && raw[j].index == redeemer.index {
            return Some(j);
        }
        j += 1;
    }
    None
}

/// Whether two tags are the same.
pub fn same_tag(a: RedeemerTag, b: RedeemerTag) -> (same: bool)
    ensures
        same == (a == b),
{
    match (a, b) {
        (RedeemerTag::Spend, RedeemerTag::Spend) => true,
        (RedeemerTag::Mint, RedeemerTag::Mint) => true,
        (RedeemerTag::Cert, RedeemerTag::Cert) => true,
        (RedeemerTag::Reward, RedeemerTag::Reward) => true,
        (RedeemerTag::Vote, RedeemerTag::Vote) => true,
        (RedeemerTag::Propose, RedeemerTag::Propose) => true,
        _ => false,
    }
}

/// The redeemer at a place of the canonical sequence, where it has that place.
pub open spec fn selected(redeemers: Seq<&Redeemer>, index: usize) -> Result<
    &Redeemer,
    RedeemerError,
> {
    if index < redeemers.len() {
        Ok(redeemers[index as int])
    } else {
        Err(
            RedeemerError::IndexOutOfBounds {
                requested: index,
                available: redeemers.len() as usize,
            },
        )
    }
}

/// The redeemer at a place of the canonical sequence, where it has that place.
pub fn select_redeemer<'a>(redeemers: &Vec<&'a Redeemer>, index: usize) -> (outcome: Result<
    &'a Redeemer,
    RedeemerError,
>)
    ensures
        outcome == selected(redeemers@, index),
{
    if index < redeemers.len() {
        Ok(redeemers[index])
    } else {
        Err(RedeemerError::IndexOutOfBounds { requested: index, available: redeemers.len() })
    }
}

} // verus!
