//! The order of transaction inputs, and lists of inputs kept in that order.
use crate::ledger::TransactionInput;
use vstd::prelude::*;

verus! {

/// Whether `a` comes before `b` byte by byte: at the first place where they
/// differ `a` has the smaller byte, or `a` ends there and `b` goes on.
pub open spec fn bytes_before(a: Seq<u8>, b: Seq<u8>) -> bool {
    exists|k: int| apart_at(a, b, k)
}

/// Whether `a` and `b` agree before place `k`, where `a` has the smaller byte
/// or ends while `b` goes on.
pub open spec fn apart_at(a: Seq<u8>, b: Seq<u8>, k: int) -> bool {
    &&& 0 <= k <= a.len()
    &&& k < b.len()
    &&& k < a.len() ==> a[k] < b[k]
    &&& forall|j: int| 0 <= j < k ==> a[j] == b[j]
}

/// Whether `a` comes before `b`: by transaction id, byte by byte, then by index.
pub open spec fn input_before(a: TransactionInput, b: TransactionInput) -> bool {
    bytes_before(a.transaction_id@, b.transaction_id@) || (a.transaction_id@ == b.transaction_id@
        && a.index < b.index)
}

/// Whether each input comes before all that follow it.
pub open spec fn strictly_ascending(inputs: Seq<TransactionInput>) -> bool {
    forall|i: int, j: int| 0 <= i < j < inputs.len() ==> input_before(inputs[i], inputs[j])
}

/// How two inputs stand to each other.
#[derive(Clone, Copy, Debug, PartialEq, Eq)]
pub enum Place {
    Before,
    Same,
    After,
}

/// What comes before a second thing, which comes before a third, comes before
/// the third.
pub proof fn lemma_bytes_before_transitive(a: Seq<u8>, b: Seq<u8>, c: Seq<u8>)
    requires
        bytes_before(a, b),
        bytes_before(b, c),
    ensures
        bytes_before(a, c),
{
    let k1 = choose|k: int| apart_at(a, b, k);
    let k2 = choose|k: int| apart_at(b, c, k);
    let k = if k1 <= k2 {
        k1
    } else {
        k2
    };
    assert(apart_at(a, c, k));
}

/// Nothing comes before itself.
pub proof fn lemma_bytes_before_irreflexive(a: Seq<u8>)
    ensures
        !bytes_before(a, a),
{
}

/// The order of inputs is transitive.
pub proof fn lemma_input_before_transitive(
    a: TransactionInput,
    b: TransactionInput,
    c: TransactionInput,
)
    requires
        input_before(a, b),
        input_before(b, c),
    ensures
        input_before(a, c),
{
    if bytes_before(a.transaction_id@, b.transaction_id@) && bytes_before(
        b.transaction_id@,
        c.transaction_id@,
    ) {
        lemma_bytes_before_transitive(a.transaction_id@, b.transaction_id@, c.transaction_id@);
    }
}

/// No input comes before itself.
pub proof fn lemma_input_before_irreflexive(a: TransactionInput)
    ensures
        !input_before(a, a),
{
    lemma_bytes_before_irreflexive(a.transaction_id@);
}

/// How `a` stands to `b` in the order of inputs.
pub fn place_of(a: &TransactionInput, b: &TransactionInput) -> (place: Place)
    ensures
        place is Before <==> input_before(*a, *b),
        place is Same <==> *a == *b,
        place is After <==> input_before(*b, *a),
{
    let mut i: usize = 0;
    while i < 32
        invariant
            i <= 32,
            forall|j: int| 0 <= j < i ==> a.transaction_id@[j] == b.transaction_id@[j],
        decreases 32 - i,
    {
        if a.transaction_id[i] < b.transaction_id[i] {
            proof {
                lemma_input_apart(*a, *b, i as int);
            }
            return Place::Before;
        }
        if a.transaction_id[i] > b.transaction_id[i] {
            proof {
                lemma_input_apart(*b, *a, i as int);
            }
            return Place::After;
        }
        i += 1;
    }
    assert(a.transaction_id@ =~= b.transaction_id@);
    assert(a.transaction_id =~= b.transaction_id);
    proof {
        lemma_bytes_before_irreflexive(a.transaction_id@);
    }
    if a.index < b.index {
        Place::Before
    } else if a.index > b.index {
        Place::After
    } else {
        Place::Same
    }
}

/// Two inputs whose ids agree up to a place where the first has the smaller
/// byte: the first comes before the second, and they are not the same.
proof fn lemma_input_apart(a: TransactionInput, b: TransactionInput, k: int)
    requires
        0 <= k < 32,
        a.transaction_id@[k] < b.transaction_id@[k],
        forall|j: int| 0 <= j < k ==> a.transaction_id@[j] == b.transaction_id@[j],
    ensures
        input_before(a, b),
        !input_before(b, a),
        a != b,
{
    let x = a.transaction_id@;
    let y = b.transaction_id@;
    assert(apart_at(x, y, k));
    if bytes_before(y, x) {
        lemma_bytes_before_transitive(x, y, x);
        lemma_bytes_before_irreflexive(x);
    }
}

/// Where `x` belongs among `keys`: the first place whose input does not come
/// before `x`, and whether `x` itself stands there.
pub fn slot_of(keys: &Vec<TransactionInput>, x: &TransactionInput) -> (slot: (usize, bool))
    ensures
        slot.0 <= keys@.len(),
        forall|j: int| 0 <= j < slot.0 ==> input_before(#[trigger] keys@[j], *x),
        slot.0 < keys@.len() ==> !input_before(keys@[slot.0 as int], *x),
        slot.1 == (slot.0 < keys@.len() && keys@[slot.0 as int] == *x),
        slot.0 < keys@.len() && !slot.1 ==> input_before(*x, keys@[slot.0 as int]),
{
    let mut i: usize = 0;
    while i < keys.len()
        invariant
            i <= keys@.len(),
            forall|j: int| 0 <= j < i ==> input_before(#[trigger] keys@[j], *x),
        decreases keys@.len() - i,
    {
        match place_of(&keys[i], x) {
            Place::Before => {},
            Place::Same => {
                proof {
                    lemma_input_before_irreflexive(*x);
                }
                return (i, true);
            },
            Place::After => {
                proof {
                    if input_before(keys@[i as int], *x) {
                        lemma_input_before_transitive(*x, keys@[i as int], *x);
                        lemma_input_before_irreflexive(*x);
                    }
                }
                return (i, false);
            },
        }
        i += 1;
    }
    (i, false)
}

/// An input put between those that come before it and those that come after
/// it leaves the order.
pub proof fn lemma_insert_keeps_order(keys: Seq<TransactionInput>, p: int, x: TransactionInput)
    requires
        strictly_ascending(keys),
        0 <= p <= keys.len(),
        forall|j: int| 0 <= j < p ==> input_before(#[trigger] keys[j], x),
        p < keys.len() ==> input_before(x, keys[p]),
    ensures
        strictly_ascending(keys.insert(p, x)),
{
    let after = keys.insert(p, x);
    assert forall|i: int, j: int| 0 <= i < j < after.len() implies input_before(
        after[i],
        after[j],
    ) by {
        if j == p {
            assert(after[i] == keys[i]);
        } else if i == p {
            assert(after[j] == keys[j - 1]);
            if j - 1 > p {
                lemma_input_before_transitive(x, keys[p], keys[j - 1]);
            }
        } else if j < p {
            assert(after[i] == keys[i] && after[j] == keys[j]);
        } else if i < p {
            assert(after[i] == keys[i] && after[j] == keys[j - 1]);
        } else {
            assert(after[i] == keys[i - 1] && after[j] == keys[j - 1]);
        }
    }
}

/// No input stands twice in a list in which each comes before all that follow.
pub proof fn lemma_ascending_distinct(keys: Seq<TransactionInput>, i: int, j: int)
    requires
        strictly_ascending(keys),
        0 <= i < keys.len(),
        0 <= j < keys.len(),
        keys[i] == keys[j],
    ensures
        i == j,
{
    lemma_input_before_irreflexive(keys[i]);
}

/// What a list holds once one more input stands in it.
pub proof fn lemma_insert_contains<T>(s: Seq<T>, p: int, x: T, y: T)
    requires
        0 <= p <= s.len(),
    ensures
        s.insert(p, x).contains(y) <==> (s.contains(y) || y == x),
{
    let after = s.insert(p, x);
    if after.contains(y) {
        let j = choose|j: int| 0 <= j < after.len() && after[j] == y;
        if j < p {
            assert(s[j] == y);
        } else if j > p {
            assert(s[j - 1] == y);
        }
    }
    if s.contains(y) {
        let j = choose|j: int| 0 <= j < s.len() && s[j] == y;
        if j < p {
            assert(after[j] == y);
        } else {
            assert(after[j + 1] == y);
        }
    }
    if y == x {
        assert(after[p] == y);
    }
}

/// Whether `sorted` holds the inputs of `inputs`, each once, in ascending
/// order.
pub open spec fn ascending_of(sorted: Seq<TransactionInput>, inputs: Seq<TransactionInput>) -> bool {
    &&& strictly_ascending(sorted)
    &&& forall|x: TransactionInput| sorted.contains(x) <==> inputs.contains(x)
}

/// The inputs of a list, each once, in ascending order: the order in which
/// the index of a redeemer that spends counts them.
pub open spec fn ascending(inputs: Seq<TransactionInput>) -> Seq<TransactionInput> {
    choose|sorted: Seq<TransactionInput>| ascending_of(sorted, inputs)
}

/// Two ascending lists of the same inputs agree on the first `n` places of
/// the one.
proof fn lemma_ascending_prefix(a: Seq<TransactionInput>, b: Seq<TransactionInput>, n: int)
    requires
        strictly_ascending(a),
        strictly_ascending(b),
        forall|x: TransactionInput| a.contains(x) <==> b.contains(x),
        0 <= n <= a.len(),
    ensures
        n <= b.len(),
        forall|i: int| 0 <= i < n ==> a[i] == b[i],
    decreases n,
{
    if n > 0 {
        lemma_ascending_prefix(a, b, n - 1);
        let x = a[n - 1];
        assert(a.contains(x));
        assert(b.contains(x));
        let m = choose|m: int| 0 <= m < b.len() && b[m] == x;
        if m < n - 1 {
            assert(a[m] == b[m]);
            lemma_ascending_distinct(a, m, n - 1);
        } else if m > n - 1 {
            let y = b[n - 1];
            assert(b.contains(y));
            assert(a.contains(y));
            let k = choose|k: int| 0 <= k < a.len() && a[k] == y;
            assert(input_before(b[n - 1], b[m]));
            if k > n - 1 {
                assert(input_before(a[n - 1], a[k]));
                lemma_input_before_transitive(y, x, y);
                lemma_input_before_irreflexive(y);
            } else if k == n - 1 {
                lemma_input_before_irreflexive(y);
            } else {
                assert(a[k] == b[k]);
                lemma_ascending_distinct(b, k, n - 1);
            }
        }
    }
}

/// A list of inputs has one ascending list only.
pub proof fn lemma_ascending_unique(
    a: Seq<TransactionInput>,
    b: Seq<TransactionInput>,
    inputs: Seq<TransactionInput>,
)
    requires
        ascending_of(a, inputs),
        ascending_of(b, inputs),
    ensures
        a == b,
{
    lemma_ascending_prefix(a, b, a.len() as int);
    lemma_ascending_prefix(b, a, b.len() as int);
    assert(a =~= b);
}

/// The inputs of a list, each once, in ascending order.
pub fn distinct_inputs(inputs: &Vec<TransactionInput>) -> (out: Vec<TransactionInput>)
    ensures
        out@ == ascending(inputs@),
        ascending_of(out@, inputs@),
{
    let mut out: Vec<TransactionInput> = Vec::new();
    let mut i: usize = 0;
    while i < inputs.len()
        invariant
            i <= inputs@.len(),
            strictly_ascending(out@),
            forall|x: TransactionInput| out@.contains(x) <==> inputs@.take(i as int).contains(x),
        decreases inputs@.len() - i,
    {
        let x = inputs[i];
        let (p, found) = slot_of(&out, &x);
        let ghost before = out@;
        proof {
            assert forall|y: TransactionInput|
                inputs@.take(i + 1).contains(y) <==> (inputs@.take(i as int).contains(y) || y
                    == x) by {
                assert(inputs@.take(i + 1) =~= inputs@.take(i as int).push(x));
                if inputs@.take(i as int).contains(y) {
                    let j = choose|j: int|
                        0 <= j < inputs@.take(i as int).len() && inputs@.take(i as int)[j] == y;
                    assert(inputs@.take(i + 1)[j] == y);
                }
                if y == x {
                    assert(inputs@.take(i + 1)[i as int] == y);
                }
            }
        }
        if !found {
            out.insert(p, x);
            proof {
                lemma_insert_keeps_order(before, p as int, x);
                assert forall|y: TransactionInput|
                    out@.contains(y) <==> inputs@.take(i + 1).contains(y) by {
                    lemma_insert_contains(before, p as int, x, y);
                }
            }
        } else {
            assert(before.contains(x));
        }
        i += 1;
    }
    assert(inputs@.take(inputs@.len() as int) =~= inputs@);
    proof {
        assert(ascending_of(out@, inputs@));
        lemma_ascending_unique(out@, ascending(inputs@), inputs@);
    }
    out
}

/// The inputs that a transaction spends, then those that it only reads.
pub fn collect_all_inputs(inputs: &Vec<TransactionInput>, reference_inputs: &Vec<TransactionInput>)
    -> (all: Vec<TransactionInput>)
    ensures
        all@ == inputs@ + reference_inputs@,
{
    let mut all: Vec<TransactionInput> = Vec::new();
    let mut i: usize = 0;
    while i < inputs.len()
        invariant
            i <= inputs@.len(),
            all@ == inputs@.take(i as int),
        decreases inputs@.len() - i,
    {
        all.push(inputs[i]);
        assert(all@ =~= inputs@.take(i + 1));
        i += 1;
    }
    assert(inputs@.take(inputs@.len() as int) =~= inputs@);
    let mut j: usize = 0;
    assert(all@ =~= inputs@ + reference_inputs@.take(0));
    while j < reference_inputs.len()
        invariant
            j <= reference_inputs@.len(),
            all@ == inputs@ + reference_inputs@.take(j as int),
        decreases reference_inputs@.len() - j,
    {
        all.push(reference_inputs[j]);
        assert(all@ =~= inputs@ + reference_inputs@.take(j + 1));
        j += 1;
    }
    assert(reference_inputs@.take(reference_inputs@.len() as int) =~= reference_inputs@);
    all
}

} // verus!
