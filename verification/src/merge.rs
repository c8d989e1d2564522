//! The event merger/filter: decoded events of all four kinds combined into
//! one globally nonce-ordered, deduplicated, cursor-filtered claim stream.
//!
//! The bridge contract assigns one shared `event_nonce` counter across all
//! its event kinds, so the union of the four independently fetched
//! categories is indexed by nonce (last write wins on a collision, which a
//! healthy contract never produces), sorted ascending, and only then
//! stripped of everything at or below the destination chain's recorded
//! cursor.

use vstd::prelude::*;
use vstd::pervasive::VecAdditionalExecFns;
use crate::events::{TransferToChainEvent, TransferToChainEventV, TransactionBatchExecutedEvent,
    TransactionBatchExecutedEventV, LogicCallExecutedEvent, LogicCallExecutedEventV,
    ValsetUpdatedEvent, ValsetUpdatedEventV};

verus! {

/// One claim ready for submission: a decoded domain event of any of the
/// four kinds.
#[derive(Debug, PartialEq, Eq)]
pub enum SubmittableClaim {
    Transfer(TransferToChainEvent),
    BatchExecuted(TransactionBatchExecutedEvent),
    LogicCall(LogicCallExecutedEvent),
    ValsetUpdated(ValsetUpdatedEvent),
}

pub enum SubmittableClaimV {
    Transfer(TransferToChainEventV),
    BatchExecuted(TransactionBatchExecutedEventV),
    LogicCall(LogicCallExecutedEventV),
    ValsetUpdated(ValsetUpdatedEventV),
}

impl View for SubmittableClaim {
    type V = SubmittableClaimV;

    open spec fn view(&self) -> SubmittableClaimV {
        match self {
            SubmittableClaim::Transfer(e) => SubmittableClaimV::Transfer(e@),
            SubmittableClaim::BatchExecuted(e) => SubmittableClaimV::BatchExecuted(e@),
            SubmittableClaim::LogicCall(e) => SubmittableClaimV::LogicCall(e@),
            SubmittableClaim::ValsetUpdated(e) => SubmittableClaimV::ValsetUpdated(e@),
        }
    }
}

impl DeepView for SubmittableClaim {
    type V = SubmittableClaimV;

    open spec fn deep_view(&self) -> SubmittableClaimV {
        self@
    }
}

/// The shared event nonce a claim carries, whatever its kind.
pub open spec fn nonce_of(c: SubmittableClaimV) -> u64 {
    match c {
        SubmittableClaimV::Transfer(e) => e.event_nonce,
        SubmittableClaimV::BatchExecuted(e) => e.event_nonce,
        SubmittableClaimV::LogicCall(e) => e.event_nonce,
        SubmittableClaimV::ValsetUpdated(e) => e.event_nonce,
    }
}

impl SubmittableClaim {
    /// The shared event nonce this claim carries.
    pub fn event_nonce(&self) -> (r: u64)
        ensures
            r == nonce_of(self@),
    {
        match self {
            SubmittableClaim::Transfer(e) => e.event_nonce,
            SubmittableClaim::BatchExecuted(e) => e.event_nonce,
            SubmittableClaim::LogicCall(e) => e.event_nonce,
            SubmittableClaim::ValsetUpdated(e) => e.event_nonce,
        }
    }

    /// An equal, independently owned copy.
    pub fn duplicate(&self) -> (r: Self)
        ensures
            r@ == self@,
    {
        match self {
            SubmittableClaim::Transfer(e) => SubmittableClaim::Transfer(e.duplicate()),
            SubmittableClaim::BatchExecuted(e) => SubmittableClaim::BatchExecuted(e.duplicate()),
            SubmittableClaim::LogicCall(e) => SubmittableClaim::LogicCall(e.duplicate()),
            SubmittableClaim::ValsetUpdated(e) => SubmittableClaim::ValsetUpdated(e.duplicate()),
        }
    }
}

/// Whether some claim in the sequence carries the nonce `n`.
pub open spec fn has_nonce(s: Seq<SubmittableClaimV>, n: u64) -> bool {
    exists|i: int| 0 <= i < s.len() && nonce_of(s[i]) == n
}

/// The last claim in the sequence carrying the nonce `n`: the one that wins
/// when the nonce-indexed map is built in order.
pub open spec fn last_with_nonce(s: Seq<SubmittableClaimV>, n: u64) -> SubmittableClaimV
    decreases s.len(),
{
    if s.len() == 0 {
        arbitrary()
    } else if nonce_of(s.last()) == n {
        s.last()
    } else {
        last_with_nonce(s.drop_last(), n)
    }
}

/// No two claims of the sequence share a nonce.
pub open spec fn distinct_nonces(s: Seq<SubmittableClaimV>) -> bool {
    forall|i: int, j: int|
        0 <= i < j < s.len() ==> nonce_of(s[i]) != nonce_of(s[j])
}

/// Claims strictly ascending by nonce.
pub open spec fn sorted_by_nonce(s: Seq<SubmittableClaimV>) -> bool {
    forall|i: int, j: int| 0 <= i < j < s.len() ==> nonce_of(s[i]) < nonce_of(s[j])
}

/// The four decoded categories laid end to end, in the order the map is
/// filled: transfers, batch executions, logic calls, validator-set updates.
pub open spec fn combined_claims(
    ts: Seq<TransferToChainEventV>,
    bs: Seq<TransactionBatchExecutedEventV>,
    lcs: Seq<LogicCallExecutedEventV>,
    vss: Seq<ValsetUpdatedEventV>,
) -> Seq<SubmittableClaimV> {
    ts.map_values(|e: TransferToChainEventV| SubmittableClaimV::Transfer(e)) + bs.map_values(
        |e: TransactionBatchExecutedEventV| SubmittableClaimV::BatchExecuted(e),
    ) + lcs.map_values(|e: LogicCallExecutedEventV| SubmittableClaimV::LogicCall(e))
        + vss.map_values(|e: ValsetUpdatedEventV| SubmittableClaimV::ValsetUpdated(e))
}

pub proof fn lemma_last_with_nonce_push(s: Seq<SubmittableClaimV>, c: SubmittableClaimV, n: u64)
    ensures
        last_with_nonce(s.push(c), n) == if nonce_of(c) == n {
            c
        } else {
            last_with_nonce(s, n)
        },
{
    assert(s.push(c).drop_last() =~= s);
}

pub proof fn lemma_has_nonce_push(s: Seq<SubmittableClaimV>, c: SubmittableClaimV, n: u64)
    ensures
        has_nonce(s.push(c), n) <==> (has_nonce(s, n) || nonce_of(c) == n),
{
    if has_nonce(s, n) {
        let i = choose|i: int| 0 <= i < s.len() && nonce_of(s[i]) == n;
        assert(s.push(c)[i] == s[i]);
    }
    if nonce_of(c) == n {
        assert(s.push(c)[s.len() as int] == c);
    }
    if has_nonce(s.push(c), n) {
        let i = choose|i: int| 0 <= i < s.push(c).len() && nonce_of(s.push(c)[i]) == n;
        if i < s.len() {
            assert(s[i] == s.push(c)[i]);
        }
    }
}

/// What the merger promises of its output stream `out` for the combined
/// input `all` and the cursor: strictly ascending nonces, all past the
/// cursor, exactly the input's nonces past the cursor, and for each nonce
/// the last claim of the input that carried it.
pub open spec fn merged_stream_ok(
    all: Seq<SubmittableClaimV>,
    cursor: u64,
    out: Seq<SubmittableClaimV>,
) -> bool {
    &&& sorted_by_nonce(out)
    &&& forall|i: int| 0 <= i < out.len() ==> nonce_of(out[i]) > cursor
    &&& forall|n: u64| #[trigger] has_nonce(out, n) <==> (has_nonce(all, n) && n > cursor)
    &&& forall|i: int| 0 <= i < out.len() ==> out[i] == last_with_nonce(all, nonce_of(out[i]))
}

/// Merges decoded events of all four kinds into one claim stream: indexed
/// by event nonce with the later entry winning a collision, sorted strictly
/// ascending, and stripped of every claim at or below `cursor`.  An empty
/// union yields an empty stream; so does a union the cursor has wholly
/// passed, which makes re-running with an unchanged cursor a no-op.
pub fn merge_and_filter(
    transfers: Vec<TransferToChainEvent>,
    batches: Vec<TransactionBatchExecutedEvent>,
    logic_calls: Vec<LogicCallExecutedEvent>,
    valsets: Vec<ValsetUpdatedEvent>,
    cursor: u64,
) -> (r: Vec<SubmittableClaim>)
    ensures
        ({
            let all = combined_claims(
                transfers.deep_view(),
                batches.deep_view(),
                logic_calls.deep_view(),
                valsets.deep_view(),
            );
            &&& merged_stream_ok(all, cursor, r.deep_view())
            &&& (forall|i: int| 0 <= i < all.len() ==> nonce_of(all[i]) <= cursor) ==> r@.len()
                == 0
        }),
{
    let all_vec = build_combined(&transfers, &batches, &logic_calls, &valsets);
    let ghost all = all_vec.deep_view();
    let merged = dedup_last_wins(&all_vec);
    let ghost mv = merged.deep_view();
    let sorted = sort_by_nonce(merged);
    let ghost sv = sorted.deep_view();
    let r = drop_through_cursor(sorted, cursor);
    proof {
        assert forall|n: u64| #[trigger]
            has_nonce(r.deep_view(), n) <==> (has_nonce(all, n) && n > cursor) by {
            if has_nonce(r.deep_view(), n) {
                assert(has_nonce(sv, n));
                let k = choose|k: int| 0 <= k < sv.len() && nonce_of(sv[k]) == n;
                let j = choose|j: int| 0 <= j < mv.len() && sv[k] == mv[j];
                assert(nonce_of(mv[j]) == n);
                assert(has_nonce(mv, n));
            }
            if has_nonce(all, n) && n > cursor {
                assert(has_nonce(mv, n));
                assert(has_nonce(sv, n));
            }
        }
        assert forall|i: int| 0 <= i < r.deep_view().len() implies r.deep_view()[i]
            == last_with_nonce(all, nonce_of(r.deep_view()[i])) by {
            let j = choose|j: int| 0 <= j < sv.len() && r.deep_view()[i] == sv[j];
            let j2 = choose|j2: int| 0 <= j2 < mv.len() && sv[j] == mv[j2];
            assert(mv[j2] == last_with_nonce(all, nonce_of(mv[j2])));
        }
        if forall|i: int| 0 <= i < all.len() ==> nonce_of(all[i]) <= cursor {
            if r.deep_view().len() > 0 {
                let c = r.deep_view()[0];
                assert(nonce_of(c) > cursor);
                assert(has_nonce(r.deep_view(), nonce_of(c)));
                let j = choose|j: int| 0 <= j < all.len() && nonce_of(all[j]) == nonce_of(c);
                assert(false);
            }
        }
    }
    r
}

/// The four decoded categories moved into one claim vector, in map-fill
/// order.
fn build_combined(
    transfers: &Vec<TransferToChainEvent>,
    batches: &Vec<TransactionBatchExecutedEvent>,
    logic_calls: &Vec<LogicCallExecutedEvent>,
    valsets: &Vec<ValsetUpdatedEvent>,
) -> (r: Vec<SubmittableClaim>)
    ensures
        r.deep_view() == combined_claims(
            transfers.deep_view(),
            batches.deep_view(),
            logic_calls.deep_view(),
            valsets.deep_view(),
        ),
{
    let ghost goal = combined_claims(
        transfers.deep_view(),
        batches.deep_view(),
        logic_calls.deep_view(),
        valsets.deep_view(),
    );
    let mut r: Vec<SubmittableClaim> = Vec::new();
    let mut i: usize = 0;
    while i < transfers.len()
        invariant
            i <= transfers.len(),
            r.deep_view() =~= transfers.deep_view().take(i as int).map_values(
                |e: TransferToChainEventV| SubmittableClaimV::Transfer(e),
            ),
        decreases transfers.len() - i,
    {
        let ghost pre = r.deep_view();
        r.push(SubmittableClaim::Transfer(transfers[i].duplicate()));
        proof {
            assert(r.deep_view() =~= pre.push(
                SubmittableClaimV::Transfer(transfers.deep_view()[i as int]),
            ));
            assert(r.deep_view() =~= transfers.deep_view().take(i + 1).map_values(
                |e: TransferToChainEventV| SubmittableClaimV::Transfer(e),
            ));
        }
        i += 1;
    }
    proof {
        assert(transfers.deep_view().take(transfers.len() as int) =~= transfers.deep_view());
    }
    let ghost part1 = r.deep_view();
    let mut i: usize = 0;
    while i < batches.len()
        invariant
            i <= batches.len(),
            r.deep_view() =~= part1 + batches.deep_view().take(i as int).map_values(
                |e: TransactionBatchExecutedEventV| SubmittableClaimV::BatchExecuted(e),
            ),
        decreases batches.len() - i,
    {
        let ghost pre = r.deep_view();
        r.push(SubmittableClaim::BatchExecuted(batches[i].duplicate()));
        proof {
            assert(r.deep_view() =~= pre.push(
                SubmittableClaimV::BatchExecuted(batches.deep_view()[i as int]),
            ));
            assert(r.deep_view() =~= part1 + batches.deep_view().take(i + 1).map_values(
                |e: TransactionBatchExecutedEventV| SubmittableClaimV::BatchExecuted(e),
            ));
        }
        i += 1;
    }
    proof {
        assert(batches.deep_view().take(batches.len() as int) =~= batches.deep_view());
    }
    let ghost part2 = r.deep_view();
    let mut i: usize = 0;
    while i < logic_calls.len()
        invariant
            i <= logic_calls.len(),
            r.deep_view() =~= part2 + logic_calls.deep_view().take(i as int).map_values(
                |e: LogicCallExecutedEventV| SubmittableClaimV::LogicCall(e),
            ),
        decreases logic_calls.len() - i,
    {
        let ghost pre = r.deep_view();
        r.push(SubmittableClaim::LogicCall(logic_calls[i].duplicate()));
        proof {
            assert(r.deep_view() =~= pre.push(
                SubmittableClaimV::LogicCall(logic_calls.deep_view()[i as int]),
            ));
            assert(r.deep_view() =~= part2 + logic_calls.deep_view().take(i + 1).map_values(
                |e: LogicCallExecutedEventV| SubmittableClaimV::LogicCall(e),
            ));
        }
        i += 1;
    }
    proof {
        assert(logic_calls.deep_view().take(logic_calls.len() as int) =~= logic_calls.deep_view());
    }
    let ghost part3 = r.deep_view();
    let mut i: usize = 0;
    while i < valsets.len()
        invariant
            i <= valsets.len(),
            r.deep_view() =~= part3 + valsets.deep_view().take(i as int).map_values(
                |e: ValsetUpdatedEventV| SubmittableClaimV::ValsetUpdated(e),
            ),
        decreases valsets.len() - i,
    {
        let ghost pre = r.deep_view();
        r.push(SubmittableClaim::ValsetUpdated(valsets[i].duplicate()));
        proof {
            assert(r.deep_view() =~= pre.push(
                SubmittableClaimV::ValsetUpdated(valsets.deep_view()[i as int]),
            ));
            assert(r.deep_view() =~= part3 + valsets.deep_view().take(i + 1).map_values(
                |e: ValsetUpdatedEventV| SubmittableClaimV::ValsetUpdated(e),
            ));
        }
        i += 1;
    }
    proof {
        assert(valsets.deep_view().take(valsets.len() as int) =~= valsets.deep_view());
        assert(r.deep_view() =~= goal);
    }
    r
}

/// Indexes the combined claims by nonce, in order, the later entry winning
/// any collision: the result carries each nonce of the input exactly once,
/// mapped to the last claim that carried it.
#[verifier::loop_isolation(false)]
fn dedup_last_wins(all_vec: &Vec<SubmittableClaim>) -> (r: Vec<SubmittableClaim>)
    ensures
        distinct_nonces(r.deep_view()),
        forall|n: u64| #[trigger] has_nonce(r.deep_view(), n) <==> has_nonce(all_vec.deep_view(), n),
        forall|k: int|
            0 <= k < r.deep_view().len() ==> r.deep_view()[k] == last_with_nonce(
                all_vec.deep_view(),
                nonce_of(r.deep_view()[k]),
            ),
{
    let ghost all = all_vec.deep_view();
    let mut r: Vec<SubmittableClaim> = Vec::new();
    let mut i: usize = 0;
    proof {
        assert(all.take(0) =~= Seq::<SubmittableClaimV>::empty());
    }
    while i < all_vec.len()
        invariant
            i <= all_vec.len(),
            distinct_nonces(r.deep_view()),
            forall|n: u64| #[trigger]
                has_nonce(r.deep_view(), n) <==> has_nonce(all.take(i as int), n),
            forall|k: int|
                0 <= k < r.deep_view().len() ==> r.deep_view()[k] == last_with_nonce(
                    all.take(i as int),
                    nonce_of(r.deep_view()[k]),
                ),
        decreases all_vec.len() - i,
    {
        let c: &SubmittableClaim = &all_vec[i];
        proof {
            assert(c@ == all[i as int]);
            assert(all.take(i + 1).drop_last() =~= all.take(i as int));
            assert(all.take(i + 1).last() == all[i as int]);
        }
        let n_c = c.event_nonce();
        let mut j: usize = 0;
        let mut found: bool = false;
        let mut at: usize = 0;
        while j < r.len()
            invariant
                j <= r.len(),
                !found ==> forall|k: int|
                    0 <= k < j ==> nonce_of(r.deep_view()[k]) != n_c,
                found ==> at < r.len() && nonce_of(r.deep_view()[at as int]) == n_c,
            decreases r.len() - j,
        {
            if !found {
                let cand: &SubmittableClaim = &r[j];
                proof {
                    assert(cand@ == r.deep_view()[j as int]);
                }
                if cand.event_nonce() == n_c {
                    found = true;
                    at = j;
                }
            }
            j += 1;
        }
        let ghost pre = r.deep_view();
        if found {
            r.set(at, c.duplicate());
            proof {
                assert(r.deep_view() =~= pre.update(at as int, c@));
                assert forall|n: u64| #[trigger]
                    has_nonce(r.deep_view(), n) <==> has_nonce(all.take(i + 1), n) by {
                    lemma_has_nonce_push(all.take(i as int), all[i as int], n);
                    if has_nonce(r.deep_view(), n) {
                        let k = choose|k: int|
                            0 <= k < r.deep_view().len() && nonce_of(r.deep_view()[k]) == n;
                        if k != at {
                            assert(nonce_of(pre[k]) == n);
                        }
                    }
                    if has_nonce(pre, n) && n != n_c {
                        let k = choose|k: int|
                            0 <= k < pre.len() && nonce_of(pre[k]) == n;
                        assert(k != at);
                        assert(nonce_of(r.deep_view()[k]) == n);
                    }
                    if n == n_c {
                        assert(nonce_of(r.deep_view()[at as int]) == n);
                    }
                }
                assert forall|k: int|
                    0 <= k < r.deep_view().len() implies r.deep_view()[k] == last_with_nonce(
                    all.take(i + 1),
                    nonce_of(r.deep_view()[k]),
                ) by {
                    lemma_last_with_nonce_push(
                        all.take(i as int),
                        all[i as int],
                        nonce_of(r.deep_view()[k]),
                    );
                    if k != at {
                        assert(r.deep_view()[k] == pre[k]);
                        assert(nonce_of(pre[k]) != n_c);
                    }
                }
            }
        } else {
            r.push(c.duplicate());
            proof {
                assert(r.deep_view() =~= pre.push(c@));
                assert forall|n: u64| #[trigger]
                    has_nonce(r.deep_view(), n) <==> has_nonce(all.take(i + 1), n) by {
                    lemma_has_nonce_push(all.take(i as int), all[i as int], n);
                    lemma_has_nonce_push(pre, c@, n);
                }
                assert forall|k: int|
                    0 <= k < r.deep_view().len() implies r.deep_view()[k] == last_with_nonce(
                    all.take(i + 1),
                    nonce_of(r.deep_view()[k]),
                ) by {
                    lemma_last_with_nonce_push(
                        all.take(i as int),
                        all[i as int],
                        nonce_of(r.deep_view()[k]),
                    );
                    if k < pre.len() {
                        assert(r.deep_view()[k] == pre[k]);
                        assert(!has_nonce(pre, n_c));
                        assert(nonce_of(pre[k]) != n_c);
                    } else {
                        assert(r.deep_view()[k] == c@);
                    }
                }
                assert forall|k1: int, k2: int|
                    0 <= k1 < k2 < r.deep_view().len() implies nonce_of(r.deep_view()[k1])
                    != nonce_of(r.deep_view()[k2]) by {
                    if k2 == pre.len() as int {
                        assert(!has_nonce(pre, n_c));
                        assert(nonce_of(pre[k1]) != n_c);
                    }
                }
            }
        }
        i += 1;
    }
    proof {
        assert(all.take(all_vec.len() as int) =~= all);
    }
    r
}

/// Orders claims with pairwise distinct nonces strictly ascending by nonce,
/// keeping exactly the input's claims.
#[verifier::loop_isolation(false)]
#[verifier::rlimit(60)]
fn sort_by_nonce(input: Vec<SubmittableClaim>) -> (r: Vec<SubmittableClaim>)
    requires
        distinct_nonces(input.deep_view()),
    ensures
        sorted_by_nonce(r.deep_view()),
        r.deep_view().len() == input.deep_view().len(),
        forall|k: int|
            0 <= k < r.deep_view().len() ==> input.deep_view().contains(
                #[trigger] r.deep_view()[k],
            ),
        forall|n: u64| #[trigger] has_nonce(input.deep_view(), n) ==> has_nonce(r.deep_view(), n),
{
    let ghost orig = input.deep_view();
    let mut rest = input;
    let mut r: Vec<SubmittableClaim> = Vec::new();
    proof {
        assert forall|k: int|
            0 <= k < rest.deep_view().len() implies orig.contains(
            #[trigger] rest.deep_view()[k],
        ) by {
            assert(rest.deep_view()[k] == orig[k]);
        }
    }
    while rest.len() > 0
        invariant
            distinct_nonces(rest.deep_view()),
            sorted_by_nonce(r.deep_view()),
            r.deep_view().len() + rest.deep_view().len() == orig.len(),
            forall|k: int|
                0 <= k < r.deep_view().len() ==> orig.contains(#[trigger] r.deep_view()[k]),
            forall|k: int|
                0 <= k < rest.deep_view().len() ==> orig.contains(
                    #[trigger] rest.deep_view()[k],
                ),
            forall|n: u64| #[trigger]
                has_nonce(orig, n) ==> (has_nonce(r.deep_view(), n) || has_nonce(
                    rest.deep_view(),
                    n,
                )),
            forall|a: int, b: int|
                0 <= a < r.deep_view().len() && 0 <= b < rest.deep_view().len() ==> nonce_of(
                    r.deep_view()[a],
                ) < nonce_of(rest.deep_view()[b]),
        decreases rest.len(),
    {
        let mut mi: usize = 0;
        let mut k: usize = 1;
        while k < rest.len()
            invariant
                mi < k <= rest.len(),
                forall|t: int|
                    0 <= t < k && t != mi ==> nonce_of(rest.deep_view()[mi as int]) < nonce_of(
                        rest.deep_view()[t],
                    ),
            decreases rest.len() - k,
        {
            let a: &SubmittableClaim = &rest[k];
            let b: &SubmittableClaim = &rest[mi];
            proof {
                assert(a@ == rest.deep_view()[k as int]);
                assert(b@ == rest.deep_view()[mi as int]);
            }
            if a.event_nonce() < b.event_nonce() {
                mi = k;
            }
            k += 1;
        }
        let ghost pre_rest = rest.deep_view();
        let ghost pre_r = r.deep_view();
        let picked = rest.remove(mi);
        proof {
            pre_rest.remove_ensures(mi as int);
            assert(rest.deep_view() =~= pre_rest.remove(mi as int));
        }
        r.push(picked);
        proof {
            assert(r.deep_view() =~= pre_r.push(picked@));
            assert(picked@ == pre_rest[mi as int]);
            assert forall|a: int, b: int|
                0 <= a < b < rest.deep_view().len() implies nonce_of(rest.deep_view()[a])
                != nonce_of(rest.deep_view()[b]) by {
                let pa: int = if a < mi { a } else { a + 1 };
                let pb: int = if b < mi { b } else { b + 1 };
                assert(rest.deep_view()[a] == pre_rest[pa]);
                assert(rest.deep_view()[b] == pre_rest[pb]);
            }
            assert forall|k2: int|
                0 <= k2 < rest.deep_view().len() implies orig.contains(
                #[trigger] rest.deep_view()[k2],
            ) by {
                let p: int = if k2 < mi { k2 } else { k2 + 1 };
                assert(rest.deep_view()[k2] == pre_rest[p]);
                assert(orig.contains(pre_rest[p]));
            }
            assert forall|a: int, b: int|
                0 <= a < b < r.deep_view().len() implies nonce_of(r.deep_view()[a]) < nonce_of(
                r.deep_view()[b],
            ) by {
                if b == pre_r.len() as int {
                    assert(r.deep_view()[a] == pre_r[a]);
                    assert(r.deep_view()[b] == pre_rest[mi as int]);
                }
            }
            assert forall|n: u64| #[trigger]
                has_nonce(orig, n) implies (has_nonce(r.deep_view(), n) || has_nonce(
                rest.deep_view(),
                n,
            )) by {
                if has_nonce(pre_rest, n) {
                    let t = choose|t: int|
                        0 <= t < pre_rest.len() && nonce_of(pre_rest[t]) == n;
                    if t == mi {
                        assert(nonce_of(r.deep_view()[pre_r.len() as int]) == n);
                    } else if t < mi {
                        assert(rest.deep_view()[t] == pre_rest[t]);
                    } else {
                        assert(rest.deep_view()[t - 1] == pre_rest[t]);
                    }
                } else if has_nonce(pre_r, n) {
                    let t = choose|t: int| 0 <= t < pre_r.len() && nonce_of(pre_r[t]) == n;
                    assert(r.deep_view()[t] == pre_r[t]);
                }
            }
            assert forall|a: int, b: int|
                0 <= a < r.deep_view().len() && 0 <= b < rest.deep_view().len() implies nonce_of(
                r.deep_view()[a],
            ) < nonce_of(rest.deep_view()[b]) by {
                let bv = rest.deep_view()[b];
                if b < mi {
                    assert(bv == pre_rest[b]);
                } else {
                    assert(bv == pre_rest[b + 1]);
                }
                if a < pre_r.len() {
                    assert(r.deep_view()[a] == pre_r[a]);
                } else {
                    assert(r.deep_view()[a] == pre_rest[mi as int]);
                }
            }
        }
    }
    proof {
        assert forall|n: u64| #[trigger]
            has_nonce(orig, n) implies has_nonce(r.deep_view(), n) by {}
        assert forall|k: int|
            0 <= k < r.deep_view().len() implies input.deep_view().contains(
            #[trigger] r.deep_view()[k],
        ) by {
            assert(orig.contains(r.deep_view()[k]));
        }
    }
    r
}

/// Drops every claim whose nonce is at or below the cursor, keeping the
/// rest in order.
#[verifier::loop_isolation(false)]
fn drop_through_cursor(input: Vec<SubmittableClaim>, cursor: u64) -> (r: Vec<SubmittableClaim>)
    requires
        sorted_by_nonce(input.deep_view()),
    ensures
        sorted_by_nonce(r.deep_view()),
        forall|i: int| 0 <= i < r.deep_view().len() ==> nonce_of(r.deep_view()[i]) > cursor,
        forall|i: int|
            0 <= i < r.deep_view().len() ==> input.deep_view().contains(
                #[trigger] r.deep_view()[i],
            ),
        forall|n: u64| #[trigger]
            has_nonce(r.deep_view(), n) <==> (has_nonce(input.deep_view(), n) && n > cursor),
{
    let ghost iv = input.deep_view();
    let mut r: Vec<SubmittableClaim> = Vec::new();
    let mut i: usize = 0;
    while i < input.len()
        invariant
            i <= input.len(),
            sorted_by_nonce(r.deep_view()),
            forall|k: int| 0 <= k < r.deep_view().len() ==> nonce_of(r.deep_view()[k]) > cursor,
            forall|k: int|
                0 <= k < r.deep_view().len() ==> iv.contains(#[trigger] r.deep_view()[k]),
            forall|n: u64| #[trigger]
                has_nonce(r.deep_view(), n) <==> (has_nonce(iv.take(i as int), n) && n > cursor),
        decreases input.len() - i,
    {
        let c: &SubmittableClaim = &input[i];
        proof {
            assert(c@ == iv[i as int]);
            assert(iv.take(i + 1).drop_last() =~= iv.take(i as int));
            assert(iv.take(i + 1).last() == iv[i as int]);
        }
        let ghost pre = r.deep_view();
        if c.event_nonce() > cursor {
            r.push(c.duplicate());
            proof {
                assert(r.deep_view() =~= pre.push(c@));
                assert(iv.contains(c@));
                assert forall|n: u64| #[trigger]
                    has_nonce(r.deep_view(), n) <==> (has_nonce(iv.take(i + 1), n) && n
                    > cursor) by {
                    lemma_has_nonce_push(iv.take(i as int), iv[i as int], n);
                    lemma_has_nonce_push(pre, c@, n);
                }
                assert forall|a: int, b: int|
                    0 <= a < b < r.deep_view().len() implies nonce_of(r.deep_view()[a]) < nonce_of(
                    r.deep_view()[b],
                ) by {
                    if b == pre.len() as int {
                        assert(r.deep_view()[a] == pre[a]);
                        assert(r.deep_view()[b] == iv[i as int]);
                        assert(has_nonce(pre, nonce_of(pre[a])));
                        assert(has_nonce(iv.take(i as int), nonce_of(pre[a])));
                        let t = choose|t: int|
                            0 <= t < iv.take(i as int).len() && nonce_of(
                                iv.take(i as int)[t],
                            ) == nonce_of(pre[a]);
                        assert(iv.take(i as int)[t] == iv[t]);
                        assert(nonce_of(iv[t]) < nonce_of(iv[i as int]));
                    }
                }
            }
        } else {
            proof {
                assert forall|n: u64| #[trigger]
                    has_nonce(r.deep_view(), n) <==> (has_nonce(iv.take(i + 1), n) && n
                    > cursor) by {
                    lemma_has_nonce_push(iv.take(i as int), iv[i as int], n);
                }
            }
        }
        i += 1;
    }
    proof {
        assert(iv.take(input.len() as int) =~= iv);
    }
    r
}

} // verus!
