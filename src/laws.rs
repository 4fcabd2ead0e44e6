use vstd::prelude::*;
use crate::contract::{ContractParts, ContractView};
use crate::decimal::decimal;
use crate::error::{ContractError, Precondition};
use crate::msg::Response;
use crate::queue::lemma_without_excludes;
use crate::state::{entries_match, TokenInfo};

verus! {

/// The state after each of `tokens` was minted successfully, in order.
pub open spec fn mint_many(s: ContractView, tokens: Seq<TokenInfo>) -> ContractView
    decreases tokens.len(),
{
    if tokens.len() == 0 {
        s
    } else {
        mint_many(s, tokens.drop_last()).minted(tokens.last())
    }
}

/// The ids "0", "1", "2", ... in decimal, for the ordinals from `from` on,
/// `n` of them.
pub open spec fn id_run(from: nat, n: nat) -> Seq<Seq<char>> {
    Seq::new(n, |k: int| decimal(from + k as nat))
}

/// Ids are assigned in sequence: in a series of mints that each succeed,
/// the mint with ordinal `k` (from 0) gets the count before the series plus
/// `k`, in decimal, whatever the tokens; and the ids join the queue in that
/// order. On a fresh contract the count starts at 0, so the ids are "0", "1", ...
pub proof fn lemma_sequential_ids(s: ContractView, tokens: Seq<TokenInfo>)
    requires
        forall|k: int|
            0 <= k < tokens.len() ==> (#[trigger] mint_many(s, tokens.take(k))).mint_error(true) is None,
    ensures
        mint_many(s, tokens).count == s.count + tokens.len(),
        forall|k: int|
            0 <= k < tokens.len() ==> #[trigger] mint_many(s, tokens.take(k)).next_id() == decimal(
                (s.count + k) as nat,
            ),
        tokens.len() > 0 ==> mint_many(s, tokens).queue == Some(
            s.queue->0 + id_run(s.count as nat, tokens.len()),
        ),
    decreases tokens.len(),
{
    if tokens.len() > 0 {
        let p = tokens.drop_last();
        assert forall|k: int| 0 <= k < p.len() implies (#[trigger] mint_many(
            s,
            p.take(k),
        )).mint_error(true) is None by {
            assert(tokens.take(k) =~= p.take(k));
            assert(mint_many(s, tokens.take(k)).mint_error(true) is None);
        }
        lemma_sequential_ids(s, p);
        assert(tokens.take(p.len() as int) =~= p);
        assert(mint_many(s, tokens.take(p.len() as int)).mint_error(true) is None);
        assert forall|k: int| 0 <= k < tokens.len() implies #[trigger] mint_many(
            s,
            tokens.take(k),
        ).next_id() == decimal((s.count + k) as nat) by {
            if k < p.len() {
                assert(tokens.take(k) =~= p.take(k));
                assert(mint_many(s, p.take(k)).next_id() == decimal((s.count + k) as nat));
            }
        }
        if p.len() > 0 {
            assert(s.queue->0 + id_run(s.count as nat, tokens.len()) =~= (s.queue->0 + id_run(
                s.count as nat,
                p.len(),
            )).push(decimal((s.count + p.len()) as nat)));
        } else {
            assert(mint_many(s, p) == s);
            assert(s.queue->0 + id_run(s.count as nat, 1) =~= s.queue->0.push(decimal(s.count as nat)));
        }
    }
}

/// The output is written at most once: after a successful fulfilment, a
/// second one of the same token by the same caller fails with
/// `PreconditionFailed` and leaves the state, and so the output, unchanged.
pub proof fn lemma_output_written_once(
    s: ContractView,
    sender: Seq<char>,
    id: Seq<char>,
    output: String,
    second: String,
)
    requires
        s.response_error(sender, id) is None,
    ensures
        s.fulfilled(id, output).response_error(sender, id) == Some(
            ContractError::PreconditionFailed(Precondition::OutputAlreadySet),
        ),
        forall|post: ContractView, r: Result<Response, ContractError>|
            #[trigger] s.fulfilled(id, output).response_outcome(post, sender, id, second, r) ==> {
                &&& r == Err::<Response, ContractError>(
                    ContractError::PreconditionFailed(Precondition::OutputAlreadySet),
                )
                &&& post == s.fulfilled(id, output)
                &&& post.tokens[id].extension->0.image == Some(output)
            },
{
}

/// After a successful fulfilment of `id` with `v`, `id` is not in the queue
/// and the token's output is `v`.
pub proof fn lemma_fulfil_consistent(
    s: ContractView,
    sender: Seq<char>,
    id: Seq<char>,
    v: String,
    post: ContractView,
    r: Result<Response, ContractError>,
)
    requires
        s.response_outcome(post, sender, id, v, r),
        r is Ok,
    ensures
        post.queue is Some,
        !post.queue->0.contains(id),
        post.tokens.contains_key(id),
        post.tokens[id].extension->0.image == Some(v),
{
    let q = match s.queue {
        Some(q) => q,
        None => Seq::empty(),
    };
    lemma_without_excludes(q, id);
}

/// The predicate that keeps only `id`.
pub open spec fn same_as(id: Seq<char>) -> spec_fn(Seq<char>) -> bool {
    |x: Seq<char>| x == id
}

/// How many times `id` stands in the queue `q`.
pub open spec fn occurrences(q: Seq<Seq<char>>, id: Seq<char>) -> nat {
    q.filter(same_as(id)).len()
}

/// After a successful mint, its id is in the queue exactly once.
pub proof fn lemma_mint_queues_once(
    s: ContractView,
    sender: Seq<char>,
    owner_valid: bool,
    token: TokenInfo,
    post: ContractView,
    r: Result<Response, ContractError>,
)
    requires
        s.wf(),
        s.mint_outcome(post, sender, owner_valid, token, r),
        r is Ok,
    ensures
        post.queue is Some,
        occurrences(post.queue->0, s.next_id()) == 1,
{
    let q = s.queue->0;
    let id = s.next_id();
    assert(post.queue->0 == q.push(id));
    assert(!q.contains(id));
    if q.filter(same_as(id)).len() > 0 {
        q.lemma_filter_pred(same_as(id), 0);
        q.lemma_filter_contains_rev(same_as(id), q.filter(same_as(id))[0]);
        assert(q.filter(same_as(id)).contains(q.filter(same_as(id))[0]));
    }
    assert(q.push(id).drop_last() =~= q);
    reveal(Seq::filter);
    assert(q.push(id).filter(same_as(id)) == q.filter(same_as(id)).push(id));
}

/// Only the administrator may fulfil: any other caller gets `Unauthorized`
/// and the state stays as it was.
pub proof fn lemma_fulfil_needs_admin(
    s: ContractView,
    sender: Seq<char>,
    id: Seq<char>,
    v: String,
    post: ContractView,
    r: Result<Response, ContractError>,
)
    requires
        s.owner != Some(sender),
        s.response_outcome(post, sender, id, v, r),
    ensures
        r == Err::<Response, ContractError>(ContractError::Unauthorized),
        post == s,
{
}

/// Stored records determine the state: two states that the same records
/// hold are equal, so loading what was stored gives back the same state.
pub proof fn lemma_parts_determine_state(parts: ContractParts, v: ContractView, w: ContractView)
    requires
        parts.holds(v),
        parts.holds(w),
    ensures
        v == w,
{
    assert(v.tokens =~= w.tokens) by {
        assert forall|k: Seq<char>| v.tokens.contains_key(k) implies w.tokens.contains_key(k)
            && v.tokens[k] == w.tokens[k] by {
            let i = choose|i: int| 0 <= i < parts.tokens@.len() && (#[trigger] parts.tokens@[i]).0@ == k;
            assert(entries_match(parts.tokens@, w.tokens));
        }
        assert forall|k: Seq<char>| w.tokens.contains_key(k) implies v.tokens.contains_key(k) by {
            let i = choose|i: int| 0 <= i < parts.tokens@.len() && (#[trigger] parts.tokens@[i]).0@ == k;
        }
    }
}

} // verus!
