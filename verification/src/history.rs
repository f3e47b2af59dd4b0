//! Histories: sequences of calls on the registry, and what holds of the
//! registry after any of them.
//!
//! A [`Call`] records one call together with the identifier it returned where
//! the registry alone does not determine it, so that the registry after a
//! history is a function of the history.

use crate::state::{
    after_loss, after_win, is_match, is_random_id, lineup_of, source_of, FighterRecord,
    MATCHMAKER_MAX,
};
use vstd::prelude::*;

verus! {

/// One call on the registry.
pub enum Call {
    /// `register(new)` returned `id`.
    Register { new: FighterRecord, id: u128 },
    /// `update(new, id)` returned `kept`.
    Update { new: FighterRecord, id: u128, kept: u128 },
    /// `get_source(id)`
    GetSource { id: u128 },
    /// `win(id)`
    Win { id: u128 },
    /// `lose(id)`
    Lose { id: u128 },
    /// `matchmake(initiator)`
    Matchmake { initiator: u128 },
}

impl Call {
    /// Whether the call can return what it records when made on `registry`:
    /// what the functions of `ServerState` ensure of the identifier they
    /// return.
    pub open spec fn possible(self, registry: Map<u128, FighterRecord>) -> bool {
        match self {
            Call::Register { new, id } => is_random_id(id),
            Call::Update { new, id, kept } => if registry.contains_key(id) {
                kept == id
            } else {
                is_random_id(kept)
            },
            _ => true,
        }
    }

    /// The registry after the call was made on `registry`: what the functions
    /// of `ServerState` ensure of the registry they leave.
    pub open spec fn after(self, registry: Map<u128, FighterRecord>) -> Map<u128, FighterRecord> {
        match self {
            Call::Register { new, id } => registry.insert(id, new),
            Call::Update { new, id, kept } => registry.insert(kept, new),
            Call::Win { id } => after_win(registry, id),
            Call::Lose { id } => after_loss(registry, id),
            Call::GetSource { id } => registry,
            Call::Matchmake { initiator } => registry,
        }
    }

    /// Whether the call stores a whole record under `id`, whatever was there.
    pub open spec fn overwrites(self, id: u128) -> bool {
        match self {
            Call::Register { new, id: drawn } => drawn == id,
            Call::Update { new, id: asked, kept } => kept == id,
            _ => false,
        }
    }
}

/// The registry after the calls of `history` were made on `registry`, first
/// to last.
pub open spec fn after_all(registry: Map<u128, FighterRecord>, history: Seq<Call>) -> Map<
    u128,
    FighterRecord,
>
    decreases history.len(),
{
    if history.len() == 0 {
        registry
    } else {
        history.last().after(after_all(registry, history.drop_last()))
    }
}

/// How many calls of `history` record a win for `id`.
pub open spec fn wins_recorded(history: Seq<Call>, id: u128) -> nat
    decreases history.len(),
{
    if history.len() == 0 {
        0
    } else {
        wins_recorded(history.drop_last(), id) + if history.last() == (Call::Win { id }) {
            1nat
        } else {
            0nat
        }
    }
}

/// How many calls of `history` record a loss for `id`.
pub open spec fn losses_recorded(history: Seq<Call>, id: u128) -> nat
    decreases history.len(),
{
    if history.len() == 0 {
        0
    } else {
        losses_recorded(history.drop_last(), id) + if history.last() == (Call::Lose { id }) {
            1nat
        } else {
            0nat
        }
    }
}

/// No call forgets a fighter: whoever is registered stays registered.
pub proof fn lemma_registry_only_grows(
    registry: Map<u128, FighterRecord>,
    history: Seq<Call>,
    id: u128,
)
    requires
        registry.contains_key(id),
    ensures
        after_all(registry, history).contains_key(id),
    decreases history.len(),
{
    if history.len() > 0 {
        lemma_registry_only_grows(registry, history.drop_last(), id);
    }
}

/// Identifiers are unique as long as every draw is fresh: where
/// `register` returned an identifier that was not in use when it was drawn,
/// that identifier differs from the one that any earlier `register` of the
/// history returned.
pub proof fn lemma_fresh_identifiers_are_distinct(
    registry: Map<u128, FighterRecord>,
    history: Seq<Call>,
    earlier: int,
    later: int,
)
    requires
        0 <= earlier < later < history.len(),
        history[earlier] is Register,
        history[later] is Register,
        !after_all(registry, history.take(later)).contains_key(history[later]->Register_id),
    ensures
        history[earlier]->Register_id != history[later]->Register_id,
{
    let id = history[earlier]->Register_id;
    let upto = history.take(earlier + 1);
    assert(upto.last() == history[earlier]);
    assert(after_all(registry, upto).contains_key(id));
    let rest = history.subrange(earlier + 1, later);
    lemma_after_all_splits(registry, upto, rest);
    assert(upto + rest == history.take(later));
    lemma_registry_only_grows(after_all(registry, upto), rest, id);
}

/// Making the calls of `first` and then those of `second` is making the calls
/// of `first + second`.
pub proof fn lemma_after_all_splits(
    registry: Map<u128, FighterRecord>,
    first: Seq<Call>,
    second: Seq<Call>,
)
    ensures
        after_all(registry, first + second) == after_all(after_all(registry, first), second),
    decreases second.len(),
{
    if second.len() == 0 {
        assert(first + second == first);
    } else {
        lemma_after_all_splits(registry, first, second.drop_last());
        assert((first + second).drop_last() == first + second.drop_last());
        assert((first + second).last() == second.last());
    }
}

/// Round trip: the script that was registered is the script that the returned
/// identifier looks up, whatever identifier was drawn.
pub proof fn lemma_registered_source_is_found(
    registry: Map<u128, FighterRecord>,
    new: FighterRecord,
    id: u128,
)
    ensures
        source_of((Call::Register { new, id }).after(registry), id) == Some(new.source_code),
{
}

/// The tally counts the calls: as long as no call of the history stores a
/// whole record under `id`, the fighter has as many more wins as the history
/// records wins for it, as many more losses as it records losses, and the
/// script it had.
pub proof fn lemma_tally_counts_calls(
    registry: Map<u128, FighterRecord>,
    history: Seq<Call>,
    id: u128,
)
    requires
        registry.contains_key(id),
        forall|i: int| 0 <= i < history.len() ==> !(#[trigger] history[i]).overwrites(id),
    ensures
        after_all(registry, history).contains_key(id),
        after_all(registry, history)[id].wins == registry[id].wins + wins_recorded(history, id),
        after_all(registry, history)[id].losses == registry[id].losses + losses_recorded(
            history,
            id,
        ),
        after_all(registry, history)[id].source_code == registry[id].source_code,
    decreases history.len(),
{
    if history.len() > 0 {
        let before = history.drop_last();
        assert forall|i: int| 0 <= i < before.len() implies !(#[trigger] before[i]).overwrites(
            id,
        ) by {
            assert(before[i] == history[i]);
        }
        lemma_tally_counts_calls(registry, before, id);
        assert(!history.last().overwrites(id));
    }
}

/// Upsert: `update` under an identifier that `register` returned gives that
/// identifier back and replaces the record whole. The script, the wins and
/// the losses are then those of the new record, and nobody else's record
/// changes.
pub proof fn lemma_update_replaces_registered(
    registry: Map<u128, FighterRecord>,
    first: FighterRecord,
    id: u128,
    second: FighterRecord,
    kept: u128,
)
    requires
        (Call::Update { new: second, id, kept }).possible(
            (Call::Register { new: first, id }).after(registry),
        ),
    ensures
        kept == id,
        ({
            let registered = (Call::Register { new: first, id }).after(registry);
            let updated = (Call::Update { new: second, id, kept }).after(registered);
            &&& updated[id] == second
            &&& source_of(updated, id) == Some(second.source_code)
            &&& updated.dom() == registered.dom()
            &&& forall|other: u128|
                other != id && registered.contains_key(other) ==> updated[other]
                    == registered[other]
        }),
{
    let registered = (Call::Register { new: first, id }).after(registry);
    let updated = (Call::Update { new: second, id, kept }).after(registered);
    assert(updated.dom() =~= registered.dom());
}

/// Fallback: `update` under an unknown identifier registers the record under
/// the identifier it returns, which is a random one, and leaves every other
/// record as it was. The returned identifier differs from the unknown one
/// unless the generator drew exactly that one, which it cannot where the
/// unknown one is not of the random shape.
pub proof fn lemma_update_unknown_registers(
    registry: Map<u128, FighterRecord>,
    new: FighterRecord,
    unknown: u128,
    kept: u128,
)
    requires
        !registry.contains_key(unknown),
        (Call::Update { new, id: unknown, kept }).possible(registry),
    ensures
        is_random_id(kept),
        !is_random_id(unknown) ==> kept != unknown,
        ({
            let updated = (Call::Update { new, id: unknown, kept }).after(registry);
            &&& updated[kept] == new
            &&& source_of(updated, kept) == Some(new.source_code)
            &&& updated.dom() == registry.dom().insert(kept)
            &&& forall|other: u128|
                other != kept && registry.contains_key(other) ==> updated[other]
                    == registry[other]
        }),
{
    let updated = (Call::Update { new, id: unknown, kept }).after(registry);
    assert(updated.dom() =~= registry.dom().insert(kept));
}

/// Size bound: a match holds as many fighters as the registry has, but no
/// more than [`MATCHMAKER_MAX`]. The first is the initiator's own record, and
/// the others are records of registered fighters that are neither the
/// initiator nor one another.
pub proof fn lemma_match_is_bounded_sample(
    registry: Map<u128, FighterRecord>,
    initiator: u128,
    lineup: Seq<FighterRecord>,
)
    requires
        is_match(registry, initiator, lineup),
    ensures
        1 <= lineup.len() <= MATCHMAKER_MAX,
        lineup.len() == registry.len() || (lineup.len() == MATCHMAKER_MAX && registry.len()
            > MATCHMAKER_MAX),
        registry.contains_key(initiator),
        lineup[0] == registry[initiator],
        exists|ids: Seq<u128>|
            {
                &&& ids.len() == lineup.len()
                &&& ids[0] == initiator
                &&& forall|i: int|
                    1 <= i < ids.len() ==> #[trigger] ids[i] != initiator && registry.contains_key(
                        ids[i],
                    ) && lineup[i] == registry[ids[i]]
                &&& forall|i: int, j: int|
                    0 <= i < j < ids.len() ==> #[trigger] ids[i] != #[trigger] ids[j]
            },
{
    let ids = choose|ids: Seq<u128>|
        0 < ids.len() && ids[0] == initiator && #[trigger] lineup_of(registry, ids, lineup);
    assert(lineup[0] == registry[ids[0]]);
    assert(forall|i: int| 1 <= i < ids.len() ==> #[trigger] ids[i] != ids[0]);
}

} // verus!
