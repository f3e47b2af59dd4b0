//! The registry of fighters: every submitted script with its running tally,
//! keyed by the identifier handed out at registration.

use std::collections::hash_map::Entry;
use std::collections::HashMap;
use std::str::FromStr;
use rand::seq::IteratorRandom;
use vstd::prelude::*;

verus! {

broadcast use vstd::std_specs::hash::group_hash_axioms;

/// What a [`Traveler`] stands for: the script text and the tally, as
/// mathematical values.
pub struct FighterRecord {
    pub source_code: Seq<char>,
    pub wins: nat,
    pub losses: nat,
}

impl FighterRecord {
    /// The record of a script that has not fought yet.
    pub open spec fn fresh(source_code: Seq<char>) -> FighterRecord {
        FighterRecord { source_code, wins: 0, losses: 0 }
    }

    /// This record with one more win.
    pub open spec fn won(self) -> FighterRecord {
        FighterRecord { wins: self.wins + 1, ..self }
    }

    /// This record with one more loss.
    pub open spec fn lost(self) -> FighterRecord {
        FighterRecord { losses: self.losses + 1, ..self }
    }
}

/// A fighter's script with some additional metadata
#[derive(Debug)]
pub struct Traveler {
    /// Source code in FightScript
    pub source_code: String,
    /// How many wins
    pub wins: usize,
    /// How many loses
    pub losses: usize,
}

impl View for Traveler {
    type V = FighterRecord;

    open spec fn view(&self) -> FighterRecord {
        FighterRecord {
            source_code: self.source_code@,
            wins: self.wins as nat,
            losses: self.losses as nat,
        }
    }
}

impl Traveler {
    /// Creates a new traveler from source
    pub fn from_source(src: &str) -> (traveler: Self)
        ensures
            traveler@ == FighterRecord::fresh(src@),
    {
        Self { source_code: src.to_owned(), wins: 0, losses: 0 }
    }

    /// When a traveler wins. The tally counts up to `usize::MAX`.
    pub fn win(&mut self)
        requires
            old(self).wins < usize::MAX,
        ensures
            final(self)@ == old(self)@.won(),
    {
        self.wins += 1;
    }

    /// When a traveler loses. The tally counts up to `usize::MAX`.
    pub fn lose(&mut self)
        requires
            old(self).losses < usize::MAX,
        ensures
            final(self)@ == old(self)@.lost(),
    {
        self.losses += 1;
    }
}

impl FromStr for Traveler {
    type Err = ();

    fn from_str(s: &str) -> (traveler: Result<Self, Self::Err>)
        ensures
            traveler matches Ok(t) && t@ == FighterRecord::fresh(s@),
    {
        Ok(Self { source_code: s.to_owned(), wins: 0, losses: 0 })
    }
}

impl Clone for Traveler {
    fn clone(&self) -> (copy: Self)
        ensures
            copy == *self,
    {
        Self { source_code: self.source_code.clone(), wins: self.wins, losses: self.losses }
    }
}

impl Default for Traveler {
    fn default() -> (traveler: Self)
        ensures
            traveler@ == FighterRecord::fresh(Seq::empty()),
    {
        Self { source_code: String::new(), wins: 0, losses: 0 }
    }
}

/// Whether `id` has the shape of a random identifier: its four version bits
/// read 4 and its two variant bits read binary 10.
pub open spec fn is_random_id(id: u128) -> bool {
    (id >> 76u128) & 0xf == 4 && (id >> 62u128) & 0x3 == 2
}

/// Draws an identifier at random.
///
/// Trusted: calls `uuid::Uuid::new_v4` and reads the result as a number with
/// `Uuid::as_u128`. The generator masks the random bits so that version and
/// variant are the fixed ones of a random identifier; that much holds of every
/// draw, and nothing else is claimed. In particular two draws may coincide.
#[verifier::external_body]
fn draw_id() -> (id: u128)
    ensures
        is_random_id(id),
{
    uuid::Uuid::new_v4().as_u128()
}

/// The registry after a win was recorded for `id`: unchanged where `id` is
/// unknown.
pub open spec fn after_win(registry: Map<u128, FighterRecord>, id: u128) -> Map<
    u128,
    FighterRecord,
> {
    if registry.contains_key(id) {
        registry.insert(id, registry[id].won())
    } else {
        registry
    }
}

/// The registry after a loss was recorded for `id`: unchanged where `id` is
/// unknown.
pub open spec fn after_loss(registry: Map<u128, FighterRecord>, id: u128) -> Map<
    u128,
    FighterRecord,
> {
    if registry.contains_key(id) {
        registry.insert(id, registry[id].lost())
    } else {
        registry
    }
}

/// The script registered under `id`, if any.
pub open spec fn source_of(registry: Map<u128, FighterRecord>, id: u128) -> Option<Seq<char>> {
    if registry.contains_key(id) {
        Some(registry[id].source_code)
    } else {
        None
    }
}

/// Most travelers in a fight
pub const MATCHMAKER_MAX: usize = 32;

/// Picks a position below `len` at random.
///
/// Trusted: calls `rand::seq::IteratorRandom::choose` on the range `0..len`
/// with the thread's generator, `rand::rng()`. `choose` hands out one item of
/// the iterator, and nothing exactly when the iterator is empty. Which item
/// comes out is left open: two calls may differ.
#[verifier::external_body]
fn choose_index(len: usize) -> (pick: Option<usize>)
    ensures
        pick is None <==> len == 0,
        pick matches Some(i) ==> i < len,
{
    (0..len).choose(&mut rand::rng())
}

/// The records that a list of travelers stands for.
pub open spec fn records(travelers: Seq<Traveler>) -> Seq<FighterRecord> {
    travelers.map_values(|t: Traveler| t@)
}

/// `lineup` holds the records that `registry` keeps under `ids`, in that
/// order, and no identifier occurs twice.
pub open spec fn lineup_of(
    registry: Map<u128, FighterRecord>,
    ids: Seq<u128>,
    lineup: Seq<FighterRecord>,
) -> bool {
    &&& ids.len() == lineup.len()
    &&& ids.no_duplicates()
    &&& forall|i: int|
        0 <= i < ids.len() ==> registry.contains_key(#[trigger] ids[i]) && lineup[i]
            == registry[ids[i]]
}

/// `lineup` is a match that `initiator` may be given: the initiator's own
/// record first, then records of distinct other fighters, as many as the
/// registry has, up to [`MATCHMAKER_MAX`] in all.
pub open spec fn is_match(
    registry: Map<u128, FighterRecord>,
    initiator: u128,
    lineup: Seq<FighterRecord>,
) -> bool {
    &&& lineup.len() == if registry.len() < MATCHMAKER_MAX {
        registry.len()
    } else {
        MATCHMAKER_MAX as nat
    }
    &&& exists|ids: Seq<u128>|
        0 < ids.len() && ids[0] == initiator && #[trigger] lineup_of(registry, ids, lineup)
}

/// The failure of a request that names a fighter the registry does not hold.
#[derive(Debug, Clone, Copy, PartialEq, Eq, Structural)]
pub struct NotFound {
    /// The identifier that was asked for
    pub id: u128,
}

/// Moves the contender at position `pick` to the end of the line-up.
pub fn enlist(fighters: &mut Vec<Traveler>, contenders: &mut Vec<Traveler>, pick: usize)
    requires
        pick < old(contenders).len(),
    ensures
        final(fighters)@ == old(fighters)@.push(old(contenders)@[pick as int]),
        final(contenders)@ == old(contenders)@.remove(pick as int),
{
    let out = contenders.remove(pick);
    fighters.push(out);
}

/// What a [`Match`] stands for: the scripts, as mathematical values.
pub struct MatchView {
    pub creator: Seq<char>,
    pub others: Seq<Seq<char>>,
}

impl MatchView {
    /// The scripts of a line-up: the first fighter's as the creator's, the
    /// scripts of the rest in their order.
    pub open spec fn of(lineup: Seq<FighterRecord>) -> MatchView
        recommends
            lineup.len() > 0,
    {
        MatchView {
            creator: lineup[0].source_code,
            others: Seq::new(
                (lineup.len() - 1) as nat,
                |i: int| lineup[i + 1].source_code,
            ),
        }
    }
}

/// Match metadata for js
#[derive(Debug)]
pub struct Match {
    /// Creator's script
    pub creator: String,
    /// All other scripts
    pub others: Vec<String>,
}

impl View for Match {
    type V = MatchView;

    open spec fn view(&self) -> MatchView {
        MatchView { creator: self.creator@, others: self.others@.map_values(|s: String| s@) }
    }
}

impl Clone for Match {
    fn clone(&self) -> (copy: Self)
        ensures
            copy@ == self@,
    {
        let mut others: Vec<String> = Vec::new();
        let mut i: usize = 0;
        while i < self.others.len()
            invariant
                i <= self.others.len(),
                others.len() == i,
                forall|j: int| 0 <= j < i ==> others[j] == self.others[j],
            decreases self.others.len() - i,
        {
            others.push(self.others[i].clone());
            i += 1;
        }
        let copy = Match { creator: self.creator.clone(), others };
        assert(copy@.others =~= self@.others);
        copy
    }
}

impl Match {
    /// Reads the scripts out of a line-up whose first fighter is the creator.
    pub fn from_fighters(fighters: &Vec<Traveler>) -> (m: Match)
        requires
            fighters.len() > 0,
        ensures
            m@ == MatchView::of(records(fighters@)),
    {
        let creator = fighters[0].source_code.clone();
        let mut others: Vec<String> = Vec::new();
        let mut i: usize = 1;
        while i < fighters.len()
            invariant
                1 <= i <= fighters.len(),
                others.len() == i - 1,
                forall|j: int| 0 <= j < others.len() ==> others[j]@ == fighters[j + 1].source_code@,
            decreases fighters.len() - i,
        {
            others.push(fighters[i].source_code.clone());
            i += 1;
        }
        let m = Match { creator, others };
        assert(m@.others =~= MatchView::of(records(fighters@)).others);
        m
    }
}

/// The server's internal state for matchmaking
#[derive(Debug)]
pub struct ServerState {
    /// All fighters that can be pooled from
    pub fighters: HashMap<u128, Traveler>,
}

impl View for ServerState {
    type V = Map<u128, FighterRecord>;

    open spec fn view(&self) -> Map<u128, FighterRecord> {
        Map::new(|id: u128| self.fighters@.contains_key(id), |id: u128| self.fighters@[id]@)
    }
}

impl Default for ServerState {
    fn default() -> (state: Self)
        ensures
            state@ == Map::<u128, FighterRecord>::empty(),
    {
        Self { fighters: HashMap::new() }
    }
}

impl ServerState {
    /// Gets the source code for a fighter if they exist
    pub fn get_source(&self, id: u128) -> (source: Option<String>)
        ensures
            match source {
                Some(text) => source_of(self@, id) == Some(text@),
                None => source_of(self@, id) is None,
            },
    {
        match self.fighters.get(&id) {
            Some(t) => Some(t.source_code.clone()),
            None => None,
        }
    }

    /// Marks a traveler as winning the round; changes nothing where `id` is
    /// unknown
    pub fn win(&mut self, id: u128)
        requires
            old(self)@.contains_key(id) ==> old(self)@[id].wins < usize::MAX,
        ensures
            final(self)@ == after_win(old(self)@, id),
    {
        match self.fighters.entry(id) {
            Entry::Occupied(mut fighter) => {
                fighter.get_mut().win();
            },
            Entry::Vacant(_) => {},
        }
    }

    /// Marks a traveler as losing the round; changes nothing where `id` is
    /// unknown
    pub fn lose(&mut self, id: u128)
        requires
            old(self)@.contains_key(id) ==> old(self)@[id].losses < usize::MAX,
        ensures
            final(self)@ == after_loss(old(self)@, id),
    {
        match self.fighters.entry(id) {
            Entry::Occupied(mut fighter) => {
                fighter.get_mut().lose();
            },
            Entry::Vacant(_) => {},
        }
    }

    /// Registers `new` under the identifier `id`, replacing whatever was
    /// registered under it.
    pub fn register_as(&mut self, new: Traveler, id: u128)
        ensures
            final(self)@ == old(self)@.insert(id, new@),
    {
        self.fighters.insert(id, new);
    }

    /// Registers a new fighter and returns their identifier, which is drawn
    /// at random. Whether it is already in use is not looked at: a fighter
    /// registered under the same identifier would be replaced.
    pub fn register(&mut self, new: Traveler) -> (id: u128)
        ensures
            is_random_id(id),
            final(self)@ == old(self)@.insert(id, new@),
    {
        let new_id = draw_id();
        self.register_as(new, new_id);
        new_id
    }

    /// Replaces the fighter registered under `id`, or registers `new` as a
    /// new fighter where `id` is unknown; returns the identifier `new` now has
    pub fn update(&mut self, new: Traveler, id: u128) -> (kept: u128)
        ensures
            old(self)@.contains_key(id) ==> kept == id,
            !old(self)@.contains_key(id) ==> is_random_id(kept),
            final(self)@ == old(self)@.insert(kept, new@),
    {
        if self.fighters.contains_key(&id) {
            self.register_as(new, id);
            id
        } else {
            self.register(new)
        }
    }

    /// Registers the script `code`: under `existing` where that names a
    /// registered fighter, as a new fighter otherwise. Returns the identifier
    /// the script now has.
    pub fn submit(&mut self, code: &str, existing: Option<u128>) -> (kept: u128)
        ensures
            final(self)@ == old(self)@.insert(kept, FighterRecord::fresh(code@)),
            match existing {
                Some(id) if old(self)@.contains_key(id) => kept == id,
                _ => is_random_id(kept),
            },
    {
        let traveler = Traveler::from_source(code);
        match existing {
            Some(id) => self.update(traveler, id),
            None => self.register(traveler),
        }
    }

    /// Creates a set of fighters for a battle: the initiator first, then
    /// opponents drawn at random from the other fighters, each at most once,
    /// until [`MATCHMAKER_MAX`] fighters are in or nobody is left. Fails where
    /// the initiator is not registered.
    pub fn matchmake(&self, initiator: u128) -> (battle: Result<Vec<Traveler>, NotFound>)
        ensures
            battle is Err <==> !self@.contains_key(initiator),
            battle matches Err(e) ==> e.id == initiator,
            battle matches Ok(fighters) ==> is_match(self@, initiator, records(fighters@)),
    {
        let init = match self.fighters.get(&initiator) {
            Some(t) => t.clone(),
            None => {
                return Err(NotFound { id: initiator });
            },
        };
        assert(self@.dom() =~= self.fighters@.dom());

        let mut contenders: Vec<Traveler> = Vec::new();
        let ghost mut pool: Seq<u128> = Seq::empty();
        let ghost mut seen = false;
        for (key, value) in it: self.fighters.iter()
            invariant
                it.seq().no_duplicates(),
                it.seq().len() == self.fighters@.dom().len(),
                forall|i: int|
                    0 <= i < it.seq().len() ==> self.fighters@.contains_key(
                        *(#[trigger] it.seq()[i]).0,
                    ) && self.fighters@[*it.seq()[i].0] == *it.seq()[i].1,
                exists|i: int| 0 <= i < it.seq().len() && *(#[trigger] it.seq()[i]).0 == initiator,
                seen <==> exists|i: int|
                    0 <= i < it.index() && *(#[trigger] it.seq()[i]).0 == initiator,
                pool.len() == contenders.len(),
                pool.len() + (if seen { 1int } else { 0int }) == it.index(),
                pool.no_duplicates(),
                forall|j: int|
                    #![trigger pool[j]]
                    0 <= j < pool.len() ==> exists|i: int|
                        0 <= i < it.index() && *(#[trigger] it.seq()[i]).0 == pool[j],
                forall|j: int|
                    0 <= j < pool.len() ==> #[trigger] pool[j] != initiator
                        && self@.contains_key(pool[j]) && contenders[j]@ == self@[pool[j]],
        {
            if *key != initiator {
                contenders.push(value.clone());
                proof {
                    pool = pool.push(*key);
                }
            } else {
                proof {
                    seen = true;
                }
            }
        }
        assert(seen);

        let mut fighters: Vec<Traveler> = Vec::new();
        fighters.push(init);
        let ghost mut ids: Seq<u128> = seq![initiator];
        let rounds = if contenders.len() < MATCHMAKER_MAX - 1 {
            contenders.len()
        } else {
            MATCHMAKER_MAX - 1
        };
        let mut round: usize = 0;
        while round < rounds
            invariant
                round <= rounds,
                contenders.len() + round == self@.len() - 1,
                rounds + 1 == if self@.len() < MATCHMAKER_MAX {
                    self@.len()
                } else {
                    MATCHMAKER_MAX as nat
                },
                fighters.len() == round + 1,
                pool.len() == contenders.len(),
                pool.no_duplicates(),
                forall|j: int|
                    0 <= j < pool.len() ==> self@.contains_key(#[trigger] pool[j])
                        && contenders[j]@ == self@[pool[j]],
                forall|j: int, i: int|
                    0 <= j < pool.len() && 0 <= i < ids.len() ==> #[trigger] pool[j]
                        != #[trigger] ids[i],
                ids[0] == initiator,
                lineup_of(self@, ids, records(fighters@)),
            decreases rounds - round,
        {
            let pick = choose_index(contenders.len()).unwrap();
            enlist(&mut fighters, &mut contenders, pick);
            proof {
                ids = ids.push(pool[pick as int]);
                pool = pool.remove(pick as int);
            }
            round += 1;
        }
        Ok(fighters)
    }

    /// Makes a match for `initiator` and reads the scripts out of it.
    pub fn create_match(&self, initiator: u128) -> (made: Result<Match, NotFound>)
        ensures
            made is Err <==> !self@.contains_key(initiator),
            made matches Err(e) ==> e.id == initiator,
            made matches Ok(m) ==> exists|lineup: Seq<FighterRecord>|
                #[trigger] is_match(self@, initiator, lineup) && m@ == MatchView::of(lineup),
    {
        match self.matchmake(initiator) {
            Ok(fighters) => Ok(Match::from_fighters(&fighters)),
            Err(e) => Err(e),
        }
    }
}

} // verus!
