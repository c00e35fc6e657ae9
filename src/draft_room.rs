//! One draft room: its roster, its pool of items, what each player has
//! picked, and the snake-order turn state.
use vstd::multiset::Multiset;
use vstd::prelude::*;

use crate::ids::Owner;
use vstd::string::StringExecFns;

verus! {

/// Number of rounds in a draft.
pub const MAX_ROUNDS: u8 = 3;

/// Number of items in the catalog that fills the pool.
pub const CATALOG_SIZE: usize = 15;

/// Status of a draft room.
#[derive(Clone, Copy, Debug, PartialEq, Eq, Structural)]
pub enum DraftStatus {
    Waiting,
    Drafting,
    Finished,
}

/// An item that can be drafted.
#[derive(Debug)]
pub struct DraftItem {
    pub id: u8,
    pub name: String,
    pub power: u32,
}

/// What a draft item holds, as plain values.
pub struct DraftItemView {
    pub id: u8,
    pub name: Seq<char>,
    pub power: u32,
}

impl View for DraftItem {
    type V = DraftItemView;

    open spec fn view(&self) -> DraftItemView {
        DraftItemView { id: self.id, name: self.name@, power: self.power }
    }
}

/// Operations that a draft room accepts.
#[derive(Clone, Copy, Debug, PartialEq, Eq, Structural)]
pub enum DraftRoomOperation {
    JoinRoom,
    StartDraft,
    PickItem { item_id: u8 },
    FinalizeDraft,
}

/// Why a draft room rejected an operation.
#[derive(Clone, Copy, Debug, PartialEq, Eq, Structural)]
pub enum DraftRoomError {
    NotWaiting,
    RoomFull,
    AlreadyJoined,
    NotCreator,
    NotDrafting,
    NotYourTurn,
    ItemNotFound,
    AuthenticationRequired,
    DraftNotFinished,
}

/// The items of a sequence, as plain values.
pub open spec fn items_view(items: Seq<DraftItem>) -> Seq<DraftItemView> {
    items.map_values(|it: DraftItem| it@)
}

/// The ids of a sequence of items.
pub open spec fn ids_of(items: Seq<DraftItemView>) -> Seq<u8> {
    items.map_values(|it: DraftItemView| it.id)
}

/// The fixed catalog that fills the pool when a draft starts.
pub open spec fn catalog() -> Seq<DraftItemView> {
    seq![
        DraftItemView { id: 1, name: "Lightning Bolt"@, power: 100 },
        DraftItemView { id: 2, name: "Counterspell"@, power: 90 },
        DraftItemView { id: 3, name: "Giant Growth"@, power: 80 },
        DraftItemView { id: 4, name: "Dark Ritual"@, power: 85 },
        DraftItemView { id: 5, name: "Healing Salve"@, power: 70 },
        DraftItemView { id: 6, name: "Ancestral Recall"@, power: 95 },
        DraftItemView { id: 7, name: "Black Lotus"@, power: 100 },
        DraftItemView { id: 8, name: "Mox Pearl"@, power: 90 },
        DraftItemView { id: 9, name: "Time Walk"@, power: 95 },
        DraftItemView { id: 10, name: "Swords to Plowshares"@, power: 85 },
        DraftItemView { id: 11, name: "Force of Will"@, power: 90 },
        DraftItemView { id: 12, name: "Brainstorm"@, power: 75 },
        DraftItemView { id: 13, name: "Sol Ring"@, power: 85 },
        DraftItemView { id: 14, name: "Path to Exile"@, power: 80 },
        DraftItemView { id: 15, name: "Demonic Tutor"@, power: 90 },
    ]
}

/// The index of the active player: forward through the roster in odd
/// rounds, backward in even rounds.
pub open spec fn active_index(round: nat, turn: nat, n: nat) -> int
    recommends
        n > 0,
{
    if round % 2 == 1 {
        (turn % n) as int
    } else {
        n - 1 - (turn % n) as int
    }
}

/// Whether the player at index `i` has already picked in the current round.
pub open spec fn picked_this_round(round: nat, turn: nat, n: nat, i: int) -> bool {
    if round % 2 == 1 {
        i < turn
    } else {
        n - 1 - i < turn
    }
}

/// The number of items held in all pick lists together.
pub open spec fn total_picks(picks: Seq<Seq<DraftItemView>>) -> nat
    decreases picks.len(),
{
    if picks.len() == 0 {
        0
    } else {
        total_picks(picks.drop_last()) + picks.last().len()
    }
}

/// The ids held in all pick lists together.
pub open spec fn picked_ids(picks: Seq<Seq<DraftItemView>>) -> Multiset<u8>
    decreases picks.len(),
{
    if picks.len() == 0 {
        Multiset::empty()
    } else {
        picked_ids(picks.drop_last()).add(ids_of(picks.last()).to_multiset())
    }
}

/// Whether some item in the sequence has the given id.
pub open spec fn has_item(items: Seq<DraftItemView>, id: u8) -> bool {
    exists|k: int| 0 <= k < items.len() && items[k].id == id
}

/// Whether `k` is the first index of an item with the given id.
pub open spec fn is_first_position(items: Seq<DraftItemView>, id: u8, k: int) -> bool {
    &&& 0 <= k < items.len()
    &&& items[k].id == id
    &&& forall|j: int| 0 <= j < k ==> items[j].id != id
}

/// The first index of an item with the given id (meaningful when there is one).
pub open spec fn item_position(items: Seq<DraftItemView>, id: u8) -> int {
    choose|k: int| is_first_position(items, id, k)
}

/// The state of a draft room, as plain values.
pub struct DraftRoomView {
    pub players: Seq<Owner>,
    pub max_players: nat,
    pub current_turn: nat,
    pub round: nat,
    pub max_rounds: nat,
    pub pool: Seq<DraftItemView>,
    pub picks: Seq<Seq<DraftItemView>>,
    pub status: DraftStatus,
    pub creator: Option<Owner>,
}

impl DraftRoomView {
    /// The player whose turn it is; none while the roster is empty.
    pub open spec fn current_player(self) -> Option<Owner> {
        if self.players.len() == 0 {
            None
        } else {
            Some(
                self.players[active_index(self.round, self.current_turn, self.players.len())],
            )
        }
    }

    /// The well-formedness of a room: the invariants that every operation keeps.
    pub open spec fn wf(self) -> bool {
        let n = self.players.len();
        &&& self.picks.len() == n
        &&& n <= self.max_players
        &&& forall|i: int, j: int|
            0 <= i < j < n ==> #[trigger] self.players[i] != #[trigger] self.players[j]
        &&& 1 <= self.max_rounds < 255
        &&& 1 <= self.round
        &&& (n == 0 ==> self.current_turn == 0)
        &&& (n > 0 ==> self.current_turn < n)
        &&& forall|i: int|
            0 <= i < n ==> #[trigger] self.picks[i].len() == self.round - 1 + (if picked_this_round(
                self.round,
                self.current_turn,
                n,
                i,
            ) {
                1int
            } else {
                0int
            })
        &&& total_picks(self.picks) == (self.round - 1) * n + self.current_turn
        &&& match self.status {
            DraftStatus::Waiting => {
                &&& self.pool.len() == 0
                &&& self.round == 1
                &&& self.current_turn == 0
            },
            DraftStatus::Drafting => self.round <= self.max_rounds,
            DraftStatus::Finished => {
                &&& self.round == self.max_rounds + 1
                &&& self.current_turn == 0
            },
        }
        &&& self.status != DraftStatus::Waiting ==> {
            &&& self.pool.len() + total_picks(self.picks) == CATALOG_SIZE
            &&& ids_of(self.pool).to_multiset().add(picked_ids(self.picks)) == ids_of(
                catalog(),
            ).to_multiset()
        }
    }

    /// What joining does to the room, when it is accepted.
    pub open spec fn with_player(self, p: Owner) -> DraftRoomView {
        DraftRoomView {
            players: self.players.push(p),
            picks: self.picks.push(Seq::empty()),
            ..self
        }
    }

    /// What starting the draft does to the room, when it is accepted.
    pub open spec fn started(self) -> DraftRoomView {
        DraftRoomView {
            pool: catalog(),
            status: DraftStatus::Drafting,
            current_turn: 0,
            round: 1,
            ..self
        }
    }

    /// The turn state after one pick.
    pub open spec fn advanced(self) -> DraftRoomView {
        let turn = self.current_turn + 1;
        if turn >= self.players.len() {
            DraftRoomView {
                current_turn: 0,
                round: self.round + 1,
                status: if self.round + 1 > self.max_rounds {
                    DraftStatus::Finished
                } else {
                    self.status
                },
                ..self
            }
        } else {
            DraftRoomView { current_turn: turn, ..self }
        }
    }

    /// What picking `item_id` does to the room, when it is accepted: the
    /// item leaves the pool for the active player's list, and the turn advances.
    pub open spec fn after_pick(self, item_id: u8) -> DraftRoomView {
        let a = active_index(self.round, self.current_turn, self.players.len());
        let k = item_position(self.pool, item_id);
        DraftRoomView {
            pool: self.pool.remove(k),
            picks: self.picks.update(a, self.picks[a].push(self.pool[k])),
            ..self
        }.advanced()
    }

    /// The answer to `JoinRoom`.
    pub open spec fn join_result(self, caller: Option<Owner>) -> Result<(), DraftRoomError> {
        match caller {
            None => Err(DraftRoomError::AuthenticationRequired),
            Some(c) => if self.status != DraftStatus::Waiting {
                Err(DraftRoomError::NotWaiting)
            } else if self.players.len() >= self.max_players {
                Err(DraftRoomError::RoomFull)
            } else if self.players.contains(c) {
                Err(DraftRoomError::AlreadyJoined)
            } else {
                Ok(())
            },
        }
    }

    /// The answer to `StartDraft`.
    pub open spec fn start_result(self, caller: Option<Owner>) -> Result<(), DraftRoomError> {
        match caller {
            None => Err(DraftRoomError::AuthenticationRequired),
            Some(c) => if self.creator != Some(c) {
                Err(DraftRoomError::NotCreator)
            } else if self.status != DraftStatus::Waiting {
                Err(DraftRoomError::NotWaiting)
            } else {
                Ok(())
            },
        }
    }

    /// The answer to `PickItem`.
    pub open spec fn pick_result(self, caller: Option<Owner>, item_id: u8) -> Result<
        (),
        DraftRoomError,
    > {
        match caller {
            None => Err(DraftRoomError::AuthenticationRequired),
            Some(c) => if self.status != DraftStatus::Drafting {
                Err(DraftRoomError::NotDrafting)
            } else if self.current_player() != Some(c) {
                Err(DraftRoomError::NotYourTurn)
            } else if !has_item(self.pool, item_id) {
                Err(DraftRoomError::ItemNotFound)
            } else {
                Ok(())
            },
        }
    }

    /// The answer to `FinalizeDraft`.
    pub open spec fn finalize_result(self) -> Result<(), DraftRoomError> {
        if self.status == DraftStatus::Finished {
            Ok(())
        } else {
            Err(DraftRoomError::DraftNotFinished)
        }
    }

    /// The answer to an operation.
    pub open spec fn outcome(self, caller: Option<Owner>, op: DraftRoomOperation) -> Result<
        (),
        DraftRoomError,
    > {
        match op {
            DraftRoomOperation::JoinRoom => self.join_result(caller),
            DraftRoomOperation::StartDraft => self.start_result(caller),
            DraftRoomOperation::PickItem { item_id } => self.pick_result(caller, item_id),
            DraftRoomOperation::FinalizeDraft => self.finalize_result(),
        }
    }

    /// The room after an operation: unchanged when it is rejected.
    pub open spec fn next(self, caller: Option<Owner>, op: DraftRoomOperation) -> DraftRoomView {
        if self.outcome(caller, op) is Err {
            self
        } else {
            match op {
                DraftRoomOperation::JoinRoom => self.with_player(caller->0),
                DraftRoomOperation::StartDraft => self.started(),
                DraftRoomOperation::PickItem { item_id } => self.after_pick(item_id),
                DraftRoomOperation::FinalizeDraft => self,
            }
        }
    }
}


/// When some item has the id, `item_position` is its first index.
pub proof fn lemma_item_position(items: Seq<DraftItemView>, id: u8)
    requires
        has_item(items, id),
    ensures
        is_first_position(items, id, item_position(items, id)),
{
    let k = choose|k: int| 0 <= k < items.len() && items[k].id == id;
    lemma_first_position_below(items, id, k);
}

proof fn lemma_first_position_below(items: Seq<DraftItemView>, id: u8, k: int)
    requires
        0 <= k < items.len(),
        items[k].id == id,
    ensures
        exists|m: int| is_first_position(items, id, m),
    decreases k,
{
    if exists|j: int| 0 <= j < k && items[j].id == id {
        let j = choose|j: int| 0 <= j < k && items[j].id == id;
        lemma_first_position_below(items, id, j);
    } else {
        assert(is_first_position(items, id, k));
    }
}

/// Replacing one pick list changes the total by the difference in length.
proof fn lemma_total_picks_update(picks: Seq<Seq<DraftItemView>>, a: int, v: Seq<DraftItemView>)
    requires
        0 <= a < picks.len(),
    ensures
        total_picks(picks.update(a, v)) == total_picks(picks) - picks[a].len() + v.len(),
    decreases picks.len(),
{
    let q = picks.update(a, v);
    if a == picks.len() - 1 {
        assert(q.drop_last() =~= picks.drop_last());
    } else {
        lemma_total_picks_update(picks.drop_last(), a, v);
        assert(q.drop_last() =~= picks.drop_last().update(a, v));
    }
}

/// Appending an item to one pick list adds its id to the picked ids.
proof fn lemma_picked_ids_push(picks: Seq<Seq<DraftItemView>>, a: int, x: DraftItemView)
    requires
        0 <= a < picks.len(),
    ensures
        picked_ids(picks.update(a, picks[a].push(x))) == picked_ids(picks).insert(x.id),
    decreases picks.len(),
{
    broadcast use vstd::multiset::group_multiset_axioms;
    broadcast use vstd::seq_lib::to_multiset_build;

    let q = picks.update(a, picks[a].push(x));
    assert(ids_of(picks[a].push(x)) =~= ids_of(picks[a]).push(x.id));
    if a == picks.len() - 1 {
        assert(q.drop_last() =~= picks.drop_last());
        assert(picked_ids(q) =~= picked_ids(picks).insert(x.id));
    } else {
        lemma_picked_ids_push(picks.drop_last(), a, x);
        assert(q.drop_last() =~= picks.drop_last().update(a, picks[a].push(x)));
        assert(picked_ids(q) =~= picked_ids(picks).insert(x.id));
    }
}

/// Pick lists that are all empty hold nothing.
proof fn lemma_all_empty(picks: Seq<Seq<DraftItemView>>)
    requires
        forall|i: int| 0 <= i < picks.len() ==> #[trigger] picks[i].len() == 0,
    ensures
        total_picks(picks) == 0,
        picked_ids(picks) == Multiset::<u8>::empty(),
    decreases picks.len(),
{
    broadcast use vstd::multiset::group_multiset_axioms;
    broadcast use vstd::seq_lib::group_to_multiset_ensures;

    if picks.len() > 0 {
        lemma_all_empty(picks.drop_last());
        assert(picks.last().len() == 0);
        assert(ids_of(picks.last()) =~= Seq::<u8>::empty());
        assert(picked_ids(picks) =~= Multiset::<u8>::empty());
    }
}

/// Pick lists that all have length `c` hold `c` items per list.
proof fn lemma_all_same_length(picks: Seq<Seq<DraftItemView>>, c: nat)
    requires
        forall|i: int| 0 <= i < picks.len() ==> #[trigger] picks[i].len() == c,
    ensures
        total_picks(picks) == picks.len() * c,
    decreases picks.len(),
{
    if picks.len() > 0 {
        lemma_all_same_length(picks.drop_last(), c);
        assert(picks.last().len() == c);
        assert(total_picks(picks) == (picks.len() - 1) * c + c);
        assert((picks.len() - 1) * c + c == picks.len() * c) by (nonlinear_arith);
    }
}


proof fn lemma_join_keeps_wf(m: DraftRoomView, c: Owner)
    requires
        m.wf(),
        m.join_result(Some(c)) is Ok,
    ensures
        m.with_player(c).wf(),
{
    let r = m.with_player(c);
    let n = r.players.len();
    assert forall|i: int, j: int| 0 <= i < j < n implies #[trigger] r.players[i]
        != #[trigger] r.players[j] by {
        if j == n - 1 {
            assert(m.players[i] != c);
        }
    }
    assert forall|i: int| 0 <= i < n implies #[trigger] r.picks[i].len() == r.round - 1 + (
    if picked_this_round(r.round, r.current_turn, n, i) {
        1int
    } else {
        0int
    }) by {
        if i < n - 1 {
            assert(r.picks[i] == m.picks[i]);
        }
    }
    assert(r.picks.drop_last() =~= m.picks);
    assert(total_picks(r.picks) == total_picks(m.picks));
    assert(m.status == DraftStatus::Waiting);
    assert(m.round == 1);
    assert(r.round - 1 == 0);
    assert((r.round - 1) * n == 0) by (nonlinear_arith)
        requires
            r.round - 1 == 0,
    ;
    assert((m.round - 1) * m.players.len() == 0) by (nonlinear_arith)
        requires
            m.round - 1 == 0,
    ;
    assert(total_picks(r.picks) == (r.round - 1) * n + r.current_turn);
}

proof fn lemma_start_keeps_wf(m: DraftRoomView)
    requires
        m.wf(),
        m.status == DraftStatus::Waiting,
    ensures
        m.started().wf(),
{
    broadcast use vstd::multiset::group_multiset_axioms;

    let r = m.started();
    assert forall|i: int| 0 <= i < m.picks.len() implies #[trigger] m.picks[i].len() == 0 by {
        assert(!picked_this_round(m.round, m.current_turn, m.players.len(), i));
    }
    lemma_all_empty(m.picks);
    assert(ids_of(r.pool).to_multiset().add(picked_ids(r.picks)) =~= ids_of(
        catalog(),
    ).to_multiset());
}

proof fn lemma_pick_keeps_wf(m: DraftRoomView, c: Owner, item_id: u8)
    requires
        m.wf(),
        m.pick_result(Some(c), item_id) is Ok,
    ensures
        m.after_pick(item_id).wf(),
        total_picks(m.after_pick(item_id).picks) == total_picks(m.picks) + 1,
{
    broadcast use vstd::multiset::group_multiset_axioms;
    broadcast use vstd::seq_lib::to_multiset_remove;

    let n = m.players.len();
    assert(n > 0);
    vstd::arithmetic::div_mod::lemma_small_mod(m.current_turn, n);
    let a = active_index(m.round, m.current_turn, n);
    assert(0 <= a < n);
    lemma_item_position(m.pool, item_id);
    let k = item_position(m.pool, item_id);
    let x = m.pool[k];
    let mid = DraftRoomView {
        pool: m.pool.remove(k),
        picks: m.picks.update(a, m.picks[a].push(x)),
        ..m
    };
    let r = mid.advanced();
    assert(r == m.after_pick(item_id));
    assert(!picked_this_round(m.round, m.current_turn, n, a));

    lemma_total_picks_update(m.picks, a, m.picks[a].push(x));
    lemma_picked_ids_push(m.picks, a, x);
    assert(ids_of(m.pool.remove(k)) =~= ids_of(m.pool).remove(k));
    assert(ids_of(m.pool)[k] == x.id);
    assert(ids_of(mid.pool).to_multiset() == ids_of(m.pool).to_multiset().remove(x.id));
    assert(ids_of(m.pool).to_multiset().contains(x.id)) by {
        broadcast use vstd::seq_lib::group_to_multiset_ensures;

        assert(ids_of(m.pool).contains(x.id));
    }
    assert(ids_of(mid.pool).to_multiset().add(picked_ids(mid.picks)) =~= ids_of(
        m.pool,
    ).to_multiset().add(picked_ids(m.picks)));

    let turn = m.current_turn + 1;
    assert forall|i: int| 0 <= i < n implies #[trigger] r.picks[i].len() == r.round - 1 + (
    if picked_this_round(r.round, r.current_turn, n, i) {
        1int
    } else {
        0int
    }) by {
        assert(mid.picks[i].len() == m.picks[i].len() + (if i == a {
            1int
        } else {
            0int
        }));
        assert(m.picks[i].len() == m.round - 1 + (if picked_this_round(
            m.round,
            m.current_turn,
            n,
            i,
        ) {
            1int
        } else {
            0int
        }));
        if turn >= n {
            if i != a {
                assert(picked_this_round(m.round, m.current_turn, n, i));
            }
        }
    }
    if turn >= n {
        assert((m.round - 1) * n + n == m.round * n) by (nonlinear_arith);
    }
}

/// Every operation keeps a room well formed, whatever its answer: the
/// roster stays duplicate-free and within capacity, each player's pick count
/// follows the snake order, and after the start the pool and the pick lists
/// together hold each catalog id exactly once.
pub proof fn lemma_next_keeps_wf(m: DraftRoomView, caller: Option<Owner>, op: DraftRoomOperation)
    requires
        m.wf(),
    ensures
        m.next(caller, op).wf(),
{
    if m.outcome(caller, op) is Ok {
        match op {
            DraftRoomOperation::JoinRoom => lemma_join_keeps_wf(m, caller->0),
            DraftRoomOperation::StartDraft => lemma_start_keeps_wf(m),
            DraftRoomOperation::PickItem { item_id } => lemma_pick_keeps_wf(
                m,
                caller->0,
                item_id,
            ),
            DraftRoomOperation::FinalizeDraft => {},
        }
    }
}


/// A finished draft has given every player exactly `max_rounds` items,
/// `players × max_rounds` in all; a draft still in progress has made fewer
/// picks than that, and when the catalog holds enough items for every pick
/// (`players × max_rounds` at most its size) the pool is not yet empty.
pub proof fn lemma_pick_totals(m: DraftRoomView)
    requires
        m.wf(),
    ensures
        m.status == DraftStatus::Finished ==> {
            &&& forall|i: int| 0 <= i < m.players.len() ==> #[trigger] m.picks[i].len() == m.max_rounds
            &&& total_picks(m.picks) == m.players.len() * m.max_rounds
        },
        m.status == DraftStatus::Drafting ==> total_picks(m.picks) < m.players.len() * m.max_rounds
            || m.players.len() == 0,
        m.status == DraftStatus::Drafting && m.players.len() * m.max_rounds <= CATALOG_SIZE
            ==> m.pool.len() > 0,
{
    let n = m.players.len();
    if m.status == DraftStatus::Finished {
        assert forall|i: int| 0 <= i < n implies #[trigger] m.picks[i].len() == m.max_rounds by {
            assert(!picked_this_round(m.round, m.current_turn, n, i));
        }
        assert((m.round - 1) * n == n * m.max_rounds) by (nonlinear_arith)
            requires
                m.round - 1 == m.max_rounds,
        ;
    }
    if m.status == DraftStatus::Drafting && n > 0 {
        assert((m.round - 1) * n + m.current_turn < n * m.max_rounds) by (nonlinear_arith)
            requires
                m.round <= m.max_rounds,
                1 <= m.round,
                m.current_turn < n,
        ;
    }
    if m.status == DraftStatus::Drafting && n == 0 {
        assert((m.round - 1) * n == 0) by (nonlinear_arith)
            requires
                n == 0,
        ;
    }
}

/// An accepted pick adds exactly one item to the pick lists; within a round
/// the turn moves on by one, after the last turn of a round the next round
/// begins at turn zero, and the pick that brings the count to
/// `players × max_rounds` is the one that finishes the draft.
pub proof fn lemma_pick_advances(m: DraftRoomView, caller: Option<Owner>, item_id: u8)
    requires
        m.wf(),
        m.outcome(caller, DraftRoomOperation::PickItem { item_id }) is Ok,
    ensures
        ({
            let r = m.next(caller, DraftRoomOperation::PickItem { item_id });
            &&& total_picks(r.picks) == total_picks(m.picks) + 1
            &&& m.current_turn + 1 < m.players.len() ==> r.round == m.round && r.current_turn
                == m.current_turn + 1
            &&& m.current_turn + 1 == m.players.len() ==> r.round == m.round + 1 && r.current_turn
                == 0
            &&& (r.status == DraftStatus::Finished <==> total_picks(r.picks) == m.players.len()
                * m.max_rounds)
        }),
{
    let r = m.next(caller, DraftRoomOperation::PickItem { item_id });
    lemma_pick_keeps_wf(m, caller->0, item_id);
    lemma_pick_totals(r);
}

/// In an odd round the players pick in roster order, `players[0]` first; in
/// an even round they pick in reverse order, `players[n - 1]` first.
pub proof fn lemma_snake_order(m: DraftRoomView)
    requires
        m.wf(),
        m.players.len() > 0,
    ensures
        m.round % 2 == 1 ==> m.current_player() == Some(m.players[m.current_turn as int]),
        m.round % 2 == 0 ==> m.current_player() == Some(
            m.players[m.players.len() - 1 - m.current_turn],
        ),
{
    vstd::arithmetic::div_mod::lemma_small_mod(m.current_turn, m.players.len());
}

/// Once the draft is finished, `FinalizeDraft` succeeds for any caller and
/// changes nothing, so a second call gives the same answer on the same state.
pub proof fn lemma_finalize_idempotent(m: DraftRoomView, first: Option<Owner>, second: Option<Owner>)
    requires
        m.status == DraftStatus::Finished,
    ensures
        m.outcome(first, DraftRoomOperation::FinalizeDraft) == Ok::<(), DraftRoomError>(()),
        m.next(first, DraftRoomOperation::FinalizeDraft) == m,
        m.next(first, DraftRoomOperation::FinalizeDraft).outcome(
            second,
            DraftRoomOperation::FinalizeDraft,
        ) == Ok::<(), DraftRoomError>(()),
        m.next(first, DraftRoomOperation::FinalizeDraft).next(
            second,
            DraftRoomOperation::FinalizeDraft,
        ) == m,
{
}

/// Once the draft has started, joining is rejected with `NotWaiting` and
/// changes nothing, however many places the room has left.
pub proof fn lemma_join_after_start(m: DraftRoomView, c: Owner)
    requires
        m.status != DraftStatus::Waiting,
    ensures
        m.outcome(Some(c), DraftRoomOperation::JoinRoom) == Err::<(), DraftRoomError>(
            DraftRoomError::NotWaiting,
        ),
        m.next(Some(c), DraftRoomOperation::JoinRoom) == m,
{
}

/// Picking an id that is not in the pool always fails and changes nothing;
/// when the room is drafting and the caller is the active player, the
/// failure is `ItemNotFound`.
pub proof fn lemma_pick_missing_item(m: DraftRoomView, caller: Option<Owner>, item_id: u8)
    requires
        !has_item(m.pool, item_id),
    ensures
        m.outcome(caller, DraftRoomOperation::PickItem { item_id }) is Err,
        m.next(caller, DraftRoomOperation::PickItem { item_id }) == m,
        caller is Some && m.status == DraftStatus::Drafting && m.current_player() == caller
            ==> m.outcome(caller, DraftRoomOperation::PickItem { item_id }) == Err::<
            (),
            DraftRoomError,
        >(DraftRoomError::ItemNotFound),
{
}

/// While drafting, a pick by anyone but the active player fails with
/// `NotYourTurn` and changes nothing, whether or not the item is in the pool.
pub proof fn lemma_pick_out_of_turn(m: DraftRoomView, c: Owner, item_id: u8)
    requires
        m.status == DraftStatus::Drafting,
        m.current_player() != Some(c),
    ensures
        m.outcome(Some(c), DraftRoomOperation::PickItem { item_id }) == Err::<(), DraftRoomError>(
            DraftRoomError::NotYourTurn,
        ),
        m.next(Some(c), DraftRoomOperation::PickItem { item_id }) == m,
{
}

/// After the start, the pool and the pick lists together hold exactly the
/// catalog: their sizes add up to the catalog's size, and each catalog id is
/// in exactly one of them.
pub proof fn lemma_pool_and_picks_partition(m: DraftRoomView)
    requires
        m.wf(),
        m.status != DraftStatus::Waiting,
    ensures
        m.pool.len() + total_picks(m.picks) == catalog().len(),
        ids_of(m.pool).to_multiset().add(picked_ids(m.picks)) == ids_of(catalog()).to_multiset(),
{
}

/// The position of a status in the lifecycle.
pub open spec fn status_rank(status: DraftStatus) -> int {
    match status {
        DraftStatus::Waiting => 0,
        DraftStatus::Drafting => 1,
        DraftStatus::Finished => 2,
    }
}

/// No operation moves a room back in its lifecycle or skips a stage:
/// Waiting, then Drafting, then Finished for good.
pub proof fn lemma_status_moves_forward(m: DraftRoomView, caller: Option<Owner>, op: DraftRoomOperation)
    requires
        m.wf(),
    ensures
        status_rank(m.next(caller, op).status) == status_rank(m.status) || status_rank(
            m.next(caller, op).status,
        ) == status_rank(m.status) + 1,
        m.status == DraftStatus::Finished ==> m.next(caller, op).status == DraftStatus::Finished,
{
}

/// A room as it is created: waiting, with no players, an empty pool, and
/// the first turn of the first round ahead.
pub open spec fn fresh_room(max_players: u8, creator: Option<Owner>) -> DraftRoomView {
    DraftRoomView {
        players: Seq::empty(),
        max_players: max_players as nat,
        current_turn: 0,
        round: 1,
        max_rounds: MAX_ROUNDS as nat,
        pool: Seq::empty(),
        picks: Seq::empty(),
        status: DraftStatus::Waiting,
        creator,
    }
}

/// The state of one draft room.
pub struct DraftRoom {
    pub players: Vec<Owner>,
    pub max_players: u8,
    pub current_turn: u8,
    pub round: u8,
    pub max_rounds: u8,
    pub pool: Vec<DraftItem>,
    /// The items picked by each player, in the order of `players`.
    pub picks: Vec<Vec<DraftItem>>,
    pub status: DraftStatus,
    pub creator: Option<Owner>,
}

impl View for DraftRoom {
    type V = DraftRoomView;

    open spec fn view(&self) -> DraftRoomView {
        DraftRoomView {
            players: self.players@,
            max_players: self.max_players as nat,
            current_turn: self.current_turn as nat,
            round: self.round as nat,
            max_rounds: self.max_rounds as nat,
            pool: items_view(self.pool@),
            picks: self.picks@.map_values(|v: Vec<DraftItem>| items_view(v@)),
            status: self.status,
            creator: self.creator,
        }
    }
}


impl DraftRoom {
    /// A room in the waiting state, with no players and an empty pool.
    pub fn new(max_players: u8, creator: Option<Owner>) -> (r: DraftRoom)
        ensures
            r@.wf(),
            r@ == fresh_room(max_players, creator),
    {
        let r = DraftRoom {
            players: Vec::new(),
            max_players,
            current_turn: 0,
            round: 1,
            max_rounds: MAX_ROUNDS,
            pool: Vec::new(),
            picks: Vec::new(),
            status: DraftStatus::Waiting,
            creator,
        };
        assert(r@.pool =~= Seq::empty());
        assert(r@.picks =~= Seq::empty());
        r
    }

    /// The catalog, in order of id.
    fn initialize_pool() -> (r: Vec<DraftItem>)
        ensures
            items_view(r@) == catalog(),
    {
        let mut v: Vec<DraftItem> = Vec::new();
        v.push(DraftItem { id: 1, name: String::from_str("Lightning Bolt"), power: 100 });
        v.push(DraftItem { id: 2, name: String::from_str("Counterspell"), power: 90 });
        v.push(DraftItem { id: 3, name: String::from_str("Giant Growth"), power: 80 });
        v.push(DraftItem { id: 4, name: String::from_str("Dark Ritual"), power: 85 });
        v.push(DraftItem { id: 5, name: String::from_str("Healing Salve"), power: 70 });
        v.push(DraftItem { id: 6, name: String::from_str("Ancestral Recall"), power: 95 });
        v.push(DraftItem { id: 7, name: String::from_str("Black Lotus"), power: 100 });
        v.push(DraftItem { id: 8, name: String::from_str("Mox Pearl"), power: 90 });
        v.push(DraftItem { id: 9, name: String::from_str("Time Walk"), power: 95 });
        v.push(DraftItem { id: 10, name: String::from_str("Swords to Plowshares"), power: 85 });
        v.push(DraftItem { id: 11, name: String::from_str("Force of Will"), power: 90 });
        v.push(DraftItem { id: 12, name: String::from_str("Brainstorm"), power: 75 });
        v.push(DraftItem { id: 13, name: String::from_str("Sol Ring"), power: 85 });
        v.push(DraftItem { id: 14, name: String::from_str("Path to Exile"), power: 80 });
        v.push(DraftItem { id: 15, name: String::from_str("Demonic Tutor"), power: 90 });
        assert(items_view(v@) =~= catalog());
        v
    }

    /// The player whose turn it is: forward through the roster in odd
    /// rounds, backward in even rounds; none while the roster is empty.
    pub fn current_player(&self) -> (r: Option<Owner>)
        ensures
            r == self@.current_player(),
    {
        let n = self.players.len();
        if n == 0 {
            return None;
        }
        let t = (self.current_turn as usize) % n;
        let index = if self.round % 2 == 1 {
            t
        } else {
            (n - 1) - t
        };
        Some(self.players[index])
    }

    /// The first index in the pool of an item with the given id.
    fn find_item(&self, item_id: u8) -> (r: Option<usize>)
        ensures
            match r {
                None => !has_item(self@.pool, item_id),
                Some(k) => is_first_position(self@.pool, item_id, k as int),
            },
    {
        let mut i: usize = 0;
        while i < self.pool.len()
            invariant
                i <= self.pool@.len(),
                forall|j: int| 0 <= j < i ==> self@.pool[j].id != item_id,
            decreases self.pool@.len() - i,
        {
            if self.pool[i].id == item_id {
                return Some(i);
            }
            i = i + 1;
        }
        None
    }

    /// Moves the turn on by one; after the last turn of a round the next
    /// round begins, and after the last round the draft is finished.
    fn advance_turn(&mut self)
        requires
            old(self).current_turn < 255,
            old(self).round < 255,
        ensures
            final(self)@ == old(self)@.advanced(),
    {
        self.current_turn = self.current_turn + 1;
        if self.current_turn as usize >= self.players.len() {
            self.current_turn = 0;
            self.round = self.round + 1;
            if self.round > self.max_rounds {
                self.status = DraftStatus::Finished;
            }
        }
    }

    /// Adds the caller to the roster, with an empty pick list.
    pub fn join_room(&mut self, caller: Option<Owner>) -> (r: Result<(), DraftRoomError>)
        requires
            old(self)@.wf(),
        ensures
            r == old(self)@.join_result(caller),
            final(self)@ == old(self)@.next(caller, DraftRoomOperation::JoinRoom),
            final(self)@.wf(),
    {
        proof {
            lemma_next_keeps_wf(self@, caller, DraftRoomOperation::JoinRoom);
        }
        let signer = match caller {
            Some(s) => s,
            None => return Err(DraftRoomError::AuthenticationRequired),
        };
        if self.status != DraftStatus::Waiting {
            return Err(DraftRoomError::NotWaiting);
        }
        if self.players.len() >= self.max_players as usize {
            return Err(DraftRoomError::RoomFull);
        }
        let mut i: usize = 0;
        while i < self.players.len()
            invariant
                i <= self.players@.len(),
                forall|j: int| 0 <= j < i ==> self.players@[j] != signer,
                self@ == old(self)@,
                self@.wf(),
                caller == Some(signer),
                old(self)@.status == DraftStatus::Waiting,
                old(self)@.players.len() < old(self)@.max_players,
            decreases self.players@.len() - i,
        {
            if self.players[i] == signer {
                proof {
                    assert(self@.players[i as int] == signer);
                }
                return Err(DraftRoomError::AlreadyJoined);
            }
            i = i + 1;
        }
        self.players.push(signer);
        let empty: Vec<DraftItem> = Vec::new();
        proof {
            assert(items_view(empty@) =~= Seq::<DraftItemView>::empty());
        }
        self.picks.push(empty);
        proof {
            assert(self@.players =~= old(self)@.players.push(signer));
            assert(self@.picks =~= old(self)@.picks.push(Seq::empty()));
        }
        Ok(())
    }

    /// Fills the pool from the catalog and opens the first round; only the
    /// creator may do so, and only while the room is waiting.
    pub fn start_draft(&mut self, caller: Option<Owner>) -> (r: Result<(), DraftRoomError>)
        requires
            old(self)@.wf(),
        ensures
            r == old(self)@.start_result(caller),
            final(self)@ == old(self)@.next(caller, DraftRoomOperation::StartDraft),
            final(self)@.wf(),
    {
        proof {
            lemma_next_keeps_wf(self@, caller, DraftRoomOperation::StartDraft);
        }
        let signer = match caller {
            Some(s) => s,
            None => return Err(DraftRoomError::AuthenticationRequired),
        };
        let is_creator = match self.creator {
            Some(c) => c == signer,
            None => false,
        };
        if !is_creator {
            return Err(DraftRoomError::NotCreator);
        }
        if self.status != DraftStatus::Waiting {
            return Err(DraftRoomError::NotWaiting);
        }
        self.pool = Self::initialize_pool();
        self.status = DraftStatus::Drafting;
        self.current_turn = 0;
        self.round = 1;
        Ok(())
    }

    /// Moves the item with the given id from the pool to the caller's pick
    /// list, when it is the caller's turn, and advances the turn.
    pub fn pick_item(&mut self, caller: Option<Owner>, item_id: u8) -> (r: Result<
        (),
        DraftRoomError,
    >)
        requires
            old(self)@.wf(),
        ensures
            r == old(self)@.pick_result(caller, item_id),
            final(self)@ == old(self)@.next(caller, DraftRoomOperation::PickItem { item_id }),
            final(self)@.wf(),
    {
        proof {
            lemma_next_keeps_wf(self@, caller, DraftRoomOperation::PickItem { item_id });
        }
        let signer = match caller {
            Some(s) => s,
            None => return Err(DraftRoomError::AuthenticationRequired),
        };
        if self.status != DraftStatus::Drafting {
            return Err(DraftRoomError::NotDrafting);
        }
        match self.current_player() {
            Some(p) => {
                if p != signer {
                    return Err(DraftRoomError::NotYourTurn);
                }
            },
            None => return Err(DraftRoomError::NotYourTurn),
        }
        let k = match self.find_item(item_id) {
            Some(k) => k,
            None => return Err(DraftRoomError::ItemNotFound),
        };
        let ghost m = self@;
        let n = self.players.len();
        let t = (self.current_turn as usize) % n;
        let a = if self.round % 2 == 1 {
            t
        } else {
            (n - 1) - t
        };
        proof {
            lemma_item_position(m.pool, item_id);
            assert(is_first_position(m.pool, item_id, item_position(m.pool, item_id)));
            assert(item_position(m.pool, item_id) == k);
        }
        let ghost old_picks = self.picks@;
        let item = self.pool.remove(k);
        self.picks[a].push(item);
        proof {
            let x = m.pool[k as int];
            assert(items_view(self.picks@[a as int]@) =~= m.picks[a as int].push(x));
            assert forall|i: int| 0 <= i < n && i != a implies self.picks@[i] == old_picks[i] by {}
            assert(self@.pool =~= m.pool.remove(k as int));
            assert(self@.picks =~= m.picks.update(a as int, m.picks[a as int].push(x)));
        }
        self.advance_turn();
        Ok(())
    }

    /// Confirms that the draft is over; changes nothing.
    pub fn finalize_draft(&self) -> (r: Result<(), DraftRoomError>)
        ensures
            r == self@.finalize_result(),
    {
        if self.status != DraftStatus::Finished {
            return Err(DraftRoomError::DraftNotFinished);
        }
        Ok(())
    }

    /// Applies one operation on behalf of the caller: the answer and the new
    /// state are those of `outcome` and `next`; a rejected operation changes
    /// nothing.
    pub fn execute_operation(&mut self, caller: Option<Owner>, operation: DraftRoomOperation) -> (r:
        Result<(), DraftRoomError>)
        requires
            old(self)@.wf(),
        ensures
            r == old(self)@.outcome(caller, operation),
            final(self)@ == old(self)@.next(caller, operation),
            final(self)@.wf(),
    {
        match operation {
            DraftRoomOperation::JoinRoom => self.join_room(caller),
            DraftRoomOperation::StartDraft => self.start_draft(caller),
            DraftRoomOperation::PickItem { item_id } => self.pick_item(caller, item_id),
            DraftRoomOperation::FinalizeDraft => self.finalize_draft(),
        }
    }
}

} // verus!
