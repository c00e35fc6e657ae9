//! The lobby: it validates requests for new rooms and keeps the metadata of
//! every room created, keyed by the room instance's identifier.
use vstd::prelude::*;
use vstd::string::StrSliceExecFns;
use vstd::string::StringExecFns;

use crate::draft_room::DraftStatus;
use crate::hex::hex_of;
use crate::ids::{ChainId, Owner};

verus! {

/// Fewest players a room may be created for.
pub const MIN_PLAYERS: u8 = 2;

/// Most players a room may be created for.
pub const MAX_PLAYERS: u8 = 8;

/// Draft room status, as the lobby records it.
#[derive(Clone, Copy, Debug, PartialEq, Eq, Structural)]
pub enum RoomStatus {
    Waiting,
    Drafting,
    Finished,
}

/// The lobby's status for a room's own status.
pub open spec fn room_status_of(status: DraftStatus) -> RoomStatus {
    match status {
        DraftStatus::Waiting => RoomStatus::Waiting,
        DraftStatus::Drafting => RoomStatus::Drafting,
        DraftStatus::Finished => RoomStatus::Finished,
    }
}

impl From<DraftStatus> for RoomStatus {
    fn from(status: DraftStatus) -> (r: RoomStatus) {
        match status {
            DraftStatus::Waiting => RoomStatus::Waiting,
            DraftStatus::Drafting => RoomStatus::Drafting,
            DraftStatus::Finished => RoomStatus::Finished,
        }
    }
}

impl vstd::std_specs::convert::FromSpecImpl<DraftStatus> for RoomStatus {
    open spec fn obeys_from_spec() -> bool {
        true
    }

    open spec fn from_spec(status: DraftStatus) -> RoomStatus {
        room_status_of(status)
    }
}

/// The name of a status, as text.
pub open spec fn status_name(status: RoomStatus) -> Seq<char> {
    match status {
        RoomStatus::Waiting => "Waiting"@,
        RoomStatus::Drafting => "Drafting"@,
        RoomStatus::Finished => "Finished"@,
    }
}

impl RoomStatus {
    /// The status's name: `Waiting`, `Drafting` or `Finished`.
    pub fn name(&self) -> (r: String)
        ensures
            r@ == status_name(*self),
    {
        match self {
            RoomStatus::Waiting => String::from_str("Waiting"),
            RoomStatus::Drafting => String::from_str("Drafting"),
            RoomStatus::Finished => String::from_str("Finished"),
        }
    }
}

/// Metadata for a draft room.
#[derive(Debug)]
pub struct DraftRoomMetadata {
    pub room_name: String,
    pub max_players: u8,
    pub status: RoomStatus,
}

/// What room metadata holds, as plain values.
pub struct RoomMetadataView {
    pub room_name: Seq<char>,
    pub max_players: u8,
    pub status: RoomStatus,
}

impl View for DraftRoomMetadata {
    type V = RoomMetadataView;

    open spec fn view(&self) -> RoomMetadataView {
        RoomMetadataView {
            room_name: self.room_name@,
            max_players: self.max_players,
            status: self.status,
        }
    }
}

/// The kind of instance to run, with what it is created for.
#[derive(Clone, Copy, Debug, PartialEq, Eq, Structural)]
pub enum ContractParameters {
    Lobby,
    DraftRoom { max_players: u8 },
}

impl DraftRoomMetadata {
    /// The parameters of the room instance that these metadata describe.
    pub fn parameters(&self) -> (r: ContractParameters)
        ensures
            r == (ContractParameters::DraftRoom { max_players: self.max_players }),
    {
        ContractParameters::DraftRoom { max_players: self.max_players }
    }
}

/// Operations that the lobby accepts.
#[derive(Debug)]
pub enum LobbyOperation {
    CreateRoom { room_name: String, max_players: u8 },
}

/// Why the lobby rejected an operation.
#[derive(Clone, Copy, Debug, PartialEq, Eq, Structural)]
pub enum LobbyError {
    InvalidRoomName,
    InvalidCapacity,
    AuthenticationRequired,
}

/// Whether a character has the Unicode White_Space property.
pub open spec fn is_white_space(c: char) -> bool {
    let v = c as u32;
    ||| 0x9 <= v <= 0xd
    ||| v == 0x20
    ||| v == 0x85
    ||| v == 0xa0
    ||| v == 0x1680
    ||| 0x2000 <= v <= 0x200a
    ||| v == 0x2028
    ||| v == 0x2029
    ||| v == 0x202f
    ||| v == 0x205f
    ||| v == 0x3000
}

/// Whether a character has the Unicode White_Space property.
pub fn is_white_space_char(c: char) -> (r: bool)
    ensures
        r == is_white_space(c),
{
    let v = c as u32;
    (0x9 <= v && v <= 0xd) || v == 0x20 || v == 0x85 || v == 0xa0 || v == 0x1680 || (0x2000 <= v
        && v <= 0x200a) || v == 0x2028 || v == 0x2029 || v == 0x202f || v == 0x205f || v == 0x3000
}

/// Whether text is empty once white space is trimmed from both ends, that
/// is, whether every character is white space.
pub open spec fn is_blank(s: Seq<char>) -> bool {
    forall|i: int| 0 <= i < s.len() ==> #[trigger] is_white_space(s[i])
}

/// Whether every character of `s` is white space.
pub fn is_blank_str(s: &str) -> (r: bool)
    ensures
        r == is_blank(s@),
{
    let n = s.unicode_len();
    let mut i: usize = 0;
    while i < n
        invariant
            n == s@.len(),
            i <= n,
            forall|j: int| 0 <= j < i ==> #[trigger] is_white_space(s@[j]),
        decreases n - i,
    {
        if !is_white_space_char(s.get_char(i)) {
            return false;
        }
        i = i + 1;
    }
    true
}

/// The answer to `CreateRoom`: the name must hold more than white space, the
/// capacity must be between `MIN_PLAYERS` and `MAX_PLAYERS`, and the caller
/// must be identified, checked in that order.
pub open spec fn create_room_result(room_name: Seq<char>, max_players: u8, caller: Option<Owner>) -> Result<
    (),
    LobbyError,
> {
    if is_blank(room_name) {
        Err(LobbyError::InvalidRoomName)
    } else if max_players < MIN_PLAYERS || max_players > MAX_PLAYERS {
        Err(LobbyError::InvalidCapacity)
    } else if caller is None {
        Err(LobbyError::AuthenticationRequired)
    } else {
        Ok(())
    }
}

/// The map that a list of entries with distinct keys writes.
pub open spec fn entries_map(entries: Seq<(ChainId, RoomMetadataView)>) -> Map<
    ChainId,
    RoomMetadataView,
>
    decreases entries.len(),
{
    if entries.len() == 0 {
        Map::empty()
    } else {
        entries_map(entries.drop_last()).insert(entries.last().0, entries.last().1)
    }
}

/// Whether no two entries share a key.
pub open spec fn keys_distinct(entries: Seq<(ChainId, RoomMetadataView)>) -> bool {
    forall|i: int, j: int|
        0 <= i < j < entries.len() ==> #[trigger] entries[i].0 != #[trigger] entries[j].0
}

proof fn lemma_entries_map_update(
    entries: Seq<(ChainId, RoomMetadataView)>,
    i: int,
    v: RoomMetadataView,
)
    requires
        0 <= i < entries.len(),
        keys_distinct(entries),
    ensures
        entries_map(entries.update(i, (entries[i].0, v))) == entries_map(entries).insert(
            entries[i].0,
            v,
        ),
    decreases entries.len(),
{
    let k = entries[i].0;
    let e2 = entries.update(i, (k, v));
    if i == entries.len() - 1 {
        assert(e2.drop_last() =~= entries.drop_last());
        assert(entries_map(e2) =~= entries_map(entries).insert(k, v));
    } else {
        lemma_entries_map_update(entries.drop_last(), i, v);
        assert(e2.drop_last() =~= entries.drop_last().update(i, (k, v)));
        assert(entries.last().0 != k);
        assert(entries_map(e2) =~= entries_map(entries).insert(k, v));
    }
}

proof fn lemma_entries_map_lacks(entries: Seq<(ChainId, RoomMetadataView)>, k: ChainId)
    requires
        forall|j: int| 0 <= j < entries.len() ==> #[trigger] entries[j].0 != k,
    ensures
        !entries_map(entries).contains_key(k),
    decreases entries.len(),
{
    if entries.len() > 0 {
        lemma_entries_map_lacks(entries.drop_last(), k);
    }
}

/// Room data as the lobby's room listing gives it.
#[derive(Debug)]
pub struct RoomData {
    pub chain_id: String,
    pub room_name: String,
    pub max_players: u8,
    pub status: String,
}

/// Whether `d` lists the room of entry `e`: its instance in hexadecimal,
/// its name, capacity and status name.
pub open spec fn lists_room(d: RoomData, e: (ChainId, DraftRoomMetadata)) -> bool {
    &&& d.chain_id@ == hex_of(e.0.bytes@)
    &&& d.room_name@ == e.1.room_name@
    &&& d.max_players == e.1.max_players
    &&& d.status@ == status_name(e.1.status)
}

/// The lobby: the metadata of every room it created.
pub struct Lobby {
    /// One entry per room, keyed by the room's instance; no key twice.
    pub rooms: Vec<(ChainId, DraftRoomMetadata)>,
}

impl Lobby {
    /// The entries, as plain values.
    pub open spec fn entries(&self) -> Seq<(ChainId, RoomMetadataView)> {
        self.rooms@.map_values(|e: (ChainId, DraftRoomMetadata)| (e.0, e.1@))
    }

    /// The well-formedness of the lobby: no room is recorded twice.
    pub open spec fn wf(&self) -> bool {
        keys_distinct(self.entries())
    }

    /// The rooms, keyed by instance.
    pub open spec fn rooms_map(&self) -> Map<ChainId, RoomMetadataView> {
        entries_map(self.entries())
    }

    /// A lobby with no rooms.
    pub fn new() -> (r: Lobby)
        ensures
            r.wf(),
            r.rooms_map() == Map::<ChainId, RoomMetadataView>::empty(),
    {
        let r = Lobby { rooms: Vec::new() };
        assert(r.entries() =~= Seq::empty());
        r
    }

    /// Checks a `CreateRoom` request. When it is accepted, the answer is the
    /// metadata of the new room, in the waiting state; the host then opens an
    /// instance with `parameters()` of those metadata and records it with
    /// `record_room`. The lobby itself does not change.
    pub fn execute_operation(&self, caller: Option<Owner>, operation: LobbyOperation) -> (r: Result<
        DraftRoomMetadata,
        LobbyError,
    >)
        ensures
            match operation {
                LobbyOperation::CreateRoom { room_name, max_players } => {
                    &&& (r is Ok) == (create_room_result(room_name@, max_players, caller) is Ok)
                    &&& r matches Err(e) ==> Err::<(), LobbyError>(e) == create_room_result(
                        room_name@,
                        max_players,
                        caller,
                    )
                    &&& r matches Ok(m) ==> m@ == (RoomMetadataView {
                        room_name: room_name@,
                        max_players,
                        status: RoomStatus::Waiting,
                    })
                },
            },
    {
        match operation {
            LobbyOperation::CreateRoom { room_name, max_players } => {
                if is_blank_str(room_name.as_str()) {
                    return Err(LobbyError::InvalidRoomName);
                }
                if max_players < MIN_PLAYERS || max_players > MAX_PLAYERS {
                    return Err(LobbyError::InvalidCapacity);
                }
                if caller.is_none() {
                    return Err(LobbyError::AuthenticationRequired);
                }
                Ok(DraftRoomMetadata { room_name, max_players, status: RoomStatus::Waiting })
            },
        }
    }

    /// Records the metadata of a room under its instance's identifier.
    pub fn record_room(&mut self, chain_id: ChainId, metadata: DraftRoomMetadata)
        requires
            old(self).wf(),
        ensures
            final(self).wf(),
            final(self).rooms_map() == old(self).rooms_map().insert(chain_id, metadata@),
    {
        let ghost meta = metadata@;
        let mut i: usize = 0;
        while i < self.rooms.len()
            invariant
                i <= self.rooms@.len(),
                forall|j: int| 0 <= j < i ==> #[trigger] self.rooms@[j].0 != chain_id,
                self == old(self),
                self.wf(),
                meta == metadata@,
            decreases self.rooms@.len() - i,
        {
            if self.rooms[i].0 == chain_id {
                let ghost before = self.entries();
                let ghost old_rooms = self.rooms@;
                proof {
                    lemma_entries_map_update(before, i as int, meta);
                }
                self.rooms[i] = (chain_id, metadata);
                proof {
                    assert(self.rooms@[i as int].1@ == meta);
                    assert forall|j: int| 0 <= j < self.rooms@.len() && j != i implies self.rooms@[j]
                        == old_rooms[j] by {}
                    assert(self.entries() =~= before.update(i as int, (chain_id, meta)));
                }
                return;
            }
            i = i + 1;
        }
        let ghost before = self.entries();
        proof {
            lemma_entries_map_lacks(before, chain_id);
        }
        self.rooms.push((chain_id, metadata));
        proof {
            assert(self.entries() =~= before.push((chain_id, meta)));
            assert(self.entries().drop_last() =~= before);
        }
    }

    /// The rooms as the listing gives them: each instance's identifier in
    /// hexadecimal, with its name, capacity and status name, in the order in
    /// which they were recorded.
    pub fn room_list(&self) -> (r: Vec<RoomData>)
        ensures
            r@.len() == self.rooms@.len(),
            forall|i: int| 0 <= i < r@.len() ==> lists_room(#[trigger] r@[i], self.rooms@[i]),
    {
        let mut out: Vec<RoomData> = Vec::new();
        let mut i: usize = 0;
        while i < self.rooms.len()
            invariant
                i <= self.rooms@.len(),
                out@.len() == i,
                forall|j: int| 0 <= j < i ==> lists_room(#[trigger] out@[j], self.rooms@[j]),
            decreases self.rooms@.len() - i,
        {
            let entry = &self.rooms[i];
            let data = RoomData {
                chain_id: entry.0.to_hex_string(),
                room_name: entry.1.room_name.clone(),
                max_players: entry.1.max_players,
                status: entry.1.status.name(),
            };
            assert(lists_room(data, self.rooms@[i as int]));
            out.push(data);
            i = i + 1;
        }
        out
    }
}

} // verus!
