//! The room cache: two partitions of live rooms over a storage backend.
use vstd::prelude::*;
use dashmap::DashMap;
use crate::error::StoreError;
use crate::room::{Room, RoomInfo, RoomModel, RoomType, Session};

verus! {

#[verifier::external_type_specification]
#[verifier::external_body]
#[verifier::reject_recursive_types(K)]
#[verifier::reject_recursive_types(V)]
#[verifier::reject_recursive_types(S)]
pub struct ExDashMap<K, V, S>(DashMap<K, V, S>);

/// A concurrent map of live rooms, by room id.
pub type RoomMap = DashMap<String, Room>;

/// The rooms that a concurrent room map holds, by room id.
pub uninterp spec fn room_map(m: RoomMap) -> Map<Seq<char>, Room>;

/// Relies on `DashMap::new`: a new map holds nothing.
#[verifier::external_body]
fn room_map_new() -> (r: RoomMap)
    ensures
        room_map(r).is_empty(),
{
    DashMap::new()
}

/// Relies on `DashMap::get`: a copy of the room stored under the key, if any.
#[verifier::external_body]
fn room_map_get(m: &RoomMap, k: &String) -> (r: Option<Room>)
    ensures
        r == (if room_map(*m).contains_key(k@) {
            Some(room_map(*m)[k@])
        } else {
            None
        }),
{
    m.get(k).map(|e| e.value().clone())
}

/// Relies on `DashMap::insert`: the key now maps to the room, other keys are
/// unchanged.
#[verifier::external_body]
fn room_map_insert(m: &mut RoomMap, k: String, v: Room)
    ensures
        room_map(*final(m)) == room_map(*old(m)).insert(k@, v),
{
    m.insert(k, v);
}

/// Relies on `DashMap::iter`: it visits every key of the map once.
#[verifier::external_body]
fn room_map_keys(m: &RoomMap) -> (r: Vec<String>)
    ensures
        forall|i: int| 0 <= i < r@.len() ==> room_map(*m).contains_key(#[trigger] r@[i]@),
        forall|k: Seq<char>|
            #[trigger] room_map(*m).contains_key(k) ==> exists|i: int|
                0 <= i < r@.len() && #[trigger] r@[i]@ == k,
        forall|i: int, j: int| 0 <= i < j < r@.len() ==> #[trigger] r@[i]@ != #[trigger] r@[j]@,
{
    m.iter().map(|e| e.key().clone()).collect()
}

/// The abstract rooms of a partition.
pub open spec fn partition_view(m: Map<Seq<char>, Room>) -> Map<Seq<char>, RoomModel> {
    m.map_values(|r: Room| r.view())
}

/// The abstract state of the cache.
pub struct StoreModel {
    /// The user of the installed session, if any.
    pub session_user: Option<Seq<char>>,
    pub sync_token: Option<Seq<char>>,
    /// Joined and left rooms, by id.
    pub rooms: Map<Seq<char>, RoomModel>,
    /// Invited rooms, by id.
    pub stripped: Map<Seq<char>, RoomModel>,
}

/// Each room of a partition is stored under its own id.
pub open spec fn keyed_by_id(m: Map<Seq<char>, RoomModel>) -> bool {
    forall|k: Seq<char>| #[trigger] m.contains_key(k) ==> m[k].room_id == k
}

impl StoreModel {
    pub open spec fn wf(self) -> bool {
        keyed_by_id(self.rooms) && keyed_by_id(self.stripped)
    }

    /// The room that a lookup by id resolves to: a joined or left room from the
    /// confirmed partition; a room recorded there as invited, or absent there,
    /// from the stripped partition.
    pub open spec fn resolve(self, id: Seq<char>) -> Option<RoomModel> {
        if self.rooms.contains_key(id) && self.rooms[id].room_type != RoomType::Invited {
            Some(self.rooms[id])
        } else if self.stripped.contains_key(id) {
            Some(self.stripped[id])
        } else {
            None
        }
    }

    /// Some id of the confirmed partition resolves to `room`.
    pub open spec fn resolves_to(self, room: RoomModel) -> bool {
        exists|k: Seq<char>| #[trigger] self.rooms.contains_key(k) && self.resolve(k) == Some(room)
    }

    /// Some id of the stripped partition holds `room`.
    pub open spec fn holds_stripped(self, room: RoomModel) -> bool {
        exists|k: Seq<char>| #[trigger] self.stripped.contains_key(k) && self.stripped[k] == room
    }

    /// The stripped room with the given id, if any.
    pub open spec fn resolve_stripped(self, id: Seq<char>) -> Option<RoomModel> {
        if self.stripped.contains_key(id) {
            Some(self.stripped[id])
        } else {
            None
        }
    }

    /// The cache after, and the room of, a lookup-or-create of `id` in category
    /// `t`; `None` when no session is installed.
    pub open spec fn get_or_create(self, id: Seq<char>, t: RoomType) -> Option<(StoreModel, RoomModel)> {
        match self.session_user {
            None => None,
            Some(user) => {
                let fresh = RoomModel { room_id: id, own_user_id: user, room_type: t };
                if t == RoomType::Invited {
                    if self.stripped.contains_key(id) {
                        Some((self, self.stripped[id]))
                    } else {
                        Some((StoreModel { stripped: self.stripped.insert(id, fresh), ..self }, fresh))
                    }
                } else {
                    if self.rooms.contains_key(id) {
                        Some((self, self.rooms[id]))
                    } else {
                        Some((StoreModel { rooms: self.rooms.insert(id, fresh), ..self }, fresh))
                    }
                }
            },
        }
    }
}

/// A partition after restoring rooms from `infos` in order, each for `user`.
pub open spec fn with_restored(
    m: Map<Seq<char>, RoomModel>,
    user: Seq<char>,
    infos: Seq<RoomInfo>,
) -> Map<Seq<char>, RoomModel>
    decreases infos.len(),
{
    if infos.len() == 0 {
        m
    } else {
        let last = infos.last();
        with_restored(m, user, infos.drop_last()).insert(
            last.room_id@,
            RoomModel { room_id: last.room_id@, own_user_id: user, room_type: last.room_type },
        )
    }
}

/// The cache of live rooms over a storage backend. Rooms are kept in two
/// partitions: confirmed (joined and left) and stripped (invited).
pub struct Store {
    session: Option<Session>,
    sync_token: Option<String>,
    rooms: RoomMap,
    stripped_rooms: RoomMap,
}

impl View for Store {
    type V = StoreModel;

    closed spec fn view(&self) -> StoreModel {
        StoreModel {
            session_user: match self.session {
                Some(s) => Some(s.user_id@),
                None => None,
            },
            sync_token: match self.sync_token {
                Some(t) => Some(t@),
                None => None,
            },
            rooms: partition_view(room_map(self.rooms)),
            stripped: partition_view(room_map(self.stripped_rooms)),
        }
    }
}

impl Store {
    /// The installed session.
    pub closed spec fn spec_session(&self) -> Option<Session> {
        self.session
    }

    /// An empty cache with no session.
    pub fn new() -> (r: Store)
        ensures
            r@.wf(),
            r@.session_user is None,
            r@.sync_token is None,
            r@.rooms.is_empty(),
            r@.stripped.is_empty(),
    {
        let r = Store {
            session: None,
            sync_token: None,
            rooms: room_map_new(),
            stripped_rooms: room_map_new(),
        };
        assert(r@.rooms =~= Map::empty());
        assert(r@.stripped =~= Map::empty());
        r
    }

    /// Installs `session` after materializing one room per persisted summary,
    /// confirmed rooms first, then stripped ones, and the persisted sync token.
    pub fn restore_session(
        &mut self,
        session: Session,
        room_infos: Vec<RoomInfo>,
        stripped_room_infos: Vec<RoomInfo>,
        sync_token: Option<String>,
    )
        requires
            old(self)@.wf(),
        ensures
            final(self)@.wf(),
            final(self).spec_session() == Some(session),
            final(self)@.session_user == Some(session.user_id@),
            final(self)@.sync_token == (match sync_token {
                Some(t) => Some(t@),
                None => None,
            }),
            final(self)@.rooms == with_restored(old(self)@.rooms, session.user_id@, room_infos@),
            final(self)@.stripped == with_restored(
                old(self)@.stripped,
                session.user_id@,
                stripped_room_infos@,
            ),
    {
        let ghost user = session.user_id@;
        let mut i: usize = 0;
        while i < room_infos.len()
            invariant
                0 <= i <= room_infos.len(),
                self@.wf(),
                self@.stripped == old(self)@.stripped,
                self@.rooms == with_restored(old(self)@.rooms, user, room_infos@.subrange(0, i as int)),
                user == session.user_id@,
            decreases room_infos.len() - i,
        {
            let room = Room::restore(&session.user_id, &room_infos[i]);
            let key = room_infos[i].room_id.clone();
            room_map_insert(&mut self.rooms, key, room);
            proof {
                let s = room_infos@.subrange(0, i + 1);
                assert(s.drop_last() =~= room_infos@.subrange(0, i as int));
                assert(s.last() == room_infos@[i as int]);
                assert(self@.rooms =~= with_restored(old(self)@.rooms, user, s));
            }
            i = i + 1;
        }
        assert(room_infos@.subrange(0, room_infos.len() as int) =~= room_infos@);
        let mut j: usize = 0;
        while j < stripped_room_infos.len()
            invariant
                0 <= j <= stripped_room_infos.len(),
                self@.wf(),
                self@.rooms == with_restored(old(self)@.rooms, user, room_infos@),
                self@.stripped == with_restored(
                    old(self)@.stripped,
                    user,
                    stripped_room_infos@.subrange(0, j as int),
                ),
                user == session.user_id@,
            decreases stripped_room_infos.len() - j,
        {
            let room = Room::restore(&session.user_id, &stripped_room_infos[j]);
            let key = stripped_room_infos[j].room_id.clone();
            room_map_insert(&mut self.stripped_rooms, key, room);
            proof {
                let s = stripped_room_infos@.subrange(0, j + 1);
                assert(s.drop_last() =~= stripped_room_infos@.subrange(0, j as int));
                assert(s.last() == stripped_room_infos@[j as int]);
                assert(self@.stripped =~= with_restored(old(self)@.stripped, user, s));
            }
            j = j + 1;
        }
        assert(stripped_room_infos@.subrange(0, stripped_room_infos.len() as int)
            =~= stripped_room_infos@);
        self.sync_token = sync_token;
        self.session = Some(session);
    }

    /// The sync token loaded with the session.
    pub fn sync_token(&self) -> (r: &Option<String>)
        ensures
            self@.sync_token == (match *r {
                Some(t) => Some(t@),
                None => None,
            }),
    {
        &self.sync_token
    }

    /// The installed session, if any.
    pub fn session(&self) -> (r: &Option<Session>)
        ensures
            *r == self.spec_session(),
    {
        &self.session
    }

    /// The stripped room with the given id.
    pub fn get_stripped_room(&self, room_id: &String) -> (r: Option<Room>)
        ensures
            match r {
                Some(room) => self@.resolve_stripped(room_id@) == Some(room.view()),
                None => self@.resolve_stripped(room_id@) is None,
            },
    {
        room_map_get(&self.stripped_rooms, room_id)
    }

    /// The room with the given id: a joined or left room from the confirmed
    /// partition, otherwise the room of the stripped partition.
    pub fn get_room(&self, room_id: &String) -> (r: Option<Room>)
        ensures
            match r {
                Some(room) => self@.resolve(room_id@) == Some(room.view()),
                None => self@.resolve(room_id@) is None,
            },
    {
        match room_map_get(&self.rooms, room_id) {
            Some(room) => {
                if room.room_type() == RoomType::Invited {
                    self.get_stripped_room(room_id)
                } else {
                    Some(room)
                }
            },
            None => self.get_stripped_room(room_id),
        }
    }

    /// The stripped room with the given id, created as an invited room of the
    /// installed session's user if it did not exist yet.
    pub fn get_or_create_stripped_room(&mut self, room_id: &String) -> (r: Result<Room, StoreError>)
        requires
            old(self)@.wf(),
        ensures
            final(self)@.wf(),
            final(self).spec_session() == old(self).spec_session(),
            match old(self)@.get_or_create(room_id@, RoomType::Invited) {
                None => r == Err::<Room, StoreError>(StoreError::NoActiveSession) && final(self)@
                    == old(self)@,
                Some((m, room)) => r is Ok && r->Ok_0.view() == room && final(self)@ == m,
            },
    {
        let user_id = match &self.session {
            None => return Err(StoreError::NoActiveSession),
            Some(s) => &s.user_id,
        };
        match room_map_get(&self.stripped_rooms, room_id) {
            Some(room) => Ok(room),
            None => {
                let room = Room::new(user_id, room_id, RoomType::Invited);
                let stored = Room::new(user_id, room_id, RoomType::Invited);
                room_map_insert(&mut self.stripped_rooms, room_id.clone(), stored);
                assert(self@.stripped =~= old(self)@.stripped.insert(room_id@, room.view()));
                Ok(room)
            },
        }
    }

    /// The room with the given id, created in category `room_type` for the
    /// installed session's user if it did not exist yet. Invited rooms live in
    /// the stripped partition.
    pub fn get_or_create_room(&mut self, room_id: &String, room_type: RoomType) -> (r: Result<
        Room,
        StoreError,
    >)
        requires
            old(self)@.wf(),
        ensures
            final(self)@.wf(),
            final(self).spec_session() == old(self).spec_session(),
            match old(self)@.get_or_create(room_id@, room_type) {
                None => r == Err::<Room, StoreError>(StoreError::NoActiveSession) && final(self)@
                    == old(self)@,
                Some((m, room)) => r is Ok && r->Ok_0.view() == room && final(self)@ == m,
            },
    {
        if room_type == RoomType::Invited {
            return self.get_or_create_stripped_room(room_id);
        }
        let user_id = match &self.session {
            None => return Err(StoreError::NoActiveSession),
            Some(s) => &s.user_id,
        };
        match room_map_get(&self.rooms, room_id) {
            Some(room) => Ok(room),
            None => {
                let room = Room::new(user_id, room_id, room_type);
                let stored = Room::new(user_id, room_id, room_type);
                room_map_insert(&mut self.rooms, room_id.clone(), stored);
                assert(self@.rooms =~= old(self)@.rooms.insert(room_id@, room.view()));
                Ok(room)
            },
        }
    }

    /// Every room that a lookup by id resolves to, for the ids of the confirmed
    /// partition; in no particular order.
    pub fn get_rooms(&self) -> (r: Vec<Room>)
        ensures
            forall|i: int| 0 <= i < r@.len() ==> self@.resolves_to(#[trigger] r@[i].view()),
            forall|k: Seq<char>|
                #[trigger] self@.rooms.contains_key(k) && self@.resolve(k) is Some ==> lists(
                    r@,
                    self@.resolve(k)->Some_0,
                ),
    {
        let keys = room_map_keys(&self.rooms);
        let mut out: Vec<Room> = Vec::new();
        let mut i: usize = 0;
        while i < keys.len()
            invariant
                0 <= i <= keys.len(),
                forall|j: int| 0 <= j < keys@.len() ==> room_map(self.rooms).contains_key(#[trigger] keys@[j]@),
                forall|k: Seq<char>|
                    #[trigger] room_map(self.rooms).contains_key(k) ==> exists|j: int|
                        0 <= j < keys@.len() && #[trigger] keys@[j]@ == k,
                forall|j: int| 0 <= j < out@.len() ==> self@.resolves_to(#[trigger] out@[j].view()),
                forall|j: int| 0 <= j < i ==> listed_if_resolved(self@, out@, #[trigger] keys@[j]@),
            decreases keys.len() - i,
        {
            let ghost before = out@;
            let found = self.get_room(&keys[i]);
            match found {
                Some(room) => {
                    let ghost k = keys@[i as int]@;
                    out.push(room);
                    proof {
                        assert(self@.rooms.contains_key(k));
                        assert(out@[out@.len() - 1] == room);
                        assert forall|j: int| 0 <= j < out@.len() implies self@.resolves_to(
                            #[trigger] out@[j].view(),
                        ) by {
                            if j < out@.len() - 1 {
                                assert(out@[j] == before[j]);
                            }
                        }
                        assert forall|j: int| 0 <= j < i + 1 implies listed_if_resolved(
                            self@,
                            out@,
                            #[trigger] keys@[j]@,
                        ) by {
                            if j < i {
                                assert(listed_if_resolved(self@, before, keys@[j]@));
                                if self@.resolve(keys@[j]@) is Some {
                                    let n = choose|n: int|
                                        0 <= n < before.len() && (#[trigger] before[n]).view()
                                            == self@.resolve(keys@[j]@)->Some_0;
                                    assert(out@[n] == before[n]);
                                }
                            } else {
                                assert(out@[out@.len() - 1].view() == self@.resolve(keys@[j]@)->Some_0);
                            }
                        }
                    }
                },
                None => {
                    proof {
                        assert forall|j: int| 0 <= j < i + 1 implies listed_if_resolved(
                            self@,
                            out@,
                            #[trigger] keys@[j]@,
                        ) by {}
                    }
                },
            }
            i = i + 1;
        }
        proof {
            assert forall|k: Seq<char>|
                #[trigger] self@.rooms.contains_key(k) && self@.resolve(k) is Some implies lists(
                out@,
                self@.resolve(k)->Some_0,
            ) by {
                assert(room_map(self.rooms).contains_key(k));
                let j = choose|j: int| 0 <= j < keys@.len() && #[trigger] keys@[j]@ == k;
                assert(listed_if_resolved(self@, out@, keys@[j]@));
            }
        }
        out
    }

    /// Every room of the stripped partition; in no particular order.
    pub fn get_stripped_rooms(&self) -> (r: Vec<Room>)
        ensures
            forall|i: int| 0 <= i < r@.len() ==> self@.holds_stripped(#[trigger] r@[i].view()),
            forall|k: Seq<char>| #[trigger] self@.stripped.contains_key(k) ==> lists(r@, self@.stripped[k]),
    {
        let keys = room_map_keys(&self.stripped_rooms);
        let mut out: Vec<Room> = Vec::new();
        let mut i: usize = 0;
        while i < keys.len()
            invariant
                0 <= i <= keys.len(),
                forall|j: int| 0 <= j < keys@.len() ==> room_map(self.stripped_rooms).contains_key(#[trigger] keys@[j]@),
                forall|k: Seq<char>|
                    #[trigger] room_map(self.stripped_rooms).contains_key(k) ==> exists|j: int|
                        0 <= j < keys@.len() && #[trigger] keys@[j]@ == k,
                forall|j: int| 0 <= j < out@.len() ==> self@.holds_stripped(#[trigger] out@[j].view()),
                forall|j: int|
                    0 <= j < i ==> lists(out@, self@.stripped[(#[trigger] keys@[j])@]),
            decreases keys.len() - i,
        {
            let ghost before = out@;
            let ghost k = keys@[i as int]@;
            let found = self.get_stripped_room(&keys[i]);
            match found {
                Some(room) => {
                    out.push(room);
                    proof {
                        assert(self@.stripped.contains_key(k));
                        assert(out@[out@.len() - 1] == room);
                        assert forall|j: int| 0 <= j < out@.len() implies self@.holds_stripped(
                            #[trigger] out@[j].view(),
                        ) by {
                            if j < out@.len() - 1 {
                                assert(out@[j] == before[j]);
                            }
                        }
                        assert forall|j: int|
                            0 <= j < i + 1 implies lists(out@, self@.stripped[(#[trigger] keys@[j])@]) by {
                            if j < i {
                                let n = choose|n: int|
                                    0 <= n < before.len() && (#[trigger] before[n]).view() == self@.stripped[keys@[j]@];
                                assert(out@[n] == before[n]);
                            } else {
                                assert(out@[out@.len() - 1].view() == self@.stripped[keys@[j]@]);
                            }
                        }
                    }
                },
                None => {
                    assert(false);
                },
            }
            i = i + 1;
        }
        proof {
            assert forall|k: Seq<char>| #[trigger] self@.stripped.contains_key(k) implies lists(
                out@,
                self@.stripped[k],
            ) by {
                assert(room_map(self.stripped_rooms).contains_key(k));
                let j = choose|j: int| 0 <= j < keys@.len() && #[trigger] keys@[j]@ == k;
                assert(lists(out@, self@.stripped[keys@[j]@]));
            }
        }
        out
    }
}

/// Where the id resolves, the room it resolves to is in the list.
pub open spec fn listed_if_resolved(m: StoreModel, rooms: Seq<Room>, id: Seq<char>) -> bool {
    m.resolve(id) is Some ==> lists(rooms, m.resolve(id)->Some_0)
}

/// Some room of the list has the given abstract value.
pub open spec fn lists(rooms: Seq<Room>, room: RoomModel) -> bool {
    exists|n: int| 0 <= n < rooms.len() && (#[trigger] rooms[n]).view() == room
}

/// Asking twice to look up or create the same room in the same category
/// yields the same room, and the second request changes nothing.
pub proof fn lemma_get_or_create_twice(m: StoreModel, id: Seq<char>, t: RoomType)
    requires
        m.get_or_create(id, t) is Some,
    ensures
        ({
            let (m1, room1) = m.get_or_create(id, t)->Some_0;
            m1.get_or_create(id, t) == Some((m1, room1))
        }),
{
    let (m1, room1) = m.get_or_create(id, t)->Some_0;
    if t == RoomType::Invited {
        assert(m1.stripped.contains_key(id));
    } else {
        assert(m1.rooms.contains_key(id));
    }
}

/// A lookup of a room that the confirmed partition records as invited goes to
/// the stripped partition, whatever the confirmed entry holds.
pub proof fn lemma_invited_resolves_stripped(m: StoreModel, id: Seq<char>)
    requires
        m.rooms.contains_key(id),
        m.rooms[id].room_type == RoomType::Invited,
    ensures
        m.resolve(id) == m.resolve_stripped(id),
{
}

/// With no session installed, no room can be looked up or created.
pub proof fn lemma_no_session_no_room(m: StoreModel, id: Seq<char>, t: RoomType)
    requires
        m.session_user is None,
    ensures
        m.get_or_create(id, t) is None,
{
}

} // verus!
