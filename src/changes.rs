//! One batch of incremental state changes, handed whole to a backend.
use vstd::prelude::*;
use crate::keyed::{UpsertMap, key_view};
use crate::room::RoomInfo;

verus! {

/// What the cache reads of a presence event: who sent it.
#[derive(Clone, Debug)]
pub struct PresenceEvent {
    pub sender: String,
}

/// What the cache reads of an account-data event: its type.
#[derive(Clone, Debug)]
pub struct AccountDataEvent {
    pub event_type: String,
}

/// What the cache reads of a state event: its type and state key.
#[derive(Clone, Debug)]
pub struct SyncStateEvent {
    pub event_type: String,
    pub state_key: String,
}

/// A membership event of a room seen only in preview.
#[derive(Clone, Debug)]
pub struct StrippedMemberEvent {
    /// The user whose membership this is.
    pub state_key: String,
    /// The serialized event.
    pub raw: String,
}

/// A window of a room's timeline.
#[derive(Clone, Debug)]
pub struct TimelineSlice {
    pub start: String,
    pub end: Option<String>,
    pub limited: bool,
    /// The serialized events, oldest first.
    pub events: Vec<String>,
}

/// The key path of one string.
fn key1(a: &String) -> (r: Vec<String>)
    ensures
        key_view(r@) == seq![a@],
{
    let mut r: Vec<String> = Vec::new();
    r.push(a.clone());
    assert(key_view(r@) =~= seq![a@]);
    r
}

/// The key path of two strings.
fn key2(a: &String, b: &String) -> (r: Vec<String>)
    ensures
        key_view(r@) == seq![a@, b@],
{
    let mut r: Vec<String> = Vec::new();
    r.push(a.clone());
    r.push(b.clone());
    assert(key_view(r@) =~= seq![a@, b@]);
    r
}

/// The key path of three strings.
fn key3(a: &String, b: &String, c: &String) -> (r: Vec<String>)
    ensures
        key_view(r@) == seq![a@, b@, c@],
{
    let mut r: Vec<String> = Vec::new();
    r.push(a.clone());
    r.push(b.clone());
    r.push(c.clone());
    assert(key_view(r@) =~= seq![a@, b@, c@]);
    r
}

/// A copy of a list of strings.
fn copy_strings(v: &Vec<String>) -> (r: Vec<String>)
    ensures
        r@ == v@,
{
    let mut r: Vec<String> = Vec::new();
    let mut i: usize = 0;
    while i < v.len()
        invariant
            0 <= i <= v.len(),
            r@ == v@.subrange(0, i as int),
        decreases v.len() - i,
    {
        r.push(v[i].clone());
        i = i + 1;
        assert(r@ =~= v@.subrange(0, i as int));
    }
    assert(v@.subrange(0, v.len() as int) =~= v@);
    r
}

/// The changes of one sync cycle, keyed by the natural identity of each
/// payload. Within one batch a later write to a key replaces an earlier one.
#[derive(Debug)]
pub struct StateChanges {
    sync_token: Option<String>,
    /// Global account data: event type to serialized event.
    account_data: UpsertMap<String>,
    /// Presence: user id to serialized event.
    presence: UpsertMap<String>,
    /// State: room id, event type, state key to serialized event.
    state: UpsertMap<String>,
    /// Room account data: room id, event type to serialized event.
    room_account_data: UpsertMap<String>,
    /// Room summaries of joined and left rooms, by room id.
    room_infos: UpsertMap<RoomInfo>,
    /// Serialized receipts, by room id.
    receipts: UpsertMap<String>,
    /// Room summaries of invited rooms, by room id.
    stripped_room_infos: UpsertMap<RoomInfo>,
    /// Preview memberships: room id, user id to event.
    stripped_members: UpsertMap<StrippedMemberEvent>,
    /// Serialized notifications in arrival order, by room id.
    notifications: UpsertMap<Vec<String>>,
    /// Timeline windows, by room id.
    timeline: UpsertMap<TimelineSlice>,
}

impl StateChanges {
    pub closed spec fn wf(&self) -> bool {
        &&& self.account_data.wf()
        &&& self.presence.wf()
        &&& self.state.wf()
        &&& self.room_account_data.wf()
        &&& self.room_infos.wf()
        &&& self.receipts.wf()
        &&& self.stripped_room_infos.wf()
        &&& self.stripped_members.wf()
        &&& self.notifications.wf()
        &&& self.timeline.wf()
    }

    pub closed spec fn spec_sync_token(&self) -> Option<String> {
        self.sync_token
    }

    pub closed spec fn spec_account_data(&self) -> Map<Seq<Seq<char>>, String> {
        self.account_data.view()
    }

    pub closed spec fn spec_presence(&self) -> Map<Seq<Seq<char>>, String> {
        self.presence.view()
    }

    pub closed spec fn spec_state(&self) -> Map<Seq<Seq<char>>, String> {
        self.state.view()
    }

    pub closed spec fn spec_room_account_data(&self) -> Map<Seq<Seq<char>>, String> {
        self.room_account_data.view()
    }

    pub closed spec fn spec_room_infos(&self) -> Map<Seq<Seq<char>>, RoomInfo> {
        self.room_infos.view()
    }

    pub closed spec fn spec_receipts(&self) -> Map<Seq<Seq<char>>, String> {
        self.receipts.view()
    }

    pub closed spec fn spec_stripped_room_infos(&self) -> Map<Seq<Seq<char>>, RoomInfo> {
        self.stripped_room_infos.view()
    }

    pub closed spec fn spec_stripped_members(&self) -> Map<Seq<Seq<char>>, StrippedMemberEvent> {
        self.stripped_members.view()
    }

    pub closed spec fn spec_notifications(&self) -> Map<Seq<Seq<char>>, Vec<String>> {
        self.notifications.view()
    }

    pub closed spec fn spec_timeline(&self) -> Map<Seq<Seq<char>>, TimelineSlice> {
        self.timeline.view()
    }

    /// Every map but `which` is as in `other`; `which` names the map that
    /// may differ (0 when none may).
    pub open spec fn same_except(&self, other: &StateChanges, which: int) -> bool {
        &&& self.spec_sync_token() == other.spec_sync_token()
        &&& (which != 1 ==> self.spec_account_data() == other.spec_account_data())
        &&& (which != 2 ==> self.spec_presence() == other.spec_presence())
        &&& (which != 3 ==> self.spec_state() == other.spec_state())
        &&& (which != 4 ==> self.spec_room_account_data() == other.spec_room_account_data())
        &&& (which != 5 ==> self.spec_room_infos() == other.spec_room_infos())
        &&& (which != 6 ==> self.spec_receipts() == other.spec_receipts())
        &&& (which != 7 ==> self.spec_stripped_room_infos() == other.spec_stripped_room_infos())
        &&& (which != 8 ==> self.spec_stripped_members() == other.spec_stripped_members())
        &&& (which != 9 ==> self.spec_notifications() == other.spec_notifications())
        &&& (which != 10 ==> self.spec_timeline() == other.spec_timeline())
    }

    /// An empty batch for the given sync token.
    pub fn new(sync_token: String) -> (r: Self)
        ensures
            r.wf(),
            r.spec_sync_token() == Some(sync_token),
            r.spec_account_data().is_empty(),
            r.spec_presence().is_empty(),
            r.spec_state().is_empty(),
            r.spec_room_account_data().is_empty(),
            r.spec_room_infos().is_empty(),
            r.spec_receipts().is_empty(),
            r.spec_stripped_room_infos().is_empty(),
            r.spec_stripped_members().is_empty(),
            r.spec_notifications().is_empty(),
            r.spec_timeline().is_empty(),
    {
        StateChanges {
            sync_token: Some(sync_token),
            account_data: UpsertMap::new(),
            presence: UpsertMap::new(),
            state: UpsertMap::new(),
            room_account_data: UpsertMap::new(),
            room_infos: UpsertMap::new(),
            receipts: UpsertMap::new(),
            stripped_room_infos: UpsertMap::new(),
            stripped_members: UpsertMap::new(),
            notifications: UpsertMap::new(),
            timeline: UpsertMap::new(),
        }
    }

    /// Records a presence event under its sender.
    pub fn add_presence_event(&mut self, event: PresenceEvent, raw_event: String)
        requires
            old(self).wf(),
        ensures
            final(self).wf(),
            final(self).same_except(old(self), 2),
            final(self).spec_presence() == old(self).spec_presence().insert(
                seq![event.sender@],
                raw_event,
            ),
    {
        self.presence.upsert(key1(&event.sender), raw_event);
    }

    /// Records the summary of a joined or left room under its id.
    pub fn add_room(&mut self, room: RoomInfo)
        requires
            old(self).wf(),
        ensures
            final(self).wf(),
            final(self).same_except(old(self), 5),
            final(self).spec_room_infos() == old(self).spec_room_infos().insert(
                seq![room.room_id@],
                room,
            ),
    {
        let k = key1(&room.room_id);
        self.room_infos.upsert(k, room);
    }

    /// Records the summary of an invited room under its id.
    pub fn add_stripped_room(&mut self, room: RoomInfo)
        requires
            old(self).wf(),
        ensures
            final(self).wf(),
            final(self).same_except(old(self), 7),
            final(self).spec_stripped_room_infos() == old(self).spec_stripped_room_infos().insert(
                seq![room.room_id@],
                room,
            ),
    {
        let k = key1(&room.room_id);
        self.stripped_room_infos.upsert(k, room);
    }

    /// Records a global account-data event under its type.
    pub fn add_account_data(&mut self, event: AccountDataEvent, raw_event: String)
        requires
            old(self).wf(),
        ensures
            final(self).wf(),
            final(self).same_except(old(self), 1),
            final(self).spec_account_data() == old(self).spec_account_data().insert(
                seq![event.event_type@],
                raw_event,
            ),
    {
        self.account_data.upsert(key1(&event.event_type), raw_event);
    }

    /// Records a room account-data event under its room and type.
    pub fn add_room_account_data(
        &mut self,
        room_id: &String,
        event: AccountDataEvent,
        raw_event: String,
    )
        requires
            old(self).wf(),
        ensures
            final(self).wf(),
            final(self).same_except(old(self), 4),
            final(self).spec_room_account_data() == old(self).spec_room_account_data().insert(
                seq![room_id@, event.event_type@],
                raw_event,
            ),
    {
        self.room_account_data.upsert(key2(room_id, &event.event_type), raw_event);
    }

    /// Records a preview membership under its room and user.
    pub fn add_stripped_member(&mut self, room_id: &String, event: StrippedMemberEvent)
        requires
            old(self).wf(),
        ensures
            final(self).wf(),
            final(self).same_except(old(self), 8),
            final(self).spec_stripped_members() == old(self).spec_stripped_members().insert(
                seq![room_id@, event.state_key@],
                event,
            ),
    {
        let k = key2(room_id, &event.state_key);
        self.stripped_members.upsert(k, event);
    }

    /// Records a state event under its room, type and state key.
    pub fn add_state_event(&mut self, room_id: &String, event: SyncStateEvent, raw_event: String)
        requires
            old(self).wf(),
        ensures
            final(self).wf(),
            final(self).same_except(old(self), 3),
            final(self).spec_state() == old(self).spec_state().insert(
                seq![room_id@, event.event_type@, event.state_key@],
                raw_event,
            ),
    {
        self.state.upsert(key3(room_id, &event.event_type, &event.state_key), raw_event);
    }

    /// Appends a notification to those of its room.
    pub fn add_notification(&mut self, room_id: &String, notification: String)
        requires
            old(self).wf(),
        ensures
            final(self).wf(),
            final(self).same_except(old(self), 9),
            final(self).spec_notifications().dom() == old(self).spec_notifications().dom().insert(
                seq![room_id@],
            ),
            forall|k: Seq<Seq<char>>|
                k != seq![room_id@] && #[trigger] old(self).spec_notifications().contains_key(k)
                    ==> final(self).spec_notifications()[k] == old(self).spec_notifications()[k],
            final(self).spec_notifications()[seq![room_id@]]@ == (if old(
                self,
            ).spec_notifications().contains_key(seq![room_id@]) {
                old(self).spec_notifications()[seq![room_id@]]@
            } else {
                Seq::<String>::empty()
            }).push(notification),
    {
        let k = key1(room_id);
        let mut list = match self.notifications.get(&k) {
            Some(v) => copy_strings(v),
            None => Vec::new(),
        };
        list.push(notification);
        self.notifications.upsert(k, list);
    }

    /// Records the receipts of a room, replacing earlier ones of this batch.
    pub fn add_receipts(&mut self, room_id: &String, event: String)
        requires
            old(self).wf(),
        ensures
            final(self).wf(),
            final(self).same_except(old(self), 6),
            final(self).spec_receipts() == old(self).spec_receipts().insert(seq![room_id@], event),
    {
        self.receipts.upsert(key1(room_id), event);
    }

    /// Records the timeline window of a room.
    pub fn add_timeline(&mut self, room_id: &String, timeline: TimelineSlice)
        requires
            old(self).wf(),
        ensures
            final(self).wf(),
            final(self).same_except(old(self), 10),
            final(self).spec_timeline() == old(self).spec_timeline().insert(
                seq![room_id@],
                timeline,
            ),
    {
        self.timeline.upsert(key1(room_id), timeline);
    }

    /// The sync token this batch relates to.
    pub fn sync_token(&self) -> (r: &Option<String>)
        ensures
            *r == self.spec_sync_token(),
    {
        &self.sync_token
    }

    /// Global account data: event type to serialized event.
    pub fn account_data_map(&self) -> (r: &UpsertMap<String>)
        requires
            self.wf(),
        ensures
            r.wf(),
            r.view() == self.spec_account_data(),
    {
        &self.account_data
    }

    /// Presence: user id to serialized event.
    pub fn presence_map(&self) -> (r: &UpsertMap<String>)
        requires
            self.wf(),
        ensures
            r.wf(),
            r.view() == self.spec_presence(),
    {
        &self.presence
    }

    /// State: room id, event type, state key to serialized event.
    pub fn state_map(&self) -> (r: &UpsertMap<String>)
        requires
            self.wf(),
        ensures
            r.wf(),
            r.view() == self.spec_state(),
    {
        &self.state
    }

    /// Room account data: room id, event type to serialized event.
    pub fn room_account_data_map(&self) -> (r: &UpsertMap<String>)
        requires
            self.wf(),
        ensures
            r.wf(),
            r.view() == self.spec_room_account_data(),
    {
        &self.room_account_data
    }

    /// Summaries of joined and left rooms, by room id.
    pub fn room_infos_map(&self) -> (r: &UpsertMap<RoomInfo>)
        requires
            self.wf(),
        ensures
            r.wf(),
            r.view() == self.spec_room_infos(),
    {
        &self.room_infos
    }

    /// Serialized receipts, by room id.
    pub fn receipts_map(&self) -> (r: &UpsertMap<String>)
        requires
            self.wf(),
        ensures
            r.wf(),
            r.view() == self.spec_receipts(),
    {
        &self.receipts
    }

    /// Summaries of invited rooms, by room id.
    pub fn stripped_room_infos_map(&self) -> (r: &UpsertMap<RoomInfo>)
        requires
            self.wf(),
        ensures
            r.wf(),
            r.view() == self.spec_stripped_room_infos(),
    {
        &self.stripped_room_infos
    }

    /// Preview memberships: room id, user id to event.
    pub fn stripped_members_map(&self) -> (r: &UpsertMap<StrippedMemberEvent>)
        requires
            self.wf(),
        ensures
            r.wf(),
            r.view() == self.spec_stripped_members(),
    {
        &self.stripped_members
    }

    /// Serialized notifications in arrival order, by room id.
    pub fn notifications_map(&self) -> (r: &UpsertMap<Vec<String>>)
        requires
            self.wf(),
        ensures
            r.wf(),
            r.view() == self.spec_notifications(),
    {
        &self.notifications
    }

    /// Timeline windows, by room id.
    pub fn timeline_map(&self) -> (r: &UpsertMap<TimelineSlice>)
        requires
            self.wf(),
        ensures
            r.wf(),
            r.view() == self.spec_timeline(),
    {
        &self.timeline
    }

    /// The serialized state event recorded for a room, type and state key.
    pub fn state_event(&self, room_id: &String, event_type: &String, state_key: &String) -> (r:
        Option<&String>)
        requires
            self.wf(),
        ensures
            r == (if self.spec_state().contains_key(seq![room_id@, event_type@, state_key@]) {
                Some(&self.spec_state()[seq![room_id@, event_type@, state_key@]])
            } else {
                None
            }),
    {
        self.state.get(&key3(room_id, event_type, state_key))
    }

    /// The number of state events recorded, over all rooms.
    pub fn state_event_count(&self) -> (r: usize)
        requires
            self.wf(),
        ensures
            r == self.spec_state().len(),
    {
        self.state.len()
    }

    /// The notifications recorded for a room, in arrival order.
    pub fn notifications(&self, room_id: &String) -> (r: Option<&Vec<String>>)
        requires
            self.wf(),
        ensures
            r == (if self.spec_notifications().contains_key(seq![room_id@]) {
                Some(&self.spec_notifications()[seq![room_id@]])
            } else {
                None
            }),
    {
        self.notifications.get(&key1(room_id))
    }
}

/// Within one batch, writing two state events with the same room, type and
/// state key keeps only the one written last: the two writes leave the batch
/// as the last write alone would.
pub proof fn lemma_state_last_write_wins(
    changes: StateChanges,
    room_id: Seq<char>,
    event_type: Seq<char>,
    state_key: Seq<char>,
    first: String,
    second: String,
)
    ensures
        ({
            let k = seq![room_id, event_type, state_key];
            let twice = changes.spec_state().insert(k, first).insert(k, second);
            &&& twice[k] == second
            &&& twice == changes.spec_state().insert(k, second)
        }),
{
    let k = seq![room_id, event_type, state_key];
    assert(changes.spec_state().insert(k, first).insert(k, second) =~= changes.spec_state().insert(
        k,
        second,
    ));
}

} // verus!
