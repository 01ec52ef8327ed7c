//! Starting a sliding sync session, resuming from persisted snapshots where a
//! storage key is configured.
//!
//! The start is a state machine: the caller asks which record to read next,
//! reads and decodes it, and hands back the outcome, until the machine is
//! done. Views are restored one by one in configuration order, then the
//! session cursor; a failed read or decode aborts the whole start.
use vstd::prelude::*;
use vstd::utf8::encode_utf8;
use crate::config::{
    ExtensionsConfig, RoomSubscription, SlidingSyncBuilder, SlidingSyncConfig, SlidingSyncView,
    ToDeviceConfig, names_unique,
};
use crate::error::StoreError;
use crate::keyed::{UpsertMap, key_view};

verus! {

/// The persisted cursor of a whole session.
#[derive(Clone, Debug)]
pub struct FrozenSlidingSync {
    pub to_device_since: Option<String>,
    pub delta_token: Option<String>,
}

/// The persisted cursor and room payloads of one view.
#[derive(Clone, Debug)]
pub struct FrozenSlidingSyncView {
    pub rooms_count: u32,
    /// The room ids of the window, in list order.
    pub rooms_list: Vec<String>,
    /// Pairs of room id and serialized room payload.
    pub rooms: Vec<(String, String)>,
}

/// The key of the session record under a storage key.
pub open spec fn session_key(storage_key: Seq<char>) -> Seq<u8> {
    encode_utf8(storage_key)
}

/// The key of a view's record under a storage key: `<storage_key>::<name>`.
pub open spec fn view_key(storage_key: Seq<char>, name: Seq<char>) -> Seq<u8> {
    encode_utf8(storage_key) + seq![58u8, 58u8] + encode_utf8(name)
}

/// Appends the UTF-8 bytes of `s`.
fn append_utf8(out: &mut Vec<u8>, s: &String)
    ensures
        final(out)@ == old(out)@ + encode_utf8(s@),
{
    let b = s.as_str().as_bytes();
    let mut i: usize = 0;
    while i < b.len()
        invariant
            0 <= i <= b@.len(),
            b@ == encode_utf8(s@),
            out@ == old(out)@ + b@.subrange(0, i as int),
        decreases b.len() - i,
    {
        out.push(b[i]);
        i = i + 1;
        assert(out@ =~= old(out)@ + b@.subrange(0, i as int));
    }
    assert(b@.subrange(0, b@.len() as int) =~= b@);
}

/// The key of the session record under `storage_key`.
pub fn session_storage_key(storage_key: &String) -> (r: Vec<u8>)
    ensures
        r@ == session_key(storage_key@),
{
    let mut r: Vec<u8> = Vec::new();
    append_utf8(&mut r, storage_key);
    assert(r@ =~= session_key(storage_key@));
    r
}

/// The key of the record of the view `view_name` under `storage_key`.
pub fn view_storage_key(storage_key: &String, view_name: &String) -> (r: Vec<u8>)
    ensures
        r@ == view_key(storage_key@, view_name@),
{
    let mut r: Vec<u8> = Vec::new();
    append_utf8(&mut r, storage_key);
    r.push(58u8);
    r.push(58u8);
    append_utf8(&mut r, view_name);
    assert(r@ =~= view_key(storage_key@, view_name@));
    r
}

/// The room map after adding the payloads of one view: a room already present
/// keeps its payload, so the first view to hold a room wins.
pub open spec fn merge_first(
    m: Map<Seq<Seq<char>>, String>,
    rooms: Seq<(String, String)>,
) -> Map<Seq<Seq<char>>, String>
    decreases rooms.len(),
{
    if rooms.len() == 0 {
        m
    } else {
        let prev = merge_first(m, rooms.drop_last());
        let last = rooms.last();
        if prev.contains_key(seq![last.0@]) {
            prev
        } else {
            prev.insert(seq![last.0@], last.1)
        }
    }
}

/// The extensions after resuming to-device messages from `since`: the token
/// goes into a configured to-device extension, and creates none.
pub open spec fn inject_since(
    e: Option<ExtensionsConfig>,
    since: Option<String>,
) -> Option<ExtensionsConfig> {
    match (e, since) {
        (Some(c), Some(s)) => match c.to_device {
            Some(td) => Some(
                ExtensionsConfig { to_device: Some(ToDeviceConfig { since: Some(s), ..td }), ..c },
            ),
            None => e,
        },
        _ => e,
    }
}

/// Where a start stands.
#[derive(Clone, Copy, Debug, PartialEq, Eq, Structural)]
pub enum Stage {
    /// Restoring the views, one record each.
    Views,
    /// Restoring the session cursor.
    Session,
    /// Done; the session can be assembled.
    Assembled,
    /// Failed; nothing of the work is kept.
    Aborted,
}

/// The record to read next, by key.
#[derive(Clone, Debug)]
pub enum PendingRead {
    /// A view's record, to decode as a `FrozenSlidingSyncView`.
    View(Vec<u8>),
    /// The session's record, to decode as a `FrozenSlidingSync`.
    Session(Vec<u8>),
}

/// A sliding sync session being started.
pub struct Bootstrap {
    storage_key: Option<String>,
    homeserver: Option<String>,
    views: Vec<SlidingSyncView>,
    extensions: Option<ExtensionsConfig>,
    subscriptions: Vec<(String, RoomSubscription)>,
    stage: Stage,
    next_view: usize,
    rooms: UpsertMap<String>,
    delta_token: Option<String>,
    error: Option<StoreError>,
}

/// The stage after the views before `next` are restored.
pub open spec fn stage_after_view(next: int, count: int) -> Stage {
    if next < count {
        Stage::Views
    } else {
        Stage::Session
    }
}

impl Bootstrap {
    pub closed spec fn wf(&self) -> bool {
        &&& self.rooms.wf()
        &&& names_unique(self.views@)
        &&& self.next_view <= self.views@.len()
        &&& (self.stage == Stage::Views ==> self.storage_key is Some && self.next_view
            < self.views@.len())
        &&& (self.stage == Stage::Session ==> self.storage_key is Some)
        &&& (self.stage == Stage::Aborted <==> self.error is Some)
    }

    pub closed spec fn spec_stage(&self) -> Stage {
        self.stage
    }

    /// The index of the view to restore next.
    pub closed spec fn spec_next_view(&self) -> int {
        self.next_view as int
    }

    pub closed spec fn spec_storage_key(&self) -> Option<String> {
        self.storage_key
    }

    pub closed spec fn spec_homeserver(&self) -> Option<String> {
        self.homeserver
    }

    pub closed spec fn spec_views(&self) -> Seq<SlidingSyncView> {
        self.views@
    }

    pub closed spec fn spec_extensions(&self) -> Option<ExtensionsConfig> {
        self.extensions
    }

    pub closed spec fn spec_subscriptions(&self) -> Seq<(String, RoomSubscription)> {
        self.subscriptions@
    }

    /// The room payloads found so far, by the path of one room id.
    pub closed spec fn spec_rooms(&self) -> Map<Seq<Seq<char>>, String> {
        self.rooms@
    }

    pub closed spec fn spec_delta_token(&self) -> Option<String> {
        self.delta_token
    }

    /// Why the start failed.
    pub closed spec fn spec_error(&self) -> Option<StoreError> {
        self.error
    }

    /// The storage key, homeserver and subscriptions are as in `other`.
    pub open spec fn same_config(&self, other: &Bootstrap) -> bool {
        &&& self.spec_storage_key() == other.spec_storage_key()
        &&& self.spec_homeserver() == other.spec_homeserver()
        &&& self.spec_subscriptions() == other.spec_subscriptions()
    }
}

impl Bootstrap {
    /// The record to read next; `None` once the start is done or failed.
    pub fn next_read(&self) -> (r: Option<PendingRead>)
        requires
            self.wf(),
        ensures
            self.spec_stage() == Stage::Views ==> (r matches Some(PendingRead::View(k)) && k@
                == view_key(
                self.spec_storage_key()->Some_0@,
                self.spec_views()[self.spec_next_view()].name@,
            )),
            self.spec_stage() == Stage::Session ==> (r matches Some(PendingRead::Session(k)) && k@
                == session_key(self.spec_storage_key()->Some_0@)),
            self.spec_stage() == Stage::Assembled || self.spec_stage() == Stage::Aborted ==> r is None,
    {
        match (&self.stage, &self.storage_key) {
            (Stage::Views, Some(key)) => Some(
                PendingRead::View(view_storage_key(key, &self.views[self.next_view].name)),
            ),
            (Stage::Session, Some(key)) => Some(PendingRead::Session(session_storage_key(key))),
            _ => None,
        }
    }

    /// Takes the outcome of reading the record of the next view: a found
    /// record sets the view's cursor and adds the rooms that no earlier view
    /// holds; a missing record leaves the view as it is; an error aborts.
    pub fn view_loaded(&mut self, outcome: Result<Option<FrozenSlidingSyncView>, StoreError>)
        requires
            old(self).wf(),
            old(self).spec_stage() == Stage::Views,
        ensures
            final(self).wf(),
            final(self).same_config(old(self)),
            final(self).spec_extensions() == old(self).spec_extensions(),
            final(self).spec_delta_token() == old(self).spec_delta_token(),
            match outcome {
                Err(e) => final(self).spec_stage() == Stage::Aborted && final(self).spec_error()
                    == Some(e),
                Ok(found) => {
                    let n = old(self).spec_next_view();
                    &&& final(self).spec_next_view() == n + 1
                    &&& final(self).spec_stage() == stage_after_view(
                        n + 1,
                        old(self).spec_views().len() as int,
                    )
                    &&& match found {
                        None => {
                            &&& final(self).spec_views() == old(self).spec_views()
                            &&& final(self).spec_rooms() == old(self).spec_rooms()
                        },
                        Some(f) => {
                            &&& final(self).spec_views() == old(self).spec_views().update(
                                n,
                                SlidingSyncView {
                                    rooms_count: Some(f.rooms_count),
                                    rooms_list: f.rooms_list,
                                    ..old(self).spec_views()[n]
                                },
                            )
                            &&& final(self).spec_rooms() == merge_first(
                                old(self).spec_rooms(),
                                f.rooms@,
                            )
                        },
                    }
                },
            },
    {
        match outcome {
            Err(e) => {
                self.stage = Stage::Aborted;
                self.error = Some(e);
            },
            Ok(found) => {
                let n = self.next_view;
                assert(n < self.views@.len());
                match found {
                    None => {},
                    Some(f) => {
                        let FrozenSlidingSyncView { rooms_count, rooms_list, rooms } = f;
                        let ghost old_views = self.views@;
                        let mut v = self.views[n].clone_cursorless();
                        v.set_from_cold(rooms_count, rooms_list);
                        self.views.set(n, v);
                        proof {
                            let s = self.views@;
                            assert forall|x: int, y: int| 0 <= x < y < s.len() implies (#[trigger] s[x]).name@
                                != (#[trigger] s[y]).name@ by {
                                assert(s[x].name@ == old_views[x].name@);
                                assert(s[y].name@ == old_views[y].name@);
                            }
                        }
                        self.merge_rooms(rooms);
                    },
                }
                let count = self.views.len();
                assert(count == old(self).views@.len());
                self.next_view = n + 1;
                if self.next_view < count {
                    self.stage = Stage::Views;
                } else {
                    self.stage = Stage::Session;
                }
            },
        }
    }

    /// Adds each room that is not present yet, in order.
    fn merge_rooms(&mut self, rooms: Vec<(String, String)>)
        requires
            old(self).wf(),
        ensures
            final(self).wf(),
            final(self).spec_rooms() == merge_first(old(self).spec_rooms(), rooms@),
            final(self).stage == old(self).stage,
            final(self).next_view == old(self).next_view,
            final(self).views == old(self).views,
            final(self).storage_key == old(self).storage_key,
            final(self).homeserver == old(self).homeserver,
            final(self).extensions == old(self).extensions,
            final(self).subscriptions == old(self).subscriptions,
            final(self).delta_token == old(self).delta_token,
            final(self).error == old(self).error,
    {
        let mut i: usize = 0;
        while i < rooms.len()
            invariant
                0 <= i <= rooms@.len(),
                self.wf(),
                self.rooms@ == merge_first(old(self).rooms@, rooms@.subrange(0, i as int)),
                self.stage == old(self).stage,
                self.next_view == old(self).next_view,
                self.views == old(self).views,
                self.storage_key == old(self).storage_key,
                self.homeserver == old(self).homeserver,
                self.extensions == old(self).extensions,
                self.subscriptions == old(self).subscriptions,
                self.delta_token == old(self).delta_token,
                self.error == old(self).error,
            decreases rooms.len() - i,
        {
            let key = key_of(&rooms[i].0);
            if self.rooms.get(&key).is_none() {
                self.rooms.upsert(key, rooms[i].1.clone());
            }
            proof {
                let s = rooms@.subrange(0, i + 1);
                assert(s.drop_last() =~= rooms@.subrange(0, i as int));
                assert(s.last() == rooms@[i as int]);
            }
            i = i + 1;
        }
        assert(rooms@.subrange(0, rooms@.len() as int) =~= rooms@);
    }

    /// Takes the outcome of reading the session record: a found record resumes
    /// to-device messages where that extension is configured, and sets the
    /// delta token; a missing record changes nothing; an error aborts.
    pub fn session_loaded(&mut self, outcome: Result<Option<FrozenSlidingSync>, StoreError>)
        requires
            old(self).wf(),
            old(self).spec_stage() == Stage::Session,
        ensures
            final(self).wf(),
            final(self).same_config(old(self)),
            final(self).spec_views() == old(self).spec_views(),
            final(self).spec_rooms() == old(self).spec_rooms(),
            final(self).spec_next_view() == old(self).spec_next_view(),
            match outcome {
                Err(e) => final(self).spec_stage() == Stage::Aborted && final(self).spec_error()
                    == Some(e),
                Ok(None) => {
                    &&& final(self).spec_stage() == Stage::Assembled
                    &&& final(self).spec_extensions() == old(self).spec_extensions()
                    &&& final(self).spec_delta_token() == old(self).spec_delta_token()
                },
                Ok(Some(f)) => {
                    &&& final(self).spec_stage() == Stage::Assembled
                    &&& final(self).spec_extensions() == inject_since(
                        old(self).spec_extensions(),
                        f.to_device_since,
                    )
                    &&& final(self).spec_delta_token() == f.delta_token
                },
            },
    {
        match outcome {
            Err(e) => {
                self.stage = Stage::Aborted;
                self.error = Some(e);
            },
            Ok(None) => {
                self.stage = Stage::Assembled;
            },
            Ok(Some(f)) => {
                let FrozenSlidingSync { to_device_since, delta_token } = f;
                if let Some(since) = to_device_since {
                    let ext = self.extensions.take();
                    self.extensions = match ext {
                        Some(c) => {
                            let ExtensionsConfig { to_device, e2ee, account_data, receipt, typing } = c;
                            let to_device = match to_device {
                                Some(td) => Some(ToDeviceConfig { since: Some(since), ..td }),
                                None => None,
                            };
                            Some(ExtensionsConfig { to_device, e2ee, account_data, receipt, typing })
                        },
                        None => None,
                    };
                }
                self.delta_token = delta_token;
                self.stage = Stage::Assembled;
            },
        }
    }

    /// The started session, or why the start failed. Nothing gathered by a
    /// failed start is handed out.
    pub fn finish(self) -> (r: Result<SlidingSync, StoreError>)
        requires
            self.wf(),
            self.spec_stage() == Stage::Assembled || self.spec_stage() == Stage::Aborted,
        ensures
            self.spec_stage() == Stage::Aborted ==> r == Err::<SlidingSync, StoreError>(
                self.spec_error()->Some_0,
            ),
            self.spec_stage() == Stage::Assembled ==> (r matches Ok(s) && s.wf()
                && s.spec_storage_key() == self.spec_storage_key() && s.spec_homeserver()
                == self.spec_homeserver() && s.spec_views() == self.spec_views()
                && s.spec_rooms() == self.spec_rooms() && s.spec_extensions()
                == self.spec_extensions() && s.spec_delta_token() == self.spec_delta_token()
                && s.spec_pos() is None && s.spec_subscriptions() == self.spec_subscriptions()),
    {
        match self.error {
            Some(e) => Err(e),
            None => Ok(
                SlidingSync {
                    storage_key: self.storage_key,
                    homeserver: self.homeserver,
                    views: self.views,
                    rooms: self.rooms,
                    extensions: self.extensions,
                    delta_token: self.delta_token,
                    pos: None,
                    subscriptions: self.subscriptions,
                },
            ),
        }
    }

    /// Where the start stands.
    pub fn stage(&self) -> (r: Stage)
        ensures
            r == self.spec_stage(),
    {
        self.stage
    }
}

/// The key path of one room id.
fn key_of(room_id: &String) -> (r: Vec<String>)
    ensures
        key_view(r@) == seq![room_id@],
{
    let mut r: Vec<String> = Vec::new();
    r.push(room_id.clone());
    assert(key_view(r@) =~= seq![room_id@]);
    r
}

impl SlidingSyncView {
    /// A copy of the view's name and mode with an empty cursor.
    fn clone_cursorless(&self) -> (r: SlidingSyncView)
        ensures
            r.name == self.name,
            r.sync_mode == self.sync_mode,
    {
        SlidingSyncView::new(self.name.clone(), self.sync_mode)
    }
}

/// A started sliding sync session.
pub struct SlidingSync {
    storage_key: Option<String>,
    homeserver: Option<String>,
    views: Vec<SlidingSyncView>,
    rooms: UpsertMap<String>,
    extensions: Option<ExtensionsConfig>,
    delta_token: Option<String>,
    pos: Option<String>,
    subscriptions: Vec<(String, RoomSubscription)>,
}

impl SlidingSync {
    pub closed spec fn wf(&self) -> bool {
        self.rooms.wf() && names_unique(self.views@)
    }

    pub closed spec fn spec_storage_key(&self) -> Option<String> {
        self.storage_key
    }

    pub closed spec fn spec_homeserver(&self) -> Option<String> {
        self.homeserver
    }

    pub closed spec fn spec_views(&self) -> Seq<SlidingSyncView> {
        self.views@
    }

    /// Room payloads, by the path of one room id.
    pub closed spec fn spec_rooms(&self) -> Map<Seq<Seq<char>>, String> {
        self.rooms@
    }

    pub closed spec fn spec_extensions(&self) -> Option<ExtensionsConfig> {
        self.extensions
    }

    pub closed spec fn spec_delta_token(&self) -> Option<String> {
        self.delta_token
    }

    pub closed spec fn spec_pos(&self) -> Option<String> {
        self.pos
    }

    pub closed spec fn spec_subscriptions(&self) -> Seq<(String, RoomSubscription)> {
        self.subscriptions@
    }

    pub fn storage_key(&self) -> (r: &Option<String>)
        ensures
            *r == self.spec_storage_key(),
    {
        &self.storage_key
    }

    pub fn homeserver(&self) -> (r: &Option<String>)
        ensures
            *r == self.spec_homeserver(),
    {
        &self.homeserver
    }

    /// The views, in configuration order.
    pub fn views(&self) -> (r: &Vec<SlidingSyncView>)
        ensures
            r@ == self.spec_views(),
    {
        &self.views
    }

    /// The payload of the room with the given id, if one was restored.
    pub fn room(&self, room_id: &String) -> (r: Option<&String>)
        requires
            self.wf(),
        ensures
            r == (if self.spec_rooms().contains_key(seq![room_id@]) {
                Some(&self.spec_rooms()[seq![room_id@]])
            } else {
                None
            }),
    {
        self.rooms.get(&key_of(room_id))
    }

    /// How many rooms were restored.
    pub fn room_count(&self) -> (r: usize)
        requires
            self.wf(),
        ensures
            r == self.spec_rooms().len(),
    {
        self.rooms.len()
    }

    pub fn extensions(&self) -> (r: &Option<ExtensionsConfig>)
        ensures
            *r == self.spec_extensions(),
    {
        &self.extensions
    }

    pub fn delta_token(&self) -> (r: &Option<String>)
        ensures
            *r == self.spec_delta_token(),
    {
        &self.delta_token
    }

    pub fn pos(&self) -> (r: &Option<String>)
        ensures
            *r == self.spec_pos(),
    {
        &self.pos
    }

    pub fn subscriptions(&self) -> (r: &Vec<(String, RoomSubscription)>)
        ensures
            r@ == self.spec_subscriptions(),
    {
        &self.subscriptions
    }
}

impl SlidingSyncConfig {
    /// Starts a session with this configuration. Without a storage key there
    /// is nothing to restore and the session can be assembled at once.
    pub fn build(self) -> (r: Bootstrap)
        requires
            self.wf(),
        ensures
            r.wf(),
            r.spec_storage_key() == self.storage_key,
            r.spec_homeserver() == self.homeserver,
            r.spec_views() == self.views@,
            r.spec_extensions() == self.extensions,
            r.spec_subscriptions() == self.subscriptions@,
            r.spec_rooms().is_empty(),
            r.spec_delta_token() is None,
            r.spec_next_view() == 0,
            r.spec_stage() == (if self.storage_key is None {
                Stage::Assembled
            } else {
                stage_after_view(0, self.views@.len() as int)
            }),
    {
        let stage = if self.storage_key.is_none() {
            Stage::Assembled
        } else if self.views.len() > 0 {
            Stage::Views
        } else {
            Stage::Session
        };
        let r = Bootstrap {
            storage_key: self.storage_key,
            homeserver: self.homeserver,
            views: self.views,
            extensions: self.extensions,
            subscriptions: self.subscriptions,
            stage,
            next_view: 0,
            rooms: UpsertMap::new(),
            delta_token: None,
            error: None,
        };
        r
    }
}

impl SlidingSyncBuilder {
    /// Starts a session with the configuration composed so far.
    pub fn build(self) -> (r: Bootstrap)
        requires
            self.wf(),
        ensures
            r.wf(),
            r.spec_storage_key() == self.spec_storage_key(),
            r.spec_homeserver() == self.spec_homeserver(),
            r.spec_views() == self.spec_views(),
            r.spec_extensions() == self.spec_extensions(),
            r.spec_subscriptions() == self.spec_subscriptions(),
            r.spec_rooms().is_empty(),
            r.spec_delta_token() is None,
            r.spec_next_view() == 0,
            r.spec_stage() == (if self.spec_storage_key() is None {
                Stage::Assembled
            } else {
                stage_after_view(0, self.spec_views().len() as int)
            }),
    {
        self.build_config().build()
    }
}

/// A session record's since token never creates a to-device extension: where
/// none is configured, the extensions stay exactly as they were.
pub proof fn lemma_since_creates_no_extension(e: Option<ExtensionsConfig>, since: Option<String>)
    requires
        e is None || e->Some_0.to_device is None,
    ensures
        inject_since(e, since) == e,
{
}

/// A room already in the map keeps its payload whatever a later view holds.
pub proof fn lemma_present_room_kept(
    m: Map<Seq<Seq<char>>, String>,
    rooms: Seq<(String, String)>,
    k: Seq<Seq<char>>,
)
    requires
        m.contains_key(k),
    ensures
        merge_first(m, rooms).contains_key(k),
        merge_first(m, rooms)[k] == m[k],
    decreases rooms.len(),
{
    if rooms.len() > 0 {
        lemma_present_room_kept(m, rooms.drop_last(), k);
    }
}

/// Within one view, the first entry for a room that the map lacks is the
/// payload kept.
pub proof fn lemma_first_entry_wins(
    m: Map<Seq<Seq<char>>, String>,
    rooms: Seq<(String, String)>,
    i: int,
)
    requires
        0 <= i < rooms.len(),
        !m.contains_key(seq![rooms[i].0@]),
        forall|j: int| 0 <= j < i ==> (#[trigger] rooms[j]).0@ != rooms[i].0@,
    ensures
        merge_first(m, rooms).contains_key(seq![rooms[i].0@]),
        merge_first(m, rooms)[seq![rooms[i].0@]] == rooms[i].1,
    decreases rooms.len(),
{
    let k = seq![rooms[i].0@];
    if i == rooms.len() - 1 {
        let t = rooms.drop_last();
        assert forall|j: int| 0 <= j < t.len() implies seq![(#[trigger] t[j]).0@] != k by {
            assert(t[j] == rooms[j]);
            if seq![t[j].0@] == k {
                assert(seq![t[j].0@][0] == k[0]);
            }
        }
        lemma_room_absent(m, t, k);
    } else {
        let t = rooms.drop_last();
        assert(t[i] == rooms[i]);
        assert forall|j: int| 0 <= j < i implies (#[trigger] t[j]).0@ != t[i].0@ by {
            assert(t[j] == rooms[j]);
        }
        lemma_first_entry_wins(m, t, i);
        lemma_present_room_kept(merge_first(m, t), seq![rooms.last()], k);
        assert(seq![rooms.last()].drop_last() =~= Seq::<(String, String)>::empty());
    }
}

/// A room that neither the map nor any entry holds stays absent.
proof fn lemma_room_absent(
    m: Map<Seq<Seq<char>>, String>,
    rooms: Seq<(String, String)>,
    k: Seq<Seq<char>>,
)
    requires
        !m.contains_key(k),
        forall|j: int| 0 <= j < rooms.len() ==> seq![(#[trigger] rooms[j]).0@] != k,
    ensures
        !merge_first(m, rooms).contains_key(k),
    decreases rooms.len(),
{
    if rooms.len() > 0 {
        let t = rooms.drop_last();
        assert forall|j: int| 0 <= j < t.len() implies seq![(#[trigger] t[j]).0@] != k by {
            assert(t[j] == rooms[j]);
        }
        lemma_room_absent(m, t, k);
        assert(seq![rooms[rooms.len() - 1].0@] != k);
    }
}

/// Two views that both hold room `x`: after both are restored in order, the
/// room map holds the payload of the first, whatever the second holds.
pub proof fn lemma_first_view_wins(
    m: Map<Seq<Seq<char>>, String>,
    first: Seq<(String, String)>,
    second: Seq<(String, String)>,
    i: int,
)
    requires
        0 <= i < first.len(),
        !m.contains_key(seq![first[i].0@]),
        forall|j: int| 0 <= j < i ==> (#[trigger] first[j]).0@ != first[i].0@,
    ensures
        merge_first(merge_first(m, first), second)[seq![first[i].0@]] == first[i].1,
{
    lemma_first_entry_wins(m, first, i);
    lemma_present_room_kept(merge_first(m, first), second, seq![first[i].0@]);
}

} // verus!
