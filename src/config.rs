//! Configuration of a sliding sync session: views, extensions, subscriptions,
//! and the builder that composes them.
use vstd::prelude::*;

verus! {

/// The to-device messages extension.
#[derive(Clone, Debug)]
pub struct ToDeviceConfig {
    pub enabled: Option<bool>,
    pub limit: Option<u32>,
    /// The token to resume to-device messages from.
    pub since: Option<String>,
}

/// The end-to-end encryption extension.
#[derive(Clone, Copy, Debug, PartialEq, Eq, Structural)]
pub struct E2EEConfig {
    pub enabled: Option<bool>,
}

/// The account data extension.
#[derive(Clone, Copy, Debug, PartialEq, Eq, Structural)]
pub struct AccountDataConfig {
    pub enabled: Option<bool>,
}

/// The read receipts extension.
#[derive(Clone, Copy, Debug, PartialEq, Eq, Structural)]
pub struct ReceiptConfig {
    pub enabled: Option<bool>,
}

/// The typing notifications extension.
#[derive(Clone, Copy, Debug, PartialEq, Eq, Structural)]
pub struct TypingConfig {
    pub enabled: Option<bool>,
}

/// Which extensions a session asks for; an absent one is not asked for.
#[derive(Clone, Debug)]
pub struct ExtensionsConfig {
    pub to_device: Option<ToDeviceConfig>,
    pub e2ee: Option<E2EEConfig>,
    pub account_data: Option<AccountDataConfig>,
    pub receipt: Option<ReceiptConfig>,
    pub typing: Option<TypingConfig>,
}

/// The extension set with nothing configured.
pub open spec fn no_extensions() -> ExtensionsConfig {
    ExtensionsConfig { to_device: None, e2ee: None, account_data: None, receipt: None, typing: None }
}

/// The extension set to change: the configured one, else an empty one.
pub open spec fn ext_or_default(e: Option<ExtensionsConfig>) -> ExtensionsConfig {
    match e {
        Some(c) => c,
        None => no_extensions(),
    }
}

/// The to-device extension switched on with nothing else set.
pub open spec fn enabled_to_device() -> ToDeviceConfig {
    ToDeviceConfig { enabled: Some(true), limit: None, since: None }
}

/// `c` with the to-device, e2ee and account-data extensions switched on
/// where they are absent.
pub open spec fn fill_common(c: ExtensionsConfig) -> ExtensionsConfig {
    ExtensionsConfig {
        to_device: if c.to_device is None { Some(enabled_to_device()) } else { c.to_device },
        e2ee: if c.e2ee is None { Some(E2EEConfig { enabled: Some(true) }) } else { c.e2ee },
        account_data: if c.account_data is None {
            Some(AccountDataConfig { enabled: Some(true) })
        } else {
            c.account_data
        },
        ..c
    }
}

/// `c` with every extension switched on where it is absent.
pub open spec fn fill_all(c: ExtensionsConfig) -> ExtensionsConfig {
    ExtensionsConfig {
        receipt: if c.receipt is None { Some(ReceiptConfig { enabled: Some(true) }) } else { c.receipt },
        typing: if c.typing is None { Some(TypingConfig { enabled: Some(true) }) } else { c.typing },
        ..fill_common(c)
    }
}

/// How a view walks the room list.
#[derive(Clone, Copy, Debug, PartialEq, Eq, Structural)]
pub enum SlidingSyncMode {
    /// Only the ranges asked for.
    Selective,
    /// The whole list, window after window.
    FullSync,
}

/// A named window on the room list, with its live cursor.
#[derive(Clone, Debug)]
pub struct SlidingSyncView {
    pub name: String,
    pub sync_mode: SlidingSyncMode,
    /// How many rooms the server counts in this list, once known.
    pub rooms_count: Option<u32>,
    /// The room ids of the window, in list order.
    pub rooms_list: Vec<String>,
}

/// The name of the view that syncs the whole room list.
pub open spec fn full_sync_view_name() -> Seq<char> {
    seq!['f', 'u', 'l', 'l', '-', 's', 'y', 'n', 'c']
}

impl SlidingSyncView {
    /// A view with an empty cursor.
    pub fn new(name: String, sync_mode: SlidingSyncMode) -> (r: Self)
        ensures
            r.name == name,
            r.sync_mode == sync_mode,
            r.rooms_count is None,
            r.rooms_list@.len() == 0,
    {
        SlidingSyncView { name, sync_mode, rooms_count: None, rooms_list: Vec::new() }
    }

    /// The view that syncs the whole room list.
    pub fn full_sync() -> (r: Self)
        ensures
            r.name@ == full_sync_view_name(),
            r.sync_mode == SlidingSyncMode::FullSync,
            r.rooms_count is None,
            r.rooms_list@.len() == 0,
    {
        proof {
            reveal_strlit("full-sync");
        }
        let name = "full-sync".to_owned();
        SlidingSyncView::new(name, SlidingSyncMode::FullSync)
    }

    /// Installs a cursor read back from storage.
    pub fn set_from_cold(&mut self, rooms_count: u32, rooms_list: Vec<String>)
        ensures
            final(self).name == old(self).name,
            final(self).sync_mode == old(self).sync_mode,
            final(self).rooms_count == Some(rooms_count),
            final(self).rooms_list == rooms_list,
    {
        self.rooms_count = Some(rooms_count);
        self.rooms_list = rooms_list;
    }
}

/// No two views share a name.
pub open spec fn names_unique(views: Seq<SlidingSyncView>) -> bool {
    forall|i: int, j: int|
        0 <= i < j < views.len() ==> (#[trigger] views[i]).name@ != (#[trigger] views[j]).name@
}

/// The views after adding `v`: it replaces the view of the same name in its
/// place, or comes last.
pub open spec fn with_view(views: Seq<SlidingSyncView>, v: SlidingSyncView) -> Seq<SlidingSyncView> {
    if exists|i: int| 0 <= i < views.len() && (#[trigger] views[i]).name@ == v.name@ {
        let i = choose|i: int| 0 <= i < views.len() && (#[trigger] views[i]).name@ == v.name@;
        views.update(i, v)
    } else {
        views.push(v)
    }
}

/// What a room subscription asks the server for.
#[derive(Clone, Debug)]
pub struct RoomSubscription {
    /// Pairs of event type and state key.
    pub required_state: Vec<(String, String)>,
    pub timeline_limit: Option<u32>,
}

/// Composes the configuration of a sliding sync session.
#[derive(Clone, Debug)]
pub struct SlidingSyncBuilder {
    storage_key: Option<String>,
    homeserver: Option<String>,
    views: Vec<SlidingSyncView>,
    extensions: Option<ExtensionsConfig>,
    subscriptions: Vec<(String, RoomSubscription)>,
}

/// The configuration of a sliding sync session, ready to be started.
#[derive(Clone, Debug)]
pub struct SlidingSyncConfig {
    pub storage_key: Option<String>,
    pub homeserver: Option<String>,
    /// The views, in the order they were first added; names are unique.
    pub views: Vec<SlidingSyncView>,
    pub extensions: Option<ExtensionsConfig>,
    /// Room subscriptions, by room id.
    pub subscriptions: Vec<(String, RoomSubscription)>,
}

impl SlidingSyncBuilder {
    pub closed spec fn spec_storage_key(&self) -> Option<String> {
        self.storage_key
    }

    pub closed spec fn spec_homeserver(&self) -> Option<String> {
        self.homeserver
    }

    pub closed spec fn spec_views(&self) -> Seq<SlidingSyncView> {
        self.views@
    }

    pub closed spec fn spec_extensions(&self) -> Option<ExtensionsConfig> {
        self.extensions
    }

    pub closed spec fn spec_subscriptions(&self) -> Seq<(String, RoomSubscription)> {
        self.subscriptions@
    }

    /// Everything but the extensions is as in `other`.
    pub open spec fn same_but_extensions(&self, other: &Self) -> bool {
        &&& self.spec_storage_key() == other.spec_storage_key()
        &&& self.spec_homeserver() == other.spec_homeserver()
        &&& self.spec_views() == other.spec_views()
        &&& self.spec_subscriptions() == other.spec_subscriptions()
    }

    /// Everything but the views is as in `other`.
    pub open spec fn same_but_views(&self, other: &Self) -> bool {
        &&& self.spec_storage_key() == other.spec_storage_key()
        &&& self.spec_homeserver() == other.spec_homeserver()
        &&& self.spec_extensions() == other.spec_extensions()
        &&& self.spec_subscriptions() == other.spec_subscriptions()
    }

    /// Everything but the storage key is as in `other`.
    pub open spec fn same_but_storage_key(&self, other: &Self) -> bool {
        &&& self.spec_homeserver() == other.spec_homeserver()
        &&& self.spec_views() == other.spec_views()
        &&& self.spec_extensions() == other.spec_extensions()
        &&& self.spec_subscriptions() == other.spec_subscriptions()
    }

    pub closed spec fn wf(&self) -> bool {
        names_unique(self.views@)
    }

    /// A builder with nothing configured.
    pub fn new() -> (r: Self)
        ensures
            r.wf(),
            r.spec_storage_key() is None,
            r.spec_homeserver() is None,
            r.spec_views().len() == 0,
            r.spec_extensions() is None,
            r.spec_subscriptions().len() == 0,
    {
        SlidingSyncBuilder {
            storage_key: None,
            homeserver: None,
            views: Vec::new(),
            extensions: None,
            subscriptions: Vec::new(),
        }
    }

    /// Talks to the given homeserver for sliding sync only.
    pub fn homeserver(self, url: String) -> (r: Self)
        ensures
            r.wf() == self.wf(),
            r.spec_homeserver() == Some(url),
            r.spec_storage_key() == self.spec_storage_key(),
            r.spec_views() == self.spec_views(),
            r.spec_extensions() == self.spec_extensions(),
            r.spec_subscriptions() == self.spec_subscriptions(),
    {
        SlidingSyncBuilder { homeserver: Some(url), ..self }
    }

    /// Sets the room subscriptions, by room id.
    pub fn subscriptions(self, subscriptions: Vec<(String, RoomSubscription)>) -> (r: Self)
        ensures
            r.wf() == self.wf(),
            r.spec_subscriptions() == subscriptions@,
            r.spec_storage_key() == self.spec_storage_key(),
            r.spec_homeserver() == self.spec_homeserver(),
            r.spec_views() == self.spec_views(),
            r.spec_extensions() == self.spec_extensions(),
    {
        SlidingSyncBuilder { subscriptions, ..self }
    }

    /// The storage key to load the persisted state from and keep it at.
    pub fn cold_cache(self, name: String) -> (r: Self)
        ensures
            r.wf() == self.wf(),
            r.spec_storage_key() == Some(name),
            r.same_but_storage_key(&self),
    {
        SlidingSyncBuilder { storage_key: Some(name), ..self }
    }

    /// Neither loads nor keeps persisted state.
    pub fn no_cold_cache(self) -> (r: Self)
        ensures
            r.wf() == self.wf(),
            r.spec_storage_key() is None,
            r.same_but_storage_key(&self),
    {
        SlidingSyncBuilder { storage_key: None, ..self }
    }

    /// Removes every view.
    pub fn no_views(self) -> (r: Self)
        ensures
            r.wf(),
            r.spec_views().len() == 0,
            r.same_but_views(&self),
    {
        SlidingSyncBuilder { views: Vec::new(), ..self }
    }

    /// Adds `v`, replacing the view of the same name if there is one.
    pub fn add_view(self, v: SlidingSyncView) -> (r: Self)
        requires
            self.wf(),
        ensures
            r.wf(),
            r.spec_views() == with_view(self.spec_views(), v),
            r.same_but_views(&self),
    {
        let mut b = self;
        let mut i: usize = 0;
        while i < b.views.len()
            invariant
                0 <= i <= b.views.len(),
                b == self,
                names_unique(self.views@),
                forall|j: int| 0 <= j < i ==> (#[trigger] b.views@[j]).name@ != v.name@,
            decreases b.views.len() - i,
        {
            if b.views[i].name == v.name {
                let ghost k = i as int;
                proof {
                    assert(exists|j: int| 0 <= j < self.views@.len() && (#[trigger] self.views@[j]).name@ == v.name@);
                    let c = choose|j: int| 0 <= j < self.views@.len() && (#[trigger] self.views@[j]).name@ == v.name@;
                    assert(c == k) by {
                        if c < k {
                            assert(self.views@[c].name@ != v.name@);
                        } else if c > k {
                            assert(self.views@[k].name@ != self.views@[c].name@);
                        }
                    }
                }
                b.views.set(i, v);
                proof {
                    let s = b.views@;
                    assert forall|x: int, y: int| 0 <= x < y < s.len() implies (#[trigger] s[x]).name@
                        != (#[trigger] s[y]).name@ by {
                        assert(s[x].name@ == if x == k { v.name@ } else { self.views@[x].name@ });
                        assert(s[y].name@ == if y == k { v.name@ } else { self.views@[y].name@ });
                        if x != k && y != k {
                            assert(self.views@[x].name@ != self.views@[y].name@);
                        } else if x == k {
                            assert(self.views@[x].name@ != self.views@[y].name@);
                        } else {
                            assert(self.views@[x].name@ != self.views@[y].name@);
                        }
                    }
                }
                return b;
            }
            i = i + 1;
        }
        b.views.push(v);
        proof {
            let s = b.views@;
            assert forall|x: int, y: int| 0 <= x < y < s.len() implies (#[trigger] s[x]).name@
                != (#[trigger] s[y]).name@ by {
                if y == s.len() - 1 {
                    assert(s[x] == self.views@[x]);
                } else {
                    assert(s[x] == self.views@[x]);
                    assert(s[y] == self.views@[y]);
                }
            }
        }
        b
    }

    /// Adds the view that syncs the whole room list.
    pub fn add_fullsync_view(self) -> (r: Self)
        requires
            self.wf(),
        ensures
            r.wf(),
            r.same_but_views(&self),
            exists|v: SlidingSyncView|
                v.name@ == full_sync_view_name() && v.sync_mode == SlidingSyncMode::FullSync
                    && v.rooms_count is None && v.rooms_list@.len() == 0 && r.spec_views()
                    == with_view(self.spec_views(), v),
    {
        let v = SlidingSyncView::full_sync();
        self.add_view(v)
    }

    /// Asks for the to-device, e2ee and account-data extensions where they are
    /// not configured yet; configured ones are left as they are.
    pub fn with_common_extensions(self) -> (r: Self)
        ensures
            r.wf() == self.wf(),
            r.same_but_extensions(&self),
            r.spec_extensions() == Some(fill_common(ext_or_default(self.spec_extensions()))),
    {
        let mut b = self;
        let mut cfg = ext_or_new(b.extensions);
        if cfg.to_device.is_none() {
            cfg.to_device = Some(ToDeviceConfig { enabled: Some(true), limit: None, since: None });
        }
        if cfg.e2ee.is_none() {
            cfg.e2ee = Some(E2EEConfig { enabled: Some(true) });
        }
        if cfg.account_data.is_none() {
            cfg.account_data = Some(AccountDataConfig { enabled: Some(true) });
        }
        b.extensions = Some(cfg);
        b
    }

    /// Asks for every extension that is not configured yet; configured ones
    /// are left as they are.
    pub fn with_all_extensions(self) -> (r: Self)
        ensures
            r.wf() == self.wf(),
            r.same_but_extensions(&self),
            r.spec_extensions() == Some(fill_all(ext_or_default(self.spec_extensions()))),
    {
        let mut b = self.with_common_extensions();
        let mut cfg = ext_or_new(b.extensions);
        if cfg.receipt.is_none() {
            cfg.receipt = Some(ReceiptConfig { enabled: Some(true) });
        }
        if cfg.typing.is_none() {
            cfg.typing = Some(TypingConfig { enabled: Some(true) });
        }
        b.extensions = Some(cfg);
        b
    }

    /// Sets the E2EE extension.
    pub fn with_e2ee_extension(self, e2ee: E2EEConfig) -> (r: Self)
        ensures
            r.wf() == self.wf(),
            r.same_but_extensions(&self),
            r.spec_extensions() == Some(ExtensionsConfig {
                e2ee: Some(e2ee),
                ..ext_or_default(self.spec_extensions())
            }),
    {
        let mut b = self;
        let mut cfg = ext_or_new(b.extensions);
        cfg.e2ee = Some(e2ee);
        b.extensions = Some(cfg);
        b
    }

    /// Unsets the E2EE extension.
    pub fn without_e2ee_extension(self) -> (r: Self)
        ensures
            r.wf() == self.wf(),
            r.same_but_extensions(&self),
            r.spec_extensions() == Some(ExtensionsConfig {
                e2ee: None,
                ..ext_or_default(self.spec_extensions())
            }),
    {
        let mut b = self;
        let mut cfg = ext_or_new(b.extensions);
        cfg.e2ee = None;
        b.extensions = Some(cfg);
        b
    }

    /// Sets the to-device extension.
    pub fn with_to_device_extension(self, to_device: ToDeviceConfig) -> (r: Self)
        ensures
            r.wf() == self.wf(),
            r.same_but_extensions(&self),
            r.spec_extensions() == Some(ExtensionsConfig {
                to_device: Some(to_device),
                ..ext_or_default(self.spec_extensions())
            }),
    {
        let mut b = self;
        let mut cfg = ext_or_new(b.extensions);
        cfg.to_device = Some(to_device);
        b.extensions = Some(cfg);
        b
    }

    /// Unsets the to-device extension.
    pub fn without_to_device_extension(self) -> (r: Self)
        ensures
            r.wf() == self.wf(),
            r.same_but_extensions(&self),
            r.spec_extensions() == Some(ExtensionsConfig {
                to_device: None,
                ..ext_or_default(self.spec_extensions())
            }),
    {
        let mut b = self;
        let mut cfg = ext_or_new(b.extensions);
        cfg.to_device = None;
        b.extensions = Some(cfg);
        b
    }

    /// Sets the account data extension.
    pub fn with_account_data_extension(self, account_data: AccountDataConfig) -> (r: Self)
        ensures
            r.wf() == self.wf(),
            r.same_but_extensions(&self),
            r.spec_extensions() == Some(ExtensionsConfig {
                account_data: Some(account_data),
                ..ext_or_default(self.spec_extensions())
            }),
    {
        let mut b = self;
        let mut cfg = ext_or_new(b.extensions);
        cfg.account_data = Some(account_data);
        b.extensions = Some(cfg);
        b
    }

    /// Unsets the account data extension.
    pub fn without_account_data_extension(self) -> (r: Self)
        ensures
            r.wf() == self.wf(),
            r.same_but_extensions(&self),
            r.spec_extensions() == Some(ExtensionsConfig {
                account_data: None,
                ..ext_or_default(self.spec_extensions())
            }),
    {
        let mut b = self;
        let mut cfg = ext_or_new(b.extensions);
        cfg.account_data = None;
        b.extensions = Some(cfg);
        b
    }

    /// Sets the typing extension.
    pub fn with_typing_extension(self, typing: TypingConfig) -> (r: Self)
        ensures
            r.wf() == self.wf(),
            r.same_but_extensions(&self),
            r.spec_extensions() == Some(ExtensionsConfig {
                typing: Some(typing),
                ..ext_or_default(self.spec_extensions())
            }),
    {
        let mut b = self;
        let mut cfg = ext_or_new(b.extensions);
        cfg.typing = Some(typing);
        b.extensions = Some(cfg);
        b
    }

    /// Unsets the typing extension.
    pub fn without_typing_extension(self) -> (r: Self)
        ensures
            r.wf() == self.wf(),
            r.same_but_extensions(&self),
            r.spec_extensions() == Some(ExtensionsConfig {
                typing: None,
                ..ext_or_default(self.spec_extensions())
            }),
    {
        let mut b = self;
        let mut cfg = ext_or_new(b.extensions);
        cfg.typing = None;
        b.extensions = Some(cfg);
        b
    }

    /// Sets the receipt extension.
    pub fn with_receipt_extension(self, receipt: ReceiptConfig) -> (r: Self)
        ensures
            r.wf() == self.wf(),
            r.same_but_extensions(&self),
            r.spec_extensions() == Some(ExtensionsConfig {
                receipt: Some(receipt),
                ..ext_or_default(self.spec_extensions())
            }),
    {
        let mut b = self;
        let mut cfg = ext_or_new(b.extensions);
        cfg.receipt = Some(receipt);
        b.extensions = Some(cfg);
        b
    }

    /// Unsets the receipt extension.
    pub fn without_receipt_extension(self) -> (r: Self)
        ensures
            r.wf() == self.wf(),
            r.same_but_extensions(&self),
            r.spec_extensions() == Some(ExtensionsConfig {
                receipt: None,
                ..ext_or_default(self.spec_extensions())
            }),
    {
        let mut b = self;
        let mut cfg = ext_or_new(b.extensions);
        cfg.receipt = None;
        b.extensions = Some(cfg);
        b
    }

    /// The configuration composed so far.
    pub fn build_config(self) -> (r: SlidingSyncConfig)
        requires
            self.wf(),
        ensures
            r.wf(),
            r.storage_key == self.spec_storage_key(),
            r.homeserver == self.spec_homeserver(),
            r.views@ == self.spec_views(),
            r.extensions == self.spec_extensions(),
            r.subscriptions@ == self.spec_subscriptions(),
    {
        SlidingSyncConfig {
            storage_key: self.storage_key,
            homeserver: self.homeserver,
            views: self.views,
            extensions: self.extensions,
            subscriptions: self.subscriptions,
        }
    }
}

impl SlidingSyncConfig {
    pub open spec fn wf(&self) -> bool {
        names_unique(self.views@)
    }
}

/// The extension set to change: the configured one, else an empty one.
fn ext_or_new(e: Option<ExtensionsConfig>) -> (r: ExtensionsConfig)
    ensures
        r == ext_or_default(e),
{
    match e {
        Some(c) => c,
        None => ExtensionsConfig { to_device: None, e2ee: None, account_data: None, receipt: None, typing: None },
    }
}

/// Switching on absent extensions leaves configured ones untouched, so the
/// order of the bundles does not matter, and a bundle applied twice changes
/// nothing more.
pub proof fn lemma_extension_bundles_commute(c: ExtensionsConfig)
    ensures
        fill_common(fill_all(c)) == fill_all(c),
        fill_all(fill_common(c)) == fill_all(c),
        fill_common(fill_common(c)) == fill_common(c),
        fill_all(fill_all(c)) == fill_all(c),
        c.to_device is Some ==> fill_all(c).to_device == c.to_device,
        c.e2ee is Some ==> fill_all(c).e2ee == c.e2ee,
        c.account_data is Some ==> fill_all(c).account_data == c.account_data,
        c.receipt is Some ==> fill_all(c).receipt == c.receipt,
        c.typing is Some ==> fill_all(c).typing == c.typing,
{
}

} // verus!
