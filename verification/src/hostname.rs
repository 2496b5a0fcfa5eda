//! Client hostname cache.
//!
//! Sources, in lookup priority order:
//!   1. manual map file (`smartdns-ui.hostname-map`), entries keyed by IP or MAC
//!   2. runtime observations (`note_client`): an IP whose MAC is known from a
//!      lease/manual entry - this bridges IPv6 clients (lease files are IPv4-only)
//!   3. dnsmasq lease file (`smartdns-ui.lease-file`), ip -> hostname
//!
//! The cache reads no file and no clock: it says when a file is to be looked
//! at, and is told what was found. Without a source every lookup gives `None`,
//! and callers show the raw client IP.

use vstd::prelude::*;
use vstd::string::*;

use crate::lines;
use crate::model::DomainData;
use crate::name_files;
use crate::name_map;
use crate::name_map::NameMap;
use crate::text;

verus! {

/// How often the source files are checked for changes, in nanoseconds.
pub const RELOAD_INTERVAL: u64 = 30_000_000_000;

/// The most observations that are kept; when one more comes all are dropped.
pub const RESOLVED_CAP: usize = 10000;

/// The hardware address of a client that has none.
pub const ZERO_MAC: &'static str = "00:00:00:00:00:00";

/// The names of clients.
pub struct LeaseHostnameCache {
    path: Option<String>,
    manual_path: Option<String>,
    ip_map: NameMap,
    mac_map: NameMap,
    manual_ip_map: NameMap,
    manual_mac_map: NameMap,
    resolved: NameMap,
    last_check: Option<u64>,
    lease_mtime: Option<i128>,
    manual_mtime: Option<i128>,
    failure_logged: bool,
    manual_failure_logged: bool,
}

/// One of the two files: where it is, what was read from it, and when it had
/// last been changed then.
#[verifier::ext_equal]
pub struct SourceModel {
    pub path: Option<Seq<char>>,
    pub names: name_files::Names,
    pub mtime: Option<i128>,
    /// Whether it was reported that the file cannot be read.
    pub failure_logged: bool,
}

/// What the cache holds.
#[verifier::ext_equal]
pub struct CacheModel {
    pub lease: SourceModel,
    pub manual: SourceModel,
    /// The names of addresses that were seen with a known hardware address.
    pub resolved: Map<Seq<char>, Seq<char>>,
    /// When the files were last looked at, in nanoseconds of a running clock.
    pub last_check: Option<u64>,
}

impl View for LeaseHostnameCache {
    type V = CacheModel;

    closed spec fn view(&self) -> CacheModel {
        CacheModel {
            lease: SourceModel {
                path: text::opt_text(self.path),
                names: name_files::Names { by_ip: self.ip_map@, by_mac: self.mac_map@ },
                mtime: self.lease_mtime,
                failure_logged: self.failure_logged,
            },
            manual: SourceModel {
                path: text::opt_text(self.manual_path),
                names: name_files::Names {
                    by_ip: self.manual_ip_map@,
                    by_mac: self.manual_mac_map@,
                },
                mtime: self.manual_mtime,
                failure_logged: self.manual_failure_logged,
            },
            resolved: self.resolved@,
            last_check: self.last_check,
        }
    }
}

/// A file that has not been read yet.
pub open spec fn unread(path: Option<Seq<char>>) -> SourceModel {
    SourceModel { path, names: name_files::no_names(), mtime: None, failure_logged: false }
}

/// The value of a key, where it has one.
pub open spec fn look_up(m: Map<Seq<char>, Seq<char>>, key: Seq<char>) -> Option<Seq<char>> {
    if m.contains_key(key) {
        Some(m[key])
    } else {
        None
    }
}

/// The first of two values that is there.
pub open spec fn or_else(a: Option<Seq<char>>, b: Option<Seq<char>>) -> Option<Seq<char>> {
    if a is Some {
        a
    } else {
        b
    }
}

/// The name of an address: by hand, else as observed, else as leased.
pub open spec fn name_of_ip(c: CacheModel, ip: Seq<char>) -> Option<Seq<char>> {
    or_else(
        look_up(c.manual.names.by_ip, ip),
        or_else(look_up(c.resolved, ip), look_up(c.lease.names.by_ip, ip)),
    )
}

/// The name of a hardware address: by hand, else as leased.
pub open spec fn name_of_mac(c: CacheModel, mac: Seq<char>) -> Option<Seq<char>> {
    or_else(look_up(c.manual.names.by_mac, mac), look_up(c.lease.names.by_mac, mac))
}

/// An observation says something: there is an address, and a hardware address
/// other than the one that stands for none.
pub open spec fn is_notable(ip: Seq<char>, mac: Seq<char>) -> bool {
    mac != ZERO_MAC@ && ip.len() > 0
}

/// The cache after an address was seen with a hardware address, given in lower case.
pub open spec fn noted(c: CacheModel, ip: Seq<char>, mac_lower: Seq<char>) -> CacheModel {
    match name_of_mac(c, mac_lower) {
        Some(name) => CacheModel {
            resolved: if c.resolved.len() >= RESOLVED_CAP {
                Map::<Seq<char>, Seq<char>>::empty().insert(ip, name)
            } else {
                c.resolved.insert(ip, name)
            },
            ..c
        },
        None => c,
    }
}

/// The files are to be looked at: there is one, and the last look is long ago.
pub open spec fn is_due(c: CacheModel, now: u64) -> bool {
    &&& c.lease.path is Some || c.manual.path is Some
    &&& c.last_check matches Some(last) ==> now >= last + RELOAD_INTERVAL
}

/// A file is to be read again: its time of change is unknown or another one.
pub open spec fn is_stale(s: SourceModel, mtime: Option<i128>) -> bool {
    s.path is Some && !(mtime is Some && mtime == s.mtime)
}

/// A file that was read.
pub open spec fn loaded(
    s: SourceModel,
    mtime: Option<i128>,
    names: name_files::Names,
) -> SourceModel {
    SourceModel { path: s.path, names, mtime, failure_logged: false }
}

/// A file that could not be read: its names are forgotten.
pub open spec fn failed(s: SourceModel) -> SourceModel {
    SourceModel { path: s.path, names: name_files::no_names(), mtime: None, failure_logged: true }
}

fn cloned(v: Option<&String>) -> (r: Option<String>)
    ensures
        r is Some == v is Some,
        r is Some ==> r->0@ == v->0@,
{
    match v {
        Some(s) => Some(s.clone()),
        None => None,
    }
}

impl LeaseHostnameCache {
    /// The maps are sound, and there are no more observations than may be kept.
    pub closed spec fn wf(self) -> bool {
        &&& self.ip_map.wf()
        &&& self.mac_map.wf()
        &&& self.manual_ip_map.wf()
        &&& self.manual_mac_map.wf()
        &&& self.resolved.wf()
        &&& self.resolved@.dom().finite()
        &&& self.resolved@.len() <= RESOLVED_CAP
    }

    /// The cache without a source.
    pub fn new() -> (r: Self)
        ensures
            r.wf(),
            r@ == (CacheModel {
                lease: unread(None),
                manual: unread(None),
                resolved: Map::empty(),
                last_check: None,
            }),
    {
        LeaseHostnameCache {
            path: None,
            manual_path: None,
            ip_map: NameMap::new(),
            mac_map: NameMap::new(),
            manual_ip_map: NameMap::new(),
            manual_mac_map: NameMap::new(),
            resolved: NameMap::new(),
            last_check: None,
            lease_mtime: None,
            manual_mtime: None,
            failure_logged: false,
            manual_failure_logged: false,
        }
    }

    /// Enable the cache with a lease file path. Re-enables after a previous
    /// failure and forces a reload on next lookup.
    pub fn set_path(&mut self, path: &str)
        requires
            old(self).wf(),
        ensures
            final(self).wf(),
            final(self)@ == (CacheModel {
                lease: unread(Some(path@)),
                last_check: None,
                ..old(self)@
            }),
    {
        self.path = Some(path.to_owned());
        self.ip_map.clear();
        self.mac_map.clear();
        self.lease_mtime = None;
        self.failure_logged = false;
        self.last_check = None;
    }

    /// Enable the optional manual map file, mirroring `set_path`.
    pub fn set_manual_path(&mut self, path: &str)
        requires
            old(self).wf(),
        ensures
            final(self).wf(),
            final(self)@ == (CacheModel {
                manual: unread(Some(path@)),
                last_check: None,
                ..old(self)@
            }),
    {
        self.manual_path = Some(path.to_owned());
        self.manual_ip_map.clear();
        self.manual_mac_map.clear();
        self.manual_mtime = None;
        self.manual_failure_logged = false;
        self.last_check = None;
    }

    /// Whether an observation says something; one that does not neither is
    /// kept nor makes the files be looked at.
    pub fn observation_counts(ip: &str, mac: &str) -> (r: bool)
        ensures
            r == is_notable(ip@, mac@),
    {
        !text::same_text(mac, ZERO_MAC) && !ip.is_empty()
    }

    /// Record that an address was seen with a hardware address, given in lower case.
    pub fn note_client_mac(&mut self, ip: &str, mac_lower: &str)
        requires
            old(self).wf(),
        ensures
            final(self).wf(),
            final(self)@ == noted(old(self)@, ip@, mac_lower@),
    {
        let name = match self.manual_mac_map.get(mac_lower) {
            Some(v) => Some(v.clone()),
            None => cloned(self.mac_map.get(mac_lower)),
        };
        if let Some(name) = name {
            if self.resolved.len() >= RESOLVED_CAP {
                self.resolved.clear();
            }
            self.resolved.insert(ip.to_owned(), name);
        }
    }

    /// Record a runtime observation: this IP was seen with this MAC. When the
    /// MAC maps to a hostname (lease or manual map), remember ip -> hostname so
    /// that IPv6 clients can be named through their MAC.
    pub fn note_client(&mut self, ip: &str, mac: &str)
        requires
            old(self).wf(),
        ensures
            final(self).wf(),
            final(self)@ == if is_notable(ip@, mac@) {
                noted(old(self)@, ip@, text::unicode_lowercase(mac@))
            } else {
                old(self)@
            },
    {
        if LeaseHostnameCache::observation_counts(ip, mac) {
            let mac_lower = mac.to_lowercase();
            self.note_client_mac(ip, mac_lower.as_str());
        }
    }

    /// Lookup hostname by client IP.
    /// Priority: manual ip map > runtime observation > lease ip map.
    /// Returns None when nothing matches; callers fall back to the raw IP.
    pub fn get(&self, ip: &str) -> (r: Option<String>)
        requires
            self.wf(),
        ensures
            text::opt_text(r) == name_of_ip(self@, ip@),
    {
        match self.manual_ip_map.get(ip) {
            Some(v) => Some(v.clone()),
            None => match self.resolved.get(ip) {
                Some(v) => Some(v.clone()),
                None => cloned(self.ip_map.get(ip)),
            },
        }
    }

    /// Whether the files are to be looked at now. A look that is due counts as
    /// taken; `now` is a time of a running clock, in nanoseconds.
    fn begin_reload(&mut self, now: u64) -> (r: bool)
        requires
            old(self).wf(),
        ensures
            final(self).wf(),
            r == is_due(old(self)@, now),
            final(self)@ == if r {
                (CacheModel { last_check: Some(now), ..old(self)@ })
            } else {
                old(self)@
            },
    {
        if self.path.is_none() && self.manual_path.is_none() {
            return false;
        }
        if let Some(last) = self.last_check {
            if now.saturating_sub(last) < RELOAD_INTERVAL {
                return false;
            }
        }
        self.last_check = Some(now);
        true
    }

    /// The lease file, where there is one.
    pub fn lease_path(&self) -> (r: Option<&String>)
        ensures
            match r {
                Some(p) => self@.lease.path == Some(p@),
                None => self@.lease.path is None,
            },
    {
        self.path.as_ref()
    }

    /// The manual map file, where there is one.
    pub fn manual_map_path(&self) -> (r: Option<&String>)
        ensures
            match r {
                Some(p) => self@.manual.path == Some(p@),
                None => self@.manual.path is None,
            },
    {
        self.manual_path.as_ref()
    }

    /// Whether the lease file is to be read, given when it was last changed, in
    /// nanoseconds since 1970.
    fn lease_is_stale(&self, mtime: Option<i128>) -> (r: bool)
        ensures
            r == is_stale(self@.lease, mtime),
    {
        self.path.is_some() && !same_time(mtime, self.lease_mtime)
    }

    /// Whether the manual map file is to be read, given when it was last
    /// changed, in nanoseconds since 1970.
    fn manual_map_is_stale(&self, mtime: Option<i128>) -> (r: bool)
        ensures
            r == is_stale(self@.manual, mtime),
    {
        self.manual_path.is_some() && !same_time(mtime, self.manual_mtime)
    }

    /// The lease file was read.
    fn lease_loaded(&mut self, mtime: Option<i128>, content: &str)
        requires
            old(self).wf(),
        ensures
            final(self).wf(),
            final(self)@ == (CacheModel {
                lease: loaded(
                    old(self)@.lease,
                    mtime,
                    name_files::lease_names(lines::lines(content@)),
                ),
                ..old(self)@
            }),
    {
        let (ip_map, mac_map) = name_files::parse_leases(content);
        self.ip_map = ip_map;
        self.mac_map = mac_map;
        self.lease_mtime = mtime;
        self.failure_logged = false;
    }

    /// The lease file could not be read; whether that is to be reported.
    fn lease_failed(&mut self) -> (r: bool)
        requires
            old(self).wf(),
        ensures
            final(self).wf(),
            r == !old(self)@.lease.failure_logged,
            final(self)@ == (CacheModel { lease: failed(old(self)@.lease), ..old(self)@ }),
    {
        self.ip_map.clear();
        self.mac_map.clear();
        self.lease_mtime = None;
        let report = !self.failure_logged;
        self.failure_logged = true;
        report
    }

    /// The manual map file was read.
    fn manual_map_loaded(&mut self, mtime: Option<i128>, content: &str)
        requires
            old(self).wf(),
        ensures
            final(self).wf(),
            final(self)@ == (CacheModel {
                manual: loaded(
                    old(self)@.manual,
                    mtime,
                    name_files::manual_names(lines::lines(content@)),
                ),
                ..old(self)@
            }),
    {
        let (ip_map, mac_map) = name_files::parse_manual(content);
        self.manual_ip_map = ip_map;
        self.manual_mac_map = mac_map;
        self.manual_mtime = mtime;
        self.manual_failure_logged = false;
    }

    /// The manual map file could not be read; whether that is to be reported.
    fn manual_map_failed(&mut self) -> (r: bool)
        requires
            old(self).wf(),
        ensures
            final(self).wf(),
            r == !old(self)@.manual.failure_logged,
            final(self)@ == (CacheModel { manual: failed(old(self)@.manual), ..old(self)@ }),
    {
        self.manual_ip_map.clear();
        self.manual_mac_map.clear();
        self.manual_mtime = None;
        let report = !self.manual_failure_logged;
        self.manual_failure_logged = true;
        report
    }
}

/// What happened during a reload.
#[derive(Debug)]
pub enum ReloadEvent {
    /// A lookup or an observation begins, at this time of a running clock, in nanoseconds.
    Start(u64),
    /// When the lease file was last changed, in nanoseconds since 1970, where that is known.
    LeaseTime(Option<i128>),
    /// The lease file was read, changed at that time; no content, it cannot be read.
    LeaseContent(Option<i128>, Option<String>),
    /// When the manual map file was last changed, in nanoseconds since 1970, where that is known.
    ManualTime(Option<i128>),
    /// The manual map file was read, changed at that time; no content, it cannot be read.
    ManualContent(Option<i128>, Option<String>),
}

/// What is to be done next during a reload.
#[derive(Debug, Clone, Copy, PartialEq, Eq, Structural)]
pub enum ReloadAction {
    /// Nothing.
    Finish,
    /// Find out when the lease file was last changed.
    CheckLease,
    /// Read the lease file.
    ReadLease,
    /// Find out when the manual map file was last changed.
    CheckManual,
    /// Read the manual map file.
    ReadManual,
}

/// One step of a reload: the cache after it, what is to be done next, and
/// whether it is to be reported that a file cannot be read.
pub struct ReloadStep {
    pub cache: CacheModel,
    pub action: ReloadAction,
    pub report: bool,
}

/// What comes after the lease file: the manual map file, where there is one.
pub open spec fn after_lease(c: CacheModel) -> ReloadAction {
    if c.manual.path is Some {
        ReloadAction::CheckManual
    } else {
        ReloadAction::Finish
    }
}

/// What comes first: the lease file, where there is one.
pub open spec fn after_start(c: CacheModel) -> ReloadAction {
    if c.lease.path is Some {
        ReloadAction::CheckLease
    } else {
        after_lease(c)
    }
}

/// A step that changes nothing and reports nothing.
pub open spec fn quiet(cache: CacheModel, action: ReloadAction) -> ReloadStep {
    ReloadStep { cache, action, report: false }
}

/// The step that an event leads to.
pub open spec fn reload_step(c: CacheModel, event: ReloadEvent) -> ReloadStep {
    match event {
        ReloadEvent::Start(now) => if is_due(c, now) {
            quiet(CacheModel { last_check: Some(now), ..c }, after_start(c))
        } else {
            quiet(c, ReloadAction::Finish)
        },
        ReloadEvent::LeaseTime(mtime) => quiet(
            c,
            if is_stale(c.lease, mtime) {
                ReloadAction::ReadLease
            } else {
                after_lease(c)
            },
        ),
        ReloadEvent::LeaseContent(mtime, Some(content)) => quiet(
            CacheModel {
                lease: loaded(
                    c.lease,
                    mtime,
                    name_files::lease_names(lines::lines(content@)),
                ),
                ..c
            },
            after_lease(c),
        ),
        ReloadEvent::LeaseContent(_, None) => ReloadStep {
            cache: CacheModel { lease: failed(c.lease), ..c },
            action: after_lease(c),
            report: !c.lease.failure_logged,
        },
        ReloadEvent::ManualTime(mtime) => quiet(
            c,
            if is_stale(c.manual, mtime) {
                ReloadAction::ReadManual
            } else {
                ReloadAction::Finish
            },
        ),
        ReloadEvent::ManualContent(mtime, Some(content)) => quiet(
            CacheModel {
                manual: loaded(
                    c.manual,
                    mtime,
                    name_files::manual_names(lines::lines(content@)),
                ),
                ..c
            },
            ReloadAction::Finish,
        ),
        ReloadEvent::ManualContent(_, None) => ReloadStep {
            cache: CacheModel { manual: failed(c.manual), ..c },
            action: ReloadAction::Finish,
            report: !c.manual.failure_logged,
        },
    }
}

impl LeaseHostnameCache {
    fn next_after_lease(&self) -> (r: ReloadAction)
        ensures
            r == after_lease(self@),
    {
        if self.manual_path.is_some() {
            ReloadAction::CheckManual
        } else {
            ReloadAction::Finish
        }
    }

    /// Takes one step of a reload. A reload begins with the start of a lookup
    /// or an observation, and each event is the outcome of the action before
    /// it; beside the next action stands whether it is to be reported that the
    /// file cannot be read. Files are looked at no more often than once in
    /// [`RELOAD_INTERVAL`], and read only when they have changed. Observations
    /// are runtime data and stay as they are.
    pub fn maybe_reload(&mut self, event: ReloadEvent) -> (r: (ReloadAction, bool))
        requires
            old(self).wf(),
        ensures
            final(self).wf(),
            ({
                let step = reload_step(old(self)@, event);
                &&& final(self)@ == step.cache
                &&& r.0 == step.action
                &&& r.1 == step.report
            }),
    {
        match event {
            ReloadEvent::Start(now) => if self.begin_reload(now) {
                if self.path.is_some() {
                    (ReloadAction::CheckLease, false)
                } else {
                    (self.next_after_lease(), false)
                }
            } else {
                (ReloadAction::Finish, false)
            },
            ReloadEvent::LeaseTime(mtime) => if self.lease_is_stale(mtime) {
                (ReloadAction::ReadLease, false)
            } else {
                (self.next_after_lease(), false)
            },
            ReloadEvent::LeaseContent(mtime, content) => match content {
                Some(content) => {
                    self.lease_loaded(mtime, content.as_str());
                    (self.next_after_lease(), false)
                },
                None => {
                    let report = self.lease_failed();
                    (self.next_after_lease(), report)
                },
            },
            ReloadEvent::ManualTime(mtime) => if self.manual_map_is_stale(mtime) {
                (ReloadAction::ReadManual, false)
            } else {
                (ReloadAction::Finish, false)
            },
            ReloadEvent::ManualContent(mtime, content) => match content {
                Some(content) => {
                    self.manual_map_loaded(mtime, content.as_str());
                    (ReloadAction::Finish, false)
                },
                None => (ReloadAction::Finish, self.manual_map_failed()),
            },
        }
    }
}

/// How far a reload has come.
pub open spec fn remaining_steps(a: ReloadAction) -> nat {
    match a {
        ReloadAction::Finish => 0,
        ReloadAction::ReadManual => 1,
        ReloadAction::CheckManual => 2,
        ReloadAction::ReadLease => 3,
        ReloadAction::CheckLease => 4,
    }
}

/// The event is the outcome of the action.
pub open spec fn answers(event: ReloadEvent, a: ReloadAction) -> bool {
    match event {
        ReloadEvent::Start(_) => false,
        ReloadEvent::LeaseTime(_) => a == ReloadAction::CheckLease,
        ReloadEvent::LeaseContent(_, _) => a == ReloadAction::ReadLease,
        ReloadEvent::ManualTime(_) => a == ReloadAction::CheckManual,
        ReloadEvent::ManualContent(_, _) => a == ReloadAction::ReadManual,
    }
}

/// A reload comes to its end: every step brings it nearer, and it asks for a
/// file only where that file has a path. No step touches the observations.
pub proof fn law_reload_ends(c: CacheModel, a: ReloadAction, event: ReloadEvent)
    requires
        answers(event, a),
    ensures
        ({
            let step = reload_step(c, event);
            &&& remaining_steps(step.action) < remaining_steps(a)
            &&& step.action == ReloadAction::ReadLease ==> c.lease.path is Some
            &&& step.action == ReloadAction::CheckManual || step.action == ReloadAction::ReadManual
                ==> c.manual.path is Some
            &&& step.cache.resolved == c.resolved
            &&& step.cache.lease.path == c.lease.path
            &&& step.cache.manual.path == c.manual.path
        }),
{
}

fn same_time(a: Option<i128>, b: Option<i128>) -> (r: bool)
    ensures
        r == (a is Some && a == b),
{
    match (a, b) {
        (Some(x), Some(y)) => x == y,
        _ => false,
    }
}

/// The map names the address so.
pub open spec fn names(m: Map<Seq<char>, Seq<char>>, ip: Seq<char>, hostname: Seq<char>) -> bool {
    m.contains_key(ip) && m[ip] == hostname
}

/// Some source names the address so.
pub open spec fn registered(c: CacheModel, ip: Seq<char>, hostname: Seq<char>) -> bool {
    names(c.manual.names.by_ip, ip, hostname) || names(c.resolved, ip, hostname) || names(
        c.lease.names.by_ip,
        ip,
        hostname,
    )
}

/// The first source that names the address so, counted from 0.
pub open spec fn source_rank(c: CacheModel, ip: Seq<char>, hostname: Seq<char>) -> int {
    if names(c.manual.names.by_ip, ip, hostname) {
        0
    } else if names(c.resolved, ip, hostname) {
        1
    } else {
        2
    }
}

/// The list holds every address that some source names so, each once, in the
/// order of the first source that does.
pub open spec fn are_ips_of(list: Seq<Seq<char>>, c: CacheModel, hostname: Seq<char>) -> bool {
    &&& list.no_duplicates()
    &&& forall|ip: Seq<char>| #[trigger] list.contains(ip) <==> registered(c, ip, hostname)
    &&& forall|i: int, j: int|
        #![trigger list[i], list[j]]
        0 <= i < j < list.len() ==> source_rank(c, list[i], hostname) <= source_rank(
            c,
            list[j],
            hostname,
        )
}

fn holds_text(list: &Vec<String>, s: &String) -> (r: bool)
    ensures
        r == text::texts(list@).contains(s@),
{
    let mut i: usize = 0;
    while i < list.len()
        invariant
            i <= list@.len(),
            forall|j: int| 0 <= j < i ==> (#[trigger] list@[j])@ != s@,
        decreases list@.len() - i,
    {
        if list[i] == *s {
            assert(text::texts(list@)[i as int] == s@);
            return true;
        }
        i += 1;
    }
    false
}

/// Adds the keys of the map that are named so and are not yet in the list.
fn collect_ips(map: &NameMap, hostname: &str, ips: &mut Vec<String>)
    requires
        map.wf(),
        text::texts(old(ips)@).no_duplicates(),
    ensures
        text::texts(final(ips)@).no_duplicates(),
        old(ips)@.len() <= final(ips)@.len(),
        forall|i: int|
            0 <= i < old(ips)@.len() ==> text::texts(final(ips)@)[i] == #[trigger] text::texts(
                old(ips)@,
            )[i],
        forall|i: int|
            old(ips)@.len() <= i < final(ips)@.len() ==> names(
                map@,
                #[trigger] text::texts(final(ips)@)[i],
                hostname@,
            ),
        forall|ip: Seq<char>|
            names(map@, ip, hostname@) ==> #[trigger] text::texts(final(ips)@).contains(ip),
{
    let entries = map.entries();
    let ghost before = ips@;
    let ghost m = map@;
    let mut i: usize = 0;
    while i < entries.len()
        invariant
            m == map@,
            name_map::lists(entries@, m),
            i <= entries@.len(),
            text::texts(ips@).no_duplicates(),
            before.len() <= ips@.len(),
            forall|j: int|
                0 <= j < before.len() ==> text::texts(ips@)[j] == #[trigger] text::texts(before)[j],
            forall|j: int|
                before.len() <= j < ips@.len() ==> names(
                    m,
                    #[trigger] text::texts(ips@)[j],
                    hostname@,
                ),
            forall|j: int|
                0 <= j < i && (#[trigger] entries@[j]).1@ == hostname@ ==> text::texts(
                    ips@,
                ).contains(entries@[j].0@),
        decreases entries@.len() - i,
    {
        let ghost held = ips@;
        if text::same_text(entries[i].1.as_str(), hostname) && !holds_text(ips, &entries[i].0) {
            ips.push(entries[i].0.clone());
            proof {
                let t = text::texts(held);
                text::lemma_texts_push(held, ips@.last());
                assert(names(m, entries@[i as int].0@, hostname@));
                assert forall|j: int|
                    0 <= j < i + 1 && (#[trigger] entries@[j]).1@ == hostname@ implies text::texts(
                    ips@,
                ).contains(entries@[j].0@) by {
                    if j < i {
                        let k = choose|k: int| 0 <= k < t.len() && t[k] == entries@[j].0@;
                        assert(text::texts(ips@)[k] == entries@[j].0@);
                    } else {
                        assert(text::texts(ips@)[t.len() as int] == entries@[j].0@);
                    }
                }
            }
        }
        i += 1;
    }
    assert forall|ip: Seq<char>| names(m, ip, hostname@) implies #[trigger] text::texts(
        ips@,
    ).contains(ip) by {
        let j = choose|j: int| 0 <= j < entries@.len() && (#[trigger] entries@[j]).0@ == ip;
        assert(entries@[j].1@ == hostname@);
    }
}

impl LeaseHostnameCache {
    /// Reverse lookup: every IP registered under `hostname`, merged from all
    /// sources and deduplicated. A single hostname may map to both an IPv4
    /// (lease/manual ip entry) and an IPv6 address (runtime MAC bridging),
    /// both are returned so a filter can match every row of that client.
    pub fn find_ips_by_hostname(&self, hostname: &str) -> (r: Vec<String>)
        requires
            self.wf(),
        ensures
            are_ips_of(text::texts(r@), self@, hostname@),
    {
        let mut ips: Vec<String> = Vec::new();
        let ghost c = self@;
        let ghost h = hostname@;
        collect_ips(&self.manual_ip_map, hostname, &mut ips);
        let ghost a = text::texts(ips@);
        collect_ips(&self.resolved, hostname, &mut ips);
        let ghost b = text::texts(ips@);
        collect_ips(&self.ip_map, hostname, &mut ips);
        proof {
            let list = text::texts(ips@);
            assert forall|i: int| 0 <= i < list.len() implies {
                &&& i < a.len() ==> names(c.manual.names.by_ip, #[trigger] list[i], h)
                &&& a.len() <= i < b.len() ==> names(c.resolved, list[i], h)
                &&& b.len() <= i ==> names(c.lease.names.by_ip, list[i], h)
            } by {
                if i < a.len() {
                    assert(b[i] == a[i]);
                    assert(list[i] == b[i]);
                } else if i < b.len() {
                    assert(list[i] == b[i]);
                }
            }
            assert forall|ip: Seq<char>| a.contains(ip) implies #[trigger] list.contains(ip) by {
                let k = choose|k: int| 0 <= k < a.len() && a[k] == ip;
                assert(b[k] == a[k]);
                assert(list[k] == b[k]);
            }
            assert forall|ip: Seq<char>| b.contains(ip) implies #[trigger] list.contains(ip) by {
                let k = choose|k: int| 0 <= k < b.len() && b[k] == ip;
                assert(list[k] == b[k]);
            }
            assert forall|ip: Seq<char>| #[trigger] list.contains(ip) <==> registered(c, ip, h) by {
                if list.contains(ip) {
                    let k = choose|k: int| 0 <= k < list.len() && list[k] == ip;
                    assert(registered(c, list[k], h));
                }
            }
            assert forall|i: int, j: int|
                #![trigger list[i], list[j]]
                0 <= i < j < list.len() implies source_rank(c, list[i], h) <= source_rank(
                c,
                list[j],
                h,
            ) by {
                if i >= a.len() && names(c.manual.names.by_ip, list[j], h) {
                    assert(a.contains(list[j]));
                    let k = choose|k: int| 0 <= k < a.len() && a[k] == list[j];
                    assert(b[k] == a[k]);
                    assert(list[k] == b[k]);
                }
                if i >= b.len() && names(c.resolved, list[j], h) {
                    assert(b.contains(list[j]));
                    let k = choose|k: int| 0 <= k < b.len() && b[k] == list[j];
                    assert(list[k] == b[k]);
                }
            }
        }
        ips
    }
}

/// What is shown for an address: the router itself as `localhost`, a known
/// client by its name, any other by its address.
pub open spec fn shown(c: CacheModel, ip: Seq<char>, loopback: bool) -> Seq<char> {
    if loopback {
        "localhost"@
    } else {
        match name_of_ip(c, ip) {
            Some(name) => name,
            None => ip,
        }
    }
}

/// Final display value for a client: loopback queries come from the router
/// itself and are shown as "localhost", known clients show their hostname,
/// everything else keeps the raw IP. `loopback` tells whether the address is a
/// loopback address.
pub fn display_name(cache: &LeaseHostnameCache, ip: &str, loopback: bool) -> (r: String)
    requires
        cache.wf(),
    ensures
        r@ == shown(cache@, ip@, loopback),
{
    if loopback {
        return "localhost".to_owned();
    }
    match cache.get(ip) {
        Some(name) => name,
        None => ip.to_owned(),
    }
}

/// Replace the client field of domain log rows with hostnames where known.
/// Rows whose IP cannot be resolved keep the raw IP. `loopback` tells for each
/// row whether its client is a loopback address.
pub fn apply_to_domain_list(
    list: &mut Vec<DomainData>,
    cache: &LeaseHostnameCache,
    loopback: &Vec<bool>,
)
    requires
        cache.wf(),
        loopback@.len() == old(list)@.len(),
    ensures
        final(list)@.len() == old(list)@.len(),
        forall|i: int|
            0 <= i < old(list)@.len() ==> {
                &&& (#[trigger] final(list)@[i]).client@ == shown(
                    cache@,
                    old(list)@[i].client@,
                    loopback@[i],
                )
                &&& final(list)@[i] == (DomainData {
                    client: final(list)@[i].client,
                    ..old(list)@[i]
                })
            },
{
    let ghost before = list@;
    let mut i: usize = 0;
    while i < list.len()
        invariant
            cache.wf(),
            loopback@.len() == before.len(),
            list@.len() == before.len(),
            i <= before.len(),
            forall|j: int|
                0 <= j < i ==> {
                    &&& (#[trigger] list@[j]).client@ == shown(
                        cache@,
                        before[j].client@,
                        loopback@[j],
                    )
                    &&& list@[j] == (DomainData { client: list@[j].client, ..before[j] })
                },
            forall|j: int| i <= j < before.len() ==> #[trigger] list@[j] == before[j],
        decreases before.len() - i,
    {
        let name = display_name(cache, list[i].client.as_str(), loopback[i]);
        let row = &mut list[i];
        row.client = name;
        i += 1;
    }
}

/// Where no source has names, nothing is named: every client is shown by its address.
pub proof fn law_without_names_addresses_are_shown(c: CacheModel, ip: Seq<char>)
    requires
        c.manual.names == name_files::no_names(),
        c.lease.names == name_files::no_names(),
        c.resolved == Map::<Seq<char>, Seq<char>>::empty(),
    ensures
        name_of_ip(c, ip) is None,
        shown(c, ip, false) == ip,
{
}

/// A name that is kept by hand goes before every other.
pub proof fn law_manual_name_wins(c: CacheModel, ip: Seq<char>)
    requires
        c.manual.names.by_ip.contains_key(ip),
    ensures
        name_of_ip(c, ip) == Some(c.manual.names.by_ip[ip]),
{
}

/// A client that was seen with a hardware address of known name has that name,
/// unless its address has one by hand; this names addresses that no file holds.
pub proof fn law_noted_client_is_named(
    c: CacheModel,
    ip: Seq<char>,
    mac_lower: Seq<char>,
    name: Seq<char>,
)
    requires
        name_of_mac(c, mac_lower) == Some(name),
        !c.manual.names.by_ip.contains_key(ip),
    ensures
        name_of_ip(noted(c, ip, mac_lower), ip) == Some(name),
        registered(noted(c, ip, mac_lower), ip, name),
{
}

/// An observation leaves the names of other addresses as they are, as long as
/// there is room for it.
pub proof fn law_noted_client_leaves_others(
    c: CacheModel,
    ip: Seq<char>,
    mac_lower: Seq<char>,
    other: Seq<char>,
)
    requires
        c.resolved.len() < RESOLVED_CAP,
        other != ip,
    ensures
        name_of_ip(noted(c, ip, mac_lower), other) == name_of_ip(c, other),
{
}

/// There are never more observations than may be kept.
pub proof fn law_observations_are_capped(c: CacheModel, ip: Seq<char>, mac_lower: Seq<char>)
    requires
        c.resolved.dom().finite(),
        c.resolved.len() <= RESOLVED_CAP,
    ensures
        noted(c, ip, mac_lower).resolved.dom().finite(),
        noted(c, ip, mac_lower).resolved.len() <= RESOLVED_CAP,
{
}

/// The address of a client is among those that are found under its name.
pub proof fn law_named_address_is_found(
    c: CacheModel,
    ip: Seq<char>,
    name: Seq<char>,
    found: Seq<Seq<char>>,
)
    requires
        name_of_ip(c, ip) == Some(name),
        are_ips_of(found, c, name),
    ensures
        found.contains(ip),
{
    assert(registered(c, ip, name));
}

/// After a look at the files there is none for the length of the interval.
pub proof fn law_files_are_looked_at_once_in_an_interval(c: CacheModel, now: u64, later: u64)
    requires
        later < now + RELOAD_INTERVAL,
    ensures
        !is_due(CacheModel { last_check: Some(now), ..c }, later),
{
}

/// A new path makes the file be read at the next lookup, whatever its time of
/// change, and forgets what the earlier file said; observations stay.
pub proof fn law_new_path_forces_a_reload(
    c: CacheModel,
    path: Seq<char>,
    now: u64,
    mtime: Option<i128>,
)
    ensures
        ({
            let lease = CacheModel { lease: unread(Some(path)), last_check: None, ..c };
            let manual = CacheModel { manual: unread(Some(path)), last_check: None, ..c };
            &&& is_due(lease, now) && is_stale(lease.lease, mtime)
            &&& is_due(manual, now) && is_stale(manual.manual, mtime)
            &&& lease.lease.names == name_files::no_names()
            &&& manual.manual.names == name_files::no_names()
            &&& lease.resolved == c.resolved && manual.resolved == c.resolved
        }),
{
}

/// A file that has not changed since it was read is not read again.
pub proof fn law_unchanged_file_is_not_read_again(
    s: SourceModel,
    mtime: i128,
    names: name_files::Names,
)
    ensures
        !is_stale(loaded(s, Some(mtime), names), Some(mtime)),
{
}

/// That the lease file cannot be read is reported at the first of a row of
/// failures, and its names are forgotten at each of them.
pub proof fn law_failure_is_reported_once(c: CacheModel, first: Option<i128>, second: Option<i128>)
    requires
        !c.lease.failure_logged,
    ensures
        ({
            let one = reload_step(c, ReloadEvent::LeaseContent(first, None));
            let two = reload_step(one.cache, ReloadEvent::LeaseContent(second, None));
            &&& one.report && !two.report
            &&& one.cache.lease.names == name_files::no_names()
            &&& two.cache == one.cache
        }),
{
}

} // verus!
