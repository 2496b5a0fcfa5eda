//! A whole reload of the hostname cache, from the lookup that starts it to its end.

use vstd::prelude::*;

use crate::hostname;
use crate::hostname::{CacheModel, ReloadAction, ReloadEvent, SourceModel};
use crate::lines;
use crate::name_files;

verus! {

/// What a reload finds of a file: when it was last changed, where that is
/// known, and its content, where it can be read.
pub struct FileState {
    pub mtime: Option<i128>,
    pub content: Option<String>,
}

/// What comes of an action.
pub open spec fn outcome(a: ReloadAction, lease: FileState, manual: FileState) -> ReloadEvent {
    match a {
        ReloadAction::CheckLease => ReloadEvent::LeaseTime(lease.mtime),
        ReloadAction::ReadLease => ReloadEvent::LeaseContent(lease.mtime, lease.content),
        ReloadAction::CheckManual => ReloadEvent::ManualTime(manual.mtime),
        _ => ReloadEvent::ManualContent(manual.mtime, manual.content),
    }
}

/// The cache when a reload that goes on with an action has come to its end.
pub open spec fn at_end(
    c: CacheModel,
    a: ReloadAction,
    lease: FileState,
    manual: FileState,
) -> CacheModel
    decreases hostname::remaining_steps(a),
{
    let step = hostname::reload_step(c, outcome(a, lease, manual));
    if a == ReloadAction::Finish || hostname::remaining_steps(step.action)
        >= hostname::remaining_steps(a) {
        c
    } else {
        at_end(step.cache, step.action, lease, manual)
    }
}

/// A reload that goes on with an action carries out the wanted one.
pub open spec fn carries_out(
    c: CacheModel,
    a: ReloadAction,
    lease: FileState,
    manual: FileState,
    wanted: ReloadAction,
) -> bool
    decreases hostname::remaining_steps(a),
{
    let step = hostname::reload_step(c, outcome(a, lease, manual));
    if a == wanted {
        true
    } else if a == ReloadAction::Finish || hostname::remaining_steps(step.action)
        >= hostname::remaining_steps(a) {
        false
    } else {
        carries_out(step.cache, step.action, lease, manual, wanted)
    }
}

/// The files have to be looked at: there is one, and they have not been looked
/// at for half a minute.
pub open spec fn looks_now(c: CacheModel, now: u64) -> bool {
    &&& c.lease.path is Some || c.manual.path is Some
    &&& match c.last_check {
        Some(last) => now - last >= 30_000_000_000,
        None => true,
    }
}

/// The file that was found is the one that is known.
pub open spec fn is_known(s: SourceModel, f: FileState) -> bool {
    match (s.mtime, f.mtime) {
        (Some(a), Some(b)) => a == b,
        _ => false,
    }
}

/// What is known of a file after a look at it: all as before where there is no
/// such file or it is the one that is known, else the names that it holds now,
/// and none where it cannot be read.
pub open spec fn knows(
    before: SourceModel,
    after: SourceModel,
    f: FileState,
    names: spec_fn(Seq<char>) -> name_files::Names,
) -> bool {
    if before.path is None || is_known(before, f) {
        after == before
    } else {
        &&& after.path == before.path
        &&& match f.content {
            Some(content) => after.names == names(content@) && after.mtime == f.mtime
                && !after.failure_logged,
            None => after.names.by_ip == Map::<Seq<char>, Seq<char>>::empty()
                && after.names.by_mac == Map::<Seq<char>, Seq<char>>::empty()
                && after.mtime is None && after.failure_logged,
        }
    }
}

/// The names of a lease file and of a map file.
pub open spec fn leased() -> spec_fn(Seq<char>) -> name_files::Names {
    |content: Seq<char>| name_files::lease_names(lines::lines(content))
}

pub open spec fn kept_by_hand() -> spec_fn(Seq<char>) -> name_files::Names {
    |content: Seq<char>| name_files::manual_names(lines::lines(content))
}

/// A reload that is due looks at every file that has a path, whatever came of
/// the other one, and reads it where it is not the one that is known. At its
/// end the names of each file are those of the file, the observations are as
/// before, and the next look is not due before its time.
pub proof fn law_reload_looks_at_every_file(
    c: CacheModel,
    now: u64,
    lease: FileState,
    manual: FileState,
)
    requires
        looks_now(c, now),
    ensures
        ({
            let first = hostname::reload_step(c, ReloadEvent::Start(now));
            let end = at_end(first.cache, first.action, lease, manual);
            let does = |wanted: ReloadAction|
                carries_out(first.cache, first.action, lease, manual, wanted);
            &&& does(ReloadAction::CheckLease) <==> c.lease.path is Some
            &&& does(ReloadAction::CheckManual) <==> c.manual.path is Some
            &&& does(ReloadAction::ReadLease) <==> c.lease.path is Some && !is_known(c.lease, lease)
            &&& does(ReloadAction::ReadManual) <==> c.manual.path is Some && !is_known(
                c.manual,
                manual,
            )
            &&& does(ReloadAction::Finish)
            &&& knows(c.lease, end.lease, lease, leased())
            &&& knows(c.manual, end.manual, manual, kept_by_hand())
            &&& end.resolved == c.resolved
            &&& end.last_check == Some(now)
        }),
{
    reveal_with_fuel(at_end, 6);
    reveal_with_fuel(carries_out, 6);
}

/// After a reload that was due and found both files readable, the names are
/// those of the present contents, whichever of the files was read anew, as long
/// as the contents that are known are those of the known times of change.
pub proof fn law_names_are_those_of_the_files(
    c: CacheModel,
    now: u64,
    lease: FileState,
    manual: FileState,
)
    requires
        looks_now(c, now),
        c.lease.path is Some,
        c.manual.path is Some,
        lease.content is Some,
        manual.content is Some,
        is_known(c.lease, lease) ==> c.lease.names == leased()(lease.content->0@),
        is_known(c.manual, manual) ==> c.manual.names == kept_by_hand()(manual.content->0@),
    ensures
        ({
            let first = hostname::reload_step(c, ReloadEvent::Start(now));
            let end = at_end(first.cache, first.action, lease, manual);
            &&& end.lease.names == leased()(lease.content->0@)
            &&& end.manual.names == kept_by_hand()(manual.content->0@)
        }),
{
    law_reload_looks_at_every_file(c, now, lease, manual);
}

/// A reload that is not due changes nothing and asks for nothing.
pub proof fn law_reload_waits_until_it_is_due(c: CacheModel, now: u64)
    requires
        !looks_now(c, now),
    ensures
        ({
            let first = hostname::reload_step(c, ReloadEvent::Start(now));
            &&& first.cache == c
            &&& first.action == ReloadAction::Finish
            &&& !first.report
        }),
{
}

/// It is reported that a file cannot be read exactly where it could not be read
/// just now and that was not reported yet.
pub proof fn law_only_new_failures_are_reported(c: CacheModel, event: ReloadEvent)
    ensures
        hostname::reload_step(c, event).report <==> match event {
            ReloadEvent::LeaseContent(_, None) => !c.lease.failure_logged,
            ReloadEvent::ManualContent(_, None) => !c.manual.failure_logged,
            _ => false,
        },
{
}

/// The name of an address is the one that was given by hand; without one that
/// of the last observation, and without an observation that of its lease.
pub proof fn law_sources_of_a_name(c: CacheModel, ip: Seq<char>)
    ensures
        c.manual.names.by_ip.contains_key(ip) ==> hostname::name_of_ip(c, ip) == Some(
            c.manual.names.by_ip[ip],
        ),
        !c.manual.names.by_ip.contains_key(ip) && c.resolved.contains_key(ip)
            ==> hostname::name_of_ip(c, ip) == Some(c.resolved[ip]),
        !c.manual.names.by_ip.contains_key(ip) && !c.resolved.contains_key(ip)
            && c.lease.names.by_ip.contains_key(ip) ==> hostname::name_of_ip(c, ip) == Some(
            c.lease.names.by_ip[ip],
        ),
        !c.manual.names.by_ip.contains_key(ip) && !c.resolved.contains_key(ip)
            && !c.lease.names.by_ip.contains_key(ip) ==> hostname::name_of_ip(c, ip) is None,
{
}

/// An observation of a hardware address names the address by hand before it
/// names it as leased; one whose hardware address has no name changes nothing,
/// and none changes more than the observations.
pub proof fn law_sources_of_an_observation(c: CacheModel, ip: Seq<char>, mac: Seq<char>)
    ensures
        ({
            let after = hostname::noted(c, ip, mac);
            let by_hand = c.manual.names.by_mac;
            let by_lease = c.lease.names.by_mac;
            &&& by_hand.contains_key(mac) ==> after.resolved.contains_key(ip) && after.resolved[ip]
                == by_hand[mac]
            &&& !by_hand.contains_key(mac) && by_lease.contains_key(mac)
                ==> after.resolved.contains_key(ip) && after.resolved[ip] == by_lease[mac]
            &&& !by_hand.contains_key(mac) && !by_lease.contains_key(mac) ==> after == c
            &&& after.lease == c.lease && after.manual == c.manual
            &&& after.last_check == c.last_check
            &&& forall|other: Seq<char>|
                other != ip && #[trigger] after.resolved.contains_key(other)
                    ==> c.resolved.contains_key(other) && after.resolved[other] == c.resolved[other]
            &&& c.resolved.len() >= 10000 && after != c ==> after.resolved.dom() =~= set![ip]
            &&& forall|other: Seq<char>|
                c.resolved.len() < 10000 && #[trigger] c.resolved.contains_key(other)
                    ==> after.resolved.contains_key(other)
        }),
{
}

/// The map names the address so.
pub open spec fn gives(m: Map<Seq<char>, Seq<char>>, ip: Seq<char>, name: Seq<char>) -> bool {
    m.contains_key(ip) && m[ip] == name
}

/// The addresses of a name: every address that is named so by hand, as observed
/// or as leased, and no other; those by hand come first, and those that are
/// leased only come last.
pub proof fn law_addresses_of_a_name_come_by_source(
    c: CacheModel,
    name: Seq<char>,
    found: Seq<Seq<char>>,
)
    requires
        hostname::are_ips_of(found, c, name),
    ensures
        forall|ip: Seq<char>| #[trigger]
            found.contains(ip) <==> {
                ||| gives(c.manual.names.by_ip, ip, name)
                ||| gives(c.resolved, ip, name)
                ||| gives(c.lease.names.by_ip, ip, name)
            },
        forall|i: int, j: int|
            #![trigger found[i], found[j]]
            0 <= i < j < found.len() ==> {
                &&& found[i] != found[j]
                &&& gives(c.manual.names.by_ip, found[j], name) ==> gives(
                    c.manual.names.by_ip,
                    found[i],
                    name,
                )
                &&& gives(c.resolved, found[j], name) ==> gives(
                    c.manual.names.by_ip,
                    found[i],
                    name,
                ) || gives(c.resolved, found[i], name)
            },
{
    assert forall|i: int, j: int|
        #![trigger found[i], found[j]]
        0 <= i < j < found.len() implies {
        &&& found[i] != found[j]
        &&& gives(c.manual.names.by_ip, found[j], name) ==> gives(
            c.manual.names.by_ip,
            found[i],
            name,
        )
        &&& gives(c.resolved, found[j], name) ==> gives(c.manual.names.by_ip, found[i], name)
            || gives(c.resolved, found[i], name)
    } by {
        assert(hostname::source_rank(c, found[i], name) <= hostname::source_rank(
            c,
            found[j],
            name,
        ));
    }
}

/// The router itself is shown as `localhost`, a client with a name by its name,
/// and any other client by its address.
pub proof fn law_what_is_shown_of_a_client(c: CacheModel, ip: Seq<char>)
    ensures
        hostname::shown(c, ip, true) == seq!['l', 'o', 'c', 'a', 'l', 'h', 'o', 's', 't'],
        gives(c.manual.names.by_ip, ip, hostname::shown(c, ip, false)) || gives(
            c.resolved,
            ip,
            hostname::shown(c, ip, false),
        ) || gives(c.lease.names.by_ip, ip, hostname::shown(c, ip, false)) || hostname::shown(
            c,
            ip,
            false,
        ) == ip && !c.manual.names.by_ip.contains_key(ip) && !c.resolved.contains_key(ip)
            && !c.lease.names.by_ip.contains_key(ip),
{
    reveal_strlit("localhost");
    assert("localhost"@ =~= seq!['l', 'o', 'c', 'a', 'l', 'h', 'o', 's', 't']);
}

} // verus!
