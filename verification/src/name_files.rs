//! The two files that client names come from: the lease file of dnsmasq, and
//! the map file that is kept by hand.

use vstd::prelude::*;
use vstd::string::*;

use crate::lines;
use crate::name_map::NameMap;
use crate::text;

verus! {

/// The text holds the character.
pub open spec fn holds(s: Seq<char>, c: char) -> bool {
    exists|i: int| 0 <= i < s.len() && #[trigger] s[i] == c
}

fn holds_char(s: &str, c: char) -> (r: bool)
    ensures
        r == holds(s@, c),
{
    let chars = text::char_vec(s);
    let mut i: usize = 0;
    while i < chars.len()
        invariant
            chars@ == s@,
            i <= chars@.len(),
            forall|j: int| 0 <= j < i ==> #[trigger] chars@[j] != c,
        decreases chars@.len() - i,
    {
        if chars[i] == c {
            assert(s@[i as int] == c);
            return true;
        }
        i += 1;
    }
    false
}

fn begins_with_hash(s: &str) -> (r: bool)
    requires
        s@.len() > 0,
    ensures
        r == (s@[0] == '#'),
{
    let chars = text::char_vec(s);
    chars[0] == '#'
}

/// A lease: the hardware address, the address and the name of a client.
pub struct Lease {
    pub mac: Seq<char>,
    pub ip: Seq<char>,
    pub hostname: Seq<char>,
}

/// The lease on a line: `<expiry> <mac> <ip> <hostname> ..`. There is none where
/// a field is missing, the line begins with `#`, the name is the placeholder
/// `*`, or the address has neither a dot nor a colon.
pub open spec fn lease_of(line: Seq<char>) -> Option<Lease> {
    let f = lines::fields(line);
    if f.len() >= 4 && f[0][0] != '#' && f[3] != "*"@ && (holds(f[2], '.') || holds(f[2], ':')) {
        Some(Lease { mac: f[1], ip: f[2], hostname: f[3] })
    } else {
        None
    }
}

/// Parses one line of a lease file into hardware address, address and name.
pub fn parse_lease_line(line: &str) -> (r: Option<(String, String, String)>)
    ensures
        match r {
            Some(l) => lease_of(line@) == Some(
                (Lease { mac: l.0@, ip: l.1@, hostname: l.2@ }),
            ),
            None => lease_of(line@) is None,
        },
{
    let fields = lines::split_fields(line);
    let ghost f = lines::fields(line@);
    assert(fields@.len() == f.len()) by {
        assert(text::texts(fields@).len() == fields@.len());
    }
    if fields.len() < 4 {
        return None;
    }
    proof {
        lines::law_fields_are_words(line@);
        assert(text::texts(fields@)[0] == f[0] && text::texts(fields@)[1] == f[1]);
        assert(text::texts(fields@)[2] == f[2] && text::texts(fields@)[3] == f[3]);
        assert(f[0].len() > 0);
    }
    if begins_with_hash(fields[0].as_str()) {
        return None;
    }
    if text::same_text(fields[3].as_str(), "*") {
        return None;
    }
    if !holds_char(fields[2].as_str(), '.') && !holds_char(fields[2].as_str(), ':') {
        return None;
    }
    Some((fields[1].clone(), fields[2].clone(), fields[3].clone()))
}

/// Names by address, and names by hardware address.
#[verifier::ext_equal]
pub struct Names {
    pub by_ip: Map<Seq<char>, Seq<char>>,
    pub by_mac: Map<Seq<char>, Seq<char>>,
}

pub open spec fn no_names() -> Names {
    Names { by_ip: Map::empty(), by_mac: Map::empty() }
}

/// The names with those of a lease; `mac` is the form of the hardware address
/// by which it is found.
pub open spec fn with_lease(n: Names, l: Lease, mac: Seq<char>) -> Names {
    Names { by_ip: n.by_ip.insert(l.ip, l.hostname), by_mac: n.by_mac.insert(mac, l.hostname) }
}

/// The names of the leases on the lines; a later lease replaces an earlier one.
pub open spec fn lease_names(l: Seq<Seq<char>>) -> Names
    decreases l.len(),
{
    if l.len() == 0 {
        no_names()
    } else {
        let n = lease_names(l.drop_last());
        match lease_of(l.last()) {
            Some(lease) => with_lease(n, lease, text::unicode_lowercase(lease.mac)),
            None => n,
        }
    }
}

/// Adds the names of one lease, whose hardware address is in lower case.
pub fn add_lease(
    by_ip: &mut NameMap,
    by_mac: &mut NameMap,
    mac_lower: String,
    ip: String,
    hostname: String,
)
    requires
        old(by_ip).wf(),
        old(by_mac).wf(),
    ensures
        final(by_ip).wf(),
        final(by_mac).wf(),
        final(by_ip)@ == old(by_ip)@.insert(ip@, hostname@),
        final(by_mac)@ == old(by_mac)@.insert(mac_lower@, hostname@),
{
    by_ip.insert(ip, hostname.clone());
    by_mac.insert(mac_lower, hostname);
}

/// Parses a lease file into names by address and names by hardware address in
/// lower case.
pub fn parse_leases(content: &str) -> (r: (NameMap, NameMap))
    ensures
        r.0.wf(),
        r.1.wf(),
        lease_names(lines::lines(content@)) == (Names { by_ip: r.0@, by_mac: r.1@ }),
{
    let all = lines::split_lines(content);
    let ghost l = lines::lines(content@);
    let mut by_ip = NameMap::new();
    let mut by_mac = NameMap::new();
    let mut i: usize = 0;
    assert(all@.len() == l.len()) by {
        assert(text::texts(all@).len() == all@.len());
    }
    assert(l.take(0) =~= Seq::empty());
    while i < all.len()
        invariant
            l == text::texts(all@),
            all@.len() == l.len(),
            i <= l.len(),
            by_ip.wf(),
            by_mac.wf(),
            lease_names(l.take(i as int)) == (Names { by_ip: by_ip@, by_mac: by_mac@ }),
        decreases l.len() - i,
    {
        assert(l.take(i + 1).drop_last() =~= l.take(i as int));
        assert(l.take(i + 1).last() == all@[i as int]@);
        if let Some((mac, ip, hostname)) = parse_lease_line(all[i].as_str()) {
            add_lease(&mut by_ip, &mut by_mac, mac.as_str().to_lowercase(), ip, hostname);
        }
        i += 1;
    }
    assert(l.take(l.len() as int) =~= l);
    (by_ip, by_mac)
}

/// The key and the name on a line of the map file: `<ip-or-mac> <name> ..`.
/// There is none on a line with fewer fields, or one that begins with `#`.
pub open spec fn manual_of(line: Seq<char>) -> Option<(Seq<char>, Seq<char>)> {
    let f = lines::fields(line);
    if f.len() >= 2 && f[0][0] != '#' {
        Some((f[0], f[1]))
    } else {
        None
    }
}

/// The key is a hardware address.
pub open spec fn is_mac(key: Seq<char>) -> bool {
    holds(key, ':')
}

fn manual_fields(line: &str) -> (r: Option<(String, String)>)
    ensures
        match r {
            Some(e) => manual_of(line@) == Some((e.0@, e.1@)),
            None => manual_of(line@) is None,
        },
{
    let fields = lines::split_fields(line);
    let ghost f = lines::fields(line@);
    assert(fields@.len() == f.len()) by {
        assert(text::texts(fields@).len() == fields@.len());
    }
    if fields.len() < 2 {
        return None;
    }
    proof {
        lines::law_fields_are_words(line@);
        assert(text::texts(fields@)[0] == f[0] && text::texts(fields@)[1] == f[1]);
        assert(f[0].len() > 0);
    }
    if begins_with_hash(fields[0].as_str()) {
        return None;
    }
    Some((fields[0].clone(), fields[1].clone()))
}

/// Makes an entry of a key, its lower-case form and a name: a hardware address
/// is kept in lower case, an address as it is.
pub fn manual_entry(key: String, key_lower: String, name: String) -> (r: (bool, String, String))
    ensures
        r.0 == is_mac(key@),
        r.1@ == if is_mac(key@) {
            key_lower@
        } else {
            key@
        },
        r.2@ == name@,
{
    if holds_char(key.as_str(), ':') {
        (true, key_lower, name)
    } else {
        (false, key, name)
    }
}

/// Parses one line of the map file: whether the key is a hardware address, the
/// key and the name.
pub fn parse_manual_line(line: &str) -> (r: Option<(bool, String, String)>)
    ensures
        match r {
            Some(e) => manual_of(line@) matches Some((key, name)) && e.0 == is_mac(key) && e.1@
                == (if is_mac(key) {
                text::unicode_lowercase(key)
            } else {
                key
            }) && e.2@ == name,
            None => manual_of(line@) is None,
        },
{
    match manual_fields(line) {
        Some((key, name)) => {
            let key_lower = key.as_str().to_lowercase();
            Some(manual_entry(key, key_lower, name))
        },
        None => None,
    }
}

/// The names with that of a key; `key_lower` is its lower-case form.
pub open spec fn with_manual(
    n: Names,
    key: Seq<char>,
    key_lower: Seq<char>,
    name: Seq<char>,
) -> Names {
    if is_mac(key) {
        Names { by_mac: n.by_mac.insert(key_lower, name), ..n }
    } else {
        Names { by_ip: n.by_ip.insert(key, name), ..n }
    }
}

/// The names of the entries on the lines; a later entry replaces an earlier one.
pub open spec fn manual_names(l: Seq<Seq<char>>) -> Names
    decreases l.len(),
{
    if l.len() == 0 {
        no_names()
    } else {
        let n = manual_names(l.drop_last());
        match manual_of(l.last()) {
            Some((key, name)) => with_manual(n, key, text::unicode_lowercase(key), name),
            None => n,
        }
    }
}

/// Adds one entry to the names by address or to those by hardware address.
pub fn add_manual(by_ip: &mut NameMap, by_mac: &mut NameMap, entry: (bool, String, String))
    requires
        old(by_ip).wf(),
        old(by_mac).wf(),
    ensures
        final(by_ip).wf(),
        final(by_mac).wf(),
        final(by_ip)@ == if entry.0 {
            old(by_ip)@
        } else {
            old(by_ip)@.insert(entry.1@, entry.2@)
        },
        final(by_mac)@ == if entry.0 {
            old(by_mac)@.insert(entry.1@, entry.2@)
        } else {
            old(by_mac)@
        },
{
    let (is_mac, key, name) = entry;
    if is_mac {
        by_mac.insert(key, name);
    } else {
        by_ip.insert(key, name);
    }
}

/// Parses the map file into names by address and names by hardware address in
/// lower case.
pub fn parse_manual(content: &str) -> (r: (NameMap, NameMap))
    ensures
        r.0.wf(),
        r.1.wf(),
        manual_names(lines::lines(content@)) == (Names { by_ip: r.0@, by_mac: r.1@ }),
{
    let all = lines::split_lines(content);
    let ghost l = lines::lines(content@);
    let mut by_ip = NameMap::new();
    let mut by_mac = NameMap::new();
    let mut i: usize = 0;
    assert(all@.len() == l.len()) by {
        assert(text::texts(all@).len() == all@.len());
    }
    assert(l.take(0) =~= Seq::empty());
    while i < all.len()
        invariant
            l == text::texts(all@),
            all@.len() == l.len(),
            i <= l.len(),
            by_ip.wf(),
            by_mac.wf(),
            manual_names(l.take(i as int)) == (Names { by_ip: by_ip@, by_mac: by_mac@ }),
        decreases l.len() - i,
    {
        assert(l.take(i + 1).drop_last() =~= l.take(i as int));
        assert(l.take(i + 1).last() == all@[i as int]@);
        if let Some(entry) = parse_manual_line(all[i].as_str()) {
            add_manual(&mut by_ip, &mut by_mac, entry);
        }
        i += 1;
    }
    assert(l.take(l.len() as int) =~= l);
    (by_ip, by_mac)
}

/// A later line goes before an earlier one; a line without a lease changes nothing.
pub proof fn law_last_lease_wins(l: Seq<Seq<char>>, line: Seq<char>)
    ensures
        match lease_of(line) {
            Some(lease) => {
                let n = lease_names(l.push(line));
                &&& n.by_ip.contains_key(lease.ip) && n.by_ip[lease.ip] == lease.hostname
                &&& n.by_mac.contains_key(text::unicode_lowercase(lease.mac))
                    && n.by_mac[text::unicode_lowercase(lease.mac)] == lease.hostname
            },
            None => lease_names(l.push(line)) == lease_names(l),
        },
{
    assert(l.push(line).drop_last() =~= l);
}

/// A later line goes before an earlier one; a line without an entry changes nothing.
pub proof fn law_last_manual_entry_wins(l: Seq<Seq<char>>, line: Seq<char>)
    ensures
        match manual_of(line) {
            Some((key, name)) => {
                let n = manual_names(l.push(line));
                if is_mac(key) {
                    &&& n.by_mac.contains_key(text::unicode_lowercase(key))
                    &&& n.by_mac[text::unicode_lowercase(key)] == name
                    &&& n.by_ip == manual_names(l).by_ip
                } else {
                    &&& n.by_ip.contains_key(key)
                    &&& n.by_ip[key] == name
                    &&& n.by_mac == manual_names(l).by_mac
                }
            },
            None => manual_names(l.push(line)) == manual_names(l),
        },
{
    assert(l.push(line).drop_last() =~= l);
}

/// The text is not empty and holds no white space.
pub open spec fn is_word(s: Seq<char>) -> bool {
    s.len() > 0 && forall|i: int| 0 <= i < s.len() ==> !lines::is_white(#[trigger] s[i])
}

/// What a lease file names are addresses with a dot or a colon; no name is
/// empty, holds white space or is the placeholder.
pub proof fn law_lease_names_are_real(l: Seq<Seq<char>>, ip: Seq<char>)
    requires
        lease_names(l).by_ip.contains_key(ip),
    ensures
        holds(ip, '.') || holds(ip, ':'),
        is_word(lease_names(l).by_ip[ip]),
        lease_names(l).by_ip[ip] != "*"@,
    decreases l.len(),
{
    if l.len() > 0 {
        let rest = l.drop_last();
        if lease_names(rest).by_ip.contains_key(ip) {
            law_lease_names_are_real(rest, ip);
        }
        let f = lines::fields(l.last());
        lines::law_fields_are_words(l.last());
        if f.len() >= 4 {
            assert(f[3].len() > 0);
            assert forall|i: int| 0 <= i < f[3].len() implies !lines::is_white(#[trigger] f[3][i]) by {
            }
        }
    }
}

/// What the map file names by address holds no colon; no name is empty or
/// holds white space.
pub proof fn law_manual_names_are_words(l: Seq<Seq<char>>, ip: Seq<char>)
    requires
        manual_names(l).by_ip.contains_key(ip),
    ensures
        !holds(ip, ':'),
        is_word(manual_names(l).by_ip[ip]),
    decreases l.len(),
{
    if l.len() > 0 {
        let rest = l.drop_last();
        if manual_names(rest).by_ip.contains_key(ip) {
            law_manual_names_are_words(rest, ip);
        }
        let f = lines::fields(l.last());
        lines::law_fields_are_words(l.last());
        if f.len() >= 2 {
            assert(f[1].len() > 0);
            assert forall|i: int| 0 <= i < f[1].len() implies !lines::is_white(#[trigger] f[1][i]) by {
            }
        }
    }
}

} // verus!
