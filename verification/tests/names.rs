use smartdns_ui::hostname::{
    apply_to_domain_list, display_name, LeaseHostnameCache, ReloadAction, ReloadEvent,
    RELOAD_INTERVAL, RESOLVED_CAP, ZERO_MAC,
};
use smartdns_ui::model::DomainData;
use smartdns_ui::name_files::{
    add_lease, add_manual, manual_entry, parse_lease_line, parse_leases, parse_manual,
    parse_manual_line,
};
use smartdns_ui::name_map::NameMap;

#[test]
fn test_parse_lease_line() {
    // normal line
    assert_eq!(
        parse_lease_line(
            "1789665359 e0:70:ea:98:8a:53 192.168.2.102 MiWiFi-RD15-srv 01:e0:70:ea:98:8a:53"
        ),
        Some((
            "e0:70:ea:98:8a:53".to_string(),
            "192.168.2.102".to_string(),
            "MiWiFi-RD15-srv".to_string()
        ))
    );

    // too few fields
    assert_eq!(parse_lease_line("1789665359 e0:70:ea:98:8a:53"), None);
    assert_eq!(parse_lease_line("1789665359 e0:70:ea:98:8a:53 192.168.2.1"), None);

    // placeholder name
    assert_eq!(
        parse_lease_line("1789665359 aa:bb:cc:dd:ee:ff 10.0.0.3 * 01:aabbccddee"),
        None
    );

    // too many words to be "short", but the ip field is not an address
    assert_eq!(parse_lease_line("not a lease line"), None);

    // empty / blank lines
    assert_eq!(parse_lease_line(""), None);
    assert_eq!(parse_lease_line("   "), None);
}

#[test]
fn test_parse_leases() {
    let content = "\n\
        1789665359 aa:bb:cc:dd:ee:ff 10.0.0.2 phone 01:aabbccddee\n\
        1789665359 aa:bb:cc:dd:ee:10 10.0.0.3 * 01:aabbccddee10\n\
        not a lease line\n";
    let (ip_map, mac_map) = parse_leases(content);
    assert_eq!(ip_map.len(), 1);
    assert_eq!(ip_map.get("10.0.0.2"), Some(&"phone".to_string()));
    assert_eq!(ip_map.get("10.0.0.3"), None);
    assert_eq!(mac_map.get("aa:bb:cc:dd:ee:ff"), Some(&"phone".to_string()));
    assert_eq!(mac_map.len(), 1);
}

#[test]
fn test_parse_manual_line() {
    // ip entry
    assert_eq!(
        parse_manual_line("192.168.2.27 客厅摄像头"),
        Some((false, "192.168.2.27".to_string(), "客厅摄像头".to_string()))
    );
    // mac entry, normalized to lowercase
    assert_eq!(
        parse_manual_line("0E:69:FA:C1:92:62 iPad"),
        Some((true, "0e:69:fa:c1:92:62".to_string(), "iPad".to_string()))
    );
    // comment / blank / too short
    assert_eq!(parse_manual_line("# comment"), None);
    assert_eq!(parse_manual_line(""), None);
    assert_eq!(parse_manual_line("only-key"), None);
}

#[test]
fn test_parse_manual() {
    let content = "\n\
        # static devices\n\
        192.168.2.27 cam-livingroom\n\
        0e:69:fa:c1:92:62 random-mac-phone\n\
        badline\n";
    let (ip_map, mac_map) = parse_manual(content);
    assert_eq!(ip_map.get("192.168.2.27"), Some(&"cam-livingroom".to_string()));
    assert_eq!(
        mac_map.get("0e:69:fa:c1:92:62"),
        Some(&"random-mac-phone".to_string())
    );
    assert_eq!(ip_map.len(), 1);
    assert_eq!(mac_map.len(), 1);
}

#[test]
fn lease_lines_with_a_hash_are_comments() {
    assert_eq!(parse_lease_line("# note 10.0.0.1 host"), None);
    assert_eq!(parse_lease_line("  #1789665359 aa:bb:cc:dd:ee:ff 10.0.0.2 phone"), None);
    // four fields are enough, and an IPv6 address is an address
    assert_eq!(
        parse_lease_line("1 aa:bb:cc:dd:ee:ff fd00::1 phone"),
        Some((
            "aa:bb:cc:dd:ee:ff".to_string(),
            "fd00::1".to_string(),
            "phone".to_string()
        ))
    );
}

#[test]
fn later_lines_win() {
    let (by_ip, by_mac) = parse_leases(
        "1 AA:BB:CC:DD:EE:FF 10.0.0.2 old\r\n2 aa:bb:cc:dd:ee:ff 10.0.0.2 new\r\n",
    );
    assert_eq!(by_ip.get("10.0.0.2"), Some(&"new".to_string()));
    assert_eq!(by_mac.get("aa:bb:cc:dd:ee:ff"), Some(&"new".to_string()));
    assert_eq!(by_mac.get("AA:BB:CC:DD:EE:FF"), None);
    assert_eq!(by_mac.len(), 1);

    let (by_ip, by_mac) = parse_manual("10.0.0.2 a\n10.0.0.2 b\nFD00::1 c\n  # 10.0.0.2 d\n");
    assert_eq!(by_ip.get("10.0.0.2"), Some(&"b".to_string()));
    // a key with a colon counts as a hardware address
    assert_eq!(by_mac.get("fd00::1"), Some(&"c".to_string()));
    assert_eq!(by_ip.len(), 1);
}

#[test]
fn entries_are_kept_by_kind() {
    let mut by_ip = NameMap::new();
    let mut by_mac = NameMap::new();
    add_lease(
        &mut by_ip,
        &mut by_mac,
        "aa:bb".to_string(),
        "10.0.0.2".to_string(),
        "phone".to_string(),
    );
    assert_eq!(by_ip.get("10.0.0.2"), Some(&"phone".to_string()));
    assert_eq!(by_mac.get("aa:bb"), Some(&"phone".to_string()));
    let entry = manual_entry("AA:BB".to_string(), "aa:bb".to_string(), "tablet".to_string());
    assert_eq!(entry, (true, "aa:bb".to_string(), "tablet".to_string()));
    add_manual(&mut by_ip, &mut by_mac, entry);
    assert_eq!(by_mac.get("aa:bb"), Some(&"tablet".to_string()));
    assert_eq!(by_mac.len(), 1);
    assert_eq!(
        manual_entry("A".to_string(), "a".to_string(), "n".to_string()),
        (false, "A".to_string(), "n".to_string())
    );
    by_mac.clear();
    assert_eq!(by_mac.len(), 0);
    assert_eq!(by_ip.entries().len(), 1);
}

/// Runs a reload to its end; a file is its time of change and its content.
fn reload(
    cache: &mut LeaseHostnameCache,
    now: u64,
    lease: (Option<i128>, Option<&str>),
    manual: (Option<i128>, Option<&str>),
) -> (Vec<ReloadAction>, usize) {
    let mut seen = Vec::new();
    let mut reports = 0;
    let (mut action, _) = cache.maybe_reload(ReloadEvent::Start(now));
    while action != ReloadAction::Finish {
        seen.push(action);
        let event = match action {
            ReloadAction::CheckLease => ReloadEvent::LeaseTime(lease.0),
            ReloadAction::ReadLease => {
                ReloadEvent::LeaseContent(lease.0, lease.1.map(|s| s.to_string()))
            }
            ReloadAction::CheckManual => ReloadEvent::ManualTime(manual.0),
            ReloadAction::ReadManual => {
                ReloadEvent::ManualContent(manual.0, manual.1.map(|s| s.to_string()))
            }
            ReloadAction::Finish => unreachable!(),
        };
        let (next, report) = cache.maybe_reload(event);
        if report {
            reports += 1;
        }
        action = next;
    }
    (seen, reports)
}

const LEASES: &str = "1 aa:bb:cc:dd:ee:ff 10.0.0.2 phone 01\n1 aa:bb:cc:dd:ee:00 10.0.0.3 tv 01\n";

fn cache_with_leases() -> LeaseHostnameCache {
    let mut cache = LeaseHostnameCache::new();
    cache.set_path("/tmp/leases");
    let (seen, reports) = reload(&mut cache, 5, (Some(1), Some(LEASES)), (None, None));
    assert_eq!(seen, vec![ReloadAction::CheckLease, ReloadAction::ReadLease]);
    assert_eq!(reports, 0);
    cache
}

#[test]
fn without_a_source_nothing_is_named() {
    let mut cache = LeaseHostnameCache::new();
    assert_eq!(reload(&mut cache, 5, (None, None), (None, None)), (vec![], 0));
    assert_eq!(cache.get("10.0.0.2"), None);
    cache.note_client("10.0.0.2", "aa:bb:cc:dd:ee:ff");
    assert_eq!(cache.get("10.0.0.2"), None);
    assert_eq!(display_name(&cache, "10.0.0.2", false), "10.0.0.2");
    assert_eq!(display_name(&cache, "127.0.0.1", true), "localhost");
    assert!(cache.find_ips_by_hostname("phone").is_empty());
}

#[test]
fn sources_are_asked_in_order() {
    let mut cache = cache_with_leases();
    assert_eq!(cache.get("10.0.0.2"), Some("phone".to_string()));
    // an IPv6 address is named through its hardware address, whatever the case
    cache.note_client("fd00::2", "AA:BB:CC:DD:EE:FF");
    assert_eq!(cache.get("fd00::2"), Some("phone".to_string()));
    // an observation goes before the lease file
    cache.note_client("10.0.0.3", "aa:bb:cc:dd:ee:ff");
    assert_eq!(cache.get("10.0.0.3"), Some("phone".to_string()));
    // the map file goes before both
    cache.set_manual_path("/tmp/map");
    let (seen, _) = reload(
        &mut cache,
        6,
        (Some(1), None),
        (Some(9), Some("10.0.0.3 kitchen\naa:bb:cc:dd:ee:00 radio\n")),
    );
    // the lease file has not changed
    assert_eq!(
        seen,
        vec![
            ReloadAction::CheckLease,
            ReloadAction::CheckManual,
            ReloadAction::ReadManual
        ]
    );
    assert_eq!(cache.get("10.0.0.3"), Some("kitchen".to_string()));
    cache.note_client("fd00::3", "aa:bb:cc:dd:ee:00");
    assert_eq!(cache.get("fd00::3"), Some("radio".to_string()));
}

#[test]
fn hardware_addresses_and_addresses_that_say_nothing_are_ignored() {
    let mut cache = LeaseHostnameCache::new();
    cache.set_manual_path("/tmp/map");
    reload(
        &mut cache,
        1,
        (None, None),
        (Some(1), Some("00:00:00:00:00:00 nobody\naa:aa:aa:aa:aa:aa who\n")),
    );
    cache.note_client("10.0.0.9", ZERO_MAC);
    assert_eq!(cache.get("10.0.0.9"), None);
    cache.note_client("", "aa:aa:aa:aa:aa:aa");
    assert_eq!(cache.get(""), None);
    assert!(!LeaseHostnameCache::observation_counts("", "aa:aa:aa:aa:aa:aa"));
    assert!(!LeaseHostnameCache::observation_counts("10.0.0.9", ZERO_MAC));
    assert!(LeaseHostnameCache::observation_counts("10.0.0.9", "aa:aa:aa:aa:aa:aa"));
}

#[test]
fn every_address_of_a_name_is_found_once() {
    let mut cache = cache_with_leases();
    cache.note_client("fd00::2", "aa:bb:cc:dd:ee:ff");
    cache.note_client("10.0.0.2", "aa:bb:cc:dd:ee:ff");
    cache.set_manual_path("/tmp/map");
    reload(
        &mut cache,
        6,
        (Some(1), Some(LEASES)),
        (Some(9), Some("10.0.0.7 phone\n10.0.0.2 phone\n")),
    );
    let found = cache.find_ips_by_hostname("phone");
    let mut sorted = found.clone();
    sorted.sort();
    assert_eq!(sorted, vec!["10.0.0.2", "10.0.0.7", "fd00::2"]);
    // those of the map file come before those that were only observed
    assert_eq!(found[2], "fd00::2");
    // the address that is named otherwise first is still registered
    cache.note_client("10.0.0.3", "aa:bb:cc:dd:ee:ff");
    assert!(cache.find_ips_by_hostname("tv").contains(&"10.0.0.3".to_string()));
    assert_eq!(cache.get("10.0.0.3"), Some("phone".to_string()));
}

#[test]
fn files_are_looked_at_once_in_an_interval() {
    let mut cache = cache_with_leases();
    // within the interval nothing is looked at
    assert_eq!(
        reload(&mut cache, 5 + RELOAD_INTERVAL - 1, (Some(2), Some("")), (None, None)),
        (vec![], 0)
    );
    assert_eq!(cache.get("10.0.0.2"), Some("phone".to_string()));
    // an unchanged file is not read
    assert_eq!(
        reload(&mut cache, 5 + RELOAD_INTERVAL, (Some(1), Some("")), (None, None)).0,
        vec![ReloadAction::CheckLease]
    );
    assert_eq!(cache.get("10.0.0.2"), Some("phone".to_string()));
    // a changed one is
    assert_eq!(
        reload(&mut cache, 5 + 2 * RELOAD_INTERVAL, (Some(2), Some("")), (None, None)).0,
        vec![ReloadAction::CheckLease, ReloadAction::ReadLease]
    );
    assert_eq!(cache.get("10.0.0.2"), None);
    // and one whose time of change is not known is read every time
    assert_eq!(
        reload(&mut cache, 5 + 3 * RELOAD_INTERVAL, (None, Some(LEASES)), (None, None)).0,
        vec![ReloadAction::CheckLease, ReloadAction::ReadLease]
    );
    assert_eq!(
        reload(&mut cache, 5 + 4 * RELOAD_INTERVAL, (None, Some(LEASES)), (None, None)).0,
        vec![ReloadAction::CheckLease, ReloadAction::ReadLease]
    );
    assert_eq!(cache.get("10.0.0.2"), Some("phone".to_string()));
}

#[test]
fn failures_are_reported_once_and_forget_the_names() {
    let mut cache = cache_with_leases();
    cache.note_client("fd00::2", "aa:bb:cc:dd:ee:ff");
    let mut now = 5;
    let mut next = || {
        now += RELOAD_INTERVAL;
        now
    };
    assert_eq!(reload(&mut cache, next(), (None, None), (None, None)).1, 1);
    assert_eq!(cache.get("10.0.0.2"), None);
    // observations stay
    assert_eq!(cache.get("fd00::2"), Some("phone".to_string()));
    assert_eq!(reload(&mut cache, next(), (None, None), (None, None)).1, 0);
    assert_eq!(reload(&mut cache, next(), (Some(3), Some(LEASES)), (None, None)).1, 0);
    assert_eq!(reload(&mut cache, next(), (None, None), (None, None)).1, 1);
    // a new path reports anew, and is looked at at once
    cache.set_path("/tmp/other");
    assert_eq!(cache.lease_path(), Some(&"/tmp/other".to_string()));
    assert_eq!(cache.manual_map_path(), None);
    let (seen, reports) = reload(&mut cache, 6, (None, None), (None, None));
    assert_eq!(seen, vec![ReloadAction::CheckLease, ReloadAction::ReadLease]);
    assert_eq!(reports, 1);
    // the same for the map file
    cache.set_manual_path("/tmp/map");
    assert_eq!(reload(&mut cache, 7, (None, None), (None, None)).1, 1);
    assert_eq!(reload(&mut cache, next(), (None, None), (None, None)).1, 0);
}

#[test]
fn observations_are_dropped_when_there_are_too_many() {
    let mut cache = cache_with_leases();
    for i in 0..RESOLVED_CAP {
        cache.note_client_mac(&format!("fd00::{:x}", i), "aa:bb:cc:dd:ee:ff");
    }
    assert_eq!(cache.get("fd00::0"), Some("phone".to_string()));
    cache.note_client_mac("fd01::1", "aa:bb:cc:dd:ee:ff");
    assert_eq!(cache.get("fd00::0"), None);
    assert_eq!(cache.get("fd01::1"), Some("phone".to_string()));
    assert_eq!(cache.find_ips_by_hostname("phone").len(), 2);
}

fn row(client: &str) -> DomainData {
    DomainData {
        id: 7,
        timestamp: 8,
        domain: "example.com".to_string(),
        domain_type: 1,
        client: client.to_string(),
        domain_group: "default".to_string(),
        reply_code: 0,
        query_time: 3,
        ping_time: 1.5f64.to_bits(),
        is_blocked: false,
        is_cached: true,
    }
}

#[test]
fn rows_show_names_where_they_are_known() {
    let cache = cache_with_leases();
    let mut list = vec![row("10.0.0.2"), row("10.0.0.99"), row("127.0.0.1")];
    apply_to_domain_list(&mut list, &cache, &vec![false, false, true]);
    let clients: Vec<&str> = list.iter().map(|d| d.client.as_str()).collect();
    assert_eq!(clients, vec!["phone", "10.0.0.99", "localhost"]);
    assert_eq!(list[0].id, 7);
    assert_eq!(list[0].domain, "example.com");
}
