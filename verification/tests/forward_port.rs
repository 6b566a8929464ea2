use ssh_bastion_rs::forward_port::{ForwardPortSearch, PortProbe};
use ssh_bastion_rs::host_ports::{HostAddr, LastPortTable};

fn walk(mut search: ForwardPortSearch, mut probe: PortProbe) -> Vec<u16> {
    let mut ports = Vec::new();
    while let PortProbe::Bind(p) = probe {
        ports.push(p);
        probe = search.bind_failed();
    }
    ports
}

#[test]
fn walk_wraps_and_skips_its_start() {
    let (search, probe) = ForwardPortSearch::new(None, 10, 13, 11);
    assert_eq!(probe, PortProbe::Bind(12));
    assert_eq!(walk(search, probe), vec![12, 10]);
}

#[test]
fn walk_offers_every_other_port_once() {
    let (search, probe) = ForwardPortSearch::new(None, 100, 110, 104);
    assert_eq!(
        walk(search, probe),
        vec![105, 106, 107, 108, 109, 100, 101, 102, 103]
    );
}

#[test]
fn walk_from_the_top_port_starts_at_the_bottom() {
    let (search, probe) = ForwardPortSearch::new(None, 20000, 20003, 20002);
    assert_eq!(walk(search, probe), vec![20000, 20001]);
}

#[test]
fn single_port_range_is_exhausted_at_once() {
    let (mut search, probe) = ForwardPortSearch::new(None, 5, 6, 5);
    assert_eq!(probe, PortProbe::Exhausted);
    assert_eq!(search.bind_failed(), PortProbe::Exhausted);
    assert_eq!(search.bind_failed(), PortProbe::Exhausted);
}

#[test]
fn last_port_comes_first_and_is_not_remembered_again() {
    let (mut search, probe) = ForwardPortSearch::new(Some(30000), 10, 13, 10);
    assert_eq!(probe, PortProbe::Bind(30000));
    assert!(!search.remember_bound());
    assert_eq!(search.bind_failed(), PortProbe::Bind(11));
    assert!(search.remember_bound());
    assert_eq!(search.bind_failed(), PortProbe::Bind(12));
    assert_eq!(search.bind_failed(), PortProbe::Exhausted);
    assert!(!search.remember_bound());
}

#[test]
fn random_start_lies_in_range_and_varies() {
    let mut firsts = std::collections::HashSet::new();
    for _ in 0..200 {
        let (search, probe) = ForwardPortSearch::begin(None, 1000, 2000);
        let ports = walk(search, probe);
        assert_eq!(ports.len(), 999);
        assert!(ports.iter().all(|p| (1000..2000).contains(p)));
        let mut sorted = ports.clone();
        sorted.sort();
        sorted.dedup();
        assert_eq!(sorted.len(), 999);
        firsts.insert(ports[0]);
    }
    assert!(firsts.len() > 1);
}

#[test]
fn last_port_table_remembers_per_host() {
    let mut t = LastPortTable::new();
    assert_eq!(t.last_port(HostAddr::V4(0x7f000001)), None);
    t.remember(HostAddr::V4(0x7f000001), 20001);
    t.remember(HostAddr::V6(1), 20002);
    assert_eq!(t.last_port(HostAddr::V4(0x7f000001)), Some(20001));
    assert_eq!(t.last_port(HostAddr::V6(1)), Some(20002));
    assert_eq!(t.last_port(HostAddr::V4(1)), None);
    t.remember(HostAddr::V4(0x7f000001), 20005);
    assert_eq!(t.last_port(HostAddr::V4(0x7f000001)), Some(20005));
}

#[test]
fn documented_server_range_yields_ports_inside_it() {
    let (mut search, mut probe) = ForwardPortSearch::begin(None, 20000, 24000);
    let mut seen = 0;
    while let PortProbe::Bind(p) = probe {
        assert!((20000..24000).contains(&p));
        seen += 1;
        probe = search.bind_failed();
    }
    assert_eq!(seen, 3999);
}
