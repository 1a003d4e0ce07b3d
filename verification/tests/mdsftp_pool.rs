use protocol::error::MDSFTPError;
use protocol::mdsftp::pool_state::{
    is_stale, least_loaded, MDSFTPPoolConfigHolder, PoolState, STALE_TIMEOUT_NANOS,
};

#[test]
fn default_config() {
    let c = MDSFTPPoolConfigHolder::default();
    assert_eq!(c, MDSFTPPoolConfigHolder { fragment_size: 65535, buffer_size: 16 });
    assert_eq!(MDSFTPPoolConfigHolder::default_config(), c);
}

#[test]
fn the_least_loaded_is_the_first_of_the_least() {
    assert_eq!(least_loaded(&[]), None);
    assert_eq!(least_loaded(&[3]), Some(0));
    assert_eq!(least_loaded(&[3, 1, 4, 1, 5]), Some(1));
    assert_eq!(least_loaded(&[2, 2, 2]), Some(0));
}

#[test]
fn staleness() {
    assert!(!is_stale(STALE_TIMEOUT_NANOS, 0));
    assert!(is_stale(STALE_TIMEOUT_NANOS + 1, 0));
    assert!(!is_stale(STALE_TIMEOUT_NANOS + 1, 1));
    assert!(!is_stale(0, 0));
}

#[test]
fn connections_are_filed_per_node_in_order() {
    let mut p = PoolState::new();
    assert_eq!(p.connections_of(1), Vec::<u128>::new());
    p.add_connection(1, 10);
    p.add_connection(2, 20);
    p.add_connection(1, 11);
    assert_eq!(p.connections_of(1), vec![10, 11]);
    assert_eq!(p.connections_of(2), vec![20]);
    assert_eq!(p.pick_connection(1, &[4, 2]), Some(11));
    assert_eq!(p.pick_connection(1, &[2, 2]), Some(10));
    assert_eq!(p.pick_connection(3, &[]), None);
}

#[test]
fn sweeping_drops_connections_and_empty_nodes() {
    let mut p = PoolState::new();
    p.add_connection(1, 10);
    p.add_connection(1, 11);
    p.add_connection(2, 20);
    let mut candidates = p.sweep_candidates();
    candidates.sort();
    assert_eq!(candidates, vec![(1, 10), (2, 20)]);
    p.remove_connections(&[(1, 10), (2, 20), (3, 30)]);
    assert_eq!(p.connections_of(1), vec![11]);
    assert_eq!(p.connections_of(2), Vec::<u128>::new());
    assert_eq!(p.sweep_candidates(), vec![(1, 11)]);
}

#[test]
fn admission_checks() {
    let mut p = PoolState::new();
    assert_eq!(p.check_connect(), Err(MDSFTPError::NoPacketHandler));
    assert_eq!(p.check_accept(), Err(MDSFTPError::NoPacketHandler));
    p.set_packet_handler();
    assert_eq!(p.check_connect(), Ok(()));
    assert_eq!(p.check_accept(), Ok(()));
    p.add_connection(5, 50);
    p.close();
    assert_eq!(p.connections_of(5), Vec::<u128>::new());
    assert_eq!(p.check_connect(), Err(MDSFTPError::ShuttingDown));
    assert_eq!(p.check_accept(), Err(MDSFTPError::ShuttingDown));
    let q = PoolState::new();
    let mut q = q;
    q.close();
    assert_eq!(q.check_connect(), Err(MDSFTPError::NoPacketHandler));
    assert_eq!(q.check_accept(), Err(MDSFTPError::ShuttingDown));
}
