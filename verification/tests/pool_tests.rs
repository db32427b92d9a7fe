use steam_cdn::error::Error;
use steam_cdn::pool::{ServerDescriptor, ServerKind, ServerPool};

fn server(kind: ServerKind, cell_id: u32, weighted_load: u64) -> ServerDescriptor {
    ServerDescriptor {
        kind,
        https: true,
        host: format!("edge-{}-{}", cell_id, weighted_load),
        vhost: String::new(),
        port: 443,
        cell_id,
        load: weighted_load,
        weighted_load,
    }
}

#[test]
fn empty_pool_needs_refresh() {
    let pool = ServerPool::new();
    assert!(pool.needs_refresh());
}

#[test]
fn pick_prefers_unpenalized_cell_match() {
    let mut pool = ServerPool::new();
    pool.refresh(vec![
        server(ServerKind::Cdn, 5, 1),
        server(ServerKind::Other, 7, 0),
        server(ServerKind::Cdn, 7, 9),
    ]);
    let idx = pool.pick(7).unwrap();
    assert_eq!(idx, 1);
    assert_eq!(pool.get(idx).cell_id, 7);
}

#[test]
fn pick_falls_back_to_best_ranked_candidate() {
    let mut pool = ServerPool::new();
    pool.refresh(vec![
        server(ServerKind::Other, 1, 0),
        server(ServerKind::Cdn, 2, 8),
        server(ServerKind::SteamCache, 3, 3),
        server(ServerKind::Cdn, 4, 3),
    ]);
    // No entry sits in cell 9, so the best-ranked CDN/SteamCache entry
    // wins; ties go to the earlier entry.
    let idx = pool.pick(9).unwrap();
    assert_eq!(idx, 2);
    assert!(matches!(pool.get(idx).kind, ServerKind::SteamCache));
}

#[test]
fn penalties_steer_selection_away() {
    let mut pool = ServerPool::new();
    pool.refresh(vec![
        server(ServerKind::Cdn, 1, 1),
        server(ServerKind::Cdn, 2, 5),
    ]);
    assert_eq!(pool.pick(9).unwrap(), 0);
    pool.penalize(0);
    assert_eq!(pool.pick(9).unwrap(), 1);
    assert!(!pool.needs_refresh());
    pool.penalize(1);
    assert!(pool.needs_refresh());
}

#[test]
fn exhausted_pool_refreshed_empty_yields_no_servers() {
    let mut pool = ServerPool::new();
    pool.refresh(vec![server(ServerKind::Cdn, 1, 1)]);
    pool.penalize(0);
    assert!(pool.needs_refresh());
    pool.refresh(Vec::new());
    assert!(matches!(pool.pick(1), Err(Error::NoServers)));
}

#[test]
fn only_other_kind_servers_yield_no_servers() {
    let mut pool = ServerPool::new();
    pool.refresh(vec![server(ServerKind::Other, 1, 1)]);
    assert!(matches!(pool.pick(9), Err(Error::NoServers)));
}
