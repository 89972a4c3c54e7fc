use std::sync::{Arc, Mutex};
use udp_echo::client_manager::{ClientInfo, ClientManager, Endpoint, IpAddress, RegistryError};

fn local_endpoint(port: u16) -> Endpoint {
    // 127.0.0.1, packed big-endian
    Endpoint { ip: IpAddress::V4((127u32 << 24) | 1), port }
}

#[test]
fn client_manager_initializes_with_correct_timeout_and_empty_table() {
    let timeout: u64 = 10_000;
    let manager = ClientManager::new(timeout);

    assert_eq!(
        manager.timeout_duration, timeout,
        "タイムアウト時間が設定された値と一致するはず"
    );
    assert_eq!(
        manager.active_client_count(),
        0,
        "初期化直後はクライアントテーブルが空であるべき"
    );
}

#[test]
fn test_add_single_client_into_client_manager() {
    let mut manager = ClientManager::new(10_000);

    let client = ClientInfo {
        user_name: "alice".to_string(),
        socket_addr: local_endpoint(8080),
        last_message_time: 1_000,
    };

    manager.upsert_client(client.clone());

    assert_eq!(
        manager.active_client_count(),
        1,
        "クライアントを1つ追加したらカウントは1になるべき"
    );

    let stored_client = manager.get_client(&client.user_name).unwrap();
    assert_eq!(
        stored_client.user_name, client.user_name,
        "格納されたuser_nameが正しい"
    );
    assert_eq!(
        stored_client.socket_addr, client.socket_addr,
        "格納されたsocket_addrが正しい"
    );
}

#[test]
fn test_add_multiple_clients_into_client_manager() {
    let mut manager = ClientManager::new(10_000);

    let client1 = ClientInfo {
        user_name: "alice".to_string(),
        socket_addr: local_endpoint(8081),
        last_message_time: 1_000,
    };
    let client2 = ClientInfo {
        user_name: "bob".to_string(),
        socket_addr: local_endpoint(8082),
        last_message_time: 1_000,
    };

    manager.upsert_client(client1.clone());
    manager.upsert_client(client2.clone());

    assert_eq!(
        manager.active_client_count(),
        2,
        "クライアントを2つ追加したらカウントは2になるべき"
    );
    assert!(
        manager.contains_user(&client1.user_name),
        "alice がクライアントテーブルに存在するべき"
    );
    assert!(
        manager.contains_user(&client2.user_name),
        "bob がクライアントテーブルに存在するべき"
    );
}

#[test]
fn test_update_existing_client_info() {
    let mut manager = ClientManager::new(10_000);

    let initial_time: u64 = 95_000; // five seconds before the first clock reading
    let client = ClientInfo {
        user_name: "alice".to_string(),
        socket_addr: local_endpoint(8080),
        last_message_time: initial_time,
    };

    manager.upsert_client(client.clone());

    let before_update = manager.get_client("alice").unwrap().last_message_time;
    manager.update_client_activity("alice", 100_000).unwrap();
    let after_update = manager.get_client("alice").unwrap().last_message_time;

    assert!(
        after_update > before_update,
        "update_client_activity 呼び出し後に last_message_time が更新されるべき"
    );
}

#[test]
fn test_update_nonexistent_client() {
    let mut manager = ClientManager::new(10_000);

    let result = manager.update_client_activity("alice", 1_000);

    assert!(
        result.is_err(),
        "存在しないクライアントの更新では Err が返るべき"
    );
    assert!(
        matches!(result.err().unwrap(), RegistryError::NotFound(name) if name == "alice"),
        "NotFound はいないクライアント名を報告するべき"
    );
}

#[test]
fn touch_on_missing_key_reports_that_key() {
    let mut manager = ClientManager::new(10_000);
    let result = manager.update_client_activity("ghost", 1_000);
    assert_eq!(result, Err(RegistryError::NotFound("ghost".to_string())));
    assert_eq!(manager.active_client_count(), 0);
}

#[test]
fn test_cleanup_inactive_clients() {
    let mut manager = ClientManager::new(10_000);

    let now: u64 = 100_000;
    let client = ClientInfo {
        user_name: "alice".to_string(),
        socket_addr: local_endpoint(8080),
        last_message_time: now - 20_000,
    };

    manager.upsert_client(client.clone());

    assert_eq!(
        manager.active_client_count(),
        1,
        "クリーンアップ前はアクティブクライアントが1であるべき"
    );

    manager.cleanup_inactive_clients(now);

    assert_eq!(
        manager.active_client_count(),
        0,
        "クライアントがタイムアウトを超えていればクリーンアップ後にカウントは0になるべき"
    );
    assert!(
        !manager.contains_user("alice"),
        "クリーンアップ後に alice はテーブルに存在しないはず"
    );
}

#[test]
fn cleanup_keeps_recent_clients() {
    let mut manager = ClientManager::new(10_000);
    let now: u64 = 100_000;

    manager.upsert_client(ClientInfo {
        user_name: "stale".to_string(),
        socket_addr: local_endpoint(8080),
        last_message_time: now - 20_000,
    });
    manager.upsert_client(ClientInfo {
        user_name: "fresh".to_string(),
        socket_addr: local_endpoint(8081),
        last_message_time: now - 5_000,
    });

    manager.cleanup_inactive_clients(now);

    assert_eq!(manager.active_client_count(), 1);
    assert!(!manager.contains_user("stale"));
    assert!(manager.contains_user("fresh"));
}

#[test]
fn cleanup_evicts_at_exactly_the_timeout() {
    let mut manager = ClientManager::new(10_000);
    let now: u64 = 100_000;

    manager.upsert_client(ClientInfo {
        user_name: "edge".to_string(),
        socket_addr: local_endpoint(8080),
        last_message_time: now - 10_000,
    });

    manager.cleanup_inactive_clients(now);
    assert!(
        !manager.contains_user("edge"),
        "a client silent for exactly the timeout is evicted"
    );
}

#[test]
fn cleanup_twice_removes_nothing_more() {
    let mut manager = ClientManager::new(10_000);
    let now: u64 = 100_000;

    manager.upsert_client(ClientInfo {
        user_name: "alice".to_string(),
        socket_addr: local_endpoint(8080),
        last_message_time: now - 1_000,
    });
    manager.upsert_client(ClientInfo {
        user_name: "bob".to_string(),
        socket_addr: local_endpoint(8081),
        last_message_time: now - 20_000,
    });

    manager.cleanup_inactive_clients(now);
    let after_first = manager.active_client_count();
    manager.cleanup_inactive_clients(now);
    assert_eq!(manager.active_client_count(), after_first);
    assert_eq!(after_first, 1);
}

#[test]
fn upsert_replaces_address_and_keeps_count() {
    let mut manager = ClientManager::new(10_000);

    manager.upsert_client(ClientInfo {
        user_name: "alice".to_string(),
        socket_addr: local_endpoint(8080),
        last_message_time: 1_000,
    });
    manager.upsert_client(ClientInfo {
        user_name: "bob".to_string(),
        socket_addr: local_endpoint(8081),
        last_message_time: 1_000,
    });
    assert_eq!(manager.active_client_count(), 2);

    manager.upsert_client(ClientInfo {
        user_name: "alice".to_string(),
        socket_addr: local_endpoint(9999),
        last_message_time: 2_000,
    });

    assert_eq!(manager.active_client_count(), 2);
    let stored = manager.get_client("alice").unwrap();
    assert_eq!(stored.socket_addr, local_endpoint(9999));
    assert_eq!(stored.last_message_time, 2_000);
}

#[test]
fn test_concurrent_access() {
    let runtime = tokio::runtime::Builder::new_multi_thread()
        .worker_threads(2)
        .build()
        .unwrap();
    let manager = Arc::new(Mutex::new(ClientManager::new(10_000)));

    runtime.block_on(async {
        let mut handles = Vec::new();

        for i in 0..5u16 {
            let mgr = Arc::clone(&manager);
            let client = ClientInfo {
                user_name: format!("user{}", i),
                socket_addr: local_endpoint(8000 + i),
                last_message_time: 1_000,
            };
            handles.push(tokio::spawn(async move {
                mgr.lock().unwrap().upsert_client(client);
            }));
        }

        for handle in handles {
            handle.await.unwrap();
        }
    });

    assert_eq!(
        manager.lock().unwrap().active_client_count(),
        5,
        "同時実行後に登録されたクライアント数が5であるべき"
    );
}

#[test]
fn stores_an_ipv6_address_faithfully() {
    let mut manager = ClientManager::new(10_000);
    let v6 = Endpoint {
        ip: IpAddress::V6(1), // ::1, packed big-endian
        port: 8080,
    };

    manager.upsert_client(ClientInfo {
        user_name: "alice".to_string(),
        socket_addr: v6,
        last_message_time: 1_000,
    });

    let stored = manager.get_client("alice").unwrap();
    assert_eq!(stored.socket_addr, v6);
}
