use redis_test_simple::store::RedisStore;
use redis_test_simple::types::RedisGetResult;
use serde_json::Value;

fn rendered(text: &str) -> String {
    serde_json::from_str::<Value>(text).unwrap().to_string()
}

#[test]
fn test_tenant_isolation() {
    let mut store = RedisStore::new();

    // Two tenants setting same key name
    store
        .set(
            "tenant1:users".to_string(),
            "[{\"name\":\"John\"}]".to_string(),
            None,
        )
        .unwrap();
    store
        .set(
            "tenant2:users".to_string(),
            "[{\"name\":\"Jane\"}]".to_string(),
            None,
        )
        .unwrap();

    // Verify each tenant gets their own data
    match store.get("tenant1:users") {
        RedisGetResult::Value(val) => assert_eq!(val, "[{\"name\":\"John\"}]"),
        _ => panic!("Expected tenant1 data"),
    }

    match store.get("tenant2:users") {
        RedisGetResult::Value(val) => assert_eq!(val, "[{\"name\":\"Jane\"}]"),
        _ => panic!("Expected tenant2 data"),
    }

    // Verify tenants can't access each other's data
    match store.get("tenant1:other_users") {
        RedisGetResult::Nothing => (), // Expected
        _ => panic!("Should not find non-existent tenant key"),
    }
}

#[test]
fn test_tenant_search() {
    let mut store = RedisStore::new();

    // Set up test data for two tenants
    let tenant1_data =
        rendered("[{\"name\": \"John\", \"age\": 30}, {\"name\": \"Alice\", \"age\": 25}]");

    let tenant2_data =
        rendered("[{\"name\": \"John\", \"age\": 35}, {\"name\": \"Bob\", \"age\": 28}]");

    store
        .set("tenant1:users".to_string(), tenant1_data, None)
        .unwrap();
    store
        .set("tenant2:users".to_string(), tenant2_data, None)
        .unwrap();

    // Search within tenant1's data
    match store.get("tenant1:users?age_gt=28") {
        RedisGetResult::Value(val) => {
            let result: serde_json::Value = serde_json::from_str(&val).unwrap();
            assert_eq!(result.as_array().unwrap().len(), 1);
            assert_eq!(result[0]["name"], "John");
            assert_eq!(result[0]["age"], 30);
        }
        _ => panic!("Expected filtered tenant1 data"),
    }

    // Search within tenant2's data
    match store.get("tenant2:users?name=John") {
        RedisGetResult::Value(val) => {
            let result: serde_json::Value = serde_json::from_str(&val).unwrap();
            assert_eq!(result.as_array().unwrap().len(), 1);
            assert_eq!(result[0]["age"], 35);
        }
        _ => panic!("Expected filtered tenant2 data"),
    }
}

#[test]
fn test_tenant_append() {
    let mut store = RedisStore::new();

    // Initialize data for two tenants
    store
        .set(
            "tenant1:users".to_string(),
            "[{\"name\":\"John\"}]".to_string(),
            None,
        )
        .unwrap();

    store
        .set(
            "tenant2:users".to_string(),
            "[{\"name\":\"Jane\"}]".to_string(),
            None,
        )
        .unwrap();

    // Append to tenant1's data
    store
        .append(
            "tenant1:users".to_string(),
            "{\"name\":\"Alice\"}".to_string(),
        )
        .unwrap();

    // Verify append worked for tenant1 but didn't affect tenant2
    match store.get("tenant1:users") {
        RedisGetResult::Value(val) => {
            let data: serde_json::Value = serde_json::from_str(&val).unwrap();
            assert_eq!(data.as_array().unwrap().len(), 2);
            assert_eq!(data[1]["name"], "Alice");
        }
        _ => panic!("Expected tenant1 appended data"),
    }

    match store.get("tenant2:users") {
        RedisGetResult::Value(val) => {
            let data: serde_json::Value = serde_json::from_str(&val).unwrap();
            assert_eq!(data.as_array().unwrap().len(), 1);
            assert_eq!(data[0]["name"], "Jane");
        }
        _ => panic!("Expected tenant2 data unchanged"),
    }
}

#[test]
fn test_tenant_expiration() {
    let mut store = RedisStore::new();
    let start: u64 = 5_000;

    store.set_at(
        "tenant1:temp".to_string(),
        "\"tenant1 data\"".to_string(),
        Some(100), // 100ms
        start,
    );

    // verify data is present
    match store.get_at("tenant1:temp", start) {
        RedisGetResult::Value(val) => assert_eq!(val, "\"tenant1 data\""),
        _ => panic!("Expected tenant1 data"),
    }

    // 200ms later the entry has expired
    let result = store.get_at("tenant1:temp", start + 200);

    assert!(matches!(result, RedisGetResult::Expired));
}
