use pgmux::protocol::{ClientStartupInfo, PoolKey};

fn key() -> PoolKey {
    PoolKey {
        host: "pg.example.com".to_string(),
        port: 5432,
        database: "tenant_42".to_string(),
        user: "app".to_string(),
    }
}

#[test]
fn a_key_in_words() {
    assert_eq!(key().to_string(), "pg.example.com:5432/tenant_42@app");
    assert_eq!(key().address(), "pg.example.com:5432");
    let edge = PoolKey { port: 0, ..key() };
    assert_eq!(edge.address(), "pg.example.com:0");
    let edge = PoolKey { port: u16::MAX, ..key() };
    assert_eq!(edge.address(), "pg.example.com:65535");
}

#[test]
fn keys_differ_in_every_part() {
    assert_eq!(key(), key().clone());
    assert_ne!(key(), PoolKey { host: "other".to_string(), ..key() });
    assert_ne!(key(), PoolKey { port: 5433, ..key() });
    assert_ne!(key(), PoolKey { database: "tenant_43".to_string(), ..key() });
    assert_ne!(key(), PoolKey { user: "other".to_string(), ..key() });
}

#[test]
fn a_key_finds_its_pool() {
    let mut pools = std::collections::HashMap::new();
    pools.insert(key(), 1);
    pools.insert(PoolKey { port: 5433, ..key() }, 2);
    assert_eq!(pools.get(&key()), Some(&1));
    assert_eq!(pools.len(), 2);
}

#[test]
fn startup_information_is_kept() {
    let info = ClientStartupInfo {
        user: "app".to_string(),
        database: "tenant_42".to_string(),
        password: "secret".to_string(),
        max_db_size: Some(5_368_709_120),
        application_name: "directus".to_string(),
        extra_params: vec![("client_encoding".to_string(), "UTF8".to_string())],
    };
    let copy = info.clone();
    assert_eq!(copy.max_db_size, Some(5_368_709_120));
    assert_eq!(copy.extra_params.len(), 1);
}

#[test]
fn the_text_of_a_key_tells_it_apart() {
    let odd = PoolKey { host: "::1".to_string(), database: "a/b@c:1".to_string(), ..key() };
    assert_eq!(odd.to_string(), "::1:5432/a/b@c:1@app");
    let others = [
        PoolKey { host: "::".to_string(), port: 1, database: "5432/a/b@c:1".to_string(), ..key() },
        PoolKey { port: 543, ..odd.clone() },
        PoolKey { database: "a/b".to_string(), ..odd.clone() },
    ];
    for other in others {
        assert_ne!(other, odd);
        assert_ne!(other.to_string(), odd.to_string());
    }
    // With an `@` in the user the text may be that of another key.
    let one = PoolKey { database: "a".to_string(), user: "b@c".to_string(), ..key() };
    let two = PoolKey { database: "a@b".to_string(), user: "c".to_string(), ..key() };
    assert_ne!(one, two);
    assert_eq!(one.to_string(), two.to_string());
}
