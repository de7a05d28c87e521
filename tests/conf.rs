use citybike_map::conf::{get_conf, ConfVars};
use citybike_map::err::Error;

fn vars() -> ConfVars {
    ConfVars {
        database_url: Some("sqlite://stations.db".to_string()),
        port: Some("8080".to_string()),
        routing_url: Some("https://routing.example/graphql".to_string()),
        img_url: Some("https://maps.example/tiles".to_string()),
        api_key: Some("SECRET-REDACTED".to_string()),
    }
}

fn message(v: ConfVars) -> String {
    match get_conf(v) {
        Err(Error::Other(m)) => m,
        other => panic!("expected an error, got {other:?}"),
    }
}

#[test]
fn all_variables_set() {
    let (app, dt) = get_conf(vars()).unwrap();
    assert_eq!(app.db_url, "sqlite://stations.db");
    assert_eq!(app.port, 8080);
    assert_eq!(dt.routing_url, "https://routing.example/graphql");
    assert_eq!(dt.img_url, "https://maps.example/tiles");
    assert_eq!(dt.api_key, "SECRET-REDACTED");
}

#[test]
fn port_with_plus_sign() {
    let mut v = vars();
    v.port = Some("+65535".to_string());
    assert_eq!(get_conf(v).unwrap().0.port, 65535);
}

#[test]
fn missing_variables_are_named() {
    let mut v = vars();
    v.database_url = None;
    v.api_key = None;
    assert_eq!(message(v), "environment variable 'DATABASE_URL' missing");
    let mut v = vars();
    v.port = None;
    assert_eq!(message(v), "environment variable 'PORT' missing");
    let mut v = vars();
    v.routing_url = None;
    assert_eq!(message(v), "environment variable 'DIGITRANSIT_ROUTING_URL' missing");
    let mut v = vars();
    v.img_url = None;
    assert_eq!(message(v), "environment variable 'DIGITRANSIT_IMG_URL' missing");
    let mut v = vars();
    v.api_key = None;
    assert_eq!(message(v), "environment variable 'DIGITRANSIT_API_KEY' missing");
}

#[test]
fn bad_ports_are_refused() {
    for p in ["", "65536", "-1", "80a", " 80", "+"] {
        let mut v = vars();
        v.port = Some(p.to_string());
        v.routing_url = None;
        let m = message(v);
        assert!(!m.contains("DIGITRANSIT_ROUTING_URL"), "port {p:?}: {m}");
    }
}
