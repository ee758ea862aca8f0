use rat_engine::server::cors::{CorsConfig, HttpMethod};

#[test]
fn cors_defaults() {
    let c = CorsConfig::new();
    assert!(!c.enabled);
    assert_eq!(c.allowed_origins, vec!["*".to_string()]);
    assert_eq!(c.allowed_methods.len(), 7);
    assert_eq!(c.allowed_methods[0], HttpMethod::Get);
    assert_eq!(c.allowed_methods[6], HttpMethod::Patch);
    assert_eq!(c.allowed_headers, vec!["Content-Type".to_string(), "Authorization".to_string(), "X-Requested-With".to_string()]);
    assert!(c.exposed_headers.is_empty());
    assert!(!c.allow_credentials);
    assert_eq!(c.max_age, Some(86400));
    assert!(c.is_origin_allowed("https://anything.example"));
}

#[test]
fn cors_builders() {
    let c = CorsConfig::default()
        .enable()
        .allowed_methods(vec![HttpMethod::Get, HttpMethod::Other("PURGE".to_string())])
        .allowed_headers(vec!["X-A".to_string()])
        .exposed_headers(vec!["X-B".to_string()])
        .allow_credentials(true)
        .max_age(60);
    assert!(c.enabled);
    assert_eq!(c.allowed_methods, vec![HttpMethod::Get, HttpMethod::Other("PURGE".to_string())]);
    assert_eq!(c.allowed_headers, vec!["X-A".to_string()]);
    assert_eq!(c.exposed_headers, vec!["X-B".to_string()]);
    assert!(c.allow_credentials);
    assert_eq!(c.max_age, Some(60));
    assert!(!c.disable().enabled);
}

#[test]
fn cors_origin_patterns() {
    let c = CorsConfig::new().allowed_origins(vec![
        "https://exact.example".to_string(),
        "https://*.example.com".to_string(),
    ]);
    assert!(c.is_origin_allowed("https://exact.example"));
    assert!(c.is_origin_allowed("https://api.example.com"));
    assert!(c.is_origin_allowed("https://a.b.example.com"));
    assert!(!c.is_origin_allowed("https://example.com"));
    assert!(!c.is_origin_allowed("https://apiXexample.com"));
    assert!(!c.is_origin_allowed("http://api.example.com"));
    assert!(!c.is_origin_allowed("https://api.example.com.evil"));
    let broken = CorsConfig::new().allowed_origins(vec!["https://(*".to_string()]);
    assert!(!broken.is_origin_allowed("https://(x"));
}
