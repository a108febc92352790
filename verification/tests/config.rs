use not_redis::config::ApiConfig;

#[test]
fn get_bind_gives_url_and_port() {
    let api = ApiConfig { url: "127.0.0.1".to_string(), port: 8080, token: "1234".to_string() };
    assert_eq!(api.get_bind(), ("127.0.0.1".to_string(), 8080));
}
