use torii::domain::KeyValuePair;
use torii::url_params::{params_from_url_query, url_with_params, params_after_url_edit};

fn kv(key: &str, value: &str, enabled: bool) -> KeyValuePair {
    KeyValuePair { key: key.to_string(), value: value.to_string(), enabled }
}

fn pairs(v: &[KeyValuePair]) -> Vec<(String, String, bool)> {
    v.iter().map(|p| (p.key.clone(), p.value.clone(), p.enabled)).collect()
}

#[test]
fn params_are_read_from_urls_and_from_plain_text() {
    assert_eq!(
        pairs(&params_from_url_query("https://x.test/a?b=1&c=two%20words#frag")),
        vec![("b".into(), "1".into(), true), ("c".into(), "two words".into(), true)]
    );
    assert_eq!(pairs(&params_from_url_query("/api?x=1#f")), vec![("x".into(), "1".into(), true)]);
    assert!(params_from_url_query("/api").is_empty());
    assert!(params_from_url_query("https://x.test/").is_empty());
}

#[test]
fn url_query_is_rebuilt_from_enabled_named_params() {
    let params = vec![kv("q", "a b", true), kv("  ", "v", true), kv("off", "1", false)];
    assert_eq!(url_with_params("https://x.test/a?old=1", &params), "https://x.test/a?q=a+b");
    assert_eq!(url_with_params("https://x.test/a?old=1", &[]), "https://x.test/a");
    assert_eq!(url_with_params("/api?old=1#frag", &[kv("k", "v", true)]), "/api?k=v#frag");
    assert_eq!(url_with_params("/api?old=1#frag", &[]), "/api#frag");
    assert_eq!(url_with_params("/api", &[kv("k", "v", true)]), "/api?k=v");
}

#[test]
fn reading_back_params_from_a_rebuilt_url_gives_them_again() {
    let params = vec![kv("a", "1", true), kv("b", "x y", true)];
    let url = url_with_params("https://x.test/p", &params);
    assert_eq!(pairs(&params_from_url_query(&url)), pairs(&params));
}

#[test]
fn editing_the_url_keeps_the_disabled_params_after_the_new_ones() {
    let params = vec![
        KeyValuePair { key: "old".into(), value: "1".into(), enabled: true },
        KeyValuePair { key: "off".into(), value: "2".into(), enabled: false },
    ];
    let merged = params_after_url_edit("https://a.test/?q=x&r=y", &params);
    assert_eq!(
        merged,
        vec![
            KeyValuePair { key: "q".into(), value: "x".into(), enabled: true },
            KeyValuePair { key: "r".into(), value: "y".into(), enabled: true },
            KeyValuePair { key: "off".into(), value: "2".into(), enabled: false },
        ]
    );
}
