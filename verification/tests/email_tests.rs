use threat_sentry::email::fetch_range_start;
use threat_sentry::email::find_urls;
use threat_sentry::email::EmailMonitor;

fn monitor() -> EmailMonitor {
    EmailMonitor::new(
        "user".to_string(),
        "test-password".to_string(),
        "imap.example.com".to_string(),
    )
}

#[test]
fn extracts_urls_from_sample_bodies() {
    let bodies: Vec<Vec<u8>> = vec![
        b"Check out this link: https://example.com/login".to_vec(),
        b"Important security update: https://secure-site.com/update".to_vec(),
    ];
    let urls = monitor().extract_urls(bodies);
    assert_eq!(
        urls,
        vec![
            b"https://example.com/login".to_vec(),
            b"https://secure-site.com/update".to_vec(),
        ]
    );
}

#[test]
fn url_runs_to_the_next_whitespace() {
    let urls = find_urls(&b"see xhttp://ab cd".to_vec());
    assert_eq!(urls, vec![b"http://ab".to_vec()]);
}

#[test]
fn one_character_after_the_scheme_is_not_enough() {
    assert!(find_urls(&b"http://a".to_vec()).is_empty());
    assert_eq!(find_urls(&b"http://ab".to_vec()), vec![b"http://ab".to_vec()]);
}

#[test]
fn excluded_first_characters_match_nothing() {
    assert!(find_urls(&b"http:///path".to_vec()).is_empty());
    assert!(find_urls(&b"http://.dot".to_vec()).is_empty());
    assert!(find_urls(&b"http:// space".to_vec()).is_empty());
    assert!(find_urls(&b"http://#frag".to_vec()).is_empty());
}

#[test]
fn matches_are_leftmost_and_non_overlapping() {
    let urls = find_urls(&b"a http://one.example two http://two.example".to_vec());
    assert_eq!(
        urls,
        vec![b"http://one.example".to_vec(), b"http://two.example".to_vec()]
    );
}

#[test]
fn https_is_preferred_over_its_http_prefix() {
    let urls = find_urls(&b"https://ok".to_vec());
    assert_eq!(urls, vec![b"https://ok".to_vec()]);
}

#[test]
fn scan_scores_login_urls_higher() {
    let m = monitor();
    let scored = m.scan_urls(vec![
        b"https://example.com/login".to_vec(),
        b"https://secure-site.com/update".to_vec(),
    ]);
    assert_eq!(scored.len(), 2);
    assert_eq!(scored[0].0, b"https://example.com/login".to_vec());
    assert_eq!(scored[0].1, 70);
    assert_eq!(scored[1].1, 30);
}

#[test]
fn fetch_range_covers_the_most_recent_messages() {
    assert_eq!(fetch_range_start(100, 5), 96);
    assert_eq!(fetch_range_start(5, 5), 1);
    assert_eq!(fetch_range_start(3, 5), 1);
    assert_eq!(fetch_range_start(0, 5), 1);
}

#[test]
fn monitor_keeps_its_connection_settings() {
    let m = monitor();
    assert_eq!(m.username, "user");
    assert_eq!(m.imap_server, "imap.example.com");
}
