use agentsync::share_server::{
    cleanup_expired, ensure_shareable, escape_html, find_share, html_page, new_token, put_share,
    respond, route, share_expiry, share_links, share_start, ShareItem, ShareRoute,
    PAGE_BEFORE_TITLE, PAGE_END,
};

fn item(token: &str, content: &str, expires_at_ms: u64) -> ShareItem {
    ShareItem { token: token.to_string(), content: content.to_string(), expires_at_ms }
}

fn tokens(items: &[ShareItem]) -> Vec<&str> {
    items.iter().map(|i| i.token.as_str()).collect()
}

#[test]
fn escape_html_agrees_with_sequential_replacement() {
    let samples = ["", "plain", "a & b", "<script>alert('x')</script>", "&lt;", ">>&&<<", "引号\"'"];
    for s in samples {
        let expected = s.replace('&', "&amp;").replace('<', "&lt;").replace('>', "&gt;");
        assert_eq!(escape_html(s), expected, "{:?}", s);
    }
}

#[test]
fn html_page_escapes_what_it_shows() {
    let page = html_page("A <b> title", "echo \"hi\" > out && ls", 1700000000123);
    assert!(page.starts_with("<!doctype html>\n<html lang=\"zh-CN\">"));
    assert!(page.ends_with("</script>\n  </body>\n</html>"));
    assert!(page.contains("<title>A &lt;b&gt; title</title>"));
    assert!(page.contains("<h1>A &lt;b&gt; title</h1>"));
    assert!(page.contains(
        "<textarea id=\"t\" readonly spellcheck=\"false\">echo \"hi\" &gt; out &amp;&amp; ls</textarea>"
    ));
    assert!(page.contains("const expiresAt = 1700000000123;\n"));
    assert!(page.contains("body { margin: 0; font-family: ui-sans-serif"));
    assert!(page.contains("function selectAll() {\n"));
    assert!(!page.contains("{{"));
    assert!(page.starts_with(PAGE_BEFORE_TITLE));
    assert!(page.ends_with(PAGE_END));
}

#[test]
fn expiry_adds_the_time_to_live_in_milliseconds() {
    assert_eq!(share_expiry(1_000, Some(5)), 6_000);
    assert_eq!(share_expiry(1_000, None), 601_000);
    assert_eq!(share_expiry(0, Some(0)), 0);
}

#[test]
fn expiry_stops_at_the_largest_time() {
    assert_eq!(share_expiry(u64::MAX - 10, Some(1)), u64::MAX);
    assert_eq!(share_expiry(5, Some(u64::MAX)), u64::MAX);
    assert_eq!(share_expiry(5, Some(u64::MAX / 1000)), 5 + (u64::MAX / 1000) * 1000);
    assert_eq!(share_expiry(5, Some(u64::MAX / 1000 + 1)), u64::MAX);
}

#[test]
fn token_is_eight_lower_case_hex_digits() {
    let token = new_token();
    assert_eq!(token.len(), 8);
    assert!(token.chars().all(|c| c.is_ascii_digit() || ('a'..='f').contains(&c)));
}

#[test]
fn links_name_host_port_and_token() {
    let links = share_links(8123, "ab12cd34", &Some("192.168.1.7".to_string()), 99);
    assert_eq!(links.local_url, "http://localhost:8123/s/ab12cd34");
    assert_eq!(links.local_raw_url, "http://localhost:8123/s/ab12cd34/raw");
    assert_eq!(links.lan_url.as_deref(), Some("http://192.168.1.7:8123/s/ab12cd34"));
    assert_eq!(links.lan_raw_url.as_deref(), Some("http://192.168.1.7:8123/s/ab12cd34/raw"));
    assert_eq!(links.expires_at_ms, 99);

    let local_only = share_links(80, "t", &None, 1);
    assert_eq!(local_only.local_url, "http://localhost:80/s/t");
    assert_eq!(local_only.lan_url, None);
    assert_eq!(local_only.lan_raw_url, None);
}

#[test]
fn cleanup_drops_what_has_expired() {
    let mut items = vec![item("a", "1", 100), item("b", "2", 200), item("c", "3", 300)];
    cleanup_expired(&mut items, 99);
    assert_eq!(tokens(&items), vec!["a", "b", "c"]);
    cleanup_expired(&mut items, 200);
    assert_eq!(tokens(&items), vec!["c"]);
    cleanup_expired(&mut items, 300);
    assert!(items.is_empty());
}

#[test]
fn put_replaces_a_share_with_the_same_token() {
    let mut items = vec![item("a", "1", 100), item("b", "2", 200)];
    put_share(&mut items, item("a", "new", 500));
    assert_eq!(tokens(&items), vec!["b", "a"]);
    assert_eq!(find_share(&items, "a").unwrap().content, "new");
    assert_eq!(find_share(&items, "b").unwrap().content, "2");
    assert!(find_share(&items, "c").is_none());
}

#[test]
fn blank_text_is_not_shareable() {
    assert_eq!(ensure_shareable(""), Err("要分享的内容为空".to_string()));
    assert_eq!(ensure_shareable(" \t\n"), Err("要分享的内容为空".to_string()));
    assert_eq!(ensure_shareable(" x "), Ok(()));
}

#[test]
fn share_start_refuses_blank_content() {
    let mut items = vec![item("a", "1", 1)];
    let r = share_start(&mut items, "  \n ".to_string(), None, 50, "tok".to_string(), 80, &None);
    assert_eq!(r.err(), Some("要分享的内容为空".to_string()));
    assert_eq!(tokens(&items), vec!["a"]);
}

#[test]
fn share_start_stores_the_share_and_returns_its_links() {
    let mut items = vec![item("old", "1", 10), item("live", "2", 10_000)];
    let r = share_start(
        &mut items,
        "curl example | sh".to_string(),
        Some(60),
        1_000,
        "0a1b2c3d".to_string(),
        4567,
        &Some("10.0.0.2".to_string()),
    )
    .unwrap();
    assert_eq!(r.expires_at_ms, 61_000);
    assert_eq!(r.local_url, "http://localhost:4567/s/0a1b2c3d");
    assert_eq!(r.lan_raw_url.as_deref(), Some("http://10.0.0.2:4567/s/0a1b2c3d/raw"));
    assert_eq!(tokens(&items), vec!["live", "0a1b2c3d"]);
    assert_eq!(items[1].content, "curl example | sh");
    assert_eq!(items[1].expires_at_ms, 61_000);
}

#[test]
fn route_knows_the_two_addresses_of_a_share() {
    assert!(matches!(route("/s/abc"), ShareRoute::Page { token } if token == "abc"));
    assert!(matches!(route("/s/abc/"), ShareRoute::Page { token } if token == "abc"));
    assert!(matches!(route("//s//abc"), ShareRoute::Page { token } if token == "abc"));
    assert!(matches!(route("/s/abc?x=1/2"), ShareRoute::Page { token } if token == "abc"));
    assert!(matches!(route("/s/abc/raw"), ShareRoute::Raw { token } if token == "abc"));
    assert!(matches!(route("/s/abc/raw?download"), ShareRoute::Raw { token } if token == "abc"));
    assert!(matches!(route("/"), ShareRoute::NotFound));
    assert!(matches!(route(""), ShareRoute::NotFound));
    assert!(matches!(route("/s"), ShareRoute::NotFound));
    assert!(matches!(route("/x/abc"), ShareRoute::NotFound));
    assert!(matches!(route("/s/abc/other"), ShareRoute::NotFound));
    assert!(matches!(route("/s/abc/raw/more"), ShareRoute::NotFound));
    assert!(matches!(route("?/s/abc"), ShareRoute::NotFound));
}

#[test]
fn respond_only_allows_reading() {
    let mut items = vec![item("abc", "text", 100)];
    let r = respond(&mut items, false, "/s/abc", 0);
    assert_eq!(r.status, 405);
    assert_eq!(r.content_type, None);
    assert_eq!(r.body, "");
    assert_eq!(items.len(), 1);
}

#[test]
fn respond_answers_unknown_addresses_with_not_found() {
    let mut items = vec![item("abc", "text", 100)];
    let r = respond(&mut items, true, "/nothing", 500);
    assert_eq!(r.status, 404);
    assert_eq!(r.body, "not found");
    assert_eq!(items.len(), 1);
}

#[test]
fn respond_serves_the_text_and_the_page_of_a_share() {
    let mut items = vec![item("abc", "ls <dir>", 1_000)];
    let raw = respond(&mut items, true, "/s/abc/raw", 10);
    assert_eq!(raw.status, 200);
    assert_eq!(raw.content_type.as_deref(), Some("text/plain; charset=utf-8"));
    assert_eq!(raw.body, "ls <dir>");

    let page = respond(&mut items, true, "/s/abc", 10);
    assert_eq!(page.status, 200);
    assert_eq!(page.content_type.as_deref(), Some("text/html; charset=utf-8"));
    assert_eq!(page.body, html_page("AgentSync 命令分享", "ls <dir>", 1_000));
    assert!(page.body.contains("ls &lt;dir&gt;"));
}

#[test]
fn respond_never_serves_an_expired_share() {
    let mut items = vec![item("abc", "text", 1_000), item("live", "x", 9_000)];
    let r = respond(&mut items, true, "/s/abc/raw", 1_000);
    assert_eq!(r.status, 404);
    assert_eq!(r.body, "expired or not found");
    assert_eq!(tokens(&items), vec!["live"]);
    let r = respond(&mut items, true, "/s/missing", 1_000);
    assert_eq!(r.status, 404);
    assert_eq!(r.body, "expired or not found");
}
