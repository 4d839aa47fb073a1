//! Sharing a text with another device on the local network: the links that
//! lead to it, the page that shows it, and what a request is answered with.
//!
//! A share lives for a limited time and is reached by a short random token.
//! The server itself is not here: it hands each request to [`respond`].

use vstd::prelude::*;
use crate::plan::{is_lower_hex, new_run_id};
use crate::text::{
    blank, chars_of, concat2, concat3, decimal, is_blank, opt_text, push_char, push_decimal,
    same_text, split, split_at_char, string_of_range, texts,
};

verus! {

/// The page up to its title.
pub const PAGE_BEFORE_TITLE: &'static str = "<!doctype html>
<html lang=\"zh-CN\">
  <head>
    <meta charset=\"utf-8\" />
    <meta name=\"viewport\" content=\"width=device-width, initial-scale=1\" />
    <title>";

/// The page between its title and its heading.
pub const PAGE_BEFORE_HEADING: &'static str = "</title>
    <style>
      body { margin: 0; font-family: ui-sans-serif, system-ui, -apple-system, BlinkMacSystemFont, \"Segoe UI\", Roboto, \"Helvetica Neue\", Arial; background: #f5f3ff; color: #0f172a; }
      .wrap { max-width: 760px; margin: 0 auto; padding: 28px 16px; }
      .card { background: rgba(255,255,255,.86); backdrop-filter: blur(12px); border: 1px solid rgba(148,163,184,.6); border-radius: 24px; padding: 18px; box-shadow: 0 8px 30px rgba(15,23,42,.06); }
      h1 { font-size: 16px; margin: 0 0 8px; letter-spacing: .04em; text-transform: uppercase; color: #64748b; }
      .hint { font-size: 12px; color: #64748b; line-height: 1.6; }
      textarea { width: 100%; min-height: 240px; border-radius: 16px; border: 1px solid #e2e8f0; padding: 14px; font-family: ui-monospace, SFMono-Regular, Menlo, Monaco, Consolas, \"Liberation Mono\", \"Courier New\", monospace; font-size: 12px; line-height: 1.5; color: #0f172a; background: #fff; outline: none; }
      textarea:focus { border-color: #c7d2fe; box-shadow: 0 0 0 3px rgba(99,102,241,.12); }
      .actions { display: flex; gap: 10px; flex-wrap: wrap; margin-top: 12px; }
      button { border-radius: 14px; border: 1px solid #e2e8f0; background: #fff; padding: 10px 14px; font-weight: 700; color: #0f172a; cursor: pointer; }
      button.primary { background: #4f46e5; border-color: #4f46e5; color: #fff; box-shadow: 0 10px 24px rgba(99,102,241,.28); }
      button:active { transform: scale(.98); }
      .msg { font-size: 12px; color: #475569; margin-top: 10px; }
      code { background: rgba(15,23,42,.06); padding: 1px 6px; border-radius: 8px; }
    </style>
  </head>
  <body>
    <div class=\"wrap\">
      <div class=\"card\">
        <h1>";

/// The page between its heading and the shared text.
pub const PAGE_BEFORE_CONTENT: &'static str = "</h1>
        <div class=\"hint\">
          你可以点击“复制”然后去终端粘贴执行；如果浏览器不让一键复制，就手动选中文本复制也行。<br/>
          过期时间：<code id=\"exp\"></code>
        </div>
        <div style=\"margin-top: 12px;\">
          <textarea id=\"t\" readonly spellcheck=\"false\">";

/// The page between the shared text and the time of expiry.
pub const PAGE_BEFORE_EXPIRY: &'static str = "</textarea>
        </div>
        <div class=\"actions\">
          <button class=\"primary\" onclick=\"copyText()\">复制</button>
          <button onclick=\"selectAll()\">全选</button>
        </div>
        <div class=\"msg\" id=\"msg\"></div>
      </div>
    </div>
    <script>
      const expiresAt = ";

/// The page from the time of expiry on.
pub const PAGE_END: &'static str = ";
      document.getElementById('exp').textContent = new Date(expiresAt).toLocaleString();
      function selectAll() {
        const ta = document.getElementById('t');
        ta.focus();
        ta.select();
      }
      async function copyText() {
        const ta = document.getElementById('t');
        const msg = document.getElementById('msg');
        msg.textContent = '';
        try {
          // 兼容优先：先尝试旧的 execCommand（在 http 场景更容易成功）
          selectAll();
          const ok = document.execCommand('copy');
          if (ok) {
            msg.textContent = '已复制（如果没生效就手动复制）。';
            return;
          }
        } catch (e) {}
        try {
          // 新接口：需要安全上下文（https/localhost），在局域网 IP 上可能不可用
          if (navigator.clipboard) {
            await navigator.clipboard.writeText(ta.value);
            msg.textContent = '已复制。';
            return;
          }
        } catch (e) {}
        msg.textContent = '浏览器限制了一键复制：请点“全选”后手动复制。';
      }
    </script>
  </body>
</html>";

/// The title of the page that shows a share.
pub const PAGE_TITLE: &'static str = "AgentSync 命令分享";

/// The time that a share lives where none is asked for, in seconds.
pub const DEFAULT_TTL_SECONDS: u64 = 600;

/// The number of characters of a token.
pub const TOKEN_LENGTH: usize = 8;

/// What stands for `c` in a page, so that a browser shows `c` itself.
pub open spec fn escaped_char(c: char) -> Seq<char> {
    if c == '&' {
        "&amp;"@
    } else if c == '<' {
        "&lt;"@
    } else if c == '>' {
        "&gt;"@
    } else {
        seq![c]
    }
}

/// `s` with the characters that mean something in a page escaped.
pub open spec fn escaped(s: Seq<char>) -> Seq<char>
    decreases s.len(),
{
    if s.len() == 0 {
        Seq::empty()
    } else {
        escaped(s.drop_last()) + escaped_char(s.last())
    }
}

/// Escapes the characters of `s` that mean something in a page.
pub fn escape_html(s: &str) -> (r: String)
    ensures
        r@ == escaped(s@),
{
    let v = chars_of(s);
    let mut r = String::new();
    let mut i: usize = 0;
    assert(r@ =~= escaped(v@.take(0)));
    while i < v.len()
        invariant
            i <= v.len(),
            r@ == escaped(v@.take(i as int)),
        decreases v.len() - i,
    {
        proof {
            assert(v@.take(i + 1).drop_last() =~= v@.take(i as int));
            assert(v@.take(i + 1).last() == v@[i as int]);
        }
        let c = v[i];
        if c == '&' {
            r.append("&amp;");
        } else if c == '<' {
            r.append("&lt;");
        } else if c == '>' {
            r.append("&gt;");
        } else {
            push_char(&mut r, c);
            assert(r@ =~= escaped(v@.take(i as int)) + seq![c]);
        }
        i += 1;
    }
    assert(v@.take(v@.len() as int) =~= v@);
    r
}

/// The page that shows `content` under `title`, and tells the browser when
/// the share expires.
pub open spec fn page(title: Seq<char>, content: Seq<char>, expires_at_ms: u64) -> Seq<char> {
    PAGE_BEFORE_TITLE@ + escaped(title) + PAGE_BEFORE_HEADING@ + escaped(title)
        + PAGE_BEFORE_CONTENT@ + escaped(content) + PAGE_BEFORE_EXPIRY@ + decimal(
        expires_at_ms as nat,
    ) + PAGE_END@
}

/// Builds the page that shows `content` under `title`.
pub fn html_page(title: &str, content: &str, expires_at_ms: u64) -> (r: String)
    ensures
        r@ == page(title@, content@, expires_at_ms),
{
    let safe_title = escape_html(title);
    let safe_content = escape_html(content);
    let mut r = PAGE_BEFORE_TITLE.to_string();
    r.append(safe_title.as_str());
    r.append(PAGE_BEFORE_HEADING);
    r.append(safe_title.as_str());
    r.append(PAGE_BEFORE_CONTENT);
    r.append(safe_content.as_str());
    r.append(PAGE_BEFORE_EXPIRY);
    push_decimal(&mut r, expires_at_ms);
    r.append(PAGE_END);
    r
}

/// When a share that starts at `now_ms` expires: after `ttl_seconds`, or
/// after the default time where none is given. The result stops at the
/// largest time that can be written.
pub open spec fn expiry(now_ms: u64, ttl_seconds: Option<u64>) -> u64 {
    let ttl = match ttl_seconds {
        Some(t) => t,
        None => DEFAULT_TTL_SECONDS,
    };
    if now_ms + ttl * 1000 > u64::MAX {
        u64::MAX
    } else {
        (now_ms + ttl * 1000) as u64
    }
}

/// When a share that starts at `now_ms` expires.
pub fn share_expiry(now_ms: u64, ttl_seconds: Option<u64>) -> (r: u64)
    ensures
        r == expiry(now_ms, ttl_seconds),
{
    let ttl = match ttl_seconds {
        Some(t) => t,
        None => DEFAULT_TTL_SECONDS,
    };
    let span: u64 = if ttl > u64::MAX / 1000 {
        u64::MAX
    } else {
        ttl * 1000
    };
    now_ms.saturating_add(span)
}

/// Whether `token` has the form of a token: eight hexadecimal digits in
/// lower case.
pub open spec fn is_token(token: Seq<char>) -> bool {
    &&& token.len() == TOKEN_LENGTH
    &&& forall|i: int| 0 <= i < token.len() ==> is_lower_hex(#[trigger] token[i])
}

/// A fresh token, drawn at random.
pub fn new_token() -> (r: String)
    ensures
        is_token(r@),
{
    let id = new_run_id();
    let v = chars_of(id.as_str());
    string_of_range(&v, 0, TOKEN_LENGTH)
}

/// One text that is shared, until it expires.
#[derive(Debug)]
pub struct ShareItem {
    pub token: String,
    pub content: String,
    pub expires_at_ms: u64,
}

/// What a [`ShareItem`] holds.
pub struct ShareItemView {
    pub token: Seq<char>,
    pub content: Seq<char>,
    pub expires_at_ms: u64,
}

impl View for ShareItem {
    type V = ShareItemView;

    open spec fn view(&self) -> ShareItemView {
        ShareItemView {
            token: self.token@,
            content: self.content@,
            expires_at_ms: self.expires_at_ms,
        }
    }
}

impl Clone for ShareItem {
    fn clone(&self) -> (r: Self)
        ensures
            r@ == self@,
    {
        ShareItem {
            token: self.token.clone(),
            content: self.content.clone(),
            expires_at_ms: self.expires_at_ms,
        }
    }
}

/// What a sequence of shares holds.
pub open spec fn share_views(items: Seq<ShareItem>) -> Seq<ShareItemView> {
    Seq::new(items.len(), |i: int| items[i]@)
}

/// What an optional share holds.
pub open spec fn opt_share_view(o: Option<ShareItem>) -> Option<ShareItemView> {
    match o {
        Some(i) => Some(i@),
        None => None,
    }
}

/// The shares of `items` that have not expired at `now_ms`, in their order.
pub open spec fn unexpired(items: Seq<ShareItemView>, now_ms: u64) -> Seq<ShareItemView>
    decreases items.len(),
{
    if items.len() == 0 {
        Seq::empty()
    } else if items.last().expires_at_ms > now_ms {
        unexpired(items.drop_last(), now_ms).push(items.last())
    } else {
        unexpired(items.drop_last(), now_ms)
    }
}

/// The shares of `items` that go by another token than `token`, in their order.
pub open spec fn without_token(items: Seq<ShareItemView>, token: Seq<char>) -> Seq<ShareItemView>
    decreases items.len(),
{
    if items.len() == 0 {
        Seq::empty()
    } else if items.last().token == token {
        without_token(items.drop_last(), token)
    } else {
        without_token(items.drop_last(), token).push(items.last())
    }
}

/// The share of `items` that goes by `token`: the one that was added last,
/// if there is one.
pub open spec fn found(items: Seq<ShareItemView>, token: Seq<char>) -> Option<ShareItemView>
    decreases items.len(),
{
    if items.len() == 0 {
        None
    } else if items.last().token == token {
        Some(items.last())
    } else {
        found(items.drop_last(), token)
    }
}

/// Drops the shares that have expired at `now_ms`.
pub fn cleanup_expired(items: &mut Vec<ShareItem>, now_ms: u64)
    ensures
        share_views(final(items)@) == unexpired(share_views(old(items)@), now_ms),
{
    let ghost all = share_views(items@);
    let mut kept: Vec<ShareItem> = Vec::new();
    let mut i: usize = 0;
    assert(share_views(kept@) =~= unexpired(all.take(0), now_ms));
    while i < items.len()
        invariant
            i <= items.len(),
            all == share_views(items@),
            share_views(kept@) == unexpired(all.take(i as int), now_ms),
        decreases items.len() - i,
    {
        proof {
            assert(all.take(i + 1).drop_last() =~= all.take(i as int));
            assert(all.take(i + 1).last() == items@[i as int]@);
        }
        if items[i].expires_at_ms > now_ms {
            let ghost before = share_views(kept@);
            kept.push(items[i].clone());
            assert(share_views(kept@) =~= before.push(items@[i as int]@));
        }
        i += 1;
    }
    assert(all.take(items@.len() as int) =~= all);
    *items = kept;
}

/// Adds a share. A share that went by the same token is replaced.
pub fn put_share(items: &mut Vec<ShareItem>, item: ShareItem)
    ensures
        share_views(final(items)@) == without_token(share_views(old(items)@), item@.token).push(
            item@,
        ),
{
    let ghost all = share_views(items@);
    let mut kept: Vec<ShareItem> = Vec::new();
    let mut i: usize = 0;
    assert(share_views(kept@) =~= without_token(all.take(0), item@.token));
    while i < items.len()
        invariant
            i <= items.len(),
            all == share_views(items@),
            share_views(kept@) == without_token(all.take(i as int), item@.token),
        decreases items.len() - i,
    {
        proof {
            assert(all.take(i + 1).drop_last() =~= all.take(i as int));
            assert(all.take(i + 1).last() == items@[i as int]@);
        }
        if !items[i].token.eq(&item.token) {
            let ghost before = share_views(kept@);
            kept.push(items[i].clone());
            assert(share_views(kept@) =~= before.push(items@[i as int]@));
        }
        i += 1;
    }
    assert(all.take(items@.len() as int) =~= all);
    let ghost before = share_views(kept@);
    kept.push(item);
    assert(share_views(kept@) =~= before.push(item@));
    *items = kept;
}

/// Looks up the share that goes by `token`.
pub fn find_share(items: &Vec<ShareItem>, token: &str) -> (r: Option<ShareItem>)
    ensures
        opt_share_view(r) == found(share_views(items@), token@),
{
    let ghost all = share_views(items@);
    let mut i: usize = items.len();
    assert(all.take(all.len() as int) =~= all);
    while i > 0
        invariant
            i <= items.len(),
            all == share_views(items@),
            found(all, token@) == found(all.take(i as int), token@),
        decreases i,
    {
        proof {
            assert(all.take(i as int).drop_last() =~= all.take(i - 1));
            assert(all.take(i as int).last() == items@[i - 1]@);
        }
        if same_text(items[i - 1].token.as_str(), token) {
            return Some(items[i - 1].clone());
        }
        i -= 1;
    }
    None
}

/// The links to one share.
#[derive(Debug)]
pub struct ShareStartResult {
    pub local_url: String,
    pub lan_url: Option<String>,
    pub local_raw_url: String,
    pub lan_raw_url: Option<String>,
    pub expires_at_ms: u64,
}

/// What a [`ShareStartResult`] holds.
pub struct ShareStartResultView {
    pub local_url: Seq<char>,
    pub lan_url: Option<Seq<char>>,
    pub local_raw_url: Seq<char>,
    pub lan_raw_url: Option<Seq<char>>,
    pub expires_at_ms: u64,
}

impl View for ShareStartResult {
    type V = ShareStartResultView;

    open spec fn view(&self) -> ShareStartResultView {
        ShareStartResultView {
            local_url: self.local_url@,
            lan_url: opt_text(self.lan_url),
            local_raw_url: self.local_raw_url@,
            lan_raw_url: opt_text(self.lan_raw_url),
            expires_at_ms: self.expires_at_ms,
        }
    }
}

/// The address of the page of the share `token` on `host`.
pub open spec fn page_url(host: Seq<char>, port: u16, token: Seq<char>) -> Seq<char> {
    "http://"@ + host + ":"@ + decimal(port as nat) + "/s/"@ + token
}

/// The address of the bare text of the share `token` on `host`.
pub open spec fn raw_url(host: Seq<char>, port: u16, token: Seq<char>) -> Seq<char> {
    page_url(host, port, token) + "/raw"@
}

/// The links to the share `token`: on this machine, and on the local
/// network where the address of this machine on it is known.
pub open spec fn links(port: u16, token: Seq<char>, lan_ip: Option<Seq<char>>, expires_at_ms: u64)
    -> ShareStartResultView {
    ShareStartResultView {
        local_url: page_url("localhost"@, port, token),
        lan_url: match lan_ip {
            Some(ip) => Some(page_url(ip, port, token)),
            None => None,
        },
        local_raw_url: raw_url("localhost"@, port, token),
        lan_raw_url: match lan_ip {
            Some(ip) => Some(raw_url(ip, port, token)),
            None => None,
        },
        expires_at_ms,
    }
}

/// The address of the page of the share `token` on `host`.
fn page_url_text(host: &str, port: u16, token: &str) -> (r: String)
    ensures
        r@ == page_url(host@, port, token@),
{
    let mut r = concat3("http://", host, ":");
    push_decimal(&mut r, port as u64);
    r.append("/s/");
    r.append(token);
    r
}

/// The links to the share `token`.
pub fn share_links(
    port: u16,
    token: &str,
    lan_ip: &Option<String>,
    expires_at_ms: u64,
) -> (r: ShareStartResult)
    ensures
        r@ == links(port, token@, opt_text(*lan_ip), expires_at_ms),
{
    let local_url = page_url_text("localhost", port, token);
    let local_raw_url = concat2(local_url.as_str(), "/raw");
    let (lan_url, lan_raw_url) = match lan_ip {
        Some(ip) => {
            let url = page_url_text(ip.as_str(), port, token);
            let raw = concat2(url.as_str(), "/raw");
            (Some(url), Some(raw))
        },
        None => (None, None),
    };
    ShareStartResult { local_url, lan_url, local_raw_url, lan_raw_url, expires_at_ms }
}

/// The message of the error that a blank text gets.
pub open spec fn empty_share_message() -> Seq<char> {
    "要分享的内容为空"@
}

/// Refuses a text that is blank: there is nothing to share in it.
pub fn ensure_shareable(content: &str) -> (r: Result<(), String>)
    ensures
        is_blank(content@) ==> r is Err && r->Err_0@ == empty_share_message(),
        !is_blank(content@) ==> r is Ok,
{
    if blank(content) {
        return Err("要分享的内容为空".to_string());
    }
    Ok(())
}

/// Shares `content`, under the token `token`, from `now_ms` on. A blank
/// text is refused and changes nothing. Else the shares that have expired
/// are dropped, the new share joins the rest, and its links are returned.
/// `port` is the port of the server and `lan_ip` the address of this
/// machine on the local network, if it is known.
pub fn share_start(
    items: &mut Vec<ShareItem>,
    content: String,
    ttl_seconds: Option<u64>,
    now_ms: u64,
    token: String,
    port: u16,
    lan_ip: &Option<String>,
) -> (r: Result<ShareStartResult, String>)
    ensures
        is_blank(content@) ==> r is Err && r->Err_0@ == empty_share_message() && *final(items)
            == *old(items),
        !is_blank(content@) ==> r is Ok && r->Ok_0@ == links(
            port,
            token@,
            opt_text(*lan_ip),
            expiry(now_ms, ttl_seconds),
        ) && share_views(final(items)@) == without_token(
            unexpired(share_views(old(items)@), now_ms),
            token@,
        ).push(
            ShareItemView {
                token: token@,
                content: content@,
                expires_at_ms: expiry(now_ms, ttl_seconds),
            },
        ),
{
    match ensure_shareable(content.as_str()) {
        Err(e) => {
            return Err(e);
        },
        Ok(_) => {},
    }
    let expires_at_ms = share_expiry(now_ms, ttl_seconds);
    cleanup_expired(items, now_ms);
    let links = share_links(port, token.as_str(), lan_ip, expires_at_ms);
    put_share(items, ShareItem { token, content, expires_at_ms });
    Ok(links)
}

/// What a request asks for.
#[derive(Debug)]
pub enum ShareRoute {
    /// Nothing that the server knows.
    NotFound,
    /// The page of a share.
    Page { token: String },
    /// The bare text of a share.
    Raw { token: String },
}

/// What a [`ShareRoute`] holds.
pub enum ShareRouteView {
    NotFound,
    Page { token: Seq<char> },
    Raw { token: Seq<char> },
}

impl View for ShareRoute {
    type V = ShareRouteView;

    open spec fn view(&self) -> ShareRouteView {
        match *self {
            ShareRoute::NotFound => ShareRouteView::NotFound,
            ShareRoute::Page { token } => ShareRouteView::Page { token: token@ },
            ShareRoute::Raw { token } => ShareRouteView::Raw { token: token@ },
        }
    }
}

/// The segments of `pieces` that are not empty, in their order.
pub open spec fn segments(pieces: Seq<Seq<char>>) -> Seq<Seq<char>>
    decreases pieces.len(),
{
    if pieces.len() == 0 {
        Seq::empty()
    } else if pieces.last().len() == 0 {
        segments(pieces.drop_last())
    } else {
        segments(pieces.drop_last()).push(pieces.last())
    }
}

/// The path of an address: what stands before the first question mark.
pub open spec fn path_of(url: Seq<char>) -> Seq<char> {
    split(url, '?')[0]
}

/// What the address `url` asks for: `/s/<token>` is the page of a share and
/// `/s/<token>/raw` its bare text, whatever follows a question mark and
/// however many slashes separate the segments.
pub open spec fn routed(url: Seq<char>) -> ShareRouteView {
    let parts = segments(split(path_of(url), '/'));
    if parts.len() == 2 && parts[0] == "s"@ {
        ShareRouteView::Page { token: parts[1] }
    } else if parts.len() == 3 && parts[0] == "s"@ && parts[2] == "raw"@ {
        ShareRouteView::Raw { token: parts[1] }
    } else {
        ShareRouteView::NotFound
    }
}

/// Tells what the address `url` asks for.
pub fn route(url: &str) -> (r: ShareRoute)
    ensures
        r@ == routed(url@),
{
    let before_query = split_at_char(url, '?');
    proof {
        lemma_split_has_a_piece(url@, '?');
    }
    let pieces = split_at_char(before_query[0].as_str(), '/');
    let ghost all = texts(pieces@);
    let mut parts: Vec<String> = Vec::new();
    let mut i: usize = 0;
    assert(texts(parts@) =~= segments(all.take(0)));
    while i < pieces.len()
        invariant
            i <= pieces.len(),
            all == texts(pieces@),
            texts(parts@) == segments(all.take(i as int)),
        decreases pieces.len() - i,
    {
        proof {
            assert(all.take(i + 1).drop_last() =~= all.take(i as int));
            assert(all.take(i + 1).last() == pieces@[i as int]@);
        }
        if pieces[i].as_str().unicode_len() != 0 {
            let ghost before = texts(parts@);
            parts.push(pieces[i].clone());
            assert(texts(parts@) =~= before.push(pieces@[i as int]@));
        }
        i += 1;
    }
    assert(all.take(pieces@.len() as int) =~= all);
    assert(texts(parts@) == segments(split(path_of(url@), '/')));
    if parts.len() == 2 && same_text(parts[0].as_str(), "s") {
        assert(texts(parts@)[1] == parts@[1]@);
        ShareRoute::Page { token: parts[1].clone() }
    } else if parts.len() == 3 && same_text(parts[0].as_str(), "s") && same_text(
        parts[2].as_str(),
        "raw",
    ) {
        assert(texts(parts@)[1] == parts@[1]@);
        ShareRoute::Raw { token: parts[1].clone() }
    } else {
        ShareRoute::NotFound
    }
}

/// Cutting a text leaves at least one piece.
proof fn lemma_split_has_a_piece(s: Seq<char>, sep: char)
    ensures
        split(s, sep).len() >= 1,
{
}

/// What a request is answered with.
#[derive(Debug)]
pub struct ShareResponse {
    /// The status code.
    pub status: u16,
    /// The type of the body, where the answer names one.
    pub content_type: Option<String>,
    /// The body.
    pub body: String,
}

/// What a [`ShareResponse`] holds.
pub struct ShareResponseView {
    pub status: u16,
    pub content_type: Option<Seq<char>>,
    pub body: Seq<char>,
}

impl View for ShareResponse {
    type V = ShareResponseView;

    open spec fn view(&self) -> ShareResponseView {
        ShareResponseView {
            status: self.status,
            content_type: opt_text(self.content_type),
            body: self.body@,
        }
    }
}

/// The answer to a request for a share, found or not: the page of the
/// share, or its bare text, or the word that it is not there.
pub open spec fn share_answer(raw: bool, item: Option<ShareItemView>) -> ShareResponseView {
    match item {
        None => ShareResponseView {
            status: 404,
            content_type: None,
            body: "expired or not found"@,
        },
        Some(i) => if raw {
            ShareResponseView {
                status: 200,
                content_type: Some("text/plain; charset=utf-8"@),
                body: i.content,
            }
        } else {
            ShareResponseView {
                status: 200,
                content_type: Some("text/html; charset=utf-8"@),
                body: page(PAGE_TITLE@, i.content, i.expires_at_ms),
            }
        },
    }
}

/// The answer to a request for `url` at `now_ms`, where `items` are the
/// shares that have not expired then. Only reading is allowed; only the two
/// addresses of a share are known.
pub open spec fn answered(is_get: bool, url: Seq<char>, items: Seq<ShareItemView>)
    -> ShareResponseView {
    if !is_get {
        ShareResponseView { status: 405, content_type: None, body: Seq::empty() }
    } else {
        match routed(url) {
            ShareRouteView::NotFound => ShareResponseView {
                status: 404,
                content_type: None,
                body: "not found"@,
            },
            ShareRouteView::Page { token } => share_answer(false, found(items, token)),
            ShareRouteView::Raw { token } => share_answer(true, found(items, token)),
        }
    }
}

/// Whether a request for `url` gets as far as the shares.
pub open spec fn reaches_shares(is_get: bool, url: Seq<char>) -> bool {
    is_get && !(routed(url) is NotFound)
}

/// The answer to a request for a share.
fn answer_share(raw: bool, item: Option<ShareItem>) -> (r: ShareResponse)
    ensures
        r@ == share_answer(raw, opt_share_view(item)),
{
    match item {
        None => ShareResponse {
            status: 404,
            content_type: None,
            body: "expired or not found".to_string(),
        },
        Some(i) => {
            if raw {
                ShareResponse {
                    status: 200,
                    content_type: Some("text/plain; charset=utf-8".to_string()),
                    body: i.content,
                }
            } else {
                ShareResponse {
                    status: 200,
                    content_type: Some("text/html; charset=utf-8".to_string()),
                    body: html_page(PAGE_TITLE, i.content.as_str(), i.expires_at_ms),
                }
            }
        },
    }
}

/// Answers one request. `is_get` says whether the request reads. A request
/// that gets as far as the shares drops those that have expired at
/// `now_ms` first; any other leaves them as they are.
pub fn respond(
    items: &mut Vec<ShareItem>,
    is_get: bool,
    url: &str,
    now_ms: u64,
) -> (r: ShareResponse)
    ensures
        reaches_shares(is_get, url@) ==> share_views(final(items)@) == unexpired(
            share_views(old(items)@),
            now_ms,
        ),
        !reaches_shares(is_get, url@) ==> *final(items) == *old(items),
        r@ == answered(
            is_get,
            url@,
            if reaches_shares(is_get, url@) {
                unexpired(share_views(old(items)@), now_ms)
            } else {
                share_views(old(items)@)
            },
        ),
{
    if !is_get {
        return ShareResponse { status: 405, content_type: None, body: String::new() };
    }
    match route(url) {
        ShareRoute::NotFound => ShareResponse {
            status: 404,
            content_type: None,
            body: "not found".to_string(),
        },
        ShareRoute::Page { token } => {
            cleanup_expired(items, now_ms);
            answer_share(false, find_share(items, token.as_str()))
        },
        ShareRoute::Raw { token } => {
            cleanup_expired(items, now_ms);
            answer_share(true, find_share(items, token.as_str()))
        },
    }
}

/// A share that has expired is never served: what is found among the shares
/// that have not expired has not expired.
pub proof fn lemma_found_share_is_unexpired(
    items: Seq<ShareItemView>,
    now_ms: u64,
    token: Seq<char>,
)
    ensures
        found(unexpired(items, now_ms), token) is Some ==> found(
            unexpired(items, now_ms),
            token,
        )->0.expires_at_ms > now_ms && found(unexpired(items, now_ms), token)->0.token == token,
    decreases items.len(),
{
    if items.len() > 0 {
        lemma_found_share_is_unexpired(items.drop_last(), now_ms, token);
        if items.last().expires_at_ms > now_ms {
            assert(unexpired(items, now_ms).drop_last() =~= unexpired(items.drop_last(), now_ms));
        }
    }
}

} // verus!
