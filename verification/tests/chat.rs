//! Chats, messages and replies.
use teams_cli::api::chat::{
    build_reply_html, has_image, list_chats, list_chats_data, messages_url, page_url, read_messages,
    read_messages_page, read_messages_response, reply_message, reply_snippet, split_reply_quote,
    strip_html, with_page_size, REPLY_SNIPPET_MAX,
};
use teams_cli::json::{parse_json, Json};

fn parsed(text: &str) -> Json {
    parse_json(text).unwrap()
}

#[test]
fn image_tag_detection() {
    assert!(has_image(r#"<p><img src="https://h/v1/objects/0/views/imgo"></p>"#));
    assert!(has_image(r#"<IMG SRC="https://h/x.png">"#));
    assert!(has_image(r#"<p>hi <img
src="x">"#));
    assert!(!has_image("<p>plain text</p>"));
    assert!(!has_image("<p>image word, no tag</p>"));
    assert!(!has_image(""));
}

#[test]
fn page_size_rewrite_mid_and_end() {
    assert_eq!(
        with_page_size("https://h/m?pageSize=2&view=x", 50),
        "https://h/m?pageSize=50&view=x"
    );
    assert_eq!(
        with_page_size("https://h/m?view=x&pageSize=2", 50),
        "https://h/m?view=x&pageSize=50"
    );
    assert_eq!(with_page_size("https://h/m", 50), "https://h/m");
}

#[test]
fn reply_snippet_collapses_and_truncates() {
    assert_eq!(reply_snippet("hi"), "hi");
    assert_eq!(reply_snippet("a  b\n\tc"), "a b c");
    assert_eq!(reply_snippet("  padded  "), "padded");
    let long = "w".repeat(200);
    let snip = reply_snippet(&long);
    assert_eq!(snip.chars().count(), REPLY_SNIPPET_MAX + 1);
    assert!(snip.ends_with('…'));
    let uni = "é".repeat(200);
    let usnip = reply_snippet(&uni);
    assert_eq!(usnip.chars().count(), REPLY_SNIPPET_MAX + 1);
}

#[test]
fn reply_html_round_trips_through_split() {
    let html = build_reply_html("m1", "Priya Nair", "Ship <it> & go", "On it!");
    assert!(html.contains("<quote"), "{}", html);
    assert!(html.contains("&lt;it&gt; &amp; go"), "{}", html);
    let (parent, body) = split_reply_quote(&html);
    assert_eq!(parent.as_deref(), Some("m1"));
    assert_eq!(strip_html(&body).trim(), "On it!");
}

#[test]
fn split_quote_rejects_malformed() {
    let (p, b) = split_reply_quote("<p>plain</p>");
    assert_eq!(p, None);
    assert_eq!(b, "<p>plain</p>");
    let (p, b) = split_reply_quote("<quote guid=\"m1\"><p>oops</p>");
    assert_eq!(p, None);
    assert_eq!(b, "<quote guid=\"m1\"><p>oops</p>");
    let (p, b) = split_reply_quote("<quote author=\"A\">old</quote><p>new</p>");
    assert_eq!(p, None);
    assert_eq!(strip_html(&b).trim(), "new");
    let (p, _) = split_reply_quote("<quote guid='m9'>x</quote><p>y</p>");
    assert_eq!(p.as_deref(), Some("m9"));
}

#[test]
fn metadata_backward_link_parses() {
    let body = read_messages_response(&parsed(r#"{"messages":[],"_metadata":{"backwardLink":"https://h/back"},"tenantId":"t"}"#)).unwrap();
    assert_eq!(
        body.metadata.unwrap().backward_link.as_deref(),
        Some("https://h/back")
    );
    let bare = read_messages_response(&parsed(r#"{"messages":[]}"#)).unwrap();
    assert!(bare.metadata.is_none());
}

#[test]
fn replies_keep_their_parent_and_text() {
    for (sender, text, reply) in [
        ("A \"B\" <c>", "x & y", "ok"),
        ("", "", "fine > good"),
        ("Ünal", "…", "ß"),
        ("guid=", "guid=\"no\"", "a"),
        (" guid=", " guid='no'", "b"),
        ("x guid=\"no\" guid='no'", "c", "c"),
    ] {
        let html = build_reply_html("id-7", sender, text, reply);
        let (parent, body) = split_reply_quote(&html);
        assert_eq!(parent.as_deref(), Some("id-7"));
        assert_eq!(strip_html(&body).trim(), reply);
    }
}

#[test]
fn quote_ids_stand_outside_quoted_values() {
    for (tag, id) in [
        ("<quote author=\"guid=\" guid=\"m1\">", Some("m1")),
        ("<quote author=\"x guid='no'\" guid='m1'>", Some("m1")),
        ("<quote author='x guid=\"no\"'\tguid=\"m1\">", Some("m1")),
        ("<quote author = \"x guid='no'\">", None),
        ("<quote a-guid=\"m1\">", Some("m1")),
        ("<quote author= guid=\"m1\">", Some("m1")),
        ("<quote author=O'Brien guid=\"m1\">", Some("m1")),
        ("<quote author=\"A\"guid=\"m1\">", Some("m1")),
        ("<quote guid='a' guid=\"b\">", Some("b")),
        ("<quote guid=\"\">", None),
        ("<quote guid=\"m1>", None),
        ("<quote author=\"A guid='m1'>", Some("m1")),
        ("<quote guid=\"a&amp;lt;b&quot;\">", Some("a&lt;b\"")),
    ] {
        let (parent, body) = split_reply_quote(&format!("{tag}old</quote><p>new</p>"));
        assert_eq!(parent.as_deref(), id, "{tag}");
        assert_eq!(body, "<p>new</p>");
    }
}

#[test]
fn replies_give_back_any_id_and_text() {
    for id in ["m1", "a&b", "<x>", "\"q\" 'r'", "&amp;", "&lt;&nbsp;"] {
        let html = build_reply_html(id, "Ava", "x", "&lt; is &amp;lt;");
        let (parent, body) = split_reply_quote(&html);
        assert_eq!(parent.as_deref(), Some(id));
        assert_eq!(strip_html(&body), "&lt; is &amp;lt;");
    }
}

#[test]
fn cutting_a_quote_twice_changes_nothing() {
    for s in ["", "  a \t b\n", &"ab ".repeat(80), &"é".repeat(200), &"x".repeat(140)] {
        let once = reply_snippet(s);
        assert_eq!(reply_snippet(&once), once);
    }
    // The cut falls behind a blank.
    let cut = reply_snippet(&format!("{} tail", "x".repeat(139)));
    assert!(cut.ends_with(" \u{2026}"));
    assert_eq!(reply_snippet(&cut), cut);
}

#[test]
fn html_is_shown_as_text() {
    assert_eq!(strip_html("&amp;lt; &amp;amp; &amp; &lt &nbsp;."), "&lt; &amp; & &lt  .");
    assert_eq!(strip_html("<p>a &lt;b&gt; &amp; &quot;c&quot; &#39;d&#39;&nbsp;e</p>"), "a <b> & \"c\" 'd' e");
}

#[test]
fn chats_are_listed_with_names_and_previews() {
    let body = br#"{"conversations":[
        {"id":"19:a@thread.v2","threadProperties":{"topic":"Plan"},
         "lastMessage":{"content":"<p>hi &amp; bye</p>","imdisplayname":"Ava",
            "composetime":"2026-09-22T09:12:05Z","messagetype":"RichText/Html"}}]}"#;
    let chats = list_chats_data(body).unwrap();
    assert_eq!(chats.len(), 1);
    assert_eq!(chats[0].name, "Plan");
    let shown = list_chats(&chats);
    assert!(shown.starts_with("\nRecent Chats:\n-----"), "{}", shown);
    assert!(shown.contains("Plan\n  ID: 19:a@thread.v2\n"), "{}", shown);
    assert!(list_chats(&Vec::new()).ends_with("  (no chats found)\n"));
    assert!(list_chats_data(b"nope").is_err());
}

#[test]
fn messages_are_read_page_by_page() {
    let page = read_messages_page(
        br#"{"messages":[
            {"id":"2","content":"<p>b</p>","imdisplayname":"Tom","composetime":"t2","messagetype":"RichText/Html"},
            {"id":"1","content":"a","imdisplayname":"Ava","composetime":"t1","messagetype":"Text"}],
            "_metadata":{"backwardLink":"https://h/back?pageSize=2"}}"#,
    )
    .unwrap();
    assert_eq!(page.backward_link.as_deref(), Some("https://h/back?pageSize=2"));
    assert_eq!(page.messages.len(), 2);
    let shown = read_messages(&page.messages);
    assert!(shown.contains("] Ava: a\n"), "{}", shown);
    assert_eq!(read_messages(&Vec::new()), "(no messages)\n");
    assert_eq!(reply_message(&page.messages, "2").is_ok(), true);
    assert!(reply_message(&page.messages, "9").is_err());
    assert!(read_messages_page(b"[").is_err());
}

#[test]
fn message_pages_are_asked_for_by_size_or_link() {
    assert_eq!(
        page_url("https://c", "19:a@thread.v2", 20, None),
        format!("{}?pageSize=20", messages_url("https://c", "19:a@thread.v2"))
    );
    assert_eq!(
        page_url("https://c", "x", 20, Some("https://h/m?pageSize=2&view=x")),
        "https://h/m?pageSize=20&view=x"
    );
}
