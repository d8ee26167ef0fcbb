//! Notebooks, sections and pages.
use teams_cli::api::notes::{
    append_commands, append_note_paragraph_data, list_notebook_sections_data, list_notebooks,
    list_notebooks_data, multipart_commands, notebooks_path, notes, notes_base, page_content_path,
    page_title, pages_path, parse_sections, read_note_page_data,
    read_notebooks_response, read_pages_response, read_sections_response, require_id,
    sections_path, show_note_page, show_notebook_sections, strip_html, NotesAction,
};
use teams_cli::json::{parse_json, Json};
use teams_cli::web::collapse;

fn parsed(text: &str) -> Json {
    parse_json(text).unwrap()
}

#[test]
fn base_user_and_group() {
    assert_eq!(notes_base(None).unwrap(), "/me");
    assert_eq!(notes_base(Some("")).unwrap(), "/me");
    assert_eq!(notes_base(Some("  ")).unwrap(), "/me");
    assert_eq!(
        notes_base(Some("team-guid-1")).unwrap(),
        "/groups/team-guid-1"
    );
}

#[test]
fn base_rejects_path_breaking_group() {
    for bad in ["a/b", "a b", "a\tb", "a\nb"] {
        assert!(notes_base(Some(bad)).is_err(), "group {:?}", bad);
    }
}

#[test]
fn require_id_rejects_blank() {
    assert!(require_id("page_id", "").is_err());
    assert!(require_id("page_id", "   ").is_err());
    assert_eq!(require_id("page_id", " p1 ").unwrap(), "p1");
}

#[test]
fn notebooks_fixture_parses_with_fallback_name() {
    let body = read_notebooks_response(&parsed(r#"{"value":[
            {"id":"nb1","displayName":"Work"},
            {"id":"nb2"}]}"#)).unwrap();
    assert_eq!(body.value.len(), 2);
    assert_eq!(body.value[0].display_name.as_deref(), Some("Work"));
    assert!(body.value[1].display_name.is_none());
}

#[test]
fn sections_and_pages_fixtures_parse() {
    let sections = read_sections_response(&parsed(r#"{"value":[{"id":"s1","displayName":"Notes"}]}"#)).unwrap();
    assert_eq!(sections.value[0].display_name.as_deref(), Some("Notes"));
    let pages = read_pages_response(&parsed(r#"{"value":[{"id":"p1","title":"Kickoff","lastModifiedDateTime":"2026-09-22T10:00:00Z"}]}"#)).unwrap();
    assert_eq!(pages.value[0].title.as_deref(), Some("Kickoff"));
    assert_eq!(
        pages.value[0].last_modified.as_deref(),
        Some("2026-09-22T10:00:00Z")
    );
}

#[test]
fn page_title_scrapes_head_title() {
    let html = "<html><head><title>Kickoff Notes</title></head><body><p>hi</p></body></html>";
    assert_eq!(page_title(html).as_deref(), Some("Kickoff Notes"));
    assert!(page_title("<html><body>no title</body></html>").is_none());
    assert!(page_title("<title>   </title>").is_none());
    assert_eq!(
        page_title("<HTML><HEAD><TITLE>Up</TITLE></HEAD></HTML>").as_deref(),
        Some("Up")
    );
}

#[test]
fn append_commands_shape() {
    let v: serde_json::Value =
        serde_json::from_str(&append_commands("a<b>&c")).unwrap();
    assert_eq!(v[0]["target"], "body");
    assert_eq!(v[0]["action"], "append");
    assert_eq!(v[0]["position"], "after");
    assert_eq!(v[0]["content"], "<p>a&lt;b&gt;&amp;c</p>");
}

#[test]
fn multipart_body_wraps_commands() {
    let (content_type, body) = multipart_commands("----ostnotes-7-9", r#"[{"a":1}]"#);
    let boundary = content_type
        .strip_prefix("multipart/form-data; boundary=")
        .unwrap();
    let text = String::from_utf8(body).unwrap();
    assert!(text.starts_with(&format!("--{}\r\n", boundary)));
    assert!(text.contains("name=\"Commands\""));
    assert!(text.contains(r#"[{"a":1}]"#));
    assert!(text.ends_with(&format!("--{}--\r\n", boundary)));
}

#[test]
fn strip_and_collapse_for_cli() {
    let html = "<html><head><title>T</title></head><body><h1>Hi</h1><p>a &amp; b</p></body></html>";
    assert_eq!(collapse(&strip_html(html)), "T Hi a & b");
}

#[test]
fn titles_stand_where_the_text_has_them() {
    assert_eq!(page_title("<title>Größe</title>").as_deref(), Some("Größe"));
    // Each of these letters takes one byte more in lower case.
    assert_eq!(page_title("\u{130}<title>A</title>").as_deref(), Some("A"));
    assert_eq!(page_title("İİİ<title>ab</title>").as_deref(), Some("ab"));
    assert_eq!(page_title("İİİİİİİİİİİİ<Title> aİb </tITLE>").as_deref(), Some("aİb"));
    assert_eq!(page_title("</title><title>a<title>b</title>c</title>").as_deref(), Some("a<title>b"));
    assert!(page_title("<title>a").is_none());
    assert!(page_title("<t\u{130}tle>a</title>").is_none());
}

#[test]
fn pages_are_read_and_shown() {
    let html = "<title>T</title><p>a &amp; b</p>";
    let page = read_note_page_data(" p1 ", html.to_string()).ok().unwrap();
    assert_eq!(page.id, "p1");
    assert_eq!(page.title, "T");
    assert!(show_note_page(&page).ends_with("-\nT a & b\n"));
    assert!(show_note_page(&page).starts_with("\nT:\n-"));
    let bare = read_note_page_data("p1", "x".to_string()).ok().unwrap();
    assert_eq!(bare.title, "");
    assert!(show_note_page(&bare).starts_with("\n(untitled):\n-"));
    assert_eq!(
        read_note_page_data(" ", "x".to_string()).err().unwrap(),
        "empty page_id"
    );
}

#[test]
fn notebooks_sections_and_pages_are_listed() {
    let books = list_notebooks_data(br#"{"value":[{"id":"nb1","displayName":"Work"},{"id":"nb2"}]}"#)
        .ok()
        .unwrap();
    assert_eq!(books[1].name, "nb2");
    assert!(list_notebooks(&books)
        .ends_with("-\n  Work                           nb1\n  nb2                            nb2\n"));
    assert!(list_notebooks(&Vec::new()).ends_with("  (no notebooks found)\n"));
    assert_eq!(
        list_notebooks_data(b"{}").err().unwrap(),
        "Failed to parse notebooks response"
    );
    let sections = parse_sections(br#"{"value":[{"id":"s1","displayName":"Notes"},{"id":"s2"}]}"#)
        .ok()
        .unwrap();
    let replies = vec![Some(br#"{"value":[{"id":"p1","title":"Kickoff"}]}"#.to_vec()), None];
    let infos = list_notebook_sections_data(&sections, &replies).ok().unwrap();
    assert_eq!(infos[0].pages[0].title, "Kickoff");
    assert!(infos[1].pages.is_empty());
    assert!(show_notebook_sections("nb1", &infos).ends_with(
        "-\nSection: Notes (1 pages)\n  Kickoff                        p1\n\nSection: s2 (0 pages)\n\n"
    ));
    assert!(show_notebook_sections("nb1", &Vec::new()).ends_with("  (no sections found)\n"));
    let bad = vec![Some(b"x".to_vec()), None];
    assert_eq!(
        list_notebook_sections_data(&sections, &bad).err().unwrap(),
        "Failed to parse pages response"
    );
    assert_eq!(
        parse_sections(b"x").err().unwrap(),
        "Failed to parse sections response"
    );
}

#[test]
fn appending_sends_one_command() {
    let p = append_note_paragraph_data("p1", "a<b", Some("g1"), "B").ok().unwrap();
    assert_eq!(p.path, "/groups/g1/onenote/pages/p1/content");
    assert_eq!(p.content_type, "multipart/form-data; boundary=B");
    let body = String::from_utf8(p.body).unwrap();
    assert!(body.contains("<p>a&lt;b</p>"), "{}", body);
    let err = |id: &str, text: &str, g: Option<&str>| {
        append_note_paragraph_data(id, text, g, "B").err().unwrap()
    };
    assert_eq!(err("", "x", None), "empty page_id");
    assert_eq!(err("p", "  ", None), "empty text");
    assert_eq!(
        err("p", "x", Some("a/b")),
        "group_id must not contain '/' or whitespace"
    );
}

#[test]
fn note_paths_follow_the_group() {
    assert_eq!(notebooks_path(None).unwrap(), "/me/onenote/notebooks");
    assert_eq!(
        sections_path(" n ", Some("g")).unwrap(),
        "/groups/g/onenote/notebooks/n/sections"
    );
    assert_eq!(sections_path(" ", None).unwrap_err(), "empty notebook_id");
    assert_eq!(pages_path("s", None).unwrap(), "/me/onenote/sections/s/pages");
    assert_eq!(page_content_path("p", None).unwrap(), "/me/onenote/pages/p/content");
}

#[test]
fn the_notes_command_prefers_pages() {
    assert!(matches!(notes(Some("n"), Some("p"), None), Ok(NotesAction::Page(p)) if p == "p"));
    assert!(matches!(notes(Some("n"), None, None), Ok(NotesAction::Notebook(n)) if n == "n"));
    assert!(matches!(notes(None, None, None), Ok(NotesAction::List)));
    assert!(matches!(
        notes(None, Some("p"), Some("t")),
        Ok(NotesAction::Append { page, text }) if page == "p" && text == "t"
    ));
    assert_eq!(
        notes(None, Some(" "), Some("t")).err().unwrap(),
        "--append requires --page <id>"
    );
    assert!(notes(None, None, Some("t")).is_err());
}
