use erusert::fetcher::{
    content_from_selections, extract_content, fetch_target, parse_read_command, target_from_parse,
};

#[test]
fn parse_read_command_valid() {
    let input = "[read:https://eldenring.fandom.com/wiki/Lore]";
    let url = parse_read_command(input);
    assert_eq!(url, Some("https://eldenring.fandom.com/wiki/Lore".to_string()));
}

#[test]
fn parse_read_command_invalid() {
    assert_eq!(parse_read_command("hello world"), None);
    assert_eq!(parse_read_command("[read:]"), Some("".to_string())); // edge case
    assert_eq!(parse_read_command(""), None);
}

#[test]
fn parse_read_command_trims_around_and_inside() {
    assert_eq!(
        parse_read_command("  \t[read:  https://a.example/x  ]\n"),
        Some("https://a.example/x".to_string())
    );
    assert_eq!(parse_read_command("[read:a]b]"), Some("a]b".to_string()));
    assert_eq!(parse_read_command("[Read:https://a.example]"), None);
    assert_eq!(parse_read_command("[read:https://a.example"), None);
    assert_eq!(parse_read_command("[read"), None);
}

#[test]
fn fetch_invalid_url_returns_error() {
    let result = fetch_target("not-a-valid-url");
    assert!(result.is_err(), "Invalid URL should return error");
}

#[test]
fn invalid_url_message_is_prefixed() {
    let err = fetch_target("not-a-valid-url").unwrap_err();
    assert!(err.starts_with("Invalid URL: "), "got {}", err);
    assert_eq!(
        target_from_parse(Err("empty host".to_string())),
        Err("Invalid URL: empty host".to_string())
    );
    assert_eq!(
        target_from_parse(Ok("https://x.example/".to_string())),
        Ok("https://x.example/".to_string())
    );
}

#[test]
fn valid_url_is_normalised() {
    assert_eq!(
        fetch_target("https://Example.com"),
        Ok("https://example.com/".to_string())
    );
}

#[test]
fn extract_title_and_body() {
    let html = "<html><head><title>  Elden Ring Wiki </title></head><body>\
                <h1>Elden   Ring</h1><p>Hello <b>wo</b>rld</p>\
                <ul><li>one</li><li>two\n\tthree</li></ul><div>ignored</div></body></html>";
    let c = extract_content("https://x.example/page", html);
    assert_eq!(c.url, "https://x.example/page");
    assert_eq!(c.title, "Elden Ring Wiki");
    assert_eq!(c.body, "Elden Ring Hello wo rld one two three");
    assert_eq!(c.byte_size, c.body.len());
    assert!(!c.body.contains("ignored"));
}

#[test]
fn extract_without_title_is_untitled() {
    let c = extract_content("u", "<html><body><p>caf\u{e9}  au  lait</p></body></html>");
    assert_eq!(c.title, "Untitled");
    assert_eq!(c.body, "caf\u{e9} au lait");
    assert_eq!(c.byte_size, 13);
}

#[test]
fn content_from_given_selections() {
    let title = Some(vec![vec![" A ".to_string(), "B ".to_string()], vec!["C".to_string()]]);
    let body = Some(vec![
        vec!["x ".to_string(), " y".to_string()],
        vec![],
        vec!["\u{a0}z\u{3000}".to_string()],
    ]);
    let c = content_from_selections("u", title, body);
    assert_eq!(c.title, "A B");
    assert_eq!(c.body, "x y z");
    assert_eq!(c.byte_size, 5);
    let e = content_from_selections("u", None, None);
    assert_eq!(e.title, "Untitled");
    assert_eq!(e.body, "");
    assert_eq!(e.byte_size, 0);
}
