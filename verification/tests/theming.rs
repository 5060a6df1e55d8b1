use hook_relay::json::Json;
use hook_relay::themes::{
    extension, get_theme_image, image_path_is_safe, is_safe_name, list_themes, load_themes,
    mime_for, theme_from_config, ImageFile, ThemeInfo, ThemeSource,
};

fn text(value: &str) -> Json {
    Json::String(value.to_string())
}

fn object(members: Vec<(&str, Json)>) -> Json {
    Json::Object(members.into_iter().map(|(key, value)| (key.to_string(), value)).collect())
}

fn source(id: &str, config: &str) -> ThemeSource {
    ThemeSource { id: id.to_string(), config: config.to_string() }
}

#[test]
fn a_theme_takes_its_fields_from_its_configuration() {
    let config = Json::parse(
        "{\"name\": \"Cat\", \"type\": \"image\", \"states\": {\"idle\": \"idle.png\"}, \"colors\": {\"bg\": \"#fff\"}, \"font\": \"mono\", \"extra\": 1}",
    )
    .unwrap();
    let theme = theme_from_config("cat", &config, true);
    let expected = ThemeInfo {
        id: "cat".to_string(),
        name: "Cat".to_string(),
        theme_type: "image".to_string(),
        states: object(vec![("idle", text("idle.png"))]),
        colors: Some(object(vec![("bg", text("#fff"))])),
        font: Some(text("mono")),
        builtin: true,
    };
    assert_eq!(theme, expected);
}

#[test]
fn a_theme_falls_back_to_its_id_and_to_emoji() {
    let theme = theme_from_config("plain", &object(vec![]), false);
    let expected = ThemeInfo {
        id: "plain".to_string(),
        name: "plain".to_string(),
        theme_type: "emoji".to_string(),
        states: object(vec![]),
        colors: None,
        font: None,
        builtin: false,
    };
    assert_eq!(theme, expected);

    let odd = Json::parse("{\"name\": 7, \"type\": [\"image\"], \"states\": null}").unwrap();
    let theme = theme_from_config("odd", &odd, false);
    assert_eq!(theme.name, "odd");
    assert_eq!(theme.theme_type, "emoji");
    assert_eq!(theme.states, Json::Null);

    let theme = theme_from_config("list", &Json::Array(vec![]), true);
    assert_eq!(theme.name, "list");
    assert_eq!(theme.states, object(vec![]));
}

#[test]
fn load_themes_skips_what_is_not_json() {
    let sources = vec![
        source("a", "{\"name\": \"A\"}"),
        source("broken", "{\"name\": "),
        source("empty", ""),
        source("b", "{\"type\": \"image\"}"),
    ];
    let themes = load_themes(&sources, false);
    assert_eq!(themes.len(), 2);
    assert_eq!(themes[0], theme_from_config("a", &Json::parse("{\"name\": \"A\"}").unwrap(), false));
    assert_eq!(themes[1].id, "b");
    assert_eq!(themes[1].name, "b");
    assert_eq!(themes[1].theme_type, "image");
    assert!(!themes[1].builtin);
    assert!(load_themes(&vec![], true).is_empty());
}

#[test]
fn list_themes_gives_the_builtin_themes_first() {
    let builtin = vec![source("cat", "{}"), source("dog", "{}")];
    let user = vec![source("bad", "["), source("cat", "{\"name\": \"My cat\"}")];
    let themes = list_themes(&builtin, &user);
    let seen: Vec<(&str, &str, bool)> =
        themes.iter().map(|theme| (theme.id.as_str(), theme.name.as_str(), theme.builtin)).collect();
    assert_eq!(seen, vec![("cat", "cat", true), ("dog", "dog", true), ("cat", "My cat", false)]);
}

#[test]
fn names_with_dots_or_separators_are_not_safe() {
    for name in ["..", "../x", "x/..", "a..b", "a/b", "/", "a\\b", "\\", "..\\x", "a/", "..."] {
        assert!(!is_safe_name(name));
        assert!(!image_path_is_safe(name, "idle.png"));
        assert!(!image_path_is_safe("cat", name));
    }
    for name in ["", ".", "cat", "idle.png", ".hidden", "a.b.c", "caf\u{e9}", "a b"] {
        assert!(is_safe_name(name));
    }
    assert!(image_path_is_safe("cat", "idle.png"));
}

#[test]
fn an_unsafe_path_is_refused_whatever_was_found() {
    let refused = Err("Invalid path".to_string());
    assert_eq!(get_theme_image("..", "idle.png", ImageFile::Missing), refused);
    assert_eq!(get_theme_image("cat", "../idle.png", ImageFile::Contents(vec![1, 2, 3])), refused);
    assert_eq!(get_theme_image("a/b", "idle.png", ImageFile::Contents(vec![])), refused);
    assert_eq!(get_theme_image("cat", "a\\b.png", ImageFile::Unreadable("x".to_string())), refused);
}

#[test]
fn a_missing_image_is_reported_by_its_names() {
    assert_eq!(
        get_theme_image("cat", "idle.png", ImageFile::Missing),
        Err("Image not found: cat/idle.png".to_string())
    );
    assert_eq!(
        get_theme_image("", "", ImageFile::Missing),
        Err("Image not found: /".to_string())
    );
}

#[test]
fn an_unreadable_image_is_reported_with_the_error() {
    assert_eq!(
        get_theme_image("cat", "idle.png", ImageFile::Unreadable("permission denied".to_string())),
        Err("Read error: permission denied".to_string())
    );
}

#[test]
fn an_image_becomes_a_data_url() {
    assert_eq!(
        get_theme_image("cat", "idle.png", ImageFile::Contents(b"hello".to_vec())),
        Ok("data:image/png;base64,aGVsbG8=".to_string())
    );
    assert_eq!(
        get_theme_image("cat", "idle.gif", ImageFile::Contents(vec![])),
        Ok("data:image/gif;base64,".to_string())
    );
    assert_eq!(
        get_theme_image("cat", "x.svg", ImageFile::Contents(vec![0xfb, 0xff, 0xfe])),
        Ok("data:image/svg+xml;base64,+//+".to_string())
    );
    assert_eq!(
        get_theme_image("cat", "raw", ImageFile::Contents(b"ab".to_vec())),
        Ok("data:application/octet-stream;base64,YWI=".to_string())
    );
    assert_eq!(
        get_theme_image("cat", "f.woff2", ImageFile::Contents(b"a".to_vec())),
        Ok("data:font/woff2;base64,YQ==".to_string())
    );
}

#[test]
fn the_extension_follows_the_last_dot() {
    assert_eq!(extension("idle.png"), Some("png".to_string()));
    assert_eq!(extension("a.tar.gz"), Some("gz".to_string()));
    assert_eq!(extension("a."), Some("".to_string()));
    assert_eq!(extension("a..b"), Some("b".to_string()));
    assert_eq!(extension(".a.b"), Some("b".to_string()));
    assert_eq!(extension("caf\u{e9}.\u{e9}t\u{e9}"), Some("\u{e9}t\u{e9}".to_string()));
    assert_eq!(extension("noext"), None);
    assert_eq!(extension(".hidden"), None);
    assert_eq!(extension("."), None);
    assert_eq!(extension(""), None);
}

#[test]
fn the_extension_is_what_the_path_of_the_file_has() {
    for name in ["idle.png", "a.tar.gz", "a.", ".hidden", "noext", ".a.b", "x.JPG", "a..b"] {
        let path = std::path::Path::new("themes").join("cat").join(name);
        let expected = path.extension().and_then(|e| e.to_str()).map(|e| e.to_string());
        assert_eq!(extension(name), expected);
    }
}

#[test]
fn each_extension_has_its_media_type() {
    let cases = [
        ("png", "image/png"),
        ("gif", "image/gif"),
        ("jpg", "image/jpeg"),
        ("jpeg", "image/jpeg"),
        ("webp", "image/webp"),
        ("svg", "image/svg+xml"),
        ("ttf", "font/ttf"),
        ("woff", "font/woff"),
        ("woff2", "font/woff2"),
        ("PNG", "application/octet-stream"),
        ("bmp", "application/octet-stream"),
        ("", "application/octet-stream"),
    ];
    for (extension, mime) in cases {
        assert_eq!(mime_for(&Some(extension.to_string())), mime);
    }
    assert_eq!(mime_for(&None), "application/octet-stream");
}

#[test]
fn a_theme_can_be_copied() {
    let config = Json::parse("{\"name\": \"Cat\", \"states\": {\"idle\": [1, 2.5]}, \"font\": null}").unwrap();
    let theme = theme_from_config("cat", &config, true);
    assert_eq!(theme.clone(), theme);
    assert_eq!(theme.font, Some(Json::Null));
    assert_eq!(theme.colors, None);
}
