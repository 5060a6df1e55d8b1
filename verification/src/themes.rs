//! Themes: what a theme's `config.json` says of it, and the data URL of one
//! of its images.
//!
//! Directories and files are not here. The program around this library finds
//! and reads them, and hands over what it read.

use crate::json::{parsed_text, Json, JsonValue};
use crate::text::{contains, occurs_in};
use vstd::prelude::*;
use vstd::string::StringExecFns;
use vstd::string::StrSliceExecFns;

verus! {

/// A theme as the subscriber sees it.
#[derive(Debug, PartialEq, Eq)]
pub struct ThemeInfo {
    /// The name of the theme's directory.
    pub id: String,
    pub name: String,
    pub theme_type: String,
    pub states: Json,
    pub colors: Option<Json>,
    pub font: Option<Json>,
    /// Whether the theme came with the program.
    pub builtin: bool,
}

/// A [`ThemeInfo`] as a mathematical value.
pub struct ThemeValue {
    pub id: Seq<char>,
    pub name: Seq<char>,
    pub theme_type: Seq<char>,
    pub states: JsonValue,
    pub colors: Option<JsonValue>,
    pub font: Option<JsonValue>,
    pub builtin: bool,
}

/// The view of a document that may be absent.
pub open spec fn optional_view(json: Option<Json>) -> Option<JsonValue> {
    match json {
        Some(json) => Some(json@),
        None => None,
    }
}

impl View for ThemeInfo {
    type V = ThemeValue;

    open spec fn view(&self) -> ThemeValue {
        ThemeValue {
            id: self.id@,
            name: self.name@,
            theme_type: self.theme_type@,
            states: self.states@,
            colors: optional_view(self.colors),
            font: optional_view(self.font),
            builtin: self.builtin,
        }
    }
}

impl Clone for ThemeInfo {
    fn clone(&self) -> (copy: ThemeInfo)
        ensures
            copy@ == self@,
    {
        ThemeInfo {
            id: self.id.clone(),
            name: self.name.clone(),
            theme_type: self.theme_type.clone(),
            states: self.states.clone(),
            colors: match &self.colors {
                Some(colors) => Some(colors.clone()),
                None => None,
            },
            font: match &self.font {
                Some(font) => Some(font.clone()),
                None => None,
            },
            builtin: self.builtin,
        }
    }
}

/// The string under `key`, or `fallback` where the document has no string
/// there.
pub open spec fn text_or(config: JsonValue, key: Seq<char>, fallback: Seq<char>) -> Seq<char> {
    match config.member(key) {
        Some(JsonValue::String(text)) => text,
        _ => fallback,
    }
}

/// What a theme's configuration says of the theme in directory `id`. The name
/// falls back to the id, the type to `emoji`, and the states to the empty
/// object.
pub open spec fn theme_of(id: Seq<char>, config: JsonValue, builtin: bool) -> ThemeValue {
    ThemeValue {
        id,
        name: text_or(config, "name"@, id),
        theme_type: text_or(config, "type"@, "emoji"@),
        states: match config.member("states"@) {
            Some(states) => states,
            None => JsonValue::Object(Seq::empty()),
        },
        colors: config.member("colors"@),
        font: config.member("font"@),
        builtin,
    }
}

/// The string under `key`, or `fallback`.
fn text_member(config: &Json, key: &str, fallback: &str) -> (text: String)
    ensures
        text@ == text_or(config@, key@, fallback@),
{
    match config.get(key) {
        Some(Json::String(text)) => text.clone(),
        _ => String::from_str(fallback),
    }
}

/// A copy of the member under `key`, where there is one.
fn member_copy(config: &Json, key: &str) -> (copy: Option<Json>)
    ensures
        optional_view(copy) == config@.member(key@),
{
    match config.get(key) {
        Some(member) => Some(member.clone()),
        None => None,
    }
}

/// Reads a theme from its configuration.
pub fn theme_from_config(id: &str, config: &Json, builtin: bool) -> (theme: ThemeInfo)
    ensures
        theme@ == theme_of(id@, config@, builtin),
{
    let states = match member_copy(config, "states") {
        Some(states) => states,
        None => Json::Object(Vec::new()),
    };
    ThemeInfo {
        id: String::from_str(id),
        name: text_member(config, "name", id),
        theme_type: text_member(config, "type", "emoji"),
        states,
        colors: member_copy(config, "colors"),
        font: member_copy(config, "font"),
        builtin,
    }
}

/// A theme directory as it was found: its name and the text of its
/// `config.json`.
#[derive(Debug, PartialEq, Eq)]
pub struct ThemeSource {
    pub id: String,
    pub config: String,
}

/// The themes of a list of directories, in order. A directory whose
/// configuration is not JSON has no theme.
pub open spec fn themes_of(sources: Seq<ThemeSource>, builtin: bool) -> Seq<ThemeValue>
    decreases sources.len(),
{
    if sources.len() == 0 {
        Seq::empty()
    } else {
        let earlier = themes_of(sources.drop_last(), builtin);
        match parsed_text(sources.last().config@) {
            Some(config) => earlier.push(theme_of(sources.last().id@, config, builtin)),
            None => earlier,
        }
    }
}

/// The views of a list of themes.
pub open spec fn theme_views(themes: Seq<ThemeInfo>) -> Seq<ThemeValue> {
    Seq::new(themes.len(), |i: int| themes[i]@)
}

/// Reads the themes of one directory of themes, skipping each whose
/// configuration is not JSON.
pub fn load_themes(sources: &Vec<ThemeSource>, builtin: bool) -> (themes: Vec<ThemeInfo>)
    ensures
        theme_views(themes@) == themes_of(sources@, builtin),
{
    let mut themes: Vec<ThemeInfo> = Vec::new();
    let mut i: usize = 0;
    while i < sources.len()
        invariant
            i <= sources.len(),
            theme_views(themes@) == themes_of(sources@.take(i as int), builtin),
        decreases sources.len() - i,
    {
        let source = &sources[i];
        proof {
            assert(sources@.take(i + 1).drop_last() =~= sources@.take(i as int));
        }
        match Json::parse(source.config.as_str()) {
            Ok(config) => {
                let theme = theme_from_config(source.id.as_str(), &config, builtin);
                themes.push(theme);
            },
            Err(_) => {},
        }
        i += 1;
    }
    assert(sources@.take(i as int) =~= sources@);
    themes
}

/// Lists the themes: those that came with the program, then the user's own.
pub fn list_themes(builtin: &Vec<ThemeSource>, user: &Vec<ThemeSource>) -> (themes: Vec<ThemeInfo>)
    ensures
        theme_views(themes@) == themes_of(builtin@, true) + themes_of(user@, false),
{
    let mut themes = load_themes(builtin, true);
    let mut own = load_themes(user, false);
    themes.append(&mut own);
    themes
}

/// A name is safe to join to a directory where it holds no `..` and no path
/// separator.
pub open spec fn safe_name(name: Seq<char>) -> bool {
    !occurs_in(".."@, name) && !occurs_in("/"@, name) && !occurs_in("\\"@, name)
}

/// Whether a name is safe to join to a directory.
pub fn is_safe_name(name: &str) -> (r: bool)
    ensures
        r == safe_name(name@),
{
    !(contains(name, "..") || contains(name, "/") || contains(name, "\\"))
}

/// The index of the last `.` of a file name, or -1 where it has none.
pub open spec fn last_dot(name: Seq<char>) -> int
    decreases name.len(),
{
    if name.len() == 0 {
        -1
    } else if name.last() == '.' {
        name.len() - 1
    } else {
        last_dot(name.drop_last())
    }
}

/// The extension of a file name: what follows its last `.`, where that `.` is
/// not the first character of the name.
pub open spec fn extension_of(name: Seq<char>) -> Option<Seq<char>> {
    if last_dot(name) > 0 {
        Some(name.subrange(last_dot(name) + 1, name.len() as int))
    } else {
        None
    }
}

/// The media type for a file extension.
pub open spec fn mime_type(extension: Option<Seq<char>>) -> Seq<char> {
    if extension == Some("png"@) {
        "image/png"@
    } else if extension == Some("gif"@) {
        "image/gif"@
    } else if extension == Some("jpg"@) || extension == Some("jpeg"@) {
        "image/jpeg"@
    } else if extension == Some("webp"@) {
        "image/webp"@
    } else if extension == Some("svg"@) {
        "image/svg+xml"@
    } else if extension == Some("ttf"@) {
        "font/ttf"@
    } else if extension == Some("woff"@) {
        "font/woff"@
    } else if extension == Some("woff2"@) {
        "font/woff2"@
    } else {
        "application/octet-stream"@
    }
}

/// The text that `base64`'s `STANDARD` engine encodes the bytes to.
pub uninterp spec fn base64_text(data: Seq<u8>) -> Seq<char>;

/// Calls `Engine::encode` on `base64`'s `STANDARD` engine, whose result the
/// contract names. The call panics where the length of the text does not fit
/// in `usize`; the bound on the data keeps it well below that.
#[verifier::external_body]
fn encode_base64(data: &[u8]) -> (text: String)
    requires
        data@.len() <= usize::MAX / 2,
    ensures
        text@ == base64_text(data@),
{
    base64::Engine::encode(&base64::engine::general_purpose::STANDARD, data)
}

/// The extension of a file name.
pub fn extension(name: &str) -> (r: Option<String>)
    ensures
        r matches Some(found) ==> extension_of(name@) == Some(found@),
        r is None ==> extension_of(name@) is None,
{
    let length = name.unicode_len();
    let mut dot: Option<usize> = None;
    let mut at: usize = 0;
    for c in it: name.chars()
        invariant
            it.seq() == name@,
            at == it.index(),
            at <= length,
            length == name@.len(),
            dot matches Some(i) ==> i < at && i == last_dot(name@.take(at as int)),
            dot is None ==> last_dot(name@.take(at as int)) == -1,
    {
        proof {
            assert(name@.take(at + 1).drop_last() =~= name@.take(at as int));
        }
        if c == '.' {
            dot = Some(at);
        }
        at += 1;
    }
    assert(name@.take(at as int) =~= name@);
    match dot {
        Some(i) => {
            if i > 0 {
                Some(String::from_str(name.substring_char(i + 1, length)))
            } else {
                None
            }
        },
        None => None,
    }
}

/// The media type for the extension of a file.
pub fn mime_for(extension: &Option<String>) -> (mime: &'static str)
    ensures
        mime@ == mime_type(
            match extension {
                Some(text) => Some(text@),
                None => None,
            },
        ),
{
    match extension {
        None => "application/octet-stream",
        Some(text) => {
            if *text == String::from_str("png") {
                "image/png"
            } else if *text == String::from_str("gif") {
                "image/gif"
            } else if *text == String::from_str("jpg") || *text == String::from_str("jpeg") {
                "image/jpeg"
            } else if *text == String::from_str("webp") {
                "image/webp"
            } else if *text == String::from_str("svg") {
                "image/svg+xml"
            } else if *text == String::from_str("ttf") {
                "font/ttf"
            } else if *text == String::from_str("woff") {
                "font/woff"
            } else if *text == String::from_str("woff2") {
                "font/woff2"
            } else {
                "application/octet-stream"
            }
        },
    }
}

/// What looking for an image's file gave.
#[derive(Debug, PartialEq, Eq)]
pub enum ImageFile {
    /// No directory of themes holds the file.
    Missing,
    /// The file is there and could not be read; holds the error's text.
    Unreadable(String),
    /// The bytes of the file.
    Contents(Vec<u8>),
}

/// The data URL of a file: its media type, by the extension of its name, and
/// its bytes in base64.
pub open spec fn data_url(filename: Seq<char>, data: Seq<u8>) -> Seq<char> {
    "data:"@ + mime_type(extension_of(filename)) + ";base64,"@ + base64_text(data)
}

/// What asking for an image of a theme gives.
pub open spec fn theme_image(theme_id: Seq<char>, filename: Seq<char>, file: ImageFile) -> Result<
    Seq<char>,
    Seq<char>,
> {
    if !safe_name(theme_id) || !safe_name(filename) {
        Err("Invalid path"@)
    } else {
        match file {
            ImageFile::Missing => Err("Image not found: "@ + theme_id + "/"@ + filename),
            ImageFile::Unreadable(text) => Err("Read error: "@ + text@),
            ImageFile::Contents(data) => Ok(data_url(filename, data@)),
        }
    }
}

/// Whether an image may be looked for at all: whether both names are safe.
/// The program around this library looks for no file where this is false.
pub fn image_path_is_safe(theme_id: &str, filename: &str) -> (r: bool)
    ensures
        r == (safe_name(theme_id@) && safe_name(filename@)),
{
    is_safe_name(theme_id) && is_safe_name(filename)
}

/// Gives an image of a theme as a data URL.
///
/// `file` is what looking for `filename` in the theme's directory gave. A
/// theme id or a file name that is not safe is refused with `Invalid path`,
/// whatever `file` holds.
pub fn get_theme_image(theme_id: &str, filename: &str, file: ImageFile) -> (r: Result<
    String,
    String,
>)
    requires
        file matches ImageFile::Contents(data) ==> data@.len() <= usize::MAX / 2,
    ensures
        (match theme_image(theme_id@, filename@, file) {
            Ok(url) => r matches Ok(out) && out@ == url,
            Err(message) => r matches Err(out) && out@ == message,
        }),
{
    if !image_path_is_safe(theme_id, filename) {
        return Err(String::from_str("Invalid path"));
    }
    match file {
        ImageFile::Missing => Err(
            String::from_str("Image not found: ").concat(theme_id).concat("/").concat(filename),
        ),
        ImageFile::Unreadable(text) => Err(String::from_str("Read error: ").concat(text.as_str())),
        ImageFile::Contents(data) => {
            let found = extension(filename);
            let mime = mime_for(&found);
            let encoded = encode_base64(data.as_slice());
            Ok(
                String::from_str("data:").concat(mime).concat(";base64,").concat(
                    encoded.as_str(),
                ),
            )
        },
    }
}

} // verus!
