use vstd::prelude::*;
use vstd::string::*;
use crate::content_types::ContentTypes;
use crate::paths::{extension, extension_of, file_name_of, request_segments, request_segments_of, strings_view};

verus! {

/// tiny_http's header type, carried unopened from the header parser to the
/// reply.
#[verifier::external_type_specification]
#[verifier::external_body]
pub struct ExHeader(tiny_http::Header);

/// The settings of a server, as plain values.
pub ghost struct FileServerView {
    pub default_file: Seq<char>,
    pub default_content_type: Seq<char>,
    pub content_types: Map<Seq<char>, Seq<char>>,
}

/// The content type served for a file named `name`: the one registered for
/// its extension, or `default_type` when it has no extension or the extension
/// is not registered.
pub open spec fn content_type_of(
    types: Map<Seq<char>, Seq<char>>,
    default_type: Seq<char>,
    name: Seq<char>,
) -> Seq<char> {
    match extension_of(name) {
        Some(ext) => if types.contains_key(ext) {
            types[ext]
        } else {
            default_type
        },
        None => default_type,
    }
}

/// The content types that a new server knows.
pub open spec fn default_content_types() -> Map<Seq<char>, Seq<char>> {
    map![
        "js"@ => "application/javascript"@,
        "wasm"@ => "application/wasm"@,
        "html"@ => "text/html"@,
        "css"@ => "text/css"@,
    ]
}

/// Whether `s` may stand as the value of an HTTP header: visible ASCII
/// characters, spaces and tabs only (no line breaks or other controls).
pub open spec fn header_value_ok(s: Seq<char>) -> bool {
    forall|i: int| 0 <= i < s.len() ==> (s[i] == '\t' || (' ' <= #[trigger] s[i] && s[i] <= '~'))
}

/// What the caller found when it looked for the resolved file.
#[derive(Clone, Copy, Debug, PartialEq, Eq)]
pub enum FileLookup {
    /// No file system entry exists at the resolved path.
    Missing,
    /// An entry exists but could not be opened for reading.
    Unreadable,
    /// The file was opened; its contents are the body of the reply.
    Opened,
}

/// The response to send for one request.
#[derive(Debug)]
pub enum Reply {
    /// A response with this status code, no header of its own and no body.
    Empty { status: u16 },
    /// A `200` response whose body is the opened file, with a `Content-Type`
    /// header built from `content_type`.
    File { content_type: String, header: tiny_http::Header },
}

/// A content type that cannot be sent as a header value.
#[derive(Debug)]
pub struct HeaderError {
    pub content_type: String,
}

/// Relies on tiny_http's `FromStr` impl for `Header`: the line
/// `Content-Type: v` parses whenever `v` is ASCII (the field name is fixed and
/// valid, and the trimmed value is accepted as an ASCII string).
#[verifier::external_body]
fn parse_content_type_header(value: &str) -> (r: Result<tiny_http::Header, ()>)
    ensures
        vstd::utf8::is_ascii_chars(value@) ==> r is Ok,
{
    <tiny_http::Header as std::str::FromStr>::from_str(&format!("Content-Type: {}", value))
}

/// Checks `header_value_ok`.
pub fn is_valid_header_value(s: &str) -> (r: bool)
    ensures
        r == header_value_ok(s@),
{
    let n = s.unicode_len();
    let mut i: usize = 0;
    while i < n
        invariant
            n == s@.len(),
            i <= n,
            forall|j: int| 0 <= j < i ==> (s@[j] == '\t' || (' ' <= #[trigger] s@[j] && s@[j] <= '~')),
        decreases n - i,
    {
        let c = s.get_char(i);
        if !(c == '\t' || (' ' <= c && c <= '~')) {
            return false;
        }
        i = i + 1;
    }
    true
}

/// The settings of a file server: the file served for `/`, the content type
/// used when no extension matches, and the table from extension to content
/// type.
pub struct FileServer {
    default_file: String,
    default_content_type: String,
    content_type_by_extension: ContentTypes,
}

impl FileServer {
    pub closed spec fn view(&self) -> FileServerView {
        FileServerView {
            default_file: self.default_file@,
            default_content_type: self.default_content_type@,
            content_types: self.content_type_by_extension@,
        }
    }

    /// The content type that this server sends for a file named `name`.
    pub open spec fn content_type_spec(&self, name: Seq<char>) -> Seq<char> {
        content_type_of(self@.content_types, self@.default_content_type, name)
    }

    /// A server with the default settings: `index.html` for `/`, `text/plain`
    /// for unknown extensions, and content types for `js`, `wasm`, `html` and
    /// `css`.
    pub fn new() -> (r: FileServer)
        ensures
            r@.default_file == "index.html"@,
            r@.default_content_type == "text/plain"@,
            r@.content_types == default_content_types(),
    {
        let mut types = ContentTypes::new();
        types.insert("js", "application/javascript");
        types.insert("wasm", "application/wasm");
        types.insert("html", "text/html");
        types.insert("css", "text/css");
        FileServer {
            default_file: "index.html".to_owned(),
            default_content_type: "text/plain".to_owned(),
            content_type_by_extension: types,
        }
    }

    /// Sets the file served for `/`.
    pub fn set_default_file(&mut self, file_name: &str)
        ensures
            final(self)@ == (FileServerView { default_file: file_name@, ..old(self)@ }),
    {
        self.default_file = file_name.to_owned();
    }

    /// Sets the content type used when no extension matches.
    pub fn set_default_content_type(&mut self, content_type: &str)
        ensures
            final(self)@ == (FileServerView { default_content_type: content_type@, ..old(self)@ }),
    {
        self.default_content_type = content_type.to_owned();
    }

    /// The table from extension to content type.
    pub fn content_type_by_extension(&self) -> (r: &ContentTypes)
        ensures
            r@ == self@.content_types,
    {
        &self.content_type_by_extension
    }

    /// The table from extension to content type, to change; the other
    /// settings stay as they are.
    pub fn content_type_by_extension_mut(&mut self) -> (r: &mut ContentTypes)
        ensures
            r@ == old(self)@.content_types,
            final(self)@ == (FileServerView { content_types: final(r)@, ..old(self)@ }),
    {
        &mut self.content_type_by_extension
    }

    /// The path components, relative to the root directory, of the file that
    /// a request for `url` asks for.
    pub fn resolve(&self, url: &str) -> (r: Vec<String>)
        ensures
            strings_view(r@) == request_segments(url@, self@.default_file),
    {
        request_segments_of(url, self.default_file.as_str())
    }

    /// The content type sent for a file named `file_name`.
    pub fn content_type_for(&self, file_name: &str) -> (r: String)
        ensures
            r@ == self.content_type_spec(file_name@),
    {
        match extension(file_name) {
            Some(ext) => match self.content_type_by_extension.get(ext.as_str()) {
                Some(t) => t.to_owned(),
                None => self.default_content_type.clone(),
            },
            None => self.default_content_type.clone(),
        }
    }

    /// The response to a request resolved to `segments`, given what the
    /// caller found there: `404` for a missing entry, `500` for one that could
    /// not be opened, and the file with its content type otherwise. The last
    /// error comes only where that content type cannot be a header value.
    pub fn reply(&self, segments: &Vec<String>, lookup: FileLookup) -> (r: Result<Reply, HeaderError>)
        ensures
            lookup == FileLookup::Missing ==> r == Ok::<Reply, HeaderError>(Reply::Empty { status: 404 }),
            lookup == FileLookup::Unreadable ==> r == Ok::<Reply, HeaderError>(Reply::Empty { status: 500 }),
            lookup == FileLookup::Opened ==> ({
                let t = self.content_type_spec(file_name_of(strings_view(segments@)));
                &&& r is Ok <==> header_value_ok(t)
                &&& r matches Ok(Reply::File { content_type, .. }) ==> content_type@ == t
                &&& r matches Ok(rep) ==> rep is File
                &&& r matches Err(e) ==> e.content_type@ == t
            }),
    {
        match lookup {
            FileLookup::Missing => Ok(Reply::Empty { status: 404 }),
            FileLookup::Unreadable => Ok(Reply::Empty { status: 500 }),
            FileLookup::Opened => {
                let n = segments.len();
                let content_type = if n == 0 {
                    proof {
                        reveal_strlit("");
                    }
                    assert(""@ =~= file_name_of(strings_view(segments@)));
                    self.content_type_for("")
                } else {
                    assert(segments@[n - 1]@ == file_name_of(strings_view(segments@)));
                    self.content_type_for(segments[n - 1].as_str())
                };
                if !is_valid_header_value(content_type.as_str()) {
                    return Err(HeaderError { content_type });
                }
                assert(vstd::utf8::is_ascii_chars(content_type@)) by {
                    assert forall|i: int| 0 <= i < content_type@.len() implies '\0' <= #[trigger] content_type@[i]
                        <= '\u{7f}' by {
                        assert(content_type@[i] == '\t' || (' ' <= content_type@[i] && content_type@[i] <= '~'));
                    }
                }
                match parse_content_type_header(content_type.as_str()) {
                    Ok(header) => Ok(Reply::File { content_type, header }),
                    Err(_) => Err(HeaderError { content_type }),
                }
            },
        }
    }
}

} // verus!
