use vstd::prelude::*;
use crate::paths::{extension_of, request_segments, split_on_slash, strip_leading_slash};
use crate::server::{content_type_of, default_content_types};

verus! {

/// A string without a slash is split into itself alone.
pub proof fn lemma_split_without_slash(s: Seq<char>)
    requires
        forall|i: int| 0 <= i < s.len() ==> s[i] != '/',
    ensures
        split_on_slash(s) == seq![s],
    decreases s.len(),
{
    if s.len() > 0 {
        lemma_split_without_slash(s.drop_last());
        assert(s.drop_last().push(s.last()) =~= s);
        assert(split_on_slash(s) =~= seq![s]);
    } else {
        assert(s =~= Seq::empty());
    }
}

/// A request for `/` (or for the empty URL) resolves to the same file as a
/// request that names the default file directly, for any default file name
/// that is not empty and holds no slash.
pub proof fn lemma_root_is_default_file(default_file: Seq<char>)
    requires
        default_file.len() > 0,
        forall|i: int| 0 <= i < default_file.len() ==> default_file[i] != '/',
    ensures
        request_segments(seq!['/'], default_file) == request_segments(
            seq!['/'] + default_file,
            default_file,
        ),
        request_segments(Seq::empty(), default_file) == request_segments(
            seq!['/'] + default_file,
            default_file,
        ),
{
    let url = seq!['/'] + default_file;
    assert(strip_leading_slash(url) =~= default_file);
    lemma_split_without_slash(default_file);
}

/// The content type of a file whose extension is registered is the
/// registered one; a file with an extension that is not registered, or with
/// no extension, gets the default content type.
pub proof fn lemma_content_type_lookup(
    types: Map<Seq<char>, Seq<char>>,
    default_type: Seq<char>,
    name: Seq<char>,
)
    ensures
        extension_of(name) is None ==> content_type_of(types, default_type, name) == default_type,
        extension_of(name) is Some && types.contains_key(extension_of(name)->0) ==> content_type_of(
            types,
            default_type,
            name,
        ) == types[extension_of(name)->0],
        extension_of(name) is Some && !types.contains_key(extension_of(name)->0)
            ==> content_type_of(types, default_type, name) == default_type,
{
}

/// With the settings of a new server, a file with extension `js` is served
/// as `application/javascript`, and a file whose extension is none of `js`,
/// `wasm`, `html` and `css`, or that has no extension, as `text/plain`.
pub proof fn lemma_new_server_content_types(name: Seq<char>)
    ensures
        extension_of(name) == Some("js"@) ==> content_type_of(
            default_content_types(),
            "text/plain"@,
            name,
        ) == "application/javascript"@,
        extension_of(name) == Some("html"@) ==> content_type_of(
            default_content_types(),
            "text/plain"@,
            name,
        ) == "text/html"@,
        (extension_of(name) is None || (extension_of(name)->0 != "js"@ && extension_of(name)->0
            != "wasm"@ && extension_of(name)->0 != "html"@ && extension_of(name)->0 != "css"@))
            ==> content_type_of(default_content_types(), "text/plain"@, name) == "text/plain"@,
{
    reveal_strlit("js");
    reveal_strlit("wasm");
    reveal_strlit("html");
    reveal_strlit("css");
    assert("js"@.len() == 2 && "wasm"@.len() == 4 && "html"@.len() == 4 && "css"@.len() == 3);
    assert("wasm"@[0] != "html"@[0]);
    assert(default_content_types()["js"@] == "application/javascript"@);
    assert(default_content_types()["html"@] == "text/html"@);
    assert(default_content_types().dom() =~= set!["js"@, "wasm"@, "html"@, "css"@]);
}

/// Setting the content type of an extension changes the content type of every
/// file with that extension to the new one; removing the extension's entry
/// makes those files fall back to the default content type.
pub proof fn lemma_override_extension(
    types: Map<Seq<char>, Seq<char>>,
    default_type: Seq<char>,
    name: Seq<char>,
    ext: Seq<char>,
    content_type: Seq<char>,
)
    requires
        extension_of(name) == Some(ext),
    ensures
        content_type_of(types.insert(ext, content_type), default_type, name) == content_type,
        content_type_of(types.remove(ext), default_type, name) == default_type,
{
}

} // verus!
