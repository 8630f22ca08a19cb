use vstd::prelude::*;
use vstd::string::*;

verus! {

/// The pieces of `s` between slashes, as `str::split('/')` gives them: empty
/// pieces are kept, and a string without a slash is one piece.
pub open spec fn split_on_slash(s: Seq<char>) -> Seq<Seq<char>>
    decreases s.len(),
{
    if s.len() == 0 {
        seq![Seq::empty()]
    } else {
        let prev = split_on_slash(s.drop_last());
        if s.last() == '/' {
            prev.push(Seq::empty())
        } else {
            prev.update(prev.len() - 1, prev.last().push(s.last()))
        }
    }
}

/// `s` without its first character when that character is a slash.
pub open spec fn strip_leading_slash(s: Seq<char>) -> Seq<char> {
    if s.len() > 0 && s[0] == '/' {
        s.drop_first()
    } else {
        s
    }
}

/// The path components, relative to the root directory, that a request for
/// `url` names: the default file for `/` (or an empty URL), and otherwise each
/// slash-separated piece of the URL after its leading slash, kept literally.
pub open spec fn request_segments(url: Seq<char>, default_file: Seq<char>) -> Seq<Seq<char>> {
    if url.len() <= 1 {
        seq![default_file]
    } else {
        split_on_slash(strip_leading_slash(url))
    }
}

/// The strings of a vector, as sequences of characters.
pub open spec fn strings_view(v: Seq<String>) -> Seq<Seq<char>> {
    v.map_values(|s: String| s@)
}

proof fn lemma_split_step(s: Seq<char>, i: int)
    requires
        0 <= i < s.len(),
    ensures
        s.subrange(0, i + 1).drop_last() =~= s.subrange(0, i),
        s.subrange(0, i + 1).last() == s[i],
{
}

/// Resolves a request URL to the path components, relative to the root
/// directory, of the file it asks for. Nothing is normalised: `.`, `..` and
/// empty pieces are kept as components. Joined onto the root by the caller,
/// a `..` component names a parent directory, so a caller that must stay
/// inside the root checks the components before it joins them.
pub fn request_segments_of(url: &str, default_file: &str) -> (r: Vec<String>)
    ensures
        strings_view(r@) == request_segments(url@, default_file@),
{
    let n = url.unicode_len();
    let mut out: Vec<String> = Vec::new();
    if n <= 1 {
        out.push(default_file.to_owned());
        assert(strings_view(out@) =~= seq![default_file@]);
        return out;
    }
    let start: usize = if url.get_char(0) == '/' {
        1
    } else {
        0
    };
    let ghost rest = strip_leading_slash(url@);
    assert(rest =~= url@.subrange(start as int, n as int));
    let mut piece_start: usize = start;
    let mut i: usize = start;
    assert(rest.subrange(0, 0) =~= Seq::<char>::empty());
    assert(url@.subrange(start as int, start as int) =~= Seq::<char>::empty());
    while i < n
        invariant
            n == url@.len(),
            rest =~= url@.subrange(start as int, n as int),
            start <= piece_start <= i <= n,
            split_on_slash(rest.subrange(0, i - start)) == strings_view(out@).push(
                url@.subrange(piece_start as int, i as int),
            ),
        decreases n - i,
    {
        let ghost before = strings_view(out@);
        proof {
            lemma_split_step(rest, i - start);
        }
        let c = url.get_char(i);
        let ghost ps = piece_start;
        if c == '/' {
            out.push(url.substring_char(piece_start, i).to_owned());
            piece_start = i + 1;
            assert(strings_view(out@) =~= before.push(url@.subrange(ps as int, i as int)));
            assert(url@.subrange(piece_start as int, i + 1) =~= Seq::<char>::empty());
        } else {
            assert(url@.subrange(piece_start as int, i + 1) =~= url@.subrange(
                piece_start as int,
                i as int,
            ).push(c));
            assert(strings_view(out@).push(url@.subrange(piece_start as int, i + 1)) =~= before.push(
                url@.subrange(piece_start as int, i as int),
            ).update(before.len() as int, url@.subrange(piece_start as int, i + 1)));
        }
        i = i + 1;
    }
    let ghost before = strings_view(out@);
    out.push(url.substring_char(piece_start, n).to_owned());
    assert(rest.subrange(0, n - start) =~= rest);
    assert(strings_view(out@) =~= before.push(url@.subrange(piece_start as int, n as int)));
    out
}

/// The index of the last `.` in `s`, or -1 when there is none.
pub open spec fn last_dot(s: Seq<char>) -> int
    decreases s.len(),
{
    if s.len() == 0 {
        -1
    } else if s.last() == '.' {
        s.len() - 1
    } else {
        last_dot(s.drop_last())
    }
}

/// The extension of a file name: what follows its last `.`, without the dot.
/// A name with no dot, a name whose only dot is its first character (such as
/// `.profile`) and the name `..` have none.
pub open spec fn extension_of(name: Seq<char>) -> Option<Seq<char>> {
    if name =~= seq!['.', '.'] || last_dot(name) <= 0 {
        None
    } else {
        Some(name.subrange(last_dot(name) + 1, name.len() as int))
    }
}

/// The last path component of a resolved request, the one whose extension
/// decides the content type; empty when there is no component at all.
pub open spec fn file_name_of(segments: Seq<Seq<char>>) -> Seq<char> {
    if segments.len() == 0 {
        Seq::empty()
    } else {
        segments.last()
    }
}

/// Computes the extension of a file name (see `extension_of`).
pub fn extension(name: &str) -> (r: Option<String>)
    ensures
        r is Some <==> extension_of(name@) is Some,
        r is Some ==> r->0@ == extension_of(name@)->0,
{
    let n = name.unicode_len();
    if n == 2 && name.get_char(0) == '.' && name.get_char(1) == '.' {
        assert(name@ =~= seq!['.', '.']);
        return None;
    }
    let mut i: usize = n;
    assert(name@.take(n as int) =~= name@);
    while i > 0
        invariant
            i <= n == name@.len(),
            last_dot(name@) == last_dot(name@.take(i as int)),
        ensures
            i <= n,
            last_dot(name@) == last_dot(name@.take(i as int)),
            i > 0 ==> name@[i - 1] == '.',
        decreases i,
    {
        assert(name@.take(i as int).drop_last() =~= name@.take(i - 1));
        if name.get_char(i - 1) == '.' {
            break;
        }
        i = i - 1;
    }
    assert(i == 0 ==> name@.take(0) =~= Seq::<char>::empty());
    assert(i > 0 ==> name@.take(i as int).last() == '.');
    assert(name@ =~= seq!['.', '.'] ==> n == 2 && name@[0] == '.' && name@[1] == '.');
    if i <= 1 {
        None
    } else {
        Some(name.substring_char(i, n).to_owned())
    }
}

} // verus!
