use vstd::prelude::*;
use crate::text::{chars_of, decimal, push_char, push_decimal_u64, push_range, push_str};
use vstd::string::StringSliceAdditionalSpecFns;

verus! {

/// Whether `c` equals the lower-case ASCII letter `lower` up to ASCII case.
pub open spec fn ascii_eq_ignore_case(c: char, lower: char, upper: char) -> bool {
    c == lower || c == upper
}

/// Whether a `<head` tag opening (in any ASCII case) starts at position `i` of `s`.
pub open spec fn head_tag_at(s: Seq<char>, i: int) -> bool {
    &&& 0 <= i
    &&& i + 5 <= s.len()
    &&& s[i] == '<'
    &&& ascii_eq_ignore_case(s[i + 1], 'h', 'H')
    &&& ascii_eq_ignore_case(s[i + 2], 'e', 'E')
    &&& ascii_eq_ignore_case(s[i + 3], 'a', 'A')
    &&& ascii_eq_ignore_case(s[i + 4], 'd', 'D')
}

/// The first position at or after `i` where a `<head` opening starts.
pub open spec fn find_head_from(s: Seq<char>, i: nat) -> Option<nat>
    decreases s.len() - i,
{
    if i + 5 > s.len() {
        None
    } else if head_tag_at(s, i as int) {
        Some(i)
    } else {
        find_head_from(s, i + 1)
    }
}

/// The first position at or after `i` that holds `c`.
pub open spec fn find_char_from(s: Seq<char>, c: char, i: nat) -> Option<nat>
    decreases s.len() - i,
{
    if i >= s.len() {
        None
    } else if s[i as int] == c {
        Some(i)
    } else {
        find_char_from(s, c, i + 1)
    }
}

/// The HTML attribute escape of a single character.
pub open spec fn escape_attr_char(c: char) -> Seq<char> {
    if c == '&' {
        seq!['&', 'a', 'm', 'p', ';']
    } else if c == '"' {
        seq!['&', 'q', 'u', 'o', 't', ';']
    } else if c == '<' {
        seq!['&', 'l', 't', ';']
    } else if c == '>' {
        seq!['&', 'g', 't', ';']
    } else {
        seq![c]
    }
}

/// `s` with `&`, `"`, `<` and `>` replaced by their HTML entities.
pub open spec fn escape_attr(s: Seq<char>) -> Seq<char>
    decreases s.len(),
{
    if s.len() == 0 {
        Seq::empty()
    } else {
        escape_attr(s.drop_last()) + escape_attr_char(s.last())
    }
}

/// The `<base href="...">` element that points at `base_url`.
pub open spec fn base_tag(base_url: Seq<char>) -> Seq<char> {
    seq!['<', 'b', 'a', 's', 'e', ' ', 'h', 'r', 'e', 'f', '=', '"'] + escape_attr(base_url)
        + seq!['"', '>']
}

/// `html` with a base element for `base_url`: placed right after the first
/// `<head ...>` opening when the document has a complete one, otherwise in front.
pub open spec fn with_base_url(html: Seq<char>, base_url: Seq<char>) -> Seq<char> {
    let base = base_tag(base_url);
    match find_head_from(html, 0) {
        Some(i) => match find_char_from(html, '>', i) {
            Some(end) => html.take(end + 1int) + base + html.skip(end + 1int),
            None => base + html,
        },
        None => base + html,
    }
}

fn is_head_tag_at(h: &Vec<char>, i: usize) -> (r: bool)
    requires
        i + 5 <= h.len(),
    ensures
        r == head_tag_at(h@, i as int),
{
    h[i] == '<' && (h[i + 1] == 'h' || h[i + 1] == 'H') && (h[i + 2] == 'e' || h[i + 2] == 'E')
        && (h[i + 3] == 'a' || h[i + 3] == 'A') && (h[i + 4] == 'd' || h[i + 4] == 'D')
}

fn find_head(h: &Vec<char>) -> (r: Option<usize>)
    ensures
        match r {
            Some(i) => find_head_from(h@, 0) == Some(i as nat) && i + 5 <= h.len(),
            None => find_head_from(h@, 0) is None,
        },
{
    let mut i: usize = 0;
    while h.len() >= 5 && i <= h.len() - 5
        invariant
            i <= h.len(),
            find_head_from(h@, 0) == find_head_from(h@, i as nat),
        decreases h.len() - i,
    {
        if is_head_tag_at(h, i) {
            return Some(i);
        }
        i += 1;
    }
    None
}

fn find_char(h: &Vec<char>, c: char, start: usize) -> (r: Option<usize>)
    requires
        start <= h.len(),
    ensures
        match r {
            Some(i) => find_char_from(h@, c, start as nat) == Some(i as nat) && i < h.len(),
            None => find_char_from(h@, c, start as nat) is None,
        },
{
    let mut i: usize = start;
    while i < h.len()
        invariant
            start <= i <= h.len(),
            find_char_from(h@, c, start as nat) == find_char_from(h@, c, i as nat),
        decreases h.len() - i,
    {
        if h[i] == c {
            return Some(i);
        }
        i += 1;
    }
    None
}

proof fn lemma_find_char_bound(s: Seq<char>, c: char, i: nat)
    ensures
        find_char_from(s, c, i) matches Some(e) ==> i <= e < s.len() && s[e as int] == c,
    decreases s.len() - i,
{
    if i < s.len() && s[i as int] != c {
        lemma_find_char_bound(s, c, i + 1);
    }
}

fn push_base_tag(out: &mut String, url: &Vec<char>)
    ensures
        final(out)@ == old(out)@ + base_tag(url@),
{
    let ghost start = out@;
    push_char(out, '<');
    push_char(out, 'b');
    push_char(out, 'a');
    push_char(out, 's');
    push_char(out, 'e');
    push_char(out, ' ');
    push_char(out, 'h');
    push_char(out, 'r');
    push_char(out, 'e');
    push_char(out, 'f');
    push_char(out, '=');
    push_char(out, '"');
    assert(out@ == start + seq!['<', 'b', 'a', 's', 'e', ' ', 'h', 'r', 'e', 'f', '=', '"']);
    let ghost mid = out@;
    let mut i: usize = 0;
    while i < url.len()
        invariant
            i <= url.len(),
            out@ == mid + escape_attr(url@.take(i as int)),
        decreases url.len() - i,
    {
        let c = url[i];
        let ghost before = out@;
        if c == '&' {
            push_char(out, '&');
            push_char(out, 'a');
            push_char(out, 'm');
            push_char(out, 'p');
            push_char(out, ';');
        } else if c == '"' {
            push_char(out, '&');
            push_char(out, 'q');
            push_char(out, 'u');
            push_char(out, 'o');
            push_char(out, 't');
            push_char(out, ';');
        } else if c == '<' {
            push_char(out, '&');
            push_char(out, 'l');
            push_char(out, 't');
            push_char(out, ';');
        } else if c == '>' {
            push_char(out, '&');
            push_char(out, 'g');
            push_char(out, 't');
            push_char(out, ';');
        } else {
            push_char(out, c);
        }
        assert(out@ == before + escape_attr_char(c));
        assert(url@.take(i + 1).drop_last() == url@.take(i as int));
        i += 1;
    }
    assert(url@.take(url.len() as int) == url@);
    push_char(out, '"');
    push_char(out, '>');
}

/// Makes relative URLs in `html` resolve against `base_url` by inserting a
/// `<base href="...">` element (with the URL attribute-escaped) right after the
/// document's first `<head ...>` opening, or in front of the document when it
/// has none.
pub fn inject_base_url(html: &str, base_url: &str) -> (out: String)
    ensures
        out@ == with_base_url(html@, base_url@),
{
    let h = chars_of(html);
    let url = chars_of(base_url);
    let mut out = String::new();
    if let Some(index) = find_head(&h) {
        if let Some(end) = find_char(&h, '>', index) {
            proof {
                lemma_find_char_bound(h@, '>', index as nat);
            }
            push_range(&mut out, &h, 0, end + 1);
            push_base_tag(&mut out, &url);
            push_range(&mut out, &h, end + 1, h.len());
            assert(h@.subrange(0, end + 1) == h@.take(end + 1));
            assert(h@.subrange(end + 1, h@.len() as int) == h@.skip(end + 1));
            return out;
        }
    }
    push_base_tag(&mut out, &url);
    push_range(&mut out, &h, 0, h.len());
    assert(h@.subrange(0, h@.len() as int) == h@);
    out
}

/// Bytes that stay as they are in a percent-encoded URL path segment:
/// ASCII letters and digits and `-`, `_`, `.`, `~`.
pub open spec fn is_unreserved_byte(b: u8) -> bool {
    (65 <= b <= 90) || (97 <= b <= 122) || (48 <= b <= 57) || b == 45 || b == 95 || b == 46
        || b == 126
}

/// The upper-case hexadecimal digit for `n < 16`.
pub open spec fn hex_digit(n: u8) -> char {
    if n < 10 {
        (48 + n) as char
    } else {
        (55 + n) as char
    }
}

/// The encoding of one byte: itself when unreserved, `%XX` otherwise.
pub open spec fn percent_encode_byte(b: u8) -> Seq<char> {
    if is_unreserved_byte(b) {
        seq![b as char]
    } else {
        seq!['%', hex_digit(b / 16), hex_digit(b % 16)]
    }
}

/// The percent encoding of a byte sequence.
pub open spec fn percent_encoded(bytes: Seq<u8>) -> Seq<char>
    decreases bytes.len(),
{
    if bytes.len() == 0 {
        Seq::empty()
    } else {
        percent_encoded(bytes.drop_last()) + percent_encode_byte(bytes.last())
    }
}

fn hex_digit_char(n: u8) -> (c: char)
    requires
        n < 16,
    ensures
        c == hex_digit(n),
{
    if n < 10 {
        (48 + n) as char
    } else {
        (55 + n) as char
    }
}

/// Percent-encodes the UTF-8 bytes of `value` for use as one URL path segment.
pub fn percent_encode_path(value: &str) -> (out: String)
    ensures
        out@ == percent_encoded(value.spec_bytes()),
{
    let bytes = value.as_bytes();
    let mut out = String::new();
    let mut i: usize = 0;
    while i < bytes.len()
        invariant
            i <= bytes@.len(),
            bytes@ == value.spec_bytes(),
            out@ == percent_encoded(bytes@.take(i as int)),
        decreases bytes.len() - i,
    {
        let b = bytes[i];
        let ghost before = out@;
        if (65 <= b && b <= 90) || (97 <= b && b <= 122) || (48 <= b && b <= 57) || b == 45
            || b == 95 || b == 46 || b == 126 {
            push_char(&mut out, b as char);
        } else {
            push_char(&mut out, '%');
            push_char(&mut out, hex_digit_char(b / 16));
            push_char(&mut out, hex_digit_char(b % 16));
        }
        assert(out@ == before + percent_encode_byte(b));
        assert(bytes@.take(i + 1).drop_last() == bytes@.take(i as int));
        i += 1;
    }
    assert(bytes@.take(bytes@.len() as int) == bytes@);
    out
}

/// The document a WebView loads for HTML content: the HTML itself, with a
/// base element injected when a base URL is given.
pub fn document_html(html: &str, base_url: Option<&str>) -> (out: String)
    ensures
        out@ == match base_url {
            Some(b) => with_base_url(html@, b@),
            None => html@,
        },
{
    match base_url {
        Some(b) => inject_base_url(html, b),
        None => {
            let mut out = String::new();
            push_str(&mut out, html);
            out
        },
    }
}

/// Law: the escaped base URL can neither close the `href` attribute nor the
/// element: it holds no `"`, `<` or `>`.
pub proof fn lemma_escaped_url_is_inert(url: Seq<char>)
    ensures
        forall|i: int| 0 <= i < escape_attr(url).len() ==> #[trigger] escape_attr(url)[i] != '"'
            && escape_attr(url)[i] != '<' && escape_attr(url)[i] != '>',
    decreases url.len(),
{
    if url.len() > 0 {
        lemma_escaped_url_is_inert(url.drop_last());
        let a = escape_attr(url.drop_last());
        let b = escape_attr_char(url.last());
        assert forall|i: int| 0 <= i < (a + b).len() implies #[trigger] (a + b)[i] != '"' && (a + b)[i] != '<'
            && (a + b)[i] != '>' by {
            if i < a.len() {
                assert((a + b)[i] == a[i]);
            } else {
                assert((a + b)[i] == b[i - a.len()]);
            }
        }
    }
}

/// Law: injecting a base URL only inserts the base element; the document
/// itself comes through unchanged around it.
pub proof fn lemma_injection_keeps_document(html: Seq<char>, base_url: Seq<char>)
    ensures
        exists|k: int|
            0 <= k <= html.len() && #[trigger] with_base_url(html, base_url) == html.take(k) + base_tag(base_url)
                + html.skip(k),
{
    let base = base_tag(base_url);
    match find_head_from(html, 0) {
        Some(i) => match find_char_from(html, '>', i) {
            Some(end) => {
                lemma_find_char_bound(html, '>', i);
                let k = end + 1int;
                assert(with_base_url(html, base_url) == html.take(k) + base + html.skip(k));
            },
            None => {
                assert(html.take(0) + base + html.skip(0) =~= base + html);
            },
        },
        None => {
            assert(html.take(0) + base + html.skip(0) =~= base + html);
        },
    }
}

proof fn lemma_find_head_from(s: Seq<char>, k: nat)
    ensures
        find_head_from(s, k) matches Some(i) ==> k <= i && head_tag_at(s, i as int) && forall|j: int|
            k <= j < i ==> !#[trigger] head_tag_at(s, j),
        find_head_from(s, k) is None ==> forall|j: int| k <= j ==> !#[trigger] head_tag_at(s, j),
    decreases s.len() - k,
{
    if k + 5 <= s.len() && !head_tag_at(s, k as int) {
        lemma_find_head_from(s, k + 1);
        assert forall|j: int| k <= j && j < k + 1 implies !#[trigger] head_tag_at(s, j) by {
            assert(j == k);
        }
    }
}

proof fn lemma_find_char_from(s: Seq<char>, c: char, k: nat)
    ensures
        find_char_from(s, c, k) matches Some(e) ==> k <= e < s.len() && s[e as int] == c && forall|j: int|
            k <= j < e ==> #[trigger] s[j] != c,
        find_char_from(s, c, k) is None ==> forall|j: int| k <= j < s.len() ==> #[trigger] s[j] != c,
    decreases s.len() - k,
{
    if k < s.len() && s[k as int] != c {
        lemma_find_char_from(s, c, k + 1);
    }
}

/// Law: the base element goes right after the `>` that closes the FIRST
/// `<head` opening of the document (`i` is where that opening starts, `e`
/// the first `>` from there on), never after a later one such as a
/// `<header>` in the body.
pub proof fn lemma_base_follows_first_head(html: Seq<char>, base_url: Seq<char>, i: int, e: int)
    requires
        head_tag_at(html, i),
        forall|j: int| 0 <= j < i ==> !#[trigger] head_tag_at(html, j),
        i <= e < html.len(),
        html[e] == '>',
        forall|k: int| i <= k < e ==> #[trigger] html[k] != '>',
    ensures
        with_base_url(html, base_url) == html.take(e + 1) + base_tag(base_url) + html.skip(e + 1),
{
    lemma_find_head_from(html, 0);
    match find_head_from(html, 0) {
        Some(f) => {
            if (f as int) < i {
                assert(!head_tag_at(html, f as int));
            } else if (f as int) > i {
                assert(!head_tag_at(html, i));
            }
            lemma_find_char_from(html, '>', i as nat);
            match find_char_from(html, '>', i as nat) {
                Some(g) => {
                    if (g as int) < e {
                        assert(html[g as int] != '>');
                    } else if (g as int) > e {
                        assert(html[e] != '>');
                    }
                },
                None => {
                    assert(html[e] != '>');
                },
            }
        },
        None => {
            assert(!head_tag_at(html, i));
        },
    }
}

/// Law: a document without a `<head` opening, or whose first `<head` opening
/// is never closed by a `>`, gets the base element in front of it.
pub proof fn lemma_base_in_front_without_head(html: Seq<char>, base_url: Seq<char>, i: int)
    requires
        (forall|j: int| !#[trigger] head_tag_at(html, j)) || (head_tag_at(html, i) && (forall|j: int|
            0 <= j < i ==> !#[trigger] head_tag_at(html, j)) && forall|k: int|
            i <= k < html.len() ==> #[trigger] html[k] != '>'),
    ensures
        with_base_url(html, base_url) == base_tag(base_url) + html,
{
    lemma_find_head_from(html, 0);
    match find_head_from(html, 0) {
        Some(f) => {
            if (f as int) < i {
                assert(!head_tag_at(html, f as int));
            } else if (f as int) > i {
                assert(!head_tag_at(html, i));
            }
            lemma_find_char_from(html, '>', f);
            if let Some(g) = find_char_from(html, '>', f) {
                assert(html[g as int] != '>');
            }
        },
        None => {},
    }
}

/// Whether `c` may appear in a percent-encoded path segment: an unreserved
/// ASCII character or `%`.
pub open spec fn is_url_segment_char(c: char) -> bool {
    ('A' <= c <= 'Z') || ('a' <= c <= 'z') || ('0' <= c <= '9') || c == '-' || c == '_' || c == '.'
        || c == '~' || c == '%'
}

/// Law: a percent-encoded path segment holds only unreserved ASCII
/// characters and `%`, so it can be placed in a URL as it is.
pub proof fn lemma_percent_encoded_is_url_safe(bytes: Seq<u8>)
    ensures
        forall|i: int| 0 <= i < percent_encoded(bytes).len() ==> is_url_segment_char(#[trigger] percent_encoded(bytes)[i]),
    decreases bytes.len(),
{
    if bytes.len() > 0 {
        lemma_percent_encoded_is_url_safe(bytes.drop_last());
        let a = percent_encoded(bytes.drop_last());
        let b = percent_encode_byte(bytes.last());
        let x = bytes.last();
        assert forall|i: int| 0 <= i < b.len() implies is_url_segment_char(#[trigger] b[i]) by {
            if is_unreserved_byte(x) {
                assert(b[i] == x as char);
            } else {
                assert(x / 16 < 16 && x % 16 < 16);
            }
        }
        assert forall|i: int| 0 <= i < (a + b).len() implies is_url_segment_char(#[trigger] (a + b)[i]) by {
            if i < a.len() {
                assert((a + b)[i] == a[i]);
            } else {
                assert((a + b)[i] == b[i - a.len()]);
            }
        }
    }
}

/// The virtual host name under which the `n`-th resource folder is served.
pub open spec fn resource_host_name(n: u64) -> Seq<char> {
    "nestix-resource-"@ + decimal(n as nat) + ".local"@
}

/// Names the virtual host for the `n`-th mapped resource folder.
pub fn resource_host(n: u64) -> (host: String)
    ensures
        host@ == resource_host_name(n),
{
    let mut host = String::new();
    push_str(&mut host, "nestix-resource-");
    push_decimal_u64(&mut host, n);
    push_str(&mut host, ".local");
    host
}

/// The URL that opens resource file `file_name` on virtual host `host`; the
/// file name is percent-encoded.
pub fn resource_url(host: &str, file_name: &str) -> (url: String)
    ensures
        url@ == "https://"@ + host@ + seq!['/'] + percent_encoded(file_name.spec_bytes()),
{
    let mut url = String::new();
    push_str(&mut url, "https://");
    push_str(&mut url, host);
    push_char(&mut url, '/');
    let file = percent_encode_path(file_name);
    push_str(&mut url, file.as_str());
    url
}

/// The kind of one component of a file-system path, as the platform's path
/// parser splits it.
#[derive(Clone, Copy, Debug, PartialEq, Eq, Structural)]
pub enum PathPart {
    Prefix,
    RootDir,
    CurDir,
    ParentDir,
    Normal,
}

/// A path that every platform splits alike: non-empty, not starting with the
/// separator `/`, and free of `\\` (a separator on Windows only) and of `:`
/// (which marks a drive on Windows). Such a path has no root and no prefix,
/// and `/` alone separates its components.
pub open spec fn portable_path(s: Seq<char>) -> bool {
    &&& s.len() > 0
    &&& s[0] != '/'
    &&& forall|i: int| 0 <= i < s.len() ==> s[i] != '\\' && s[i] != ':'
}

/// Whether a component of `s` starts at position `i`.
pub open spec fn starts_component(s: Seq<char>, i: int) -> bool {
    i == 0 || s[i - 1] == '/'
}

/// Whether a `.` component of `s` starts at position `i`.
pub open spec fn dot_component_at(s: Seq<char>, i: int) -> bool {
    &&& 0 <= i < s.len()
    &&& starts_component(s, i)
    &&& s[i] == '.'
    &&& (i + 1 == s.len() || s[i + 1] == '/')
}

/// Whether a `..` component of `s` starts at position `i`.
pub open spec fn parent_component_at(s: Seq<char>, i: int) -> bool {
    &&& 0 <= i && i + 1 < s.len()
    &&& starts_component(s, i)
    &&& s[i] == '.'
    &&& s[i + 1] == '.'
    &&& (i + 2 == s.len() || s[i + 2] == '/')
}

/// Whether an empty component lies between positions `i` and `i + 1` of `s`:
/// two separators in a row.
pub open spec fn empty_component_at(s: Seq<char>, i: int) -> bool {
    0 <= i && i + 1 < s.len() && s[i] == '/' && s[i + 1] == '/'
}

/// Whether `s` names its parent directory somewhere: a `..` component.
pub open spec fn has_parent_component(s: Seq<char>) -> bool {
    exists|i: int| parent_component_at(s, i)
}

/// Plain names joined by `/`: a portable path with no empty, `.` or `..`
/// component and no trailing separator, such as `index.html` or
/// `assets/app.js`.
pub open spec fn plain_relative_path(s: Seq<char>) -> bool {
    &&& portable_path(s)
    &&& s[s.len() - 1] != '/'
    &&& forall|i: int| !#[trigger] empty_component_at(s, i)
    &&& forall|i: int| !#[trigger] dot_component_at(s, i)
    &&& forall|i: int| !#[trigger] parent_component_at(s, i)
}

/// Splits `path` into the kinds of its components.
///
/// Calls `std::path::Path::components`. How a path with `\\`, a drive mark
/// or a leading double separator splits depends on the platform's path
/// syntax, so only what holds on every platform is stated: plain names joined
/// by `/` are normal components only; a portable path with a `..` component
/// has a parent-directory part; a path starting with `/` starts with a root
/// (or, on Windows, a network prefix); a portable path whose first component
/// is `.` (such as `.` or `./index.html`) starts with the current directory,
/// the one place where `.` is not normalized away.
#[verifier::external_body]
fn path_parts(path: &str) -> (parts: Vec<PathPart>)
    ensures
        plain_relative_path(path@) ==> parts@.len() > 0 && forall|i: int| 0 <= i < parts@.len() ==> parts@[i] == PathPart::Normal,
        portable_path(path@) && has_parent_component(path@) ==> exists|i: int| 0 <= i < parts@.len() && parts@[i] == PathPart::ParentDir,
        path@.len() > 0 && path@[0] == '/' ==> parts@.len() > 0 && parts@[0] != PathPart::Normal,
        portable_path(path@) && dot_component_at(path@, 0) ==> parts@.len() > 0 && parts@[0] == PathPart::CurDir,
{
    std::path::Path::new(path).components().map(|c| match c {
        std::path::Component::Prefix(_) => PathPart::Prefix,
        std::path::Component::RootDir => PathPart::RootDir,
        std::path::Component::CurDir => PathPart::CurDir,
        std::path::Component::ParentDir => PathPart::ParentDir,
        std::path::Component::Normal(_) => PathPart::Normal,
    }).collect()
}

/// A resource path is acceptable when it is non-empty and made of plain
/// names only: no root, drive prefix, `.` or `..`.
pub open spec fn acceptable_resource_path(is_empty: bool, parts: Seq<PathPart>) -> bool {
    !is_empty && forall|i: int| 0 <= i < parts.len() ==> parts[i] == PathPart::Normal
}

/// Decides whether a resource path, given whether its text is empty and the
/// kinds of its components, is a non-empty relative path without `..`.
pub fn resource_path_is_valid(is_empty: bool, parts: &Vec<PathPart>) -> (r: bool)
    ensures
        r == acceptable_resource_path(is_empty, parts@),
{
    if is_empty {
        return false;
    }
    let mut i: usize = 0;
    while i < parts.len()
        invariant
            i <= parts.len(),
            forall|j: int| 0 <= j < i ==> parts@[j] == PathPart::Normal,
        decreases parts.len() - i,
    {
        if parts[i] != PathPart::Normal {
            return false;
        }
        i = i + 1;
    }
    true
}

/// Paths refused as resources on every platform: the empty path, a path
/// starting with `/`, and a portable path that starts with a `.` component
/// (such as `./index.html`) or has a `..` component.
pub open spec fn refused_resource_path(s: Seq<char>) -> bool {
    ||| s.len() == 0
    ||| s[0] == '/'
    ||| portable_path(s) && dot_component_at(s, 0)
    ||| portable_path(s) && has_parent_component(s)
}

/// Checks that `path` names a resource inside the application folder: a
/// non-empty relative path of plain names, without `..`. Every path of
/// [`refused_resource_path`] (the empty path, `.` or `./index.html`, a path
/// starting with `/`, `../index.html`) is always refused; plain names joined by `/` are always
/// accepted; the rest is decided by [`resource_path_is_valid`] on the
/// platform's split of the path.
pub fn validate_resource_path(path: &str) -> (r: bool)
    ensures
        refused_resource_path(path@) ==> !r,
        plain_relative_path(path@) ==> r,
{
    let is_empty = path.unicode_len() == 0;
    let parts = path_parts(path);
    let r = resource_path_is_valid(is_empty, &parts);
    proof {
        if portable_path(path@) && has_parent_component(path@) {
            let i = choose|i: int| 0 <= i < parts@.len() && parts@[i] == PathPart::ParentDir;
            assert(parts@[i] != PathPart::Normal);
        }
        if path@.len() > 0 && (path@[0] == '/' || (portable_path(path@) && dot_component_at(path@, 0))) {
            assert(parts@[0] != PathPart::Normal);
        }
    }
    r
}

/// Why a WebView resource could not be resolved.
#[derive(Clone, Copy, Debug, PartialEq, Eq, Structural)]
pub enum ResourceError {
    /// The requested path is empty, absolute or leaves its folder.
    InvalidPath,
    /// Neither the packaged nor the development location holds the file.
    NotFound,
}

/// The file chosen for a resource: the packaged file where it exists,
/// otherwise the development file, otherwise none.
pub open spec fn chosen_resource(packaged: Option<String>, development: Option<String>) -> Result<String, ResourceError> {
    match packaged {
        Some(p) => Ok(p),
        None => match development {
            Some(d) => Ok(d),
            None => Err(ResourceError::NotFound),
        },
    }
}

/// Picks the file that serves a resource. `packaged` and `development` are
/// the canonical locations found to be existing files in the installed
/// package and in the development tree, where they are.
pub fn choose_resource(packaged: Option<String>, development: Option<String>) -> (r: Result<String, ResourceError>)
    ensures
        r == chosen_resource(packaged, development),
{
    match packaged {
        Some(p) => Ok(p),
        None => match development {
            Some(d) => Ok(d),
            None => Err(ResourceError::NotFound),
        },
    }
}

/// Resolves the WebView resource `path`: refuses an invalid path (always one
/// of [`refused_resource_path`]), then prefers the packaged file over the
/// development one (always for plain names joined by `/`).
pub fn resolve_document_resource(path: &str, packaged: Option<String>, development: Option<String>) -> (r: Result<String, ResourceError>)
    ensures
        refused_resource_path(path@) ==> r == Err::<String, ResourceError>(ResourceError::InvalidPath),
        plain_relative_path(path@) ==> r == chosen_resource(packaged, development),
        r != Err::<String, ResourceError>(ResourceError::InvalidPath) ==> r == chosen_resource(packaged, development),
{
    if !validate_resource_path(path) {
        return Err(ResourceError::InvalidPath);
    }
    choose_resource(packaged, development)
}

/// A color with alpha, red, green and blue channels.
#[derive(Clone, Copy, Debug, PartialEq, Eq, Structural)]
pub struct ArgbColor {
    pub a: u8,
    pub r: u8,
    pub g: u8,
    pub b: u8,
}

/// The default background a WebView is given: fully transparent black when
/// the page should show what lies behind it, opaque white otherwise.
pub fn webview_background(transparent: bool) -> (c: ArgbColor)
    ensures
        transparent ==> c == (ArgbColor { a: 0, r: 0, g: 0, b: 0 }),
        !transparent ==> c == (ArgbColor { a: 255, r: 255, g: 255, b: 255 }),
{
    if transparent {
        ArgbColor { a: 0, r: 0, g: 0, b: 0 }
    } else {
        ArgbColor { a: 255, r: 255, g: 255, b: 255 }
    }
}

} // verus!
