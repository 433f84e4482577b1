//! URLs: normalising what the user typed into a download URL, the
//! freedesktop.org file URI of a downloaded file, and the cache name of its
//! thumbnail.
use crate::text::{chars_of, owned, spec_starts_with, spec_trim, starts_with, str_eq, string_of, trim};
use vstd::prelude::*;

verus! {

/// What `url::Url::parse` makes of a text, read as its scheme, whether it has
/// a host, and its serialization (what converting it into a `String` gives);
/// `None` when the text does not parse as an absolute URL.
pub uninterp spec fn url_parse(s: Seq<char>) -> Option<(Seq<char>, bool, Seq<char>)>;

/// Parses an absolute URL with `url::Url::parse`. The result is `url_parse`
/// of the text; nothing else is stated of the crate's parser.
#[verifier::external_body]
fn parse_url(s: &str) -> (r: Option<(String, bool, String)>)
    ensures
        match r {
            None => url_parse(s@) is None,
            Some((scheme, has_host, text)) => url_parse(s@) == Some((scheme@, has_host, text@)),
        },
{
    match url::Url::parse(s) {
        Ok(u) => Some((u.scheme().to_string(), u.host().is_some(), u.into())),
        Err(_) => None,
    }
}

/// The URL to download for what the user typed: surrounding white space is
/// dropped, `https://` is assumed when no `http://` or `https://` is given,
/// and the result must parse as an http(s) URL with a host; it is then
/// written the way the URL parser serializes it.
pub open spec fn spec_normalize_url(raw: Seq<char>) -> Option<Seq<char>> {
    let t = spec_trim(raw);
    if t.len() == 0 {
        None
    } else {
        let candidate = if spec_starts_with(t, "http://"@) || spec_starts_with(t, "https://"@) {
            t
        } else {
            "https://"@ + t
        };
        match url_parse(candidate) {
            Some((scheme, has_host, text)) => if (scheme == "http"@ || scheme == "https"@)
                && has_host {
                Some(text)
            } else {
                None
            },
            None => None,
        }
    }
}

/// Normalises one typed URL, or rejects it.
pub fn normalize_url(raw: &str) -> (r: Option<String>)
    ensures
        match r {
            Some(u) => spec_normalize_url(raw@) == Some(u@),
            None => spec_normalize_url(raw@) is None,
        },
{
    let t = trim(raw);
    if t.as_str().is_empty() {
        return None;
    }
    let candidate = if starts_with(t.as_str(), "http://") || starts_with(t.as_str(), "https://") {
        t
    } else {
        let mut c = owned("https://");
        c.append(t.as_str());
        c
    };
    match parse_url(candidate.as_str()) {
        Some((scheme, has_host, text)) => {
            if (str_eq(scheme.as_str(), "http") || str_eq(scheme.as_str(), "https")) && has_host {
                Some(text)
            } else {
                None
            }
        },
        None => None,
    }
}

/// What `url::Url::from_file_path` gives for a path, serialized; `None` when
/// it refuses the path.
pub uninterp spec fn file_url_of(path: Seq<char>) -> Option<Seq<char>>;

/// `url::Url::from_file_path`, serialized. The result is `file_url_of` of the
/// path; as the crate's source shows, it refuses exactly the paths that are
/// not absolute, which on Unix are those not starting with `/`.
#[verifier::external_body]
fn file_url(path: &str) -> (r: Option<String>)
    ensures
        match r {
            None => file_url_of(path@) is None,
            Some(u) => file_url_of(path@) == Some(u@),
        },
        r is Some <==> (path@.len() > 0 && path@[0] == '/'),
{
    match url::Url::from_file_path(path) {
        Ok(u) => Some(u.to_string()),
        Err(()) => None,
    }
}

/// What one character becomes in a GLib-style file URI: brackets are
/// percent-encoded, everything else is kept.
pub open spec fn bracket_piece(c: char) -> Seq<char> {
    if c == '[' {
        "%5B"@
    } else if c == ']' {
        "%5D"@
    } else {
        seq![c]
    }
}

/// `s` with `[` written `%5B` and `]` written `%5D`.
pub open spec fn escape_brackets(s: Seq<char>) -> Seq<char>
    decreases s.len(),
{
    if s.len() == 0 {
        seq![]
    } else {
        escape_brackets(s.drop_last()) + bracket_piece(s.last())
    }
}

/// The file URI of a downloaded file as GLib (and so the file manager) forms
/// it, which is the key of the shared thumbnail cache: the WHATWG file URL
/// with its brackets percent-encoded too.
pub open spec fn spec_desktop_file_uri(path: Seq<char>) -> Result<Seq<char>, Seq<char>> {
    match file_url_of(path) {
        Some(u) => Ok(escape_brackets(u)),
        None => Err("cannot form file URI for "@ + path),
    }
}

/// The cache key URI of the file at `path`, or why there is none.
pub fn desktop_file_uri(path: &str) -> (r: Result<String, String>)
    ensures
        match r {
            Ok(u) => spec_desktop_file_uri(path@) == Ok::<Seq<char>, Seq<char>>(u@),
            Err(e) => spec_desktop_file_uri(path@) == Err::<Seq<char>, Seq<char>>(e@),
        },
{
    match file_url(path) {
        None => {
            let mut e = owned("cannot form file URI for ");
            e.append(path);
            Err(e)
        },
        Some(u) => {
            let v = chars_of(u.as_str());
            let mut out: Vec<char> = Vec::new();
            let mut i: usize = 0;
            proof {
                reveal_strlit("%5B");
                reveal_strlit("%5D");
            }
            while i < v.len()
                invariant
                    i <= v.len(),
                    out@ == escape_brackets(v@.subrange(0, i as int)),
                decreases v.len() - i,
            {
                let c = v[i];
                let ghost prefix = v@.subrange(0, i as int);
                let ghost next = v@.subrange(0, i + 1);
                assert(next.drop_last() =~= prefix);
                assert(next.last() == c);
                proof {
                    reveal_strlit("%5B");
                    reveal_strlit("%5D");
                }
                let ghost before = out@;
                if c == '[' {
                    out.push('%');
                    out.push('5');
                    out.push('B');
                } else if c == ']' {
                    out.push('%');
                    out.push('5');
                    out.push('D');
                } else {
                    out.push(c);
                }
                assert(out@ =~= before + bracket_piece(c));
                i = i + 1;
            }
            assert(v@.subrange(0, v@.len() as int) =~= v@);
            Ok(string_of(out.as_slice()))
        },
    }
}

/// A cache key URI never holds a literal bracket.
pub proof fn lemma_escaped_has_no_brackets(s: Seq<char>)
    ensures
        forall|i: int|
            0 <= i < escape_brackets(s).len() ==> #[trigger] escape_brackets(s)[i] != '['
                && escape_brackets(s)[i] != ']',
    decreases s.len(),
{
    reveal_strlit("%5B");
    reveal_strlit("%5D");
    if s.len() > 0 {
        lemma_escaped_has_no_brackets(s.drop_last());
        let p = escape_brackets(s.drop_last());
        let q = bracket_piece(s.last());
        assert forall|i: int| 0 <= i < escape_brackets(s).len() implies #[trigger] escape_brackets(s)[i] != '['
            && escape_brackets(s)[i] != ']' by {
            if i < p.len() {
                assert(escape_brackets(s)[i] == p[i]);
            } else {
                assert(escape_brackets(s)[i] == q[i - p.len()]);
            }
        }
    }
}

/// The lowercase hexadecimal MD5 digest of the UTF-8 bytes of a text.
pub uninterp spec fn md5_hex(s: Seq<char>) -> Seq<char>;

/// `md5::compute` of the text's bytes, written with `{:x}`: `md5_hex` of the
/// text, which the crate's `LowerHex` writes as 32 lowercase hex digits.
#[verifier::external_body]
fn md5_of(s: &str) -> (r: String)
    ensures
        r@ == md5_hex(s@),
        r@.len() == 32,
{
    format!("{:x}", md5::compute(s.as_bytes()))
}

/// The name of a file's entry in the freedesktop.org thumbnail cache: the
/// MD5 digest of its URI, with the `.png` extension.
pub fn thumbnail_file_name(uri: &str) -> (r: String)
    ensures
        r@ == md5_hex(uri@) + ".png"@,
{
    let mut n = md5_of(uri);
    n.append(".png");
    n
}

} // verus!
