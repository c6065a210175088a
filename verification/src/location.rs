//! Parsing of storage locations.
use vstd::prelude::*;

verus! {

/// What `url::Url::parse` gives for a text: the URL's host (when it has one), its path,
/// its scheme and its port (when it is not the scheme's default), or the text of the
/// parse error.
pub uninterp spec fn url_parse_view(s: Seq<char>) -> Result<(Option<Seq<char>>, Seq<char>, Seq<char>, Option<u16>), Seq<char>>;

/// `url::Url::parse`, read back as (`host_str()`, `path()`, `scheme()`, `port()`), or the
/// error's display text. The outcome is named `url_parse_view`; nothing more is claimed
/// of it.
#[verifier::external_body]
pub(crate) fn parse_url(s: &str) -> (r: Result<(Option<String>, String, String, Option<u16>), String>)
    ensures
        match url_parse_view(s@) {
            Ok(p) => r matches Ok(x) && x.1@ == p.1 && x.2@ == p.2 && x.3 == p.3 && match (x.0, p.0) {
                (Some(a), Some(b)) => a@ == b,
                (None, None) => true,
                _ => false,
            },
            Err(e) => r matches Err(t) && t@ == e,
        },
{
    match url::Url::parse(s) {
        Ok(u) => Ok((u.host_str().map(|h| h.to_string()), u.path().to_string(), u.scheme().to_string(), u.port())),
        Err(e) => Err(e.to_string()),
    }
}

/// A path with its leading '/' characters removed.
pub open spec fn trim_leading_slashes(s: Seq<char>) -> Seq<char>
    decreases s.len(),
{
    if s.len() > 0 && s[0] == '/' {
        trim_leading_slashes(s.drop_first())
    } else {
        s
    }
}

/// Removes the leading '/' characters of a path (`trim_start_matches('/')`).
pub fn trim_start_slashes(s: &str) -> (r: String)
    ensures
        r@ == trim_leading_slashes(s@),
{
    let cs = crate::text::chars_of(s);
    let mut i: usize = 0;
    assert(cs@.subrange(0, cs@.len() as int) =~= cs@);
    while i < cs.len() && cs[i] == '/'
        invariant
            cs@ == s@,
            i <= cs@.len(),
            trim_leading_slashes(s@) == trim_leading_slashes(cs@.subrange(i as int, cs@.len() as int)),
        decreases cs@.len() - i,
    {
        let ghost t = cs@.subrange(i as int, cs@.len() as int);
        assert(t.drop_first() =~= cs@.subrange(i as int + 1, cs@.len() as int));
        i = i + 1;
    }
    let ghost t = cs@.subrange(i as int, cs@.len() as int);
    let mut out = String::new();
    let mut j: usize = i;
    while j < cs.len()
        invariant
            cs@ == s@,
            i <= j <= cs@.len(),
            out@ == cs@.subrange(i as int, j as int),
        decreases cs@.len() - j,
    {
        crate::text::push_char(&mut out, cs[j]);
        assert(out@ =~= cs@.subrange(i as int, j as int + 1));
        j = j + 1;
    }
    out
}

} // verus!
