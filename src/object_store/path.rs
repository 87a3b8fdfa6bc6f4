//! Object paths `bucket/key` and listing URIs `gcs://bucket[/prefix]`.

use vstd::prelude::*;
use crate::error::GCSError;

verus! {

/// The index of the first `/` in `s`, or `s.len()` where there is none.
pub open spec fn slash_index(s: Seq<char>) -> int
    decreases s.len(),
{
    if s.len() == 0 {
        0
    } else if s[0] == '/' {
        0
    } else {
        1 + slash_index(s.drop_first())
    }
}

/// `s` cut at its first `/`, which belongs to neither part; all of `s` and an
/// empty second part where `s` holds no `/`.
pub open spec fn split_at_slash(s: Seq<char>) -> (Seq<char>, Seq<char>) {
    let i = slash_index(s);
    if i < s.len() {
        (s.subrange(0, i), s.subrange(i + 1, s.len() as int))
    } else {
        (s, Seq::empty())
    }
}

/// No character of `s` is a `/`.
pub open spec fn slash_free(s: Seq<char>) -> bool {
    forall|j: int| 0 <= j < s.len() ==> s[j] != '/'
}

/// The scheme that a listing URI starts with.
pub open spec fn scheme() -> Seq<char> {
    seq!['g', 'c', 's', ':', '/', '/']
}

/// What a listing URI names: `Some((bucket, prefix))`, or `None` where the URI
/// does not start with the scheme or names an empty bucket.
pub open spec fn parse_uri(uri: Seq<char>) -> Option<(Seq<char>, Seq<char>)> {
    let n = scheme().len();
    if uri.len() >= n && uri.subrange(0, n as int) == scheme() {
        let parts = split_at_slash(uri.subrange(n as int, uri.len() as int));
        if parts.0.len() > 0 {
            Some(parts)
        } else {
            None
        }
    } else {
        None
    }
}

/// The first `/` of `s` stands at `i` where every character before `i` is not
/// a `/` and `i` is the end of `s` or holds one.
pub proof fn lemma_slash_index(s: Seq<char>, i: int)
    requires
        0 <= i <= s.len(),
        forall|j: int| 0 <= j < i ==> s[j] != '/',
        i == s.len() || s[i] == '/',
    ensures
        slash_index(s) == i,
    decreases i,
{
    if i > 0 {
        let t = s.drop_first();
        assert forall|j: int| 0 <= j < i - 1 implies t[j] != '/' by {
            assert(t[j] == s[j + 1]);
        }
        if i - 1 < t.len() {
            assert(t[i - 1] == s[i]);
        }
        lemma_slash_index(t, i - 1);
    }
}

/// `path` cut at its first `/`: bucket and key of an object path, or bucket and
/// prefix of what follows the scheme of a URI.
pub fn split_path(path: &str) -> (r: (String, String))
    ensures
        (r.0@, r.1@) == split_at_slash(path@),
{
    let n = path.unicode_len();
    let mut i: usize = 0;
    while i < n && path.get_char(i) != '/'
        invariant
            n == path@.len(),
            i <= n,
            forall|j: int| 0 <= j < i ==> path@[j] != '/',
        decreases n - i,
    {
        i = i + 1;
    }
    proof {
        lemma_slash_index(path@, i as int);
    }
    if i < n {
        let head = path.substring_char(0, i);
        let tail = path.substring_char(i + 1, n);
        (String::from_str(head), String::from_str(tail))
    } else {
        proof {
            assert(path@.subrange(0, n as int) =~= path@);
        }
        (String::from_str(path), String::new())
    }
}

/// A listing request: the bucket to list and the prefix that names must start with.
#[derive(Debug)]
pub struct ListRequest {
    pub bucket: String,
    pub prefix: String,
}

impl ListRequest {
    /// The bucket and prefix named by `uri`, of the form `gcs://bucket[/prefix]`.
    /// A URI that does not start with `gcs://`, or names an empty bucket, is
    /// refused with a `GCS` error.
    pub fn from_uri(uri: &str) -> (r: Result<ListRequest, GCSError>)
        ensures
            match parse_uri(uri@) {
                Some(parts) => r matches Ok(req) && req.bucket@ == parts.0 && req.prefix@
                    == parts.1,
                None => r matches Err(GCSError::GCS(_)),
            },
    {
        let lead = "gcs://";
        proof {
            reveal_strlit("gcs://");
            assert(lead@ =~= scheme());
        }
        let n = uri.unicode_len();
        let mut i: usize = 0;
        let mut matched = n >= 6;
        while matched && i < 6
            invariant
                n == uri@.len(),
                lead@ == scheme(),
                i <= 6,
                matched ==> n >= 6,
                matched ==> uri@.subrange(0, i as int) =~= scheme().subrange(0, i as int),
                !matched ==> !(uri@.len() >= 6 && uri@.subrange(0, 6) == scheme()),
            decreases 6 - i + (if matched { 1int } else { 0int }),
        {
            if uri.get_char(i) == lead.get_char(i) {
                proof {
                    assert(uri@.subrange(0, i + 1) =~= scheme().subrange(0, i + 1)) by {
                        assert(uri@.subrange(0, i as int) =~= scheme().subrange(0, i as int));
                    }
                }
                i = i + 1;
            } else {
                proof {
                    if uri@.len() >= 6 && uri@.subrange(0, 6) == scheme() {
                        assert(uri@.subrange(0, 6)[i as int] == uri@[i as int]);
                    }
                }
                matched = false;
            }
        }
        if !matched {
            proof {
                reveal_strlit("No gcs scheme found");
            }
            return Err(GCSError::GCS(String::from_str("No gcs scheme found")));
        }
        proof {
            assert(uri@.subrange(0, 6) =~= scheme());
        }
        let rest = uri.substring_char(6, n);
        let (bucket, prefix) = split_path(rest);
        if bucket.as_str().unicode_len() == 0 {
            return Err(GCSError::GCS(String::from_str("No bucket found")));
        }
        Ok(ListRequest { bucket, prefix })
    }
}

/// Parsing a URI `gcs://bucket/prefix`, with a bucket that is not empty and
/// holds no `/`, gives back that bucket and that prefix; parsing `gcs://bucket`
/// gives that bucket and an empty prefix.
pub proof fn lemma_parse_uri_parts(bucket: Seq<char>, prefix: Seq<char>)
    requires
        bucket.len() > 0,
        slash_free(bucket),
    ensures
        parse_uri(scheme() + bucket + seq!['/'] + prefix) == Some((bucket, prefix)),
        parse_uri(scheme() + bucket) == Some((bucket, Seq::<char>::empty())),
{
    let n = scheme().len() as int;
    let u = scheme() + bucket + seq!['/'] + prefix;
    let rest = u.subrange(n, u.len() as int);
    assert(u.subrange(0, n) =~= scheme());
    assert(rest =~= bucket + seq!['/'] + prefix);
    lemma_slash_index(rest, bucket.len() as int);
    assert(rest.subrange(0, bucket.len() as int) =~= bucket);
    assert(rest.subrange(bucket.len() as int + 1, rest.len() as int) =~= prefix);
    let v = scheme() + bucket;
    let rest2 = v.subrange(n, v.len() as int);
    assert(v.subrange(0, n) =~= scheme());
    assert(rest2 =~= bucket);
    lemma_slash_index(rest2, bucket.len() as int);
}

/// Every URI that does not start with `gcs://` is refused.
pub proof fn lemma_parse_uri_needs_scheme(uri: Seq<char>)
    requires
        !(uri.len() >= scheme().len() && uri.subrange(0, scheme().len() as int) == scheme()),
    ensures
        parse_uri(uri) is None,
{
}

} // verus!
