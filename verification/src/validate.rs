//! Field validation for create requests: a present email address and
//! URLs of an accepted shape.
//!
//! The accepted URL shape is: `http://` or `https://`, then one character
//! that is neither whitespace nor one of `/`, `$`, `.`, `?`, `#`, then one
//! character other than a line feed, then any run of non-whitespace
//! characters to the end.

use vstd::prelude::*;
use vstd::string::StrSliceExecFns;
use vstd::string::StringExecFns;
use crate::schemas::CreateUrlRequest;

verus! {

/// Unicode whitespace, the class the URL shape check excludes.
pub open spec fn is_space_char(c: char) -> bool {
    let u = c as int;
    ||| (0x09 <= u && u <= 0x0D)
    ||| u == 0x20
    ||| u == 0x85
    ||| u == 0xA0
    ||| u == 0x1680
    ||| (0x2000 <= u && u <= 0x200A)
    ||| u == 0x2028
    ||| u == 0x2029
    ||| u == 0x202F
    ||| u == 0x205F
    ||| u == 0x3000
}

/// `s` starts with `http://`.
pub open spec fn http_prefix(s: Seq<char>) -> bool {
    s.len() >= 7 && s[0] == 'h' && s[1] == 't' && s[2] == 't' && s[3] == 'p' && s[4] == ':'
        && s[5] == '/' && s[6] == '/'
}

/// `s` starts with `https://`.
pub open spec fn https_prefix(s: Seq<char>) -> bool {
    s.len() >= 8 && s[0] == 'h' && s[1] == 't' && s[2] == 't' && s[3] == 'p' && s[4] == 's'
        && s[5] == ':' && s[6] == '/' && s[7] == '/'
}

/// The part of a URL after its scheme: at least two characters, the first
/// neither whitespace nor `/`, `$`, `.`, `?`, `#`, the second no line feed,
/// and nothing from the third on whitespace.
pub open spec fn url_tail_ok(t: Seq<char>) -> bool {
    &&& t.len() >= 2
    &&& !is_space_char(t[0])
    &&& t[0] != '/' && t[0] != '$' && t[0] != '.' && t[0] != '?' && t[0] != '#'
    &&& t[1] != '\n'
    &&& forall|i: int| 2 <= i < t.len() ==> !is_space_char(t[i])
}

/// The URL shape create requests must satisfy.
pub open spec fn valid_url_spec(s: Seq<char>) -> bool {
    ||| (http_prefix(s) && url_tail_ok(s.skip(7)))
    ||| (https_prefix(s) && url_tail_ok(s.skip(8)))
}

/// Message reported for a missing email address.
pub open spec fn email_missing_msg() -> Seq<char> {
    "이메일이 없습니다."@
}

/// Message reported for a URL of the wrong shape.
pub open spec fn url_shape_msg() -> Seq<char> {
    "URL 형태가 올바르지 않습니다."@
}

/// Whether `c` is Unicode whitespace, computed.
fn is_space_exec(c: char) -> (r: bool)
    ensures
        r == is_space_char(c),
{
    let u = c as u32;
    (0x09 <= u && u <= 0x0D) || u == 0x20 || u == 0x85 || u == 0xA0 || u == 0x1680 || (0x2000 <= u
        && u <= 0x200A) || u == 0x2028 || u == 0x2029 || u == 0x202F || u == 0x205F || u == 0x3000
}

/// Decides whether `url` has the accepted URL shape.
#[verifier::loop_isolation(false)]
fn url_shape_ok(url: &str) -> (r: bool)
    ensures
        r == valid_url_spec(url@),
{
    let n = url.unicode_len();
    if n < 7 {
        return false;
    }
    if !(url.get_char(0) == 'h' && url.get_char(1) == 't' && url.get_char(2) == 't' && url.get_char(
        3,
    ) == 'p') {
        return false;
    }
    let k: usize = if url.get_char(4) == ':' && url.get_char(5) == '/' && url.get_char(6) == '/' {
        7
    } else if n >= 8 && url.get_char(4) == 's' && url.get_char(5) == ':' && url.get_char(6) == '/'
        && url.get_char(7) == '/' {
        8
    } else {
        return false;
    };
    if n < k + 2 {
        return false;
    }
    let first = url.get_char(k);
    if is_space_exec(first) || first == '/' || first == '$' || first == '.' || first == '?' || first
        == '#' {
        proof {
            assert(url@.skip(k as int)[0] == url@[k as int]);
        }
        return false;
    }
    if url.get_char(k + 1) == '\n' {
        proof {
            assert(url@.skip(k as int)[1] == url@[k as int + 1]);
        }
        return false;
    }
    let mut i: usize = k + 2;
    while i < n
        invariant
            k + 2 <= i <= n,
            n == url@.len(),
            k == 7 || k == 8,
            forall|j: int| k + 2 <= j < i ==> !is_space_char(url@[j]),
        decreases n - i,
    {
        if is_space_exec(url.get_char(i)) {
            proof {
                assert(url@.skip(k as int)[i - k] == url@[i as int]);
            }
            return false;
        }
        i = i + 1;
    }
    proof {
        let t = url@.skip(k as int);
        assert(t[0] == url@[k as int]);
        assert(t[1] == url@[k as int + 1]);
        assert forall|j: int| 2 <= j < t.len() implies !is_space_char(t[j]) by {
            assert(t[j] == url@[k + j]);
        }
    }
    true
}

/// Accepts any non-empty email address; reports the missing-email message
/// otherwise.
pub fn validate_email(email: &str) -> (r: Result<(), String>)
    ensures
        match r {
            Ok(_) => email@.len() > 0,
            Err(m) => email@.len() == 0 && m@ == email_missing_msg(),
        },
{
    if email.is_empty() {
        Err(String::from_str("이메일이 없습니다."))
    } else {
        Ok(())
    }
}

/// Accepts exactly the URLs of the accepted shape.
pub fn validate_url(url: &str) -> (r: Result<(), String>)
    ensures
        match r {
            Ok(_) => valid_url_spec(url@),
            Err(m) => !valid_url_spec(url@) && m@ == url_shape_msg(),
        },
{
    if url_shape_ok(url) {
        Ok(())
    } else {
        Err(String::from_str("URL 형태가 올바르지 않습니다."))
    }
}

/// An empty webhook URL means "no webhook" and passes; anything else must
/// have the accepted URL shape.
pub fn validate_webhook_url(url: &str) -> (r: Result<(), String>)
    ensures
        match r {
            Ok(_) => url@.len() == 0 || valid_url_spec(url@),
            Err(m) => url@.len() > 0 && !valid_url_spec(url@) && m@ == url_shape_msg(),
        },
{
    if url.is_empty() {
        Ok(())
    } else {
        validate_url(url)
    }
}

/// An empty fallback URL passes; anything else must have the accepted
/// URL shape.
pub fn validate_fallback_url(url: &str) -> (r: Result<(), String>)
    ensures
        match r {
            Ok(_) => url@.len() == 0 || valid_url_spec(url@),
            Err(m) => url@.len() > 0 && !valid_url_spec(url@) && m@ == url_shape_msg(),
        },
{
    if url.is_empty() {
        Ok(())
    } else {
        validate_url(url)
    }
}

/// The first validation failure a create request runs into, if any: a
/// missing email, then a default fallback URL of the wrong shape, then a
/// non-empty webhook URL of the wrong shape.
pub open spec fn validate_request_spec(req: CreateUrlRequest) -> Option<Seq<char>> {
    if req.email@.len() == 0 {
        Some(email_missing_msg())
    } else if !valid_url_spec(req.default_fallback_url@) {
        Some(url_shape_msg())
    } else if req.webhook_url@.len() > 0 && !valid_url_spec(req.webhook_url@) {
        Some(url_shape_msg())
    } else {
        None
    }
}

/// Runs every field validator of a create request in order and reports the
/// first failure.
pub fn validate_request(req: &CreateUrlRequest) -> (r: Result<(), String>)
    ensures
        match r {
            Ok(_) => validate_request_spec(*req) is None,
            Err(m) => validate_request_spec(*req) == Some(m@),
        },
{
    if let Err(m) = validate_email(req.email.as_str()) {
        return Err(m);
    }
    if let Err(m) = validate_url(req.default_fallback_url.as_str()) {
        return Err(m);
    }
    if let Err(m) = validate_webhook_url(req.webhook_url.as_str()) {
        return Err(m);
    }
    if let Err(m) = validate_fallback_url(req.default_fallback_url.as_str()) {
        return Err(m);
    }
    Ok(())
}

} // verus!
