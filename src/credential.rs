use vstd::prelude::*;

use crate::text::same_text;

verus! {

/// The start of the profile line that holds the key.
pub const KEY_LINE_PREFIX: &'static str = "export ANTHROPIC_API_KEY=";

/// Why no credential could be had.
#[derive(Debug, PartialEq, Eq)]
pub enum CredentialError {
    /// The home directory is not known.
    MissingHome,
    /// The profile file could not be read.
    ProfileUnreadable { path: String, message: String },
    /// No line of the profile sets the key.
    KeyNotFound,
    /// The line that sets the key gives it no value.
    MalformedLine,
}

/// A line of `s` starts at `a`.
pub open spec fn is_line_start(s: Seq<char>, a: int) -> bool {
    0 <= a < s.len() && (a == 0 || s[a - 1] == '\n')
}

/// A line of `s` that sets the key starts at `a`.
pub open spec fn is_key_line(s: Seq<char>, a: int) -> bool {
    &&& is_line_start(s, a)
    &&& a + KEY_LINE_PREFIX@.len() <= s.len()
    &&& s.subrange(a, a + KEY_LINE_PREFIX@.len() as int) == KEY_LINE_PREFIX@
}

/// Position `p` of `s` ends a line: the end of the text, a line break, or a
/// carriage return right before a line break.
pub open spec fn line_ends_at(s: Seq<char>, p: int) -> bool {
    ||| p == s.len()
    ||| 0 <= p < s.len() && s[p] == '\n'
    ||| 0 <= p && p + 1 < s.len() && s[p] == '\r' && s[p + 1] == '\n'
}

/// A double-quoted value opens at `open` and closes at `close`, holds no
/// quote and no line break, and the line ends right after it.
pub open spec fn is_quoted_value(s: Seq<char>, open: int, close: int) -> bool {
    &&& 0 <= open < close < s.len()
    &&& s[open] == '"'
    &&& s[close] == '"'
    &&& forall|t: int| open < t < close ==> #[trigger] s[t] != '"' && s[t] != '\n'
    &&& line_ends_at(s, close + 1)
}

/// The first line of `s` that sets the key starts at `a`.
pub open spec fn is_first_key_line(s: Seq<char>, a: int) -> bool {
    &&& is_key_line(s, a)
    &&& forall|b: int| 0 <= b < a ==> !#[trigger] is_key_line(s, b)
}

/// The first key line starts at `a` and gives `key` between double quotes.
pub open spec fn is_key_value_at(profile: Seq<char>, a: int, key: Seq<char>) -> bool {
    let open = a + KEY_LINE_PREFIX@.len();
    &&& is_first_key_line(profile, a)
    &&& exists|close: int|
        #[trigger] is_quoted_value(profile, open, close) && key == profile.subrange(
            open + 1,
            close,
        )
}

/// The first key line starts at `a` and does not have the quoted form.
pub open spec fn is_malformed_at(profile: Seq<char>, a: int) -> bool {
    let open = a + KEY_LINE_PREFIX@.len();
    &&& is_first_key_line(profile, a)
    &&& forall|close: int| !#[trigger] is_quoted_value(profile, open, close)
}

pub open spec fn has_key_line(profile: Seq<char>) -> bool {
    exists|a: int| #[trigger] is_key_line(profile, a)
}

/// Finds the key in the text of a shell profile. The first line that starts
/// with `export ANTHROPIC_API_KEY=` gives it; the rest of that line must be a
/// double-quoted value, which is the key.
pub fn api_key_from_profile(profile: &str) -> (r: Result<String, CredentialError>)
    ensures
        (r matches Err(CredentialError::KeyNotFound)) <==> !has_key_line(profile@),
        r matches Ok(k) ==> exists|a: int| is_key_value_at(profile@, a, k@),
        (r matches Err(CredentialError::MalformedLine)) ==> exists|a: int|
            is_malformed_at(profile@, a),
        r is Ok || (r matches Err(CredentialError::KeyNotFound)) || (r matches Err(
            CredentialError::MalformedLine,
        )),
{
    proof {
        reveal_strlit("export ANTHROPIC_API_KEY=");
    }
    let s = profile;
    let n = s.unicode_len();
    let plen = KEY_LINE_PREFIX.unicode_len();
    let mut a: usize = 0;
    while a < n
        invariant
            n == s@.len(),
            s@ == profile@,
            plen == KEY_LINE_PREFIX@.len(),
            a <= n,
            a == 0 || s@[a - 1] == '\n',
            forall|b: int| 0 <= b < a ==> !#[trigger] is_key_line(s@, b),
        decreases n - a,
    {
        if plen <= n - a && same_text(s.substring_char(a, a + plen), KEY_LINE_PREFIX) {
            assert(is_key_line(s@, a as int));
            assert(has_key_line(s@));
            return key_value_from(s, a);
        }
        assert(!is_key_line(s@, a as int));
        let mut e: usize = a;
        while e < n && s.get_char(e) != '\n'
            invariant
                n == s@.len(),
                a <= e <= n,
                forall|t: int| a <= t < e ==> #[trigger] s@[t] != '\n',
            decreases n - e,
        {
            e = e + 1;
        }
        assert forall|b: int| 0 <= b < e + 1 implies !#[trigger] is_key_line(s@, b) by {
            if a < b && b <= e {
                assert(s@[b - 1] != '\n');
            }
        }
        if e == n {
            assert forall|b: int| !#[trigger] is_key_line(s@, b) by {
                if 0 <= b < e + 1 {
                    assert(!is_key_line(s@, b));
                }
            }
            assert(!has_key_line(s@));
            return Err(CredentialError::KeyNotFound);
        }
        a = e + 1;
    }
    assert forall|b: int| !#[trigger] is_key_line(s@, b) by {
        if 0 <= b < a {
            assert(!is_key_line(s@, b));
        }
    }
    assert(!has_key_line(s@));
    Err(CredentialError::KeyNotFound)
}

/// The value given by the key line that starts at `a`.
fn key_value_from(s: &str, a: usize) -> (r: Result<String, CredentialError>)
    requires
        is_first_key_line(s@, a as int),
    ensures
        r matches Ok(k) ==> is_key_value_at(s@, a as int, k@),
        r is Err ==> (r matches Err(CredentialError::MalformedLine)) && is_malformed_at(
            s@,
            a as int,
        ),
{
    let n = s.unicode_len();
    let open = a + KEY_LINE_PREFIX.unicode_len();
    if open >= n || s.get_char(open) != '"' {
        assert forall|c: int| !#[trigger] is_quoted_value(s@, open as int, c) by {}
        return Err(CredentialError::MalformedLine);
    }
    let mut close: usize = open + 1;
    while close < n && s.get_char(close) != '"' && s.get_char(close) != '\n'
        invariant
            n == s@.len(),
            open < close <= n,
            forall|t: int| open < t < close ==> #[trigger] s@[t] != '"' && s@[t] != '\n',
        decreases n - close,
    {
        close = close + 1;
    }
    if close == n || s.get_char(close) == '\n' {
        assert forall|c: int| !#[trigger] is_quoted_value(s@, open as int, c) by {
            if is_quoted_value(s@, open as int, c) && c > close {
                assert(s@[close as int] != '\n');
            }
        }
        return Err(CredentialError::MalformedLine);
    }
    let p = close + 1;
    let ends = p == n || s.get_char(p) == '\n' || (s.get_char(p) == '\r' && p + 1 < n
        && s.get_char(p + 1) == '\n');
    if !ends {
        assert forall|c: int| !#[trigger] is_quoted_value(s@, open as int, c) by {
            if is_quoted_value(s@, open as int, c) && c > close {
                assert(s@[close as int] != '"');
            }
        }
        return Err(CredentialError::MalformedLine);
    }
    let key = s.substring_char(open + 1, close);
    assert(is_quoted_value(s@, open as int, close as int));
    Ok(String::from_str(key))
}

} // verus!
