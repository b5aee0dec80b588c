//! Validation of the configuration: the "owner/repo" repository format, with
//! the owner and name rules the hosting service enforces, and the base URL.

use vstd::prelude::*;
use vstd::string::StrSliceExecFns;
use crate::config::ReleaseNotifierConfig;
use crate::error::ReleaseNotifierError;

verus! {

/// Maximum length for a repository owner (username or organization) name,
/// as enforced by the hosting service.
pub const MAX_OWNER_LENGTH: usize = 39;

/// Maximum length for a repository name, as enforced by the hosting service.
pub const MAX_REPO_NAME_LENGTH: usize = 100;

/// Whether a character may occur in an owner name: ASCII alphanumeric or '-'.
pub open spec fn is_owner_char(c: char) -> bool {
    is_ascii_alnum(c) || c == '-'
}

/// Whether a character may occur in a repository name: ASCII alphanumeric,
/// '-', '_' or '.'.
pub open spec fn is_name_char(c: char) -> bool {
    is_ascii_alnum(c) || c == '-' || c == '_' || c == '.'
}

/// ASCII letters and digits, by code point.
pub open spec fn is_ascii_alnum(c: char) -> bool {
    (48 <= c as u32 && c as u32 <= 57)  // '0' ..= '9'
    || (65 <= c as u32 && c as u32 <= 90)  // 'A' ..= 'Z'
    || (97 <= c as u32 && c as u32 <= 122)  // 'a' ..= 'z'
}

/// A valid owner: non-empty, at most `MAX_OWNER_LENGTH` characters, made of
/// owner characters, and neither starting nor ending with a hyphen.
pub open spec fn valid_owner_spec(s: Seq<char>) -> bool {
    &&& 1 <= s.len() <= MAX_OWNER_LENGTH
    &&& s[0] != '-'
    &&& s[s.len() - 1] != '-'
    &&& forall|i: int| 0 <= i < s.len() ==> is_owner_char(#[trigger] s[i])
}

/// A valid repository name: non-empty, at most `MAX_REPO_NAME_LENGTH`
/// characters, made of name characters.
pub open spec fn valid_name_spec(s: Seq<char>) -> bool {
    &&& 1 <= s.len() <= MAX_REPO_NAME_LENGTH
    &&& forall|i: int| 0 <= i < s.len() ==> is_name_char(#[trigger] s[i])
}

/// A valid "owner/repo" identifier: a slash splits it into a valid owner and
/// a valid name. Since neither side's characters admit a slash, at most one
/// split can qualify.
pub open spec fn valid_repo_spec(s: Seq<char>) -> bool {
    exists|i: int|
        0 <= i < s.len() && s[i] == '/' && valid_owner_spec(s.take(i)) && valid_name_spec(
            s.skip(i + 1),
        )
}

/// Executable test matching [`is_ascii_alnum`].
fn is_ascii_alnum_exec(c: char) -> (b: bool)
    ensures
        b == is_ascii_alnum(c),
{
    let u = c as u32;
    (48 <= u && u <= 57) || (65 <= u && u <= 90) || (97 <= u && u <= 122)
}

/// Validates an owner name: alphanumeric or hyphens, no leading or trailing
/// hyphen, at most `MAX_OWNER_LENGTH` characters.
pub fn is_valid_owner(owner: &str) -> (r: bool)
    ensures
        r == valid_owner_spec(owner@),
{
    let n = owner.unicode_len();
    if n == 0 || n > MAX_OWNER_LENGTH {
        return false;
    }
    if owner.get_char(0) == '-' || owner.get_char(n - 1) == '-' {
        return false;
    }
    let mut i: usize = 0;
    while i < n
        invariant
            0 <= i <= n,
            n == owner@.len(),
            forall|j: int| 0 <= j < i ==> is_owner_char(#[trigger] owner@[j]),
        decreases n - i,
    {
        let c = owner.get_char(i);
        if !(is_ascii_alnum_exec(c) || c == '-') {
            return false;
        }
        i = i + 1;
    }
    true
}

/// Validates a repository name: alphanumeric, hyphens, underscores or dots,
/// at most `MAX_REPO_NAME_LENGTH` characters.
pub fn is_valid_repo_name(name: &str) -> (r: bool)
    ensures
        r == valid_name_spec(name@),
{
    let n = name.unicode_len();
    if n == 0 || n > MAX_REPO_NAME_LENGTH {
        return false;
    }
    let mut i: usize = 0;
    while i < n
        invariant
            0 <= i <= n,
            n == name@.len(),
            forall|j: int| 0 <= j < i ==> is_name_char(#[trigger] name@[j]),
        decreases n - i,
    {
        let c = name.get_char(i);
        if !(is_ascii_alnum_exec(c) || c == '-' || c == '_' || c == '.') {
            return false;
        }
        i = i + 1;
    }
    true
}

/// Validates that a repo string is in "owner/repo" format: split at the first
/// slash, the owner and the name must each be valid, and the name must hold
/// no further slash.
pub fn is_valid_repo_format(repo: &str) -> (r: bool)
    ensures
        r == valid_repo_spec(repo@),
{
    let n = repo.unicode_len();
    let mut i: usize = 0;
    while i < n
        invariant
            0 <= i <= n,
            n == repo@.len(),
            forall|j: int| 0 <= j < i ==> repo@[j] != '/',
        decreases n - i,
    {
        if repo.get_char(i) == '/' {
            let owner = repo.substring_char(0, i);
            let name = repo.substring_char(i + 1, n);
            proof {
                assert(owner@ =~= repo@.take(i as int));
                assert(name@ =~= repo@.skip(i + 1));
            }
            let ok = is_valid_owner(owner) && is_valid_repo_name(name);
            proof {
                if !ok {
                    assert forall|k: int|
                        0 <= k < repo@.len() && repo@[k] == '/' implies !(valid_owner_spec(
                        repo@.take(k),
                    ) && valid_name_spec(repo@.skip(k + 1))) by {
                        if k < i {
                            assert(repo@[k] != '/');
                        } else if k > i {
                            // the owner side of a later split holds the slash at i
                            assert(repo@.take(k)[i as int] == '/');
                            assert(!is_owner_char('/'));
                        }
                    }
                } else {
                    assert(valid_owner_spec(repo@.take(i as int)) && valid_name_spec(
                        repo@.skip(i + 1),
                    ));
                }
            }
            return ok;
        }
        i = i + 1;
    }
    proof {
        assert forall|k: int| 0 <= k < repo@.len() implies repo@[k] != '/' by {}
    }
    false
}

/// A name for what `url::Url::parse` accepts: whether a string parses as an
/// absolute URL depends on the string alone.
pub uninterp spec fn url_parses(s: Seq<char>) -> bool;

/// Relies on url::Url::parse: a pure parser whose verdict is a function of
/// the input string.
#[verifier::external_body]
fn base_url_accepted(s: &str) -> (r: bool)
    ensures
        r == url_parses(s@),
{
    url::Url::parse(s).is_ok()
}

/// Validates the repository format and the base URL of a configuration,
/// reporting the first failure; the cache file path is not examined here.
pub fn validate_config(config: &ReleaseNotifierConfig) -> (r: Result<(), ReleaseNotifierError>)
    ensures
        r is Ok <==> valid_repo_spec(config.repo@) && url_parses(config.base_url@),
        !valid_repo_spec(config.repo@) ==> (r matches Err(ReleaseNotifierError::InvalidRepo(s))
            && s@ == config.repo@),
        valid_repo_spec(config.repo@) && !url_parses(config.base_url@) ==> (r matches Err(
            ReleaseNotifierError::InvalidBaseUrl(s),
        ) && s@ == config.base_url@),
{
    if !is_valid_repo_format(config.repo.as_str()) {
        return Result::Err(ReleaseNotifierError::InvalidRepo(config.repo.clone()));
    }
    if !base_url_accepted(config.base_url.as_str()) {
        return Result::Err(ReleaseNotifierError::InvalidBaseUrl(config.base_url.clone()));
    }
    Result::Ok(())
}

} // verus!
