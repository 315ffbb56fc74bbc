//! The build profile: the generated identity of one build run, made of an
//! isolated build-user name and a build-root path.  Both are derived from
//! the configured system name and version plus a random token, after
//! stripping characters that are unsafe in file-system paths and user
//! names.

use vstd::prelude::*;
use crate::config::System;

verus! {

/// The identity of one build run.  Written once by the configuration step
/// and read back unchanged by every later step.
pub struct Profile {
    pub user_name: String,
    pub build_dir: String,
}

/// Characters that are stripped from a string before it is used as part of
/// a user name or a directory name.
pub open spec fn disallowed_char(c: char) -> bool {
    c == '?' || c == '/' || c == ':' || c == '!' || c == '~' || c == '@'
        || c == '#' || c == '$' || c == '%' || c == '^' || c == '&' || c == '*'
        || c == '(' || c == ')' || c == '+' || c == '{' || c == '}' || c == '['
        || c == ']' || c == '\'' || c == '"' || c == '<' || c == '>' || c == '\\'
        || c == ',' || c == '.'
}

/// A character that may appear in a generated user name or in the variable
/// part of a generated build-root path: not stripped, and not a space.
pub open spec fn safe_char(c: char) -> bool {
    !disallowed_char(c) && c != ' '
}

/// What sanitising leaves of a string: disallowed characters are dropped
/// and spaces become underscores; everything else is kept in order.
pub open spec fn spec_sanitized(s: Seq<char>) -> Seq<char>
    decreases s.len(),
{
    if s.len() == 0 {
        Seq::<char>::empty()
    } else if disallowed_char(s[0]) {
        spec_sanitized(s.drop_first())
    } else if s[0] == ' ' {
        seq!['_'] + spec_sanitized(s.drop_first())
    } else {
        seq![s[0]] + spec_sanitized(s.drop_first())
    }
}

/// Every character of a sanitised string is safe: not one of the stripped
/// set, and not a space.
pub proof fn lemma_sanitized_is_safe(s: Seq<char>)
    ensures
        forall|i: int| 0 <= i < spec_sanitized(s).len()
            ==> safe_char(#[trigger] spec_sanitized(s)[i]),
    decreases s.len(),
{
    if s.len() == 0 {
    } else {
        lemma_sanitized_is_safe(s.drop_first());
        let rest = spec_sanitized(s.drop_first());
        let whole = spec_sanitized(s);
        assert forall|i: int| 0 <= i < whole.len() implies safe_char(whole[i]) by {
            if disallowed_char(s[0]) {
                assert(whole[i] == rest[i]);
            } else if s[0] == ' ' {
                if i == 0 {
                    assert(whole[i] == '_');
                } else {
                    assert(whole[i] == rest[i - 1]);
                }
            } else {
                if i == 0 {
                    assert(whole[i] == s[0]);
                } else {
                    assert(whole[i] == rest[i - 1]);
                }
            }
        }
    }
}

/// Strips characters unsafe for file-system or user-name use and replaces
/// spaces with underscores.
pub fn str_sanitizer(s: &str) -> (r: String)
    ensures
        r@ == spec_sanitized(s@),
{
    let n: usize = s.unicode_len();
    let mut out = String::new();
    let mut i: usize = 0;
    proof {
        assert(s@.subrange(0, n as int) =~= s@);
        assert(out@ + spec_sanitized(s@) =~= spec_sanitized(s@));
    }
    while i < n
        invariant
            n == s@.len(),
            0 <= i <= n,
            out@ + spec_sanitized(s@.subrange(i as int, n as int)) == spec_sanitized(s@),
        decreases n - i,
    {
        let c = s.get_char(i);
        proof {
            assert(s@.subrange(i as int, n as int).drop_first()
                =~= s@.subrange(i + 1, n as int));
        }
        let ghost prev = out@;
        if c == '?' || c == '/' || c == ':' || c == '!' || c == '~' || c == '@'
            || c == '#' || c == '$' || c == '%' || c == '^' || c == '&' || c == '*'
            || c == '(' || c == ')' || c == '+' || c == '{' || c == '}' || c == '['
            || c == ']' || c == '\'' || c == '"' || c == '<' || c == '>' || c == '\\'
            || c == ',' || c == '.'
        {
            // stripped
        } else if c == ' ' {
            out.append("_");
            proof {
                reveal_strlit("_");
                assert(out@ + spec_sanitized(s@.subrange(i + 1, n as int))
                    =~= prev + spec_sanitized(s@.subrange(i as int, n as int)));
            }
        } else {
            let one = s.substring_char(i, i + 1);
            out.append(one);
            proof {
                assert(one@ =~= seq![s@[i as int]]);
                assert(out@ + spec_sanitized(s@.subrange(i + 1, n as int))
                    =~= prev + spec_sanitized(s@.subrange(i as int, n as int)));
            }
        }
        i = i + 1;
    }
    proof {
        assert(s@.subrange(n as int, n as int) =~= Seq::<char>::empty());
        assert(out@ =~= out@ + spec_sanitized(s@.subrange(n as int, n as int)));
    }
    out
}

/// A lowercase hexadecimal digit, as the random run token is made of.
pub open spec fn lower_hex_char(c: char) -> bool {
    (48 <= c as u32 && c as u32 <= 57) || (97 <= c as u32 && c as u32 <= 102)
}

/// The shape of a run token: 32 lowercase hexadecimal digits.
pub open spec fn token_shape(t: Seq<char>) -> bool {
    t.len() == 32 && forall|i: int| 0 <= i < t.len() ==> lower_hex_char(#[trigger] t[i])
}

/// Relies on `uuid::Uuid::new_v4` and `uuid::fmt::Simple`: a fresh random
/// identifier, formatted without hyphens as exactly 32 lowercase
/// hexadecimal digits.  Nothing is promised about which digits come back.
#[verifier::external_body]
fn fresh_token() -> (r: String)
    ensures
        token_shape(r@),
{
    let mut buf = [0u8; 32];
    let s: &str = uuid::Uuid::new_v4().simple().encode_lower(&mut buf);
    s.to_owned()
}

/// The generated user name for a run with token `t`.
pub open spec fn spec_user_name(t: Seq<char>) -> Seq<char> {
    "lfa_"@ + t
}

/// The variable tail of the generated build-root path: sanitised system
/// name and version and the run token, joined with hyphens.
pub open spec fn spec_build_dir_tail(name: Seq<char>, version: Seq<char>, t: Seq<char>) -> Seq<char> {
    spec_sanitized(name) + "-"@ + spec_sanitized(version) + "-"@ + t
}

/// The generated build-root path for a run with token `t`.
pub open spec fn spec_build_dir(name: Seq<char>, version: Seq<char>, t: Seq<char>) -> Seq<char> {
    "/mnt/"@ + spec_build_dir_tail(name, version, t)
}

/// The generated user name and the tail of the generated build root hold
/// only safe characters: none of the stripped set and no spaces.  (The
/// build root as a whole starts with the fixed absolute prefix `/mnt/`,
/// whose slashes are the one necessary exception.)
pub proof fn lemma_generated_names_safe(name: Seq<char>, version: Seq<char>, t: Seq<char>)
    requires
        token_shape(t),
    ensures
        forall|i: int| 0 <= i < spec_user_name(t).len()
            ==> safe_char(#[trigger] spec_user_name(t)[i]),
        forall|i: int| 0 <= i < spec_build_dir_tail(name, version, t).len()
            ==> safe_char(#[trigger] spec_build_dir_tail(name, version, t)[i]),
{
    reveal_strlit("lfa_");
    reveal_strlit("-");
    lemma_sanitized_is_safe(name);
    lemma_sanitized_is_safe(version);
    assert forall|i: int| 0 <= i < spec_user_name(t).len()
        implies safe_char(#[trigger] spec_user_name(t)[i]) by {
        if i >= 4 {
            assert(spec_user_name(t)[i] == t[i - 4]);
        }
    }
    assert forall|i: int| 0 <= i < spec_build_dir_tail(name, version, t).len()
        implies safe_char(#[trigger] spec_build_dir_tail(name, version, t)[i]) by {
        let a = spec_sanitized(name);
        let b = spec_sanitized(version);
        let tail = spec_build_dir_tail(name, version, t);
        if i < a.len() {
            assert(tail[i] == a[i]);
        } else if i == a.len() {
            assert(tail[i] == '-');
        } else if i < a.len() + 1 + b.len() {
            assert(tail[i] == b[i - (a.len() + 1)]);
        } else if i == a.len() + 1 + b.len() {
            assert(tail[i] == '-');
        } else {
            assert(tail[i] == t[i - (a.len() + 1 + b.len() + 1)]);
        }
    }
}

impl Profile {
    /// Builds the profile that a given run token yields for a system: the
    /// user name is `lfa_` plus the token, and the build root is an
    /// absolute path under `/mnt` naming the sanitised system name and
    /// version and the token.
    pub fn new_with_token(sys: &System, token: &str) -> (r: Profile)
        ensures
            r.user_name@ == spec_user_name(token@),
            r.build_dir@ == spec_build_dir(sys.name@, sys.version@, token@),
    {
        let mut user_name = String::from_str("lfa_");
        user_name.append(token);
        let mut build_dir = String::from_str("/mnt/");
        let clean_name = str_sanitizer(sys.name.as_str());
        let clean_version = str_sanitizer(sys.version.as_str());
        build_dir.append(clean_name.as_str());
        build_dir.append("-");
        build_dir.append(clean_version.as_str());
        build_dir.append("-");
        build_dir.append(token);
        Profile { user_name, build_dir }
    }

    /// Generates the profile for a fresh run: draws a random token and
    /// derives user name and build root from it.  Whatever token comes
    /// back, the two fields have the generated shape.
    pub fn new(sys: &System) -> (r: Profile)
        ensures
            exists|t: Seq<char>|
                #[trigger] token_shape(t)
                    && r.user_name@ == spec_user_name(t)
                    && r.build_dir@ == spec_build_dir(sys.name@, sys.version@, t),
    {
        let token = fresh_token();
        let r = Profile::new_with_token(sys, token.as_str());
        proof {
            assert(token_shape(token@)
                && r.user_name@ == spec_user_name(token@)
                && r.build_dir@ == spec_build_dir(sys.name@, sys.version@, token@));
        }
        r
    }

    /// The environment mapping this profile contributes to build-stage
    /// processes: the build-user name and the build directory.
    pub fn to_env_map(&self) -> (r: Vec<(String, String)>)
        ensures
            r@.len() == 2,
            r@[0].0@ == "ALFA_USER"@,
            r@[0].1@ == self.user_name@,
            r@[1].0@ == "ALFA_BUILD_DIR"@,
            r@[1].1@ == self.build_dir@,
    {
        let mut map: Vec<(String, String)> = Vec::new();
        map.push((String::from_str("ALFA_USER"), self.user_name.clone()));
        map.push((String::from_str("ALFA_BUILD_DIR"), self.build_dir.clone()));
        map
    }
}

} // verus!
