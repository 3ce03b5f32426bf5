//! Choosing the snippet storage from the `SNIPPETS_APP_STORAGE` setting,
//! written `KIND:PATH` with `KIND` one of `JSON`, `SQLITE` or `SQLITE3` in
//! any case.

use crate::text::{chars_of, law_trim_keeps_visible_ends, same_text, string_of, trim, trim_str};
use vstd::prelude::*;

verus! {

/// Where snippets are kept: a JSON file or an SQLite database, at a path.
#[derive(Debug, Clone)]
pub enum Provider {
    Json(String),
    Sqlite(String),
}

/// The errors of choosing a storage.
#[derive(Debug, Clone)]
pub enum AppError {
    /// The setting names a kind of storage that does not exist; the text
    /// says which and repeats the setting.
    InvalidProvider(String),
}

/// What `str::to_uppercase` gives for `s`. Upper-casing follows the
/// Unicode `Uppercase` mapping, which can change the length of the text, and
/// is not written out here.
pub uninterp spec fn uppercase_of(s: Seq<char>) -> Seq<char>;

/// `str::to_uppercase`. Claimed: the result is `uppercase_of` the input,
/// that is, a function of the input alone.
#[verifier::external_body]
fn to_uppercase(s: &str) -> (r: String)
    ensures
        r@ == uppercase_of(s@),
{
    s.to_uppercase()
}

/// The setting used when none is given.
pub open spec fn default_setting() -> Seq<char> {
    "JSON:snips/snippets.json"@
}

/// `i` is the position of the first `:` in `s`.
pub open spec fn first_colon_at(s: Seq<char>, i: int) -> bool {
    &&& 0 <= i < s.len()
    &&& s[i] == ':'
    &&& forall|j: int| 0 <= j < i ==> s[j] != ':'
}

/// The kind and the path of a setting, each trimmed: the text before and
/// after its first `:`. Without a `:`, the kind `JSON` and the path
/// `snips/snippets.json`.
pub open spec fn setting_parts(raw: Seq<char>) -> (Seq<char>, Seq<char>) {
    if exists|i: int| first_colon_at(raw, i) {
        let i = choose|i: int| first_colon_at(raw, i);
        (trim(raw.take(i)), trim(raw.skip(i + 1)))
    } else {
        ("JSON"@, "snips/snippets.json"@)
    }
}

/// A setting `KIND:PATH` splits at its first `:`: the path is the text
/// after it with only white space trimmed from its ends, so that a path
/// that starts and ends with visible ASCII characters, such as
/// `./snips/snippets.json`, is kept exactly.
pub proof fn law_setting_path_is_after_first_colon(kind: Seq<char>, path: Seq<char>)
    requires
        forall|j: int| 0 <= j < kind.len() ==> #[trigger] kind[j] != ':',
    ensures
        setting_parts(kind + ":"@ + path) == (trim(kind), trim(path)),
        path.len() > 0 && 0x21 <= (path[0] as u32) <= 0x7e && 0x21 <= (path[path.len() - 1] as u32)
            <= 0x7e ==> setting_parts(kind + ":"@ + path).1 == path,
{
    reveal_strlit(":");
    let raw = kind + ":"@ + path;
    let k = kind.len() as int;
    assert(raw[k] == ':');
    assert forall|j: int| 0 <= j < k implies raw[j] != ':' by {
        assert(raw[j] == kind[j]);
    }
    assert(first_colon_at(raw, k));
    let i = choose|i: int| first_colon_at(raw, i);
    if i < k {
        assert(raw[i] == kind[i]);
    } else if i > k {
        assert(raw[k] == ':');
    }
    assert(raw.take(k) =~= kind);
    assert(raw.skip(k + 1) =~= path);
    if path.len() > 0 && 0x21 <= (path[0] as u32) <= 0x7e && 0x21 <= (path[path.len() - 1] as u32)
        <= 0x7e {
        law_trim_keeps_visible_ends(path);
    }
}

/// The message for a kind that does not exist.
pub open spec fn invalid_kind_message(kind: Seq<char>, raw: Seq<char>) -> Seq<char> {
    "unknown kind '"@ + kind + "', expected JSON or SQLITE; raw="@ + raw
}

/// The kinds of storage that exist, upper case.
pub open spec fn known_kind(kind: Seq<char>) -> bool {
    kind == "JSON"@ || kind == "SQLITE"@ || kind == "SQLITE3"@
}

/// The storage that an upper-cased kind and a path give; `raw` is the whole
/// setting, repeated in the error.
pub fn provider_for_kind(kind: &str, path: &str, raw: &str) -> (r: Result<Provider, AppError>)
    ensures
        match r {
            Ok(Provider::Json(p)) => kind@ == "JSON"@ && p@ == path@,
            Ok(Provider::Sqlite(p)) => (kind@ == "SQLITE"@ || kind@ == "SQLITE3"@) && p@ == path@,
            Err(AppError::InvalidProvider(m)) => !known_kind(kind@) && m@ == invalid_kind_message(
                kind@,
                raw@,
            ),
        },
{
    if same_text(kind, "SQLITE") || same_text(kind, "SQLITE3") {
        Ok(Provider::Sqlite(String::from_str(path)))
    } else if same_text(kind, "JSON") {
        Ok(Provider::Json(String::from_str(path)))
    } else {
        let mut m = String::from_str("unknown kind '");
        m.append(kind);
        m.append("', expected JSON or SQLITE; raw=");
        m.append(raw);
        Err(AppError::InvalidProvider(m))
    }
}

/// The kind and the path of a setting, each trimmed (see `setting_parts`).
pub fn split_setting(raw: &str) -> (r: (String, String))
    ensures
        (r.0@, r.1@) == setting_parts(raw@),
{
    let v = chars_of(raw);
    let n = v.len();
    let mut i: usize = 0;
    while i < n && v[i] != ':'
        invariant
            v@ == raw@,
            n == v@.len(),
            i <= n,
            forall|j: int| 0 <= j < i ==> raw@[j] != ':',
        decreases n - i,
    {
        i = i + 1;
    }
    if i < n {
        proof {
            assert(first_colon_at(raw@, i as int));
            assert forall|k: int| first_colon_at(raw@, k) implies k == i by {
                if k < i {
                    assert(raw@[k] != ':');
                } else if k > i {
                    assert(raw@[i as int] == ':');
                }
            }
            assert(v@.subrange(0, i as int) =~= raw@.take(i as int));
            assert(v@.subrange(i + 1, n as int) =~= raw@.skip(i + 1));
        }
        let kind = string_of(&v, 0, i);
        let path = string_of(&v, i + 1, n);
        (trim_str(kind.as_str()), trim_str(path.as_str()))
    } else {
        proof {
            assert forall|k: int| !first_colon_at(raw@, k) by {
                if 0 <= k < raw@.len() {
                    assert(raw@[k] != ':');
                }
            }
        }
        (String::from_str("JSON"), String::from_str("snips/snippets.json"))
    }
}

/// Whether `r` is what the `SNIPPETS_APP_STORAGE` setting `storage_var`
/// (`None` where it is not set) asks for: kind and path are split at the
/// first `:` and trimmed, and the kind is compared upper-cased.
pub open spec fn provider_for_setting(storage_var: Option<Seq<char>>, r: Result<Provider, AppError>) -> bool {
    let raw = match storage_var {
        Some(s) => s,
        None => default_setting(),
    };
    let (kind, path) = setting_parts(raw);
    let upper = uppercase_of(kind);
    match r {
        Ok(Provider::Json(p)) => upper == "JSON"@ && p@ == path,
        Ok(Provider::Sqlite(p)) => (upper == "SQLITE"@ || upper == "SQLITE3"@) && p@ == path,
        Err(AppError::InvalidProvider(m)) => !known_kind(upper) && m@ == invalid_kind_message(
            upper,
            raw,
        ),
    }
}

/// The storage that the `SNIPPETS_APP_STORAGE` setting asks for; the caller
/// hands over the variable, `None` where it is not set. The kind is compared
/// upper-cased.
pub fn pick_provider_from_env(storage_var: Option<&str>) -> (r: Result<Provider, AppError>)
    ensures
        provider_for_setting(
            match storage_var {
                Some(s) => Some(s@),
                None => None,
            },
            r,
        ),
{
    let raw = match storage_var {
        Some(s) => s,
        None => "JSON:snips/snippets.json",
    };
    let (kind, path) = split_setting(raw);
    let upper = to_uppercase(kind.as_str());
    provider_for_kind(upper.as_str(), path.as_str(), raw)
}

} // verus!
