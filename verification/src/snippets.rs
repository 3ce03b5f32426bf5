//! The snippet store: named pieces of code, kept in a list that is read from
//! and written back to a JSON file. The list operations are here; reading and
//! writing the file is the caller's.

use crate::text::{law_text_lt_asymmetric, text_less, text_lt};
use chrono::{DateTime, Utc};
use vstd::prelude::*;

verus! {

/// An instant in UTC: whole seconds since the Unix epoch and nanoseconds
/// into that second.
#[derive(Debug, Clone, Copy, PartialEq, Eq, Structural)]
pub struct Timestamp {
    pub secs: i64,
    pub nanos: u32,
}

/// The error of reading a date and time that is not RFC 3339.
#[verifier::external_type_specification]
#[verifier::external_body]
pub struct ExParseError(chrono::ParseError);

/// The RFC 3339 text that chrono writes for the instant `secs` seconds and
/// `nanos` nanoseconds after the Unix epoch, in UTC; `None` where chrono
/// cannot represent the instant.
pub uninterp spec fn rfc3339_text(secs: i64, nanos: u32) -> Option<Seq<char>>;

/// The instant, in whole seconds since the Unix epoch and nanoseconds, that
/// chrono reads from an RFC 3339 text; `None` where it is not RFC 3339.
pub uninterp spec fn rfc3339_instant(raw: Seq<char>) -> Option<(i64, u32)>;

/// The instant lies in the years 0 to 9999 and chrono can hold it: a
/// nanosecond count under one second, or, in the last second of a minute,
/// under two seconds (a leap second, which chrono writes as second `60`).
/// Chrono writes the year of such an instant with four digits, which its
/// RFC 3339 reader takes back.
pub open spec fn four_digit_year_instant(secs: i64, nanos: u32) -> bool {
    &&& -62167219200 <= secs <= 253402300799
    &&& (nanos < 1_000_000_000 || (nanos < 2_000_000_000 && secs % 60 == 59))
}

/// `DateTime::<Utc>::from_timestamp` and `DateTime::to_rfc3339`. Claimed:
/// the text, or its absence where the instant is out of chrono's range, is
/// `rfc3339_text` of the two numbers, a function of them alone; for an
/// instant in the years 0 to 9999 there is a text, and
/// `DateTime::parse_from_rfc3339` reads the same instant back from it (the
/// writer puts four year digits, second `60` for a leap second, all
/// non-zero sub-second digits and the offset `+00:00`, which is what the
/// reader takes).
#[verifier::external_body]
fn format_rfc3339(secs: i64, nanos: u32) -> (r: Option<String>)
    ensures
        match r {
            Some(s) => rfc3339_text(secs, nanos) == Some(s@),
            None => rfc3339_text(secs, nanos) is None,
        },
        four_digit_year_instant(secs, nanos) ==> r is Some && rfc3339_instant(r.unwrap()@) == Some(
            (secs, nanos),
        ),
{
    match DateTime::<Utc>::from_timestamp(secs, nanos) {
        Some(dt) => Some(dt.to_rfc3339()),
        None => None,
    }
}

/// `DateTime::parse_from_rfc3339`, read back as seconds and nanoseconds
/// since the Unix epoch. Claimed: it succeeds exactly where
/// `rfc3339_instant` of the text is a value, and gives that value. Which
/// error it gives on failure is not stated.
#[verifier::external_body]
fn parse_rfc3339(raw: &str) -> (r: Result<(i64, u32), chrono::ParseError>)
    ensures
        match r {
            Ok(t) => rfc3339_instant(raw@) == Some(t),
            Err(_) => rfc3339_instant(raw@) is None,
        },
{
    match DateTime::parse_from_rfc3339(raw) {
        Ok(dt) => Ok((dt.timestamp(), dt.timestamp_subsec_nanos())),
        Err(e) => Err(e),
    }
}

impl Timestamp {
    /// The instant as RFC 3339 text in UTC, as chrono writes it; `None` where
    /// chrono cannot represent it. For an instant in the years 0 to 9999 the
    /// text is there and reading it back gives the same instant.
    pub fn to_rfc3339(&self) -> (r: Option<String>)
        ensures
            match r {
                Some(s) => rfc3339_text(self.secs, self.nanos) == Some(s@),
                None => rfc3339_text(self.secs, self.nanos) is None,
            },
            four_digit_year_instant(self.secs, self.nanos) ==> r is Some && rfc3339_instant(
                r.unwrap()@,
            ) == Some((self.secs, self.nanos)),
    {
        format_rfc3339(self.secs, self.nanos)
    }

    /// The instant that an RFC 3339 text names.
    pub fn parse_rfc3339(raw: &str) -> (r: Result<Timestamp, chrono::ParseError>)
        ensures
            match r {
                Ok(t) => rfc3339_instant(raw@) == Some((t.secs, t.nanos)),
                Err(_) => rfc3339_instant(raw@) is None,
            },
    {
        match parse_rfc3339(raw) {
            Ok((secs, nanos)) => Ok(Timestamp { secs, nanos }),
            Err(e) => Err(e),
        }
    }
}

#[derive(Debug)]
pub struct Snippet {
    pub name: String,
    pub lang: String,
    pub code: String,
    pub created_at: Timestamp,
}

impl Clone for Snippet {
    fn clone(&self) -> (r: Self)
        ensures
            r == *self,
    {
        Snippet {
            name: self.name.clone(),
            lang: self.lang.clone(),
            code: self.code.clone(),
            created_at: self.created_at,
        }
    }
}

/// A snippet from the columns of a stored row, its creation time written
/// as RFC 3339 text.
pub fn snippet_from_row(name: String, lang: String, code: String, created_at: &str) -> (r: Result<
    Snippet,
    chrono::ParseError,
>)
    ensures
        match r {
            Ok(s) => {
                &&& s.name == name
                &&& s.lang == lang
                &&& s.code == code
                &&& rfc3339_instant(created_at@) == Some((s.created_at.secs, s.created_at.nanos))
            },
            Err(_) => rfc3339_instant(created_at@) is None,
        },
{
    match Timestamp::parse_rfc3339(created_at) {
        Ok(t) => Ok(Snippet { name, lang, code, created_at: t }),
        Err(e) => Err(e),
    }
}

/// The columns of the row that stores a snippet: name, language, code and
/// the creation time as RFC 3339 text; `None` where chrono cannot write the
/// creation time. For a creation time in the years 0 to 9999 the row is
/// there and its time column reads back as the same instant.
pub fn row_columns(s: &Snippet) -> (r: Option<(String, String, String, String)>)
    ensures
        match r {
            Some(row) => {
                &&& row.0 == s.name
                &&& row.1 == s.lang
                &&& row.2 == s.code
                &&& rfc3339_text(s.created_at.secs, s.created_at.nanos) == Some(row.3@)
            },
            None => rfc3339_text(s.created_at.secs, s.created_at.nanos) is None,
        },
        four_digit_year_instant(s.created_at.secs, s.created_at.nanos) ==> r is Some
            && rfc3339_instant(r.unwrap().3@) == Some((s.created_at.secs, s.created_at.nanos)),
{
    match s.created_at.to_rfc3339() {
        Some(t) => Some((s.name.clone(), s.lang.clone(), s.code.clone(), t)),
        None => None,
    }
}

/// A snippet stored as a row and read back: for a creation time in the
/// years 0 to 9999 it comes back unchanged.
pub fn stored_and_read_back(s: &Snippet) -> (r: Option<Snippet>)
    ensures
        four_digit_year_instant(s.created_at.secs, s.created_at.nanos) ==> r == Some(*s),
{
    match row_columns(s) {
        Some((name, lang, code, created_at)) => match snippet_from_row(
            name,
            lang,
            code,
            created_at.as_str(),
        ) {
            Ok(back) => Some(back),
            Err(_) => None,
        },
        None => None,
    }
}

/// The line that lists a snippet, given its creation time as text.
pub open spec fn list_line_text(name: Seq<char>, lang: Seq<char>, created_at: Seq<char>) -> Seq<char> {
    "name: "@ + name + "  lang: "@ + lang + "  created_at: "@ + created_at
}

/// The line that lists a snippet: `name: NAME  lang: LANG  created_at:
/// TIME`, with the creation time given as text.
pub fn list_line_at(s: &Snippet, created_at: &str) -> (r: String)
    ensures
        r@ == list_line_text(s.name@, s.lang@, created_at@),
{
    let mut r = String::from_str("name: ");
    r.append(s.name.as_str());
    r.append("  lang: ");
    r.append(s.lang.as_str());
    r.append("  created_at: ");
    r.append(created_at);
    r
}

/// The line that lists a snippet, its creation time written as RFC 3339;
/// `None` where chrono cannot represent the creation time.
pub fn list_line(s: &Snippet) -> (r: Option<String>)
    ensures
        match rfc3339_text(s.created_at.secs, s.created_at.nanos) {
            Some(t) => r is Some && r.unwrap()@ == list_line_text(s.name@, s.lang@, t),
            None => r is None,
        },
{
    match s.created_at.to_rfc3339() {
        Some(t) => Some(list_line_at(s, t.as_str())),
        None => None,
    }
}

/// The snippet that `--name` saves: the code read from standard input,
/// the language given with `--lang` or none, and the time it was taken.
pub fn new_snippet(name: String, lang: Option<String>, code: String, now: Timestamp) -> (s: Snippet)
    ensures
        s.name == name,
        s.lang@ == match lang {
            Some(l) => l@,
            None => Seq::<char>::empty(),
        },
        s.code == code,
        s.created_at == now,
{
    let lang = match lang {
        Some(l) => l,
        None => String::new(),
    };
    Snippet { name, lang, code, created_at: now }
}

/// Whether some snippet in `s` is named `name`.
pub open spec fn has_name(s: Seq<Snippet>, name: Seq<char>) -> bool {
    exists|i: int| 0 <= i < s.len() && #[trigger] s[i].name@ == name
}

/// The first snippet in `s` named `name`, if any.
pub open spec fn first_named(s: Seq<Snippet>, name: Seq<char>) -> Option<Snippet>
    decreases s.len(),
{
    if s.len() == 0 {
        None
    } else if s[0].name@ == name {
        Some(s[0])
    } else {
        first_named(s.drop_first(), name)
    }
}

/// The position of the first snippet in `s` named `name`; the length of
/// `s` where there is none.
pub open spec fn first_index(s: Seq<Snippet>, name: Seq<char>) -> int
    decreases s.len(),
{
    if s.len() == 0 {
        0
    } else if s[0].name@ == name {
        0
    } else {
        1 + first_index(s.drop_first(), name)
    }
}

/// `s` after saving `x`: the first snippet named like `x` replaced by `x` in
/// its place, or, where there is none, `x` at the end.
pub open spec fn saved(s: Seq<Snippet>, x: Snippet) -> Seq<Snippet> {
    if first_index(s, x.name@) < s.len() {
        s.update(first_index(s, x.name@), x)
    } else {
        s.push(x)
    }
}

/// Whether a snippet is named otherwise than `name`.
pub open spec fn named_otherwise(name: Seq<char>) -> spec_fn(Snippet) -> bool {
    |x: Snippet| x.name@ != name
}

/// `s` without the snippets named `name`, the others in their order.
pub open spec fn without_name(s: Seq<Snippet>, name: Seq<char>) -> Seq<Snippet> {
    s.filter(named_otherwise(name))
}

/// `x` put into `s` after every snippet whose name is not greater than its
/// own: one step of a stable insertion sort by name.
pub open spec fn insert_by_name(s: Seq<Snippet>, x: Snippet) -> Seq<Snippet>
    decreases s.len(),
{
    if s.len() == 0 {
        seq![x]
    } else if text_lt(x.name@, s.last().name@) {
        insert_by_name(s.drop_last(), x).push(s.last())
    } else {
        s.push(x)
    }
}

/// `s` sorted by name; snippets with equal names keep their order.
pub open spec fn sort_by_name(s: Seq<Snippet>) -> Seq<Snippet>
    decreases s.len(),
{
    if s.len() == 0 {
        seq![]
    } else {
        insert_by_name(sort_by_name(s.drop_last()), s.last())
    }
}

/// No name is followed by a smaller one.
pub open spec fn sorted_by_name(s: Seq<Snippet>) -> bool {
    forall|i: int| 0 <= i < s.len() - 1 ==> !text_lt(#[trigger] s[i + 1].name@, s[i].name@)
}

/// No two snippets share a name.
pub open spec fn unique_names(s: Seq<Snippet>) -> bool {
    forall|i: int, j: int| 0 <= i < j < s.len() ==> #[trigger] s[i].name@ != #[trigger] s[j].name@
}

/// The contents of the JSON file: the snippets, in the order they were
/// saved.
#[derive(Debug)]
pub struct JsonFile {
    pub snippets: Vec<Snippet>,
}

impl Default for JsonFile {
    fn default() -> (f: Self)
        ensures
            f.snippets@ == Seq::<Snippet>::empty(),
    {
        JsonFile { snippets: Vec::new() }
    }
}

/// Where a JSON store keeps its file.
#[derive(Debug, Clone)]
pub struct JsonStore {
    pub path: String,
}

impl JsonStore {
    pub fn new(path: String) -> (s: Self)
        ensures
            s.path == path,
    {
        JsonStore { path }
    }
}

fn same_name(a: &String, b: &String) -> (r: bool)
    ensures
        r == (a@ == b@),
{
    *a == *b
}

impl JsonFile {
    /// Saves `snip`: where a snippet of that name is there already, the
    /// first such snippet is replaced by `snip` in its place; otherwise
    /// `snip` goes at the end. Says whether the name was new.
    pub fn create(&mut self, snip: &Snippet) -> (created: bool)
        ensures
            created == !has_name(old(self).snippets@, snip.name@),
            final(self).snippets@ == saved(old(self).snippets@, *snip),
    {
        let ghost all = self.snippets@;
        let n = self.snippets.len();
        let mut i: usize = 0;
        proof {
            assert(all.skip(0) =~= all);
            lemma_first_index(all, snip.name@);
        }
        while i < n
            invariant
                n == all.len(),
                all == old(self).snippets@,
                self.snippets@ == all,
                i <= n,
                first_index(all, snip.name@) == i + first_index(all.skip(i as int), snip.name@),
            decreases n - i,
        {
            if same_name(&self.snippets[i].name, &snip.name) {
                proof {
                    assert(all.skip(i as int)[0] == all[i as int]);
                    assert(first_index(all.skip(i as int), snip.name@) == 0);
                    lemma_first_index(all, snip.name@);
                }
                self.snippets.set(i, snip.clone());
                return false;
            }
            proof {
                assert(all.skip(i as int)[0] == all[i as int]);
                assert(all.skip(i as int).drop_first() =~= all.skip(i + 1));
            }
            i = i + 1;
        }
        proof {
            assert(all.skip(n as int).len() == 0);
            lemma_first_index(all, snip.name@);
        }
        self.snippets.push(snip.clone());
        true
    }

    /// The first snippet named `name`, if any.
    pub fn read(&self, name: &str) -> (r: Option<Snippet>)
        ensures
            r == first_named(self.snippets@, name@),
    {
        let wanted = String::from_str(name);
        let s = &self.snippets;
        let n = s.len();
        let mut i: usize = 0;
        proof {
            assert(s@.skip(0) =~= s@);
        }
        while i < n
            invariant
                n == s@.len(),
                s@ == self.snippets@,
                wanted@ == name@,
                i <= n,
                first_named(s@, name@) == first_named(s@.skip(i as int), name@),
            decreases n - i,
        {
            if same_name(&s[i].name, &wanted) {
                proof {
                    assert(s@.skip(i as int)[0] == s@[i as int]);
                }
                return Some(s[i].clone());
            }
            proof {
                assert(s@.skip(i as int).drop_first() =~= s@.skip(i + 1));
            }
            i = i + 1;
        }
        None
    }

    /// Drops every snippet named `name`; says whether there was one.
    pub fn delete(&mut self, name: &str) -> (deleted: bool)
        ensures
            deleted == has_name(old(self).snippets@, name@),
            final(self).snippets@ == without_name(old(self).snippets@, name@),
    {
        let wanted = String::from_str(name);
        let ghost all = self.snippets@;
        let n = self.snippets.len();
        let mut kept: Vec<Snippet> = Vec::new();
        let mut found = false;
        let mut i: usize = 0;
        proof {
            assert(all.take(0) =~= Seq::<Snippet>::empty());
            assert(Seq::<Snippet>::empty().filter(named_otherwise(name@)) =~= Seq::<Snippet>::empty())
                by {
                reveal(Seq::filter);
            }
        }
        while i < n
            invariant
                n == all.len(),
                self.snippets@ == all,
                wanted@ == name@,
                i <= n,
                kept@ == without_name(all.take(i as int), name@),
                found == has_name(all.take(i as int), name@),
            decreases n - i,
        {
            let x = &self.snippets[i];
            proof {
                assert(all.take(i + 1) =~= all.take(i as int).push(all[i as int]));
                all.take(i as int).lemma_filter_push(all[i as int], named_otherwise(name@));
            }
            if same_name(&x.name, &wanted) {
                found = true;
                proof {
                    assert(all.take(i + 1)[i as int].name@ == name@);
                }
            } else {
                kept.push(x.clone());
                proof {
                    if has_name(all.take(i + 1), name@) {
                        let j = choose|j: int|
                            0 <= j < i + 1 && #[trigger] all.take(i + 1)[j].name@ == name@;
                        assert(all.take(i as int)[j].name@ == name@);
                    }
                }
            }
            proof {
                if has_name(all.take(i as int), name@) {
                    let j = choose|j: int| 0 <= j < i && #[trigger] all.take(i as int)[j].name@ == name@;
                    assert(all.take(i + 1)[j].name@ == name@);
                }
            }
            i = i + 1;
        }
        proof {
            assert(all.take(n as int) =~= all);
        }
        self.snippets = kept;
        found
    }

    /// All snippets, sorted by name.
    pub fn list(&self) -> (v: Vec<Snippet>)
        ensures
            v@ == sort_by_name(self.snippets@),
    {
        sort_snippets_by_name(&self.snippets)
    }
}

proof fn lemma_insert_keeps_sorted(s: Seq<Snippet>, x: Snippet)
    requires
        sorted_by_name(s),
    ensures
        sorted_by_name(insert_by_name(s, x)),
        insert_by_name(s, x).len() == s.len() + 1,
        insert_by_name(s, x).last() == x || (s.len() > 0 && insert_by_name(s, x).last()
            == s.last()),
    decreases s.len(),
{
    if s.len() > 0 && text_lt(x.name@, s.last().name@) {
        let p = s.drop_last();
        assert(sorted_by_name(p)) by {
            assert forall|i: int| 0 <= i < p.len() - 1 implies !text_lt(
                #[trigger] p[i + 1].name@,
                p[i].name@,
            ) by {
                assert(p[i + 1] == s[i + 1]);
                assert(p[i] == s[i]);
            }
        }
        lemma_insert_keeps_sorted(p, x);
        let t = insert_by_name(p, x);
        let r = t.push(s.last());
        if t.last() == x {
            law_text_lt_asymmetric(x.name@, s.last().name@);
        } else {
            assert(s[s.len() - 1] == s.last());
            assert(p.last() == s[s.len() - 2]);
            assert(!text_lt(s[(s.len() - 2) + 1].name@, s[s.len() - 2].name@));
        }
        assert(!text_lt(s.last().name@, t.last().name@));
        assert forall|i: int| 0 <= i < r.len() - 1 implies !text_lt(
            #[trigger] r[i + 1].name@,
            r[i].name@,
        ) by {
            if i < t.len() - 1 {
                assert(r[i + 1] == t[i + 1]);
                assert(r[i] == t[i]);
            } else {
                assert(r[i] == t.last());
                assert(r[i + 1] == s.last());
            }
        }
    } else if s.len() > 0 {
        let r = s.push(x);
        assert forall|i: int| 0 <= i < r.len() - 1 implies !text_lt(
            #[trigger] r[i + 1].name@,
            r[i].name@,
        ) by {
            if i < s.len() - 1 {
                assert(r[i + 1] == s[i + 1]);
                assert(r[i] == s[i]);
            } else {
                assert(r[i + 1] == x);
                assert(r[i] == s.last());
            }
        }
    }
}

/// Listing sorts: no name in the result is followed by a smaller one.
pub proof fn law_sort_is_sorted(s: Seq<Snippet>)
    ensures
        sorted_by_name(sort_by_name(s)),
    decreases s.len(),
{
    if s.len() > 0 {
        law_sort_is_sorted(s.drop_last());
        lemma_insert_keeps_sorted(sort_by_name(s.drop_last()), s.last());
    }
}

proof fn lemma_insert_multiset(s: Seq<Snippet>, x: Snippet)
    ensures
        insert_by_name(s, x).to_multiset() == s.to_multiset().insert(x),
    decreases s.len(),
{
    broadcast use vstd::seq_lib::group_to_multiset_ensures;

    if s.len() > 0 && text_lt(x.name@, s.last().name@) {
        let p = s.drop_last();
        lemma_insert_multiset(p, x);
        assert(p.push(s.last()) =~= s);
        assert(insert_by_name(s, x).to_multiset() =~= s.to_multiset().insert(x));
    } else if s.len() == 0 {
        assert(seq![x] =~= Seq::<Snippet>::empty().push(x));
    }
}

/// Listing loses and invents nothing: the sorted list holds the same
/// snippets, each as often, as the file.
pub proof fn law_sort_permutes(s: Seq<Snippet>)
    ensures
        sort_by_name(s).to_multiset() == s.to_multiset(),
    decreases s.len(),
{
    broadcast use vstd::seq_lib::group_to_multiset_ensures;

    if s.len() > 0 {
        law_sort_permutes(s.drop_last());
        lemma_insert_multiset(sort_by_name(s.drop_last()), s.last());
        assert(s.drop_last().push(s.last()) =~= s);
    } else {
        assert(sort_by_name(s) =~= s);
    }
}

/// Sorting what is sorted changes nothing; so sorting the listing again,
/// as the command line does, leaves it as it is.
pub proof fn law_sort_of_sorted(s: Seq<Snippet>)
    requires
        sorted_by_name(s),
    ensures
        sort_by_name(s) == s,
    decreases s.len(),
{
    if s.len() > 0 {
        let p = s.drop_last();
        assert(sorted_by_name(p)) by {
            assert forall|i: int| 0 <= i < p.len() - 1 implies !text_lt(
                #[trigger] p[i + 1].name@,
                p[i].name@,
            ) by {
                assert(p[i + 1] == s[i + 1]);
                assert(p[i] == s[i]);
            }
        }
        law_sort_of_sorted(p);
        if p.len() > 0 {
            assert(s[s.len() - 1] == s.last());
            assert(p.last() == s[s.len() - 2]);
        }
        assert(p.push(s.last()) =~= s);
    }
}

proof fn lemma_first_named_none(s: Seq<Snippet>, name: Seq<char>)
    requires
        !has_name(s, name),
    ensures
        first_named(s, name) is None,
    decreases s.len(),
{
    if s.len() > 0 {
        assert(s[0].name@ != name);
        assert(!has_name(s.drop_first(), name)) by {
            if has_name(s.drop_first(), name) {
                let j = choose|j: int| 0 <= j < s.drop_first().len() && #[trigger] s.drop_first()[j].name@ == name;
                assert(s[j + 1].name@ == name);
            }
        }
        lemma_first_named_none(s.drop_first(), name);
    }
}

/// Where the first snippet of a name is: before it no snippet has the
/// name, it has the name, and it is there exactly when some snippet has the
/// name, which a read then finds.
pub proof fn lemma_first_index(s: Seq<Snippet>, name: Seq<char>)
    ensures
        0 <= first_index(s, name) <= s.len(),
        first_index(s, name) < s.len() <==> has_name(s, name),
        first_index(s, name) < s.len() ==> s[first_index(s, name)].name@ == name && first_named(
            s,
            name,
        ) == Some(s[first_index(s, name)]),
        forall|j: int| 0 <= j < first_index(s, name) ==> #[trigger] s[j].name@ != name,
    decreases s.len(),
{
    if s.len() > 0 && s[0].name@ != name {
        let t = s.drop_first();
        lemma_first_index(t, name);
        assert forall|j: int| 0 <= j < first_index(s, name) implies #[trigger] s[j].name@ != name by {
            if j > 0 {
                assert(s[j] == t[j - 1]);
            }
        }
        if has_name(s, name) {
            let k = choose|k: int| 0 <= k < s.len() && #[trigger] s[k].name@ == name;
            assert(t[k - 1].name@ == name);
        }
        if has_name(t, name) {
            let k = choose|k: int| 0 <= k < t.len() && #[trigger] t[k].name@ == name;
            assert(s[k + 1].name@ == name);
        }
    } else if s.len() > 0 {
        assert(s[0].name@ == name);
    }
}

proof fn lemma_pushed_is_read(s: Seq<Snippet>, x: Snippet)
    requires
        !has_name(s, x.name@),
    ensures
        first_named(s.push(x), x.name@) == Some(x),
    decreases s.len(),
{
    if s.len() > 0 {
        assert(s[0].name@ != x.name@);
        assert(s.push(x)[0] == s[0]);
        assert(s.push(x).drop_first() =~= s.drop_first().push(x));
        assert(!has_name(s.drop_first(), x.name@)) by {
            if has_name(s.drop_first(), x.name@) {
                let j = choose|j: int| 0 <= j < s.drop_first().len() && #[trigger] s.drop_first()[j].name@ == x.name@;
                assert(s[j + 1].name@ == x.name@);
            }
        }
        lemma_pushed_is_read(s.drop_first(), x);
    }
}

/// Read after save: what a read of the name gives is the snippet just
/// saved, whether the name was new or taken.
pub proof fn law_saved_is_read(s: Seq<Snippet>, x: Snippet)
    ensures
        first_named(saved(s, x), x.name@) == Some(x),
{
    lemma_first_index(s, x.name@);
    let i = first_index(s, x.name@);
    if i < s.len() {
        let r = s.update(i, x);
        lemma_first_index(r, x.name@);
        assert forall|j: int| 0 <= j < i implies #[trigger] r[j].name@ != x.name@ by {
            assert(r[j] == s[j]);
        }
        assert(r[i] == x);
        if first_index(r, x.name@) < i {
            let k = first_index(r, x.name@);
            assert(r[k].name@ == x.name@);
        }
        if first_index(r, x.name@) > i {
            assert(r[i].name@ == x.name@);
        }
    } else {
        lemma_pushed_is_read(s, x);
    }
}

/// Saving never duplicates: the list keeps its length where the name was
/// taken and grows by one where it was new, and every other snippet stays
/// where it was.
pub proof fn law_save_replaces_in_place(s: Seq<Snippet>, x: Snippet)
    ensures
        has_name(s, x.name@) ==> saved(s, x).len() == s.len(),
        !has_name(s, x.name@) ==> saved(s, x).len() == s.len() + 1,
        forall|j: int|
            0 <= j < s.len() && j != first_index(s, x.name@) ==> #[trigger] saved(s, x)[j] == s[j],
{
    lemma_first_index(s, x.name@);
}

/// Read after delete: once a name is deleted, no snippet of that name is
/// left and a read of it gives nothing; every other snippet stays.
pub proof fn law_deleted_is_gone(s: Seq<Snippet>, name: Seq<char>, x: Snippet)
    ensures
        !has_name(without_name(s, name), name),
        first_named(without_name(s, name), name) is None,
        s.contains(x) && x.name@ != name ==> without_name(s, name).contains(x),
{
    let f = without_name(s, name);
    s.lemma_filter_len(named_otherwise(name));
    if has_name(f, name) {
        let j = choose|j: int| 0 <= j < f.len() && #[trigger] f[j].name@ == name;
        s.lemma_filter_pred(named_otherwise(name), j);
    }
    lemma_first_named_none(f, name);
    if s.contains(x) && x.name@ != name {
        s.lemma_filter_contains_rev(named_otherwise(name), x);
    }
}

/// Saving keeps names unique: a store whose names are unique still has
/// unique names after a save.
pub proof fn law_save_keeps_names_unique(s: Seq<Snippet>, x: Snippet)
    requires
        unique_names(s),
    ensures
        unique_names(saved(s, x)),
{
    lemma_first_index(s, x.name@);
    let k = first_index(s, x.name@);
    let r = saved(s, x);
    if k < s.len() {
        assert forall|i: int, j: int| 0 <= i < j < r.len() implies #[trigger] r[i].name@
            != #[trigger] r[j].name@ by {
            assert(r[i].name@ == s[i].name@);
            assert(r[j].name@ == s[j].name@);
        }
    } else {
        assert forall|i: int, j: int| 0 <= i < j < r.len() implies #[trigger] r[i].name@
            != #[trigger] r[j].name@ by {
            if j == s.len() {
                assert(r[i] == s[i]);
                assert(s[i].name@ != x.name@);
            } else {
                assert(r[i] == s[i]);
                assert(r[j] == s[j]);
            }
        }
    }
}

proof fn lemma_insert_split(r: Seq<Snippet>, x: Snippet, p: int)
    requires
        0 < p <= r.len(),
        text_lt(x.name@, r[p - 1].name@),
        insert_by_name(r, x) == insert_by_name(r.take(p), x) + r.skip(p),
    ensures
        insert_by_name(r, x) == insert_by_name(r.take(p - 1), x) + r.skip(p - 1),
{
    let t = r.take(p);
    assert(t.last() == r[p - 1]);
    assert(t.drop_last() =~= r.take(p - 1));
    assert(insert_by_name(t, x) == insert_by_name(r.take(p - 1), x).push(r[p - 1]));
    assert(insert_by_name(r.take(p - 1), x).push(r[p - 1]) + r.skip(p) =~= insert_by_name(
        r.take(p - 1),
        x,
    ) + r.skip(p - 1));
}

/// `v` sorted by name with a stable insertion sort: snippets with equal
/// names keep their order.
pub fn sort_snippets_by_name(v: &Vec<Snippet>) -> (r: Vec<Snippet>)
    ensures
        r@ == sort_by_name(v@),
{
    let mut r: Vec<Snippet> = Vec::new();
    let n = v.len();
    let mut i: usize = 0;
    proof {
        assert(v@.take(0) =~= Seq::<Snippet>::empty());
    }
    while i < n
        invariant
            n == v@.len(),
            i <= n,
            r@ == sort_by_name(v@.take(i as int)),
        decreases n - i,
    {
        let x = v[i].clone();
        let mut p = r.len();
        proof {
            assert(r@.take(p as int) =~= r@);
            assert(r@.skip(p as int) =~= Seq::<Snippet>::empty());
            assert(insert_by_name(r@, x) =~= insert_by_name(r@.take(p as int), x) + r@.skip(p as int));
        }
        while p > 0 && text_less(x.name.as_str(), r[p - 1].name.as_str())
            invariant
                p <= r@.len(),
                insert_by_name(r@, x) == insert_by_name(r@.take(p as int), x) + r@.skip(p as int),
            decreases p,
        {
            proof {
                lemma_insert_split(r@, x, p as int);
            }
            p = p - 1;
        }
        proof {
            let t = r@.take(p as int);
            if p > 0 {
                assert(t.last() == r@[p - 1]);
            } else {
                assert(t =~= Seq::<Snippet>::empty());
            }
            assert(insert_by_name(t, x) =~= t.push(x));
            assert(insert_by_name(r@, x) =~= r@.insert(p as int, x));
            assert(v@.take(i + 1).drop_last() =~= v@.take(i as int));
            assert(v@.take(i + 1).last() == v@[i as int]);
        }
        r.insert(p, x);
        i = i + 1;
    }
    proof {
        assert(v@.take(n as int) =~= v@);
    }
    r
}

} // verus!
