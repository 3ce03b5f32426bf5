//! Downloads over plain HTTP: where a URL asks to connect and what to ask
//! for there, and what a server's reply says.

use crate::cli::opt_view;
use crate::text::same_text;
use vstd::prelude::*;

verus! {

/// What the `url` crate reads from a URL: the scheme, the host, the port
/// where it is not the scheme's default, the path and the query; `None`
/// where the text is no URL.
pub uninterp spec fn url_parts_of(raw: Seq<char>) -> Option<
    (Seq<char>, Option<Seq<char>>, Option<u16>, Seq<char>, Option<Seq<char>>),
>;

/// `url::Url::parse`, read back through `scheme`, `host_str`, `port`,
/// `path` and `query`. Claimed: the parts, or the failure, are
/// `url_parts_of` the text, a function of the text alone.
#[verifier::external_body]
fn parse_url(raw: &str) -> (r: Option<(String, Option<String>, Option<u16>, String, Option<String>)>)
    ensures
        match r {
            Some(p) => url_parts_of(raw@) == Some((p.0@, opt_view(p.1), p.2, p.3@, opt_view(p.4))),
            None => url_parts_of(raw@) is None,
        },
{
    match url::Url::parse(raw) {
        Ok(u) => Some(
            (
                u.scheme().to_string(),
                u.host_str().map(String::from),
                u.port(),
                u.path().to_string(),
                u.query().map(String::from),
            ),
        ),
        Err(_) => None,
    }
}

pub open spec fn invalid_url_message(raw: Seq<char>) -> Seq<char> {
    "invalid URL: "@ + raw
}

pub open spec fn not_http_message(raw: Seq<char>) -> Seq<char> {
    "only http:// downloads are supported: "@ + raw
}

pub open spec fn no_host_message(raw: Seq<char>) -> Seq<char> {
    "URL without a host: "@ + raw
}

/// What to ask the server for: the path, and `?` and the query where there
/// is one.
pub open spec fn request_target(path: Seq<char>, query: Option<Seq<char>>) -> Seq<char> {
    match query {
        Some(q) => path + "?"@ + q,
        None => path,
    }
}

/// Where a download of `raw` connects (host and port, 80 where the URL
/// gives none) and what it asks for, or why it cannot be made.
pub open spec fn download_target_of(raw: Seq<char>) -> Result<(Seq<char>, u16, Seq<char>), Seq<char>> {
    match url_parts_of(raw) {
        None => Err(invalid_url_message(raw)),
        Some((scheme, host, port, path, query)) => if scheme != "http"@ {
            Err(not_http_message(raw))
        } else {
            match host {
                None => Err(no_host_message(raw)),
                Some(h) => Ok(
                    (
                        h,
                        match port {
                            Some(p) => p,
                            None => 80u16,
                        },
                        request_target(path, query),
                    ),
                ),
            }
        },
    }
}

fn message_with(before: &str, raw: &str) -> (m: String)
    ensures
        m@ == before@ + raw@,
{
    let mut m = String::from_str(before);
    m.append(raw);
    m
}

/// Where a download of `raw` connects and what it asks for (see
/// `download_target_of`).
pub fn download_target(raw: &str) -> (r: Result<(String, u16, String), String>)
    ensures
        match r {
            Ok((h, p, t)) => download_target_of(raw@) == Ok::<(Seq<char>, u16, Seq<char>), Seq<char>>(
                (h@, p, t@),
            ),
            Err(m) => download_target_of(raw@) == Err::<(Seq<char>, u16, Seq<char>), Seq<char>>(m@),
        },
{
    match parse_url(raw) {
        None => Err(message_with("invalid URL: ", raw)),
        Some((scheme, host, port, path, query)) => {
            if !same_text(scheme.as_str(), "http") {
                return Err(message_with("only http:// downloads are supported: ", raw));
            }
            match host {
                None => Err(message_with("URL without a host: ", raw)),
                Some(h) => {
                    let p: u16 = match port {
                        Some(p) => p,
                        None => 80,
                    };
                    let t = match query {
                        Some(q) => {
                            let mut t = path;
                            t.append("?");
                            t.append(q.as_str());
                            t
                        },
                        None => path,
                    };
                    Ok((h, p, t))
                },
            }
        },
    }
}

/// The request that asks `host` for `target` and to close the connection
/// after the reply.
pub open spec fn request_text(host: Seq<char>, target: Seq<char>) -> Seq<char> {
    "GET "@ + target + " HTTP/1.0\r\nHost: "@ + host + "\r\nConnection: close\r\n\r\n"@
}

/// The request for a download of `target` from `host`.
pub fn request_for(host: &str, target: &str) -> (r: String)
    ensures
        r@ == request_text(host@, target@),
{
    let mut r = String::from_str("GET ");
    r.append(target);
    r.append(" HTTP/1.0\r\nHost: ");
    r.append(host);
    r.append("\r\nConnection: close\r\n\r\n");
    r
}

pub open spec fn is_digit_byte(b: u8) -> bool {
    0x30 <= b <= 0x39
}

/// The reply starts with a status line `HTTP/d.d ddd` followed by a space
/// or the end of the line.
pub open spec fn status_line_ok(r: Seq<u8>) -> bool {
    &&& r.len() >= 13
    &&& r[0] == 0x48u8 && r[1] == 0x54u8 && r[2] == 0x54u8 && r[3] == 0x50u8 && r[4] == 0x2fu8
    &&& is_digit_byte(r[5]) && r[6] == 0x2eu8 && is_digit_byte(r[7]) && r[8] == 0x20u8
    &&& is_digit_byte(r[9]) && is_digit_byte(r[10]) && is_digit_byte(r[11])
    &&& (r[12] == 0x20u8 || r[12] == 0x0du8)
}

/// The three-digit status code of the status line.
pub open spec fn status_code(r: Seq<u8>) -> int {
    (r[9] - 0x30) * 100 + (r[10] - 0x30) * 10 + (r[11] - 0x30)
}

/// An empty line (`\r\n\r\n`) starts at `i`.
pub open spec fn blank_line_at(r: Seq<u8>, i: int) -> bool {
    &&& 0 <= i && i + 4 <= r.len()
    &&& r[i] == 0x0du8 && r[i + 1] == 0x0au8 && r[i + 2] == 0x0du8 && r[i + 3] == 0x0au8
}

/// Where the first empty line at or after `i` starts, or the length of `r`
/// where there is none.
pub open spec fn first_blank_line(r: Seq<u8>, i: int) -> int
    decreases r.len() - i,
{
    if i < 0 || i + 4 > r.len() {
        r.len() as int
    } else if blank_line_at(r, i) {
        i
    } else {
        first_blank_line(r, i + 1)
    }
}

/// What a reply says: its status code and its body, the bytes after the
/// first empty line; `None` where it has no status line or no empty line.
pub open spec fn reply_of(r: Seq<u8>) -> Option<(int, Seq<u8>)> {
    let e = first_blank_line(r, 0);
    if status_line_ok(r) && e + 4 <= r.len() {
        Some((status_code(r), r.skip(e + 4)))
    } else {
        None
    }
}

fn digit_value(b: u8) -> (d: u16)
    requires
        is_digit_byte(b),
    ensures
        d == b - 0x30,
{
    (b - 0x30) as u16
}

/// The status code and body of a server's reply (see `reply_of`).
pub fn parse_reply(reply: &Vec<u8>) -> (r: Option<(u16, Vec<u8>)>)
    ensures
        match r {
            Some((s, body)) => reply_of(reply@) == Some((s as int, body@)),
            None => reply_of(reply@) is None,
        },
{
    let n = reply.len();
    if n < 13 {
        return None;
    }
    let ok = reply[0] == 0x48 && reply[1] == 0x54 && reply[2] == 0x54 && reply[3] == 0x50
        && reply[4] == 0x2f && 0x30 <= reply[5] && reply[5] <= 0x39 && reply[6] == 0x2e && 0x30
        <= reply[7] && reply[7] <= 0x39 && reply[8] == 0x20 && 0x30 <= reply[9] && reply[9] <= 0x39
        && 0x30 <= reply[10] && reply[10] <= 0x39 && 0x30 <= reply[11] && reply[11] <= 0x39 && (
    reply[12] == 0x20 || reply[12] == 0x0d);
    if !ok {
        return None;
    }
    let status: u16 = digit_value(reply[9]) * 100 + digit_value(reply[10]) * 10 + digit_value(
        reply[11],
    );
    let last = n - 4;
    let mut i: usize = 0;
    while i <= last
        invariant
            n == reply@.len(),
            last == n - 4,
            i <= last + 1,
            status_line_ok(reply@),
            status as int == status_code(reply@),
            first_blank_line(reply@, 0) == first_blank_line(reply@, i as int),
        decreases last + 1 - i,
    {
        if reply[i] == 0x0d && reply[i + 1] == 0x0a && reply[i + 2] == 0x0d && reply[i + 3] == 0x0a {
            let mut body: Vec<u8> = Vec::new();
            let mut j: usize = i + 4;
            while j < n
                invariant
                    n == reply@.len(),
                    i + 4 <= j <= n,
                    body@ == reply@.subrange(i + 4, j as int),
                decreases n - j,
            {
                body.push(reply[j]);
                proof {
                    assert(reply@.subrange(i + 4, j + 1) =~= reply@.subrange(i + 4, j as int).push(
                        reply@[j as int],
                    ));
                }
                j = j + 1;
            }
            proof {
                assert(reply@.skip(i + 4) =~= reply@.subrange(i + 4, n as int));
            }
            return Some((status, body));
        }
        i = i + 1;
    }
    None
}

} // verus!
