//! What the network client presents and how it reads answers: the fixed
//! browser-like header set with the optional session cookie, the room page
//! address, and the classification of responses into the library's errors.

use vstd::prelude::*;
use crate::config::{with_trailing_slash, NetworkConfig};
use crate::error::Error;
use crate::text::{chars_of, contains, contains_exec, push_decimal, push_str, string_of, decimal};

verus! {

/// User agent presented when the configuration names none.
pub const DEFAULT_USER_AGENT: &'static str = "Mozilla/5.0 (Windows NT 10.0; Win64; x64) AppleWebKit/537.36 (KHTML, like Gecko) Chrome/120.0.0.0 Safari/537.36";

/// Text of the interstitial page served instead of content to a blocked client.
pub const CLOUDFLARE_MARKER: &'static str = "<title>Just a moment...</title>";

/// Text of the age-verification gate.
pub const AGE_GATE_MARKER: &'static str = "Verify your age";

/// The identity the client presents; it does not change once built.
#[derive(Debug, Clone)]
pub struct ClientProfile {
    /// Site root, ending with `/`.
    pub domain: String,
    pub user_agent: String,
    pub cookies: Option<String>,
}

/// A header as name and value.
pub open spec fn header_view(h: (String, String)) -> (Seq<char>, Seq<char>) {
    (h.0@, h.1@)
}

/// The headers of every request: the user agent, a fixed browser-like set, and
/// the cookie string when there is one.
pub open spec fn request_headers(user_agent: Seq<char>, cookies: Option<String>) -> Seq<(Seq<char>, Seq<char>)> {
    let fixed = seq![
        ("User-Agent"@, user_agent),
        ("Accept"@, "text/html,application/xhtml+xml,application/xml;q=0.9,image/avif,image/webp,image/apng,*/*;q=0.8"@),
        ("Accept-Language"@, "en-US,en;q=0.9"@),
        ("Accept-Encoding"@, "gzip, deflate, br"@),
        ("Sec-Ch-Ua"@, "\"Chromium\";v=\"120\", \"Not\u{28}A:Brand\";v=\"24\""@),
        ("Sec-Ch-Ua-Mobile"@, "?0"@),
        ("Sec-Ch-Ua-Platform"@, "\"Windows\""@),
        ("Sec-Fetch-Dest"@, "document"@),
        ("Sec-Fetch-Mode"@, "navigate"@),
        ("Sec-Fetch-Site"@, "none"@),
        ("Sec-Fetch-User"@, "?1"@),
        ("Upgrade-Insecure-Requests"@, "1"@),
        ("X-Requested-With"@, "XMLHttpRequest"@),
    ];
    match cookies {
        Some(c) => fixed.push(("Cookie"@, c@)),
        None => fixed,
    }
}

fn header(name: &str, value: &str) -> (r: (String, String))
    ensures
        header_view(r) == (name@, value@),
{
    (name.to_owned(), value.to_owned())
}

impl ClientProfile {
    /// The profile for a network configuration: its domain with a trailing
    /// `/`, its user agent or the default one, and its cookies.
    pub fn new(config: &NetworkConfig) -> (r: ClientProfile)
        ensures
            r.domain@ == with_trailing_slash(config.domain@),
            r.user_agent@ == match config.user_agent {
                Some(u) => u@,
                None => DEFAULT_USER_AGENT@,
            },
            r.cookies == config.cookies,
    {
        let user_agent = match &config.user_agent {
            Some(u) => u.clone(),
            None => DEFAULT_USER_AGENT.to_owned(),
        };
        ClientProfile { domain: config.domain_with_trailing_slash(), user_agent, cookies: config.cookies.clone() }
    }

    /// The headers to send with every request.
    pub fn headers(&self) -> (r: Vec<(String, String)>)
        ensures
            r@.map_values(|h: (String, String)| header_view(h)) == request_headers(self.user_agent@, self.cookies),
    {
        let mut v: Vec<(String, String)> = Vec::new();
        v.push(header("User-Agent", self.user_agent.as_str()));
        v.push(header("Accept", "text/html,application/xhtml+xml,application/xml;q=0.9,image/avif,image/webp,image/apng,*/*;q=0.8"));
        v.push(header("Accept-Language", "en-US,en;q=0.9"));
        v.push(header("Accept-Encoding", "gzip, deflate, br"));
        v.push(header("Sec-Ch-Ua", "\"Chromium\";v=\"120\", \"Not\u{28}A:Brand\";v=\"24\""));
        v.push(header("Sec-Ch-Ua-Mobile", "?0"));
        v.push(header("Sec-Ch-Ua-Platform", "\"Windows\""));
        v.push(header("Sec-Fetch-Dest", "document"));
        v.push(header("Sec-Fetch-Mode", "navigate"));
        v.push(header("Sec-Fetch-Site", "none"));
        v.push(header("Sec-Fetch-User", "?1"));
        v.push(header("Upgrade-Insecure-Requests", "1"));
        v.push(header("X-Requested-With", "XMLHttpRequest"));
        match &self.cookies {
            Some(c) => {
                v.push(header("Cookie", c.as_str()));
            },
            None => {},
        }
        assert(v@.map_values(|h: (String, String)| header_view(h)) =~= request_headers(self.user_agent@, self.cookies));
        v
    }

    /// Address of a room's page: the domain, the room name and a `/`.
    pub fn room_page_url(&self, room: &str) -> (r: String)
        ensures
            r@ == self.domain@ + room@ + "/"@,
    {
        self.domain.clone().concat(room).concat("/")
    }

    /// The site root.
    pub fn domain(&self) -> (r: &str)
        ensures
            r@ == self.domain@,
    {
        self.domain.as_str()
    }
}

/// Whether an HTTP status is a success (2xx).
pub open spec fn is_success(status: u16) -> bool {
    200 <= status && status <= 299
}

/// How a page request ends, from its status and body: 403 is a private
/// stream, 404 a missing room, any other non-success a network error; a
/// successful body that is the block interstitial or the age gate is
/// classified so; any other body is the page.
pub fn classify_page_response(status: u16, url: &str, body: String) -> (r: Result<String, Error>)
    ensures
        status == 403 ==> r == Err::<String, Error>(Error::PrivateStream),
        status == 404 ==> (r matches Err(Error::RoomNotFound(u)) && u@ == url@),
        status != 403 && status != 404 && !is_success(status) ==> (r matches Err(Error::Network(m))
            && m@ == "HTTP status "@ + decimal(status as nat)),
        is_success(status) ==> r == if contains(body@, CLOUDFLARE_MARKER@) {
            Err::<String, Error>(Error::CloudflareBlocked)
        } else if contains(body@, AGE_GATE_MARKER@) {
            Err::<String, Error>(Error::AgeVerification)
        } else {
            Ok::<String, Error>(body)
        },
{
    if status == 403 {
        return Err(Error::PrivateStream);
    }
    if status == 404 {
        return Err(Error::RoomNotFound(url.to_owned()));
    }
    if !(200 <= status && status <= 299) {
        return Err(Error::Network(status_message(status)));
    }
    let text = chars_of(body.as_str());
    if contains_exec(&text, &chars_of(CLOUDFLARE_MARKER)) {
        return Err(Error::CloudflareBlocked);
    }
    if contains_exec(&text, &chars_of(AGE_GATE_MARKER)) {
        return Err(Error::AgeVerification);
    }
    Ok(body)
}

/// How a download ends, from its status: any non-success is a network error.
pub fn classify_download_status(status: u16) -> (r: Result<(), Error>)
    ensures
        is_success(status) ==> r is Ok,
        !is_success(status) ==> (r matches Err(Error::Network(m)) && m@ == "HTTP status "@ + decimal(
            status as nat,
        )),
{
    if 200 <= status && status <= 299 {
        Ok(())
    } else {
        Err(Error::Network(status_message(status)))
    }
}

fn status_message(status: u16) -> (r: String)
    ensures
        r@ == "HTTP status "@ + decimal(status as nat),
{
    let mut out: Vec<char> = Vec::new();
    push_str(&mut out, "HTTP status ");
    push_decimal(&mut out, status as u64);
    string_of(&out)
}

} // verus!
