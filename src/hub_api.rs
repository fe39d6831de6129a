//! The request/response protocol of a Hue bridge: the requests to send, and
//! what the replies mean. Sending them is the caller's business.
use vstd::prelude::*;
use crate::description::strings_view;
use crate::text::{contains, has_substring};

verus! {

#[derive(PartialEq, Eq, Structural, Clone, Copy, Debug)]
pub enum HttpMethod {
    Get,
    Post,
    Put,
}

/// An HTTP request to perform; `body` is empty for a GET.
pub struct HttpRequest {
    pub method: HttpMethod,
    pub url: String,
    pub body: String,
}

/// A bridge's identity, address and user token.
pub struct HubApi {
    pub id: String,
    pub ip: String,
    pub token: String,
}

/// The URL of an authenticated command.
pub open spec fn api_url(ip: Seq<char>, token: Seq<char>, cmd: Seq<char>) -> Seq<char> {
    "http://"@ + ip + "/api/"@ + token + "/"@ + cmd
}

/// The URL of a command that needs no token.
pub open spec fn open_url(ip: Seq<char>, cmd: Seq<char>) -> Seq<char> {
    "http://"@ + ip + "/"@ + cmd
}

pub open spec fn digit_char(d: nat) -> char {
    if d == 0 { '0' } else if d == 1 { '1' } else if d == 2 { '2' } else if d == 3 { '3' } else if d == 4 { '4' }
    else if d == 5 { '5' } else if d == 6 { '6' } else if d == 7 { '7' } else if d == 8 { '8' } else { '9' }
}

/// Decimal digits of `n`, most significant first, without leading zeros.
pub open spec fn decimal(n: nat) -> Seq<char>
    decreases n,
{
    if n < 10 {
        seq![digit_char(n)]
    } else {
        decimal(n / 10).push(digit_char(n % 10))
    }
}

pub open spec fn json_bool(b: bool) -> Seq<char> {
    if b { "true"@ } else { "false"@ }
}

pub open spec fn hex_digit(d: nat) -> char {
    if d < 10 { digit_char(d) } else if d == 10 { 'a' } else if d == 11 { 'b' } else if d == 12 { 'c' }
    else if d == 13 { 'd' } else if d == 14 { 'e' } else { 'f' }
}

/// How one character stands inside a JSON string literal: quote, backslash
/// and control characters are escaped, everything else stands as it is.
pub open spec fn json_char(c: char) -> Seq<char> {
    if c == '"' { seq!['\\', '"'] }
    else if c == '\\' { seq!['\\', '\\'] }
    else if c == '\u{8}' { seq!['\\', 'b'] }
    else if c == '\t' { seq!['\\', 't'] }
    else if c == '\n' { seq!['\\', 'n'] }
    else if c == '\u{c}' { seq!['\\', 'f'] }
    else if c == '\r' { seq!['\\', 'r'] }
    else if (c as u32) < 0x20 { seq!['\\', 'u', '0', '0', hex_digit((c as u32 / 16) as nat), hex_digit((c as u32 % 16) as nat)] }
    else { seq![c] }
}

pub open spec fn json_escaped(s: Seq<char>) -> Seq<char>
    decreases s.len(),
{
    if s.len() == 0 {
        Seq::empty()
    } else {
        json_escaped(s.drop_last()) + json_char(s.last())
    }
}

/// The JSON string literal for `s`.
pub open spec fn json_quoted(s: Seq<char>) -> Seq<char> {
    seq!['"'] + json_escaped(s) + seq!['"']
}

/// Relies on serde_json::to_string on a `str`: the string in quotes, with
/// quote, backslash and characters below U+0020 escaped. Writing into
/// memory does not fail.
#[verifier::external_body]
fn json_string(s: &str) -> (r: String)
    ensures
        r@ == json_quoted(s@),
{
    match serde_json::to_string(s) {
        Ok(t) => t,
        Err(_) => String::new(),
    }
}

/// `a` sorts before `b` (character by character, a prefix first).
pub open spec fn text_less(a: Seq<char>, b: Seq<char>) -> bool
    decreases a.len(),
{
    if a.len() == 0 {
        b.len() > 0
    } else if b.len() == 0 {
        false
    } else if a[0] != b[0] {
        (a[0] as u32) < (b[0] as u32)
    } else {
        text_less(a.drop_first(), b.drop_first())
    }
}

pub type Members = Seq<(Seq<char>, Option<Seq<char>>)>;

pub open spec fn members_view(v: Seq<(String, Option<String>)>) -> Members {
    v.map_values(|m: (String, Option<String>)| (m.0@, match m.1 {
        Some(t) => Some(t@),
        None => None,
    }))
}

pub open spec fn member_keys(m: Members) -> Seq<Seq<char>> {
    m.map_values(|e: (Seq<char>, Option<Seq<char>>)| e.0)
}

/// Keys strictly ascending, hence distinct.
pub open spec fn keys_ascending(m: Members) -> bool {
    forall|i: int, j: int| #![trigger m[i], m[j]] 0 <= i < j < m.len() ==> text_less(m[i].0, m[j].0) && m[i].0 != m[j].0
}

/// The members of a JSON object, each with its text where its value is a
/// JSON string; `None` when the text is not a JSON object.
pub uninterp spec fn json_object_members_of(s: Seq<char>) -> Option<Members>;

/// Relies on serde_json::from_str into a `BTreeMap<String, serde_json::Value>`:
/// the members of a JSON object, in the map's ascending key order, or an
/// error for any other text.
#[verifier::external_body]
fn json_object_members(s: &str) -> (r: Option<Vec<(String, Option<String>)>>)
    ensures
        match r {
            Some(v) => json_object_members_of(s@) == Some(members_view(v@)) && keys_ascending(members_view(v@)),
            None => json_object_members_of(s@).is_none(),
        },
{
    serde_json::from_str::<std::collections::BTreeMap<String, serde_json::Value>>(s).ok().map(|m| {
        m.into_iter().map(|(k, v)| (k, match v {
            serde_json::Value::String(t) => Some(t),
            _ => None,
        })).collect()
    })
}

/// The text of member `k`, if `m` has it and its value is a string.
pub open spec fn member_text(m: Members, k: Seq<char>) -> Option<Seq<char>> {
    if exists|i: int| 0 <= i < m.len() && m[i].0 == k {
        m[choose|i: int| 0 <= i < m.len() && m[i].0 == k].1
    } else {
        None
    }
}

/// Member `key`'s text, if present and a string.
fn find_member_text(ms: &Vec<(String, Option<String>)>, key: &str) -> (r: Option<String>)
    requires
        keys_ascending(members_view(ms@)),
    ensures
        match r {
            Some(t) => member_text(members_view(ms@), key@) == Some(t@),
            None => member_text(members_view(ms@), key@).is_none(),
        },
{
    let ghost m = members_view(ms@);
    let k = String::from_str(key);
    let mut i: usize = 0;
    while i < ms.len()
        invariant
            m == members_view(ms@),
            keys_ascending(m),
            k@ == key@,
            i <= ms@.len(),
            forall|j: int| 0 <= j < i ==> m[j].0 != key@,
        decreases ms@.len() - i,
    {
        if ms[i].0 == k {
            assert(m[i as int].0 == key@);
            let ghost c = choose|c: int| 0 <= c < m.len() && m[c].0 == key@;
            assert(c == i) by {
                if c > i {
                    assert(m[i as int].0 != m[c].0);
                }
            }
            return match &ms[i].1 {
                Some(t) => Some(t.clone()),
                None => None,
            };
        }
        i = i + 1;
    }
    None
}

/// Body of a pairing request: the token as user name and a fixed device type.
pub open spec fn pairing_body(token: Seq<char>) -> Seq<char> {
    "{\"devicetype\":\"foxbox_hub\",\"username\":"@ + json_quoted(token) + "}"@
}

/// Body of a light state command.
pub open spec fn light_state_body(hue: u32, sat: u32, bri: u32, on: bool) -> Seq<char> {
    "{\"bri\":"@ + decimal(bri as nat) + ",\"hue\":"@ + decimal(hue as nat) + ",\"on\":"@ + json_bool(on)
        + ",\"sat\":"@ + decimal(sat as nat) + "}"@
}

fn digit(d: u32) -> (r: &'static str)
    requires
        d < 10,
    ensures
        r@ == seq![digit_char(d as nat)],
{
    proof {
        reveal_strlit("0");
        reveal_strlit("1");
        reveal_strlit("2");
        reveal_strlit("3");
        reveal_strlit("4");
        reveal_strlit("5");
        reveal_strlit("6");
        reveal_strlit("7");
        reveal_strlit("8");
        reveal_strlit("9");
    }
    if d == 0 { "0" } else if d == 1 { "1" } else if d == 2 { "2" } else if d == 3 { "3" } else if d == 4 { "4" }
    else if d == 5 { "5" } else if d == 6 { "6" } else if d == 7 { "7" } else if d == 8 { "8" } else { "9" }
}

/// The decimal form of `n`.
pub fn decimal_string(n: u32) -> (r: String)
    ensures
        r@ == decimal(n as nat),
    decreases n,
{
    if n < 10 {
        String::from_str(digit(n))
    } else {
        let mut s = decimal_string(n / 10);
        s.append(digit(n % 10));
        s
    }
}

fn bool_text(b: bool) -> (r: &'static str)
    ensures
        r@ == json_bool(b),
{
    if b { "true" } else { "false" }
}

/// Text of a reply, or `None` where the request failed.
pub open spec fn reply_text(reply: Option<&str>) -> Seq<char> {
    match reply {
        Some(t) => t@,
        None => Seq::empty(),
    }
}

impl HubApi {
    pub fn new(id: &str, ip: &str, token: &str) -> (r: HubApi)
        ensures
            r.id@ == id@,
            r.ip@ == ip@,
            r.token@ == token@,
    {
        HubApi { id: String::from_str(id), ip: String::from_str(ip), token: String::from_str(token) }
    }

    pub open spec fn url_of(&self, cmd: Seq<char>) -> Seq<char> {
        api_url(self.ip@, self.token@, cmd)
    }

    fn authenticated_url(&self, cmd: &str) -> (r: String)
        ensures
            r@ == self.url_of(cmd@),
    {
        let u = String::from_str("http://").concat(self.ip.as_str()).concat("/api/").concat(self.token.as_str());
        u.concat("/").concat(cmd)
    }

    /// An authenticated GET of `cmd`.
    pub fn get(&self, cmd: &str) -> (r: HttpRequest)
        ensures
            r.method == HttpMethod::Get,
            r.url@ == self.url_of(cmd@),
            r.body@ == Seq::<char>::empty(),
    {
        HttpRequest { method: HttpMethod::Get, url: self.authenticated_url(cmd), body: String::new() }
    }

    /// An authenticated POST of `data` to `cmd`.
    pub fn post(&self, cmd: &str, data: &str) -> (r: HttpRequest)
        ensures
            r.method == HttpMethod::Post,
            r.url@ == self.url_of(cmd@),
            r.body@ == data@,
    {
        HttpRequest { method: HttpMethod::Post, url: self.authenticated_url(cmd), body: String::from_str(data) }
    }

    /// A POST of `data` to `cmd` without the token.
    pub fn post_unauth(&self, cmd: &str, data: &str) -> (r: HttpRequest)
        ensures
            r.method == HttpMethod::Post,
            r.url@ == open_url(self.ip@, cmd@),
            r.body@ == data@,
    {
        let url = String::from_str("http://").concat(self.ip.as_str()).concat("/").concat(cmd);
        HttpRequest { method: HttpMethod::Post, url, body: String::from_str(data) }
    }

    /// An authenticated PUT of `data` to `cmd`.
    pub fn put(&self, cmd: &str, data: &str) -> (r: HttpRequest)
        ensures
            r.method == HttpMethod::Put,
            r.url@ == self.url_of(cmd@),
            r.body@ == data@,
    {
        HttpRequest { method: HttpMethod::Put, url: self.authenticated_url(cmd), body: String::from_str(data) }
    }

    /// The probe of the bridge's root page.
    pub fn availability_request(&self) -> (r: HttpRequest)
        ensures
            r.method == HttpMethod::Get,
            r.url@ == open_url(self.ip@, Seq::empty()),
            r.body@ == Seq::<char>::empty(),
    {
        let url = String::from_str("http://").concat(self.ip.as_str()).concat("/");
        assert(url@ =~= open_url(self.ip@, Seq::empty()));
        HttpRequest { method: HttpMethod::Get, url, body: String::new() }
    }

    /// Whether the root page (`None`: it could not be fetched) is that of a
    /// Hue bridge: it holds the product's name.
    pub fn is_available(reply: Option<&str>) -> (r: bool)
        ensures
            r == (reply is Some && has_substring(reply_text(reply), "hue personal wireless lighting"@)),
    {
        match reply {
            Some(body) => contains(body, "hue personal wireless lighting"),
            None => false,
        }
    }

    /// The request for the bridge's settings.
    pub fn get_settings(&self) -> (r: HttpRequest)
        ensures
            r.method == HttpMethod::Get,
            r.url@ == self.url_of(Seq::empty()),
            r.body@ == Seq::<char>::empty(),
    {
        let r = self.get("");
        proof {
            reveal_strlit("");
        }
        r
    }

    /// Whether the settings reply says the token is accepted: it does unless
    /// it holds "unauthorized user". A failed request counts as empty.
    pub fn is_paired(reply: Option<&str>) -> (r: bool)
        ensures
            r == !has_substring(reply_text(reply), "unauthorized user"@),
    {
        match reply {
            Some(body) => {
                let found = contains(body, "unauthorized user");
                assert(reply_text(reply) == body@);
                !found
            },
            None => {
                proof {
                    reveal_strlit("unauthorized user");
                    assert(!has_substring(Seq::<char>::empty(), "unauthorized user"@));
                }
                true
            },
        }
    }

    /// The pairing request: the token as user name, without authentication.
    pub fn try_pairing(&self) -> (r: HttpRequest)
        ensures
            r.method == HttpMethod::Post,
            r.url@ == open_url(self.ip@, "api"@),
            r.body@ == pairing_body(self.token@),
    {
        let body = String::from_str("{\"devicetype\":\"foxbox_hub\",\"username\":")
            .concat(json_string(self.token.as_str()).as_str()).concat("}");
        self.post_unauth("api", body.as_str())
    }

    /// Whether a pairing reply reports success.
    pub fn pairing_accepted(reply: Option<&str>) -> (r: bool)
        ensures
            r == (reply is Some && has_substring(reply_text(reply), "success"@)),
    {
        match reply {
            Some(body) => contains(body, "success"),
            None => false,
        }
    }

    /// The request for the list of lights.
    pub fn get_lights(&self) -> (r: HttpRequest)
        ensures
            r.method == HttpMethod::Get,
            r.url@ == self.url_of("lights"@),
            r.body@ == Seq::<char>::empty(),
    {
        self.get("lights")
    }

    /// The light ids in a reply to `get_lights`, in ascending order; `None`
    /// where the request failed or the reply is not a JSON object.
    pub fn light_ids(reply: Option<&str>) -> (r: Option<Vec<String>>)
        ensures
            match reply {
                Some(t) => match json_object_members_of(t@) {
                    Some(ms) => r is Some && strings_view(r->Some_0@) == member_keys(ms),
                    None => r is None,
                },
                None => r is None,
            },
            r matches Some(v) ==> forall|i: int, j: int| #![trigger v@[i], v@[j]] 0 <= i < j < v@.len() ==> text_less(v@[i]@, v@[j]@)
                && v@[i]@ != v@[j]@,
    {
        let body = match reply {
            Some(b) => b,
            None => return None,
        };
        let ms = match json_object_members(body) {
            Some(ms) => ms,
            None => return None,
        };
        let ghost m = members_view(ms@);
        let mut ids: Vec<String> = Vec::new();
        let mut i: usize = 0;
        while i < ms.len()
            invariant
                m == members_view(ms@),
                keys_ascending(m),
                i <= ms@.len(),
                strings_view(ids@) == member_keys(m).take(i as int),
            decreases ms@.len() - i,
        {
            let ghost before = ids@;
            ids.push(ms[i].0.clone());
            proof {
                assert(member_keys(m).take(i + 1) =~= member_keys(m).take(i as int).push(m[i as int].0));
                assert(strings_view(ids@) =~= strings_view(before).push(m[i as int].0));
            }
            i = i + 1;
        }
        proof {
            assert(member_keys(m).take(ms@.len() as int) =~= member_keys(m));
            assert forall|a: int, b: int| #![trigger ids@[a], ids@[b]] 0 <= a < b < ids@.len() implies text_less(ids@[a]@, ids@[b]@)
                && ids@[a]@ != ids@[b]@ by {
                assert(ids@[a]@ == strings_view(ids@)[a]);
                assert(ids@[b]@ == strings_view(ids@)[b]);
                assert(member_keys(m)[a] == m[a].0);
                assert(member_keys(m)[b] == m[b].0);
            }
        }
        Some(ids)
    }

    /// The type of a light, from a reply to `get_light_status`; `None` where
    /// the request failed, the reply is not a JSON object or has no string
    /// member `type`.
    pub fn light_type(reply: Option<&str>) -> (r: Option<String>)
        ensures
            match reply {
                Some(t) => match json_object_members_of(t@) {
                    Some(ms) => match r {
                        Some(x) => member_text(ms, "type"@) == Some(x@),
                        None => member_text(ms, "type"@).is_none(),
                    },
                    None => r is None,
                },
                None => r is None,
            },
    {
        match reply {
            Some(body) => match json_object_members(body) {
                Some(ms) => find_member_text(&ms, "type"),
                None => None,
            },
            None => None,
        }
    }

    /// The request for the status of light `id`.
    pub fn get_light_status(&self, id: &str) -> (r: HttpRequest)
        ensures
            r.method == HttpMethod::Get,
            r.url@ == self.url_of("lights/"@ + id@),
            r.body@ == Seq::<char>::empty(),
    {
        let cmd = String::from_str("lights/").concat(id);
        self.get(cmd.as_str())
    }

    /// The command that sets the colour and power of light `light_id`.
    pub fn set_light_color(&self, light_id: &str, hue: u32, sat: u32, val: u32, on: bool) -> (r: HttpRequest)
        ensures
            r.method == HttpMethod::Put,
            r.url@ == self.url_of("lights/"@ + light_id@ + "/state"@),
            r.body@ == light_state_body(hue, sat, val, on),
    {
        let cmd = String::from_str("lights/").concat(light_id).concat("/state");
        let b = String::from_str("{\"bri\":").concat(decimal_string(val).as_str()).concat(",\"hue\":")
            .concat(decimal_string(hue).as_str()).concat(",\"on\":").concat(bool_text(on)).concat(",\"sat\":")
            .concat(decimal_string(sat).as_str()).concat("}");
        self.put(cmd.as_str(), b.as_str())
    }
}

} // verus!
