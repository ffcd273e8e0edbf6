//! Authentication and access control through an HTTP backend: what to ask it,
//! how to read its answer, and what the answer means for the hook chain.

use vstd::prelude::*;
use vstd::string::StringSliceAdditionalSpecFns;
use crate::acl::{rule_values, rules_described, rules_from};
use crate::acl_cache::{served, without_session, AclCache, Permission};
use crate::hook::{
    AuthResult, HookResult, Parameter, PublishAclResult, ReturnType, SubscribeAclResult, Type,
};
use crate::json::{find_member, json_document, lemma_member_at_index, member, Json, JsonNumber};
use crate::placeholder::{expand, expanded, table_view};
use crate::text::{
    ascii_chars, decimal, format_u64, from_utf8_lossy, has_prefix, is_visible_ascii, parse_i64,
    parsed_i64, starts_with, str_eq, to_chars, utf8_lossy, visible_ascii_text,
};
use crate::types::{
    seconds_of, to_seconds, AuthInfo, Disconnect, Id, IdView, Password, QoS, Reason,
    SubscribeAckReason, Superuser, TimestampMillis, TopicName,
};

verus! {

/// For how many milliseconds an answer may be cached; negative means for ever.
pub type Cacheable = Option<i64>;

/// Why an answer of the backend could not be used.
#[derive(Debug, Clone, Copy, PartialEq, Eq, Structural)]
pub enum AuthError {
    /// The JSON object has no string member `result`.
    ResultMissing,
    /// The result is none of `allow`, `deny` and `ignore`.
    ResultIncorrect,
    /// The JSON body is neither an object nor a string.
    BodyIncorrect,
    /// The body was announced as JSON and is not.
    BodyNotJson,
    /// The request did not get an answer: the network failed or the time ran out.
    Transport,
}

/// Which operation an access request is about.
#[derive(Debug, Clone, Copy, PartialEq, Eq, Hash, Structural)]
pub enum ACLType {
    Sub,
    Pub,
}

impl ACLType {
    /// The code that stands for the operation in a request: `1` for a
    /// subscription, `2` for a publish.
    pub fn as_str(&self) -> (r: &'static str)
        ensures
            r@ == (match *self {
                ACLType::Sub => "1"@,
                ACLType::Pub => "2"@,
            }),
    {
        match self {
            ACLType::Sub => "1",
            ACLType::Pub => "2",
        }
    }
}

/// The verdict that a word names.
pub open spec fn permission_named(word: Seq<char>, superuser: Superuser) -> Option<Permission> {
    if word == "allow"@ {
        Some(Permission::Allow(superuser))
    } else if word == "deny"@ {
        Some(Permission::Deny)
    } else if word == "ignore"@ {
        Some(Permission::Ignore)
    } else {
        None
    }
}

impl Permission {
    /// The verdict that `word` names; an error for any other word.
    pub fn try_from(word: &str, superuser: Superuser) -> (r: Result<Permission, AuthError>)
        ensures
            r == (match permission_named(word@, superuser) {
                Some(p) => Ok::<Permission, AuthError>(p),
                None => Err(AuthError::ResultIncorrect),
            }),
    {
        if str_eq(word, "allow") {
            Ok(Permission::Allow(superuser))
        } else if str_eq(word, "deny") {
            Ok(Permission::Deny)
        } else if str_eq(word, "ignore") {
            Ok(Permission::Ignore)
        } else {
            Err(AuthError::ResultIncorrect)
        }
    }

    /// The verdict that `word` names; any other word allows.
    pub fn from(word: &str, superuser: Superuser) -> (r: Permission)
        ensures
            r == (match permission_named(word@, superuser) {
                Some(p) => p,
                None => Permission::Allow(superuser),
            }),
    {
        if str_eq(word, "allow") {
            Permission::Allow(superuser)
        } else if str_eq(word, "deny") {
            Permission::Deny
        } else if str_eq(word, "ignore") {
            Permission::Ignore
        } else {
            Permission::Allow(superuser)
        }
    }
}

/// One header of an HTTP message. Names are held in lower case.
#[derive(Debug, Clone, PartialEq, Eq)]
pub struct Header {
    pub name: String,
    pub value: Vec<u8>,
}

/// What came back from the backend.
#[derive(Debug, Clone, PartialEq, Eq)]
pub struct HttpResponse {
    pub status: u16,
    pub headers: Vec<Header>,
    pub body: Vec<u8>,
}

/// The position of the first header named `name`, or the number of headers
/// where there is none.
pub open spec fn header_index(headers: Seq<Header>, name: Seq<char>) -> nat
    decreases headers.len(),
{
    if headers.len() == 0 || headers[0].name@ == name {
        0
    } else {
        1 + header_index(headers.drop_first(), name)
    }
}

/// The value of the first header named `name`.
pub open spec fn header_value(headers: Seq<Header>, name: Seq<char>) -> Option<Seq<u8>> {
    if header_index(headers, name) < headers.len() {
        Some(headers[header_index(headers, name) as int].value@)
    } else {
        None
    }
}

/// The value of the first header named `name`.
pub fn find_header<'a>(headers: &'a Vec<Header>, name: &str) -> (r: Option<&'a Vec<u8>>)
    ensures
        match r {
            Some(v) => header_value(headers@, name@) == Some(v@),
            None => header_value(headers@, name@) is None,
        },
{
    let mut i: usize = 0;
    assert(headers@.skip(0) =~= headers@);
    while i < headers.len()
        invariant
            i <= headers.len(),
            header_index(headers@, name@) == i + header_index(headers@.skip(i as int), name@),
        decreases headers.len() - i,
    {
        assert(headers@.skip(i as int)[0] == headers@[i as int]);
        if str_eq(headers[i].name.as_str(), name) {
            return Some(&headers[i].value);
        }
        assert(headers@.skip(i as int).drop_first() =~= headers@.skip(i + 1));
        i = i + 1;
    }
    None
}

/// What the backend said.
#[derive(Debug)]
pub struct ResponseResult {
    pub permission: Permission,
    pub superuser: Superuser,
    pub cacheable: Cacheable,
    /// The instant, in seconds since the epoch, at which the authentication runs out.
    pub expire_at: Option<u64>,
    /// The `acl` member of the answer: the rules to put on the session.
    pub acl_data: Option<Json>,
}

impl ResponseResult {
    pub fn new(permission: Permission, superuser: Superuser, cacheable: Cacheable) -> (r:
        ResponseResult)
        ensures
            r == (ResponseResult { permission, superuser, cacheable, expire_at: None, acl_data: None }),
    {
        ResponseResult { permission, superuser, cacheable, expire_at: None, acl_data: None }
    }
}

/// Whether a status code reports success.
pub open spec fn status_success(status: u16) -> bool {
    200 <= status < 300
}

/// Whether the answer announces a JSON body: its content type begins with
/// `application/json`.
pub open spec fn announces_json(headers: Seq<Header>) -> bool {
    match header_value(headers, "content-type"@) {
        Some(v) => has_prefix(v, "application/json".spec_bytes()),
        None => false,
    }
}

/// The cache lifetime that the header `x-cache` grants: its value read as a
/// decimal integer, nothing where the header is missing or is no such number.
pub open spec fn cache_lifetime(headers: Seq<Header>) -> Cacheable {
    match header_value(headers, "x-cache"@) {
        Some(v) => if forall|i: int| 0 <= i < v.len() ==> is_visible_ascii(#[trigger] v[i]) {
            parsed_i64(ascii_chars(v))
        } else {
            None
        },
        None => None,
    }
}

/// What a JSON body means. An object must name its `result`; its `superuser`
/// overrides the header; it may carry `expire_at` and `acl`. A string is the
/// result itself.
pub open spec fn json_described(doc: Json, superuser_header: Superuser, cacheable: Cacheable)
    -> Result<ResponseResult, AuthError> {
    match doc {
        Json::Object(members) => match member(members@, "result"@) {
            Some(Json::Str(result)) => {
                let superuser = match member(members@, "superuser"@) {
                    Some(Json::Bool(b)) => b,
                    _ => superuser_header,
                };
                let expire_at = match member(members@, "expire_at"@) {
                    Some(Json::Number(JsonNumber::Unsigned(n))) => Some(n),
                    _ => None,
                };
                match permission_named(result@, superuser) {
                    Some(permission) => Ok(
                        ResponseResult {
                            permission,
                            superuser,
                            cacheable,
                            expire_at,
                            acl_data: member(members@, "acl"@),
                        },
                    ),
                    None => Err(AuthError::ResultIncorrect),
                }
            },
            _ => Err(AuthError::ResultMissing),
        },
        Json::Str(word) => match permission_named(word@, superuser_header) {
            Some(permission) => Ok(
                ResponseResult {
                    permission,
                    superuser: superuser_header,
                    cacheable,
                    expire_at: None,
                    acl_data: None,
                },
            ),
            None => Err(AuthError::ResultIncorrect),
        },
        _ => Err(AuthError::BodyIncorrect),
    }
}

/// Reads the verdict out of a JSON body.
pub fn interpret_json(doc: Json, superuser_header: Superuser, cacheable: Cacheable) -> (r: Result<
    ResponseResult,
    AuthError,
>)
    ensures
        r == json_described(doc, superuser_header, cacheable),
{
    match doc {
        Json::Object(members) => {
            let mut members = members;
            proof {
                lemma_member_at_index(members@, "result"@);
                lemma_member_at_index(members@, "superuser"@);
                lemma_member_at_index(members@, "expire_at"@);
                lemma_member_at_index(members@, "acl"@);
            }
            let superuser = match find_member(&members, "superuser") {
                Some(i) => match members[i].1.as_bool() {
                    Some(b) => b,
                    None => superuser_header,
                },
                None => superuser_header,
            };
            let expire_at = match find_member(&members, "expire_at") {
                Some(i) => members[i].1.as_u64(),
                None => None,
            };
            let permission = match find_member(&members, "result") {
                Some(i) => match members[i].1.as_str() {
                    Some(word) => match Permission::try_from(word, superuser) {
                        Ok(permission) => permission,
                        Err(e) => {
                            return Err(e);
                        },
                    },
                    None => {
                        return Err(AuthError::ResultMissing);
                    },
                },
                None => {
                    return Err(AuthError::ResultMissing);
                },
            };
            let acl_data = match find_member(&members, "acl") {
                Some(i) => Some(members.remove(i).1),
                None => None,
            };
            Ok(ResponseResult { permission, superuser, cacheable, expire_at, acl_data })
        },
        Json::Str(word) => {
            match Permission::try_from(word.as_str(), superuser_header) {
                Ok(permission) => Ok(ResponseResult::new(permission, superuser_header, cacheable)),
                Err(e) => Err(e),
            }
        },
        _ => Err(AuthError::BodyIncorrect),
    }
}

/// What an answer of the backend means. Any status but success is no opinion,
/// and is not cached. A body announced as JSON is read as JSON; any other body
/// is the verdict in words, where an unknown word allows.
pub open spec fn response_described(resp: HttpResponse) -> Result<ResponseResult, AuthError> {
    if !status_success(resp.status) {
        Ok(
            ResponseResult {
                permission: Permission::Ignore,
                superuser: false,
                cacheable: None,
                expire_at: None,
                acl_data: None,
            },
        )
    } else {
        let superuser = header_value(resp.headers@, "x-superuser"@) is Some;
        let cacheable = cache_lifetime(resp.headers@);
        if announces_json(resp.headers@) {
            match json_document(resp.body@) {
                Some(doc) => json_described(doc, superuser, cacheable),
                None => Err(AuthError::BodyNotJson),
            }
        } else {
            Ok(
                ResponseResult {
                    permission: match permission_named(utf8_lossy(resp.body@), superuser) {
                        Some(p) => p,
                        None => Permission::Allow(superuser),
                    },
                    superuser,
                    cacheable,
                    expire_at: None,
                    acl_data: None,
                },
            )
        }
    }
}

/// Reads the verdict out of an answer of the backend.
pub fn response_result(resp: &HttpResponse) -> (r: Result<ResponseResult, AuthError>)
    ensures
        r == response_described(*resp),
{
    if !(200 <= resp.status && resp.status < 300) {
        return Ok(ResponseResult::new(Permission::Ignore, false, None));
    }
    let is_json = match find_header(&resp.headers, "content-type") {
        Some(v) => starts_with(v.as_slice(), "application/json".as_bytes()),
        None => false,
    };
    let superuser = find_header(&resp.headers, "x-superuser").is_some();
    let cacheable = match find_header(&resp.headers, "x-cache") {
        Some(v) => match visible_ascii_text(v.as_slice()) {
            Some(text) => parse_i64(text.as_str()),
            None => None,
        },
        None => None,
    };
    if is_json {
        match Json::parse(resp.body.as_slice()) {
            Some(doc) => interpret_json(doc, superuser, cacheable),
            None => Err(AuthError::BodyNotJson),
        }
    } else {
        let body = from_utf8_lossy(resp.body.as_slice());
        Ok(ResponseResult::new(Permission::from(body.as_str(), superuser), superuser, cacheable))
    }
}

/// The placeholders of a request parameter and what stands for each, for a
/// session and the operation that is being checked: `%u` the user name, `%c`
/// the client identifier, `%a` the IP address of the client, `%P` the password
/// read as UTF-8 leniently, `%r` the protocol level, `%A` the code of the
/// operation, `%t` the topic. What is not known stands as the empty text,
/// but for the protocol level: where that is not known, `%r` stays as it is.
pub open spec fn placeholder_values(
    id: &Id,
    password: Option<&Password>,
    protocol: Option<u8>,
    sub_or_pub: Option<(ACLType, &TopicName)>,
) -> Seq<(Seq<char>, Seq<char>)> {
    seq![
        (
            "%u"@,
            match id.username {
                Some(name) => name@,
                None => Seq::<char>::empty(),
            },
        ),
        ("%c"@, id.client_id@),
        (
            "%a"@,
            match id.remote_addr {
                Some(addr) => addr.ip@,
                None => Seq::<char>::empty(),
            },
        ),
        (
            "%P"@,
            match password {
                Some(p) => utf8_lossy(p@),
                None => Seq::<char>::empty(),
            },
        ),
        (
            match protocol {
                Some(_) => "%r"@,
                None => Seq::<char>::empty(),
            },
            match protocol {
                Some(level) => decimal(level as nat),
                None => Seq::<char>::empty(),
            },
        ),
        (
            "%A"@,
            match sub_or_pub {
                Some((ACLType::Sub, _)) => "1"@,
                Some((ACLType::Pub, _)) => "2"@,
                None => Seq::<char>::empty(),
            },
        ),
        (
            "%t"@,
            match sub_or_pub {
                Some((_, topic)) => topic@,
                None => Seq::<char>::empty(),
            },
        ),
    ]
}

/// The table of the placeholders for a session and the operation that is
/// being checked.
pub fn placeholders(
    id: &Id,
    password: Option<&Password>,
    protocol: Option<u8>,
    sub_or_pub: Option<(ACLType, &TopicName)>,
) -> (table: Vec<(Vec<char>, Vec<char>)>)
    ensures
        table_view(table@) == placeholder_values(id, password, protocol, sub_or_pub),
{
    let username = match &id.username {
        Some(name) => to_chars(name.as_str()),
        None => Vec::new(),
    };
    let remote_addr = match &id.remote_addr {
        Some(addr) => to_chars(addr.ip.as_str()),
        None => Vec::new(),
    };
    let password_text = match password {
        Some(p) => {
            let text = from_utf8_lossy(p.as_slice());
            to_chars(text.as_str())
        },
        None => Vec::new(),
    };
    let (protocol_mark, protocol_text) = match protocol {
        Some(level) => {
            let text = format_u64(level as u64);
            (to_chars("%r"), to_chars(text.as_str()))
        },
        None => (Vec::new(), Vec::new()),
    };
    let (acl_type, topic) = match sub_or_pub {
        Some((acl_type, topic)) => (to_chars(acl_type.as_str()), to_chars(topic.as_str())),
        None => (Vec::new(), Vec::new()),
    };
    let mut table: Vec<(Vec<char>, Vec<char>)> = Vec::new();
    table.push((to_chars("%u"), username));
    table.push((to_chars("%c"), to_chars(id.client_id.as_str())));
    table.push((to_chars("%a"), remote_addr));
    table.push((to_chars("%P"), password_text));
    table.push((protocol_mark, protocol_text));
    table.push((to_chars("%A"), acl_type));
    table.push((to_chars("%t"), topic));
    assert(table_view(table@) =~= placeholder_values(id, password, protocol, sub_or_pub));
    table
}

/// A list of names with their values: the parameters or the headers of a
/// request. Among the parameters of a request no name occurs twice.
pub type Pairs = Vec<(String, String)>;

/// Whether no name occurs twice among the pairs.
pub open spec fn unique_names(pairs: Seq<(String, String)>) -> bool {
    forall|i: int, j: int| 0 <= i < j < pairs.len() ==> pairs[i].0@ != pairs[j].0@
}

/// Whether `after` holds the pairs of `before` with the placeholders of every
/// value replaced; the names stay.
pub open spec fn pairs_substituted(
    before: Seq<(String, String)>,
    after: Seq<(String, String)>,
    values: Seq<(Seq<char>, Seq<char>)>,
) -> bool {
    &&& after.len() == before.len()
    &&& forall|i: int|
        0 <= i < before.len() ==> (#[trigger] after[i]).0 == before[i].0 && after[i].1@
            == expanded(before[i].1@, values)
}

/// Replacing the placeholders leaves the names as they are: where no name
/// occurred twice, none does afterwards.
pub proof fn lemma_names_stay_unique(
    before: Seq<(String, String)>,
    after: Seq<(String, String)>,
    values: Seq<(Seq<char>, Seq<char>)>,
)
    requires
        pairs_substituted(before, after, values),
        unique_names(before),
    ensures
        unique_names(after),
{
    assert forall|i: int, j: int| 0 <= i < j < after.len() implies after[i].0@ != after[j].0@ by {
        assert(after[i].0 == before[i].0);
        assert(after[j].0 == before[j].0);
    }
}

/// The HTTP method of a request.
#[derive(Debug, Clone, Copy, PartialEq, Eq, Hash, Structural)]
pub enum Method {
    Get,
    Post,
    Put,
}

/// How a request carries its parameters.
#[derive(Debug, Clone, Copy, PartialEq, Eq, Hash, Structural)]
pub enum Encoding {
    /// In the query of the URL.
    Query,
    /// As a JSON object in the body.
    Json,
    /// As a URL-encoded form in the body.
    Form,
}

/// One configured request: where it goes and what it carries.
#[derive(Debug, Clone, PartialEq, Eq)]
pub struct Req {
    pub url: String,
    pub method: Method,
    /// Whether a body is written as JSON rather than as a form.
    pub json: bool,
    pub headers: Option<Pairs>,
    pub params: Pairs,
}

impl Req {
    /// No parameter is named twice.
    pub open spec fn wf(&self) -> bool {
        unique_names(self.params@)
    }

    pub fn is_get(&self) -> (r: bool)
        ensures
            r == (self.method is Get),
    {
        match self.method {
            Method::Get => true,
            _ => false,
        }
    }

    pub fn json_body(&self) -> (r: bool)
        ensures
            r == self.json,
    {
        self.json
    }
}

/// The settings of the backend.
#[derive(Debug, Clone, PartialEq, Eq)]
pub struct PluginConfig {
    pub priority: i32,
    /// How long a request may take, in milliseconds.
    pub http_timeout: u64,
    pub headers: Option<Pairs>,
    pub http_auth_req: Option<Req>,
    pub http_acl_req: Option<Req>,
    /// Whether a request that got no answer denies.
    pub deny_if_error: bool,
    pub disconnect_if_pub_rejected: bool,
    pub disconnect_if_expiry: bool,
}

/// A request, ready to be sent.
#[derive(Debug, Clone, PartialEq, Eq)]
pub struct HttpRequest {
    pub method: Method,
    pub url: String,
    pub headers: Pairs,
    pub encoding: Encoding,
    pub params: Pairs,
    /// How long the request may take, in milliseconds.
    pub timeout: u64,
}

/// Whether one of the pairs has this name.
pub open spec fn names_contain(pairs: Seq<(String, String)>, name: Seq<char>) -> bool {
    exists|i: int| 0 <= i < pairs.len() && (#[trigger] pairs[i]).0@ == name
}

/// The defaults that the request's own headers do not replace, in order.
pub open spec fn kept_defaults(defaults: Seq<(String, String)>, own: Seq<(String, String)>) -> Seq<
    (String, String),
>
    decreases defaults.len(),
{
    if defaults.len() == 0 {
        Seq::empty()
    } else if names_contain(own, defaults.last().0@) {
        kept_defaults(defaults.drop_last(), own)
    } else {
        kept_defaults(defaults.drop_last(), own).push(defaults.last())
    }
}

/// The headers of a request: the defaults, where the request does not set a
/// header of the same name, then the request's own.
pub open spec fn merged_headers(defaults: Option<Pairs>, own: Option<Pairs>) -> Seq<(String, String)> {
    match (defaults, own) {
        (Some(d), Some(o)) => kept_defaults(d@, o@) + o@,
        (Some(d), None) => d@,
        (None, Some(o)) => o@,
        (None, None) => Seq::empty(),
    }
}

fn has_name(pairs: &Pairs, name: &str) -> (r: bool)
    ensures
        r == names_contain(pairs@, name@),
{
    let mut i: usize = 0;
    while i < pairs.len()
        invariant
            i <= pairs.len(),
            forall|k: int| 0 <= k < i ==> (#[trigger] pairs@[k]).0@ != name@,
        decreases pairs.len() - i,
    {
        if str_eq(pairs[i].0.as_str(), name) {
            return true;
        }
        i = i + 1;
    }
    false
}

fn copy_pairs(out: &mut Pairs, pairs: &Pairs)
    ensures
        final(out)@ == old(out)@ + pairs@,
{
    let mut i: usize = 0;
    while i < pairs.len()
        invariant
            i <= pairs.len(),
            out@ == old(out)@ + pairs@.take(i as int),
        decreases pairs.len() - i,
    {
        out.push((pairs[i].0.clone(), pairs[i].1.clone()));
        assert(pairs@.take(i + 1) =~= pairs@.take(i as int).push(pairs@[i as int]));
        i = i + 1;
    }
    assert(pairs@.take(pairs.len() as int) =~= pairs@);
}

/// The headers of a request, from the defaults and the request's own.
pub fn merge_headers(defaults: &Option<Pairs>, own: &Option<Pairs>) -> (r: Pairs)
    ensures
        r@ == merged_headers(*defaults, *own),
{
    let mut out: Pairs = Vec::new();
    match (defaults, own) {
        (Some(d), Some(o)) => {
            let mut i: usize = 0;
            while i < d.len()
                invariant
                    i <= d.len(),
                    out@ == kept_defaults(d@.take(i as int), o@),
                decreases d.len() - i,
            {
                assert(d@.take(i + 1).drop_last() =~= d@.take(i as int));
                assert(d@.take(i + 1).last() == d@[i as int]);
                if !has_name(o, d[i].0.as_str()) {
                    out.push((d[i].0.clone(), d[i].1.clone()));
                }
                i = i + 1;
            }
            assert(d@.take(d.len() as int) =~= d@);
            copy_pairs(&mut out, o);
        },
        (Some(d), None) => {
            copy_pairs(&mut out, d);
        },
        (None, Some(o)) => {
            copy_pairs(&mut out, o);
        },
        (None, None) => {},
    }
    out
}

/// How a request carries its parameters: a GET in its query, any other method
/// in a JSON body where the request asks for JSON, else in a form.
pub open spec fn encoding_of(req: Req) -> Encoding {
    if req.method is Get {
        Encoding::Query
    } else if req.json {
        Encoding::Json
    } else {
        Encoding::Form
    }
}

/// Whether `request` is what the configured `req` becomes for these values.
pub open spec fn request_described(
    request: HttpRequest,
    cfg: PluginConfig,
    req: Req,
    values: Seq<(Seq<char>, Seq<char>)>,
) -> bool {
    &&& request.method == req.method
    &&& request.url == req.url
    &&& request.encoding == encoding_of(req)
    &&& request.timeout == cfg.http_timeout
    &&& request.headers@ == merged_headers(cfg.headers, req.headers)
    &&& pairs_substituted(req.params@, request.params@, values)
    &&& req.wf() ==> unique_names(request.params@)
}

/// What is known of the rules that an answer carries: where the answer allows
/// and its `acl` is an array of rules, the session gets them with the answer's
/// superuser flag and expiry; in every other case it gets nothing.
pub open spec fn auth_info_described(info: Option<AuthInfo>, res: ResponseResult) -> bool {
    match (res.permission, res.acl_data) {
        (Permission::Allow(_), Some(Json::Array(items))) => match rules_described(items@) {
            Ok(rules) => info matches Some(ai) && ai.superuser == res.superuser && ai.expire_at
                == res.expire_at && rule_values(ai.rules@) == rules,
            Err(_) => info is None,
        },
        _ => info is None,
    }
}

/// What follows from an authentication verdict at `now_secs`: an allowing
/// verdict whose rules have already run out is refused; any other allowing
/// verdict is committed with its rules; a denial is committed as a bad
/// user name or password; no opinion lets the chain go on.
pub open spec fn authenticate_outcome(
    verdict: (Permission, Option<AuthInfo>),
    now_secs: u64,
) -> ReturnType {
    match verdict.0 {
        Permission::Allow(superuser) => {
            if verdict.1 matches Some(info) && info.expired_at(now_secs) {
                (false, Some(HookResult::AuthResult(AuthResult::NotAuthorized)))
            } else {
                (false, Some(HookResult::AuthResult(AuthResult::Allow(superuser, verdict.1))))
            }
        },
        Permission::Deny => (false, Some(HookResult::AuthResult(AuthResult::BadUsernameOrPassword))),
        Permission::Ignore => (true, None),
    }
}

/// What follows from the verdict on a subscription.
pub open spec fn subscribe_outcome(verdict: Permission, qos: QoS) -> ReturnType {
    match verdict {
        Permission::Allow(_) => (
            false,
            Some(HookResult::SubscribeAclResult(SubscribeAclResult::Success(qos))),
        ),
        Permission::Deny => (
            false,
            Some(
                HookResult::SubscribeAclResult(
                    SubscribeAclResult::Failure(SubscribeAckReason::NotAuthorized),
                ),
            ),
        ),
        Permission::Ignore => (true, None),
    }
}

/// What follows from the verdict on a publish.
pub open spec fn publish_outcome(verdict: Permission, disconnect_if_pub_rejected: bool) -> ReturnType {
    match verdict {
        Permission::Allow(_) => (false, Some(HookResult::PublishAclResult(PublishAclResult::Allow))),
        Permission::Deny => (
            false,
            Some(HookResult::PublishAclResult(PublishAclResult::Rejected(disconnect_if_pub_rejected))),
        ),
        Permission::Ignore => (true, None),
    }
}

/// The verdict of a request that got no usable answer.
pub open spec fn error_verdict(deny_if_error: bool) -> Permission {
    if deny_if_error {
        Permission::Deny
    } else {
        Permission::Ignore
    }
}

/// The instant until which an answer received at `now` may be served: for
/// ever where the lifetime is negative, else `now` plus the lifetime, held at
/// the largest instant there is.
pub open spec fn cache_expiry(lifetime: i64, now: TimestampMillis) -> TimestampMillis {
    if lifetime < 0 {
        lifetime
    } else if now + lifetime > i64::MAX {
        i64::MAX
    } else {
        (now + lifetime) as i64
    }
}

/// What the handler does next.
#[derive(Debug)]
pub enum Step {
    /// The hook is answered.
    Done(ReturnType),
    /// The backend must be asked; how the request ended goes to `conclude`.
    Ask(HttpRequest),
    /// The hook is answered, and the session is to be told to close for this reason.
    Close(Reason, ReturnType),
}

/// The handler of the HTTP backend: its settings and its cache of publish verdicts.
pub struct AuthHandler {
    pub cfg: PluginConfig,
    pub caches: AclCache,
}

/// Whether the accumulator already holds a failed authentication.
pub open spec fn auth_failed(acc: Option<HookResult>) -> bool {
    acc matches Some(HookResult::AuthResult(res)) && (res is BadUsernameOrPassword || res
        is NotAuthorized)
}

/// Whether the accumulator already holds a refused subscription.
pub open spec fn subscribe_failed(acc: Option<HookResult>) -> bool {
    acc matches Some(HookResult::SubscribeAclResult(SubscribeAclResult::Failure(_)))
}

/// Whether the accumulator already holds a rejected publish.
pub open spec fn publish_rejected(acc: Option<HookResult>) -> bool {
    acc matches Some(HookResult::PublishAclResult(PublishAclResult::Rejected(_)))
}

impl AuthHandler {
    pub fn new(cfg: PluginConfig) -> (r: AuthHandler)
        ensures
            r.cfg == cfg,
            r.caches.entries() =~= Map::<(IdView, Seq<char>), (Permission, TimestampMillis)>::empty(),
    {
        AuthHandler { cfg, caches: AclCache::new() }
    }

    /// Replaces the placeholders in the value of every parameter.
    pub fn replaces(
        params: &mut Pairs,
        id: &Id,
        password: Option<&Password>,
        protocol: Option<u8>,
        sub_or_pub: Option<(ACLType, &TopicName)>,
    )
        ensures
            pairs_substituted(
                old(params)@,
                final(params)@,
                placeholder_values(id, password, protocol, sub_or_pub),
            ),
            unique_names(old(params)@) ==> unique_names(final(params)@),
    {
        let values = placeholders(id, password, protocol, sub_or_pub);
        let mut out: Pairs = Vec::new();
        let mut i: usize = 0;
        while i < params.len()
            invariant
                i <= params.len(),
                *params == *old(params),
                pairs_substituted(old(params)@.take(i as int), out@, table_view(values@)),
            decreases params.len() - i,
        {
            let value = expand(params[i].1.as_str(), &values);
            out.push((params[i].0.clone(), value));
            i = i + 1;
        }
        assert(old(params)@.take(params.len() as int) =~= old(params)@);
        proof {
            if unique_names(old(params)@) {
                lemma_names_stay_unique(old(params)@, out@, table_view(values@));
            }
        }
        *params = out;
    }

    /// Prepares a configured request for a session: the headers merged, the
    /// placeholders of the parameters replaced.
    pub fn request(
        &self,
        id: &Id,
        req_cfg: &Req,
        password: Option<&Password>,
        protocol: Option<u8>,
        sub_or_pub: Option<(ACLType, &TopicName)>,
    ) -> (r: HttpRequest)
        ensures
            request_described(
                r,
                self.cfg,
                *req_cfg,
                placeholder_values(id, password, protocol, sub_or_pub),
            ),
    {
        let headers = merge_headers(&self.cfg.headers, &req_cfg.headers);
        let mut params: Pairs = Vec::new();
        copy_pairs(&mut params, &req_cfg.params);
        assert(params@ =~= req_cfg.params@);
        Self::replaces(&mut params, id, password, protocol, sub_or_pub);
        let encoding = if req_cfg.is_get() {
            Encoding::Query
        } else if req_cfg.json_body() {
            Encoding::Json
        } else {
            Encoding::Form
        };
        HttpRequest {
            method: req_cfg.method,
            url: req_cfg.url.clone(),
            headers,
            encoding,
            params,
            timeout: self.cfg.http_timeout,
        }
    }

    /// The verdict of an authentication request, from how it ended: the
    /// answer's verdict with the rules it carries, or the verdict for errors.
    pub fn auth(&self, outcome: Result<ResponseResult, AuthError>) -> (r: (
        Permission,
        Option<AuthInfo>,
    ))
        ensures
            match outcome {
                Ok(res) => r.0 == res.permission && auth_info_described(r.1, res),
                Err(_) => r == (error_verdict(self.cfg.deny_if_error), None::<AuthInfo>),
            },
    {
        match outcome {
            Ok(res) => {
                let info = match res.permission {
                    Permission::Allow(_) => match &res.acl_data {
                        Some(Json::Array(items)) => match rules_from(items) {
                            Ok(rules) => Some(
                                AuthInfo { superuser: res.superuser, expire_at: res.expire_at, rules },
                            ),
                            Err(_) => None,
                        },
                        _ => None,
                    },
                    _ => None,
                };
                (res.permission, info)
            },
            Err(_) => {
                if self.cfg.deny_if_error {
                    (Permission::Deny, None)
                } else {
                    (Permission::Ignore, None)
                }
            },
        }
    }

    /// The verdict of an access request, from how it ended, and for how long
    /// it may be cached.
    pub fn acl(&self, outcome: Result<ResponseResult, AuthError>) -> (r: (Permission, Cacheable))
        ensures
            r == (match outcome {
                Ok(res) => (res.permission, res.cacheable),
                Err(_) => (error_verdict(self.cfg.deny_if_error), None::<i64>),
            }),
    {
        match outcome {
            Ok(res) => (res.permission, res.cacheable),
            Err(_) => {
                if self.cfg.deny_if_error {
                    (Permission::Deny, None)
                } else {
                    (Permission::Ignore, None)
                }
            },
        }
    }
}

/// What the answer to a request means, from how the request ended.
pub open spec fn result_described(outcome: Result<HttpResponse, AuthError>) -> Result<
    ResponseResult,
    AuthError,
> {
    match outcome {
        Ok(resp) => response_described(resp),
        Err(e) => Err(e),
    }
}

/// The verdict and the cache lifetime of an access request, from how it ended.
pub open spec fn acl_described(outcome: Result<HttpResponse, AuthError>, deny_if_error: bool) -> (
    Permission,
    Cacheable,
) {
    match result_described(outcome) {
        Ok(res) => (res.permission, res.cacheable),
        Err(_) => (error_verdict(deny_if_error), None),
    }
}

impl AuthHandler {
    /// Whether `step` asks the backend with the configured request `req`,
    /// prepared for these values; where nothing is configured, there is no
    /// opinion and the chain goes on with an empty accumulator.
    pub open spec fn asks(&self, step: Step, req: Option<Req>, values: Seq<(Seq<char>, Seq<char>)>) -> bool {
        match req {
            Some(req) => step matches Step::Ask(request) && request_described(
                request,
                self.cfg,
                req,
                values,
            ),
            None => step matches Step::Done(ret) && ret == (true, None::<HookResult>),
        }
    }

    /// What the handler does when a hook fires at `now`, as far as it can
    /// tell without the backend.
    pub open spec fn hook_described(
        &self,
        after: AuthHandler,
        param: &Parameter,
        acc: Option<HookResult>,
        now: TimestampMillis,
        step: Step,
    ) -> bool {
        &&& after.cfg == self.cfg
        &&& match *param {
            Parameter::ClientAuthenticate(info) => {
                &&& after.caches.entries() == self.caches.entries()
                &&& if auth_failed(acc) {
                    step matches Step::Done(ret) && ret == (false, acc)
                } else {
                    self.asks(
                        step,
                        self.cfg.http_auth_req,
                        placeholder_values(
                            &info.id,
                            match info.password {
                                Some(p) => Some(&p),
                                None => None,
                            },
                            Some(info.proto_ver),
                            None,
                        ),
                    )
                }
            },
            Parameter::ClientSubscribeCheckAcl(session, subscribe) => {
                &&& after.caches.entries() == self.caches.entries()
                &&& if subscribe_failed(acc) {
                    step matches Step::Done(ret) && ret == (false, acc)
                } else if session.auth_info matches Some(info) && info.subscribe_outcome(&subscribe, seconds_of(now))
                    is Some {
                    step matches Step::Done(ret) && Some(ret)
                        == session.auth_info->0.subscribe_outcome(&subscribe, seconds_of(now))
                } else {
                    self.asks(
                        step,
                        self.cfg.http_acl_req,
                        placeholder_values(
                            &session.id,
                            None,
                            session.protocol,
                            Some((ACLType::Sub, &subscribe.topic_filter)),
                        ),
                    )
                }
            },
            Parameter::MessagePublishCheckAcl(session, publish) => {
                if publish_rejected(acc) {
                    &&& after.caches.entries() == self.caches.entries()
                    &&& step matches Step::Done(ret) && ret == (false, acc)
                } else if session.auth_info matches Some(info) && info.publish_outcome(&publish, self.cfg.disconnect_if_pub_rejected, seconds_of(now)) is Some {
                    &&& after.caches.entries() == self.caches.entries()
                    &&& step matches Step::Done(ret) && Some(ret)
                        == session.auth_info->0.publish_outcome(&publish, self.cfg.disconnect_if_pub_rejected, seconds_of(now))
                } else {
                    match served(self.caches.entries(), session.id@, publish.topic@, now) {
                        Some(entry) => {
                            &&& after.caches.entries() == self.caches.entries()
                            &&& step matches Step::Done(ret) && ret == publish_outcome(
                                entry.0,
                                self.cfg.disconnect_if_pub_rejected,
                            )
                        },
                        None => {
                            &&& after.caches.entries() =~= self.caches.entries().remove(
                                (session.id@, publish.topic@),
                            )
                            &&& self.asks(
                                step,
                                self.cfg.http_acl_req,
                                placeholder_values(
                                    &session.id,
                                    None,
                                    session.protocol,
                                    Some((ACLType::Pub, &publish.topic)),
                                ),
                            )
                        },
                    }
                }
            },
            Parameter::ClientKeepalive(session, _) => {
                &&& after.caches.entries() == self.caches.entries()
                &&& if self.cfg.disconnect_if_expiry && (session.auth_info matches Some(info)
                    && info.expired_at(seconds_of(now))) {
                    step matches Step::Close(
                        Reason::ConnectDisconnect(Some(Disconnect::Other(words))),
                        ret,
                    ) && words@ == "Http Auth expired"@ && ret == (true, acc)
                } else {
                    step matches Step::Done(ret) && ret == (true, acc)
                }
            },
            Parameter::ClientDisconnected(session, _) => {
                &&& after.caches.entries() == without_session(self.caches.entries(), session.id@)
                &&& step matches Step::Done(ret) && ret == (true, acc)
            },
            _ => {
                &&& after.caches.entries() == self.caches.entries()
                &&& step matches Step::Done(ret) && ret == (true, acc)
            },
        }
    }

    /// Handles a hook at the instant `now` (milliseconds since the epoch).
    /// An accumulator that already holds a failure ends the chain as it is.
    /// The rules on the session decide where one of them applies. A publish
    /// is answered from the cache where a fresh verdict is there. Otherwise
    /// the backend is asked. A keepalive of a session whose authentication has
    /// run out asks for the session to be closed, where the settings say so.
    /// A disconnect drops the session's cached verdicts.
    pub fn hook(&mut self, param: &Parameter, acc: Option<HookResult>, now: TimestampMillis) -> (step:
        Step)
        ensures
            old(self).hook_described(*final(self), param, acc, now, step),
    {
        match param {
            Parameter::ClientAuthenticate(info) => {
                let failed = match &acc {
                    Some(HookResult::AuthResult(AuthResult::BadUsernameOrPassword)) => true,
                    Some(HookResult::AuthResult(AuthResult::NotAuthorized)) => true,
                    _ => false,
                };
                if failed {
                    return Step::Done((false, acc));
                }
                match &self.cfg.http_auth_req {
                    Some(req) => Step::Ask(
                        self.request(&info.id, req, info.password.as_ref(), Some(info.proto_ver), None),
                    ),
                    None => Step::Done((true, None)),
                }
            },
            Parameter::ClientSubscribeCheckAcl(session, subscribe) => {
                let failed = match &acc {
                    Some(HookResult::SubscribeAclResult(res)) => res.failure(),
                    _ => false,
                };
                if failed {
                    return Step::Done((false, acc));
                }
                if let Some(info) = &session.auth_info {
                    if let Some(ret) = info.subscribe_acl(subscribe, to_seconds(now)) {
                        return Step::Done(ret);
                    }
                }
                match &self.cfg.http_acl_req {
                    Some(req) => Step::Ask(
                        self.request(
                            &session.id,
                            req,
                            None,
                            session.protocol,
                            Some((ACLType::Sub, &subscribe.topic_filter)),
                        ),
                    ),
                    None => Step::Done((true, None)),
                }
            },
            Parameter::MessagePublishCheckAcl(session, publish) => {
                let rejected = match &acc {
                    Some(HookResult::PublishAclResult(PublishAclResult::Rejected(_))) => true,
                    _ => false,
                };
                if rejected {
                    return Step::Done((false, acc));
                }
                if let Some(info) = &session.auth_info {
                    if let Some(ret) = info.publish_acl(publish, self.cfg.disconnect_if_pub_rejected, to_seconds(now)) {
                        return Step::Done(ret);
                    }
                }
                match self.caches.lookup(&session.id, &publish.topic, now) {
                    Some((perm, _)) => Step::Done(self.publish_result(perm)),
                    None => match &self.cfg.http_acl_req {
                        Some(req) => Step::Ask(
                            self.request(
                                &session.id,
                                req,
                                None,
                                session.protocol,
                                Some((ACLType::Pub, &publish.topic)),
                            ),
                        ),
                        None => Step::Done((true, None)),
                    },
                }
            },
            Parameter::ClientKeepalive(session, _) => {
                let expired = match &session.auth_info {
                    Some(info) => info.is_expired(to_seconds(now)),
                    None => false,
                };
                if expired && self.cfg.disconnect_if_expiry {
                    let words = String::from_str("Http Auth expired");
                    Step::Close(Reason::ConnectDisconnect(Some(Disconnect::Other(words))), (true, acc))
                } else {
                    Step::Done((true, acc))
                }
            },
            Parameter::ClientDisconnected(session, _) => {
                self.caches.cache_remove(&session.id);
                Step::Done((true, acc))
            },
            _ => Step::Done((true, acc)),
        }
    }

    /// What follows from the verdict on a publish, under these settings.
    pub fn publish_result(&self, verdict: Permission) -> (r: ReturnType)
        ensures
            r == publish_outcome(verdict, self.cfg.disconnect_if_pub_rejected),
    {
        match verdict {
            Permission::Allow(_) => (false, Some(HookResult::PublishAclResult(PublishAclResult::Allow))),
            Permission::Deny => (
                false,
                Some(
                    HookResult::PublishAclResult(
                        PublishAclResult::Rejected(self.cfg.disconnect_if_pub_rejected),
                    ),
                ),
            ),
            Permission::Ignore => (true, None),
        }
    }

    /// What follows from an authentication verdict at `now_secs`.
    pub fn authenticate_result(verdict: (Permission, Option<AuthInfo>), now_secs: u64) -> (r: ReturnType)
        ensures
            r == authenticate_outcome(verdict, now_secs),
    {
        match verdict.0 {
            Permission::Allow(superuser) => {
                let expired = match &verdict.1 {
                    Some(info) => info.is_expired(now_secs),
                    None => false,
                };
                if expired {
                    (false, Some(HookResult::AuthResult(AuthResult::NotAuthorized)))
                } else {
                    (false, Some(HookResult::AuthResult(AuthResult::Allow(superuser, verdict.1))))
                }
            },
            Permission::Deny => (
                false,
                Some(HookResult::AuthResult(AuthResult::BadUsernameOrPassword)),
            ),
            Permission::Ignore => (true, None),
        }
    }

    /// What follows from the verdict on a subscription.
    pub fn subscribe_result(verdict: Permission, qos: QoS) -> (r: ReturnType)
        ensures
            r == subscribe_outcome(verdict, qos),
    {
        match verdict {
            Permission::Allow(_) => (
                false,
                Some(HookResult::SubscribeAclResult(SubscribeAclResult::new_success(qos))),
            ),
            Permission::Deny => (
                false,
                Some(
                    HookResult::SubscribeAclResult(
                        SubscribeAclResult::new_failure(SubscribeAckReason::NotAuthorized),
                    ),
                ),
            ),
            Permission::Ignore => (true, None),
        }
    }

    /// What the handler answers once the request that `hook` asked for has
    /// ended, at the instant `now`.
    pub open spec fn conclude_described(
        &self,
        after: AuthHandler,
        param: &Parameter,
        outcome: Result<HttpResponse, AuthError>,
        now: TimestampMillis,
        ret: ReturnType,
    ) -> bool {
        &&& after.cfg == self.cfg
        &&& match *param {
            Parameter::ClientAuthenticate(_) => {
                &&& after.caches.entries() == self.caches.entries()
                &&& match result_described(outcome) {
                    Ok(res) => exists|info: Option<AuthInfo>|
                        auth_info_described(info, res) && ret == authenticate_outcome(
                            (res.permission, info),
                            seconds_of(now),
                        ),
                    Err(_) => ret == authenticate_outcome(
                        (error_verdict(self.cfg.deny_if_error), None),
                        seconds_of(now),
                    ),
                }
            },
            Parameter::ClientSubscribeCheckAcl(_, subscribe) => {
                &&& after.caches.entries() == self.caches.entries()
                &&& ret == subscribe_outcome(
                    acl_described(outcome, self.cfg.deny_if_error).0,
                    subscribe.qos,
                )
            },
            Parameter::MessagePublishCheckAcl(session, publish) => {
                let (verdict, cacheable) = acl_described(outcome, self.cfg.deny_if_error);
                &&& after.caches.entries() == (match cacheable {
                    Some(lifetime) => self.caches.entries().insert(
                        (session.id@, publish.topic@),
                        (verdict, cache_expiry(lifetime, now)),
                    ),
                    None => self.caches.entries(),
                })
                &&& ret == publish_outcome(verdict, self.cfg.disconnect_if_pub_rejected)
            },
            _ => {
                &&& after.caches.entries() == self.caches.entries()
                &&& ret == (true, None::<HookResult>)
            },
        }
    }

    /// Answers the hook for which `hook` asked the backend, from how the
    /// request ended. A verdict on a publish that may be cached is stored for
    /// the session and the topic.
    pub fn conclude(
        &mut self,
        param: &Parameter,
        outcome: Result<HttpResponse, AuthError>,
        now: TimestampMillis,
    ) -> (ret: ReturnType)
        ensures
            old(self).conclude_described(*final(self), param, outcome, now, ret),
    {
        let result = match outcome {
            Ok(resp) => response_result(&resp),
            Err(e) => Err(e),
        };
        match param {
            Parameter::ClientAuthenticate(_) => {
                let verdict = self.auth(result);
                Self::authenticate_result(verdict, to_seconds(now))
            },
            Parameter::ClientSubscribeCheckAcl(_, subscribe) => {
                let (verdict, _) = self.acl(result);
                Self::subscribe_result(verdict, subscribe.qos)
            },
            Parameter::MessagePublishCheckAcl(session, publish) => {
                let (verdict, cacheable) = self.acl(result);
                if let Some(lifetime) = cacheable {
                    let expire = if lifetime < 0 {
                        lifetime
                    } else if now > i64::MAX - lifetime {
                        i64::MAX
                    } else {
                        now + lifetime
                    };
                    self.caches.cache_set(session.id.duplicate(), publish.topic.clone(), verdict, expire);
                }
                self.publish_result(verdict)
            },
            _ => (true, None),
        }
    }
}

/// The hooks for which the backend registers its handler, each with its
/// priority: authentication and the two access checks at the configured
/// priority, keepalive and disconnect at priority zero.
pub fn hooks(priority: i32) -> (r: Vec<(Type, i32)>)
    ensures
        r@ == seq![
            (Type::ClientAuthenticate, priority),
            (Type::ClientSubscribeCheckAcl, priority),
            (Type::MessagePublishCheckAcl, priority),
            (Type::ClientKeepalive, 0i32),
            (Type::ClientDisconnected, 0i32),
        ],
{
    let mut r: Vec<(Type, i32)> = Vec::new();
    r.push((Type::ClientAuthenticate, priority));
    r.push((Type::ClientSubscribeCheckAcl, priority));
    r.push((Type::MessagePublishCheckAcl, priority));
    r.push((Type::ClientKeepalive, 0));
    r.push((Type::ClientDisconnected, 0));
    r
}

} // verus!
