//! Authentication by a JSON Web Token that the client sends as its user name
//! or its password.

use vstd::prelude::*;
use jsonwebtoken::{Algorithm, DecodingKey, Validation};
use crate::acl::{rule_values, rules_described, rules_from};
use crate::auth_http::{auth_failed, publish_rejected, subscribe_failed};
use crate::hook::{AuthResult, HookResult, Parameter, PublishAclResult, ReturnType, Type};
use crate::json::{json_from_value, Json, JsonNumber};
use crate::placeholder::{contains, expand, expanded, mentions, table_view};
use crate::text::{decimal, format_u64, from_utf8_lossy, str_eq, to_chars, utf8_lossy};
use crate::types::{
    seconds_of, to_seconds, AuthInfo, ConnectInfo, Disconnect, Reason, TimestampMillis,
};

verus! {

/// `jsonwebtoken::Algorithm`, the algorithm that signs a token.
#[verifier::external_type_specification]
#[verifier::external_body]
pub struct ExAlgorithm(Algorithm);

/// `jsonwebtoken::DecodingKey`, the key that verifies a signature.
#[verifier::external_type_specification]
#[verifier::external_body]
pub struct ExDecodingKey(DecodingKey);

/// `jsonwebtoken::Validation`, what the check of a token is to look at.
#[verifier::external_type_specification]
#[verifier::external_body]
pub struct ExValidation(Validation);

/// `jsonwebtoken::errors::Error`, why a token is refused.
#[verifier::external_type_specification]
#[verifier::external_body]
pub struct ExJwtError(jsonwebtoken::errors::Error);

/// Why a token is refused.
#[derive(Debug, Clone, Copy, PartialEq, Eq, Hash, Structural)]
pub enum JwtError {
    /// An expected value names the user, and the client gave no user name.
    UsernameMissing,
    /// An expected value names the address, and the address is not known.
    IpaddrMissing,
    /// The header of the token cannot be read.
    Header,
    /// The token is not valid under the key and the expected claims.
    Token,
    /// A claim does not have one of the values that are allowed for it.
    Claim,
}

/// Where the token is taken from.
#[derive(Debug, Clone, Copy, PartialEq, Eq, Hash, Structural)]
pub enum JWTFrom {
    Username,
    Password,
}

/// Which claims a token must meet.
#[derive(Debug, Clone, PartialEq, Eq)]
pub struct ValidateClaims {
    pub validate_exp_enable: bool,
    pub validate_nbf_enable: bool,
    /// The audiences of which the token must name one.
    pub validate_aud: Option<Vec<String>>,
    /// The issuers of which the token must name one.
    pub validate_iss: Option<Vec<String>>,
    /// The subject that the token must name.
    pub validate_sub: Option<String>,
    /// For each of these claims, the values of which the token must hold one.
    pub validate_customs: Vec<(String, Vec<String>)>,
}

/// The settings of the backend.
pub struct PluginConfig {
    pub priority: i32,
    pub from: JWTFrom,
    /// The key that verifies the signature.
    pub decoded_key: DecodingKey,
    pub validate_claims: ValidateClaims,
    pub disconnect_if_pub_rejected: bool,
    pub disconnect_if_expiry: bool,
}

/// What the validation of a token is to check, with the expected values
/// already made out for the client.
#[derive(Debug, Clone, PartialEq, Eq)]
pub struct ValidationPlan {
    pub validate_exp: bool,
    pub validate_nbf: bool,
    pub validate_aud: bool,
    pub aud: Option<Vec<String>>,
    pub iss: Option<Vec<String>>,
    pub sub: Option<String>,
    /// The registered claims that the token must carry.
    pub required_spec_claims: Vec<String>,
}

/// Whether `jsonwebtoken` can read the header of this token.
pub uninterp spec fn token_header_read(token: Seq<char>) -> bool;

/// `jsonwebtoken::decode_header`: the algorithm named in the header of the
/// token, or the error where the header cannot be read. Whether it can be
/// read depends on the token alone.
#[verifier::external_body]
fn jwt_algorithm(token: &str) -> (r: Result<Algorithm, jsonwebtoken::errors::Error>)
    ensures
        r is Ok <==> token_header_read(token@),
{
    jsonwebtoken::decode_header(token).map(|header| header.alg)
}

/// `Validation::new` for the algorithm, with the checks and the expected
/// values of the plan put in its fields.
#[verifier::external_body]
fn jwt_validation(alg: Algorithm, plan: &ValidationPlan) -> Validation {
    let mut validation = Validation::new(alg);
    validation.validate_exp = plan.validate_exp;
    validation.validate_nbf = plan.validate_nbf;
    validation.validate_aud = plan.validate_aud;
    validation.aud = plan.aud.as_ref().map(|items| items.iter().cloned().collect());
    validation.iss = plan.iss.as_ref().map(|items| items.iter().cloned().collect());
    validation.sub = plan.sub.clone();
    validation.required_spec_claims = plan.required_spec_claims.iter().cloned().collect();
    validation
}

/// `jsonwebtoken::decode`: the claims of the token, where its signature
/// verifies under the key and its claims meet the validation at the time of
/// the call; its error otherwise.
#[verifier::external_body]
fn jwt_decode(token: &str, key: &DecodingKey, validation: &Validation) -> Result<
    Json,
    jsonwebtoken::errors::Error,
> {
    jsonwebtoken::decode::<serde_json::Value>(token, key, validation).map(
        |data| json_from_value(data.claims),
    )
}

/// The values that stand for the placeholders of an expected value:
/// `${username}`, `${clientid}`, `${ipaddr}` and `${protocol}`.
pub open spec fn claim_table(info: ConnectInfo) -> Seq<(Seq<char>, Seq<char>)> {
    seq![
        (
            "${username}"@,
            match info.id.username {
                Some(name) => name@,
                None => Seq::<char>::empty(),
            },
        ),
        ("${clientid}"@, info.id.client_id@),
        (
            "${ipaddr}"@,
            match info.id.remote_addr {
                Some(addr) => addr.ip@,
                None => Seq::<char>::empty(),
            },
        ),
        ("${protocol}"@, decimal(info.proto_ver as nat)),
    ]
}

/// An expected value made out for a client: its placeholders replaced. A
/// value that names the user of a client without user name, or the address of
/// a client whose address is not known, is an error.
pub open spec fn replaced(info: ConnectInfo, item: Seq<char>) -> Result<Seq<char>, JwtError> {
    if mentions(item, "${username}"@) && info.id.username is None {
        Err(JwtError::UsernameMissing)
    } else if mentions(item, "${ipaddr}"@) && info.id.remote_addr is None {
        Err(JwtError::IpaddrMissing)
    } else {
        Ok(expanded(item, claim_table(info)))
    }
}

/// The expected values of a list made out for a client, or the error of the
/// first that cannot be made out.
pub open spec fn all_replaced(info: ConnectInfo, items: Seq<String>) -> Result<Seq<Seq<char>>, JwtError>
    decreases items.len(),
{
    if items.len() == 0 {
        Ok(Seq::empty())
    } else {
        match all_replaced(info, items.drop_last()) {
            Err(e) => Err(e),
            Ok(earlier) => match replaced(info, items.last()@) {
                Err(e) => Err(e),
                Ok(last) => Ok(earlier.push(last)),
            },
        }
    }
}

/// The characters of each text.
pub open spec fn texts(strings: Seq<String>) -> Seq<Seq<char>> {
    Seq::new(strings.len(), |i: int| strings[i]@)
}

/// The handler of the JWT backend.
pub struct AuthHandler {
    pub cfg: PluginConfig,
}

impl AuthHandler {
    pub fn new(cfg: PluginConfig) -> (r: AuthHandler)
        ensures
            r.cfg == cfg,
    {
        AuthHandler { cfg }
    }

    /// The text in which the token is looked for: the user name, or the
    /// password read as UTF-8 leniently.
    pub open spec fn token_of(&self, info: ConnectInfo) -> Option<Seq<char>> {
        match self.cfg.from {
            JWTFrom::Username => match info.id.username {
                Some(name) => Some(name@),
                None => None,
            },
            JWTFrom::Password => match info.password {
                Some(password) => Some(utf8_lossy(password@)),
                None => None,
            },
        }
    }

    /// The token that the client sent, if it sent one.
    pub fn token(&self, connect_info: &ConnectInfo) -> (r: Option<String>)
        ensures
            match r {
                Some(token) => self.token_of(*connect_info) == Some(token@),
                None => self.token_of(*connect_info) is None,
            },
    {
        match self.cfg.from {
            JWTFrom::Username => match &connect_info.id.username {
                Some(name) => Some(name.clone()),
                None => None,
            },
            JWTFrom::Password => match &connect_info.password {
                Some(password) => Some(from_utf8_lossy(password.as_slice())),
                None => None,
            },
        }
    }

    /// Makes an expected value out for a client.
    pub fn replaces(connect_info: &ConnectInfo, item: &str) -> (r: Result<String, JwtError>)
        ensures
            match r {
                Ok(text) => replaced(*connect_info, item@) == Ok::<Seq<char>, JwtError>(text@),
                Err(e) => replaced(*connect_info, item@) == Err::<Seq<char>, JwtError>(e),
            },
    {
        if connect_info.id.username.is_none() && contains(item, "${username}") {
            return Err(JwtError::UsernameMissing);
        }
        if connect_info.id.remote_addr.is_none() && contains(item, "${ipaddr}") {
            return Err(JwtError::IpaddrMissing);
        }
        let username = match &connect_info.id.username {
            Some(name) => to_chars(name.as_str()),
            None => Vec::new(),
        };
        let ipaddr = match &connect_info.id.remote_addr {
            Some(addr) => to_chars(addr.ip.as_str()),
            None => Vec::new(),
        };
        let protocol = format_u64(connect_info.proto_ver as u64);
        let mut table: Vec<(Vec<char>, Vec<char>)> = Vec::new();
        table.push((to_chars("${username}"), username));
        table.push((to_chars("${clientid}"), to_chars(connect_info.id.client_id.as_str())));
        table.push((to_chars("${ipaddr}"), ipaddr));
        table.push((to_chars("${protocol}"), to_chars(protocol.as_str())));
        assert(table_view(table@) =~= claim_table(*connect_info));
        Ok(expand(item, &table))
    }

    /// Makes the expected values of a list out for a client.
    pub fn replaces_all(connect_info: &ConnectInfo, items: &Vec<String>) -> (r: Result<
        Vec<String>,
        JwtError,
    >)
        ensures
            match r {
                Ok(list) => all_replaced(*connect_info, items@) == Ok::<Seq<Seq<char>>, JwtError>(
                    texts(list@),
                ),
                Err(e) => all_replaced(*connect_info, items@) == Err::<Seq<Seq<char>>, JwtError>(e),
            },
    {
        let mut list: Vec<String> = Vec::new();
        let mut i: usize = 0;
        assert(items@.take(0).len() == 0);
        assert(texts(list@) =~= Seq::<Seq<char>>::empty());
        while i < items.len()
            invariant
                i <= items.len(),
                all_replaced(*connect_info, items@.take(i as int)) == Ok::<
                    Seq<Seq<char>>,
                    JwtError,
                >(texts(list@)),
            decreases items.len() - i,
        {
            assert(items@.take(i + 1).drop_last() =~= items@.take(i as int));
            assert(items@.take(i + 1).last() == items@[i as int]);
            match Self::replaces(connect_info, items[i].as_str()) {
                Ok(text) => {
                    let ghost before = list@;
                    list.push(text);
                    assert(texts(list@) =~= texts(before).push(text@));
                },
                Err(e) => {
                    proof {
                        lemma_replace_error_stays(*connect_info, items@, i + 1);
                    }
                    return Err(e);
                },
            }
            i = i + 1;
        }
        assert(items@.take(items.len() as int) =~= items@);
        Ok(list)
    }
}

/// Once a prefix of the list fails, the whole list fails with the same error.
proof fn lemma_replace_error_stays(info: ConnectInfo, items: Seq<String>, k: int)
    requires
        0 <= k <= items.len(),
        all_replaced(info, items.take(k)) is Err,
    ensures
        all_replaced(info, items) == all_replaced(info, items.take(k)),
    decreases items.len() - k,
{
    if k < items.len() {
        assert(items.take(k + 1).drop_last() =~= items.take(k));
        lemma_replace_error_stays(info, items, k + 1);
    } else {
        assert(items.take(k) =~= items);
    }
}

/// The value of a [`ValidationPlan`].
pub struct PlanView {
    pub validate_exp: bool,
    pub validate_nbf: bool,
    pub validate_aud: bool,
    pub aud: Option<Seq<Seq<char>>>,
    pub iss: Option<Seq<Seq<char>>>,
    pub sub: Option<Seq<char>>,
    pub required_spec_claims: Seq<Seq<char>>,
}

impl View for ValidationPlan {
    type V = PlanView;

    open spec fn view(&self) -> PlanView {
        PlanView {
            validate_exp: self.validate_exp,
            validate_nbf: self.validate_nbf,
            validate_aud: self.validate_aud,
            aud: match self.aud {
                Some(list) => Some(texts(list@)),
                None => None,
            },
            iss: match self.iss {
                Some(list) => Some(texts(list@)),
                None => None,
            },
            sub: match self.sub {
                Some(text) => Some(text@),
                None => None,
            },
            required_spec_claims: texts(self.required_spec_claims@),
        }
    }
}

/// The expected values of a list that is set and not empty, made out for a client.
pub open spec fn expected_list(info: ConnectInfo, list: Option<Vec<String>>) -> Option<
    Result<Seq<Seq<char>>, JwtError>,
> {
    match list {
        Some(items) => if items@.len() > 0 {
            Some(all_replaced(info, items@))
        } else {
            None
        },
        None => None,
    }
}

/// What the validation of a token is to check for a client. Audiences,
/// issuers and subject are checked where they are set, and the claim is then
/// required; their expected values are made out for the client. The first
/// value that cannot be made out is the error.
pub open spec fn planned(info: ConnectInfo, cfg: ValidateClaims) -> Result<PlanView, JwtError> {
    let aud = expected_list(info, cfg.validate_aud);
    let iss = expected_list(info, cfg.validate_iss);
    let sub = match cfg.validate_sub {
        Some(item) => Some(replaced(info, item@)),
        None => None,
    };
    if aud is Some && aud->0 is Err {
        Err(aud->0->Err_0)
    } else if iss is Some && iss->0 is Err {
        Err(iss->0->Err_0)
    } else if sub is Some && sub->0 is Err {
        Err(sub->0->Err_0)
    } else {
        Ok(
            PlanView {
                validate_exp: cfg.validate_exp_enable,
                validate_nbf: cfg.validate_nbf_enable,
                validate_aud: aud is Some,
                aud: match aud {
                    Some(list) => Some(list->Ok_0),
                    None => None,
                },
                iss: match iss {
                    Some(list) => Some(list->Ok_0),
                    None => None,
                },
                sub: match sub {
                    Some(text) => Some(text->Ok_0),
                    None => None,
                },
                required_spec_claims: (if aud is Some {
                    seq!["aud"@]
                } else {
                    Seq::empty()
                }) + (if iss is Some {
                    seq!["iss"@]
                } else {
                    Seq::empty()
                }) + (if sub is Some {
                    seq!["sub"@]
                } else {
                    Seq::empty()
                }),
            },
        )
    }
}

fn expect_list(connect_info: &ConnectInfo, list: &Option<Vec<String>>) -> (r: Result<
    Option<Vec<String>>,
    JwtError,
>)
    ensures
        match r {
            Ok(Some(made)) => expected_list(*connect_info, *list) == Some(
                Ok::<Seq<Seq<char>>, JwtError>(texts(made@)),
            ),
            Ok(None) => expected_list(*connect_info, *list) is None,
            Err(e) => expected_list(*connect_info, *list) == Some(
                Err::<Seq<Seq<char>>, JwtError>(e),
            ),
        },
{
    match list {
        Some(items) => {
            if items.len() > 0 {
                match AuthHandler::replaces_all(connect_info, items) {
                    Ok(made) => Ok(Some(made)),
                    Err(e) => Err(e),
                }
            } else {
                Ok(None)
            }
        },
        None => Ok(None),
    }
}

/// Whether a claim of the token has one of the values that are allowed for
/// it: the claim is a string, and the string is one of the values.
pub open spec fn claim_allowed(claims: Json, name: Seq<char>, allowed: Seq<Seq<char>>) -> bool {
    claims.field(name) matches Some(Json::Str(value)) && allowed.contains(value@)
}

/// Whether the token meets the claims that are set for it, the first `k` of
/// them: the allowed values of each are made out for the client, and the
/// claim has one of them. The first value that cannot be made out is the
/// error; else the first claim that has none of its values.
pub open spec fn customs_met(
    info: ConnectInfo,
    customs: Seq<(String, Vec<String>)>,
    claims: Json,
) -> Result<(), JwtError> {
    if exists|i: int| 0 <= i < customs.len() && all_replaced(info, (#[trigger] customs[i]).1@) is Err {
        Err(
            all_replaced(
                info,
                customs[first_unmade(info, customs)].1@,
            )->Err_0,
        )
    } else if forall|i: int|
        0 <= i < customs.len() ==> claim_allowed(
            claims,
            (#[trigger] customs[i]).0@,
            all_replaced(info, customs[i].1@)->Ok_0,
        ) {
        Ok(())
    } else {
        Err(JwtError::Claim)
    }
}

/// The position of the first claim whose allowed values cannot be made out,
/// or the number of claims where all can.
pub open spec fn first_unmade(info: ConnectInfo, customs: Seq<(String, Vec<String>)>) -> int
    decreases customs.len(),
{
    if customs.len() == 0 || all_replaced(info, customs[0].1@) is Err {
        0
    } else {
        1 + first_unmade(info, customs.drop_first())
    }
}

proof fn lemma_first_unmade(info: ConnectInfo, customs: Seq<(String, Vec<String>)>, k: int)
    requires
        0 <= k <= customs.len(),
        forall|i: int| 0 <= i < k ==> all_replaced(info, (#[trigger] customs[i]).1@) is Ok,
        k < customs.len() ==> all_replaced(info, customs[k].1@) is Err,
    ensures
        first_unmade(info, customs) == k,
    decreases customs.len(),
{
    if k > 0 {
        assert(all_replaced(info, customs[0].1@) is Ok);
        assert forall|i: int| 0 <= i < k - 1 implies all_replaced(
            info,
            (#[trigger] customs.drop_first()[i]).1@,
        ) is Ok by {
            assert(customs.drop_first()[i] == customs[i + 1]);
        }
        assert(k - 1 < customs.drop_first().len() ==> customs.drop_first()[k - 1] == customs[k]);
        lemma_first_unmade(info, customs.drop_first(), k - 1);
    }
}

fn list_contains(list: &Vec<String>, value: &str) -> (r: bool)
    ensures
        r == texts(list@).contains(value@),
{
    let mut i: usize = 0;
    while i < list.len()
        invariant
            i <= list.len(),
            forall|k: int| 0 <= k < i ==> texts(list@)[k] != value@,
        decreases list.len() - i,
    {
        if str_eq(list[i].as_str(), value) {
            assert(texts(list@)[i as int] == value@);
            return true;
        }
        i = i + 1;
    }
    false
}

impl AuthHandler {
    /// What the validation of a token is to check for a client.
    pub fn validation_plan(connect_info: &ConnectInfo, cfg: &ValidateClaims) -> (r: Result<
        ValidationPlan,
        JwtError,
    >)
        ensures
            match r {
                Ok(plan) => planned(*connect_info, *cfg) == Ok::<PlanView, JwtError>(plan@),
                Err(e) => planned(*connect_info, *cfg) == Err::<PlanView, JwtError>(e),
            },
    {
        let aud = match expect_list(connect_info, &cfg.validate_aud) {
            Ok(aud) => aud,
            Err(e) => {
                return Err(e);
            },
        };
        let iss = match expect_list(connect_info, &cfg.validate_iss) {
            Ok(iss) => iss,
            Err(e) => {
                return Err(e);
            },
        };
        let sub = match &cfg.validate_sub {
            Some(item) => match Self::replaces(connect_info, item.as_str()) {
                Ok(text) => Some(text),
                Err(e) => {
                    return Err(e);
                },
            },
            None => None,
        };
        let mut required: Vec<String> = Vec::new();
        if aud.is_some() {
            required.push(String::from_str("aud"));
        }
        if iss.is_some() {
            required.push(String::from_str("iss"));
        }
        if sub.is_some() {
            required.push(String::from_str("sub"));
        }
        let plan = ValidationPlan {
            validate_exp: cfg.validate_exp_enable,
            validate_nbf: cfg.validate_nbf_enable,
            validate_aud: aud.is_some(),
            aud,
            iss,
            sub,
            required_spec_claims: required,
        };
        assert(planned(*connect_info, *cfg) is Ok);
        assert(plan@.required_spec_claims =~= planned(
            *connect_info,
            *cfg,
        )->Ok_0.required_spec_claims);
        Ok(plan)
    }

    /// Checks the token against the key and the registered claims. Returns
    /// its claims. Where an expected value cannot be made out for the
    /// client, that is the error and the token is not looked at. Else a
    /// token whose header cannot be read fails with `Header`, and one that
    /// does not pass the check at the time of the call fails with `Token`.
    pub fn standard_auth(&self, connect_info: &ConnectInfo, token: &str) -> (r: Result<Json, JwtError>)
        ensures
            planned(*connect_info, self.cfg.validate_claims) matches Err(e) ==> r == Err::<
                Json,
                JwtError,
            >(e),
            planned(*connect_info, self.cfg.validate_claims) is Ok && !token_header_read(token@) ==> r
                == Err::<Json, JwtError>(JwtError::Header),
            planned(*connect_info, self.cfg.validate_claims) is Ok && token_header_read(token@) ==> r
                is Ok || r == Err::<Json, JwtError>(JwtError::Token),
    {
        let plan = match Self::validation_plan(connect_info, &self.cfg.validate_claims) {
            Ok(plan) => plan,
            Err(e) => {
                return Err(e);
            },
        };
        let alg = match jwt_algorithm(token) {
            Ok(alg) => alg,
            Err(_) => {
                return Err(JwtError::Header);
            },
        };
        let validation = jwt_validation(alg, &plan);
        match jwt_decode(token, &self.cfg.decoded_key, &validation) {
            Ok(claims) => Ok(claims),
            Err(_) => Err(JwtError::Token),
        }
    }

    /// Checks the claims of the token against the values that are allowed for them.
    pub fn extended_auth(&self, connect_info: &ConnectInfo, claims: &Json) -> (r: Result<(), JwtError>)
        ensures
            r == customs_met(*connect_info, self.cfg.validate_claims.validate_customs@, *claims),
    {
        let customs = &self.cfg.validate_claims.validate_customs;
        let mut made: Vec<Vec<String>> = Vec::new();
        let mut i: usize = 0;
        while i < customs.len()
            invariant
                i <= customs.len(),
                customs == &self.cfg.validate_claims.validate_customs,
                made@.len() == i,
                forall|k: int|
                    0 <= k < i ==> all_replaced(*connect_info, (#[trigger] customs@[k]).1@) == Ok::<
                        Seq<Seq<char>>,
                        JwtError,
                    >(texts(made@[k]@)),
            decreases customs.len() - i,
        {
            match Self::replaces_all(connect_info, &customs[i].1) {
                Ok(list) => {
                    made.push(list);
                },
                Err(e) => {
                    proof {
                        lemma_first_unmade(*connect_info, customs@, i as int);
                    }
                    return Err(e);
                },
            }
            i = i + 1;
        }
        let mut k: usize = 0;
        while k < customs.len()
            invariant
                k <= customs.len(),
                customs == &self.cfg.validate_claims.validate_customs,
                made@.len() == customs@.len(),
                forall|j: int|
                    0 <= j < customs@.len() ==> all_replaced(
                        *connect_info,
                        (#[trigger] customs@[j]).1@,
                    ) == Ok::<Seq<Seq<char>>, JwtError>(texts(made@[j]@)),
                forall|j: int|
                    0 <= j < k ==> claim_allowed(
                        *claims,
                        (#[trigger] customs@[j]).0@,
                        all_replaced(*connect_info, customs@[j].1@)->Ok_0,
                    ),
            decreases customs.len() - k,
        {
            let met = match claims.get(customs[k].0.as_str()) {
                Some(Json::Str(value)) => list_contains(&made[k], value.as_str()),
                _ => false,
            };
            if !met {
                assert(!claim_allowed(
                    *claims,
                    customs@[k as int].0@,
                    all_replaced(*connect_info, customs@[k as int].1@)->Ok_0,
                ));
                return Err(JwtError::Claim);
            }
            k = k + 1;
        }
        Ok(())
    }

    /// What is known of the authentication that the claims of a token
    /// stand for: the superuser flag from `superuser`, the expiry from `exp`,
    /// the rules from `acl`.
    pub open spec fn allows(claims: Json, ret: ReturnType) -> bool {
        &&& ret.0 == false
        &&& ret.1 matches Some(HookResult::AuthResult(AuthResult::Allow(superuser, Some(info))))
        &&& superuser == (match claims.field("superuser"@) {
            Some(Json::Bool(b)) => b,
            _ => false,
        })
        &&& info.superuser == superuser
        &&& info.expire_at == (match claims.field("exp"@) {
            Some(Json::Number(JsonNumber::Unsigned(secs))) => Some(secs),
            _ => None,
        })
        &&& match claims.field("acl"@) {
            Some(Json::Array(items)) => rules_described(items@) matches Ok(rules) && rule_values(
                info.rules@,
            ) == rules,
            _ => info.rules@.len() == 0,
        }
    }

    /// The answer that refuses the client.
    pub open spec fn refused() -> ReturnType {
        (false, Some(HookResult::AuthResult(AuthResult::NotAuthorized)))
    }

    /// The answer to an authentication, from what the check of the token
    /// gave. A token that failed the check, a claim without an allowed
    /// value, and rules that cannot be read refuse the client. Any other
    /// token lets it in, with what its claims say.
    pub fn authenticated(&self, connect_info: &ConnectInfo, checked: Result<Json, JwtError>) -> (ret:
        ReturnType)
        ensures
            match checked {
                Err(_) => ret == Self::refused(),
                Ok(claims) => if customs_met(
                    *connect_info,
                    self.cfg.validate_claims.validate_customs@,
                    claims,
                ) is Err || (claims.field("acl"@) matches Some(Json::Array(items))
                    && rules_described(items@) is Err) {
                    ret == Self::refused()
                } else {
                    Self::allows(claims, ret)
                },
            },
    {
        let claims = match checked {
            Ok(claims) => claims,
            Err(_) => {
                return (false, Some(HookResult::AuthResult(AuthResult::NotAuthorized)));
            },
        };
        if self.extended_auth(connect_info, &claims).is_err() {
            return (false, Some(HookResult::AuthResult(AuthResult::NotAuthorized)));
        }
        let superuser = match claims.get("superuser") {
            Some(value) => match value.as_bool() {
                Some(b) => b,
                None => false,
            },
            None => false,
        };
        let rules = match claims.get("acl") {
            Some(Json::Array(items)) => match rules_from(items) {
                Ok(rules) => rules,
                Err(_) => {
                    return (false, Some(HookResult::AuthResult(AuthResult::NotAuthorized)));
                },
            },
            _ => Vec::new(),
        };
        let expire_at = match claims.get("exp") {
            Some(value) => value.as_u64(),
            None => None,
        };
        let info = AuthInfo { superuser, expire_at, rules };
        (false, Some(HookResult::AuthResult(AuthResult::Allow(superuser, Some(info)))))
    }

    /// Whether the claims of a token let the client in: every claim has one of
    /// the values allowed for it, and the rules it carries can be read.
    pub open spec fn admitted(&self, info: ConnectInfo, claims: Json) -> bool {
        &&& customs_met(info, self.cfg.validate_claims.validate_customs@, claims) is Ok
        &&& !(claims.field("acl"@) matches Some(Json::Array(items)) && rules_described(items@) is Err)
    }

    /// What the handler answers to a hook, and whether it asks for the
    /// session to be closed. An authentication is refused without a look at
    /// the token where the accumulator holds a failure, the client sent no
    /// token, an expected value cannot be made out, or the header of the
    /// token cannot be read. Any other authentication is refused, or lets the
    /// client in with what some admitted claims say: which of the two is for
    /// the check of the token, at the time of the call, to decide.
    pub open spec fn hook_described(
        &self,
        param: &Parameter,
        acc: Option<HookResult>,
        now: TimestampMillis,
        r: (ReturnType, Option<Reason>),
    ) -> bool {
        match *param {
            Parameter::ClientAuthenticate(info) => {
                &&& r.1 is None
                &&& auth_failed(acc) ==> r.0 == (false, acc)
                &&& !auth_failed(acc) && self.token_of(info) is None ==> r.0 == Self::refused()
                &&& !auth_failed(acc) && planned(info, self.cfg.validate_claims) is Err ==> r.0
                    == Self::refused()
                &&& !auth_failed(acc) && self.token_of(info) is Some && !token_header_read(
                    self.token_of(info)->0,
                ) ==> r.0 == Self::refused()
                &&& !auth_failed(acc) && self.token_of(info) is Some && planned(
                    info,
                    self.cfg.validate_claims,
                ) is Ok ==> r.0 == Self::refused() || exists|claims: Json|
                    self.admitted(info, claims) && #[trigger] Self::allows(claims, r.0)
            },
            Parameter::ClientSubscribeCheckAcl(session, subscribe) => {
                &&& r.1 is None
                &&& r.0 == if subscribe_failed(acc) {
                    (false, acc)
                } else if session.auth_info matches Some(info) && info.subscribe_outcome(&subscribe, seconds_of(now))
                    is Some {
                    session.auth_info->0.subscribe_outcome(&subscribe, seconds_of(now))->0
                } else {
                    (true, acc)
                }
            },
            Parameter::MessagePublishCheckAcl(session, publish) => {
                &&& r.1 is None
                &&& r.0 == if publish_rejected(acc) {
                    (false, acc)
                } else if session.auth_info matches Some(info) && info.publish_outcome(&publish, self.cfg.disconnect_if_pub_rejected, seconds_of(now)) is Some {
                    session.auth_info->0.publish_outcome(&publish, self.cfg.disconnect_if_pub_rejected, seconds_of(now))->0
                } else {
                    (true, acc)
                }
            },
            Parameter::ClientKeepalive(session, _) => {
                &&& r.0 == (true, acc)
                &&& if self.cfg.disconnect_if_expiry && (session.auth_info matches Some(info)
                    && info.expired_at(seconds_of(now))) {
                    r.1 matches Some(Reason::ConnectDisconnect(Some(Disconnect::Other(words))))
                        && words@ == "JWT Auth expired"@
                } else {
                    r.1 is None
                }
            },
            _ => r.0 == (true, acc) && r.1 is None,
        }
    }

    /// Handles a hook at the instant `now` (milliseconds since the epoch).
    /// Returns the answer and, for a keepalive of a session whose
    /// authentication has run out, the reason with which the session is to
    /// be told to close, where the settings say so.
    pub fn hook(&self, param: &Parameter, acc: Option<HookResult>, now: TimestampMillis) -> (r: (
        ReturnType,
        Option<Reason>,
    ))
        ensures
            self.hook_described(param, acc, now, r),
    {
        match param {
            Parameter::ClientAuthenticate(info) => {
                let failed = match &acc {
                    Some(HookResult::AuthResult(AuthResult::BadUsernameOrPassword)) => true,
                    Some(HookResult::AuthResult(AuthResult::NotAuthorized)) => true,
                    _ => false,
                };
                if failed {
                    return ((false, acc), None);
                }
                let token = match self.token(info) {
                    Some(token) => token,
                    None => {
                        return (
                            (false, Some(HookResult::AuthResult(AuthResult::NotAuthorized))),
                            None,
                        );
                    },
                };
                let checked = self.standard_auth(info, token.as_str());
                let ghost decoded = checked;
                let ret = self.authenticated(info, checked);
                proof {
                    if decoded is Ok && self.admitted(*info, decoded->Ok_0) {
                        assert(Self::allows(decoded->Ok_0, ret));
                    }
                }
                (ret, None)
            },
            Parameter::ClientSubscribeCheckAcl(session, subscribe) => {
                let failed = match &acc {
                    Some(HookResult::SubscribeAclResult(res)) => res.failure(),
                    _ => false,
                };
                if failed {
                    return ((false, acc), None);
                }
                if let Some(info) = &session.auth_info {
                    if let Some(ret) = info.subscribe_acl(subscribe, to_seconds(now)) {
                        return (ret, None);
                    }
                }
                ((true, acc), None)
            },
            Parameter::MessagePublishCheckAcl(session, publish) => {
                let rejected = match &acc {
                    Some(HookResult::PublishAclResult(PublishAclResult::Rejected(_))) => true,
                    _ => false,
                };
                if rejected {
                    return ((false, acc), None);
                }
                if let Some(info) = &session.auth_info {
                    if let Some(ret) = info.publish_acl(publish, self.cfg.disconnect_if_pub_rejected, to_seconds(now)) {
                        return (ret, None);
                    }
                }
                ((true, acc), None)
            },
            Parameter::ClientKeepalive(session, _) => {
                let expired = match &session.auth_info {
                    Some(info) => info.is_expired(to_seconds(now)),
                    None => false,
                };
                if expired && self.cfg.disconnect_if_expiry {
                    let words = String::from_str("JWT Auth expired");
                    ((true, acc), Some(Reason::ConnectDisconnect(Some(Disconnect::Other(words)))))
                } else {
                    ((true, acc), None)
                }
            },
            _ => ((true, acc), None),
        }
    }
}

/// The hooks for which the backend registers its handler, each with its
/// priority: authentication and the two access checks at the configured
/// priority, keepalive at priority zero.
pub fn hooks(priority: i32) -> (r: Vec<(Type, i32)>)
    ensures
        r@ == seq![
            (Type::ClientAuthenticate, priority),
            (Type::ClientSubscribeCheckAcl, priority),
            (Type::MessagePublishCheckAcl, priority),
            (Type::ClientKeepalive, 0i32),
        ],
{
    let mut r: Vec<(Type, i32)> = Vec::new();
    r.push((Type::ClientAuthenticate, priority));
    r.push((Type::ClientSubscribeCheckAcl, priority));
    r.push((Type::MessagePublishCheckAcl, priority));
    r.push((Type::ClientKeepalive, 0));
    r
}

} // verus!
