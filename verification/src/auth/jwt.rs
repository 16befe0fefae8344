//! Bearer tokens: how a JSON Web Token becomes an identity.

use jsonwebtoken::{decode, Algorithm as JwtAlgorithm, DecodingKey, Validation};
use serde_json::{Map as JsonMap, Value};
use vstd::prelude::*;
use vstd::string::*;

use crate::adapters::skill_mapper::{collect_strings, strings_in};
use crate::auth::identity::{opt_identity, Identity, IdentityV};
use crate::codec::json_of_value;
use crate::json::{
    fields, find, insert, inserted, member, model_of, object, put, string, Json, JsonV, NumberV,
};
use crate::text::{chars_of, opt_view, owned, slice, starts_with, str_eq, views};

verus! {

/// A signature algorithm.
#[derive(Debug, Clone, Copy, PartialEq, Eq, Structural)]
pub enum Algorithm {
    HS256,
    HS384,
    HS512,
    ES256,
    ES384,
    RS256,
    RS384,
    RS512,
    PS256,
    PS384,
    PS512,
    EdDSA,
}

/// The algorithm type of `jsonwebtoken`, carried through unread.
#[verifier::external_type_specification]
#[verifier::external_body]
pub struct ExAlgorithm(JwtAlgorithm);

/// The algorithm of the same name in `jsonwebtoken`.
pub uninterp spec fn outside_algorithm(a: Algorithm) -> JwtAlgorithm;

/// `jsonwebtoken::Algorithm`: the variant of the same name.
#[verifier::external_body]
fn convert_algorithm(a: Algorithm) -> (r: JwtAlgorithm)
    ensures
        r == outside_algorithm(a),
{
    match a {
        Algorithm::HS256 => JwtAlgorithm::HS256,
        Algorithm::HS384 => JwtAlgorithm::HS384,
        Algorithm::HS512 => JwtAlgorithm::HS512,
        Algorithm::ES256 => JwtAlgorithm::ES256,
        Algorithm::ES384 => JwtAlgorithm::ES384,
        Algorithm::RS256 => JwtAlgorithm::RS256,
        Algorithm::RS384 => JwtAlgorithm::RS384,
        Algorithm::RS512 => JwtAlgorithm::RS512,
        Algorithm::PS256 => JwtAlgorithm::PS256,
        Algorithm::PS384 => JwtAlgorithm::PS384,
        Algorithm::PS512 => JwtAlgorithm::PS512,
        Algorithm::EdDSA => JwtAlgorithm::EdDSA,
    }
}

/// The algorithms of the same names in `jsonwebtoken`.
pub open spec fn outside_algorithms(a: Seq<Algorithm>) -> Seq<JwtAlgorithm> {
    a.map_values(|x: Algorithm| outside_algorithm(x))
}

/// How key material is to be read.
#[derive(Debug, Clone, Copy, PartialEq, Eq, Structural)]
pub enum KeyFamily {
    /// A shared secret, taken as it stands.
    Secret,
    /// An RSA public key in PEM form.
    RsaPem,
    /// An elliptic curve public key in PEM form.
    EcPem,
    /// An Edwards curve public key in PEM form.
    EdPem,
}

/// How the key of an algorithm is to be read.
pub open spec fn family_of(a: Algorithm) -> KeyFamily {
    match a {
        Algorithm::HS256 | Algorithm::HS384 | Algorithm::HS512 => KeyFamily::Secret,
        Algorithm::ES256 | Algorithm::ES384 => KeyFamily::EcPem,
        Algorithm::EdDSA => KeyFamily::EdPem,
        _ => KeyFamily::RsaPem,
    }
}

/// What is demanded of a token, as `jsonwebtoken` asks for it.
#[derive(Debug)]
pub struct TokenPolicy {
    pub algorithms: Vec<JwtAlgorithm>,
    /// The registered claims that must be there.
    pub required_spec_claims: Vec<String>,
    /// Whether a token that has expired is refused.
    pub validate_exp: bool,
    /// Whether the audience that a token names is looked at.
    pub validate_aud: bool,
    /// The audiences one of which a token must name, if it names any.
    pub audiences: Option<Vec<String>>,
    /// The issuers one of which a token must name, if it names any.
    pub issuers: Option<Vec<String>>,
}

/// What a policy denotes.
#[verifier::ext_equal]
pub struct PolicyV {
    pub algorithms: Seq<JwtAlgorithm>,
    pub required_spec_claims: Seq<Seq<char>>,
    pub validate_exp: bool,
    pub validate_aud: bool,
    pub audiences: Option<Seq<Seq<char>>>,
    pub issuers: Option<Seq<Seq<char>>>,
}

/// What an optional list of strings denotes.
pub open spec fn opt_list(v: Option<Vec<String>>) -> Option<Seq<Seq<char>>> {
    match v {
        Some(l) => Some(views(l@)),
        None => None,
    }
}

impl View for TokenPolicy {
    type V = PolicyV;

    open spec fn view(&self) -> PolicyV {
        PolicyV {
            algorithms: self.algorithms@,
            required_spec_claims: views(self.required_spec_claims@),
            validate_exp: self.validate_exp,
            validate_aud: self.validate_aud,
            audiences: opt_list(self.audiences),
            issuers: opt_list(self.issuers),
        }
    }
}

/// A verification key of `jsonwebtoken`, carried through unread.
#[verifier::external_type_specification]
#[verifier::external_body]
pub struct ExDecodingKey(DecodingKey);

/// The key that a shared secret is.
pub uninterp spec fn secret_key(secret: Seq<char>) -> DecodingKey;

/// `DecodingKey::from_secret` on the bytes of a text. Any text is a secret.
#[verifier::external_body]
fn key_from_secret(secret: &str) -> (r: DecodingKey)
    ensures
        r == secret_key(secret@),
{
    DecodingKey::from_secret(secret.as_bytes())
}

/// The RSA public key that a PEM text holds, if it holds one.
pub uninterp spec fn rsa_key(pem: Seq<char>) -> Option<DecodingKey>;

/// `DecodingKey::from_rsa_pem` on the bytes of a text.
#[verifier::external_body]
fn key_from_rsa_pem(pem: &str) -> (r: Option<DecodingKey>)
    ensures
        r == rsa_key(pem@),
{
    DecodingKey::from_rsa_pem(pem.as_bytes()).ok()
}

/// The elliptic curve public key that a PEM text holds, if it holds one.
pub uninterp spec fn ec_key(pem: Seq<char>) -> Option<DecodingKey>;

/// `DecodingKey::from_ec_pem` on the bytes of a text.
#[verifier::external_body]
fn key_from_ec_pem(pem: &str) -> (r: Option<DecodingKey>)
    ensures
        r == ec_key(pem@),
{
    DecodingKey::from_ec_pem(pem.as_bytes()).ok()
}

/// The Edwards curve public key that a PEM text holds, if it holds one.
pub uninterp spec fn ed_key(pem: Seq<char>) -> Option<DecodingKey>;

/// `DecodingKey::from_ed_pem` on the bytes of a text.
#[verifier::external_body]
fn key_from_ed_pem(pem: &str) -> (r: Option<DecodingKey>)
    ensures
        r == ed_key(pem@),
{
    DecodingKey::from_ed_pem(pem.as_bytes()).ok()
}

/// The key that a text holds, read as the family says.
pub open spec fn key_in(text: Seq<char>, family: KeyFamily) -> Option<DecodingKey> {
    match family {
        KeyFamily::Secret => Some(secret_key(text)),
        KeyFamily::RsaPem => rsa_key(text),
        KeyFamily::EcPem => ec_key(text),
        KeyFamily::EdPem => ed_key(text),
    }
}

/// The key that a text holds, read as the family says.
fn decoding_key(key: &str, family: KeyFamily) -> (r: Option<DecodingKey>)
    ensures
        r == key_in(key@, family),
{
    match family {
        KeyFamily::Secret => Some(key_from_secret(key)),
        KeyFamily::RsaPem => key_from_rsa_pem(key),
        KeyFamily::EcPem => key_from_ec_pem(key),
        KeyFamily::EdPem => key_from_ed_pem(key),
    }
}

/// What is read of a token that is signed: its claims, and the issuers and the
/// audiences that it is judged by.
#[verifier::ext_equal]
pub struct SignedV {
    pub claims: Seq<(Seq<char>, JsonV)>,
    pub issuers: Option<Set<Seq<char>>>,
    pub audiences: Option<Set<Seq<char>>>,
}

/// What `jsonwebtoken` reads of a token that is signed with a key under one of
/// the algorithms, or nothing where it is not, or where it cannot be read. Issuers
/// and audiences are there where the token spells the claim as a string or as a
/// list of nothing but strings.
pub uninterp spec fn signed_token(
    token: Seq<char>,
    key: DecodingKey,
    algorithms: Seq<JwtAlgorithm>,
) -> Option<SignedV>;

/// The parties that a claim names: a string, or the strings of a list of nothing
/// else.
pub open spec fn parties_in(claim: Option<JsonV>) -> Option<Set<Seq<char>>> {
    match claim {
        Some(JsonV::Str(s)) => Some(set![s]),
        Some(JsonV::Array(v)) => if forall|i: int| 0 <= i < v.len() ==> (#[trigger] v[i]) is Str {
            Some(Set::new(|s: Seq<char>| v.contains(JsonV::Str(s))))
        } else {
            None
        },
        _ => None,
    }
}

/// The issuers and audiences that a token is judged by are those that its claims
/// name. Claims may name some by which it is not judged: where the token spells
/// one as an object that marks raw text, the claim holds what that text says.
pub open spec fn judged_by_claims(s: SignedV) -> bool {
    &&& s.issuers is Some ==> parties_in(member(s.claims, "iss"@)) == s.issuers
    &&& s.audiences is Some ==> parties_in(member(s.claims, "aud"@)) == s.audiences
}

/// One of the parties is among those that are demanded.
pub open spec fn one_fits(parties: Set<Seq<char>>, demanded: Seq<Seq<char>>) -> bool {
    exists|i: int| 0 <= i < demanded.len() && parties.contains(#[trigger] demanded[i])
}

/// One of the issuers and one of the audiences that a token is judged by, if
/// there are any, are among those that a policy demands. A policy that looks at
/// the audience and demands none is met only by a token that has none.
pub open spec fn parties_fit(s: SignedV, policy: PolicyV) -> bool {
    &&& policy.issuers matches Some(l) ==> (s.issuers matches Some(p) ==> one_fits(p, l))
    &&& policy.validate_aud ==> (s.audiences matches Some(p) ==> (policy.audiences matches Some(l)
        && one_fits(p, l)))
}

/// A claim whose presence `jsonwebtoken` can be told to demand.
pub open spec fn can_be_demanded(name: Seq<char>) -> bool {
    name == "exp"@ || name == "nbf"@ || name == "sub"@ || name == "iss"@ || name == "aud"@
}

/// The claims hold a time at which the token expires: an `exp` that is a
/// non-negative integer, or a number that is no integer.
pub open spec fn may_expire(claims: Seq<(Seq<char>, JsonV)>) -> bool {
    member(claims, "exp"@) matches Some(JsonV::Number(n)) && !(n is NegInt)
}

/// That `jsonwebtoken::decode` gave these claims, or none, for a token under a
/// policy. Another answer may come at another time.
pub uninterp spec fn decode_answered(
    token: Seq<char>,
    key: DecodingKey,
    policy: PolicyV,
    answer: Option<JsonV>,
) -> bool;

/// `jsonwebtoken::decode`, with a `Validation` that has the policy's settings and
/// is otherwise the default one.
///
/// A token is accepted if it is signed, its issuers and audiences fit, the
/// demanded claims are there, and it has not expired. What is read of it depends
/// on token, key and algorithms alone. Whether a token that expires is accepted
/// depends on the time; what the time is, is not stated.
#[verifier::external_body]
fn decode_token(token: &str, key: &DecodingKey, policy: &TokenPolicy) -> (r: Option<Json>)
    ensures
        decode_answered(token@, *key, policy@, crate::json::opt(r)),
        r matches Some(c) ==> c@ is Object && (signed_token(token@, *key, policy@.algorithms)
            matches Some(s) && s.claims == c@->Object_0 && judged_by_claims(s) && parties_fit(
            s,
            policy@,
        )),
        r matches Some(c) ==> (forall|i: int|
            0 <= i < policy@.required_spec_claims.len() && can_be_demanded(
                #[trigger] policy@.required_spec_claims[i],
            ) ==> c@.get(policy@.required_spec_claims[i]) is Some),
        signed_token(token@, *key, policy@.algorithms) matches Some(s) && parties_fit(s, policy@)
            && policy@.required_spec_claims.len() == 0 && !(policy@.validate_exp && may_expire(
            s.claims,
        )) ==> r is Some,
{
    let mut v = Validation::default();
    v.algorithms = policy.algorithms.clone();
    v.required_spec_claims = policy.required_spec_claims.iter().cloned().collect();
    v.validate_exp = policy.validate_exp;
    v.validate_aud = policy.validate_aud;
    v.aud = policy.audiences.as_ref().map(|l| l.iter().cloned().collect());
    v.iss = policy.issuers.as_ref().map(|l| l.iter().cloned().collect());
    let claims = decode::<JsonMap<String, Value>>(token, key, &v).ok()?.claims;
    Some(json_of_value(Value::Object(claims)))
}

/// Which claims make up an identity.
#[derive(Debug)]
pub struct ClaimMapping {
    pub id_claim: String,
    pub roles_claim: String,
    /// The claim that carries the identity's type.
    pub type_claim: String,
    /// The claims that are copied into the identity's attributes.
    pub attrs_claims: Vec<String>,
}

/// What a claim mapping denotes.
#[verifier::ext_equal]
pub struct MappingV {
    pub id_claim: Seq<char>,
    pub roles_claim: Seq<char>,
    pub type_claim: Seq<char>,
    pub attrs_claims: Seq<Seq<char>>,
}

impl View for ClaimMapping {
    type V = MappingV;

    open spec fn view(&self) -> MappingV {
        MappingV {
            id_claim: self.id_claim@,
            roles_claim: self.roles_claim@,
            type_claim: self.type_claim@,
            attrs_claims: views(self.attrs_claims@),
        }
    }
}

/// The mapping where none is given.
pub open spec fn default_mapping() -> MappingV {
    MappingV {
        id_claim: "sub"@,
        roles_claim: "roles"@,
        type_claim: "type"@,
        attrs_claims: Seq::empty(),
    }
}

impl Default for ClaimMapping {
    fn default() -> (r: ClaimMapping)
        ensures
            r@ == default_mapping(),
    {
        let r = ClaimMapping {
            id_claim: owned("sub"),
            roles_claim: owned("roles"),
            type_claim: owned("type"),
            attrs_claims: Vec::new(),
        };
        assert(r@ =~= default_mapping());
        r
    }
}

/// The string of a claim, or `otherwise` where the claim holds no string.
pub open spec fn claim_or(
    claims: Seq<(Seq<char>, JsonV)>,
    name: Seq<char>,
    otherwise: Seq<char>,
) -> Seq<char> {
    match member(claims, name) {
        Some(JsonV::Str(s)) => s,
        _ => otherwise,
    }
}

fn claim_text(claims: &Vec<(String, Json)>, name: &str, otherwise: &str) -> (r: String)
    ensures
        r@ == claim_or(fields(claims@), name@, otherwise@),
{
    match find(claims, name) {
        Some(i) => match claims[i].1.as_str() {
            Some(s) => owned(s),
            None => owned(otherwise),
        },
        None => owned(otherwise),
    }
}

/// The roles of a claim: the strings in its list.
pub open spec fn claim_roles(claims: Seq<(Seq<char>, JsonV)>, name: Seq<char>) -> Seq<Seq<char>> {
    match member(claims, name) {
        Some(JsonV::Array(s)) => strings_in(s),
        _ => Seq::empty(),
    }
}

/// The claims among `names`, each once.
pub open spec fn picked(
    claims: Seq<(Seq<char>, JsonV)>,
    names: Seq<Seq<char>>,
) -> Seq<(Seq<char>, JsonV)>
    decreases names.len(),
{
    if names.len() == 0 {
        Seq::empty()
    } else {
        let rest = picked(claims, names.drop_last());
        match member(claims, names.last()) {
            Some(v) => inserted(rest, names.last(), v),
            None => rest,
        }
    }
}

/// Every required claim is there.
pub open spec fn has_all(claims: Seq<(Seq<char>, JsonV)>, required: Seq<Seq<char>>) -> bool {
    forall|i: int| 0 <= i < required.len() ==> member(claims, #[trigger] required[i]) is Some
}

/// The identity that the claims of an accepted token stand for.
pub open spec fn identity_of(
    claims: Seq<(Seq<char>, JsonV)>,
    mapping: MappingV,
    required: Seq<Seq<char>>,
) -> Option<IdentityV> {
    if has_all(claims, required) {
        Some(
            IdentityV {
                id: claim_or(claims, mapping.id_claim, "anonymous"@),
                identity_type: claim_or(claims, mapping.type_claim, "jwt"@),
                roles: claim_roles(claims, mapping.roles_claim),
                attrs: picked(claims, mapping.attrs_claims),
            },
        )
    } else {
        None
    }
}

fn pick_claims(claims: &Vec<(String, Json)>, names: &Vec<String>) -> (r: Vec<(String, Json)>)
    ensures
        fields(r@) == picked(fields(claims@), views(names@)),
{
    let mut out: Vec<(String, Json)> = Vec::new();
    let mut i: usize = 0;
    let ghost all = views(names@);
    assert(all.take(0) =~= Seq::empty());
    assert(fields(out@) =~= Seq::empty());
    while i < names.len()
        invariant
            i <= names.len(),
            all == views(names@),
            fields(out@) == picked(fields(claims@), all.take(i as int)),
        decreases names.len() - i,
    {
        assert(all.take(i + 1).drop_last() =~= all.take(i as int));
        assert(all.take(i + 1).last() == names[i as int]@);
        if let Some(k) = find(claims, names[i].as_str()) {
            insert(&mut out, names[i].as_str(), claims[k].1.copy());
        }
        i += 1;
    }
    assert(all.take(i as int) =~= all);
    out
}

/// The identity that the claims of an accepted token stand for, or nothing
/// where a required claim is missing.
pub fn identity_from_claims(
    claims: &Vec<(String, Json)>,
    mapping: &ClaimMapping,
    require_claims: &Vec<String>,
) -> (r: Option<Identity>)
    ensures
        opt_identity(r) == identity_of(fields(claims@), mapping@, views(require_claims@)),
{
    let ghost required = views(require_claims@);
    let mut i: usize = 0;
    while i < require_claims.len()
        invariant
            i <= require_claims.len(),
            required == views(require_claims@),
            forall|k: int|
                0 <= k < i ==> member(fields(claims@), #[trigger] required[k]) is Some,
        decreases require_claims.len() - i,
    {
        if find(claims, require_claims[i].as_str()).is_none() {
            assert(member(fields(claims@), required[i as int]) is None);
            return None;
        }
        i += 1;
    }
    let roles: Vec<String> = match find(claims, mapping.roles_claim.as_str()) {
        Some(k) => {
            proof {
                model_of(claims[k as int].1);
            }
            match &claims[k].1 {
                Json::Array(a) => collect_strings(a),
                _ => Vec::new(),
            }
        },
        None => Vec::new(),
    };
    assert(views(roles@) =~= claim_roles(fields(claims@), mapping.roles_claim@));
    Some(
        Identity::new(
            claim_text(claims, mapping.id_claim.as_str(), "anonymous"),
            claim_text(claims, mapping.type_claim.as_str(), "jwt"),
            roles,
            pick_claims(claims, &mapping.attrs_claims),
        ),
    )
}

/// The headers of a request: names in lower case, and values.
pub open spec fn header_views(h: Seq<(String, String)>) -> Seq<(Seq<char>, Seq<char>)> {
    h.map_values(|x: (String, String)| (x.0@, x.1@))
}

/// The value of the first header with a name.
pub open spec fn header(h: Seq<(Seq<char>, Seq<char>)>, name: Seq<char>) -> Option<Seq<char>>
    decreases h.len(),
{
    if h.len() == 0 {
        None
    } else if h[0].0 == name {
        Some(h[0].1)
    } else {
        header(h.skip(1), name)
    }
}

/// The value of the first header with a name.
pub fn find_header(h: &Vec<(String, String)>, name: &str) -> (r: Option<String>)
    ensures
        opt_view(r) == header(header_views(h@), name@),
{
    let ghost all = header_views(h@);
    let mut i: usize = 0;
    assert(all.skip(0) =~= all);
    while i < h.len()
        invariant
            i <= h.len(),
            all == header_views(h@),
            header(all.skip(i as int), name@) == header(all, name@),
        decreases h.len() - i,
    {
        assert(all.skip(i as int)[0] == (h[i as int].0@, h[i as int].1@));
        assert(all.skip(i as int).skip(1) =~= all.skip(i + 1));
        if str_eq(h[i].0.as_str(), name) {
            return Some(h[i].1.clone());
        }
        i += 1;
    }
    None
}

/// The token of a request: what follows `Bearer ` in its `authorization` header.
pub open spec fn bearer_token(h: Seq<(Seq<char>, Seq<char>)>) -> Option<Seq<char>> {
    match header(h, "authorization"@) {
        Some(v) => if "Bearer "@.is_prefix_of(v) {
            Some(v.subrange("Bearer "@.len() as int, v.len() as int))
        } else {
            None
        },
        None => None,
    }
}

/// The token of a request.
pub fn token_of(headers: &Vec<(String, String)>) -> (r: Option<String>)
    ensures
        opt_view(r) == bearer_token(header_views(headers@)),
{
    match find_header(headers, "authorization") {
        Some(v) => {
            if starts_with(v.as_str(), "Bearer ") {
                proof {
                    reveal_strlit("Bearer ");
                }
                let cs: Vec<char> = chars_of(v.as_str());
                Some(slice(&cs, 7, cs.len()))
            } else {
                None
            }
        },
        None => None,
    }
}

/// Authenticates callers by JSON Web Tokens.
#[derive(Debug)]
pub struct JWTAuthenticator {
    key: String,
    claim_mapping: ClaimMapping,
    require_claims: Vec<String>,
    algorithms: Vec<Algorithm>,
    audience: Option<String>,
    issuer: Option<String>,
}

/// What an authenticator is set up for.
#[verifier::ext_equal]
pub struct AuthenticatorV {
    pub key: Seq<char>,
    pub mapping: MappingV,
    pub required: Seq<Seq<char>>,
    pub algorithms: Seq<Algorithm>,
    pub audience: Option<Seq<char>>,
    pub issuer: Option<Seq<char>>,
}

/// The one party that is demanded, where one is.
pub open spec fn only(party: Option<Seq<char>>) -> Option<Seq<Seq<char>>> {
    match party {
        Some(p) => Some(seq![p]),
        None => None,
    }
}

/// The policy by which tokens are judged: no registered claim is demanded, a
/// token that has expired is refused, and the audience and the issuer are looked
/// at only where one is set.
pub open spec fn policy_of(a: AuthenticatorV) -> PolicyV {
    PolicyV {
        algorithms: outside_algorithms(a.algorithms),
        required_spec_claims: Seq::empty(),
        validate_exp: true,
        validate_aud: a.audience is Some,
        audiences: only(a.audience),
        issuers: only(a.issuer),
    }
}

/// What is read of a token, if it is signed with an authenticator's key. The
/// first algorithm says how the key is read.
pub open spec fn read_token(a: AuthenticatorV, token: Seq<char>) -> Option<SignedV> {
    match key_in(a.key, family_of(a.algorithms[0])) {
        Some(k) => signed_token(token, k, policy_of(a).algorithms),
        None => None,
    }
}

/// The claims of a token that is accepted.
pub open spec fn accepted_claims(a: AuthenticatorV, token: Seq<char>) -> Option<
    Seq<(Seq<char>, JsonV)>,
> {
    match read_token(a, token) {
        Some(s) => if parties_fit(s, policy_of(a)) {
            Some(s.claims)
        } else {
            None
        },
        None => None,
    }
}

/// `jsonwebtoken` was asked about a token under an authenticator's key and policy
/// and gave these claims, or none; without a key there are none.
pub open spec fn judged(a: AuthenticatorV, token: Seq<char>, answer: Option<JsonV>) -> bool {
    match key_in(a.key, family_of(a.algorithms[0])) {
        Some(k) => decode_answered(token, k, policy_of(a), answer),
        None => answer is None,
    }
}

/// The identity of a caller, given the claims of its token.
pub open spec fn admitted(a: AuthenticatorV, answer: Option<JsonV>) -> Option<IdentityV> {
    match answer {
        Some(JsonV::Object(c)) => identity_of(c, a.mapping, a.required),
        _ => None,
    }
}

/// Whether a token is accepted depends on when it is sent.
pub open spec fn time_decides(a: AuthenticatorV, token: Seq<char>) -> bool {
    accepted_claims(a, token) matches Some(c) && may_expire(c)
}

/// The identity of a caller with a token that is accepted.
pub open spec fn accepted(a: AuthenticatorV, token: Seq<char>) -> Option<IdentityV> {
    match accepted_claims(a, token) {
        Some(c) => identity_of(c, a.mapping, a.required),
        None => None,
    }
}

impl View for JWTAuthenticator {
    type V = AuthenticatorV;

    closed spec fn view(&self) -> AuthenticatorV {
        AuthenticatorV {
            key: self.key@,
            mapping: self.claim_mapping@,
            required: views(self.require_claims@),
            algorithms: self.algorithms@,
            audience: opt_view(self.audience),
            issuer: opt_view(self.issuer),
        }
    }
}

impl JWTAuthenticator {
    /// Some algorithm is allowed.
    pub open spec fn wf(&self) -> bool {
        self@.algorithms.len() > 0
    }

    /// An authenticator for a shared secret: HS256, the usual claims, no
    /// audience and no issuer.
    pub fn new(secret: &str) -> (r: JWTAuthenticator)
        ensures
            r.wf(),
            r@ == (AuthenticatorV {
                key: secret@,
                mapping: default_mapping(),
                required: Seq::empty(),
                algorithms: seq![Algorithm::HS256],
                audience: None,
                issuer: None,
            }),
    {
        let mut algorithms: Vec<Algorithm> = Vec::new();
        algorithms.push(Algorithm::HS256);
        let r = JWTAuthenticator {
            key: owned(secret),
            claim_mapping: ClaimMapping::default(),
            require_claims: Vec::new(),
            algorithms,
            audience: None,
            issuer: None,
        };
        assert(r@.required =~= Seq::empty());
        assert(r@.algorithms =~= seq![Algorithm::HS256]);
        r
    }

    /// Map claims otherwise.
    pub fn with_claim_mapping(self, mapping: ClaimMapping) -> (r: JWTAuthenticator)
        ensures
            r@ == (AuthenticatorV { mapping: mapping@, ..self@ }),
    {
        let mut r = self;
        r.claim_mapping = mapping;
        r
    }

    /// Refuse tokens without the listed claims.
    pub fn with_require_claims(self, claims: Vec<String>) -> (r: JWTAuthenticator)
        ensures
            r@ == (AuthenticatorV { required: views(claims@), ..self@ }),
    {
        let mut r = self;
        r.require_claims = claims;
        r
    }

    /// Allow the listed algorithms; an empty list changes nothing.
    pub fn with_algorithms(self, algorithms: Vec<Algorithm>) -> (r: JWTAuthenticator)
        ensures
            algorithms@.len() > 0 ==> r@ == (AuthenticatorV { algorithms: algorithms@, ..self@ }),
            algorithms@.len() == 0 ==> r@ == self@,
            self.wf() ==> r.wf(),
    {
        let mut r = self;
        if algorithms.len() > 0 {
            r.algorithms = algorithms;
        }
        r
    }

    /// Demand an audience.
    pub fn with_audience(self, audience: &str) -> (r: JWTAuthenticator)
        ensures
            r@ == (AuthenticatorV { audience: Some(audience@), ..self@ }),
    {
        let mut r = self;
        r.audience = Some(owned(audience));
        r
    }

    /// Demand an issuer.
    pub fn with_issuer(self, issuer: &str) -> (r: JWTAuthenticator)
        ensures
            r@ == (AuthenticatorV { issuer: Some(issuer@), ..self@ }),
    {
        let mut r = self;
        r.issuer = Some(owned(issuer));
        r
    }

    /// The policy by which tokens are judged.
    fn policy(&self) -> (r: TokenPolicy)
        ensures
            r@ == policy_of(self@),
    {
        let mut algorithms: Vec<JwtAlgorithm> = Vec::new();
        let mut i: usize = 0;
        while i < self.algorithms.len()
            invariant
                i <= self.algorithms.len(),
                algorithms.len() == i,
                forall|k: int|
                    0 <= k < i ==> #[trigger] algorithms[k] == outside_algorithm(
                        self.algorithms[k],
                    ),
            decreases self.algorithms.len() - i,
        {
            algorithms.push(convert_algorithm(self.algorithms[i]));
            i += 1;
        }
        let r = TokenPolicy {
            algorithms,
            required_spec_claims: Vec::new(),
            validate_exp: true,
            validate_aud: self.audience.is_some(),
            audiences: only_one(&self.audience),
            issuers: only_one(&self.issuer),
        };
        assert(r@.algorithms =~= policy_of(self@).algorithms);
        assert(r@.required_spec_claims =~= Seq::empty());
        assert(r@ =~= policy_of(self@));
        r
    }

    /// The identity of the caller that sent the headers, or nothing where they
    /// carry no bearer token or the token is refused. An identity comes only
    /// from a token that is accepted: one that is signed, and that is not judged
    /// by other issuers or other audiences than the one demanded. Where none is
    /// demanded, any will do. A token that does not expire is accepted whenever
    /// it is sent, or never. Every token is judged by the same policy, which
    /// refuses one that has expired.
    pub fn authenticate(&self, headers: &Vec<(String, String)>) -> (r: Option<Identity>)
        requires
            self.wf(),
        ensures
            bearer_token(header_views(headers@)) is None ==> r is None,
            bearer_token(header_views(headers@)) matches Some(t) ==> (!time_decides(self@, t)
                ==> opt_identity(r) == accepted(self@, t)),
            r matches Some(i) ==> bearer_token(header_views(headers@)) matches Some(t) && accepted(
                self@,
                t,
            ) == Some(i@) && judged_by_claims(read_token(self@, t)->0),
            bearer_token(header_views(headers@)) matches Some(t) ==> (exists|answer: Option<JsonV>|
                #[trigger] judged(self@, t, answer) && opt_identity(r) == admitted(self@, answer)),
    {
        let token: String = match token_of(headers) {
            Some(t) => t,
            None => {
                return None;
            },
        };
        let key: DecodingKey = match decoding_key(
            self.key.as_str(),
            key_family(self.algorithms[0]),
        ) {
            Some(k) => k,
            None => {
                assert(judged(self@, token@, None));
                return None;
            },
        };
        let policy: TokenPolicy = self.policy();
        let answer: Option<Json> = decode_token(token.as_str(), &key, &policy);
        assert(judged(self@, token@, crate::json::opt(answer)));
        match answer {
            Some(Json::Object(claims)) => {
                proof {
                    model_of(Json::Object(claims));
                }
                identity_from_claims(&claims, &self.claim_mapping, &self.require_claims)
            },
            _ => None,
        }
    }

    /// The security schemes an Agent Card shows for this authenticator.
    pub fn security_schemes(&self) -> (r: Option<Json>)
        ensures
            crate::json::opt(r) == Some(bearer_schemes()),
    {
        let mut inner: Vec<(String, Json)> = Vec::new();
        put(&mut inner, "type", string("http"));
        put(&mut inner, "scheme", string("bearer"));
        put(&mut inner, "bearerFormat", string("JWT"));
        assert(fields(inner@) =~= bearer_schemes()->Object_0[0].1->Object_0);
        let mut outer: Vec<(String, Json)> = Vec::new();
        put(&mut outer, "bearer", object(inner));
        assert(fields(outer@) =~= bearer_schemes()->Object_0);
        Some(object(outer))
    }
}

fn only_one(party: &Option<String>) -> (r: Option<Vec<String>>)
    ensures
        opt_list(r) == only(opt_view(*party)),
{
    match party {
        Some(p) => {
            let mut l: Vec<String> = Vec::new();
            l.push(p.clone());
            assert(views(l@) =~= seq![p@]);
            Some(l)
        },
        None => None,
    }
}

/// Where no audience is set, a token is accepted whatever audience it names, and
/// where no issuer is set, whatever issuer it names.
pub proof fn what_is_not_set_is_not_checked(a: AuthenticatorV, s: SignedV)
    ensures
        a.audience is None && a.issuer is None ==> parties_fit(s, policy_of(a)),
        a.audience is None ==> parties_fit(s, policy_of(a)) == parties_fit(
            SignedV { audiences: None, ..s },
            policy_of(a),
        ),
        a.issuer is None ==> parties_fit(s, policy_of(a)) == parties_fit(
            SignedV { issuers: None, ..s },
            policy_of(a),
        ),
{
}

/// A token that is judged by audiences is accepted only where the one that is set
/// is among them; and so for the issuer. One that is judged by none is not refused
/// for it.
pub proof fn other_parties_are_refused(a: AuthenticatorV, s: SignedV)
    ensures
        parties_fit(s, policy_of(a)) <==> {
            &&& a.issuer matches Some(i) ==> (s.issuers matches Some(p) ==> p.contains(i))
            &&& a.audience matches Some(u) ==> (s.audiences matches Some(p) ==> p.contains(u))
        },
{
    if let Some(u) = a.audience {
        assert(only(a.audience) == Some(seq![u]));
        assert(seq![u][0] == u);
    }
    if let Some(i) = a.issuer {
        assert(only(a.issuer) == Some(seq![i]));
        assert(seq![i][0] == i);
    }
}

/// The claims of a token that is accepted name the issuer and the audience that
/// are set, wherever the token is judged by one.
pub proof fn claims_name_what_is_set(a: AuthenticatorV, s: SignedV)
    requires
        judged_by_claims(s),
        parties_fit(s, policy_of(a)),
    ensures
        a.issuer matches Some(i) ==> (s.issuers is Some ==> (match member(s.claims, "iss"@) {
            Some(JsonV::Str(t)) => t == i,
            Some(JsonV::Array(v)) => v.contains(JsonV::Str(i)),
            _ => false,
        })),
        a.audience matches Some(u) ==> (s.audiences is Some ==> (match member(s.claims, "aud"@) {
            Some(JsonV::Str(t)) => t == u,
            Some(JsonV::Array(v)) => v.contains(JsonV::Str(u)),
            _ => false,
        })),
{
    other_parties_are_refused(a, s);
}

/// The security schemes of bearer tokens.
pub open spec fn bearer_schemes() -> JsonV {
    JsonV::Object(
        seq![
            (
                "bearer"@,
                JsonV::Object(
                    seq![
                        ("type"@, JsonV::Str("http"@)),
                        ("scheme"@, JsonV::Str("bearer"@)),
                        ("bearerFormat"@, JsonV::Str("JWT"@)),
                    ],
                ),
            ),
        ],
    )
}

/// How the key of an algorithm is to be read.
pub fn key_family(a: Algorithm) -> (r: KeyFamily)
    ensures
        r == family_of(a),
{
    match a {
        Algorithm::HS256 | Algorithm::HS384 | Algorithm::HS512 => KeyFamily::Secret,
        Algorithm::ES256 | Algorithm::ES384 => KeyFamily::EcPem,
        Algorithm::EdDSA => KeyFamily::EdPem,
        _ => KeyFamily::RsaPem,
    }
}

/// An identity is made of the claims that the mapping names, whatever the other
/// claims say: its id and its type are the strings of their claims, or the fixed
/// ones where a claim holds no string.
pub proof fn identities_follow_the_mapping(
    claims: Seq<(Seq<char>, JsonV)>,
    mapping: MappingV,
    required: Seq<Seq<char>>,
    i: IdentityV,
)
    requires
        identity_of(claims, mapping, required) == Some(i),
    ensures
        member(claims, mapping.id_claim) matches Some(JsonV::Str(s)) ==> i.id == s,
        !(member(claims, mapping.id_claim) is Some && member(claims, mapping.id_claim)->0 is Str)
            ==> i.id == "anonymous"@,
        member(claims, mapping.type_claim) matches Some(JsonV::Str(s)) ==> i.identity_type == s,
        !(member(claims, mapping.type_claim) is Some && member(claims, mapping.type_claim)->0
            is Str) ==> i.identity_type == "jwt"@,
{
}

/// The roles of an identity are the strings in the list of the claim that the
/// mapping names, and there are none where that claim holds no list.
pub proof fn roles_follow_the_mapping(
    claims: Seq<(Seq<char>, JsonV)>,
    mapping: MappingV,
    required: Seq<Seq<char>>,
    i: IdentityV,
    role: Seq<char>,
)
    requires
        identity_of(claims, mapping, required) == Some(i),
    ensures
        i.roles.contains(role) <==> (member(claims, mapping.roles_claim) matches Some(
            JsonV::Array(s),
        ) && s.contains(JsonV::Str(role))),
{
    if let Some(JsonV::Array(s)) = member(claims, mapping.roles_claim) {
        crate::adapters::skill_mapper::strings_are_picked_out(s, role);
    }
}

/// The attributes of an identity are the claims that the mapping lists, each with
/// its own value, and no others.
pub proof fn attributes_follow_the_mapping(
    claims: Seq<(Seq<char>, JsonV)>,
    mapping: MappingV,
    required: Seq<Seq<char>>,
    i: IdentityV,
    name: Seq<char>,
)
    requires
        identity_of(claims, mapping, required) == Some(i),
    ensures
        member(i.attrs, name) == (if mapping.attrs_claims.contains(name) {
            member(claims, name)
        } else {
            None
        }),
{
    picked_are_the_listed(claims, mapping.attrs_claims, name);
}

proof fn picked_are_the_listed(
    claims: Seq<(Seq<char>, JsonV)>,
    names: Seq<Seq<char>>,
    name: Seq<char>,
)
    ensures
        member(picked(claims, names), name) == (if names.contains(name) {
            member(claims, name)
        } else {
            None
        }),
    decreases names.len(),
{
    if names.len() > 0 {
        let front = names.drop_last();
        picked_are_the_listed(claims, front, name);
        assert(names[names.len() - 1] == names.last());
        if front.contains(name) {
            let k = choose|k: int| 0 <= k < front.len() && front[k] == name;
            assert(names[k] == name);
        }
        if names.contains(name) && name != names.last() {
            let k = choose|k: int| 0 <= k < names.len() && names[k] == name;
            assert(front[k] == name);
        }
        if let Some(v) = member(claims, names.last()) {
            crate::json::insert_then_get(picked(claims, front), names.last(), v, name);
        }
    }
}

/// Claims make an identity exactly where every required claim is among them,
/// whatever its value.
pub proof fn identities_need_the_required_claims(
    claims: Seq<(Seq<char>, JsonV)>,
    mapping: MappingV,
    required: Seq<Seq<char>>,
)
    ensures
        identity_of(claims, mapping, required) is Some <==> forall|name: Seq<char>|
            required.contains(name) ==> #[trigger] member(claims, name) is Some,
{
    if identity_of(claims, mapping, required) is Some {
        assert forall|name: Seq<char>| required.contains(name) implies #[trigger] member(
            claims,
            name,
        ) is Some by {
            let k = choose|k: int| 0 <= k < required.len() && required[k] == name;
            assert(member(claims, required[k]) is Some);
        }
    } else {
        let k = choose|k: int|
            0 <= k < required.len() && member(claims, #[trigger] required[k]) is None;
        assert(required.contains(required[k]));
    }
}

/// Where nothing else is said the id is read from `sub`, the roles from `roles`
/// and the type from `type`, and there are no attributes.
pub proof fn the_usual_claims_are_mapped(claims: Seq<(Seq<char>, JsonV)>, id: Seq<char>)
    ensures
        member(claims, "sub"@) == Some(JsonV::Str(id)) ==> (identity_of(
            claims,
            default_mapping(),
            Seq::empty(),
        ) matches Some(i) && i.id == id && i.attrs.len() == 0 && (member(claims, "type"@)
            == Some(JsonV::Str("service"@)) ==> i.identity_type == "service"@) && (member(
            claims,
            "roles"@,
        ) is None ==> i.roles.len() == 0)),
{
}

/// A token is what follows the scheme in the header that carries it; another
/// scheme, or no such header, carries none. Of two such headers the first counts.
pub proof fn tokens_follow_their_scheme(
    before: Seq<(Seq<char>, Seq<char>)>,
    token: Seq<char>,
    after: Seq<(Seq<char>, Seq<char>)>,
)
    requires
        forall|i: int| 0 <= i < before.len() ==> (#[trigger] before[i]).0 != "authorization"@,
    ensures
        bearer_token(before + seq![("authorization"@, "Bearer "@ + token)] + after) == Some(token),
        bearer_token(before) is None,
        !("Bearer "@.is_prefix_of(token)) ==> bearer_token(
            before + seq![("authorization"@, token)] + after,
        ) is None,
{
    let v = "Bearer "@ + token;
    header_is_found(before, v, after);
    header_is_found(before, token, after);
    header_is_absent(before);
    assert(v.subrange("Bearer "@.len() as int, v.len() as int) =~= token);
    assert("Bearer "@ =~= v.subrange(0, "Bearer "@.len() as int));
}

proof fn header_is_found(
    before: Seq<(Seq<char>, Seq<char>)>,
    value: Seq<char>,
    after: Seq<(Seq<char>, Seq<char>)>,
)
    requires
        forall|i: int| 0 <= i < before.len() ==> (#[trigger] before[i]).0 != "authorization"@,
    ensures
        header(before + seq![("authorization"@, value)] + after, "authorization"@) == Some(value),
    decreases before.len(),
{
    let all = before + seq![("authorization"@, value)] + after;
    if before.len() > 0 {
        assert(all[0] == before[0]);
        assert(all.skip(1) =~= before.skip(1) + seq![("authorization"@, value)] + after);
        assert forall|i: int| 0 <= i < before.skip(1).len() implies (#[trigger] before.skip(1)[i]).0
            != "authorization"@ by {
            assert(before.skip(1)[i] == before[i + 1]);
        }
        header_is_found(before.skip(1), value, after);
    } else {
        assert(all[0] == ("authorization"@, value));
    }
}

proof fn header_is_absent(before: Seq<(Seq<char>, Seq<char>)>)
    requires
        forall|i: int| 0 <= i < before.len() ==> (#[trigger] before[i]).0 != "authorization"@,
    ensures
        header(before, "authorization"@) is None,
    decreases before.len(),
{
    if before.len() > 0 {
        assert(before[0].0 != "authorization"@);
        assert forall|i: int| 0 <= i < before.skip(1).len() implies (#[trigger] before.skip(1)[i]).0
            != "authorization"@ by {
            assert(before.skip(1)[i] == before[i + 1]);
        }
        header_is_absent(before.skip(1));
    }
}

/// An authenticator asks for a signature under its own algorithms, refuses what
/// has expired, demands no registered claim, and looks at an audience or an issuer
/// exactly where one is set, which is then the only one that will do.
pub proof fn policies_follow_the_settings(a: AuthenticatorV)
    ensures
        policy_of(a).validate_exp,
        policy_of(a).required_spec_claims.len() == 0,
        policy_of(a).algorithms.len() == a.algorithms.len(),
        forall|i: int|
            0 <= i < a.algorithms.len() ==> #[trigger] policy_of(a).algorithms[i]
                == outside_algorithm(a.algorithms[i]),
        policy_of(a).validate_aud <==> a.audience is Some,
        a.audience matches Some(u) ==> policy_of(a).audiences == Some(seq![u]),
        a.issuer matches Some(i) ==> policy_of(a).issuers == Some(seq![i]),
        a.issuer is None ==> policy_of(a).issuers is None,
{
}

/// A token is accepted only where it is signed with the key that the first
/// algorithm reads: the text itself for a shared secret, and otherwise the public
/// key of the algorithm's family that the text holds.
pub proof fn tokens_are_signed_with_the_configured_key(
    a: AuthenticatorV,
    token: Seq<char>,
    claims: Seq<(Seq<char>, JsonV)>,
)
    requires
        a.algorithms.len() > 0,
        accepted_claims(a, token) == Some(claims),
    ensures
        ({
            let first = a.algorithms[0];
            let key = if first == Algorithm::HS256 || first == Algorithm::HS384 || first
                == Algorithm::HS512 {
                Some(secret_key(a.key))
            } else if first == Algorithm::ES256 || first == Algorithm::ES384 {
                ec_key(a.key)
            } else if first == Algorithm::EdDSA {
                ed_key(a.key)
            } else {
                rsa_key(a.key)
            };
            key matches Some(k) && (signed_token(token, k, outside_algorithms(a.algorithms))
                matches Some(s) && s.claims == claims)
        }),
{
}

/// The identity of a token is that of its claims: who sends a token that is
/// accepted is who its claims say.
pub proof fn accepted_tokens_speak_for_their_claims(
    a: AuthenticatorV,
    token: Seq<char>,
    claims: Seq<(Seq<char>, JsonV)>,
)
    requires
        accepted_claims(a, token) == Some(claims),
    ensures
        accepted(a, token) == identity_of(claims, a.mapping, a.required),
        admitted(a, Some(JsonV::Object(claims))) == identity_of(claims, a.mapping, a.required),
        admitted(a, None) is None,
{
}

/// Only an `exp` that is a number, and not a negative integer, lets the time
/// decide.
pub proof fn only_a_number_lets_the_time_decide(claims: Seq<(Seq<char>, JsonV)>, n: NumberV)
    ensures
        member(claims, "exp"@) is None ==> !may_expire(claims),
        member(claims, "exp"@) == Some(JsonV::Number(n)) ==> (may_expire(claims) <==> !(
        n is NegInt)),
        member(claims, "exp"@) matches Some(v) && !(v is Number) ==> !may_expire(claims),
{
}

/// A card shows a bearer scheme over HTTP whose tokens are JSON Web Tokens.
pub proof fn bearer_schemes_are_told()
    ensures
        bearer_schemes().get("bearer"@) matches Some(b) && b.text_at("type"@) == Some("http"@)
            && b.text_at("scheme"@) == Some("bearer"@) && b.text_at("bearerFormat"@) == Some(
            "JWT"@,
        ),
{
    reveal_strlit("type");
    reveal_strlit("scheme");
    reveal_strlit("bearerFormat");
    reveal_strlit("bearer");
    assert("type"@.len() == 4);
    assert("scheme"@.len() == 6 && "scheme"@[0] == 's');
    assert("bearerFormat"@.len() == 12);
    assert("bearer"@.len() == 6 && "bearer"@[0] == 'b');
    let m = bearer_schemes()->Object_0;
    crate::json::member_at(m, "bearer"@, 0);
    let b = m[0].1->Object_0;
    crate::json::member_at(b, "type"@, 0);
    crate::json::member_at(b, "scheme"@, 1);
    crate::json::member_at(b, "bearerFormat"@, 2);
}

/// A token is judged by the key that the first algorithm is for, under the policy
/// that was set up, and refused where the key is no such key.
pub proof fn tokens_are_judged_by_the_configured_key(
    a: AuthenticatorV,
    token: Seq<char>,
    answer: Option<JsonV>,
)
    requires
        a.algorithms.len() > 0,
        judged(a, token, answer),
    ensures
        ({
            let first = a.algorithms[0];
            let key = if first == Algorithm::HS256 || first == Algorithm::HS384 || first
                == Algorithm::HS512 {
                Some(secret_key(a.key))
            } else if first == Algorithm::ES256 || first == Algorithm::ES384 {
                ec_key(a.key)
            } else if first == Algorithm::EdDSA {
                ed_key(a.key)
            } else {
                rsa_key(a.key)
            };
            &&& key is None ==> answer is None
            &&& key matches Some(k) ==> decode_answered(token, k, policy_of(a), answer)
        }),
{
}

/// A signed token is accepted where it names the issuer and the audience that were
/// set, or where it says nothing of them, and refused where it names others.
pub proof fn fitting_tokens_are_accepted(
    a: AuthenticatorV,
    token: Seq<char>,
    k: DecodingKey,
    s: SignedV,
)
    requires
        a.algorithms.len() > 0,
        a.algorithms[0] == Algorithm::HS256 && k == secret_key(a.key) || a.algorithms[0]
            == Algorithm::ES256 && ec_key(a.key) == Some(k) || a.algorithms[0] == Algorithm::EdDSA
            && ed_key(a.key) == Some(k) || a.algorithms[0] == Algorithm::RS256 && rsa_key(a.key)
            == Some(k),
        signed_token(token, k, outside_algorithms(a.algorithms)) == Some(s),
    ensures
        ({
            let issuer_fits = a.issuer matches Some(i) ==> (s.issuers matches Some(p) ==> p.contains(
                i,
            ));
            let audience_fits = a.audience matches Some(u) ==> (s.audiences matches Some(p)
                ==> p.contains(u));
            &&& issuer_fits && audience_fits ==> accepted_claims(a, token) == Some(s.claims)
            &&& !(issuer_fits && audience_fits) ==> accepted_claims(a, token) is None
        }),
        time_decides(a, token) ==> may_expire(s.claims),
{
    other_parties_are_refused(a, s);
}

/// Who a token is for or from is one party, or each of a list of them; anything else
/// under the claim names nobody.
pub proof fn parties_are_named_by_strings(v: Seq<JsonV>, s: Seq<char>, x: JsonV)
    ensures
        parties_in(Some(JsonV::Str(s))) matches Some(p) && forall|t: Seq<char>|
            #[trigger] p.contains(t) <==> t == s,
        (forall|i: int| 0 <= i < v.len() ==> (#[trigger] v[i]) is Str) ==> (parties_in(
            Some(JsonV::Array(v)),
        ) matches Some(p) && (p.contains(s) <==> v.contains(JsonV::Str(s)))),
        v.contains(x) && !(x is Str) ==> parties_in(Some(JsonV::Array(v))) is None,
        parties_in(None) is None,
        !(x is Str) && !(x is Array) ==> parties_in(Some(x)) is None,
{
    if v.contains(x) && !(x is Str) {
        let i = choose|i: int| 0 <= i < v.len() && v[i] == x;
        assert(!(v[i] is Str));
    }
}

/// Where the mapping is the usual one, the subject is the id, the type is the type,
/// and the roles are those listed.
pub proof fn the_usual_claims_make_the_identity(
    claims: Seq<(Seq<char>, JsonV)>,
    required: Seq<Seq<char>>,
    i: IdentityV,
    t: Seq<char>,
)
    requires
        identity_of(claims, default_mapping(), required) == Some(i),
    ensures
        member(claims, "sub"@) == Some(JsonV::Str(t)) ==> i.id == t,
        member(claims, "type"@) == Some(JsonV::Str(t)) ==> i.identity_type == t,
        member(claims, "type"@) is None ==> i.identity_type == "jwt"@,
        i.roles.contains(t) <==> (member(claims, "roles"@) matches Some(JsonV::Array(s))
            && s.contains(JsonV::Str(t))),
        i.attrs.len() == 0,
{
    roles_follow_the_mapping(claims, default_mapping(), required, i, t);
}

} // verus!
