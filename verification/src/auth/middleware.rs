//! Which requests pass the authentication layer, and how.

use vstd::prelude::*;
use vstd::string::*;

use crate::auth::identity::{opt_identity, Identity, IdentityV};
use crate::json::{fields, object, put, string, Json, JsonV};
use crate::text::{starts_with, views};

verus! {

/// The key under which an identity is stored with a request.
pub const AUTH_IDENTITY: &'static str = "auth_identity";

/// What is done with a request.
#[derive(Debug)]
pub enum Admission {
    /// It goes on, under an identity where there is one.
    Forward(Option<Identity>),
    /// It is answered with 401.
    Reject,
}

/// What an admission denotes.
#[verifier::ext_equal]
pub enum AdmissionV {
    Forward(Option<IdentityV>),
    Reject,
}

impl View for Admission {
    type V = AdmissionV;

    open spec fn view(&self) -> AdmissionV {
        match self {
            Admission::Forward(i) => AdmissionV::Forward(opt_identity(*i)),
            Admission::Reject => AdmissionV::Reject,
        }
    }
}

/// A path is exempt when it begins with an exempt path.
pub open spec fn exempt(path: Seq<char>, exempt_paths: Seq<Seq<char>>) -> bool {
    exists|i: int| 0 <= i < exempt_paths.len() && (#[trigger] exempt_paths[i]).is_prefix_of(path)
}

/// What is done with a request: an exempt one goes on unauthenticated, one with
/// an identity goes on under it, and one without is refused where
/// authentication is required.
pub open spec fn admitted(
    exempt: bool,
    require_auth: bool,
    identity: Option<IdentityV>,
) -> AdmissionV {
    if exempt {
        AdmissionV::Forward(None)
    } else if identity is None && require_auth {
        AdmissionV::Reject
    } else {
        AdmissionV::Forward(identity)
    }
}

/// The rules of the authentication layer.
#[derive(Debug)]
pub struct AuthRules {
    pub exempt_paths: Vec<String>,
    pub require_auth: bool,
}

impl AuthRules {
    /// Rules that refuse a request without an identity.
    pub fn new(exempt_paths: Vec<String>) -> (r: AuthRules)
        ensures
            r.exempt_paths == exempt_paths,
            r.require_auth,
    {
        AuthRules { exempt_paths, require_auth: true }
    }

    /// Rules that refuse a request without an identity only where told to.
    pub fn with_require_auth(exempt_paths: Vec<String>, require_auth: bool) -> (r: AuthRules)
        ensures
            r.exempt_paths == exempt_paths,
            r.require_auth == require_auth,
    {
        AuthRules { exempt_paths, require_auth }
    }

    /// Whether a path needs no authentication.
    pub fn is_exempt(&self, path: &str) -> (r: bool)
        ensures
            r == exempt(path@, views(self.exempt_paths@)),
    {
        let ghost all = views(self.exempt_paths@);
        let mut i: usize = 0;
        while i < self.exempt_paths.len()
            invariant
                i <= self.exempt_paths.len(),
                all == views(self.exempt_paths@),
                forall|k: int| 0 <= k < i ==> !(#[trigger] all[k]).is_prefix_of(path@),
            decreases self.exempt_paths.len() - i,
        {
            if starts_with(path, self.exempt_paths[i].as_str()) {
                assert(all[i as int].is_prefix_of(path@));
                return true;
            }
            i += 1;
        }
        false
    }

    /// What is done with a request to `path` once its headers were looked at.
    pub fn screen(&self, path: &str, identity: Option<Identity>) -> (r: Admission)
        ensures
            r@ == admitted(
                exempt(path@, views(self.exempt_paths@)),
                self.require_auth,
                opt_identity(identity),
            ),
    {
        if self.is_exempt(path) {
            return Admission::Forward(None);
        }
        match identity {
            None => if self.require_auth {
                Admission::Reject
            } else {
                Admission::Forward(None)
            },
            Some(i) => Admission::Forward(Some(i)),
        }
    }
}

/// The body of the answer to a refused request.
pub open spec fn unauthorized_json() -> JsonV {
    JsonV::Object(
        seq![
            ("error"@, JsonV::Str("Unauthorized"@)),
            ("detail"@, JsonV::Str("Missing or invalid Bearer token"@)),
        ],
    )
}

/// The body of the answer to a refused request. It goes out as JSON with status
/// 401 and a `WWW-Authenticate: Bearer` header.
pub fn unauthorized_body() -> (r: Json)
    ensures
        r@ == unauthorized_json(),
{
    let mut m: Vec<(String, Json)> = Vec::new();
    put(&mut m, "error", string("Unauthorized"));
    put(&mut m, "detail", string("Missing or invalid Bearer token"));
    assert(fields(m@) =~= unauthorized_json()->Object_0);
    object(m)
}

/// Where authentication is required, what goes on past the layer is an exempt
/// request or one with an identity.
pub proof fn strict_rules_let_no_stranger_pass(
    path_exempt: bool,
    identity: Option<IdentityV>,
)
    ensures
        admitted(path_exempt, true, identity) is Forward <==> path_exempt || identity is Some,
        admitted(path_exempt, false, identity) is Forward,
{
}

/// A path that begins with an exempt one is exempt, and no other: where no exempt
/// path is as long as it, or each has another character somewhere, it is not.
pub proof fn exempt_paths_are_beginnings(
    path: Seq<char>,
    rest: Seq<char>,
    exempt_paths: Seq<Seq<char>>,
)
    ensures
        exempt_paths.contains(path) ==> exempt(path + rest, exempt_paths),
        (forall|i: int|
            0 <= i < exempt_paths.len() ==> (#[trigger] exempt_paths[i]).len() > path.len()
                || path.take(exempt_paths[i].len() as int) != exempt_paths[i]) ==> !exempt(
            path,
            exempt_paths,
        ),
        exempt_paths.len() == 0 ==> !exempt(path, exempt_paths),
{
    if exempt_paths.contains(path) {
        let i = choose|i: int| 0 <= i < exempt_paths.len() && exempt_paths[i] == path;
        assert(path =~= (path + rest).subrange(0, path.len() as int));
        assert(exempt_paths[i].is_prefix_of(path + rest));
    }
    if exempt(path, exempt_paths) {
        let i = choose|i: int|
            0 <= i < exempt_paths.len() && (#[trigger] exempt_paths[i]).is_prefix_of(path);
        let n = exempt_paths[i].len() as int;
        assert(path.take(n) =~= path.subrange(0, n));
    }
}

/// What goes on past the layer goes on with the identity it came with, but on an
/// exempt path, where nobody is asked for one; what is refused had none.
pub proof fn identities_are_passed_on(
    path_exempt: bool,
    require_auth: bool,
    identity: Option<IdentityV>,
)
    ensures
        admitted(path_exempt, require_auth, identity) is Reject <==> !path_exempt && require_auth
            && identity is None,
        !path_exempt && identity is Some ==> admitted(path_exempt, require_auth, identity)
            == AdmissionV::Forward(identity),
        path_exempt ==> admitted(path_exempt, require_auth, identity) == AdmissionV::Forward(None),
        identity is None && !require_auth ==> admitted(path_exempt, require_auth, identity)
            == AdmissionV::Forward(None),
{
}

/// A refused request is told that it is, and why.
pub proof fn refused_requests_are_told()
    ensures
        unauthorized_json().text_at("error"@) == Some("Unauthorized"@),
        unauthorized_json().text_at("detail"@) == Some("Missing or invalid Bearer token"@),
{
    reveal_strlit("error");
    reveal_strlit("detail");
    assert("error"@.len() == 5);
    assert("detail"@.len() == 6);
    let m = unauthorized_json()->Object_0;
    crate::json::member_at(m, "error"@, 0);
    crate::json::member_at(m, "detail"@, 1);
}

} // verus!
