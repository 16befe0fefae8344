//! What the server knows of the executor that runs its modules.

use vstd::prelude::*;
use vstd::string::*;

use crate::adapters::parts::PartConverter;
use crate::auth::identity::{opt_identity, opt_identity_ref, Identity, IdentityV};
use crate::codec::value_of_json;
use crate::text::{opt_view, owned};

verus! {

/// The name under which a caller from outside reaches the access rules.
pub const EXTERNAL_CALLER: &'static str = "@external";

/// apcore's access control list, which may keep an audit trail and consult
/// conditions that its user registered.
#[verifier::external_type_specification]
#[verifier::external_body]
pub struct ExAcl(apcore::acl::ACL);

/// In whose name a module is called or an access rule is asked.
#[derive(Debug)]
pub struct AclContext {
    pub caller_id: Option<String>,
    pub identity: Option<Identity>,
}

/// What such a context denotes.
#[verifier::ext_equal]
pub struct AclContextV {
    pub caller_id: Option<Seq<char>>,
    pub identity: Option<IdentityV>,
}

impl View for AclContext {
    type V = AclContextV;

    open spec fn view(&self) -> AclContextV {
        AclContextV { caller_id: opt_view(self.caller_id), identity: opt_identity(self.identity) }
    }
}

/// The identity of a caller who has none.
pub open spec fn external_identity() -> IdentityV {
    IdentityV {
        id: "@external"@,
        identity_type: "external"@,
        roles: Seq::empty(),
        attrs: Seq::empty(),
    }
}

/// The context in which a call is made: no module makes it.
pub open spec fn call_context(identity: Option<IdentityV>) -> AclContextV {
    AclContextV { caller_id: None, identity }
}

/// The context in which a request reaches the access rules: as an external
/// caller, under its own identity where it has one.
pub open spec fn external_context(identity: Option<IdentityV>) -> AclContextV {
    AclContextV {
        caller_id: Some("@external"@),
        identity: match identity {
            Some(i) => Some(i),
            None => Some(external_identity()),
        },
    }
}

/// The answer of the access rules.
#[derive(Debug, Clone, Copy, PartialEq, Eq, Structural)]
pub struct Access {
    pub allowed: bool,
    pub approval_required: bool,
}

/// That `ACL::check_access` gave this answer for a skill in a context. The
/// answer may rest on conditions that the list's user registered, so that
/// another may come at another time.
pub uninterp spec fn access_answered(
    acl: apcore::acl::ACL,
    ctx: AclContextV,
    skill_id: Seq<char>,
    answer: Access,
) -> bool;

/// `ACL::check_access` for a skill, in the `Context` with the given caller and
/// identity and a fresh `CancelToken`, after `Context::child` for that skill and
/// with no arguments. The context carries no deadline.
///
/// Of the answer itself it is only said that what is denied needs no approval.
#[verifier::external_body]
pub(crate) fn check_access(acl: &apcore::acl::ACL, ctx: &AclContext, skill_id: &str) -> (r: Access)
    ensures
        access_answered(*acl, ctx@, skill_id@, r),
        r.approval_required ==> r.allowed,
{
    let identity = ctx.identity.as_ref().map(|i| apcore::context::Identity::new(
        i.id.clone(),
        i.identity_type.clone(),
        i.roles.clone(),
        i.attrs.iter().map(|(k, v)| (k.clone(), value_of_json(v))).collect(),
    ));
    let base = apcore::context::Context::<serde_json::Value>::builder()
        .identity(identity)
        .caller_id(ctx.caller_id.clone())
        .cancel_token(Some(apcore::cancel::CancelToken::new()))
        .build();
    let child = base.child(skill_id);
    let d = acl.check_access(child.caller_id.as_deref(), skill_id, Some(&child), None);
    Access { allowed: d.is_allowed(), approval_required: d.approval_required }
}

/// The server's view of the executor: how parts are converted, how long a call
/// may take, which access rules hold, and how much of a refusal is told.
pub struct ApCoreAgentExecutor {
    part_converter: PartConverter,
    execution_timeout_secs: u64,
    disclose_refusal_reason: bool,
    acl: Option<std::sync::Arc<apcore::acl::ACL>>,
}

impl ApCoreAgentExecutor {
    /// The converter of message parts.
    pub closed spec fn converter(&self) -> PartConverter {
        self.part_converter
    }

    /// How long a call may take, in seconds.
    pub closed spec fn timeout(&self) -> u64 {
        self.execution_timeout_secs
    }

    /// Whether the reason of a refusal is told.
    pub closed spec fn discloses(&self) -> bool {
        self.disclose_refusal_reason
    }

    /// The access rules, where there are any.
    pub closed spec fn rules(&self) -> Option<std::sync::Arc<apcore::acl::ACL>> {
        self.acl
    }

    /// An executor without access rules that tells refusals by a fixed text.
    pub fn new(part_converter: PartConverter, execution_timeout_secs: u64) -> (r:
        ApCoreAgentExecutor)
        ensures
            r.converter() == part_converter,
            r.timeout() == execution_timeout_secs,
            !r.discloses(),
            r.rules() is None,
    {
        ApCoreAgentExecutor {
            part_converter,
            execution_timeout_secs,
            disclose_refusal_reason: false,
            acl: None,
        }
    }

    /// Hold calls to access rules.
    pub fn with_acl(self, acl: Option<std::sync::Arc<apcore::acl::ACL>>) -> (r: ApCoreAgentExecutor)
        ensures
            r.converter() == self.converter(),
            r.timeout() == self.timeout(),
            r.discloses() == self.discloses(),
            r.rules() == acl,
    {
        let mut r = self;
        r.acl = acl;
        r
    }

    /// Tell the reason of a refusal, or not.
    pub fn with_disclose_refusal_reason(self, disclose: bool) -> (r: ApCoreAgentExecutor)
        ensures
            r.converter() == self.converter(),
            r.timeout() == self.timeout(),
            r.discloses() == disclose,
            r.rules() == self.rules(),
    {
        let mut r = self;
        r.disclose_refusal_reason = disclose;
        r
    }

    /// Whether the reason of a refusal is told.
    pub fn disclose_refusal_reason(&self) -> (r: bool)
        ensures
            r == self.discloses(),
    {
        self.disclose_refusal_reason
    }

    /// How long a call may take, in seconds.
    pub fn execution_timeout_secs(&self) -> (r: u64)
        ensures
            r == self.timeout(),
    {
        self.execution_timeout_secs
    }

    /// The converter of message parts.
    pub fn part_converter(&self) -> (r: &PartConverter)
        ensures
            *r == self.converter(),
    {
        &self.part_converter
    }

    /// The access rules, where there are any.
    pub fn acl(&self) -> (r: Option<&apcore::acl::ACL>)
        ensures
            match r {
                Some(a) => self.rules() matches Some(x) && *a == *x,
                None => self.rules() is None,
            },
    {
        match &self.acl {
            Some(a) => Some(&**a),
            None => None,
        }
    }

    /// The context in which a call is made. It names no calling module: the
    /// principal travels in the identity.
    pub fn build_context(&self, identity: Option<&Identity>) -> (r: AclContext)
        ensures
            r@ == call_context(opt_identity_ref(identity)),
    {
        let who: Option<Identity> = match identity {
            Some(i) => Some(i.copy()),
            None => None,
        };
        let r = AclContext { caller_id: None, identity: who };
        assert(r@ =~= call_context(opt_identity_ref(identity)));
        r
    }

    /// The context in which a request reaches the access rules. An inbound
    /// request is external whoever sent it; the principal travels in the
    /// identity.
    pub fn acl_context(&self, identity: Option<&Identity>) -> (r: AclContext)
        ensures
            r@ == external_context(opt_identity_ref(identity)),
    {
        let mut r: AclContext = self.build_context(identity);
        r.caller_id = Some(owned(EXTERNAL_CALLER));
        if r.identity.is_none() {
            r.identity = Some(
                Identity::new(owned(EXTERNAL_CALLER), owned("external"), Vec::new(), Vec::new()),
            );
        }
        assert(r@ =~= external_context(opt_identity_ref(identity)));
        r
    }
}

/// A request is external to the access rules whoever sent it: its caller is no
/// module, and its principal is the identity it came with, or that of a stranger
/// with no roles.
pub proof fn requests_are_external_to_the_rules(identity: Option<IdentityV>)
    ensures
        external_context(identity).caller_id == Some("@external"@),
        identity is Some ==> external_context(identity).identity == identity,
        identity is None ==> (external_context(identity).identity matches Some(i) && i.id
            == "@external"@ && i.identity_type == "external"@ && i.roles.len() == 0
            && i.attrs.len() == 0),
{
}

/// A call names no calling module, and its principal is the identity of the request,
/// where it has one.
pub proof fn calls_speak_for_their_principal(identity: Option<IdentityV>)
    ensures
        call_context(identity).caller_id is None,
        call_context(identity).identity == identity,
{
}

} // verus!
