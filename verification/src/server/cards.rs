//! Which skills a caller is shown.
//!
//! The card lists what a caller may invoke: the access rules that gate a call
//! also gate its advertisement. The public card withholds, besides, the
//! management modules and whatever needs an approval.

use vstd::prelude::*;
use vstd::string::*;

use crate::auth::identity::{opt_identity_ref, Identity, IdentityV};
use crate::json::{
    clone_fields, fields, find, insert, inserted, items, member, model_of, object, position,
    position_found, Json, JsonV,
};
use crate::server::executor::{
    access_answered, check_access, external_context, Access, AclContext, ApCoreAgentExecutor,
};
use crate::storage::{owner_of, OwnerId};
use crate::text::{contains_str, opt_view, owned, starts_with, views};

verus! {

/// The namespace of the runtime's own management modules.
pub const SYSTEM_NAMESPACE: &'static str = "system.";

/// A skill of the management namespace.
pub open spec fn is_system(skill_id: Seq<char>) -> bool {
    "system."@.is_prefix_of(skill_id)
}

/// Whether a skill is one of the management modules.
pub fn is_system_skill(skill_id: &str) -> (r: bool)
    ensures
        r == is_system(skill_id@),
{
    starts_with(skill_id, SYSTEM_NAMESPACE)
}

/// The skills of a card, where it has a list of them.
pub open spec fn skills_in(card: JsonV) -> Option<Seq<JsonV>> {
    match card.get("skills"@) {
        Some(JsonV::Array(s)) => Some(s),
        _ => None,
    }
}

/// The card with other skills in place of its own.
pub open spec fn with_skills(card: JsonV, skills: Seq<JsonV>) -> JsonV {
    match card {
        JsonV::Object(m) => JsonV::Object(
            m.update(position(m, "skills"@) as int, ("skills"@, JsonV::Array(skills))),
        ),
        _ => card,
    }
}

/// The items that are marked to be kept, in order.
pub open spec fn retained(s: Seq<JsonV>, keep: Seq<bool>) -> Seq<JsonV>
    recommends
        s.len() == keep.len(),
    decreases s.len(),
{
    if s.len() == 0 {
        Seq::empty()
    } else {
        let rest = retained(s.drop_last(), keep.take(s.len() - 1));
        if keep[s.len() - 1] {
            rest.push(s.last())
        } else {
            rest
        }
    }
}

/// The card with only the skills that are marked to be kept.
pub open spec fn kept(card: JsonV, keep: Seq<bool>) -> JsonV {
    match skills_in(card) {
        Some(s) => with_skills(card, retained(s, keep)),
        None => card,
    }
}

/// Keep the skills that are marked; a card without a list of skills stays as it
/// is.
fn keep_skills(card: &Json, keep: &Vec<bool>) -> (r: Json)
    requires
        skills_in(card@) matches Some(s) ==> s.len() == keep.len(),
    ensures
        r@ == kept(card@, keep@),
{
    proof {
        model_of(*card);
    }
    match card {
        Json::Object(m) => {
            let mut out: Vec<(String, Json)> = clone_fields(m);
            match find(m, "skills") {
                Some(p) => {
                    proof {
                        model_of(m[p as int].1);
                    }
                    match &m[p].1 {
                        Json::Array(s) => {
                            let left: Vec<Json> = pick(s, keep);
                            let list: Json = crate::json::array(left);
                            assert(fields(out@).len() == out@.len());
                            assert(fields(m@).len() == m@.len());
                            out.set(p, (owned("skills"), list));
                            assert(fields(out@) =~= kept(card@, keep@)->Object_0);
                            object(out)
                        },
                        _ => card.copy(),
                    }
                },
                None => card.copy(),
            }
        },
        _ => card.copy(),
    }
}

fn pick(s: &Vec<Json>, keep: &Vec<bool>) -> (r: Vec<Json>)
    requires
        s.len() == keep.len(),
    ensures
        items(r@) == retained(items(s@), keep@),
{
    let ghost all = items(s@);
    let mut out: Vec<Json> = Vec::new();
    let mut i: usize = 0;
    assert(all.take(0) =~= Seq::empty());
    assert(items(out@) =~= Seq::empty());
    while i < s.len()
        invariant
            i <= s.len() == keep.len(),
            all == items(s@),
            items(out@) == retained(all.take(i as int), keep@.take(i as int)),
        decreases s.len() - i,
    {
        assert(all.take(i + 1).drop_last() =~= all.take(i as int));
        assert(keep@.take(i + 1).take(i as int) =~= keep@.take(i as int));
        assert(all.take(i + 1).last() == s[i as int]@);
        if keep[i] {
            let ghost prev = out@;
            out.push(s[i].copy());
            assert(items(out@) =~= items(prev).push(s[i as int]@));
        }
        i += 1;
    }
    assert(all.take(i as int) =~= all);
    assert(keep@.take(i as int) =~= keep@);
    out
}

/// Whether a skill may be shown, given what the access rules said.
pub open spec fn may_show(a: Access, hide_approval_gated: bool) -> bool {
    a.allowed && !(hide_approval_gated && a.approval_required)
}

/// Which skills the access rules leave: those with an id that may be shown.
pub open spec fn acl_marks(
    skills: Seq<JsonV>,
    answers: Seq<Access>,
    hide_approval_gated: bool,
) -> Seq<bool> {
    Seq::new(
        skills.len(),
        |i: int| skills[i].text_at("id"@) is Some && may_show(answers[i], hide_approval_gated),
    )
}

/// The card with only the skills that the access rules leave, given their
/// answer for each skill.
pub open spec fn acl_filtered(card: JsonV, answers: Seq<Access>, hide: bool) -> JsonV {
    match skills_in(card) {
        Some(s) => kept(card, acl_marks(s, answers, hide)),
        None => card,
    }
}

/// The ids of the skills of a card, in order; nothing where a skill has none.
pub open spec fn ids_in(card: JsonV) -> Seq<Option<Seq<char>>> {
    match skills_in(card) {
        Some(s) => Seq::new(s.len(), |i: int| s[i].text_at("id"@)),
        None => Seq::empty(),
    }
}

/// What a list of optional strings denotes.
pub open spec fn opt_views(v: Seq<Option<String>>) -> Seq<Option<Seq<char>>> {
    Seq::new(v.len(), |i: int| opt_view(v[i]))
}

/// The ids of the skills of a card, in order; nothing where a skill has none.
pub fn skill_ids_of(card: &Json) -> (r: Vec<Option<String>>)
    ensures
        opt_views(r@) == ids_in(card@),
{
    let mut out: Vec<Option<String>> = Vec::new();
    if let Some(list) = card.get("skills") {
        proof {
            model_of(*list);
        }
        if let Json::Array(s) = list {
            let mut i: usize = 0;
            while i < s.len()
                invariant
                    i <= s.len(),
                    out.len() == i,
                    forall|k: int|
                        0 <= k < i ==> opt_view(#[trigger] out[k]) == s[k]@.text_at("id"@),
                decreases s.len() - i,
            {
                out.push(
                    match s[i].get_str("id") {
                        Some(x) => Some(owned(x)),
                        None => None,
                    },
                );
                i += 1;
            }
        }
    }
    assert(opt_views(out@) =~= ids_in(card@));
    out
}

/// Remove the skills that the access rules do not leave, given their answer for
/// each skill of the card.
pub fn apply_access(card: &Json, answers: &Vec<Access>, hide_approval_gated: bool) -> (r: Json)
    requires
        answers.len() == ids_in(card@).len(),
    ensures
        r@ == acl_filtered(card@, answers@, hide_approval_gated),
{
    let ids: Vec<Option<String>> = skill_ids_of(card);
    assert(opt_views(ids@).len() == ids.len());
    let mut keep: Vec<bool> = Vec::new();
    let mut i: usize = 0;
    while i < ids.len()
        invariant
            i <= ids.len() == answers.len(),
            keep.len() == i,
            opt_views(ids@) == ids_in(card@),
            forall|k: int|
                0 <= k < i ==> #[trigger] keep[k] == (ids_in(card@)[k] is Some && may_show(
                    answers[k],
                    hide_approval_gated,
                )),
        decreases ids.len() - i,
    {
        let a: Access = answers[i];
        assert(opt_views(ids@)[i as int] == opt_view(ids[i as int]));
        keep.push(
            ids[i].is_some() && a.allowed && !(hide_approval_gated && a.approval_required),
        );
        i += 1;
    }
    proof {
        if let Some(s) = skills_in(card@) {
            assert(keep@ =~= acl_marks(s, answers@, hide_approval_gated));
        }
    }
    keep_skills(card, &keep)
}

/// The access rules gave these answers for the skills of a card that have an
/// id, each asked for as an external request under the given identity.
pub open spec fn asked(
    rules: Option<std::sync::Arc<apcore::acl::ACL>>,
    identity: Option<IdentityV>,
    card: JsonV,
    answers: Seq<Access>,
) -> bool {
    &&& answers.len() == ids_in(card).len()
    &&& rules matches Some(acl) && forall|i: int|
        0 <= i < answers.len() ==> (ids_in(card)[i] matches Some(id) ==> access_answered(
            *acl,
            external_context(identity),
            id,
            #[trigger] answers[i],
        ))
}

/// Remove from a card the skills that a caller may not invoke. Each skill is
/// asked for as the call itself would be, in the context of an external
/// request. Without access rules the card stays as it is.
pub fn acl_filtered_card(
    card: &Json,
    executor: &ApCoreAgentExecutor,
    identity: Option<&Identity>,
    hide_approval_gated: bool,
) -> (r: Json)
    ensures
        executor.rules() is None ==> r@ == card@,
        executor.rules() is Some ==> exists|answers: Seq<Access>|
            asked(executor.rules(), opt_identity_ref(identity), card@, answers) && r@
                == #[trigger] acl_filtered(card@, answers, hide_approval_gated),
{
    let acl: &apcore::acl::ACL = match executor.acl() {
        Some(a) => a,
        None => {
            return card.copy();
        },
    };
    let ctx: AclContext = executor.acl_context(identity);
    let ids: Vec<Option<String>> = skill_ids_of(card);
    assert(opt_views(ids@).len() == ids.len());
    let mut answers: Vec<Access> = Vec::new();
    let mut i: usize = 0;
    while i < ids.len()
        invariant
            i <= ids.len(),
            answers.len() == i,
            opt_views(ids@) == ids_in(card@),
            ctx@ == external_context(opt_identity_ref(identity)),
            forall|k: int|
                0 <= k < i ==> (ids_in(card@)[k] matches Some(id) ==> access_answered(
                    *acl,
                    ctx@,
                    id,
                    #[trigger] answers[k],
                )),
        decreases ids.len() - i,
    {
        assert(opt_views(ids@)[i as int] == opt_view(ids[i as int]));
        answers.push(
            match &ids[i] {
                Some(id) => check_access(acl, &ctx, id.as_str()),
                None => Access { allowed: false, approval_required: false },
            },
        );
        i += 1;
    }
    apply_access(card, &answers, hide_approval_gated)
}

/// Which skills are not of the management namespace.
pub open spec fn system_marks(skills: Seq<JsonV>) -> Seq<bool> {
    Seq::new(
        skills.len(),
        |i: int| !(skills[i].text_at("id"@) matches Some(id) && is_system(id)),
    )
}

/// The card without the management modules.
pub open spec fn without_system(card: JsonV) -> JsonV {
    match skills_in(card) {
        Some(s) => kept(card, system_marks(s)),
        None => card,
    }
}

/// Remove the management modules from a card.
pub fn without_system_skills(card: &Json) -> (r: Json)
    ensures
        r@ == without_system(card@),
{
    let ids: Vec<Option<String>> = skill_ids_of(card);
    assert(opt_views(ids@).len() == ids.len());
    let mut keep: Vec<bool> = Vec::new();
    let mut i: usize = 0;
    while i < ids.len()
        invariant
            i <= ids.len(),
            keep.len() == i,
            opt_views(ids@) == ids_in(card@),
            forall|k: int|
                0 <= k < i ==> #[trigger] keep[k] == !(ids_in(card@)[k] matches Some(id)
                    && is_system(id)),
        decreases ids.len() - i,
    {
        assert(opt_views(ids@)[i as int] == opt_view(ids[i as int]));
        keep.push(
            match &ids[i] {
                Some(id) => !is_system_skill(id.as_str()),
                None => true,
            },
        );
        i += 1;
    }
    proof {
        if let Some(s) = skills_in(card@) {
            assert(keep@ =~= system_marks(s));
        }
    }
    keep_skills(card, &keep)
}

/// Which skills do not need an approval by the word of their module.
pub open spec fn ungated_marks(skills: Seq<JsonV>, gated: Seq<Seq<char>>) -> Seq<bool> {
    Seq::new(
        skills.len(),
        |i: int| !(skills[i].text_at("id"@) matches Some(id) && gated.contains(id)),
    )
}

/// The card without the skills that need an approval by the word of their
/// module.
pub open spec fn without_gated(card: JsonV, gated: Seq<Seq<char>>) -> JsonV {
    match skills_in(card) {
        Some(s) => kept(card, ungated_marks(s, gated)),
        None => card,
    }
}

/// Remove the skills with one of the given ids from a card.
pub fn without_gated_skills(card: &Json, gated: &Vec<String>) -> (r: Json)
    ensures
        r@ == without_gated(card@, views(gated@)),
{
    let ids: Vec<Option<String>> = skill_ids_of(card);
    assert(opt_views(ids@).len() == ids.len());
    let mut keep: Vec<bool> = Vec::new();
    let mut i: usize = 0;
    while i < ids.len()
        invariant
            i <= ids.len(),
            keep.len() == i,
            opt_views(ids@) == ids_in(card@),
            forall|k: int|
                0 <= k < i ==> #[trigger] keep[k] == !(ids_in(card@)[k] matches Some(id)
                    && views(gated@).contains(id)),
        decreases ids.len() - i,
    {
        assert(opt_views(ids@)[i as int] == opt_view(ids[i as int]));
        keep.push(
            match &ids[i] {
                Some(id) => !contains_str(gated, id.as_str()),
                None => true,
            },
        );
        i += 1;
    }
    proof {
        if let Some(s) = skills_in(card@) {
            assert(keep@ =~= ungated_marks(s, views(gated@)));
        }
    }
    keep_skills(card, &keep)
}

/// The public card, given the answers of the access rules for the skills that
/// are left once the management modules are gone.
pub open spec fn public_of(
    card: JsonV,
    answers: Option<Seq<Access>>,
    gated: Seq<Seq<char>>,
) -> JsonV {
    let open = without_system(card);
    without_gated(
        match answers {
            Some(a) => acl_filtered(open, a, true),
            None => open,
        },
        gated,
    )
}

/// What a caller without an identity is shown: no management modules, nothing
/// the access rules deny to such a caller or put to a human first, and nothing
/// that a module says needs an approval.
pub fn public_card(
    card: &Json,
    executor: &ApCoreAgentExecutor,
    approval_gated: &Vec<String>,
) -> (r: Json)
    ensures
        executor.rules() is None ==> r@ == public_of(card@, None, views(approval_gated@)),
        executor.rules() is Some ==> exists|answers: Seq<Access>|
            asked(executor.rules(), None, without_system(card@), answers) && r@
                == #[trigger] public_of(card@, Some(answers), views(approval_gated@)),
{
    let open: Json = without_system_skills(card);
    let filtered: Json = acl_filtered_card(&open, executor, None, true);
    proof {
        if executor.rules() is Some {
            let answers = choose|answers: Seq<Access>|
                asked(executor.rules(), None, open@, answers) && filtered@
                    == #[trigger] acl_filtered(open@, answers, true);
            assert(public_of(card@, Some(answers), views(approval_gated@)) == without_gated(
                filtered@,
                views(approval_gated@),
            ));
        }
    }
    without_gated_skills(&filtered, approval_gated)
}

/// What a caller with the given identity, or with none, is shown of a whole
/// card: all of it without access rules, and otherwise what they leave of it.
pub open spec fn shown_to(
    rules: Option<std::sync::Arc<apcore::acl::ACL>>,
    whole: JsonV,
    identity: Option<IdentityV>,
    shown: JsonV,
) -> bool {
    match rules {
        None => shown == whole,
        Some(_) => exists|answers: Seq<Access>|
            asked(rules, identity, whole, answers) && shown == #[trigger] acl_filtered(
                whole,
                answers,
                false,
            ),
    }
}

/// A copy of a card was made for a caller of the given name.
pub open spec fn made_for(
    rules: Option<std::sync::Arc<apcore::acl::ACL>>,
    whole: JsonV,
    owner: Seq<char>,
    copy: JsonV,
) -> bool {
    exists|identity: Option<IdentityV>|
        owner_of(identity) == owner && #[trigger] shown_to(rules, whole, identity, copy)
}

/// Each copy was made for the caller under whose name it is kept.
pub open spec fn faithful(
    rules: Option<std::sync::Arc<apcore::acl::ACL>>,
    whole: JsonV,
    copies: Seq<(Seq<char>, JsonV)>,
) -> bool {
    forall|i: int|
        0 <= i < copies.len() ==> made_for(
            rules,
            whole,
            (#[trigger] copies[i]).0,
            copies[i].1,
        )
}

/// The copies once a caller was shown one: a new copy is kept beside the others,
/// which are given up first where there are too many.
pub open spec fn kept_after(
    copies: Seq<(Seq<char>, JsonV)>,
    owner: Seq<char>,
    shown: JsonV,
) -> Seq<(Seq<char>, JsonV)> {
    if member(copies, owner) is Some {
        copies
    } else if copies.len() >= 1024 {
        inserted(Seq::empty(), owner, shown)
    } else {
        inserted(copies, owner, shown)
    }
}

/// What a caller is shown: the copy that is kept under its name, or a new one.
pub open spec fn served(
    rules: Option<std::sync::Arc<apcore::acl::ACL>>,
    whole: JsonV,
    copies: Seq<(Seq<char>, JsonV)>,
    identity: Option<IdentityV>,
    shown: JsonV,
) -> bool {
    match member(copies, owner_of(identity)) {
        Some(c) => shown == c,
        None => shown_to(rules, whole, identity, shown),
    }
}

/// How many copies of one card are kept before they are all given up.
pub const MAX_CACHED_FILTERED_CARDS: usize = 1024;

/// A card together with the copies that were made of it for callers.
#[derive(Debug)]
pub struct FilteredCard {
    card: Json,
    cache: Vec<(String, Json)>,
}

impl FilteredCard {
    /// The whole card.
    pub closed spec fn whole(&self) -> JsonV {
        self.card@
    }

    /// The copies by the caller they were made for.
    pub closed spec fn copies(&self) -> Seq<(Seq<char>, JsonV)> {
        fields(self.cache@)
    }

    /// The number of copies is bounded.
    pub open spec fn wf(&self) -> bool {
        self.copies().len() <= 1024
    }

    /// A card of which no copy was made.
    pub fn new(card: Json) -> (r: FilteredCard)
        ensures
            r.wf(),
            r.whole() == card@,
            r.copies() == Seq::<(Seq<char>, JsonV)>::empty(),
    {
        let r = FilteredCard { card, cache: Vec::new() };
        assert(r.copies() =~= Seq::<(Seq<char>, JsonV)>::empty());
        r
    }

    /// The whole card.
    pub fn unfiltered(&self) -> (r: &Json)
        ensures
            r@ == self.whole(),
    {
        &self.card
    }

    /// The card as a caller may see it. The access rules are asked once for each
    /// caller; after that the same copy is handed out, until the copies are
    /// given up because there are too many. A caller never gets a copy that was
    /// made for a caller of another name.
    pub fn for_caller(
        &mut self,
        executor: &ApCoreAgentExecutor,
        identity: Option<&Identity>,
    ) -> (r: Json)
        requires
            old(self).wf(),
        ensures
            final(self).wf(),
            final(self).whole() == old(self).whole(),
            served(
                executor.rules(),
                old(self).whole(),
                old(self).copies(),
                opt_identity_ref(identity),
                r@,
            ),
            final(self).copies() == kept_after(
                old(self).copies(),
                owner_of(opt_identity_ref(identity)),
                r@,
            ),
            member(final(self).copies(), owner_of(opt_identity_ref(identity))) == Some(r@),
            faithful(executor.rules(), old(self).whole(), old(self).copies()) ==> faithful(
                executor.rules(),
                final(self).whole(),
                final(self).copies(),
            ) && made_for(
                executor.rules(),
                old(self).whole(),
                owner_of(opt_identity_ref(identity)),
                r@,
            ),
    {
        let key: OwnerId = OwnerId::from_identity(identity);
        let ghost first = self.copies();
        if let Some(i) = find(&self.cache, key.as_str()) {
            let copy: Json = self.cache[i].1.copy();
            proof {
                if faithful(executor.rules(), self.whole(), first) {
                    copies_stay_with_their_callers(
                        executor.rules(),
                        self.whole(),
                        first,
                        opt_identity_ref(identity),
                        copy@,
                    );
                }
            }
            return copy;
        }
        let filtered: Json = acl_filtered_card(&self.card, executor, identity, false);
        assert(fields(self.cache@).len() == self.cache@.len());
        if self.cache.len() >= MAX_CACHED_FILTERED_CARDS {
            self.cache.clear();
            assert(fields(self.cache@) =~= Seq::empty());
        }
        assert(fields(self.cache@).len() == self.cache@.len());
        let ghost before = fields(self.cache@);
        insert(&mut self.cache, key.as_str(), filtered.copy());
        proof {
            crate::json::insert_then_get(before, key@, filtered@, key@);
            if faithful(executor.rules(), self.whole(), first) {
                copies_stay_with_their_callers(
                    executor.rules(),
                    self.whole(),
                    first,
                    opt_identity_ref(identity),
                    filtered@,
                );
            }
        }
        filtered
    }
}

/// Showing a card to one caller keeps every copy with the caller it was made
/// for, and shows that caller a copy of its own.
pub proof fn copies_stay_with_their_callers(
    rules: Option<std::sync::Arc<apcore::acl::ACL>>,
    whole: JsonV,
    copies: Seq<(Seq<char>, JsonV)>,
    identity: Option<IdentityV>,
    shown: JsonV,
)
    requires
        faithful(rules, whole, copies),
        served(rules, whole, copies, identity, shown),
    ensures
        made_for(rules, whole, owner_of(identity), shown),
        faithful(rules, whole, kept_after(copies, owner_of(identity), shown)),
{
    let owner = owner_of(identity);
    position_found(copies, owner);
    if member(copies, owner) is Some {
        assert(made_for(rules, whole, copies[position(copies, owner) as int].0, shown));
    } else {
        assert(made_for(rules, whole, owner, shown));
        let base = if copies.len() >= 1024 {
            Seq::empty()
        } else {
            copies
        };
        position_found(base, owner);
        assert(inserted(base, owner, shown) =~= base.push((owner, shown)));
    }
}

/// The copies after a number of callers were shown the card, one after the
/// other, beginning with none.
pub open spec fn copies_after(calls: Seq<(Option<IdentityV>, JsonV)>) -> Seq<(Seq<char>, JsonV)>
    decreases calls.len(),
{
    if calls.len() == 0 {
        Seq::empty()
    } else {
        kept_after(
            copies_after(calls.drop_last()),
            owner_of(calls.last().0),
            calls.last().1,
        )
    }
}

/// Each caller was served from the copies that the calls before left.
pub open spec fn all_served(
    rules: Option<std::sync::Arc<apcore::acl::ACL>>,
    whole: JsonV,
    calls: Seq<(Option<IdentityV>, JsonV)>,
) -> bool
    decreases calls.len(),
{
    calls.len() > 0 ==> {
        let before = calls.drop_last();
        let (identity, shown) = calls.last();
        all_served(rules, whole, before) && served(
            rules,
            whole,
            copies_after(before),
            identity,
            shown,
        )
    }
}

/// Whatever calls came before, each copy that is kept was made for the caller
/// under whose name it is kept, and so was each one that was shown.
#[verifier::spinoff_prover]
pub proof fn every_caller_is_shown_its_own(
    rules: Option<std::sync::Arc<apcore::acl::ACL>>,
    whole: JsonV,
    calls: Seq<(Option<IdentityV>, JsonV)>,
)
    requires
        all_served(rules, whole, calls),
    ensures
        faithful(rules, whole, copies_after(calls)),
        forall|i: int|
            0 <= i < calls.len() ==> made_for(
                rules,
                whole,
                owner_of((#[trigger] calls[i]).0),
                calls[i].1,
            ),
    decreases calls.len(),
{
    if calls.len() > 0 {
        let before = calls.drop_last();
        let (identity, shown) = calls.last();
        every_caller_is_shown_its_own(rules, whole, before);
        copies_stay_with_their_callers(rules, whole, copies_after(before), identity, shown);
        assert forall|i: int| 0 <= i < calls.len() implies made_for(
            rules,
            whole,
            owner_of((#[trigger] calls[i]).0),
            calls[i].1,
        ) by {
            if i < before.len() {
                assert(before[i] == calls[i]);
            }
        }
    }
}

/// A call by one caller leaves the copies of the others as they are, unless
/// there are too many.
pub proof fn other_copies_are_kept(
    copies: Seq<(Seq<char>, JsonV)>,
    owner: Seq<char>,
    shown: JsonV,
    other: Seq<char>,
)
    requires
        copies.len() < 1024,
        other != owner,
    ensures
        member(kept_after(copies, owner, shown), other) == member(copies, other),
{
    crate::json::insert_then_get(copies, owner, shown, other);
}

/// Every skill that is kept was there before, and was marked to be kept.
pub proof fn retained_is_marked(s: Seq<JsonV>, keep: Seq<bool>, j: int) -> (i: int)
    requires
        s.len() == keep.len(),
        0 <= j < retained(s, keep).len(),
    ensures
        0 <= i < s.len(),
        keep[i],
        s[i] == retained(s, keep)[j],
    decreases s.len(),
{
    let n = s.len() - 1;
    let rest = retained(s.drop_last(), keep.take(n));
    if keep[n] && j == rest.len() {
        n
    } else {
        let i = retained_is_marked(s.drop_last(), keep.take(n), j);
        assert(s.drop_last()[i] == s[i]);
        assert(keep.take(n)[i] == keep[i]);
        i
    }
}

/// Every skill that is marked is kept.
pub proof fn marked_is_retained(s: Seq<JsonV>, keep: Seq<bool>, i: int) -> (j: int)
    requires
        s.len() == keep.len(),
        0 <= i < s.len(),
        keep[i],
    ensures
        0 <= j < retained(s, keep).len(),
        retained(s, keep)[j] == s[i],
    decreases s.len(),
{
    let n = s.len() - 1;
    let rest = retained(s.drop_last(), keep.take(n));
    if i == n {
        rest.len() as int
    } else {
        assert(s.drop_last()[i] == s[i]);
        assert(keep.take(n)[i] == keep[i]);
        marked_is_retained(s.drop_last(), keep.take(n), i)
    }
}

/// Replacing the skills of a card leaves its other members as they were.
pub proof fn skills_of_kept(card: JsonV, keep: Seq<bool>, key: Seq<char>)
    requires
        skills_in(card) is Some,
    ensures
        skills_in(kept(card, keep)) == Some(retained(skills_in(card)->0, keep)),
        key != "skills"@ ==> kept(card, keep).get(key) == card.get(key),
{
    let m = card->Object_0;
    position_found(m, "skills"@);
    crate::json::insert_then_get(m, "skills"@, JsonV::Array(retained(skills_in(card)->0, keep)), key);
    assert(kept(card, keep)->Object_0 =~= inserted(
        m,
        "skills"@,
        JsonV::Array(retained(skills_in(card)->0, keep)),
    ));
}

/// The public card shows no management module, none that a module's word or the
/// access rules put to a human first, and none that the access rules deny.
pub proof fn public_card_is_safe_to_publish(
    card: JsonV,
    answers: Option<Seq<Access>>,
    gated: Seq<Seq<char>>,
    j: int,
)
    requires
        skills_in(card) is Some,
        answers matches Some(a) ==> a.len() == ids_in(without_system(card)).len(),
        skills_in(public_of(card, answers, gated)) matches Some(s) && 0 <= j < s.len(),
    ensures
        ({
            let skill = skills_in(public_of(card, answers, gated))->0[j];
            &&& skill.text_at("id"@) matches Some(id) ==> !is_system(id) && !gated.contains(id)
            &&& answers matches Some(a) ==> skill.text_at("id"@) is Some && exists|k: int|
                0 <= k < a.len() && skills_in(without_system(card))->0[k] == skill && (
                #[trigger] a[k]).allowed && !a[k].approval_required
        }),
{
    let s0 = skills_in(card)->0;
    let open = without_system(card);
    skills_of_kept(card, system_marks(s0), "skills"@);
    let s1 = skills_in(open)->0;
    let mid = match answers {
        Some(a) => acl_filtered(open, a, true),
        None => open,
    };
    if let Some(a) = answers {
        skills_of_kept(open, acl_marks(s1, a, true), "skills"@);
    }
    let s2 = skills_in(mid)->0;
    skills_of_kept(mid, ungated_marks(s2, gated), "skills"@);
    let s3 = skills_in(public_of(card, answers, gated))->0;
    let i2 = retained_is_marked(s2, ungated_marks(s2, gated), j);
    let i1 = match answers {
        Some(a) => retained_is_marked(s1, acl_marks(s1, a, true), i2),
        None => i2,
    };
    let i0 = retained_is_marked(s0, system_marks(s0), i1);
    if let Some(a) = answers {
        assert(a[i1].allowed && !a[i1].approval_required);
    }
}

/// The card that a caller with an identity is shown keeps every skill that the
/// access rules allow, also one that is put to a human first and one of the
/// management modules.
pub proof fn extended_card_keeps_what_is_allowed(card: JsonV, answers: Seq<Access>, i: int)
    requires
        skills_in(card) matches Some(s) && 0 <= i < s.len() && s[i].text_at("id"@) is Some,
        answers.len() == ids_in(card).len(),
        answers[i].allowed,
    ensures
        skills_in(acl_filtered(card, answers, false)) matches Some(shown) && shown.contains(
            skills_in(card)->0[i],
        ),
{
    let s = skills_in(card)->0;
    let marks = acl_marks(s, answers, false);
    skills_of_kept(card, marks, "skills"@);
    let j = marked_is_retained(s, marks, i);
    assert(retained(s, marks)[j] == s[i]);
}

/// The card that a caller with an identity is shown holds no skill that the
/// access rules deny.
pub proof fn extended_card_holds_only_what_is_allowed(card: JsonV, answers: Seq<Access>, j: int)
    requires
        skills_in(card) is Some,
        answers.len() == ids_in(card).len(),
        skills_in(acl_filtered(card, answers, false)) matches Some(shown) && 0 <= j < shown.len(),
    ensures
        exists|k: int|
            0 <= k < answers.len() && skills_in(card)->0[k] == skills_in(
                acl_filtered(card, answers, false),
            )->0[j] && (#[trigger] answers[k]).allowed,
{
    let s = skills_in(card)->0;
    let marks = acl_marks(s, answers, false);
    skills_of_kept(card, marks, "skills"@);
    let k = retained_is_marked(s, marks, j);
    assert(answers[k].allowed);
}

/// The public card is the whole card but for its skills.
pub proof fn public_cards_keep_the_rest(
    card: JsonV,
    answers: Option<Seq<Access>>,
    gated: Seq<Seq<char>>,
    key: Seq<char>,
)
    requires
        key != "skills"@,
    ensures
        public_of(card, answers, gated).get(key) == card.get(key),
{
    let open = without_system(card);
    if let Some(s) = skills_in(card) {
        skills_of_kept(card, system_marks(s), key);
    }
    let mid = match answers {
        Some(a) => acl_filtered(open, a, true),
        None => open,
    };
    if let Some(s) = skills_in(open) {
        if let Some(a) = answers {
            skills_of_kept(open, acl_marks(s, a, true), key);
        }
    }
    if let Some(s) = skills_in(mid) {
        skills_of_kept(mid, ungated_marks(s, gated), key);
    }
}

/// The card that a caller with an identity is shown is the whole card but for its
/// skills.
pub proof fn filtered_cards_keep_the_rest(
    card: JsonV,
    answers: Seq<Access>,
    hide: bool,
    key: Seq<char>,
)
    requires
        key != "skills"@,
    ensures
        acl_filtered(card, answers, hide).get(key) == card.get(key),
{
    if let Some(s) = skills_in(card) {
        skills_of_kept(card, acl_marks(s, answers, hide), key);
    }
}

/// What the public card withholds: a skill with an id that begins with `system.`,
/// one that its module gates, and, where there are access rules, one without an id
/// and one that they deny or put to a human first. It shows every other skill.
pub proof fn public_cards_show_the_rest(
    card: JsonV,
    answers: Option<Seq<Access>>,
    gated: Seq<Seq<char>>,
    s: Seq<JsonV>,
    i: int,
) -> (k: int)
    requires
        card.get("skills"@) == Some(JsonV::Array(s)),
        0 <= i < s.len(),
        s[i].text_at("id"@) matches Some(id) && !("system."@.is_prefix_of(id)) && !gated.contains(
            id,
        ),
        answers matches Some(a) ==> a.len() == ids_in(without_system(card)).len() && forall|n: int|
            0 <= n < a.len() && skills_in(without_system(card))->0[n] == s[i] ==> (
            #[trigger] a[n]).allowed && !a[n].approval_required,
    ensures
        public_of(card, answers, gated).get("skills"@) matches Some(JsonV::Array(shown)) && 0 <= k
            < shown.len() && shown[k] == s[i],
{
    let open = without_system(card);
    skills_of_kept(card, system_marks(s), "skills"@);
    let s1 = skills_in(open)->0;
    let i1 = marked_is_retained(s, system_marks(s), i);
    let mid = match answers {
        Some(a) => acl_filtered(open, a, true),
        None => open,
    };
    let i2 = match answers {
        Some(a) => {
            skills_of_kept(open, acl_marks(s1, a, true), "skills"@);
            assert(a[i1].allowed && !a[i1].approval_required);
            marked_is_retained(s1, acl_marks(s1, a, true), i1)
        },
        None => i1,
    };
    let s2 = skills_in(mid)->0;
    skills_of_kept(mid, ungated_marks(s2, gated), "skills"@);
    marked_is_retained(s2, ungated_marks(s2, gated), i2)
}

/// No skill that the public card shows has an id of the management namespace or
/// one that is gated, and with access rules none lacks an id.
pub proof fn public_cards_withhold(
    card: JsonV,
    answers: Option<Seq<Access>>,
    gated: Seq<Seq<char>>,
    shown: Seq<JsonV>,
    j: int,
)
    requires
        card.get("skills"@) matches Some(JsonV::Array(_)),
        answers matches Some(a) ==> a.len() == ids_in(without_system(card)).len(),
        public_of(card, answers, gated).get("skills"@) == Some(JsonV::Array(shown)),
        0 <= j < shown.len(),
    ensures
        shown[j].text_at("id"@) matches Some(id) ==> !("system."@.is_prefix_of(id))
            && !gated.contains(id),
        answers is Some ==> shown[j].text_at("id"@) is Some,
        card.get("skills"@)->0->Array_0.contains(shown[j]),
{
    public_card_is_safe_to_publish(card, answers, gated, j);
    let s0 = skills_in(card)->0;
    let open = without_system(card);
    skills_of_kept(card, system_marks(s0), "skills"@);
    let s1 = skills_in(open)->0;
    let mid = match answers {
        Some(a) => acl_filtered(open, a, true),
        None => open,
    };
    if let Some(a) = answers {
        skills_of_kept(open, acl_marks(s1, a, true), "skills"@);
    }
    let s2 = skills_in(mid)->0;
    skills_of_kept(mid, ungated_marks(s2, gated), "skills"@);
    let i2 = retained_is_marked(s2, ungated_marks(s2, gated), j);
    let i1 = match answers {
        Some(a) => retained_is_marked(s1, acl_marks(s1, a, true), i2),
        None => i2,
    };
    let i0 = retained_is_marked(s0, system_marks(s0), i1);
    assert(s0[i0] == shown[j]);
}

/// Skills that are kept keep their order: of two that are kept, the one that stood
/// first stands first.
pub proof fn kept_skills_keep_their_order(s: Seq<JsonV>, keep: Seq<bool>, a: int, b: int) -> (r: (
    int,
    int,
))
    requires
        s.len() == keep.len(),
        0 <= a < b < s.len(),
        keep[a],
        keep[b],
    ensures
        0 <= r.0 < r.1 < retained(s, keep).len(),
        retained(s, keep)[r.0] == s[a],
        retained(s, keep)[r.1] == s[b],
    decreases s.len(),
{
    let n = s.len() - 1;
    assert(s.drop_last()[a] == s[a]);
    assert(keep.take(n)[a] == keep[a]);
    if b == n {
        let x = marked_is_retained(s.drop_last(), keep.take(n), a);
        (x, retained(s.drop_last(), keep.take(n)).len() as int)
    } else {
        assert(s.drop_last()[b] == s[b]);
        assert(keep.take(n)[b] == keep[b]);
        kept_skills_keep_their_order(s.drop_last(), keep.take(n), a, b)
    }
}

/// A card shows a skill exactly where the rules allow it, and where what needs an
/// approval is hidden, where they do not put it to a human first.
pub proof fn only_allowed_skills_are_shown(
    skills: Seq<JsonV>,
    answers: Seq<Access>,
    hide: bool,
    i: int,
)
    requires
        skills.len() == answers.len(),
        0 <= i < skills.len(),
    ensures
        acl_marks(skills, answers, hide)[i] <==> skills[i].text_at("id"@) is Some
            && answers[i].allowed && !(hide && answers[i].approval_required),
        acl_marks(skills, answers, hide).len() == skills.len(),
{
}

/// A caller is shown its copy again as long as it is kept, and a new one otherwise;
/// and what it was shown is kept for it.
pub proof fn a_caller_is_shown_its_copy_again(
    rules: Option<std::sync::Arc<apcore::acl::ACL>>,
    whole: JsonV,
    copies: Seq<(Seq<char>, JsonV)>,
    identity: Option<IdentityV>,
    shown: JsonV,
    again: JsonV,
)
    requires
        served(rules, whole, copies, identity, shown),
        served(rules, whole, kept_after(copies, owner_of(identity), shown), identity, again),
    ensures
        again == shown,
        member(copies, owner_of(identity)) matches Some(c) ==> shown == c,
        member(copies, owner_of(identity)) is None && rules is None ==> shown == whole,
{
    let owner = owner_of(identity);
    crate::json::insert_then_get(copies, owner, shown, owner);
    crate::json::insert_then_get(Seq::empty(), owner, shown, owner);
}

/// The rules are asked about each skill of a card by its own id, for the caller as
/// one from outside, and only about those that have an id.
pub proof fn rules_are_asked_about_each_skill(
    acl: std::sync::Arc<apcore::acl::ACL>,
    identity: Option<IdentityV>,
    card: JsonV,
    answers: Seq<Access>,
    s: Seq<JsonV>,
    i: int,
    id: Seq<char>,
)
    requires
        asked(Some(acl), identity, card, answers),
        card.get("skills"@) == Some(JsonV::Array(s)),
        0 <= i < s.len(),
        s[i].text_at("id"@) == Some(id),
    ensures
        answers.len() == s.len(),
        access_answered(*acl, external_context(identity), id, answers[i]),
        external_context(identity).caller_id == Some("@external"@),
        identity is Some ==> external_context(identity).identity == identity,
{
    assert(ids_in(card)[i] == Some(id));
}

/// A caller with no copy of a card is shown every skill of it that the rules allow,
/// whether or not a call of it needs approval, and no other.
pub proof fn callers_are_shown_what_they_may_call(
    acl: std::sync::Arc<apcore::acl::ACL>,
    whole: JsonV,
    identity: Option<IdentityV>,
    shown: JsonV,
    s: Seq<JsonV>,
    skill: JsonV,
) -> (answers: Seq<Access>)
    requires
        shown_to(Some(acl), whole, identity, shown),
        whole.get("skills"@) == Some(JsonV::Array(s)),
    ensures
        asked(Some(acl), identity, whole, answers),
        shown.get("skills"@) matches Some(JsonV::Array(t)) && (t.contains(skill) <==> exists|i: int|
            0 <= i < s.len() && s[i] == skill && skill.text_at("id"@) is Some && (
            #[trigger] answers[i]).allowed),
{
    let answers = choose|answers: Seq<Access>|
        asked(Some(acl), identity, whole, answers) && shown == #[trigger] acl_filtered(
            whole,
            answers,
            false,
        );
    let marks = acl_marks(s, answers, false);
    skills_of_kept(whole, marks, "skills"@);
    let t = retained(s, marks);
    if t.contains(skill) {
        let j = choose|j: int| 0 <= j < t.len() && t[j] == skill;
        let i = retained_is_marked(s, marks, j);
        assert(answers[i].allowed);
    }
    if exists|i: int|
        0 <= i < s.len() && s[i] == skill && skill.text_at("id"@) is Some && (
        #[trigger] answers[i]).allowed {
        let i = choose|i: int|
            0 <= i < s.len() && s[i] == skill && skill.text_at("id"@) is Some && (
            #[trigger] answers[i]).allowed;
        let j = marked_is_retained(s, marks, i);
        assert(t[j] == skill);
    }
    answers
}

/// A copy is kept beside the others until there are 1024; then the others go first.
pub proof fn full_copies_make_room(
    copies: Seq<(Seq<char>, JsonV)>,
    owner: Seq<char>,
    shown: JsonV,
    other: Seq<char>,
)
    requires
        member(copies, owner) is None,
    ensures
        member(kept_after(copies, owner, shown), owner) == Some(shown),
        copies.len() >= 1024 && other != owner ==> member(kept_after(copies, owner, shown), other)
            is None,
        copies.len() <= 1024 ==> kept_after(copies, owner, shown).len() <= 1024,
{
    crate::json::position_found(copies, owner);
    crate::json::insert_then_get(copies, owner, shown, other);
    crate::json::insert_then_get(Seq::empty(), owner, shown, other);
    crate::json::position_found(Seq::empty(), owner);
}

} // verus!
