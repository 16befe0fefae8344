//! The Agent Card of a remote agent, kept for a while once it was fetched.

use vstd::prelude::*;
use vstd::string::*;

use crate::json::{Json, JsonV};
use crate::server::factory::{trim_trailing_slashes, without_trailing_slashes};
use crate::text::join;

verus! {

/// How long a card is kept where nothing else is said, in milliseconds.
pub const DEFAULT_CARD_TTL_MS: u64 = 300000;

/// A card that was fetched, and when.
#[derive(Debug)]
struct FetchedCard {
    card: Json,
    at_ms: u64,
}

/// Where the card of an agent is found, and the card once it was fetched. Times
/// are milliseconds of a clock that does not run back.
#[derive(Debug)]
pub struct AgentCardFetcher {
    base_url: String,
    ttl_ms: u64,
    fetched: Option<FetchedCard>,
}

/// What a fetcher denotes.
#[verifier::ext_equal]
pub struct FetcherV {
    pub base_url: Seq<char>,
    pub ttl_ms: u64,
    pub fetched: Option<(JsonV, u64)>,
}

impl View for AgentCardFetcher {
    type V = FetcherV;

    closed spec fn view(&self) -> FetcherV {
        FetcherV {
            base_url: self.base_url@,
            ttl_ms: self.ttl_ms,
            fetched: match self.fetched {
                Some(f) => Some((f.card@, f.at_ms)),
                None => None,
            },
        }
    }
}

/// Where the card of an agent is found.
pub open spec fn card_url(base_url: Seq<char>) -> Seq<char> {
    without_trailing_slashes(base_url) + "/.well-known/agent-card.json"@
}

/// The card that is still good: one that was fetched less than the time to keep
/// it ago.
pub open spec fn kept_card(f: FetcherV, now_ms: u64) -> Option<JsonV> {
    match f.fetched {
        Some((card, at)) => if now_ms - at < f.ttl_ms {
            Some(card)
        } else {
            None
        },
        None => None,
    }
}

impl AgentCardFetcher {
    /// A fetcher that keeps a card for five minutes.
    pub fn new(base_url: &str) -> (r: AgentCardFetcher)
        ensures
            r@ == (FetcherV { base_url: base_url@, ttl_ms: 300000, fetched: None }),
    {
        Self::with_ttl(base_url, DEFAULT_CARD_TTL_MS)
    }

    /// A fetcher that keeps a card for the given time.
    pub fn with_ttl(base_url: &str, ttl_ms: u64) -> (r: AgentCardFetcher)
        ensures
            r@ == (FetcherV { base_url: base_url@, ttl_ms, fetched: None }),
    {
        AgentCardFetcher { base_url: crate::text::owned(base_url), ttl_ms, fetched: None }
    }

    /// Where the card is found.
    pub fn url(&self) -> (r: String)
        ensures
            r@ == card_url(self@.base_url),
    {
        join(
            trim_trailing_slashes(self.base_url.as_str()).as_str(),
            "/.well-known/agent-card.json",
        )
    }

    /// The card, where it is still good.
    pub fn cached(&self, now_ms: u64) -> (r: Option<Json>)
        ensures
            crate::json::opt(r) == kept_card(self@, now_ms),
    {
        match &self.fetched {
            Some(f) => {
                if now_ms <= f.at_ms {
                    if self.ttl_ms > 0 || now_ms < f.at_ms {
                        Some(f.card.copy())
                    } else {
                        None
                    }
                } else if now_ms - f.at_ms < self.ttl_ms {
                    Some(f.card.copy())
                } else {
                    None
                }
            },
            None => None,
        }
    }

    /// Keep a card that was just fetched.
    pub fn store(&mut self, card: &Json, now_ms: u64)
        ensures
            final(self)@ == (FetcherV { fetched: Some((card@, now_ms)), ..old(self)@ }),
    {
        self.fetched = Some(FetchedCard { card: card.copy(), at_ms: now_ms });
    }
}

/// A card that was fetched is handed out until its time is over, and not after.
pub proof fn fetched_card_is_kept_for_its_time(f: FetcherV, card: JsonV, at_ms: u64, now_ms: u64)
    requires
        at_ms <= now_ms,
    ensures
        kept_card(FetcherV { fetched: Some((card, at_ms)), ..f }, now_ms) == (if now_ms - at_ms
            < f.ttl_ms {
            Some(card)
        } else {
            None
        }),
{
}

/// A card is found at its well-known place below the URL, however many slashes the
/// URL ends with.
pub proof fn cards_are_found_below_the_url(base_url: Seq<char>)
    ensures
        base_url.len() == 0 || base_url.last() != '/' ==> card_url(base_url) == base_url
            + "/.well-known/agent-card.json"@,
        card_url(base_url.push('/')) == card_url(base_url),
{
    assert(base_url.push('/').drop_last() =~= base_url);
}

/// A fetcher that has fetched nothing has nothing to hand out, and one that keeps
/// cards for no time hands out none once it has fetched it.
pub proof fn only_fetched_cards_are_handed_out(f: FetcherV, now_ms: u64)
    ensures
        f.fetched is None ==> kept_card(f, now_ms) is None,
        kept_card(f, now_ms) matches Some(c) ==> (f.fetched matches Some(x) && x.0 == c),
        f.ttl_ms == 0 && (f.fetched matches Some(x) && x.1 <= now_ms) ==> kept_card(f, now_ms)
            is None,
{
}

} // verus!
