//! The catalogue of event topics.
//!
//! Every event the contract publishes starts its topic list with one short
//! symbol. The symbol is permanent once released, is never shared by two
//! events, and fixes how many topic elements follow it.

use vstd::prelude::*;

verus! {

/// The topic symbols of the contract's events, one per event.
#[derive(Clone, Copy, Debug, PartialEq, Eq, Structural)]
pub enum Topic {
    /// `"created"`: a stream is persisted.
    Created,
    /// `"withdrew"`: a withdrawal is processed.
    Withdrew,
    /// `"wdraw_to"`: a withdrawal to a destination is processed.
    WithdrewTo,
    /// `"cancelled"`: a stream is cancelled.
    Cancelled,
    /// `"completed"`: a stream reaches the Completed state.
    Completed,
    /// `"closed"`: a stream's storage is reclaimed.
    Closed,
    /// `"paused"`: a stream is paused.
    Paused,
    /// `"resumed"`: a stream is resumed.
    Resumed,
    /// `"rate_upd"`: a stream's rate is updated.
    RateUpdated,
    /// `"rate_dec"`: a stream's rate is safely decreased.
    RateDecreased,
    /// `"rate_cap"`: a rate cap is enforced.
    RateCapEnforced,
    /// `"end_shrt"`: a stream's end time is shortened.
    EndShortened,
    /// `"end_ext"`: a stream's end time is extended.
    EndExtended,
    /// `"top_up"`: a stream is topped up.
    ToppedUp,
    /// `"health"`: a stream's funding health changes.
    HealthChanged,
    /// `"recp_upd"`: a stream's recipient is updated.
    RecipientUpdated,
    /// `"gl_pause"`: the global emergency pause changes.
    GlobalPause,
    /// `"gl_resume"`: the global pause is lifted.
    GlobalResume,
    /// `"ct_pause"`: the creation pause changes.
    ContractPause,
    /// `"pr_pause"`: the protocol is paused by an admin.
    ProtocolPause,
    /// `"pr_resume"`: the protocol is resumed by an admin.
    ProtocolResume,
    /// `"ac_set"`: an auto-claim destination is set.
    AutoClaimSet,
    /// `"ac_revoke"`: an auto-claim destination is revoked.
    AutoClaimRevoked,
    /// `"ac_trig"`: an auto-claim is triggered.
    AutoClaimTriggered,
    /// `"ex_swept"`: excess tokens are swept.
    ExcessSwept,
    /// `"cloned"`: a stream is cloned.
    Cloned,
    /// `"kp_cncl"`: a keeper cancels a stream.
    KeeperCancelled,
    /// `"decomm"`: a stream's decommissioned flag is set.
    Decommissioned,
    /// `"sndr_xfr"`: a stream's sender is transferred.
    SenderTransferred,
    /// `"renewed"`: a stream is renewed into a new one.
    Renewed,
    /// `"claim_own"`: claim ownership is transferred.
    ClaimOwnership,
    /// `"del_share"`: a recipient delegates a share.
    ShareDelegated,
    /// `"offr_crt"`: a stream offer is created.
    OfferCreated,
    /// `"offr_acc"`: a stream offer is accepted.
    OfferAccepted,
    /// `"offr_cxl"`: a stream offer is cancelled or rejected.
    OfferCancelled,
    /// `"upgraded"`: the contract is upgraded.
    Upgraded,
    /// `"AdminUpd"`: the admin is rotated.
    AdminUpdated,
    /// `"migrated"`: a migration checkpoint is recorded (reserved).
    Migrated,
    /// `"res_rel"`: a stream id reservation is released or reclaimed.
    ReservationReleased,
    /// `"tmpl_def"`: reserved for template definition events.
    TemplateDefined,
}

/// What follows the symbol in an event's topic list.
#[derive(Clone, Copy, Debug, PartialEq, Eq, Structural)]
pub enum TopicKey {
    /// Nothing: a contract-level event.
    Bare,
    /// The stream id.
    StreamId,
    /// An account address.
    Account,
    /// The old and the new stream id.
    StreamPair,
    /// The offer id.
    OfferId,
    /// None yet: the symbol is reserved and no event is published under it,
    /// so no topic list is well formed for it.
    Unassigned,
}

/// Number of topic elements of an event whose key is `k`, the symbol included.
pub open spec fn key_cardinality(k: TopicKey) -> nat {
    match k {
        TopicKey::Bare => 1,
        TopicKey::StreamId => 2,
        TopicKey::Account => 2,
        TopicKey::StreamPair => 3,
        TopicKey::OfferId => 2,
        TopicKey::Unassigned => 1,
    }
}

/// A character that a short Soroban symbol may hold.
pub open spec fn is_symbol_char(c: char) -> bool {
    ('a' <= c <= 'z') || ('A' <= c <= 'Z') || ('0' <= c <= '9') || c == '_'
}

/// A symbol that fits a short Soroban symbol: one to nine symbol characters.
pub open spec fn is_short_symbol(s: Seq<char>) -> bool {
    &&& 1 <= s.len() <= 9
    &&& forall|i: int| 0 <= i < s.len() ==> is_symbol_char(#[trigger] s[i])
}

impl Topic {
    /// The symbol's text.
    pub open spec fn text(self) -> Seq<char> {
        match self {
            Topic::Created => "created"@,
            Topic::Withdrew => "withdrew"@,
            Topic::WithdrewTo => "wdraw_to"@,
            Topic::Cancelled => "cancelled"@,
            Topic::Completed => "completed"@,
            Topic::Closed => "closed"@,
            Topic::Paused => "paused"@,
            Topic::Resumed => "resumed"@,
            Topic::RateUpdated => "rate_upd"@,
            Topic::RateDecreased => "rate_dec"@,
            Topic::RateCapEnforced => "rate_cap"@,
            Topic::EndShortened => "end_shrt"@,
            Topic::EndExtended => "end_ext"@,
            Topic::ToppedUp => "top_up"@,
            Topic::HealthChanged => "health"@,
            Topic::RecipientUpdated => "recp_upd"@,
            Topic::GlobalPause => "gl_pause"@,
            Topic::GlobalResume => "gl_resume"@,
            Topic::ContractPause => "ct_pause"@,
            Topic::ProtocolPause => "pr_pause"@,
            Topic::ProtocolResume => "pr_resume"@,
            Topic::AutoClaimSet => "ac_set"@,
            Topic::AutoClaimRevoked => "ac_revoke"@,
            Topic::AutoClaimTriggered => "ac_trig"@,
            Topic::ExcessSwept => "ex_swept"@,
            Topic::Cloned => "cloned"@,
            Topic::KeeperCancelled => "kp_cncl"@,
            Topic::Decommissioned => "decomm"@,
            Topic::SenderTransferred => "sndr_xfr"@,
            Topic::Renewed => "renewed"@,
            Topic::ClaimOwnership => "claim_own"@,
            Topic::ShareDelegated => "del_share"@,
            Topic::OfferCreated => "offr_crt"@,
            Topic::OfferAccepted => "offr_acc"@,
            Topic::OfferCancelled => "offr_cxl"@,
            Topic::Upgraded => "upgraded"@,
            Topic::AdminUpdated => "AdminUpd"@,
            Topic::Migrated => "migrated"@,
            Topic::ReservationReleased => "res_rel"@,
            Topic::TemplateDefined => "tmpl_def"@,
        }
    }

    /// The key that follows the symbol.
    pub open spec fn key_spec(self) -> TopicKey {
        match self {
            Topic::Created => TopicKey::StreamId,
            Topic::Withdrew => TopicKey::StreamId,
            Topic::WithdrewTo => TopicKey::StreamId,
            Topic::Cancelled => TopicKey::StreamId,
            Topic::Completed => TopicKey::StreamId,
            Topic::Closed => TopicKey::StreamId,
            Topic::Paused => TopicKey::StreamId,
            Topic::Resumed => TopicKey::StreamId,
            Topic::RateUpdated => TopicKey::StreamId,
            Topic::RateDecreased => TopicKey::StreamId,
            Topic::RateCapEnforced => TopicKey::StreamId,
            Topic::EndShortened => TopicKey::StreamId,
            Topic::EndExtended => TopicKey::StreamId,
            Topic::ToppedUp => TopicKey::StreamId,
            Topic::HealthChanged => TopicKey::StreamId,
            Topic::RecipientUpdated => TopicKey::StreamId,
            Topic::GlobalPause => TopicKey::Bare,
            Topic::GlobalResume => TopicKey::Bare,
            Topic::ContractPause => TopicKey::Bare,
            Topic::ProtocolPause => TopicKey::Account,
            Topic::ProtocolResume => TopicKey::Account,
            Topic::AutoClaimSet => TopicKey::StreamId,
            Topic::AutoClaimRevoked => TopicKey::StreamId,
            Topic::AutoClaimTriggered => TopicKey::StreamId,
            Topic::ExcessSwept => TopicKey::Account,
            Topic::Cloned => TopicKey::StreamId,
            Topic::KeeperCancelled => TopicKey::StreamId,
            Topic::Decommissioned => TopicKey::StreamId,
            Topic::SenderTransferred => TopicKey::StreamId,
            Topic::Renewed => TopicKey::StreamPair,
            Topic::ClaimOwnership => TopicKey::StreamId,
            Topic::ShareDelegated => TopicKey::StreamId,
            Topic::OfferCreated => TopicKey::OfferId,
            Topic::OfferAccepted => TopicKey::OfferId,
            Topic::OfferCancelled => TopicKey::OfferId,
            Topic::Upgraded => TopicKey::Bare,
            Topic::AdminUpdated => TopicKey::Bare,
            Topic::Migrated => TopicKey::Bare,
            Topic::ReservationReleased => TopicKey::Account,
            Topic::TemplateDefined => TopicKey::Unassigned,
        }
    }

    /// Number of topic elements of this event, the symbol included.
    pub open spec fn cardinality_spec(self) -> nat {
        key_cardinality(self.key_spec())
    }

    /// The symbol, as published.
    pub fn symbol(&self) -> (s: &'static str)
        ensures
            s@ == self.text(),
    {
        match self {
            Topic::Created => "created",
            Topic::Withdrew => "withdrew",
            Topic::WithdrewTo => "wdraw_to",
            Topic::Cancelled => "cancelled",
            Topic::Completed => "completed",
            Topic::Closed => "closed",
            Topic::Paused => "paused",
            Topic::Resumed => "resumed",
            Topic::RateUpdated => "rate_upd",
            Topic::RateDecreased => "rate_dec",
            Topic::RateCapEnforced => "rate_cap",
            Topic::EndShortened => "end_shrt",
            Topic::EndExtended => "end_ext",
            Topic::ToppedUp => "top_up",
            Topic::HealthChanged => "health",
            Topic::RecipientUpdated => "recp_upd",
            Topic::GlobalPause => "gl_pause",
            Topic::GlobalResume => "gl_resume",
            Topic::ContractPause => "ct_pause",
            Topic::ProtocolPause => "pr_pause",
            Topic::ProtocolResume => "pr_resume",
            Topic::AutoClaimSet => "ac_set",
            Topic::AutoClaimRevoked => "ac_revoke",
            Topic::AutoClaimTriggered => "ac_trig",
            Topic::ExcessSwept => "ex_swept",
            Topic::Cloned => "cloned",
            Topic::KeeperCancelled => "kp_cncl",
            Topic::Decommissioned => "decomm",
            Topic::SenderTransferred => "sndr_xfr",
            Topic::Renewed => "renewed",
            Topic::ClaimOwnership => "claim_own",
            Topic::ShareDelegated => "del_share",
            Topic::OfferCreated => "offr_crt",
            Topic::OfferAccepted => "offr_acc",
            Topic::OfferCancelled => "offr_cxl",
            Topic::Upgraded => "upgraded",
            Topic::AdminUpdated => "AdminUpd",
            Topic::Migrated => "migrated",
            Topic::ReservationReleased => "res_rel",
            Topic::TemplateDefined => "tmpl_def",
        }
    }

    /// The key that follows the symbol in the topic list.
    pub fn key(&self) -> (k: TopicKey)
        ensures
            k == self.key_spec(),
    {
        match self {
            Topic::Created => TopicKey::StreamId,
            Topic::Withdrew => TopicKey::StreamId,
            Topic::WithdrewTo => TopicKey::StreamId,
            Topic::Cancelled => TopicKey::StreamId,
            Topic::Completed => TopicKey::StreamId,
            Topic::Closed => TopicKey::StreamId,
            Topic::Paused => TopicKey::StreamId,
            Topic::Resumed => TopicKey::StreamId,
            Topic::RateUpdated => TopicKey::StreamId,
            Topic::RateDecreased => TopicKey::StreamId,
            Topic::RateCapEnforced => TopicKey::StreamId,
            Topic::EndShortened => TopicKey::StreamId,
            Topic::EndExtended => TopicKey::StreamId,
            Topic::ToppedUp => TopicKey::StreamId,
            Topic::HealthChanged => TopicKey::StreamId,
            Topic::RecipientUpdated => TopicKey::StreamId,
            Topic::GlobalPause => TopicKey::Bare,
            Topic::GlobalResume => TopicKey::Bare,
            Topic::ContractPause => TopicKey::Bare,
            Topic::ProtocolPause => TopicKey::Account,
            Topic::ProtocolResume => TopicKey::Account,
            Topic::AutoClaimSet => TopicKey::StreamId,
            Topic::AutoClaimRevoked => TopicKey::StreamId,
            Topic::AutoClaimTriggered => TopicKey::StreamId,
            Topic::ExcessSwept => TopicKey::Account,
            Topic::Cloned => TopicKey::StreamId,
            Topic::KeeperCancelled => TopicKey::StreamId,
            Topic::Decommissioned => TopicKey::StreamId,
            Topic::SenderTransferred => TopicKey::StreamId,
            Topic::Renewed => TopicKey::StreamPair,
            Topic::ClaimOwnership => TopicKey::StreamId,
            Topic::ShareDelegated => TopicKey::StreamId,
            Topic::OfferCreated => TopicKey::OfferId,
            Topic::OfferAccepted => TopicKey::OfferId,
            Topic::OfferCancelled => TopicKey::OfferId,
            Topic::Upgraded => TopicKey::Bare,
            Topic::AdminUpdated => TopicKey::Bare,
            Topic::Migrated => TopicKey::Bare,
            Topic::ReservationReleased => TopicKey::Account,
            Topic::TemplateDefined => TopicKey::Unassigned,
        }
    }

    /// Number of topic elements of this event, the symbol included.
    pub fn cardinality(&self) -> (n: usize)
        ensures
            n == self.cardinality_spec(),
    {
        match self.key() {
            TopicKey::Bare => 1,
            TopicKey::StreamId => 2,
            TopicKey::Account => 2,
            TopicKey::StreamPair => 3,
            TopicKey::OfferId => 2,
            TopicKey::Unassigned => 1,
        }
    }
}

/// The facts about the symbol table that follow from the symbols' text.
proof fn lemma_symbol_table(a: Topic, b: Topic)
    ensures
        a.text() == b.text() ==> a == b,
        is_short_symbol(a.text()),
{
    reveal_strlit("created");
    reveal_strlit("withdrew");
    reveal_strlit("wdraw_to");
    reveal_strlit("cancelled");
    reveal_strlit("completed");
    reveal_strlit("closed");
    reveal_strlit("paused");
    reveal_strlit("resumed");
    reveal_strlit("rate_upd");
    reveal_strlit("rate_dec");
    reveal_strlit("rate_cap");
    reveal_strlit("end_shrt");
    reveal_strlit("end_ext");
    reveal_strlit("top_up");
    reveal_strlit("health");
    reveal_strlit("recp_upd");
    reveal_strlit("gl_pause");
    reveal_strlit("gl_resume");
    reveal_strlit("ct_pause");
    reveal_strlit("pr_pause");
    reveal_strlit("pr_resume");
    reveal_strlit("ac_set");
    reveal_strlit("ac_revoke");
    reveal_strlit("ac_trig");
    reveal_strlit("ex_swept");
    reveal_strlit("cloned");
    reveal_strlit("kp_cncl");
    reveal_strlit("decomm");
    reveal_strlit("sndr_xfr");
    reveal_strlit("renewed");
    reveal_strlit("claim_own");
    reveal_strlit("del_share");
    reveal_strlit("offr_crt");
    reveal_strlit("offr_acc");
    reveal_strlit("offr_cxl");
    reveal_strlit("upgraded");
    reveal_strlit("AdminUpd");
    reveal_strlit("migrated");
    reveal_strlit("res_rel");
    reveal_strlit("tmpl_def");
    if a.text() == b.text() {
        let (x, y) = (a.text(), b.text());
        assert(x.len() == y.len());
        assert(x[0] == y[0]);
        assert(x[1] == y[1]);
        assert(x[2] == y[2]);
        assert(x[3] == y[3]);
        assert(x[4] == y[4]);
        assert(x.len() > 5 ==> x[5] == y[5]);
        assert(x.len() > 6 ==> x[6] == y[6]);
    }
}

/// Symbols whose documented topic list is `[symbol, stream_id: u64]`.
pub open spec fn stream_id_symbol(sym: Seq<char>) -> bool {
    sym == "created"@
    || sym == "withdrew"@
    || sym == "wdraw_to"@
    || sym == "cancelled"@
    || sym == "completed"@
    || sym == "closed"@
    || sym == "paused"@
    || sym == "resumed"@
    || sym == "rate_upd"@
    || sym == "rate_dec"@
    || sym == "rate_cap"@
    || sym == "end_shrt"@
    || sym == "end_ext"@
    || sym == "top_up"@
    || sym == "health"@
    || sym == "recp_upd"@
    || sym == "ac_set"@
    || sym == "ac_revoke"@
    || sym == "ac_trig"@
    || sym == "cloned"@
    || sym == "kp_cncl"@
    || sym == "decomm"@
    || sym == "sndr_xfr"@
    || sym == "claim_own"@
    || sym == "del_share"@
}

/// Symbols whose documented topic list is `[symbol, offer_id: u64]`.
pub open spec fn offer_id_symbol(sym: Seq<char>) -> bool {
    sym == "offr_crt"@
    || sym == "offr_acc"@
    || sym == "offr_cxl"@
}

/// Symbols whose documented topic list is `[symbol, address]`.
pub open spec fn account_symbol(sym: Seq<char>) -> bool {
    sym == "pr_pause"@
    || sym == "pr_resume"@
    || sym == "ex_swept"@
    || sym == "res_rel"@
}

/// Symbols whose documented topic list is `[symbol, old_stream_id: u64, new_stream_id: u64]`.
pub open spec fn stream_pair_symbol(sym: Seq<char>) -> bool {
    sym == "renewed"@
}

/// Symbols whose documented topic list is the symbol alone.
pub open spec fn bare_symbol(sym: Seq<char>) -> bool {
    sym == "gl_pause"@
    || sym == "gl_resume"@
    || sym == "ct_pause"@
    || sym == "upgraded"@
    || sym == "AdminUpd"@
    || sym == "migrated"@
}

/// Symbols reserved with no event published under them.
pub open spec fn reserved_symbol(sym: Seq<char>) -> bool {
    sym == "tmpl_def"@
}

/// The key after each symbol is the one its documented topic list shows:
/// the stream id after every stream-level symbol, the offer id after the
/// offer symbols, an address after the protocol pause and resume, sweep and
/// reservation symbols, two stream ids after `renewed`, and nothing after the
/// contract-level symbols; so each topic list has one, two or three
/// elements accordingly.
pub proof fn lemma_documented_topic_keys(t: Topic)
    ensures
        t.key_spec() == TopicKey::StreamId <==> stream_id_symbol(t.text()),
        t.key_spec() == TopicKey::OfferId <==> offer_id_symbol(t.text()),
        t.key_spec() == TopicKey::Account <==> account_symbol(t.text()),
        t.key_spec() == TopicKey::StreamPair <==> stream_pair_symbol(t.text()),
        t.key_spec() == TopicKey::Bare <==> bare_symbol(t.text()),
        t.key_spec() == TopicKey::Unassigned <==> reserved_symbol(t.text()),
        t.cardinality_spec() == 1 <==> bare_symbol(t.text()) || reserved_symbol(t.text()),
        t.cardinality_spec() == 2 <==> stream_id_symbol(t.text()) || offer_id_symbol(t.text())
            || account_symbol(t.text()),
        t.cardinality_spec() == 3 <==> stream_pair_symbol(t.text()),
{
    lemma_symbol_table(t, Topic::Created);
    lemma_symbol_table(t, Topic::Withdrew);
    lemma_symbol_table(t, Topic::WithdrewTo);
    lemma_symbol_table(t, Topic::Cancelled);
    lemma_symbol_table(t, Topic::Completed);
    lemma_symbol_table(t, Topic::Closed);
    lemma_symbol_table(t, Topic::Paused);
    lemma_symbol_table(t, Topic::Resumed);
    lemma_symbol_table(t, Topic::RateUpdated);
    lemma_symbol_table(t, Topic::RateDecreased);
    lemma_symbol_table(t, Topic::RateCapEnforced);
    lemma_symbol_table(t, Topic::EndShortened);
    lemma_symbol_table(t, Topic::EndExtended);
    lemma_symbol_table(t, Topic::ToppedUp);
    lemma_symbol_table(t, Topic::HealthChanged);
    lemma_symbol_table(t, Topic::RecipientUpdated);
    lemma_symbol_table(t, Topic::GlobalPause);
    lemma_symbol_table(t, Topic::GlobalResume);
    lemma_symbol_table(t, Topic::ContractPause);
    lemma_symbol_table(t, Topic::ProtocolPause);
    lemma_symbol_table(t, Topic::ProtocolResume);
    lemma_symbol_table(t, Topic::AutoClaimSet);
    lemma_symbol_table(t, Topic::AutoClaimRevoked);
    lemma_symbol_table(t, Topic::AutoClaimTriggered);
    lemma_symbol_table(t, Topic::ExcessSwept);
    lemma_symbol_table(t, Topic::Cloned);
    lemma_symbol_table(t, Topic::KeeperCancelled);
    lemma_symbol_table(t, Topic::Decommissioned);
    lemma_symbol_table(t, Topic::SenderTransferred);
    lemma_symbol_table(t, Topic::Renewed);
    lemma_symbol_table(t, Topic::ClaimOwnership);
    lemma_symbol_table(t, Topic::ShareDelegated);
    lemma_symbol_table(t, Topic::OfferCreated);
    lemma_symbol_table(t, Topic::OfferAccepted);
    lemma_symbol_table(t, Topic::OfferCancelled);
    lemma_symbol_table(t, Topic::Upgraded);
    lemma_symbol_table(t, Topic::AdminUpdated);
    lemma_symbol_table(t, Topic::Migrated);
    lemma_symbol_table(t, Topic::ReservationReleased);
    lemma_symbol_table(t, Topic::TemplateDefined);
}

/// No two events share a topic symbol: the symbol identifies the event.
pub proof fn lemma_symbols_distinct(a: Topic, b: Topic)
    ensures
        a.text() == b.text() ==> a == b,
{
    lemma_symbol_table(a, b);
}

/// Every topic symbol fits a short Soroban symbol.
pub proof fn lemma_symbols_are_short(t: Topic)
    ensures
        is_short_symbol(t.text()),
{
    lemma_symbol_table(t, t);
}

} // verus!
