//! The session engine as a state machine. It owns the subscription set and
//! the state of the connection, and decides what is to be sent; opening the
//! transport, waiting and sending are left to the caller, who reports each
//! event back.
//!
//! The engine knows nothing of any exchange: it deals in tokens, and the
//! exchange's adapter renders them.

use crate::model::FeedError;
use crate::subscription::{all_tokens, lemma_members_are_tokens};
use crate::text::texts;
use crate::token_set::{
    lemma_merged, lemma_merged_again, lemma_newly_added, lemma_without, merge_tokens, merged,
    newly_added, newly_removed, remove_tokens, without,
};
use vstd::prelude::*;

verus! {

/// Where a connection stands.
#[derive(Clone, Copy, Debug, PartialEq, Eq, Structural)]
pub enum ConnectionState {
    Disconnected,
    Connecting,
    Connected,
    Reconnecting,
}

/// A session as the contracts see it.
pub ghost struct SessionView {
    pub state: ConnectionState,
    /// Set by `close`, and when recovery is given up. Never cleared.
    pub closed: bool,
    /// The subscription set, oldest first.
    pub channels: Seq<Seq<char>>,
    /// Failures since the connection last stood.
    pub attempts: nat,
    /// How many failures in a row are tolerated; `None` for any number.
    pub max_attempts: Option<nat>,
}

impl SessionView {
    /// The set holds tokens, none of them twice, and a closed session is
    /// disconnected.
    pub open spec fn valid(self) -> bool {
        &&& all_tokens(self.channels)
        &&& self.channels.no_duplicates()
        &&& self.closed ==> self.state == ConnectionState::Disconnected
    }

    /// Whether the transport is being opened, for the first time or again.
    pub open spec fn is_opening(self) -> bool {
        self.state == ConnectionState::Connecting || self.state == ConnectionState::Reconnecting
    }

    /// Whether one more failure is tolerated.
    pub open spec fn may_retry(self) -> bool {
        match self.max_attempts {
            None => true,
            Some(limit) => self.attempts < limit,
        }
    }

    pub open spec fn after_subscribe(self, tokens: Seq<Seq<char>>) -> SessionView {
        SessionView { channels: merged(self.channels, tokens), ..self }
    }

    /// Tokens to subscribe to on the wire at once: the new ones while the
    /// connection stands, none while it does not (they wait for the replay).
    pub open spec fn sent_on_subscribe(self, tokens: Seq<Seq<char>>) -> Seq<Seq<char>> {
        if self.state == ConnectionState::Connected {
            newly_added(self.channels, tokens)
        } else {
            Seq::empty()
        }
    }

    pub open spec fn after_unsubscribe(self, tokens: Seq<Seq<char>>) -> SessionView {
        SessionView { channels: without(self.channels, tokens), ..self }
    }

    /// Tokens to unsubscribe from on the wire at once.
    pub open spec fn sent_on_unsubscribe(self, tokens: Seq<Seq<char>>) -> Seq<Seq<char>> {
        if self.state == ConnectionState::Connected {
            newly_removed(self.channels, tokens)
        } else {
            Seq::empty()
        }
    }

    /// A session that has not been closed starts to connect.
    pub open spec fn after_connect(self) -> SessionView {
        if self.state == ConnectionState::Disconnected && !self.closed {
            SessionView { state: ConnectionState::Connecting, ..self }
        } else {
            self
        }
    }

    /// The transport stands.
    pub open spec fn after_open(self) -> SessionView {
        if self.is_opening() {
            SessionView { state: ConnectionState::Connected, attempts: 0, ..self }
        } else {
            self
        }
    }

    /// Tokens to subscribe to when the transport stands: the whole set.
    pub open spec fn replay(self) -> Seq<Seq<char>> {
        if self.is_opening() {
            self.channels
        } else {
            Seq::empty()
        }
    }

    /// The transport has failed. A session that is connected or connecting
    /// goes on to reconnect while failures are tolerated, and closes when
    /// they no longer are; a disconnected one stays as it is.
    pub open spec fn after_failure(self) -> SessionView {
        if self.state == ConnectionState::Disconnected {
            self
        } else if self.may_retry() {
            SessionView {
                state: ConnectionState::Reconnecting,
                attempts: if self.attempts < u64::MAX {
                    self.attempts + 1
                } else {
                    self.attempts
                },
                ..self
            }
        } else {
            SessionView { state: ConnectionState::Disconnected, closed: true, ..self }
        }
    }

    /// What the caller is told after a failure: the number of the attempt to
    /// make, or that the transport is lost for good.
    pub open spec fn recovery(self) -> Result<u64, FeedError> {
        if self.after_failure().state == ConnectionState::Reconnecting {
            Ok(self.after_failure().attempts as u64)
        } else {
            Err(FeedError::TransportError)
        }
    }

    pub open spec fn after_close(self) -> SessionView {
        SessionView { state: ConnectionState::Disconnected, closed: true, ..self }
    }
}

/// Every transition keeps a valid session valid.
pub proof fn lemma_transitions_keep_validity(s: SessionView, tokens: Seq<Seq<char>>)
    requires
        s.valid(),
    ensures
        all_tokens(tokens) ==> s.after_subscribe(tokens).valid(),
        s.after_unsubscribe(tokens).valid(),
        s.after_connect().valid(),
        s.after_open().valid(),
        s.after_failure().valid(),
        s.after_close().valid(),
{
    lemma_merged(s.channels, tokens);
    lemma_without(s.channels, tokens);
    if all_tokens(tokens) {
        lemma_members_are_tokens(merged(s.channels, tokens), s.channels, tokens);
    }
    lemma_members_are_tokens(without(s.channels, tokens), s.channels, s.channels);
}

/// The state moves along the path from disconnected over connecting to
/// connected, from there to reconnecting and back, and from anywhere to
/// disconnected; requests to subscribe or unsubscribe do not move it.
pub proof fn lemma_states_follow_the_path(s: SessionView, tokens: Seq<Seq<char>>)
    requires
        s.valid(),
    ensures
        s.after_subscribe(tokens).state == s.state,
        s.after_unsubscribe(tokens).state == s.state,
        s.after_connect().state != s.state ==> s.state == ConnectionState::Disconnected
            && s.after_connect().state == ConnectionState::Connecting,
        s.after_open().state != s.state ==> s.is_opening() && s.after_open().state
            == ConnectionState::Connected,
        s.after_failure().state != s.state ==> s.state != ConnectionState::Disconnected && (
        s.after_failure().state == ConnectionState::Reconnecting || (s.after_failure().state
            == ConnectionState::Disconnected && s.after_failure().closed)),
        s.after_close().state == ConnectionState::Disconnected,
{
}

/// After the connection is lost and stands again, exactly the subscription
/// set of before is replayed: each token once, none left out.
pub proof fn lemma_reconnect_replays_the_set(s: SessionView)
    requires
        s.valid(),
        s.state == ConnectionState::Connected,
        s.may_retry(),
    ensures
        s.after_failure().state == ConnectionState::Reconnecting,
        s.after_failure().replay() == s.channels,
        s.after_failure().replay().no_duplicates(),
        s.after_failure().after_open().state == ConnectionState::Connected,
        s.after_failure().after_open().channels == s.channels,
{
}

/// A request made while the connection does not stand sends nothing and
/// leaves the state as it is, which the caller can read; what it asks for is
/// in the set, and so in the next replay.
pub proof fn lemma_requests_while_down_wait_for_the_replay(s: SessionView, tokens: Seq<Seq<char>>)
    requires
        s.valid(),
        s.state != ConnectionState::Connected,
    ensures
        s.sent_on_subscribe(tokens) == Seq::<Seq<char>>::empty(),
        s.sent_on_unsubscribe(tokens) == Seq::<Seq<char>>::empty(),
        s.after_subscribe(tokens).state == s.state,
        s.after_unsubscribe(tokens).state == s.state,
        forall|x: Seq<char>|
            tokens.contains(x) ==> #[trigger] s.after_subscribe(tokens).channels.contains(x),
        forall|x: Seq<char>|
            tokens.contains(x) ==> !(#[trigger] s.after_unsubscribe(tokens).channels.contains(x)),
        s.is_opening() ==> s.after_subscribe(tokens).replay() == merged(s.channels, tokens),
        s.is_opening() ==> s.after_unsubscribe(tokens).replay() == without(s.channels, tokens),
{
    lemma_merged(s.channels, tokens);
    lemma_without(s.channels, tokens);
}

/// While the connection stands, a subscribe request sends exactly what it
/// adds to the set, and a second request for the same tokens sends nothing.
pub proof fn lemma_subscribing_twice_sends_once(s: SessionView, tokens: Seq<Seq<char>>)
    requires
        s.valid(),
        s.state == ConnectionState::Connected,
    ensures
        s.after_subscribe(tokens).channels == s.channels + s.sent_on_subscribe(tokens),
        s.after_subscribe(tokens).sent_on_subscribe(tokens) == Seq::<Seq<char>>::empty(),
        s.after_subscribe(tokens).after_subscribe(tokens) == s.after_subscribe(tokens),
{
    lemma_newly_added(s.channels, tokens);
    lemma_merged_again(s.channels, tokens);
}

/// A closed session stays closed: no event reopens it, and nothing is sent.
pub proof fn lemma_closed_is_terminal(s: SessionView, tokens: Seq<Seq<char>>)
    requires
        s.valid(),
    ensures
        s.after_close().closed,
        s.after_close().state == ConnectionState::Disconnected,
        s.after_close().after_connect() == s.after_close(),
        s.after_close().after_open() == s.after_close(),
        s.after_close().after_failure() == s.after_close(),
        s.after_close().replay() == Seq::<Seq<char>>::empty(),
        s.after_close().sent_on_subscribe(tokens) == Seq::<Seq<char>>::empty(),
        s.after_close().sent_on_unsubscribe(tokens) == Seq::<Seq<char>>::empty(),
{
}

/// The subscription set and the state of one connection.
pub struct Session {
    state: ConnectionState,
    closed: bool,
    channels: Vec<String>,
    attempts: u64,
    max_attempts: Option<u64>,
}

impl View for Session {
    type V = SessionView;

    closed spec fn view(&self) -> SessionView {
        SessionView {
            state: self.state,
            closed: self.closed,
            channels: texts(self.channels@),
            attempts: self.attempts as nat,
            max_attempts: match self.max_attempts {
                Some(limit) => Some(limit as nat),
                None => None,
            },
        }
    }
}

impl Session {
    #[verifier::type_invariant]
    pub open spec fn well_formed(&self) -> bool {
        self@.valid()
    }

    /// A session that is disconnected, subscribed to nothing, and reconnects
    /// as often as it takes.
    pub fn new() -> (session: Session)
        ensures
            session@ == (SessionView {
                state: ConnectionState::Disconnected,
                closed: false,
                channels: Seq::empty(),
                attempts: 0,
                max_attempts: None,
            }),
            session@.valid(),
    {
        let channels: Vec<String> = Vec::new();
        assert(texts(channels@) =~= Seq::<Seq<char>>::empty());
        Session {
            state: ConnectionState::Disconnected,
            closed: false,
            channels,
            attempts: 0,
            max_attempts: None,
        }
    }

    /// A session that gives up after `limit` failures in a row.
    pub fn with_max_attempts(limit: u64) -> (session: Session)
        ensures
            session@ == (SessionView {
                state: ConnectionState::Disconnected,
                closed: false,
                channels: Seq::empty(),
                attempts: 0,
                max_attempts: Some(limit as nat),
            }),
            session@.valid(),
    {
        let channels: Vec<String> = Vec::new();
        assert(texts(channels@) =~= Seq::<Seq<char>>::empty());
        Session {
            state: ConnectionState::Disconnected,
            closed: false,
            channels,
            attempts: 0,
            max_attempts: Some(limit),
        }
    }

    pub fn state(&self) -> (r: ConnectionState)
        ensures
            r == self@.state,
            self@.valid(),
    {
        proof {
            use_type_invariant(self);
        }
        self.state
    }

    pub fn is_closed(&self) -> (r: bool)
        ensures
            r == self@.closed,
    {
        self.closed
    }

    /// The subscription set, oldest first.
    pub fn channels(&self) -> (r: &Vec<String>)
        ensures
            texts(r@) == self@.channels,
            self@.valid(),
    {
        proof {
            use_type_invariant(self);
        }
        &self.channels
    }

    /// Adds tokens to the set and returns those to subscribe to at once.
    pub fn subscribe(&mut self, tokens: &[String]) -> (send: Vec<String>)
        requires
            all_tokens(texts(tokens@)),
        ensures
            final(self)@ == old(self)@.after_subscribe(texts(tokens@)),
            texts(send@) == old(self)@.sent_on_subscribe(texts(tokens@)),
            final(self)@.valid(),
    {
        proof {
            use_type_invariant(&*self);
        }
        let mut channels: Vec<String> = Vec::new();
        std::mem::swap(&mut self.channels, &mut channels);
        let added = merge_tokens(&mut channels, tokens);
        proof {
            lemma_merged(old(self)@.channels, texts(tokens@));
            lemma_members_are_tokens(texts(channels@), old(self)@.channels, texts(tokens@));
        }
        self.channels = channels;
        if self.state == ConnectionState::Connected {
            added
        } else {
            let none: Vec<String> = Vec::new();
            none
        }
    }

    /// Takes tokens out of the set and returns those to unsubscribe from at
    /// once.
    pub fn unsubscribe(&mut self, tokens: &[String]) -> (send: Vec<String>)
        ensures
            final(self)@ == old(self)@.after_unsubscribe(texts(tokens@)),
            texts(send@) == old(self)@.sent_on_unsubscribe(texts(tokens@)),
            final(self)@.valid(),
    {
        proof {
            use_type_invariant(&*self);
        }
        let mut channels: Vec<String> = Vec::new();
        std::mem::swap(&mut self.channels, &mut channels);
        let removed = remove_tokens(&mut channels, tokens);
        proof {
            lemma_without(old(self)@.channels, texts(tokens@));
            lemma_members_are_tokens(texts(channels@), old(self)@.channels, old(self)@.channels);
        }
        self.channels = channels;
        if self.state == ConnectionState::Connected {
            removed
        } else {
            let none: Vec<String> = Vec::new();
            none
        }
    }

    /// Starts to connect. Returns whether the caller is to open the
    /// transport.
    pub fn connect(&mut self) -> (open: bool)
        ensures
            final(self)@ == old(self)@.after_connect(),
            open == (old(self)@.state == ConnectionState::Disconnected && !old(self)@.closed),
            final(self)@.valid(),
    {
        proof {
            use_type_invariant(&*self);
        }
        if self.state == ConnectionState::Disconnected && !self.closed {
            self.state = ConnectionState::Connecting;
            true
        } else {
            false
        }
    }

    /// The transport stands. Returns the tokens to subscribe to: the whole
    /// set.
    pub fn on_open(&mut self) -> (send: Vec<String>)
        ensures
            final(self)@ == old(self)@.after_open(),
            texts(send@) == old(self)@.replay(),
            final(self)@.valid(),
    {
        proof {
            use_type_invariant(&*self);
        }
        if self.state == ConnectionState::Connecting
            || self.state == ConnectionState::Reconnecting
        {
            self.state = ConnectionState::Connected;
            self.attempts = 0;
            self.channels.clone()
        } else {
            let none: Vec<String> = Vec::new();
            none
        }
    }

    /// The transport has failed. `Ok` holds the number of the attempt that the
    /// caller is to make: wait, reopen the transport, report `on_open`. `Err`
    /// says that the session is disconnected and no attempt is to be made.
    pub fn on_failure(&mut self) -> (recovery: Result<u64, FeedError>)
        ensures
            final(self)@ == old(self)@.after_failure(),
            recovery == old(self)@.recovery(),
            final(self)@.valid(),
    {
        proof {
            use_type_invariant(&*self);
        }
        if self.state == ConnectionState::Disconnected {
            return Err(FeedError::TransportError);
        }
        let may_retry = match self.max_attempts {
            None => true,
            Some(limit) => self.attempts < limit,
        };
        if may_retry {
            self.state = ConnectionState::Reconnecting;
            if self.attempts < u64::MAX {
                self.attempts = self.attempts + 1;
            }
            Ok(self.attempts)
        } else {
            self.state = ConnectionState::Disconnected;
            self.closed = true;
            Err(FeedError::TransportError)
        }
    }

    /// Closes the session for good. No event reopens it.
    pub fn close(&mut self)
        ensures
            final(self)@ == old(self)@.after_close(),
            final(self)@.valid(),
    {
        proof {
            use_type_invariant(&*self);
        }
        self.state = ConnectionState::Disconnected;
        self.closed = true;
    }

}

} // verus!
