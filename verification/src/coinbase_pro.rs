//! Coinbase Pro: subscription commands and control-frame filtering.
//!
//! Coinbase Pro has only a spot market. One command carries every channel,
//! each with the batch of its symbols.

use crate::json::{
    json_document, json_text_of_strings, parse_value, read_text_member, strings_to_json,
    text_member,
};
use crate::model::{FeedError, MiscMessage};
use crate::session::{lemma_reconnect_replays_the_set, ConnectionState, Session, SessionView};
use crate::subscription::{
    all_tokens, channel_of, encode, group_channels, group_texts, grouped, has_group, is_token,
    lemma_grouped, lemma_members_are_tokens, token_of, ChannelGroup, GroupText,
    CHANNEL_PAIR_DELIMITER,
};
use crate::text::{chars_of, equals, is_prefix, texts};
use crate::token_set::{lemma_newly_added, lemma_newly_removed};
use vstd::prelude::*;

verus! {

/// The action that a command asks for.
pub open spec fn action_tag(subscribe: bool) -> Seq<char> {
    if subscribe {
        "subscribe"@
    } else {
        "unsubscribe"@
    }
}

/// One channel of a command: its name and its symbols as a JSON array.
pub open spec fn entry_text(channel: Seq<char>, product_ids: Seq<char>) -> Seq<char> {
    "{\"name\":\""@ + channel + "\",\"product_ids\":"@ + product_ids + "}"@
}

/// The entry of a group of subscriptions.
pub open spec fn group_entry(group: GroupText) -> Seq<char> {
    entry_text(group.channel, json_text_of_strings(group.pairs))
}

pub open spec fn group_entries(groups: Seq<GroupText>) -> Seq<Seq<char>> {
    groups.map_values(|g: GroupText| group_entry(g))
}

/// The parts with a comma between each two of them.
pub open spec fn comma_separated(parts: Seq<Seq<char>>) -> Seq<char>
    decreases parts.len(),
{
    if parts.len() == 0 {
        Seq::empty()
    } else if parts.len() == 1 {
        parts[0]
    } else {
        comma_separated(parts.drop_last()) + ","@ + parts.last()
    }
}

/// What precedes the channel list of a command.
pub open spec fn command_head(subscribe: bool) -> Seq<char> {
    "{\"type\":\""@ + action_tag(subscribe) + "\",\"channels\": "@
}

/// The channel list of a command, in brackets, and what closes the command.
pub open spec fn command_tail(entries: Seq<Seq<char>>) -> Seq<char> {
    "["@ + comma_separated(entries) + "]}"@
}

/// The command that carries `entries`.
pub open spec fn command_of(entries: Seq<Seq<char>>, subscribe: bool) -> Seq<char> {
    command_head(subscribe) + command_tail(entries)
}

/// The command for groups of subscriptions.
pub open spec fn command_text(groups: Seq<GroupText>, subscribe: bool) -> Seq<char> {
    command_of(group_entries(groups), subscribe)
}

/// What an inbound frame is.
#[derive(Clone, Copy, Debug, PartialEq, Eq, Structural)]
pub enum FrameKind {
    /// No JSON at all.
    Garbage,
    /// JSON that names no `type` as a string.
    Untyped,
    /// An error notice.
    Error,
    /// The acknowledgement of a subscribe or unsubscribe command.
    Subscriptions,
    /// A heartbeat.
    Heartbeat,
    /// Market data.
    Data,
}

/// The kind of a frame by its `type`: three types are plumbing, every other
/// one is data.
pub open spec fn kind_of_type(message_type: Option<Seq<char>>) -> FrameKind {
    match message_type {
        Some(t) => if t == "error"@ {
            FrameKind::Error
        } else if t == "subscriptions"@ {
            FrameKind::Subscriptions
        } else if t == "heartbeat"@ {
            FrameKind::Heartbeat
        } else {
            FrameKind::Data
        },
        None => FrameKind::Untyped,
    }
}

/// The kind of a raw frame.
pub open spec fn kind_of_frame(msg: Seq<char>) -> FrameKind {
    match json_document(msg) {
        Some(doc) => kind_of_type(text_member(doc, "type"@)),
        None => FrameKind::Garbage,
    }
}

/// Data goes to the caller; everything else is plumbing.
pub open spec fn verdict_of(kind: FrameKind) -> MiscMessage {
    if kind == FrameKind::Data {
        MiscMessage::Normal
    } else {
        MiscMessage::Misc
    }
}

/// A subscribe command and the unsubscribe command for the same groups differ
/// in the action tag and in nothing else.
pub proof fn lemma_commands_differ_in_tag_only(groups: Seq<GroupText>)
    ensures
        command_text(groups, true) == "{\"type\":\""@ + "subscribe"@ + "\",\"channels\": "@
            + command_tail(group_entries(groups)),
        command_text(groups, false) == "{\"type\":\""@ + "unsubscribe"@ + "\",\"channels\": "@
            + command_tail(group_entries(groups)),
{
}

/// Every command opens with its `type` member, which holds the action tag.
pub proof fn lemma_command_names_its_action(groups: Seq<GroupText>, subscribe: bool)
    ensures
        is_prefix(
            command_text(groups, subscribe),
            "{\"type\":\""@ + action_tag(subscribe) + "\","@,
        ),
{
    reveal_strlit("\",\"channels\": ");
    reveal_strlit("\",");
    let opening = "{\"type\":\""@ + action_tag(subscribe);
    let command = command_text(groups, subscribe);
    assert(command.subrange(0, opening.len() as int + 2) =~= opening + "\","@);
}

/// Renders one channel of a command from its name and the JSON array of its
/// symbols.
pub fn render_entry(channel: &str, product_ids: &str) -> (r: String)
    ensures
        r@ == entry_text(channel@, product_ids@),
{
    let mut entry = "{\"name\":\"".to_owned();
    entry.append(channel);
    entry.append("\",\"product_ids\":");
    entry.append(product_ids);
    entry.append("}");
    entry
}

/// Renders one channel of a command with the batch of its symbols.
pub fn channel_pairs_to_command(channel: &str, pairs: &[String]) -> (r: String)
    ensures
        r@ == entry_text(channel@, json_text_of_strings(texts(pairs@))),
{
    let product_ids = strings_to_json(pairs).unwrap();
    render_entry(channel, product_ids.as_str())
}

/// Renders the command that carries `entries`.
pub fn render_command(entries: &Vec<String>, subscribe: bool) -> (r: String)
    ensures
        r@ == command_of(texts(entries@), subscribe),
{
    let mut command = "{\"type\":\"".to_owned();
    command.append(if subscribe { "subscribe" } else { "unsubscribe" });
    command.append("\",\"channels\": ");
    command.append("[");
    let mut i: usize = 0;
    while i < entries.len()
        invariant
            i <= entries.len(),
            command@ == command_head(subscribe) + "["@ + comma_separated(
                texts(entries@).take(i as int),
            ),
        decreases entries.len() - i,
    {
        if i > 0 {
            command.append(",");
        }
        command.append(entries[i].as_str());
        proof {
            let upto = texts(entries@).take(i + 1);
            assert(upto.drop_last() =~= texts(entries@).take(i as int));
        }
        i += 1;
    }
    assert(texts(entries@).take(entries@.len() as int) =~= texts(entries@));
    command.append("]}");
    command
}

/// Renders the entry of each group.
pub fn render_groups(groups: &Vec<ChannelGroup>) -> (entries: Vec<String>)
    ensures
        texts(entries@) == group_entries(group_texts(groups@)),
{
    let mut entries: Vec<String> = Vec::new();
    let mut i: usize = 0;
    while i < groups.len()
        invariant
            i <= groups.len(),
            entries@.len() == i,
            forall|j: int| 0 <= j < i ==> (#[trigger] entries@[j])@ == group_entry(groups@[j]@),
        decreases groups.len() - i,
    {
        let entry = channel_pairs_to_command(
            groups[i].channel.as_str(),
            groups[i].pairs.as_slice(),
        );
        entries.push(entry);
        i += 1;
    }
    entries
}

/// The commands that carry a batch of tokens: none for an empty batch, else
/// the one command with every channel of the batch.
pub open spec fn commands_for(tokens: Seq<Seq<char>>, subscribe: bool) -> Seq<Seq<char>> {
    if tokens.len() == 0 {
        Seq::empty()
    } else {
        seq![command_text(grouped(tokens), subscribe)]
    }
}

/// A command is made only for a batch that holds a token, and it then names
/// at least one channel, each with at least one symbol.
pub proof fn lemma_commands_name_channels(tokens: Seq<Seq<char>>, subscribe: bool)
    ensures
        commands_for(tokens, subscribe).len() == (if tokens.len() == 0 {
            0nat
        } else {
            1nat
        }),
        tokens.len() > 0 ==> grouped(tokens).len() > 0,
        forall|i: int|
            0 <= i < grouped(tokens).len() ==> (#[trigger] grouped(tokens)[i]).pairs.len() > 0,
{
    lemma_grouped(tokens);
    if tokens.len() > 0 {
        assert(has_group(grouped(tokens), channel_of(tokens[0])));
    }
}

/// Renders the subscribe or unsubscribe commands for a batch of tokens: one
/// command, in which each channel stands once with all of its symbols, and
/// no command where there is nothing to ask for.
pub fn channels_to_commands(channels: &[String], subscribe: bool) -> (commands: Vec<String>)
    requires
        all_tokens(texts(channels@)),
    ensures
        texts(commands@) == commands_for(texts(channels@), subscribe),
{
    let mut commands: Vec<String> = Vec::new();
    if channels.len() > 0 {
        let groups = group_channels(channels);
        let entries = render_groups(&groups);
        commands.push(render_command(&entries, subscribe));
    }
    assert(texts(commands@) =~= commands_for(texts(channels@), subscribe));
    commands
}

/// The kind of a frame whose `type` has been read.
pub fn classify_type(message_type: Option<&str>) -> (r: FrameKind)
    ensures
        r == kind_of_type(
            match message_type {
                Some(t) => Some(t@),
                None => None,
            },
        ),
{
    match message_type {
        None => FrameKind::Untyped,
        Some(t) => {
            let chars = chars_of(t);
            if equals(&chars, "error") {
                FrameKind::Error
            } else if equals(&chars, "subscriptions") {
                FrameKind::Subscriptions
            } else if equals(&chars, "heartbeat") {
                FrameKind::Heartbeat
            } else {
                FrameKind::Data
            }
        },
    }
}

/// The kind of a raw frame. Noise from the wire has a kind like any other
/// frame: nothing fails.
pub fn frame_kind(msg: &str) -> (r: FrameKind)
    ensures
        r == kind_of_frame(msg@),
{
    match parse_value(msg) {
        None => FrameKind::Garbage,
        Some(doc) => match read_text_member(&doc, "type") {
            None => classify_type(None),
            Some(t) => classify_type(Some(t.as_str())),
        },
    }
}

/// Whether a frame of this kind goes to the caller.
pub fn verdict(kind: FrameKind) -> (r: MiscMessage)
    ensures
        r == verdict_of(kind),
{
    match kind {
        FrameKind::Data => MiscMessage::Normal,
        _ => MiscMessage::Misc,
    }
}

/// Tells protocol plumbing from market data.
pub fn on_misc_msg(msg: &str) -> (r: MiscMessage)
    ensures
        r == verdict_of(kind_of_frame(msg@)),
        json_document(msg@) is None ==> r == MiscMessage::Misc,
{
    verdict(frame_kind(msg))
}

/// The channel of trades.
pub open spec fn trade_channel() -> Seq<char> {
    "matches"@
}

/// The channel of tickers.
pub open spec fn ticker_channel() -> Seq<char> {
    "ticker"@
}

/// The tokens of the symbols on one channel.
pub open spec fn tokens_on(channel: Seq<char>, pairs: Seq<Seq<char>>) -> Seq<Seq<char>> {
    pairs.map_values(|pair: Seq<char>| token_of(channel, pair))
}

/// The tokens of symbols on a channel are tokens, whatever the symbols hold.
pub proof fn lemma_tokens_on_are_tokens(channel: Seq<char>, pairs: Seq<Seq<char>>)
    ensures
        all_tokens(tokens_on(channel, pairs)),
{
    assert forall|i: int| 0 <= i < pairs.len() implies is_token(
        #[trigger] tokens_on(channel, pairs)[i],
    ) by {
        let token = token_of(channel, pairs[i]);
        assert(token[channel.len() as int] == CHANNEL_PAIR_DELIMITER);
    }
}

/// When the connection stands again after a failure, the client sends one
/// subscribe command that carries the whole subscription set of before, or
/// nothing if the set was empty.
pub proof fn lemma_reconnect_replays_the_commands(s: SessionView)
    requires
        s.valid(),
        s.state == ConnectionState::Connected,
        s.may_retry(),
    ensures
        commands_for(s.after_failure().replay(), true) == commands_for(s.channels, true),
        s.channels.len() > 0 ==> commands_for(s.after_failure().replay(), true) == seq![
            command_text(grouped(s.channels), true),
        ],
{
    lemma_reconnect_replays_the_set(s);
}

/// Encodes the symbols of one channel as tokens.
pub fn tokens_of_pairs(channel: &str, pairs: &[String]) -> (tokens: Vec<String>)
    ensures
        texts(tokens@) == tokens_on(channel@, texts(pairs@)),
        all_tokens(texts(tokens@)),
{
    let mut tokens: Vec<String> = Vec::new();
    let mut i: usize = 0;
    while i < pairs.len()
        invariant
            i <= pairs.len(),
            tokens@.len() == i,
            forall|j: int|
                0 <= j < i ==> (#[trigger] tokens@[j])@ == token_of(channel@, pairs@[j]@),
        decreases pairs.len() - i,
    {
        tokens.push(encode(channel, pairs[i].as_str()));
        i += 1;
    }
    proof {
        lemma_tokens_on_are_tokens(channel@, texts(pairs@));
    }
    tokens
}

/// The client for Coinbase Pro: the session engine with this exchange's
/// commands and control frames. Each operation returns the text frames that
/// the caller is to send, in order.
pub struct CoinbaseProWSClient {
    client: Session,
}

impl View for CoinbaseProWSClient {
    type V = SessionView;

    closed spec fn view(&self) -> SessionView {
        self.client@
    }
}

impl CoinbaseProWSClient {
    /// A client that is disconnected and subscribed to nothing.
    pub fn new() -> (r: CoinbaseProWSClient)
        ensures
            r@ == (SessionView {
                state: ConnectionState::Disconnected,
                closed: false,
                channels: Seq::empty(),
                attempts: 0,
                max_attempts: None,
            }),
            r@.valid(),
    {
        CoinbaseProWSClient { client: Session::new() }
    }

    /// A client that gives up after `limit` failed connections in a row.
    pub fn with_max_attempts(limit: u64) -> (r: CoinbaseProWSClient)
        ensures
            r@ == (SessionView {
                state: ConnectionState::Disconnected,
                closed: false,
                channels: Seq::empty(),
                attempts: 0,
                max_attempts: Some(limit as nat),
            }),
            r@.valid(),
    {
        CoinbaseProWSClient { client: Session::with_max_attempts(limit) }
    }

    pub fn state(&self) -> (r: ConnectionState)
        ensures
            r == self@.state,
            self@.valid(),
    {
        self.client.state()
    }

    pub fn is_closed(&self) -> (r: bool)
        ensures
            r == self@.closed,
    {
        self.client.is_closed()
    }

    /// The subscription set as tokens, oldest first.
    pub fn channels(&self) -> (r: &Vec<String>)
        ensures
            texts(r@) == self@.channels,
            self@.valid(),
    {
        self.client.channels()
    }

    /// Subscribes to tokens.
    pub fn subscribe(&mut self, channels: &[String]) -> (commands: Vec<String>)
        requires
            all_tokens(texts(channels@)),
        ensures
            final(self)@ == old(self)@.after_subscribe(texts(channels@)),
            texts(commands@) == commands_for(
                old(self)@.sent_on_subscribe(texts(channels@)),
                true,
            ),
            final(self)@.valid(),
    {
        let ghost before = self.client@;
        proof {
            use_type_invariant(&self.client);
        }
        let send = self.client.subscribe(channels);
        proof {
            lemma_newly_added(before.channels, texts(channels@));
            lemma_members_are_tokens(texts(send@), before.channels, texts(channels@));
        }
        channels_to_commands(send.as_slice(), true)
    }

    /// Unsubscribes from tokens.
    pub fn unsubscribe(&mut self, channels: &[String]) -> (commands: Vec<String>)
        ensures
            final(self)@ == old(self)@.after_unsubscribe(texts(channels@)),
            texts(commands@) == commands_for(
                old(self)@.sent_on_unsubscribe(texts(channels@)),
                false,
            ),
            final(self)@.valid(),
    {
        let ghost before = self.client@;
        proof {
            use_type_invariant(&self.client);
        }
        let send = self.client.unsubscribe(channels);
        proof {
            lemma_newly_removed(before.channels, texts(channels@));
            lemma_members_are_tokens(texts(send@), before.channels, before.channels);
        }
        channels_to_commands(send.as_slice(), false)
    }

    /// Subscribes to the trades of symbols.
    pub fn subscribe_trade(&mut self, pairs: &[String]) -> (commands: Vec<String>)
        ensures
            final(self)@ == old(self)@.after_subscribe(tokens_on(trade_channel(), texts(pairs@))),
            texts(commands@) == commands_for(
                old(self)@.sent_on_subscribe(tokens_on(trade_channel(), texts(pairs@))),
                true,
            ),
            final(self)@.valid(),
    {
        let channels = tokens_of_pairs("matches", pairs);
        self.subscribe(channels.as_slice())
    }

    /// Subscribes to the tickers of symbols.
    pub fn subscribe_ticker(&mut self, pairs: &[String]) -> (commands: Vec<String>)
        ensures
            final(self)@ == old(self)@.after_subscribe(tokens_on(ticker_channel(), texts(pairs@))),
            texts(commands@) == commands_for(
                old(self)@.sent_on_subscribe(tokens_on(ticker_channel(), texts(pairs@))),
                true,
            ),
            final(self)@.valid(),
    {
        let channels = tokens_of_pairs("ticker", pairs);
        self.subscribe(channels.as_slice())
    }

    /// Starts to connect. Returns whether the caller is to open the
    /// transport.
    pub fn connect(&mut self) -> (open: bool)
        ensures
            final(self)@ == old(self)@.after_connect(),
            open == (old(self)@.state == ConnectionState::Disconnected && !old(self)@.closed),
            final(self)@.valid(),
    {
        self.client.connect()
    }

    /// The transport stands. Returns the commands that subscribe to the
    /// whole set again.
    pub fn on_open(&mut self) -> (commands: Vec<String>)
        ensures
            final(self)@ == old(self)@.after_open(),
            texts(commands@) == commands_for(old(self)@.replay(), true),
            final(self)@.valid(),
    {
        proof {
            use_type_invariant(&self.client);
        }
        let send = self.client.on_open();
        channels_to_commands(send.as_slice(), true)
    }

    /// The transport has failed. `Ok` holds the number of the attempt that the
    /// caller is to make; `Err` says that none is to be made.
    pub fn on_failure(&mut self) -> (recovery: Result<u64, FeedError>)
        ensures
            final(self)@ == old(self)@.after_failure(),
            recovery == old(self)@.recovery(),
            final(self)@.valid(),
    {
        self.client.on_failure()
    }

    /// An inbound frame. Returns the frame, untouched, where it is market
    /// data for the caller, and `None` where it is plumbing.
    pub fn on_frame<'a>(&self, frame: &'a str) -> (deliver: Option<&'a str>)
        ensures
            deliver == (if kind_of_frame(frame@) == FrameKind::Data {
                Some(frame)
            } else {
                None
            }),
    {
        match on_misc_msg(frame) {
            MiscMessage::Normal => Some(frame),
            MiscMessage::Misc => None,
        }
    }

    /// Closes the client for good.
    pub fn close(&mut self)
        ensures
            final(self)@ == old(self)@.after_close(),
            final(self)@.valid(),
    {
        self.client.close()
    }
}

} // verus!
