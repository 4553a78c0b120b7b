//! Subscriptions: a channel name and a symbol, kept as one token with a
//! reserved delimiter between them, and the grouping of tokens by channel.

use crate::text::{
    chars_of, field, field_from, find_field_end, lemma_field_end, lemma_field_of_joined,
    lemma_field_of_plain_text, texts,
};
use vstd::prelude::*;

verus! {

/// Stands between the channel and the symbol of a token. Neither may hold it.
pub const CHANNEL_PAIR_DELIMITER: char = ':';

/// The token of a subscription.
pub open spec fn token_of(channel: Seq<char>, pair: Seq<char>) -> Seq<char> {
    channel + seq![CHANNEL_PAIR_DELIMITER] + pair
}

/// A text is a token when it holds the delimiter.
pub open spec fn is_token(token: Seq<char>) -> bool {
    token.contains(CHANNEL_PAIR_DELIMITER)
}

/// The channel of a token: what stands before the first delimiter.
pub open spec fn channel_of(token: Seq<char>) -> Seq<char> {
    field(token, CHANNEL_PAIR_DELIMITER, 0).unwrap()
}

/// The symbol of a token: what stands between the first delimiter and the
/// next one, or the end.
pub open spec fn pair_of(token: Seq<char>) -> Seq<char> {
    field(token, CHANNEL_PAIR_DELIMITER, 1).unwrap()
}

pub open spec fn all_tokens(tokens: Seq<Seq<char>>) -> bool {
    forall|i: int| 0 <= i < tokens.len() ==> is_token(#[trigger] tokens[i])
}

/// The symbols subscribed to on one channel, in the order of subscription.
pub struct ChannelGroup {
    pub channel: String,
    pub pairs: Vec<String>,
}

pub ghost struct GroupText {
    pub channel: Seq<char>,
    pub pairs: Seq<Seq<char>>,
}

impl View for ChannelGroup {
    type V = GroupText;

    open spec fn view(&self) -> GroupText {
        GroupText { channel: self.channel@, pairs: texts(self.pairs@) }
    }
}

pub open spec fn group_texts(groups: Seq<ChannelGroup>) -> Seq<GroupText> {
    groups.map_values(|g: ChannelGroup| g@)
}

/// Position of the first group at or after `from` that is for `channel`, or
/// the number of groups when there is none.
pub open spec fn position_from(groups: Seq<GroupText>, channel: Seq<char>, from: int) -> int
    decreases groups.len() - from,
{
    if from < 0 || from >= groups.len() {
        groups.len() as int
    } else if groups[from].channel == channel {
        from
    } else {
        position_from(groups, channel, from + 1)
    }
}

/// The groups after one more subscription: the symbol joins the group of its
/// channel, or opens a new group at the end.
pub open spec fn with_entry(groups: Seq<GroupText>, channel: Seq<char>, pair: Seq<char>) -> Seq<
    GroupText,
> {
    let at = position_from(groups, channel, 0);
    if at < groups.len() {
        groups.update(at, GroupText { channel, pairs: groups[at].pairs.push(pair) })
    } else {
        groups.push(GroupText { channel, pairs: seq![pair] })
    }
}

/// The tokens grouped by channel: channels in the order in which each first
/// occurs, the symbols of a channel in the order of the tokens.
pub open spec fn grouped(tokens: Seq<Seq<char>>) -> Seq<GroupText>
    decreases tokens.len(),
{
    if tokens.len() == 0 {
        Seq::empty()
    } else {
        with_entry(
            grouped(tokens.drop_last()),
            channel_of(tokens.last()),
            pair_of(tokens.last()),
        )
    }
}

/// The symbols of the tokens on `channel`, in order.
pub open spec fn pairs_on(tokens: Seq<Seq<char>>, channel: Seq<char>) -> Seq<Seq<char>>
    decreases tokens.len(),
{
    if tokens.len() == 0 {
        Seq::empty()
    } else {
        let before = pairs_on(tokens.drop_last(), channel);
        if channel_of(tokens.last()) == channel {
            before.push(pair_of(tokens.last()))
        } else {
            before
        }
    }
}

/// A token has a symbol exactly when it holds the delimiter.
pub proof fn lemma_token_has_pair(token: Seq<char>)
    ensures
        is_token(token) <==> field(token, CHANNEL_PAIR_DELIMITER, 1) is Some,
        field(token, CHANNEL_PAIR_DELIMITER, 0) is Some,
{
    lemma_field_end(token, CHANNEL_PAIR_DELIMITER, 0);
    reveal_with_fuel(field_from, 2);
}

/// Decoding an encoded subscription gives the channel and the symbol back,
/// provided neither holds the delimiter.
pub proof fn lemma_decode_encode(channel: Seq<char>, pair: Seq<char>)
    requires
        !channel.contains(CHANNEL_PAIR_DELIMITER),
        !pair.contains(CHANNEL_PAIR_DELIMITER),
    ensures
        is_token(token_of(channel, pair)),
        channel_of(token_of(channel, pair)) == channel,
        pair_of(token_of(channel, pair)) == pair,
{
    let token = token_of(channel, pair);
    assert(token[channel.len() as int] == CHANNEL_PAIR_DELIMITER);
    lemma_field_of_joined(channel, pair, CHANNEL_PAIR_DELIMITER);
    lemma_field_of_plain_text(pair, CHANNEL_PAIR_DELIMITER);
}

/// Whatever the symbol holds, an encoded subscription is a token and keeps
/// its channel, provided the channel holds no delimiter.
pub proof fn lemma_encoded_channel(channel: Seq<char>, pair: Seq<char>)
    requires
        !channel.contains(CHANNEL_PAIR_DELIMITER),
    ensures
        is_token(token_of(channel, pair)),
        channel_of(token_of(channel, pair)) == channel,
{
    let token = token_of(channel, pair);
    assert(token[channel.len() as int] == CHANNEL_PAIR_DELIMITER);
    lemma_field_of_joined(channel, pair, CHANNEL_PAIR_DELIMITER);
}

/// A list whose members all come from lists of tokens is a list of tokens.
pub proof fn lemma_members_are_tokens(part: Seq<Seq<char>>, a: Seq<Seq<char>>, b: Seq<Seq<char>>)
    requires
        all_tokens(a),
        all_tokens(b),
        forall|x: Seq<char>| #[trigger] part.contains(x) ==> a.contains(x) || b.contains(x),
    ensures
        all_tokens(part),
{
    assert forall|i: int| 0 <= i < part.len() implies is_token(#[trigger] part[i]) by {
        let x = part[i];
        assert(part.contains(x));
    }
}

/// Whether one of the groups is for `channel`.
pub open spec fn has_group(groups: Seq<GroupText>, channel: Seq<char>) -> bool {
    exists|i: int| 0 <= i < groups.len() && (#[trigger] groups[i]).channel == channel
}

/// `position_from` finds the first group of a channel: it is the number of
/// groups exactly when no group from `from` on is for the channel.
pub proof fn lemma_position_from(groups: Seq<GroupText>, channel: Seq<char>, from: int)
    requires
        0 <= from <= groups.len(),
    ensures
        from <= position_from(groups, channel, from) <= groups.len(),
        position_from(groups, channel, from) < groups.len() ==> groups[position_from(
            groups,
            channel,
            from,
        )].channel == channel,
        forall|k: int|
            from <= k < position_from(groups, channel, from) ==> (#[trigger] groups[k]).channel
                != channel,
    decreases groups.len() - from,
{
    if from < groups.len() && groups[from].channel != channel {
        lemma_position_from(groups, channel, from + 1);
    }
}

/// Tokens of other channels add no symbol to a channel.
pub proof fn lemma_pairs_on_absent_channel(tokens: Seq<Seq<char>>, channel: Seq<char>)
    requires
        forall|k: int| 0 <= k < tokens.len() ==> channel_of(#[trigger] tokens[k]) != channel,
    ensures
        pairs_on(tokens, channel) == Seq::<Seq<char>>::empty(),
    decreases tokens.len(),
{
    if tokens.len() > 0 {
        let rest = tokens.drop_last();
        assert forall|k: int| 0 <= k < rest.len() implies channel_of(#[trigger] rest[k])
            != channel by {
            assert(rest[k] == tokens[k]);
        }
        lemma_pairs_on_absent_channel(rest, channel);
    }
}

/// Grouping loses nothing and repeats nothing: no two groups are for the
/// same channel; a group holds exactly the symbols of the tokens on its
/// channel, in their order, and at least one; and the channel of every token
/// has its group.
pub proof fn lemma_grouped(tokens: Seq<Seq<char>>)
    ensures
        forall|i: int, j: int|
            0 <= i < j < grouped(tokens).len() ==> (#[trigger] grouped(tokens)[i]).channel != (
            #[trigger] grouped(tokens)[j]).channel,
        forall|i: int|
            0 <= i < grouped(tokens).len() ==> (#[trigger] grouped(tokens)[i]).pairs == pairs_on(
                tokens,
                grouped(tokens)[i].channel,
            ) && grouped(tokens)[i].pairs.len() > 0,
        forall|k: int|
            0 <= k < tokens.len() ==> has_group(grouped(tokens), channel_of(#[trigger] tokens[k])),
    decreases tokens.len(),
{
    if tokens.len() > 0 {
        let rest = tokens.drop_last();
        let channel = channel_of(tokens.last());
        let before = grouped(rest);
        let after = grouped(tokens);
        let at = position_from(before, channel, 0);
        lemma_grouped(rest);
        lemma_position_from(before, channel, 0);
        assert forall|k: int| 0 <= k < rest.len() implies rest[k] == tokens[k] by {}
        if at < before.len() {
            // The symbol joins group `at`, and every channel stays in place.
            assert forall|i: int| 0 <= i < after.len() implies (#[trigger] after[i]).channel
                == before[i].channel by {}
            assert forall|k: int| 0 <= k < tokens.len() implies has_group(
                after,
                channel_of(#[trigger] tokens[k]),
            ) by {
                let i = if k < rest.len() {
                    choose|i: int|
                        0 <= i < before.len() && (#[trigger] before[i]).channel == channel_of(
                            rest[k],
                        )
                } else {
                    at
                };
                assert(after[i].channel == channel_of(tokens[k]));
            }
        } else {
            // No token so far is on this channel, and the symbol opens a group.
            assert forall|k: int| 0 <= k < rest.len() implies channel_of(#[trigger] rest[k])
                != channel by {
                let i = choose|i: int|
                    0 <= i < before.len() && (#[trigger] before[i]).channel == channel_of(rest[k]);
                assert(before[i].channel != channel);
            }
            lemma_pairs_on_absent_channel(rest, channel);
            assert forall|i: int| 0 <= i < before.len() implies (#[trigger] after[i])
                == before[i] by {}
            assert forall|k: int| 0 <= k < tokens.len() implies has_group(
                after,
                channel_of(#[trigger] tokens[k]),
            ) by {
                let i = if k < rest.len() {
                    choose|i: int|
                        0 <= i < before.len() && (#[trigger] before[i]).channel == channel_of(
                            rest[k],
                        )
                } else {
                    before.len() as int
                };
                assert(after[i].channel == channel_of(tokens[k]));
            }
        }
    }
}

/// Encodes a subscription as a token.
pub fn encode(channel: &str, pair: &str) -> (token: String)
    ensures
        token@ == token_of(channel@, pair@),
{
    let mut token = channel.to_owned();
    proof {
        reveal_strlit(":");
    }
    token.append(":");
    token.append(pair);
    token
}

/// Tests whether a text holds the delimiter.
pub fn holds_delimiter(token: &str) -> (r: bool)
    ensures
        r == is_token(token@),
{
    let chars = chars_of(token);
    let end = find_field_end(&chars, CHANNEL_PAIR_DELIMITER, 0);
    proof {
        lemma_field_end(token@, CHANNEL_PAIR_DELIMITER, 0);
    }
    end < chars.len()
}

/// Splits a token into its channel and its symbol.
pub fn split_token(token: &str) -> (r: (String, String))
    requires
        is_token(token@),
    ensures
        r.0@ == channel_of(token@),
        r.1@ == pair_of(token@),
{
    let chars = chars_of(token);
    let end = find_field_end(&chars, CHANNEL_PAIR_DELIMITER, 0);
    proof {
        lemma_field_end(token@, CHANNEL_PAIR_DELIMITER, 0);
        reveal_with_fuel(field_from, 2);
    }
    let stop = find_field_end(&chars, CHANNEL_PAIR_DELIMITER, end + 1);
    let channel = token.substring_char(0, end).to_owned();
    let pair = token.substring_char(end + 1, stop).to_owned();
    (channel, pair)
}

/// Decodes a token; `None` where the text holds no delimiter.
pub fn decode(token: &str) -> (r: Option<(String, String)>)
    ensures
        r is Some <==> is_token(token@),
        r matches Some(parts) ==> parts.0@ == channel_of(token@) && parts.1@ == pair_of(token@),
{
    if holds_delimiter(token) {
        Some(split_token(token))
    } else {
        None
    }
}

/// Tests whether every text of a list is a token.
pub fn all_hold_delimiter(tokens: &[String]) -> (r: bool)
    ensures
        r == all_tokens(texts(tokens@)),
{
    let mut i: usize = 0;
    while i < tokens.len()
        invariant
            i <= tokens.len(),
            forall|j: int| 0 <= j < i ==> is_token(#[trigger] texts(tokens@)[j]),
        decreases tokens.len() - i,
    {
        if !holds_delimiter(tokens[i].as_str()) {
            assert(!is_token(texts(tokens@)[i as int]));
            return false;
        }
        i += 1;
    }
    true
}

/// Finds the group of a channel.
pub fn find_group(groups: &Vec<ChannelGroup>, channel: &String) -> (at: usize)
    ensures
        at == position_from(group_texts(groups@), channel@, 0),
        at <= groups.len(),
        at < groups.len() ==> groups@[at as int].channel@ == channel@,
{
    let mut i: usize = 0;
    while i < groups.len() && groups[i].channel != *channel
        invariant
            i <= groups.len(),
            position_from(group_texts(groups@), channel@, 0) == position_from(
                group_texts(groups@),
                channel@,
                i as int,
            ),
        decreases groups.len() - i,
    {
        i += 1;
    }
    i
}

/// Adds one subscription to the groups.
pub fn add_entry(groups: &mut Vec<ChannelGroup>, channel: String, pair: String)
    ensures
        group_texts(final(groups)@) == with_entry(group_texts(old(groups)@), channel@, pair@),
{
    let at = find_group(groups, &channel);
    if at < groups.len() {
        let ghost before = groups@;
        groups[at].pairs.push(pair);
        assert(texts(groups@[at as int].pairs@) =~= texts(before[at as int].pairs@).push(pair@));
    } else {
        let mut pairs: Vec<String> = Vec::new();
        pairs.push(pair);
        assert(texts(pairs@) =~= seq![pair@]);
        groups.push(ChannelGroup { channel, pairs });
    }
}

/// Groups tokens by channel.
pub fn group_channels(tokens: &[String]) -> (groups: Vec<ChannelGroup>)
    requires
        all_tokens(texts(tokens@)),
    ensures
        group_texts(groups@) == grouped(texts(tokens@)),
{
    let mut groups: Vec<ChannelGroup> = Vec::new();
    let mut i: usize = 0;
    while i < tokens.len()
        invariant
            i <= tokens.len(),
            all_tokens(texts(tokens@)),
            group_texts(groups@) == grouped(texts(tokens@).take(i as int)),
        decreases tokens.len() - i,
    {
        assert(is_token(texts(tokens@)[i as int]));
        let (channel, pair) = split_token(tokens[i].as_str());
        add_entry(&mut groups, channel, pair);
        proof {
            let upto = texts(tokens@).take(i + 1);
            assert(upto.drop_last() =~= texts(tokens@).take(i as int));
        }
        i += 1;
    }
    assert(texts(tokens@).take(tokens@.len() as int) =~= texts(tokens@));
    groups
}

} // verus!
