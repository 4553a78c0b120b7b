//! The live subscription set: an ordered list of tokens in which none occurs
//! twice, with the two operations that change it.

use crate::text::texts;
use vstd::prelude::*;
use vstd::seq_lib::{lemma_seq_concat_contains_all_elements, lemma_seq_contains_after_push};

verus! {

/// Position of the first `token` at or after `from`, or the length of the
/// list when there is none.
pub open spec fn index_from(list: Seq<Seq<char>>, token: Seq<char>, from: int) -> int
    decreases list.len() - from,
{
    if from < 0 || from >= list.len() {
        list.len() as int
    } else if list[from] == token {
        from
    } else {
        index_from(list, token, from + 1)
    }
}

/// The set after a subscribe request: each requested token that is not yet
/// in the set joins it at the end, once, in the order of the request.
pub open spec fn merged(channels: Seq<Seq<char>>, tokens: Seq<Seq<char>>) -> Seq<Seq<char>>
    decreases tokens.len(),
{
    if tokens.len() == 0 {
        channels
    } else {
        let before = merged(channels, tokens.drop_last());
        if before.contains(tokens.last()) {
            before
        } else {
            before.push(tokens.last())
        }
    }
}

/// What a subscribe request adds to the set.
pub open spec fn newly_added(channels: Seq<Seq<char>>, tokens: Seq<Seq<char>>) -> Seq<Seq<char>> {
    merged(channels, tokens).skip(channels.len() as int)
}

/// The list without the first occurrence of `token`.
pub open spec fn without_token(list: Seq<Seq<char>>, token: Seq<char>) -> Seq<Seq<char>> {
    let at = index_from(list, token, 0);
    if at < list.len() {
        list.remove(at)
    } else {
        list
    }
}

/// The set after an unsubscribe request: every requested token has left it.
pub open spec fn without(channels: Seq<Seq<char>>, tokens: Seq<Seq<char>>) -> Seq<Seq<char>>
    decreases tokens.len(),
{
    if tokens.len() == 0 {
        channels
    } else {
        without_token(without(channels, tokens.drop_last()), tokens.last())
    }
}

/// What an unsubscribe request takes out of the set: each requested token
/// that was in it, once, in the order of the request.
pub open spec fn newly_removed(channels: Seq<Seq<char>>, tokens: Seq<Seq<char>>) -> Seq<Seq<char>>
    decreases tokens.len(),
{
    if tokens.len() == 0 {
        Seq::empty()
    } else {
        let before = newly_removed(channels, tokens.drop_last());
        if without(channels, tokens.drop_last()).contains(tokens.last()) {
            before.push(tokens.last())
        } else {
            before
        }
    }
}

/// `index_from` finds the first occurrence: it is the length exactly when
/// the token does not occur from `from` on.
pub proof fn lemma_index_from(list: Seq<Seq<char>>, token: Seq<char>, from: int)
    requires
        0 <= from <= list.len(),
    ensures
        from <= index_from(list, token, from) <= list.len(),
        index_from(list, token, from) < list.len() ==> list[index_from(list, token, from)] == token,
        forall|k: int| from <= k < index_from(list, token, from) ==> list[k] != token,
    decreases list.len() - from,
{
    if from < list.len() && list[from] != token {
        lemma_index_from(list, token, from + 1);
    }
}

/// A list without duplicates stays so when it is given a member that it
/// does not hold.
proof fn lemma_push_keeps_distinct(list: Seq<Seq<char>>, token: Seq<char>)
    requires
        list.no_duplicates(),
        !list.contains(token),
    ensures
        list.push(token).no_duplicates(),
{
    let longer = list.push(token);
    assert forall|i: int, j: int|
        0 <= i < longer.len() && 0 <= j < longer.len() && i != j implies longer[i] != longer[j] by {
        if i < list.len() {
            assert(list.contains(list[i]));
        }
        if j < list.len() {
            assert(list.contains(list[j]));
        }
    }
}

/// A subscribe request keeps what was in the set, in place; adds nothing
/// twice; and leaves in the set exactly what was there or was requested.
pub proof fn lemma_merged(channels: Seq<Seq<char>>, tokens: Seq<Seq<char>>)
    ensures
        channels.len() <= merged(channels, tokens).len(),
        merged(channels, tokens).take(channels.len() as int) == channels,
        channels.no_duplicates() ==> merged(channels, tokens).no_duplicates(),
        forall|x: Seq<char>| #[trigger]
            merged(channels, tokens).contains(x) <==> channels.contains(x) || tokens.contains(x),
    decreases tokens.len(),
{
    if tokens.len() > 0 {
        let rest = tokens.drop_last();
        let last = tokens.last();
        let before = merged(channels, rest);
        let after = merged(channels, tokens);
        lemma_merged(channels, rest);
        assert(tokens =~= rest.push(last));
        assert(after.take(channels.len() as int) =~= before.take(channels.len() as int));
        assert forall|x: Seq<char>| #[trigger]
            after.contains(x) <==> channels.contains(x) || tokens.contains(x) by {
            lemma_seq_contains_after_push(rest, last, x);
            lemma_seq_contains_after_push(before, last, x);
        }
        if channels.no_duplicates() && !before.contains(last) {
            lemma_push_keeps_distinct(before, last);
        }
    }
}

/// A request for tokens that are all in the set changes nothing.
pub proof fn lemma_merged_of_members(channels: Seq<Seq<char>>, tokens: Seq<Seq<char>>)
    requires
        forall|x: Seq<char>| tokens.contains(x) ==> channels.contains(x),
    ensures
        merged(channels, tokens) == channels,
    decreases tokens.len(),
{
    if tokens.len() > 0 {
        let rest = tokens.drop_last();
        let last = tokens.last();
        assert(tokens =~= rest.push(last));
        assert forall|x: Seq<char>| rest.contains(x) implies channels.contains(x) by {
            lemma_seq_contains_after_push(rest, last, x);
        }
        lemma_merged_of_members(channels, rest);
        lemma_seq_contains_after_push(rest, last, last);
    }
}

/// Asking again for what was just asked for changes nothing.
pub proof fn lemma_merged_again(channels: Seq<Seq<char>>, tokens: Seq<Seq<char>>)
    ensures
        merged(merged(channels, tokens), tokens) == merged(channels, tokens),
{
    lemma_merged(channels, tokens);
    lemma_merged_of_members(merged(channels, tokens), tokens);
}

/// What a subscribe request adds was requested, was not in the set, and
/// holds nothing twice.
pub proof fn lemma_newly_added(channels: Seq<Seq<char>>, tokens: Seq<Seq<char>>)
    requires
        channels.no_duplicates(),
    ensures
        merged(channels, tokens) == channels + newly_added(channels, tokens),
        newly_added(channels, tokens).no_duplicates(),
        forall|x: Seq<char>| #[trigger]
            newly_added(channels, tokens).contains(x) <==> tokens.contains(x)
                && !channels.contains(x),
{
    let all = merged(channels, tokens);
    let added = newly_added(channels, tokens);
    let n = channels.len() as int;
    lemma_merged(channels, tokens);
    assert(all =~= channels + added);
    assert forall|i: int, j: int|
        0 <= i < added.len() && 0 <= j < added.len() && i != j implies added[i] != added[j] by {
        assert(added[i] == all[n + i] && added[j] == all[n + j]);
    }
    assert forall|x: Seq<char>| #[trigger]
        added.contains(x) <==> tokens.contains(x) && !channels.contains(x) by {
        lemma_seq_concat_contains_all_elements(channels, added, x);
        if added.contains(x) && channels.contains(x) {
            let k = choose|k: int| 0 <= k < added.len() && added[k] == x;
            let c = choose|c: int| 0 <= c < channels.len() && channels[c] == x;
            assert(all[c] == x && all[n + k] == x);
        }
    }
}

/// Taking a token out of a list without duplicates leaves the others, and
/// the token is gone.
pub proof fn lemma_without_token(list: Seq<Seq<char>>, token: Seq<char>)
    requires
        list.no_duplicates(),
    ensures
        without_token(list, token).no_duplicates(),
        forall|x: Seq<char>| #[trigger]
            without_token(list, token).contains(x) <==> list.contains(x) && x != token,
{
    let at = index_from(list, token, 0);
    let rest = without_token(list, token);
    lemma_index_from(list, token, 0);
    if at < list.len() {
        assert forall|i: int, j: int|
            0 <= i < rest.len() && 0 <= j < rest.len() && i != j implies rest[i] != rest[j] by {
            let from_i = if i < at { i } else { i + 1 };
            let from_j = if j < at { j } else { j + 1 };
            assert(rest[i] == list[from_i] && rest[j] == list[from_j]);
        }
        assert forall|x: Seq<char>| #[trigger]
            rest.contains(x) <==> list.contains(x) && x != token by {
            if rest.contains(x) {
                let k = choose|k: int| 0 <= k < rest.len() && rest[k] == x;
                let from_k = if k < at { k } else { k + 1 };
                assert(list[from_k] == x);
            }
            if list.contains(x) && x != token {
                let k = choose|k: int| 0 <= k < list.len() && list[k] == x;
                let to_k = if k < at { k } else { k - 1 };
                assert(rest[to_k] == x);
            }
        }
    } else {
        assert forall|x: Seq<char>| list.contains(x) implies x != token by {
            let k = choose|k: int| 0 <= k < list.len() && list[k] == x;
            assert(list[k] != token);
        }
    }
}

/// An unsubscribe request leaves in the set exactly what was there and was
/// not requested, and brings in no duplicate.
pub proof fn lemma_without(channels: Seq<Seq<char>>, tokens: Seq<Seq<char>>)
    requires
        channels.no_duplicates(),
    ensures
        without(channels, tokens).no_duplicates(),
        forall|x: Seq<char>| #[trigger]
            without(channels, tokens).contains(x) <==> channels.contains(x) && !tokens.contains(x),
    decreases tokens.len(),
{
    if tokens.len() > 0 {
        let rest = tokens.drop_last();
        let last = tokens.last();
        lemma_without(channels, rest);
        lemma_without_token(without(channels, rest), last);
        assert(tokens =~= rest.push(last));
        assert forall|x: Seq<char>| #[trigger]
            without(channels, tokens).contains(x) <==> channels.contains(x)
                && !tokens.contains(x) by {
            lemma_seq_contains_after_push(rest, last, x);
        }
    }
}

/// What an unsubscribe request takes out was in the set and was requested,
/// and holds nothing twice.
pub proof fn lemma_newly_removed(channels: Seq<Seq<char>>, tokens: Seq<Seq<char>>)
    requires
        channels.no_duplicates(),
    ensures
        newly_removed(channels, tokens).no_duplicates(),
        forall|x: Seq<char>| #[trigger]
            newly_removed(channels, tokens).contains(x) <==> channels.contains(x)
                && tokens.contains(x),
    decreases tokens.len(),
{
    if tokens.len() > 0 {
        let rest = tokens.drop_last();
        let last = tokens.last();
        let before = newly_removed(channels, rest);
        let after = newly_removed(channels, tokens);
        lemma_newly_removed(channels, rest);
        lemma_without(channels, rest);
        assert(tokens =~= rest.push(last));
        assert forall|x: Seq<char>| #[trigger]
            after.contains(x) <==> channels.contains(x) && tokens.contains(x) by {
            lemma_seq_contains_after_push(rest, last, x);
            lemma_seq_contains_after_push(before, last, x);
        }
        if without(channels, rest).contains(last) {
            lemma_push_keeps_distinct(before, last);
        }
    }
}

/// Finds a token in a list.
pub fn find_token(list: &Vec<String>, token: &String) -> (at: usize)
    ensures
        at == index_from(texts(list@), token@, 0),
        at <= list.len(),
        at < list.len() <==> texts(list@).contains(token@),
{
    let mut i: usize = 0;
    while i < list.len() && list[i] != *token
        invariant
            i <= list.len(),
            index_from(texts(list@), token@, 0) == index_from(texts(list@), token@, i as int),
            forall|j: int| 0 <= j < i ==> texts(list@)[j] != token@,
        decreases list.len() - i,
    {
        i += 1;
    }
    i
}

/// Adds the requested tokens to the set and returns those that were new.
pub fn merge_tokens(channels: &mut Vec<String>, tokens: &[String]) -> (added: Vec<String>)
    ensures
        texts(final(channels)@) == merged(texts(old(channels)@), texts(tokens@)),
        texts(added@) == newly_added(texts(old(channels)@), texts(tokens@)),
        texts(old(channels)@).no_duplicates() ==> texts(final(channels)@).no_duplicates(),
{
    let ghost start = texts(channels@);
    let mut added: Vec<String> = Vec::new();
    let mut i: usize = 0;
    while i < tokens.len()
        invariant
            i <= tokens.len(),
            texts(channels@) == merged(start, texts(tokens@).take(i as int)),
            texts(added@) == texts(channels@).skip(start.len() as int),
            start.len() <= channels@.len(),
        decreases tokens.len() - i,
    {
        let ghost before_added = texts(added@);
        let at = find_token(channels, &tokens[i]);
        if at == channels.len() {
            channels.push(tokens[i].clone());
            added.push(tokens[i].clone());
            proof {
                assert(texts(added@) =~= before_added.push(tokens@[i as int]@));
            }
        }
        proof {
            let upto = texts(tokens@).take(i + 1);
            assert(upto.drop_last() =~= texts(tokens@).take(i as int));
        }
        i += 1;
    }
    proof {
        assert(texts(tokens@).take(tokens@.len() as int) =~= texts(tokens@));
        lemma_merged(start, texts(tokens@));
    }
    added
}

/// Takes the requested tokens out of the set and returns those that were in
/// it.
pub fn remove_tokens(channels: &mut Vec<String>, tokens: &[String]) -> (removed: Vec<String>)
    ensures
        texts(final(channels)@) == without(texts(old(channels)@), texts(tokens@)),
        texts(removed@) == newly_removed(texts(old(channels)@), texts(tokens@)),
        texts(old(channels)@).no_duplicates() ==> texts(final(channels)@).no_duplicates(),
{
    let ghost start = texts(channels@);
    let mut removed: Vec<String> = Vec::new();
    let mut i: usize = 0;
    while i < tokens.len()
        invariant
            i <= tokens.len(),
            texts(channels@) == without(start, texts(tokens@).take(i as int)),
            texts(removed@) == newly_removed(start, texts(tokens@).take(i as int)),
        decreases tokens.len() - i,
    {
        let at = find_token(channels, &tokens[i]);
        if at < channels.len() {
            channels.remove(at);
            removed.push(tokens[i].clone());
        }
        proof {
            let upto = texts(tokens@).take(i + 1);
            assert(upto.drop_last() =~= texts(tokens@).take(i as int));
        }
        i += 1;
    }
    proof {
        assert(texts(tokens@).take(tokens@.len() as int) =~= texts(tokens@));
        if start.no_duplicates() {
            lemma_without(start, texts(tokens@));
        }
    }
    removed
}

} // verus!
