use crypto_feed::subscription::{
    add_entry, all_hold_delimiter, decode, encode, find_group, group_channels, holds_delimiter,
    split_token, ChannelGroup, CHANNEL_PAIR_DELIMITER,
};
use crypto_feed::token_set::{find_token, merge_tokens, remove_tokens};

fn list(items: &[&str]) -> Vec<String> {
    items.iter().map(|s| s.to_string()).collect()
}

fn plain(groups: &[ChannelGroup]) -> Vec<(String, Vec<String>)> {
    groups.iter().map(|g| (g.channel.clone(), g.pairs.clone())).collect()
}

#[test]
fn test_delimiter() {
    assert_eq!(':', CHANNEL_PAIR_DELIMITER);
}

#[test]
fn test_encode() {
    assert_eq!("matches:BTC-USD", encode("matches", "BTC-USD"));
    assert_eq!(":", encode("", ""));
    assert_eq!("a:b:c", encode("a", "b:c"));
}

#[test]
fn test_decode() {
    assert_eq!(
        Some(("matches".to_string(), "BTC-USD".to_string())),
        decode("matches:BTC-USD")
    );
    assert_eq!(Some((String::new(), String::new())), decode(":"));
    assert_eq!(Some(("a".to_string(), "b".to_string())), decode("a:b:c"));
    assert_eq!(Some(("a".to_string(), String::new())), decode("a::c"));
    assert_eq!(None, decode("matches"));
    assert_eq!(None, decode(""));
}

#[test]
fn test_decode_gives_back_what_was_encoded() {
    for (channel, pair) in [("matches", "BTC-USD"), ("ticker", "ETH-USD"), ("", "x"), ("x", "")] {
        assert_eq!(
            Some((channel.to_string(), pair.to_string())),
            decode(&encode(channel, pair))
        );
    }
}

#[test]
fn test_split_token() {
    assert_eq!(
        ("ticker".to_string(), "BTC-USD".to_string()),
        split_token("ticker:BTC-USD")
    );
    assert_eq!(("é".to_string(), "ü".to_string()), split_token("é:ü"));
}

#[test]
fn test_holds_delimiter() {
    assert!(holds_delimiter("a:b"));
    assert!(holds_delimiter(":"));
    assert!(!holds_delimiter("ab"));
    assert!(!holds_delimiter(""));
    assert!(all_hold_delimiter(&list(&["a:b", "c:d"])));
    assert!(all_hold_delimiter(&list(&[])));
    assert!(!all_hold_delimiter(&list(&["a:b", "cd"])));
}

#[test]
fn test_group_channels() {
    let groups = group_channels(&list(&["a:1", "b:2", "a:3", "c:4", "b:5", "a:1"]));
    assert_eq!(
        vec![
            ("a".to_string(), list(&["1", "3", "1"])),
            ("b".to_string(), list(&["2", "5"])),
            ("c".to_string(), list(&["4"])),
        ],
        plain(&groups)
    );
    assert!(group_channels(&list(&[])).is_empty());
}

#[test]
fn test_find_group_and_add_entry() {
    let mut groups: Vec<ChannelGroup> = Vec::new();
    assert_eq!(0, find_group(&groups, &"a".to_string()));
    add_entry(&mut groups, "a".to_string(), "1".to_string());
    add_entry(&mut groups, "b".to_string(), "2".to_string());
    add_entry(&mut groups, "a".to_string(), "3".to_string());
    assert_eq!(0, find_group(&groups, &"a".to_string()));
    assert_eq!(1, find_group(&groups, &"b".to_string()));
    assert_eq!(2, find_group(&groups, &"c".to_string()));
    assert_eq!(
        vec![("a".to_string(), list(&["1", "3"])), ("b".to_string(), list(&["2"]))],
        plain(&groups)
    );
}

#[test]
fn test_find_token() {
    let set = list(&["a:1", "b:2", "c:3"]);
    assert_eq!(0, find_token(&set, &"a:1".to_string()));
    assert_eq!(2, find_token(&set, &"c:3".to_string()));
    assert_eq!(3, find_token(&set, &"d:4".to_string()));
    assert_eq!(0, find_token(&list(&[]), &"a:1".to_string()));
}

#[test]
fn test_merge_tokens() {
    let mut set = list(&["a:1", "b:2"]);
    let added = merge_tokens(&mut set, &list(&["c:3", "a:1", "c:3", "d:4"]));
    assert_eq!(list(&["c:3", "d:4"]), added);
    assert_eq!(list(&["a:1", "b:2", "c:3", "d:4"]), set);
    let again = merge_tokens(&mut set, &list(&["c:3", "a:1", "c:3", "d:4"]));
    assert!(again.is_empty());
    assert_eq!(list(&["a:1", "b:2", "c:3", "d:4"]), set);
}

#[test]
fn test_remove_tokens() {
    let mut set = list(&["a:1", "b:2", "c:3", "d:4"]);
    let removed = remove_tokens(&mut set, &list(&["d:4", "x:0", "b:2", "d:4"]));
    assert_eq!(list(&["d:4", "b:2"]), removed);
    assert_eq!(list(&["a:1", "c:3"]), set);
    let none = remove_tokens(&mut set, &list(&[]));
    assert!(none.is_empty());
    assert_eq!(list(&["a:1", "c:3"]), set);
}
