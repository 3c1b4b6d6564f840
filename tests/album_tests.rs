use emoji_album::album::Album;
use emoji_album::command::{emojis, handle_message, roll, Command, ROLL_SIZE};
use emoji_album::pool::Pool;
use emoji_album::render::{join_reversed, render, roll_reply};
use emoji_album::store::Store;

fn strings(items: &[&str]) -> Vec<String> {
    items.iter().map(|s| s.to_string()).collect()
}

fn pairs(items: &[(&str, usize)]) -> Vec<(String, usize)> {
    items.iter().map(|(s, n)| (s.to_string(), *n)).collect()
}

fn letter_pool() -> Pool {
    Pool::from_items(strings(&["a", "b", "c", "d", "e"])).unwrap()
}

#[test]
fn roll_reply_reverses_draw_order() {
    let reply = roll_reply(&strings(&["a", "b", "c", "d", "e"]));
    assert_eq!(reply, "You have rolled: edcba");
}

#[test]
fn roll_merges_and_replies() {
    let mut store = Store::new();
    let user = "42".to_string();
    let reply = roll(&mut store, &user, &strings(&["a", "b", "c", "d", "e"]));
    assert_eq!(reply, Some("You have rolled: edcba".to_string()));
    assert_eq!(
        store.get(&user),
        Some(pairs(&[("a", 1), ("b", 1), ("c", 1), ("d", 1), ("e", 1)]))
    );
}

#[test]
fn render_reverses_and_pads() {
    assert_eq!(render(&pairs(&[("a", 2), ("b", 1)])), "b   aa   ");
}

#[test]
fn render_empty_album() {
    assert_eq!(render(&Vec::new()), "");
}

#[test]
fn join_reversed_concatenates_backwards() {
    assert_eq!(join_reversed(&strings(&["x", "yy", "z"])), "zyyx");
    assert_eq!(join_reversed(&Vec::new()), "");
}

#[test]
fn get_without_merges_is_none() {
    let store = Store::new();
    assert_eq!(store.get(&"nobody".to_string()), None);
}

#[test]
fn merge_of_nothing_creates_empty_album() {
    let mut store = Store::new();
    let user = "u".to_string();
    assert!(store.merge(&user, &Vec::new()));
    assert_eq!(store.get(&user), Some(Vec::new()));
}

#[test]
fn merge_counts_every_draw() {
    let mut store = Store::new();
    let user = "u".to_string();
    assert!(store.merge(&user, &strings(&["a", "b", "a"])));
    assert!(store.merge(&user, &strings(&["c", "a", "b"])));
    assert_eq!(store.get(&user), Some(pairs(&[("a", 3), ("b", 2), ("c", 1)])));
}

#[test]
fn first_seen_order_is_kept() {
    let mut store = Store::new();
    let user = "u".to_string();
    assert!(store.merge(&user, &strings(&["x", "y"])));
    assert!(store.merge(&user, &strings(&["z", "y", "y", "x"])));
    let entry = store.get(&user).unwrap();
    let keys: Vec<&str> = entry.iter().map(|(k, _)| k.as_str()).collect();
    assert_eq!(keys, vec!["x", "y", "z"]);
}

#[test]
fn users_are_kept_apart() {
    let mut store = Store::new();
    let alice = "alice".to_string();
    let bob = "bob".to_string();
    assert!(store.merge(&alice, &strings(&["a"])));
    assert!(store.merge(&bob, &strings(&["b", "b"])));
    assert_eq!(store.get(&alice), Some(pairs(&[("a", 1)])));
    assert_eq!(store.get(&bob), Some(pairs(&[("b", 2)])));
}

#[test]
fn many_single_merges_lose_nothing() {
    let mut store = Store::new();
    let user = "u".to_string();
    let n: usize = 1000;
    for i in 0..n {
        assert!(store.merge(&user, &vec![format!("item{}", i % 10)]));
    }
    let entry = store.get(&user).unwrap();
    assert_eq!(entry.len(), 10);
    assert_eq!(entry.iter().map(|(_, c)| *c).sum::<usize>(), n);
    assert!(entry.iter().all(|(_, c)| *c == n / 10));
}

#[test]
fn album_merge_and_entries() {
    let mut album = Album::new();
    assert_eq!(album.len(), 0);
    assert!(album.merge(&strings(&["p", "q", "p"])));
    assert_eq!(album.len(), 2);
    assert!(album.has_room_for(5));
    assert_eq!(album.entries(), pairs(&[("p", 2), ("q", 1)]));
}

#[test]
fn sample_draws_distinct_pool_positions() {
    let pool = letter_pool();
    for n in 0..=5 {
        let drawn = pool.sample(n).unwrap();
        assert_eq!(drawn.len(), n);
        for item in &drawn {
            assert!(pool.items().contains(item));
        }
        let mut sorted = drawn.clone();
        sorted.sort();
        sorted.dedup();
        assert_eq!(sorted.len(), n);
    }
}

#[test]
fn sample_of_small_pool_returns_all() {
    let pool = Pool::from_items(strings(&["a", "b", "c"])).unwrap();
    let mut drawn = pool.sample(ROLL_SIZE).unwrap();
    drawn.sort();
    assert_eq!(drawn, strings(&["a", "b", "c"]));
}

#[test]
fn sample_of_huge_count_returns_whole_pool() {
    let pool = letter_pool();
    assert_eq!(pool.sample(usize::MAX).unwrap().len(), 5);
}

#[test]
fn load_trims_unicode_white_space_only() {
    let pool = Pool::load("a\nb\u{3000}\u{a0}\u{85}").unwrap();
    assert_eq!(pool.items(), &strings(&["a", "b"]));
    let pool = Pool::load("a\u{200b}").unwrap();
    assert_eq!(pool.items(), &strings(&["a\u{200b}"]));
}

#[test]
fn pick_takes_given_positions() {
    let pool = letter_pool();
    assert_eq!(pool.pick(&vec![4, 0, 2]), strings(&["e", "a", "c"]));
}

#[test]
fn pool_from_no_items_is_none() {
    assert!(Pool::from_items(Vec::new()).is_none());
}

#[test]
fn load_splits_lines_and_trims_the_end() {
    let pool = Pool::load("a\nb  \n\t\n").unwrap();
    assert_eq!(pool.items(), &strings(&["a", "b"]));
    assert_eq!(pool.len(), 2);
}

#[test]
fn load_keeps_inner_blank_lines() {
    let pool = Pool::load("x\n\ny").unwrap();
    assert_eq!(pool.items(), &strings(&["x", "", "y"]));
}

#[test]
fn load_of_blank_text_is_none() {
    assert!(Pool::load("").is_none());
    assert!(Pool::load(" \n\n ").is_none());
}

#[test]
fn from_trimmed_splits_on_line_feeds() {
    let pool = Pool::from_trimmed("a\nb").unwrap();
    assert_eq!(pool.items(), &strings(&["a", "b"]));
    assert!(Pool::from_trimmed("").is_none());
}

#[test]
fn from_message_recognises_commands() {
    assert_eq!(Command::from_message("/roll"), Some(Command::Roll));
    assert_eq!(Command::from_message("/emojis"), Some(Command::Emojis));
    assert_eq!(Command::from_message("/rolls"), None);
    assert_eq!(Command::from_message("hello"), None);
}

#[test]
fn unknown_command_is_ignored() {
    let pool = letter_pool();
    let mut store = Store::new();
    let user = "u".to_string();
    assert!(store.merge(&user, &strings(&["a"])));
    assert_eq!(handle_message(&mut store, &pool, &user, "/dance"), None);
    assert_eq!(handle_message(&mut store, &pool, &"v".to_string(), "hi"), None);
    assert_eq!(store.get(&user), Some(pairs(&[("a", 1)])));
    assert_eq!(store.get(&"v".to_string()), None);
}

#[test]
fn emojis_without_album_prompts_to_roll() {
    let store = Store::new();
    assert_eq!(
        emojis(&store, &"u".to_string()),
        "You still have no emojis! Type /roll to get some!"
    );
}

#[test]
fn emojis_shows_album() {
    let mut store = Store::new();
    let user = "u".to_string();
    assert!(store.merge(&user, &strings(&["a", "b", "a"])));
    assert_eq!(emojis(&store, &user), "Your emojis:\n\nb   aa   ");
}

#[test]
fn roll_message_draws_whole_letter_pool() {
    let pool = letter_pool();
    let mut store = Store::new();
    let user = "u".to_string();
    let reply = handle_message(&mut store, &pool, &user, "/roll").unwrap();
    let drawn = reply.strip_prefix("You have rolled: ").unwrap();
    let mut letters: Vec<char> = drawn.chars().collect();
    letters.sort();
    assert_eq!(letters, vec!['a', 'b', 'c', 'd', 'e']);
    let entry = store.get(&user).unwrap();
    assert_eq!(entry.len(), 5);
    assert!(entry.iter().all(|(_, c)| *c == 1));
    let order: String = entry.iter().rev().map(|(k, _)| k.as_str()).collect();
    assert_eq!(order, drawn);
    let shown = handle_message(&mut store, &pool, &user, "/emojis").unwrap();
    assert!(shown.starts_with("Your emojis:\n\n"));
}
