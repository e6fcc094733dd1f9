use chat_node::channel::ChannelStore;
use chat_node::channel::DeleteCommentParam;
use chat_node::channel::GetThreadParam;
use chat_node::channel::ToggleMetadataParam;
use chat_node::channel::UpsertCommentParam;
use chat_node::channel::delete_comment;
use chat_node::channel::get_thread;
use chat_node::channel::toggle_metadata;
use chat_node::channel::upsert_comment;
use chat_node::page::Page;
use chat_node::thread::md_contains;

fn upsert(
    store: &mut ChannelStore,
    channel: &str,
    id: &str,
    msg: &str,
    parent: Option<&str>,
    user: &str,
) -> String {
    let param = UpsertCommentParam {
        channel_id: channel.to_string(),
        message: msg.to_string(),
        comment_id: id.to_string(),
        parent_id: parent.map(|p| p.to_string()),
    };
    upsert_comment(store, &param, &user.to_string(), 7)
}

fn page(store: &mut ChannelStore, channel: &str, limit: u8, cursor: Option<&str>) -> Page {
    let param = GetThreadParam {
        limit,
        channel_id: channel.to_string(),
        cursor: cursor.map(|c| c.to_string()),
    };
    get_thread(store, &param)
}

fn ids(p: &Page) -> Vec<String> {
    p.comments.iter().map(|c| c.id.clone()).collect()
}

#[test]
fn upsert_then_lookup_finds_latest_content() {
    let mut store = ChannelStore::new();
    assert_eq!(upsert(&mut store, "ch", "a", "first", None, "u1"), "a");
    assert_eq!(upsert(&mut store, "ch", "b", "other", None, "u1"), "b");
    assert_eq!(upsert(&mut store, "ch", "a", "second", None, "u1"), "a");
    let p = page(&mut store, "ch", 10, None);
    assert_eq!(ids(&p), vec!["a".to_string(), "b".to_string()]);
    assert_eq!(p.comments[0].content, "second");
    assert_eq!(p.comments[0].user_id, "u1");
    assert_eq!(p.comments[0].created_at, 7);
    assert_eq!(p.comments[1].content, "other");
}

#[test]
fn nested_reply_renders_inside_parent_page() {
    let mut store = ChannelStore::new();
    upsert(&mut store, "ch", "a", "root", None, "u1");
    assert_eq!(upsert(&mut store, "ch", "r1", "reply", Some("a"), "u2"), "r1");
    assert_eq!(upsert(&mut store, "ch", "r2", "deeper", Some("r1"), "u3"), "r2");
    let p = page(&mut store, "ch", 10, None);
    assert_eq!(p.comments.len(), 1);
    let a = &p.comments[0];
    assert_eq!(a.replies.comments.len(), 1);
    assert_eq!(a.replies.remaining_count, 0);
    let r1 = &a.replies.comments[0];
    assert_eq!(r1.id, "r1");
    assert_eq!(r1.replies.comments[0].id, "r2");
    assert_eq!(r1.replies.remaining_count, 0);
}

#[test]
fn upsert_with_missing_parent_is_refused() {
    let mut store = ChannelStore::new();
    assert_eq!(upsert(&mut store, "ch", "a", "hi", Some("zz"), "u1"), "PARENT_NOT_FOUND");
    let p = page(&mut store, "ch", 10, None);
    assert_eq!(p.comments.len(), 0);
}

#[test]
fn authorization_gates_existing_comments() {
    let mut store = ChannelStore::new();
    assert_eq!(upsert(&mut store, "ch", "c", "by u1", None, "u1"), "c");
    // another caller may neither update nor delete u1's comment
    assert_eq!(upsert(&mut store, "ch", "c", "hijack", None, "u2"), "UNAUTHORIZED");
    let del = DeleteCommentParam { channel_id: "ch".to_string(), comment_id: "c".to_string() };
    assert_eq!(delete_comment(&mut store, &del, &"u2".to_string()), "UNAUTHORIZED");
    let p = page(&mut store, "ch", 10, None);
    assert_eq!(p.comments[0].content, "by u1");
    // the author may do both
    assert_eq!(upsert(&mut store, "ch", "c", "edited", None, "u1"), "c");
    assert_eq!(delete_comment(&mut store, &del, &"u1".to_string()), "OK");
    let p2 = page(&mut store, "ch", 10, None);
    assert_eq!(p2.comments.len(), 0);
}

#[test]
fn fresh_ids_bypass_authorization() {
    let mut store = ChannelStore::new();
    assert_eq!(upsert(&mut store, "ch", "c", "by u1", None, "u1"), "c");
    // any caller can create a comment with a fresh id
    assert_eq!(upsert(&mut store, "ch", "d", "by u2", None, "u2"), "d");
    let p = page(&mut store, "ch", 10, None);
    assert_eq!(ids(&p), vec!["c".to_string(), "d".to_string()]);
}

#[test]
fn pagination_pages_partition_the_thread() {
    let mut store = ChannelStore::new();
    for id in ["a", "b", "c", "d", "e"] {
        upsert(&mut store, "ch", id, "m", None, "u1");
    }
    let p1 = page(&mut store, "ch", 2, None);
    assert_eq!(ids(&p1), vec!["a".to_string(), "b".to_string()]);
    assert_eq!(p1.remaining_count, 3);
    let p2 = page(&mut store, "ch", 2, Some("b"));
    assert_eq!(ids(&p2), vec!["c".to_string(), "d".to_string()]);
    assert_eq!(p2.remaining_count, 1);
    let p3 = page(&mut store, "ch", 2, Some("d"));
    assert_eq!(ids(&p3), vec!["e".to_string()]);
    assert_eq!(p3.remaining_count, 0);
}

#[test]
fn pagination_boundaries() {
    let mut store = ChannelStore::new();
    for id in ["a", "b", "c"] {
        upsert(&mut store, "ch", id, "m", None, "u1");
    }
    // cursor at the last comment: empty page, nothing remaining
    let p = page(&mut store, "ch", 2, Some("c"));
    assert_eq!(p.comments.len(), 0);
    assert_eq!(p.remaining_count, 0);
    // cursor absent from the thread: empty page
    let p2 = page(&mut store, "ch", 2, Some("zz"));
    assert_eq!(p2.comments.len(), 0);
    assert_eq!(p2.remaining_count, 0);
    // reading an untouched channel creates it empty
    let p3 = page(&mut store, "fresh", 4, None);
    assert_eq!(p3.comments.len(), 0);
    assert_eq!(p3.remaining_count, 0);
}

#[test]
fn delete_cascades_through_replies() {
    let mut store = ChannelStore::new();
    upsert(&mut store, "ch", "a", "root", None, "u1");
    upsert(&mut store, "ch", "r1", "reply", Some("a"), "u1");
    upsert(&mut store, "ch", "r2", "deeper", Some("r1"), "u1");
    upsert(&mut store, "ch", "b", "other", None, "u1");
    let del = DeleteCommentParam { channel_id: "ch".to_string(), comment_id: "a".to_string() };
    assert_eq!(delete_comment(&mut store, &del, &"u1".to_string()), "OK");
    // the whole subtree of three comments is gone, the sibling stays
    let p = page(&mut store, "ch", 10, None);
    assert_eq!(ids(&p), vec!["b".to_string()]);
    let thread = &store.channels[0].thread;
    assert!(thread.lookup(&"a".to_string()).is_none());
    assert!(thread.lookup(&"r1".to_string()).is_none());
    assert!(thread.lookup(&"r2".to_string()).is_none());
    assert!(thread.lookup(&"b".to_string()).is_some());
    // deleting an absent id is a silent no-op
    assert_eq!(delete_comment(&mut store, &del, &"u1".to_string()), "OK");
    assert_eq!(ids(&page(&mut store, "ch", 10, None)), vec!["b".to_string()]);
}

#[test]
fn toggle_metadata_twice_restores_the_tag_set() {
    let mut store = ChannelStore::new();
    upsert(&mut store, "ch", "a", "root", None, "u1");
    let param = ToggleMetadataParam {
        channel_id: "ch".to_string(),
        comment_id: "a".to_string(),
        label: "like".to_string(),
    };
    let user = "u2".to_string();
    let like = "like".to_string();
    assert!(toggle_metadata(&mut store, &param, &user, false));
    {
        let c = store.channels[0].thread.lookup(&"a".to_string()).unwrap();
        assert!(md_contains(&c.metadata, &like, &user));
    }
    assert!(toggle_metadata(&mut store, &param, &user, false));
    {
        let c = store.channels[0].thread.lookup(&"a".to_string()).unwrap();
        assert!(!md_contains(&c.metadata, &like, &user));
    }
}

#[test]
fn toggle_metadata_refuses_anonymous_and_creates_channels() {
    let mut store = ChannelStore::new();
    upsert(&mut store, "ch", "a", "root", None, "u1");
    let param = ToggleMetadataParam {
        channel_id: "ch".to_string(),
        comment_id: "a".to_string(),
        label: "like".to_string(),
    };
    // an anonymous caller is refused and changes nothing
    assert!(!toggle_metadata(&mut store, &param, &"u2".to_string(), true));
    let c = store.channels[0].thread.lookup(&"a".to_string()).unwrap();
    assert!(c.metadata.is_empty());
    assert_eq!(store.channels.len(), 1);
    // a toggle is a reference to the channel id: an absent channel is created
    // empty, and the missing comment id is a silent no-op
    let missing = ToggleMetadataParam {
        channel_id: "nowhere".to_string(),
        comment_id: "a".to_string(),
        label: "like".to_string(),
    };
    assert!(toggle_metadata(&mut store, &missing, &"u2".to_string(), false));
    assert_eq!(store.channels.len(), 2);
    assert_eq!(store.channels[1].id, "nowhere");
    assert!(store.channels[1].thread.entries.is_empty());
}
