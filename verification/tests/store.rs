use jobsearch::store::{
    embeddings_dir, item_from_row, items_from_rows, order_column, Direction, Item, Kind, OrderBy,
    Pagination, StoredRow,
};

#[test]
fn embeddings_directory() {
    assert_eq!(
        embeddings_dir("/data", "nomic-ai/nomic-embed-text-v1.5"),
        "/data/lance/embeddings-nomic-ai-nomic-embed-text-v1.5"
    );
    assert_eq!(embeddings_dir("/data/", "m"), "/data/lance/embeddings-m");
    assert_eq!(embeddings_dir("", "a/b/c"), "lance/embeddings-a-b-c");
}

#[test]
fn kinds_and_orders() {
    assert_eq!(Kind::Post.as_str(), "post");
    assert_eq!(Kind::Comment.as_str(), "comment");
    let p = Pagination::default();
    assert_eq!(p.limit, 20);
    assert_eq!(p.offset, 0);
    assert_eq!(p.order_by, OrderBy::CreatedUtc(Direction::Desc));
    assert_eq!(order_column(OrderBy::Similarity(Direction::Desc)), None);
    assert_eq!(order_column(OrderBy::Score(Direction::Asc)), Some(("score", Direction::Asc)));
    assert_eq!(
        order_column(OrderBy::NumComments(Direction::Desc)),
        Some(("num_comments", Direction::Desc))
    );
    assert_eq!(
        order_column(OrderBy::Subscribers(Direction::Asc)),
        Some(("subscribers", Direction::Asc))
    );
    assert_eq!(
        order_column(OrderBy::CreatedUtc(Direction::Asc)),
        Some(("created_utc", Direction::Asc))
    );
}

fn stored_row(name: &str, kind: &str, created_utc: i64) -> StoredRow {
    StoredRow {
        name: name.to_string(),
        kind: kind.to_string(),
        title: "Hiring Rust devs".to_string(),
        content: "body".to_string(),
        subreddit: "rust".to_string(),
        subreddit_id: "t5_2s7lj".to_string(),
        author: "ferris".to_string(),
        score: 42,
        num_comments: 7,
        over_18: false,
        permalink: "/r/rust/comments/abc".to_string(),
        url: "https://reddit.com/r/rust/comments/abc".to_string(),
        post_id: "t3_abc".to_string(),
        parent_id: "t3_abc".to_string(),
        depth: 2,
        subscribers: 300000,
        created_utc,
    }
}

#[test]
fn rows_read_back_as_posts_and_comments() {
    match item_from_row(stored_row("t3_abc", "post", 1_700_000_000)) {
        Item::Post(p) => {
            assert_eq!(p.name, "t3_abc");
            assert_eq!(p.score, 42);
            assert_eq!(p.subscribers, 300000);
            assert_eq!(p.created_utc, 1_700_000_000);
        }
        Item::Comment(_) => panic!("a post row reads back as a post"),
    }
    match item_from_row(stored_row("t1_def", "comment", -5)) {
        Item::Comment(c) => {
            assert_eq!(c.parent_id, "t3_abc");
            assert_eq!(c.depth, 2);
            assert_eq!(c.created_utc, -5);
        }
        Item::Post(_) => panic!("a comment row reads back as a comment"),
    }
    let items = items_from_rows(vec![
        stored_row("t3_a", "post", 0),
        stored_row("t1_b", "comment", 1),
        stored_row("t1_c", "Post", 2),
    ]);
    assert_eq!(items.len(), 3);
    assert_eq!(items[0].name(), "t3_a");
    assert_eq!(items[0].kind(), Kind::Post);
    assert_eq!(items[1].kind(), Kind::Comment);
    assert_eq!(items[2].name(), "t1_c");
    assert_eq!(items[2].kind(), Kind::Comment);
}
