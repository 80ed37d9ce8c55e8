//! Plain types of the stores: database statistics, where embeddings live,
//! and how Reddit items are paged and ordered.

use crate::clock::{from_timestamp_secs, secs_representable};
use crate::text::{chars_of, eq_vec, ends_with, push_str, replace_all, replace_all_exec, string_of};
use vstd::prelude::*;

verus! {

/// Job counts: all jobs, and per platform.
#[derive(Debug, Clone)]
pub struct Stats {
    pub total: i64,
    pub by_platform: Vec<(String, i64)>,
}

/// The directory of the embeddings of a model: "lance/embeddings-{model}"
/// under `base`, with each '/' of the model id made '-'. A separator is put
/// between `base` and the rest unless `base` is empty or already ends with
/// one (as `Path::join` does for a relative part).
pub open spec fn embeddings_dir_spec(base: Seq<char>, model_id: Seq<char>) -> Seq<char> {
    let sep = if base.len() == 0 || ends_with(base, seq!['/']) {
        Seq::<char>::empty()
    } else {
        seq!['/']
    };
    base + sep + "lance/embeddings-"@ + replace_all(model_id, seq!['/'], seq!['-'])
}

pub fn embeddings_dir(base: &str, model_id: &str) -> (r: String)
    ensures
        r@ == embeddings_dir_spec(base@, model_id@),
{
    let b = chars_of(base);
    let mut out: Vec<char> = Vec::new();
    push_str(&mut out, base);
    let needs_sep = b.len() > 0 && b[b.len() - 1] != '/';
    proof {
        if b.len() > 0 {
            assert(ends_with(b@, seq!['/']) <==> b@[b.len() - 1] == '/') by {
                assert(b@.subrange(b.len() - 1, b.len() as int)[0] == b@[b.len() - 1]);
                if b@[b.len() - 1] == '/' {
                    assert(b@.subrange(b.len() - 1, b.len() as int) =~= seq!['/']);
                }
            }
        }
    }
    if needs_sep {
        out.push('/');
    }
    push_str(&mut out, "lance/embeddings-");
    let slash = vec!['/'];
    let dash = vec!['-'];
    assert(slash@ =~= seq!['/']);
    assert(dash@ =~= seq!['-']);
    let m = replace_all_exec(&chars_of(model_id), &slash, &dash);
    crate::text::push_all(&mut out, &m);
    assert(out@ =~= embeddings_dir_spec(base@, model_id@));
    string_of(&out)
}

/// What an item of the Reddit store is.
#[derive(Debug, Clone, Copy, PartialEq, Eq, Structural)]
pub enum Kind {
    Post,
    Comment,
}

impl Kind {
    /// The name stored in the `kind` column.
    pub fn as_str(&self) -> (r: &'static str)
        ensures
            r@ == (match *self {
                Kind::Post => "post"@,
                Kind::Comment => "comment"@,
            }),
    {
        match self {
            Kind::Post => "post",
            Kind::Comment => "comment",
        }
    }
}

/// Sort direction.
#[derive(Debug, Clone, Copy, PartialEq, Eq, Structural)]
pub enum Direction {
    Asc,
    Desc,
}

/// The order of a page of Reddit items.
#[derive(Debug, Clone, Copy, PartialEq, Eq, Structural)]
pub enum OrderBy {
    Similarity(Direction),
    CreatedUtc(Direction),
    Score(Direction),
    NumComments(Direction),
    Subscribers(Direction),
}

/// Which page of items a query returns, and in which order.
#[derive(Debug, Clone, Copy)]
pub struct Pagination {
    pub limit: usize,
    pub offset: usize,
    pub order_by: OrderBy,
}

impl Default for Pagination {
    fn default() -> (r: Pagination)
        ensures
            r.limit == 20,
            r.offset == 0,
            r.order_by == OrderBy::CreatedUtc(Direction::Desc),
    {
        Pagination { limit: 20, offset: 0, order_by: OrderBy::CreatedUtc(Direction::Desc) }
    }
}

/// The column a page is sorted by, with the direction; nothing for
/// similarity, which the nearest-neighbour search already orders by.
pub open spec fn order_column_spec(o: OrderBy) -> Option<(Seq<char>, Direction)> {
    match o {
        OrderBy::Similarity(_) => None,
        OrderBy::CreatedUtc(d) => Some(("created_utc"@, d)),
        OrderBy::Score(d) => Some(("score"@, d)),
        OrderBy::NumComments(d) => Some(("num_comments"@, d)),
        OrderBy::Subscribers(d) => Some(("subscribers"@, d)),
    }
}

pub fn order_column(o: OrderBy) -> (r: Option<(&'static str, Direction)>)
    ensures
        match r {
            Some((c, d)) => order_column_spec(o) == Some((c@, d)),
            None => order_column_spec(o) is None,
        },
{
    match o {
        OrderBy::Similarity(_) => None,
        OrderBy::CreatedUtc(d) => Some(("created_utc", d)),
        OrderBy::Score(d) => Some(("score", d)),
        OrderBy::NumComments(d) => Some(("num_comments", d)),
        OrderBy::Subscribers(d) => Some(("subscribers", d)),
    }
}


/// A Reddit post as the store returns it. `created_utc` is in seconds since
/// the Unix epoch; the embedding vector, which a read leaves empty, is not
/// kept here.
pub struct Post {
    pub name: String,
    pub title: String,
    pub content: String,
    pub subreddit: String,
    pub subreddit_id: String,
    pub author: String,
    pub score: i32,
    pub num_comments: i32,
    pub over_18: bool,
    pub permalink: String,
    pub url: String,
    pub subscribers: i64,
    pub created_utc: i64,
}

/// A Reddit comment as the store returns it, with its post, its parent and
/// its depth in the thread.
pub struct Comment {
    pub name: String,
    pub title: String,
    pub content: String,
    pub subreddit: String,
    pub subreddit_id: String,
    pub author: String,
    pub score: i32,
    pub num_comments: i32,
    pub over_18: bool,
    pub permalink: String,
    pub url: String,
    pub post_id: String,
    pub parent_id: String,
    pub depth: u32,
    pub subscribers: i64,
    pub created_utc: i64,
}

/// An item of the Reddit store.
pub enum Item {
    Post(Post),
    Comment(Comment),
}

impl Item {
    /// The Reddit name (`t3_…` or `t1_…`) of the item.
    pub fn name(&self) -> (r: &str)
        ensures
            r@ == (match self {
                Item::Post(p) => p.name@,
                Item::Comment(c) => c.name@,
            }),
    {
        match self {
            Item::Post(p) => p.name.as_str(),
            Item::Comment(c) => c.name.as_str(),
        }
    }

    /// Whether the item is a post or a comment.
    pub fn kind(&self) -> (r: Kind)
        ensures
            r == (match self {
                Item::Post(_) => Kind::Post,
                Item::Comment(_) => Kind::Comment,
            }),
    {
        match self {
            Item::Post(_) => Kind::Post,
            Item::Comment(_) => Kind::Comment,
        }
    }
}

/// One row of the store's item table, column by column; `created_utc` is
/// the timestamp column in seconds.
pub struct StoredRow {
    pub name: String,
    pub kind: String,
    pub title: String,
    pub content: String,
    pub subreddit: String,
    pub subreddit_id: String,
    pub author: String,
    pub score: i32,
    pub num_comments: i32,
    pub over_18: bool,
    pub permalink: String,
    pub url: String,
    pub post_id: String,
    pub parent_id: String,
    pub depth: u32,
    pub subscribers: i64,
    pub created_utc: i64,
}

/// The item a row holds: a post where the `kind` column reads "post", a
/// comment otherwise, each with the row's own columns.
pub open spec fn row_item(row: StoredRow) -> Item {
    if row.kind@ == "post"@ {
        Item::Post(
            Post {
                name: row.name,
                title: row.title,
                content: row.content,
                subreddit: row.subreddit,
                subreddit_id: row.subreddit_id,
                author: row.author,
                score: row.score,
                num_comments: row.num_comments,
                over_18: row.over_18,
                permalink: row.permalink,
                url: row.url,
                subscribers: row.subscribers,
                created_utc: row.created_utc,
            },
        )
    } else {
        Item::Comment(
            Comment {
                name: row.name,
                title: row.title,
                content: row.content,
                subreddit: row.subreddit,
                subreddit_id: row.subreddit_id,
                author: row.author,
                score: row.score,
                num_comments: row.num_comments,
                over_18: row.over_18,
                permalink: row.permalink,
                url: row.url,
                post_id: row.post_id,
                parent_id: row.parent_id,
                depth: row.depth,
                subscribers: row.subscribers,
                created_utc: row.created_utc,
            },
        )
    }
}

/// The item of one stored row. Its timestamp goes through
/// `chrono::DateTime::from_timestamp`, which must represent it.
pub fn item_from_row(row: StoredRow) -> (r: Item)
    requires
        secs_representable(row.created_utc as int),
    ensures
        r == row_item(row),
{
    let created_utc = match from_timestamp_secs(row.created_utc) {
        Some(t) => t,
        None => row.created_utc,
    };
    let post = chars_of(Kind::Post.as_str());
    if eq_vec(&chars_of(row.kind.as_str()), &post) {
        Item::Post(
            Post {
                name: row.name,
                title: row.title,
                content: row.content,
                subreddit: row.subreddit,
                subreddit_id: row.subreddit_id,
                author: row.author,
                score: row.score,
                num_comments: row.num_comments,
                over_18: row.over_18,
                permalink: row.permalink,
                url: row.url,
                subscribers: row.subscribers,
                created_utc,
            },
        )
    } else {
        Item::Comment(
            Comment {
                name: row.name,
                title: row.title,
                content: row.content,
                subreddit: row.subreddit,
                subreddit_id: row.subreddit_id,
                author: row.author,
                score: row.score,
                num_comments: row.num_comments,
                over_18: row.over_18,
                permalink: row.permalink,
                url: row.url,
                post_id: row.post_id,
                parent_id: row.parent_id,
                depth: row.depth,
                subscribers: row.subscribers,
                created_utc,
            },
        )
    }
}

/// The items of stored rows, in row order.
pub fn items_from_rows(rows: Vec<StoredRow>) -> (r: Vec<Item>)
    requires
        forall|i: int| 0 <= i < rows@.len() ==> secs_representable(#[trigger] rows@[i].created_utc as int),
    ensures
        r@.len() == rows@.len(),
        forall|i: int| 0 <= i < rows@.len() ==> #[trigger] r@[i] == row_item(rows@[i]),
{
    let ghost all = rows@;
    let mut rest = rows;
    let mut out: Vec<Item> = Vec::new();
    while rest.len() > 0
        invariant
            out@.len() + rest@.len() == all.len(),
            rest@ == all.subrange(out@.len() as int, all.len() as int),
            forall|i: int| 0 <= i < out@.len() ==> #[trigger] out@[i] == row_item(all[i]),
            forall|i: int| 0 <= i < all.len() ==> secs_representable(#[trigger] all[i].created_utc as int),
        decreases rest@.len(),
    {
        let row = rest.remove(0);
        assert(row == all[out@.len() as int]);
        out.push(item_from_row(row));
    }
    out
}

} // verus!
