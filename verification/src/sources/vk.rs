//! The VK source adapter's data model and its pure logic: building the wall
//! query, normalizing a decoded wall response into a feed, and turning feed
//! items into normalized posts.
//!
//! The HTTP exchange and JSON decoding are not here; callers send the query
//! built by [`VKGetPosts::query_params`], decode the response into
//! [`VKRawPost`] and [`VKGroupInfo`] values, and hand them to [`build_feed`].

use vstd::prelude::*;
use vstd::string::StringExecFns;

use crate::config::{Snowflake, SnowflakeRef};
use crate::numeral::{spec_u64_string, u64_to_string};
use crate::sources::source::{ForeignMedia, ForeignPost};

verus! {

/// Client handle for the VK wall API.
pub struct VKClient {
    pub token: String,
}

/// One pending wall request: which wall, how many posts, which token.
pub struct VKGetPosts<'a> {
    pub limit: u8,
    pub id: SnowflakeRef<'a>,
    pub token: &'a str,
}

/// One group's feed as normalized from a wall response.
pub struct VKGroupFeed {
    pub group_source_name: String,
    pub group_id: u64,
    pub items: Vec<VKItem>,
}

/// One wall post of a feed.
pub struct VKItem {
    pub id: u64,
    pub text: String,
    pub media: Vec<VKMedia>,
}

/// Media attached to a wall post.
pub enum VKMedia {
    /// A photo, as the URL of its chosen size.
    Photo(String),
}

/// Coordinates of a wall post, rendered as its permalink.
#[derive(Debug)]
pub struct VKItemURL {
    pub group_id: u64,
    pub item_id: u64,
}

/// One decoded wall post, before normalization.
pub struct VKRawPost {
    pub id: u64,
    pub marked_as_ads: i32,
    pub text: String,
    pub attachments: Vec<VKRawAttachment>,
}

/// One decoded attachment; only photo attachments carry data.
pub struct VKRawAttachment {
    pub photo: Option<VKRawPhoto>,
}

/// One decoded photo: its available sizes.
pub struct VKRawPhoto {
    pub sizes: Vec<VKPhotoSize>,
}

/// One size of a photo: its size class character and URL.
pub struct VKPhotoSize {
    pub kind: char,
    pub url: String,
}

/// One decoded group record of a wall response.
pub struct VKGroupInfo {
    pub id: u64,
    pub name: String,
}

/// Preference rank of a photo size class; higher is better, unknown classes
/// rank lowest.
pub open spec fn size_rank(c: char) -> nat {
    if c == 's' {
        1
    } else if c == 'm' {
        2
    } else if c == 'x' {
        3
    } else if c == 'y' {
        4
    } else if c == 'z' {
        5
    } else if c == 'w' {
        6
    } else {
        0
    }
}

/// Index of the chosen size: the first entry carrying the highest rank.
pub open spec fn first_max_idx(s: Seq<VKPhotoSize>) -> int
    decreases s.len(),
{
    if s.len() <= 1 {
        0
    } else {
        let r = first_max_idx(s.drop_last());
        if size_rank(s.last().kind) > size_rank(s[r].kind) {
            s.len() - 1
        } else {
            r
        }
    }
}

pub proof fn lemma_first_max_bounds(s: Seq<VKPhotoSize>)
    requires
        s.len() > 0,
    ensures
        0 <= first_max_idx(s) < s.len(),
    decreases s.len(),
{
    if s.len() > 1 {
        lemma_first_max_bounds(s.drop_last());
    }
}

/// Preference rank of a photo size class.
fn rank_of(c: char) -> (r: u64)
    ensures
        r == size_rank(c),
{
    match c {
        's' => 1,
        'm' => 2,
        'x' => 3,
        'y' => 4,
        'z' => 5,
        'w' => 6,
        _ => 0,
    }
}

/// URL of the best size of a photo: the first size with the highest rank.
pub fn best_photo_url(sizes: &Vec<VKPhotoSize>) -> (r: String)
    requires
        sizes@.len() > 0,
    ensures
        r@ == sizes@[first_max_idx(sizes@)].url@,
{
    let n = sizes.len();
    let mut best: usize = 0;
    let mut i: usize = 1;
    while i < n
        invariant
            1 <= i <= n,
            n == sizes@.len(),
            best < i,
            best as int == first_max_idx(sizes@.take(i as int)),
        decreases n - i,
    {
        proof {
            assert(sizes@.take(i + 1).drop_last() =~= sizes@.take(i as int));
            assert(sizes@.take(i + 1).last() == sizes@[i as int]);
            lemma_first_max_bounds(sizes@.take(i as int));
            assert(sizes@.take(i + 1)[best as int] == sizes@[best as int]);
        }
        if rank_of(sizes[i].kind) > rank_of(sizes[best].kind) {
            best = i;
        }
        i = i + 1;
    }
    proof {
        assert(sizes@.take(n as int) =~= sizes@);
    }
    sizes[best].url.clone()
}

/// The photos among a post's attachments, in order.
pub open spec fn photo_list(atts: Seq<VKRawAttachment>) -> Seq<VKRawPhoto>
    decreases atts.len(),
{
    if atts.len() == 0 {
        Seq::empty()
    } else {
        let rest = photo_list(atts.drop_last());
        match atts.last().photo {
            Some(p) => rest.push(p),
            None => rest,
        }
    }
}

/// Every photo attachment of the post offers at least one size, as the wall
/// API promises.
pub open spec fn photos_sized(atts: Seq<VKRawAttachment>) -> bool {
    forall|j: int|
        0 <= j < atts.len() ==> ((#[trigger] atts[j]).photo matches Some(p) ==> p.sizes@.len() > 0)
}

/// A normalized media entry carries the URL of its photo's best size.
pub open spec fn media_matches(m: VKMedia, ph: VKRawPhoto) -> bool {
    m matches VKMedia::Photo(u) && u@ == ph.sizes@[first_max_idx(ph.sizes@)].url@
}

/// Media entries of one post: each photo attachment's best size, in order.
fn item_media(atts: &Vec<VKRawAttachment>) -> (r: Vec<VKMedia>)
    requires
        photos_sized(atts@),
    ensures
        r@.len() == photo_list(atts@).len(),
        forall|j: int|
            0 <= j < r@.len() ==> media_matches(#[trigger] r@[j], photo_list(atts@)[j]),
{
    let n = atts.len();
    let mut r: Vec<VKMedia> = Vec::new();
    let mut i: usize = 0;
    while i < n
        invariant
            i <= n,
            n == atts@.len(),
            photos_sized(atts@),
            r@.len() == photo_list(atts@.take(i as int)).len(),
            forall|j: int|
                0 <= j < r@.len() ==> media_matches(
                    #[trigger] r@[j],
                    photo_list(atts@.take(i as int))[j],
                ),
        decreases n - i,
    {
        proof {
            assert(atts@.take(i + 1).drop_last() =~= atts@.take(i as int));
            assert(atts@.take(i + 1).last() == atts@[i as int]);
        }
        match &atts[i] {
            VKRawAttachment { photo: Some(ph) } => {
                let url = best_photo_url(&ph.sizes);
                r.push(VKMedia::Photo(url));
            },
            VKRawAttachment { photo: None } => {},
        }
        i = i + 1;
    }
    proof {
        assert(atts@.take(n as int) =~= atts@);
    }
    r
}

/// The wall posts that survive normalization: everything not marked as ads,
/// in feed order.
pub open spec fn keep_posts(s: Seq<VKRawPost>) -> Seq<VKRawPost>
    decreases s.len(),
{
    if s.len() == 0 {
        Seq::empty()
    } else {
        let rest = keep_posts(s.drop_last());
        if s.last().marked_as_ads == 0 {
            rest.push(s.last())
        } else {
            rest
        }
    }
}

/// A normalized item agrees with its raw post: same id and text, and one
/// best-size media entry per photo attachment.
pub open spec fn item_matches(item: VKItem, raw: VKRawPost) -> bool {
    &&& item.id == raw.id
    &&& item.text@ == raw.text@
    &&& item.media@.len() == photo_list(raw.attachments@).len()
    &&& forall|j: int|
        0 <= j < item.media@.len() ==> media_matches(
            #[trigger] item.media@[j],
            photo_list(raw.attachments@)[j],
        )
}

/// Every raw post offers sizes for each of its photos.
pub open spec fn posts_sized(items: Seq<VKRawPost>) -> bool {
    forall|i: int| 0 <= i < items.len() ==> photos_sized((#[trigger] items[i]).attachments@)
}

/// Normalize a decoded wall response: `None` when it names no group;
/// otherwise the first group's feed, with ad posts dropped and each photo
/// reduced to its best size.
pub fn build_feed(items: Vec<VKRawPost>, groups: Vec<VKGroupInfo>) -> (r: Option<VKGroupFeed>)
    requires
        posts_sized(items@),
    ensures
        r is Some <==> groups@.len() > 0,
        r matches Some(feed) ==> {
            &&& feed.group_id == groups@[0].id
            &&& feed.group_source_name@ == "vk // "@ + groups@[0].name@
            &&& feed.items@.len() == keep_posts(items@).len()
            &&& forall|k: int|
                0 <= k < feed.items@.len() ==> item_matches(
                    #[trigger] feed.items@[k],
                    keep_posts(items@)[k],
                )
        },
{
    if groups.len() == 0 {
        return None;
    }
    let mut source = "vk // ".to_owned();
    source.append(groups[0].name.as_str());
    let group_id = groups[0].id;
    let n = items.len();
    let mut out: Vec<VKItem> = Vec::new();
    let mut i: usize = 0;
    while i < n
        invariant
            i <= n,
            n == items@.len(),
            posts_sized(items@),
            out@.len() == keep_posts(items@.take(i as int)).len(),
            forall|k: int|
                0 <= k < out@.len() ==> item_matches(
                    #[trigger] out@[k],
                    keep_posts(items@.take(i as int))[k],
                ),
        decreases n - i,
    {
        proof {
            assert(items@.take(i + 1).drop_last() =~= items@.take(i as int));
            assert(items@.take(i + 1).last() == items@[i as int]);
        }
        let it = &items[i];
        if it.marked_as_ads == 0 {
            let media = item_media(&it.attachments);
            let item = VKItem { id: it.id, text: it.text.clone(), media };
            out.push(item);
        }
        i = i + 1;
    }
    proof {
        assert(items@.take(n as int) =~= items@);
    }
    Some(VKGroupFeed { group_source_name: source, group_id, items: out })
}

/// The permalink of a wall post.
pub open spec fn spec_wall_url(group_id: u64, item_id: u64) -> Seq<char> {
    "https://vk.com/wall-"@ + spec_u64_string(group_id) + "_"@ + spec_u64_string(item_id)
}

impl VKItemURL {
    /// Render the permalink of this wall post.
    pub fn to_text(&self) -> (r: String)
        ensures
            r@ == spec_wall_url(self.group_id, self.item_id),
    {
        let mut s = "https://vk.com/wall-".to_owned();
        s.append(u64_to_string(self.group_id).as_str());
        s.append("_");
        s.append(u64_to_string(self.item_id).as_str());
        s
    }
}

impl VKClient {
    pub fn new(token: String) -> (r: Self)
        ensures
            r.token == token,
    {
        VKClient { token }
    }

    /// A wall request for the newest few posts of one group.
    pub fn get_posts<'a>(&'a self, id: SnowflakeRef<'a>) -> (r: VKGetPosts<'a>)
        ensures
            r.limit == 5,
            r.id == id,
            r.token@ == self.token@,
    {
        VKGetPosts { limit: 5, id, token: self.token.as_str() }
    }
}

impl<'a> VKGetPosts<'a> {
    /// The wall query this request sends: the post count, the wall address
    /// (numeric group id rendered as a negative owner id, or a domain name),
    /// the extended flag, and the API version.
    pub fn query_params(&self) -> (r: Vec<(String, String)>)
        ensures
            r@.len() == 4,
            r@[0].0@ == "count"@ && r@[0].1@ == spec_u64_string(self.limit as u64),
            (match self.id.coerced() {
                Some(g) => r@[1].0@ == "owner_id"@ && r@[1].1@ == seq!['-'] + spec_u64_string(g),
                None => r@[1].0@ == "domain"@ && (self.id matches SnowflakeRef::String(s)
                    && r@[1].1@ == s@),
            }),
            r@[2].0@ == "extended"@ && r@[2].1@ == "1"@,
            r@[3].0@ == "v"@ && r@[3].1@ == "5.131"@,
    {
        let count = u64_to_string(self.limit as u64);
        let target: (String, String) = match self.id.flatten() {
            SnowflakeRef::Number(g) => {
                let mut owner = "-".to_owned();
                owner.append(u64_to_string(g).as_str());
                proof {
                    reveal_strlit("-");
                    assert("-"@ =~= seq!['-']);
                }
                ("owner_id".to_owned(), owner)
            },
            SnowflakeRef::String(s) => ("domain".to_owned(), s.to_owned()),
        };
        let mut r: Vec<(String, String)> = Vec::new();
        r.push(("count".to_owned(), count));
        r.push(target);
        r.push(("extended".to_owned(), "1".to_owned()));
        r.push(("v".to_owned(), "5.131".to_owned()));
        r
    }
}

/// A normalized post agrees with its feed item: numeric ids, cloned text, one
/// photo per media entry, the feed's source name, and the wall permalink.
pub open spec fn post_matches(p: ForeignPost, name: Seq<char>, group_id: u64, item: VKItem) -> bool {
    &&& p.id == Snowflake::Number(item.id)
    &&& p.source_id == Snowflake::Number(group_id)
    &&& p.text@ == item.text@
    &&& p.media@.len() == item.media@.len()
    &&& forall|j: int|
        0 <= j < item.media@.len() ==> ((#[trigger] p.media@[j]) matches ForeignMedia::Photo(u)
            && u@ == item.media@[j]->0@)
    &&& p.source@ == name
    &&& p.url@ == spec_wall_url(group_id, item.id)
}

impl VKGroupFeed {
    /// The feed's items as normalized posts, in feed order.
    pub fn as_iter(&self) -> (r: Vec<ForeignPost>)
        ensures
            r@.len() == self.items@.len(),
            forall|i: int|
                0 <= i < r@.len() ==> post_matches(
                    #[trigger] r@[i],
                    self.group_source_name@,
                    self.group_id,
                    self.items@[i],
                ),
    {
        let n = self.items.len();
        let mut r: Vec<ForeignPost> = Vec::new();
        let mut i: usize = 0;
        while i < n
            invariant
                i <= n,
                n == self.items@.len(),
                r@.len() == i,
                forall|k: int|
                    0 <= k < i ==> post_matches(
                        #[trigger] r@[k],
                        self.group_source_name@,
                        self.group_id,
                        self.items@[k],
                    ),
            decreases n - i,
        {
            let item = &self.items[i];
            let mut media: Vec<ForeignMedia> = Vec::new();
            let mn = item.media.len();
            let mut j: usize = 0;
            while j < mn
                invariant
                    j <= mn,
                    mn == item.media@.len(),
                    media@.len() == j,
                    forall|k: int|
                        0 <= k < j ==> ((#[trigger] media@[k]) matches ForeignMedia::Photo(u) && u@
                            == item.media@[k]->0@),
                decreases mn - j,
            {
                match &item.media[j] {
                    VKMedia::Photo(v) => media.push(ForeignMedia::Photo(v.clone())),
                }
                j = j + 1;
            }
            let url = VKItemURL { group_id: self.group_id, item_id: item.id }.to_text();
            let post = ForeignPost {
                id: Snowflake::Number(item.id),
                source_id: Snowflake::Number(self.group_id),
                text: item.text.clone(),
                media,
                source: self.group_source_name.clone(),
                url,
            };
            r.push(post);
            i = i + 1;
        }
        r
    }
}

} // verus!
