use secretfop::config::{Snowflake, SnowflakeRef};
use secretfop::sources::source::ForeignMedia;
use secretfop::sources::vk::{
    best_photo_url, build_feed, VKClient, VKGroupInfo, VKItemURL, VKPhotoSize, VKRawAttachment,
    VKRawPhoto, VKRawPost,
};

fn size(kind: char, url: &str) -> VKPhotoSize {
    VKPhotoSize { kind, url: url.to_string() }
}

fn photo(sizes: Vec<VKPhotoSize>) -> VKRawAttachment {
    VKRawAttachment { photo: Some(VKRawPhoto { sizes }) }
}

fn raw_post(id: u64, ads: i32, attachments: Vec<VKRawAttachment>) -> VKRawPost {
    VKRawPost { id, marked_as_ads: ads, text: format!("post {id}"), attachments }
}

#[test]
fn wall_url_renders_permalink() {
    let url = VKItemURL { group_id: 1, item_id: 2 }.to_text();
    assert_eq!(url, "https://vk.com/wall-1_2".to_string());
}

#[test]
fn query_params_numeric_owner() {
    let client = VKClient::new("tok".to_string());
    let req = client.get_posts(SnowflakeRef::Number(123));
    let params = req.query_params();
    assert_eq!(params.len(), 4);
    assert_eq!(params[0], ("count".to_string(), "5".to_string()));
    assert_eq!(params[1], ("owner_id".to_string(), "-123".to_string()));
    assert_eq!(params[2], ("extended".to_string(), "1".to_string()));
    assert_eq!(params[3], ("v".to_string(), "5.131".to_string()));
}

#[test]
fn query_params_domain_and_coercible_string() {
    let client = VKClient::new("tok".to_string());
    let params = client.get_posts(SnowflakeRef::String("someclub")).query_params();
    assert_eq!(params[1], ("domain".to_string(), "someclub".to_string()));

    let params = client.get_posts(SnowflakeRef::String("99")).query_params();
    assert_eq!(params[1], ("owner_id".to_string(), "-99".to_string()));
}

#[test]
fn best_photo_prefers_first_of_highest_rank() {
    let sizes = vec![size('s', "small"), size('w', "first-w"), size('w', "second-w")];
    assert_eq!(best_photo_url(&sizes), "first-w".to_string());

    let sizes = vec![size('q', "unknown"), size('m', "medium")];
    assert_eq!(best_photo_url(&sizes), "medium".to_string());

    let sizes = vec![size('q', "only")];
    assert_eq!(best_photo_url(&sizes), "only".to_string());
}

#[test]
fn build_feed_requires_a_group() {
    assert!(build_feed(vec![], vec![]).is_none());
    let feed = build_feed(vec![], vec![VKGroupInfo { id: 8, name: "grp".to_string() }]);
    let feed = feed.unwrap();
    assert_eq!(feed.group_id, 8);
    assert_eq!(feed.group_source_name, "vk // grp".to_string());
    assert!(feed.items.is_empty());
}

#[test]
fn build_feed_drops_ads_and_picks_best_sizes() {
    let items = vec![
        raw_post(1, 0, vec![photo(vec![size('m', "m1"), size('x', "x1")])]),
        raw_post(2, 1, vec![photo(vec![size('m', "m2")])]),
        raw_post(3, 0, vec![VKRawAttachment { photo: None }, photo(vec![size('s', "s3")])]),
    ];
    let groups = vec![VKGroupInfo { id: 10, name: "grp".to_string() }];
    let feed = build_feed(items, groups).unwrap();
    assert_eq!(feed.items.len(), 2);
    assert_eq!(feed.items[0].id, 1);
    assert_eq!(feed.items[0].text, "post 1".to_string());
    assert_eq!(feed.items[0].media.len(), 1);
    let secretfop::sources::vk::VKMedia::Photo(u) = &feed.items[0].media[0];
    assert_eq!(u, "x1");
    assert_eq!(feed.items[1].id, 3);
    assert_eq!(feed.items[1].media.len(), 1);
}

#[test]
fn as_iter_normalizes_items() {
    let items = vec![raw_post(4, 0, vec![photo(vec![size('y', "pic")])])];
    let groups = vec![VKGroupInfo { id: 10, name: "grp".to_string() }];
    let feed = build_feed(items, groups).unwrap();
    let posts = feed.as_iter();
    assert_eq!(posts.len(), 1);
    let p = &posts[0];
    assert!(p.id == Snowflake::Number(4));
    assert!(p.source_id == Snowflake::Number(10));
    assert_eq!(p.text, "post 4".to_string());
    assert_eq!(p.source, "vk // grp".to_string());
    assert_eq!(p.url, "https://vk.com/wall-10_4".to_string());
    assert_eq!(p.media, vec![ForeignMedia::Photo("pic".to_string())]);
}
