use imagebot::chain::Outcome;
use imagebot::error::Error;
use imagebot::resolver::{
    AttachmentInfo, EmbedInfo, ImageResolver, MessageSources, Origin, Resolution, Source,
};

fn empty_message() -> MessageSources {
    MessageSources {
        attachments: Vec::new(),
        stickers: Vec::new(),
        embeds: Vec::new(),
        content: String::new(),
    }
}

/// Drives a resolution with stub outcomes, one per candidate tried, and
/// counts how many candidates were tried.
fn drive(res: &mut Resolution, outcomes: &[Outcome]) -> (Outcome, usize) {
    let mut calls = 0;
    loop {
        let _ = res.current();
        let o = outcomes[calls].clone();
        calls += 1;
        if let Some(done) = res.record(o) {
            return (done, calls);
        }
    }
}

fn describe(s: &Source) -> String {
    match s {
        Source::Member(t) => format!("member {t}"),
        Source::User(t) => format!("user {t}"),
        Source::GuildEmoji(o, t) => format!("guild-emoji {:?} {t}", o),
        Source::Fetch(t) => format!("fetch {t}"),
        Source::Checked(t) => format!("checked {t}"),
        Source::Attachment(o, i, n) => format!("attachment {:?} {i} {n}", o),
        Source::Avatar => "avatar".to_string(),
    }
}

#[test]
fn first_success_wins_and_stops() {
    let mut res = ImageResolver::plan(Some("hello"), &empty_message(), None);
    let outcomes = vec![
        Err(Error::FetchUrlError),
        Err(Error::InvalidContentType),
        Ok(vec![7u8, 7]),
        Ok(vec![9u8]),
        Ok(vec![9u8]),
        Ok(vec![9u8]),
    ];
    let (r, calls) = drive(&mut res, &outcomes);
    assert_eq!(r, Ok(vec![7u8, 7]));
    assert_eq!(calls, 3);
    assert!(res.arg_resolved());
}

#[test]
fn too_large_aborts_the_chain() {
    let mut res = ImageResolver::plan(Some("hello"), &empty_message(), None);
    let outcomes = vec![
        Err(Error::FetchUrlError),
        Err(Error::ImageTooLarge(20_000_000, 16_000_000)),
        Ok(vec![1u8]),
        Ok(vec![1u8]),
        Ok(vec![1u8]),
        Ok(vec![1u8]),
    ];
    let (r, calls) = drive(&mut res, &outcomes);
    assert_eq!(r, Err(Error::ImageTooLarge(20_000_000, 16_000_000)));
    assert_eq!(calls, 2);
}

#[test]
fn failures_fall_through_to_the_avatar() {
    let mut res = ImageResolver::plan(Some("hello"), &empty_message(), None);
    assert_eq!(res.sources.len(), 6);
    let mut outcomes: Vec<Outcome> = vec![Err(Error::FetchUrlError); 5];
    outcomes.push(Ok(vec![3u8]));
    let (r, calls) = drive(&mut res, &outcomes);
    assert_eq!(r, Ok(vec![3u8]));
    assert_eq!(calls, 6);
    assert!(matches!(res.current(), Source::Avatar));
    assert!(!res.arg_resolved());
}

#[test]
fn last_failure_is_surfaced() {
    let mut res = ImageResolver::plan(None, &empty_message(), None);
    assert_eq!(res.sources.len(), 1);
    let (r, calls) = drive(&mut res, &[Err(Error::FetchUrlError)]);
    assert_eq!(r, Err(Error::FetchUrlError));
    assert_eq!(calls, 1);
    assert!(res.arg_resolved());
}

#[test]
fn plan_order_for_argument_and_messages() {
    let message = MessageSources {
        attachments: vec![
            AttachmentInfo { content_type: Some("text/plain".to_string()), size: 10 },
            AttachmentInfo { content_type: Some("image/png".to_string()), size: 20 },
            AttachmentInfo { content_type: None, size: 30 },
        ],
        stickers: vec![None, Some("https://media/sticker.png".to_string())],
        embeds: vec![
            EmbedInfo { image: None, thumbnail: Some("https://t/thumb.jpg".to_string()) },
            EmbedInfo { image: Some("https://i/img.png".to_string()), thumbnail: Some("x".to_string()) },
            EmbedInfo { image: None, thumbnail: None },
        ],
        content: "r!invert hello".to_string(),
    };
    let reply = MessageSources {
        attachments: Vec::new(),
        stickers: Vec::new(),
        embeds: Vec::new(),
        content: "123456789012345678 and more".to_string(),
    };
    let res = ImageResolver::plan(Some("hello"), &message, Some(&reply));
    let got: Vec<String> = res.sources.iter().map(describe).collect();
    let want = vec![
        "member hello",
        "user hello",
        "guild-emoji Invoking hello",
        "fetch https://emojicdn.elk.sh/hello?style=twitter",
        "checked hello",
        "attachment Invoking 1 20",
        "fetch https://media/sticker.png",
        "checked https://t/thumb.jpg",
        "checked https://i/img.png",
        "guild-emoji Referenced 123456789012345678",
        "fetch https://cdn.discordapp.com/emojis/123456789012345678.png",
        "fetch https://emojicdn.elk.sh/123456789012345678?style=twitter",
        "checked 123456789012345678",
        "avatar",
    ];
    assert_eq!(got, want);
    assert_eq!(res.arg_sources, 5);
    assert_eq!(Origin::Invoking, Origin::Invoking);
}

#[test]
fn emoji_argument_adds_its_cdn_address() {
    let res = ImageResolver::plan(Some("<a:wave:123456789012345678>"), &empty_message(), None);
    let got: Vec<String> = res.sources.iter().map(describe).collect();
    assert_eq!(got[3], "fetch https://cdn.discordapp.com/emojis/123456789012345678.gif");
    assert_eq!(res.arg_sources, 6);
}

#[test]
fn avatar_addresses_pick_a_decodable_format() {
    let face = "https://cdn.discordapp.com/avatars/1/a_abc.webp?size=1024";
    assert_eq!(
        ImageResolver::avatar_url(face, Some("a_abc")),
        "https://cdn.discordapp.com/avatars/1/a_abc.gif?size=1024"
    );
    let face = "https://cdn.discordapp.com/avatars/1/abc.webp?size=1024";
    assert_eq!(
        ImageResolver::avatar_url(face, Some("abc")),
        "https://cdn.discordapp.com/avatars/1/abc.png?size=1024"
    );
    let face = "https://cdn.discordapp.com/embed/avatars/0.png";
    assert_eq!(ImageResolver::avatar_url(face, None), face);
}

#[test]
fn plain_fetch_outcomes() {
    assert_eq!(ImageResolver::fetched(true, vec![1u8]), Ok(vec![1u8]));
    assert_eq!(ImageResolver::fetched(false, vec![1u8]), Err(Error::FetchUrlError));
}

#[test]
fn default_resolver() {
    let r = ImageResolver::default();
    assert_eq!(r.max_size, 16_000_000);
    assert!(r.arg_resolved);
}

#[test]
fn member_avatar_prefers_the_guild_hash() {
    let face = "https://cdn.discordapp.com/guilds/1/users/2/avatars/a_x.webp";
    assert_eq!(
        ImageResolver::member_avatar_url(face, Some("a_x"), Some("plain")),
        "https://cdn.discordapp.com/guilds/1/users/2/avatars/a_x.gif"
    );
    let face = "https://cdn.discordapp.com/avatars/2/a_y.webp";
    assert_eq!(
        ImageResolver::member_avatar_url(face, None, Some("a_y")),
        "https://cdn.discordapp.com/avatars/2/a_y.gif"
    );
    assert_eq!(
        ImageResolver::member_avatar_url(face, None, None),
        "https://cdn.discordapp.com/avatars/2/a_y.png"
    );
}
