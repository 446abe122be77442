use imagebot::emoji::{emoji_url, parse_emoji};
use imagebot::error::Error;
use imagebot::links::{find_tenor_asset, imgur_id, is_tenor_page};
use imagebot::resolver::{ImageResolver, UrlStep};

#[test]
fn animated_custom_emoji_token() {
    let r = parse_emoji("<a:name:123456789012345678>");
    assert_eq!(r, Ok((true, "123456789012345678".to_string())));
}

#[test]
fn bare_emoji_id() {
    let r = parse_emoji("123456789012345678");
    assert_eq!(r, Ok((false, "123456789012345678".to_string())));
}

#[test]
fn plain_word_is_not_an_emoji() {
    assert_eq!(parse_emoji("hello"), Err(Error::EmojiParseError("hello".to_string())));
}

#[test]
fn still_custom_emoji_and_bad_tokens() {
    assert_eq!(
        parse_emoji("<:pog_2:123456789012345>"),
        Ok((false, "123456789012345".to_string()))
    );
    // id of 14 digits
    assert!(parse_emoji("<:a:12345678901234>").is_err());
    assert!(parse_emoji("12345678901234").is_err());
    // name of 33 characters
    let long = format!("<:{}:123456789012345678>", "n".repeat(33));
    assert!(parse_emoji(&long).is_err());
    // a name may not hold a dash, and the token must close
    assert!(parse_emoji("<:a-b:123456789012345678>").is_err());
    assert!(parse_emoji("<:ab:123456789012345678").is_err());
    assert!(parse_emoji("").is_err());
}

#[test]
fn emoji_cdn_addresses() {
    assert_eq!(
        emoji_url(true, "123456789012345678"),
        "https://cdn.discordapp.com/emojis/123456789012345678.gif"
    );
    assert_eq!(
        ImageResolver::convert_emoji("123456789012345678"),
        Ok("https://cdn.discordapp.com/emojis/123456789012345678.png".to_string())
    );
    assert_eq!(
        ImageResolver::convert_emoji("<a:x:123456789012345678>"),
        Ok("https://cdn.discordapp.com/emojis/123456789012345678.gif".to_string())
    );
    assert_eq!(
        ImageResolver::convert_emoji("nope"),
        Err(Error::EmojiParseError("nope".to_string()))
    );
}

#[test]
fn tenor_page_body_with_asset() {
    let url = "https://tenor.com/view/funny-cat-gif-12345";
    assert!(matches!(
        ImageResolver::resolve_url(url, true, Some("text/html; charset=utf-8")),
        UrlStep::ReadPage
    ));
    let body = "<html><meta content=\"https://media.tenor.com/x.png\"> \
                <img src=\"https://c.tenor.com/AbCd/tenor.gif\"> https://c.tenor.com/Zz/other.gif";
    assert_eq!(
        ImageResolver::page_asset(body),
        Ok("https://c.tenor.com/AbCd/tenor.gif".to_string())
    );
}

#[test]
fn tenor_page_body_without_asset() {
    let body = "<html>nothing here https://c.tenor.com/onlyslash.png</html>";
    assert_eq!(ImageResolver::page_asset(body), Err(Error::InvalidContentType));
}

#[test]
fn tenor_asset_takes_the_longest_run() {
    let body = "see https://c.tenor.com/AAA/BBB/cat.gif?x and more";
    assert_eq!(
        find_tenor_asset(body),
        Some("https://c.tenor.com/AAA/BBB/cat.gif".to_string())
    );
    let body = "HTTPS://WWW.C.TENOR.COM/a/b.GIF/ tail";
    assert_eq!(find_tenor_asset(body), Some("HTTPS://WWW.C.TENOR.COM/a/b.GIF/".to_string()));
    let body = "http://c.tenor.com/a/b.gif.gif x";
    assert_eq!(find_tenor_asset(body), Some("http://c.tenor.com/a/b.gif.gif".to_string()));
}

#[test]
fn tenor_page_addresses() {
    assert!(is_tenor_page("https://tenor.com/view/abc"));
    assert!(is_tenor_page("HTTP://www.Tenor.com/view/abc/"));
    assert!(!is_tenor_page("https://tenor.com/view/"));
    assert!(!is_tenor_page("https://tenor.com/view/a b"));
    assert!(!is_tenor_page("https://tenor.com/search/abc"));
}

#[test]
fn imgur_pages() {
    assert_eq!(imgur_id("https://imgur.com/abc123"), Some("abc123".to_string()));
    assert_eq!(imgur_id("https://www.imgur.com/gallery/xyz/"), Some("gallery/xyz/".to_string()));
    assert_eq!(imgur_id("ftp://imgur.com/abc"), None);
    match ImageResolver::resolve_url("<https://imgur.com/abc123>", true, None) {
        UrlStep::Follow(u) => assert_eq!(u, "https://i.imgur.com/abc123.gif"),
        _ => panic!("expected the imgur image address"),
    }
}

#[test]
fn checked_url_decisions() {
    assert!(matches!(
        ImageResolver::resolve_url("https://x.org/a.png", true, Some("image/png")),
        UrlStep::ReadImage
    ));
    assert!(matches!(
        ImageResolver::resolve_url("https://x.org/a.png", false, Some("image/png")),
        UrlStep::Fail(Error::FetchUrlError)
    ));
    assert!(matches!(
        ImageResolver::resolve_url("https://x.org/page", true, Some("text/html")),
        UrlStep::Fail(Error::InvalidContentType)
    ));
    assert!(matches!(
        ImageResolver::resolve_url("https://x.org/page", true, None),
        UrlStep::Fail(Error::InvalidContentType)
    ));
}

#[test]
fn url_target_strips_angle_brackets_and_space() {
    assert_eq!(ImageResolver::url_target("<<https://x.org/a.png>>"), "https://x.org/a.png");
    // the brackets go before the white space does
    assert_eq!(ImageResolver::url_target("<https://x.org/a.png> "), "https://x.org/a.png>");
    assert_eq!(ImageResolver::url_target("  https://x.org/b "), "https://x.org/b");
}
