//! Resolving a source image from a command's argument and its message.
//!
//! In order, the candidates are:
//!   - for an argument: a guild member, a user, a guild emoji, an emoji token,
//!     a unicode emoji, and the argument as a URL;
//!   - the invoking message's image attachments, stickers and embeds;
//!   - the same for a replied-to message, then the non-mention candidates
//!     for the first word of its text;
//!   - the author's avatar.
//!
//! The plan lists them; the chain (see `chain`) decides when to stop.

use vstd::prelude::*;
use vstd::string::*;
use crate::error::Error;
use crate::chain::{Chain, Outcome, stops_at};
use crate::emoji::{emoji_of, emoji_url_text, parse_emoji, emoji_url};
use crate::text::{
    bare_url, first_token, starts_with, has_prefix, chars_of, chars_at, bare_url_bounds, string_of,
    first_word,
};
use crate::links::{is_tenor_page_url, imgur_path, tenor_asset, is_tenor_page, imgur_id, find_tenor_asset};

verus! {

/// The default ceiling for the size of a resolved image: 16 MB.
pub const DEFAULT_MAX_SIZE: u64 = 16_000_000;

/// Which message a candidate comes from.
#[derive(Debug, Clone, Copy, PartialEq, Eq, Structural)]
pub enum Origin {
    /// The message that invoked the command.
    Invoking,
    /// The message it replies to.
    Referenced,
}

/// A file attached to a message, as far as the choice of a source reads it.
pub struct AttachmentInfo {
    /// The declared content type, if any.
    pub content_type: Option<String>,
    /// The declared size in bytes.
    pub size: u64,
}

/// An embed of a message: its image and thumbnail addresses.
pub struct EmbedInfo {
    pub image: Option<String>,
    pub thumbnail: Option<String>,
}

/// What a message offers as image sources.
pub struct MessageSources {
    pub attachments: Vec<AttachmentInfo>,
    /// For each sticker, the address of its image, if it has one.
    pub stickers: Vec<Option<String>>,
    pub embeds: Vec<EmbedInfo>,
    /// The message's text.
    pub content: String,
}

/// One candidate source of the image, as work for the caller to do.
#[derive(Debug)]
pub enum Source {
    /// Look the text up as a guild member and fetch the member's avatar.
    Member(String),
    /// Look the text up as a user and fetch the user's avatar.
    User(String),
    /// Look the text up as an emoji of the guild of the given message and
    /// fetch its image.
    GuildEmoji(Origin, String),
    /// Fetch this address as it is.
    Fetch(String),
    /// Fetch this argument as a URL with the checks of `resolve_url`.
    Checked(String),
    /// Download an attachment: message, index, declared size.
    Attachment(Origin, usize, u64),
    /// Fetch the author's avatar.
    Avatar,
}

pub enum SourceView {
    Member(Seq<char>),
    User(Seq<char>),
    GuildEmoji(Origin, Seq<char>),
    Fetch(Seq<char>),
    Checked(Seq<char>),
    Attachment(Origin, usize, u64),
    Avatar,
}

impl View for Source {
    type V = SourceView;

    open spec fn view(&self) -> SourceView {
        match self {
            Source::Member(t) => SourceView::Member(t@),
            Source::User(t) => SourceView::User(t@),
            Source::GuildEmoji(o, t) => SourceView::GuildEmoji(*o, t@),
            Source::Fetch(t) => SourceView::Fetch(t@),
            Source::Checked(t) => SourceView::Checked(t@),
            Source::Attachment(o, i, n) => SourceView::Attachment(*o, *i, *n),
            Source::Avatar => SourceView::Avatar,
        }
    }
}

pub open spec fn views(v: Seq<Source>) -> Seq<SourceView> {
    v.map_values(|s: Source| s@)
}

pub open spec fn opt_view(o: Option<String>) -> Option<Seq<char>> {
    match o {
        Some(s) => Some(s@),
        None => None,
    }
}

/// A declared content type that names an image.
pub open spec fn is_image_type(ct: Option<Seq<char>>) -> bool {
    match ct {
        Some(t) => starts_with(t, "image/"@),
        None => false,
    }
}

/// The candidates of the first `n` attachments: those declared as images.
pub open spec fn file_sources(atts: Seq<AttachmentInfo>, origin: Origin, n: nat) -> Seq<SourceView>
    decreases n,
{
    if n == 0 || n > atts.len() {
        Seq::empty()
    } else {
        let prev = file_sources(atts, origin, (n - 1) as nat);
        let a = atts[n - 1];
        if is_image_type(opt_view(a.content_type)) {
            prev.push(SourceView::Attachment(origin, (n - 1) as usize, a.size))
        } else {
            prev
        }
    }
}

/// The candidates of the first `n` stickers: those with an image.
pub open spec fn sticker_sources(stickers: Seq<Option<String>>, n: nat) -> Seq<SourceView>
    decreases n,
{
    if n == 0 || n > stickers.len() {
        Seq::empty()
    } else {
        let prev = sticker_sources(stickers, (n - 1) as nat);
        match stickers[n - 1] {
            Some(u) => prev.push(SourceView::Fetch(u@)),
            None => prev,
        }
    }
}

/// The candidates of the first `n` embeds: the image, or else the thumbnail.
pub open spec fn embed_sources(embeds: Seq<EmbedInfo>, n: nat) -> Seq<SourceView>
    decreases n,
{
    if n == 0 || n > embeds.len() {
        Seq::empty()
    } else {
        let prev = embed_sources(embeds, (n - 1) as nat);
        let e = embeds[n - 1];
        match e.image {
            Some(u) => prev.push(SourceView::Checked(u@)),
            None => match e.thumbnail {
                Some(u) => prev.push(SourceView::Checked(u@)),
                None => prev,
            },
        }
    }
}

/// A message's candidates: attachments, then stickers, then embeds.
pub open spec fn message_sources(m: MessageSources, origin: Origin) -> Seq<SourceView> {
    file_sources(m.attachments@, origin, m.attachments@.len()) + sticker_sources(
        m.stickers@,
        m.stickers@.len(),
    ) + embed_sources(m.embeds@, m.embeds@.len())
}

/// The address of a unicode emoji's image.
pub open spec fn unicode_emoji_url(t: Seq<char>) -> Seq<char> {
    "https://emojicdn.elk.sh/"@ + t + "?style=twitter"@
}

/// The candidates for a word of the given message: a member and a user (for
/// the invoking message's argument only), an emoji of that message's guild,
/// the emoji the word names (if any), a unicode emoji, and a URL.
pub open spec fn conversion_sources(t: Seq<char>, origin: Origin) -> Seq<SourceView> {
    let people = if origin == Origin::Invoking {
        seq![SourceView::Member(t), SourceView::User(t)]
    } else {
        Seq::empty()
    };
    let parsed = match emoji_of(t) {
        Some(p) => seq![SourceView::Fetch(emoji_url_text(p.0, p.1))],
        None => Seq::empty(),
    };
    people + seq![SourceView::GuildEmoji(origin, t)] + parsed + seq![
        SourceView::Fetch(unicode_emoji_url(t)),
        SourceView::Checked(t),
    ]
}

/// The candidates of a replied-to message: its own sources, then those of
/// the first word of its text, if it has text.
pub open spec fn referenced_sources(m: MessageSources) -> Seq<SourceView> {
    message_sources(m, Origin::Referenced) + if m.content@.len() > 0 {
        conversion_sources(first_token(m.content@), Origin::Referenced)
    } else {
        Seq::empty()
    }
}

/// All candidates, in the order in which they are tried.
pub open spec fn plan_sources(
    arg: Option<Seq<char>>,
    m: MessageSources,
    referenced: Option<MessageSources>,
) -> Seq<SourceView> {
    let from_arg = match arg {
        Some(t) => conversion_sources(t, Origin::Invoking),
        None => Seq::empty(),
    };
    let from_reply = match referenced {
        Some(r) => referenced_sources(r),
        None => Seq::empty(),
    };
    from_arg + message_sources(m, Origin::Invoking) + from_reply + seq![SourceView::Avatar]
}

/// The image of an imgur page.
pub open spec fn imgur_gif_url(path: Seq<char>) -> Seq<char> {
    "https://i.imgur.com/"@ + path + ".gif"@
}

/// An avatar hash that names an animated avatar.
pub open spec fn is_animated_hash(h: Option<Seq<char>>) -> bool {
    match h {
        Some(t) => starts_with(t, "a_"@),
        None => false,
    }
}

/// `s[i..]` with each `from` replaced by `to`, from left to right.
pub open spec fn replace_from(s: Seq<char>, from: Seq<char>, to: Seq<char>, i: int) -> Seq<char>
    decreases s.len() - i,
{
    if i < 0 || i >= s.len() {
        Seq::empty()
    } else if from.len() > 0 && i + from.len() <= s.len() && s.subrange(i, i + from.len())
        == from {
        to + replace_from(s, from, to, i + from.len())
    } else {
        seq![s[i]] + replace_from(s, from, to, i + 1)
    }
}

/// An avatar address with `.webp` turned into `.gif` for an animated avatar
/// and into `.png` otherwise.
pub open spec fn avatar_url_text(face: Seq<char>, hash: Option<Seq<char>>) -> Seq<char> {
    replace_from(face, ".webp"@, if is_animated_hash(hash) { ".gif"@ } else { ".png"@ }, 0)
}

/// What to do once the head of a checked URL's response is known.
pub enum UrlStep {
    /// The response is an image: read its body and admit it by size.
    ReadImage,
    /// The response is a tenor page: read its body as text and take the
    /// asset it names.
    ReadPage,
    /// Fetch this address instead.
    Follow(String),
    /// The candidate fails.
    Fail(Error),
}

pub open spec fn opt_str_view(o: Option<&str>) -> Option<Seq<char>> {
    match o {
        Some(s) => Some(s@),
        None => None,
    }
}

/// The size by which an image is judged: the larger of the declared length
/// (none counts as 0) and the length of the body.
pub open spec fn judged_size(declared: Option<u64>, body_len: nat) -> nat {
    let d: nat = match declared {
        Some(n) => n as nat,
        None => 0,
    };
    if d >= body_len {
        d
    } else {
        body_len
    }
}

fn replace_all(s: &str, from: &str, to: &str) -> (r: String)
    requires
        from@.len() > 0,
    ensures
        r@ == replace_from(s@, from@, to@, 0),
{
    let v = chars_of(s);
    let f = chars_of(from);
    let n = v.len();
    let mut out = String::new();
    let mut i: usize = 0;
    while i < n
        invariant
            n == v@.len(),
            v@ == s@,
            f@ == from@,
            f@.len() > 0,
            i <= n,
            out@ + replace_from(s@, from@, to@, i as int) == replace_from(s@, from@, to@, 0),
        decreases n - i,
    {
        if chars_at(&v, i, &f) {
            out.append(to);
            i = i + f.len();
        } else {
            let c = v[i];
            let single = string_of(&v, i, i + 1);
            assert(single@ =~= seq![c]);
            out.append(single.as_str());
            i = i + 1;
        }
    }
    assert(out@ =~= replace_from(s@, from@, to@, 0));
    out
}

/// A resolution in progress: the candidates, and the chain over them.
pub struct Resolution {
    pub sources: Vec<Source>,
    /// How many of the first candidates come from the argument.
    pub arg_sources: usize,
    pub chain: Chain,
}

impl Resolution {
    pub open spec fn wf(&self) -> bool {
        &&& self.chain.wf()
        &&& self.chain.len == self.sources@.len()
        &&& self.arg_sources < self.sources@.len()
    }

    /// The candidate to try now.
    pub fn current(&self) -> (r: &Source)
        requires
            self.wf(),
        ensures
            r@ == self.sources@[self.chain.next as int]@,
    {
        &self.sources[self.chain.next]
    }

    /// Takes the outcome of the current candidate; returns the result if the
    /// resolution ends here.
    pub fn record(&mut self, outcome: Outcome) -> (r: Option<Outcome>)
        requires
            old(self).wf(),
        ensures
            final(self).wf(),
            final(self).sources@ == old(self).sources@,
            final(self).arg_sources == old(self).arg_sources,
            stops_at(old(self).chain.next as nat, old(self).chain.len as nat, outcome) ==> r
                == Some(outcome) && final(self).chain.next == old(self).chain.next,
            !stops_at(old(self).chain.next as nat, old(self).chain.len as nat, outcome) ==> r is None
                && final(self).chain.next == old(self).chain.next + 1,
    {
        self.chain.record(outcome)
    }

    /// Whether the image still comes from the argument: false once every
    /// candidate of a given argument has failed.
    pub fn arg_resolved(&self) -> (r: bool)
        ensures
            r == (self.chain.next < self.arg_sources || self.arg_sources == 0),
    {
        self.chain.next < self.arg_sources || self.arg_sources == 0
    }
}

fn push_source(v: &mut Vec<Source>, s: Source)
    ensures
        views(final(v)@) == views(old(v)@).push(s@),
{
    let ghost sv = s@;
    v.push(s);
    assert(views(final(v)@) =~= views(old(v)@).push(sv));
}

fn copy_string(s: &String) -> (r: String)
    ensures
        r@ == s@,
{
    String::from_str(s.as_str())
}

/// Resolves the source image of a command: the size ceiling, and whether
/// the argument gave the image.
pub struct ImageResolver {
    /// Sizes from this on are refused.
    pub max_size: u64,
    /// Whether the image came from the argument (or no argument was given).
    pub arg_resolved: bool,
}

impl Default for ImageResolver {
    fn default() -> (r: Self)
        ensures
            r.max_size == DEFAULT_MAX_SIZE,
            r.arg_resolved,
    {
        Self::new()
    }
}

impl ImageResolver {
    /// A resolver with the default size ceiling.
    pub fn new() -> (r: Self)
        ensures
            r.max_size == DEFAULT_MAX_SIZE,
            r.arg_resolved,
    {
        ImageResolver { max_size: DEFAULT_MAX_SIZE, arg_resolved: true }
    }

    /// The address that a checked URL argument is fetched from.
    pub fn url_target(arg: &str) -> (r: String)
        ensures
            r@ == bare_url(arg@),
    {
        let v = chars_of(arg);
        let (i, j) = bare_url_bounds(&v);
        string_of(&v, i, j)
    }

    /// What to do with the response to a checked URL, from whether its status
    /// is a success and its declared content type: a failure status fails
    /// with `FetchUrlError`; an image is read; a tenor page is read as text;
    /// an imgur page gives the address of its GIF; anything else fails with
    /// `InvalidContentType`.
    pub fn resolve_url(arg: &str, status_ok: bool, content_type: Option<&str>) -> (r: UrlStep)
        ensures
            !status_ok ==> r matches UrlStep::Fail(Error::FetchUrlError),
            status_ok && is_image_type(opt_str_view(content_type)) ==> r is ReadImage,
            status_ok && !is_image_type(opt_str_view(content_type)) && is_tenor_page_url(
                bare_url(arg@),
            ) ==> r is ReadPage,
            status_ok && !is_image_type(opt_str_view(content_type)) && !is_tenor_page_url(
                bare_url(arg@),
            ) ==> match imgur_path(bare_url(arg@)) {
                Some(p) => r matches UrlStep::Follow(u) && u@ == imgur_gif_url(p),
                None => r matches UrlStep::Fail(Error::InvalidContentType),
            },
    {
        if !status_ok {
            return UrlStep::Fail(Error::FetchUrlError);
        }
        let image = match content_type {
            Some(t) => has_prefix(t, "image/"),
            None => false,
        };
        if image {
            return UrlStep::ReadImage;
        }
        let url = Self::url_target(arg);
        if is_tenor_page(url.as_str()) {
            return UrlStep::ReadPage;
        }
        match imgur_id(url.as_str()) {
            Some(id) => {
                let mut u = String::from_str("https://i.imgur.com/");
                u.append(id.as_str());
                u.append(".gif");
                UrlStep::Follow(u)
            },
            None => UrlStep::Fail(Error::InvalidContentType),
        }
    }

    /// The asset that a tenor page's body names; `InvalidContentType` if it
    /// names none.
    pub fn page_asset(page: &str) -> (r: Result<String, Error>)
        ensures
            r matches Ok(a) ==> tenor_asset(page@) == Some(a@),
            r is Err <==> tenor_asset(page@) is None,
            r matches Err(e) ==> e == Error::InvalidContentType,
    {
        match find_tenor_asset(page) {
            Some(a) => Ok(a),
            None => Err(Error::InvalidContentType),
        }
    }

    /// Admits a downloaded image: `ImageTooLarge` once its size (see
    /// `judged_size`) reaches the ceiling.
    pub fn admit_bytes(&self, declared: Option<u64>, bytes: Vec<u8>) -> (r: Outcome)
        ensures
            judged_size(declared, bytes@.len()) >= self.max_size ==> r == Err::<Vec<u8>, Error>(
                Error::ImageTooLarge(judged_size(declared, bytes@.len()) as u64, self.max_size),
            ),
            judged_size(declared, bytes@.len()) < self.max_size ==> r == Ok::<Vec<u8>, Error>(
                bytes,
            ),
    {
        let d: u64 = match declared {
            Some(n) => n,
            None => 0,
        };
        let len = bytes.len() as u64;
        let size = if d >= len {
            d
        } else {
            len
        };
        if size >= self.max_size {
            Err(Error::ImageTooLarge(size, self.max_size))
        } else {
            Ok(bytes)
        }
    }

    /// Admits an attachment by its declared size before it is downloaded:
    /// `ImageTooLarge` once the size reaches the ceiling.
    pub fn admit_attachment(&self, declared: u64) -> (r: Result<(), Error>)
        ensures
            declared >= self.max_size ==> r == Err::<(), Error>(
                Error::ImageTooLarge(declared, self.max_size),
            ),
            declared < self.max_size ==> r is Ok,
    {
        if declared >= self.max_size {
            Err(Error::ImageTooLarge(declared, self.max_size))
        } else {
            Ok(())
        }
    }

    /// The outcome of a plain fetch: its body on a success status,
    /// `FetchUrlError` otherwise.
    pub fn fetched(status_ok: bool, bytes: Vec<u8>) -> (r: Outcome)
        ensures
            status_ok ==> r == Ok::<Vec<u8>, Error>(bytes),
            !status_ok ==> r == Err::<Vec<u8>, Error>(Error::FetchUrlError),
    {
        if status_ok {
            Ok(bytes)
        } else {
            Err(Error::FetchUrlError)
        }
    }

    /// An avatar's address in a format that the pipeline decodes: `.webp`
    /// becomes `.gif` when the avatar hash starts with `a_` (an animated
    /// avatar), and `.png` otherwise.
    pub fn avatar_url(face: &str, hash: Option<&str>) -> (r: String)
        ensures
            r@ == avatar_url_text(face@, opt_str_view(hash)),
    {
        let animated = match hash {
            Some(h) => has_prefix(h, "a_"),
            None => false,
        };
        proof {
            reveal_strlit(".webp");
        }
        if animated {
            replace_all(face, ".webp", ".gif")
        } else {
            replace_all(face, ".webp", ".png")
        }
    }

    /// A guild member's avatar address (see `avatar_url`): the member's own
    /// guild avatar hash decides the format when there is one, else the
    /// user's.
    pub fn member_avatar_url(face: &str, member_hash: Option<&str>, user_hash: Option<&str>) -> (r:
        String)
        ensures
            r@ == avatar_url_text(
                face@,
                match member_hash {
                    Some(h) => Some(h@),
                    None => opt_str_view(user_hash),
                },
            ),
    {
        match member_hash {
            Some(h) => Self::avatar_url(face, Some(h)),
            None => Self::avatar_url(face, user_hash),
        }
    }

    /// Adds the candidates of a message's attachments: each one declared as
    /// an image, in order.
    fn get_file_image(v: &mut Vec<Source>, atts: &Vec<AttachmentInfo>, origin: Origin)
        ensures
            views(final(v)@) == views(old(v)@) + file_sources(atts@, origin, atts@.len()),
    {
        let ghost v0 = views(v@);
        let mut i: usize = 0;
        while i < atts.len()
            invariant
                i <= atts@.len(),
                views(v@) == v0 + file_sources(atts@, origin, i as nat),
            decreases atts@.len() - i,
        {
            let a = &atts[i];
            let image = match &a.content_type {
                Some(t) => has_prefix(t.as_str(), "image/"),
                None => false,
            };
            if image {
                push_source(v, Source::Attachment(origin, i, a.size));
            }
            i = i + 1;
        }
    }

    /// Adds the candidates of a message's stickers: the image of each one
    /// that has one.
    fn get_sticker_image(v: &mut Vec<Source>, stickers: &Vec<Option<String>>)
        ensures
            views(final(v)@) == views(old(v)@) + sticker_sources(stickers@, stickers@.len()),
    {
        let ghost v0 = views(v@);
        let mut i: usize = 0;
        while i < stickers.len()
            invariant
                i <= stickers@.len(),
                views(v@) == v0 + sticker_sources(stickers@, i as nat),
            decreases stickers@.len() - i,
        {
            match &stickers[i] {
                Some(u) => push_source(v, Source::Fetch(copy_string(u))),
                None => {},
            }
            i = i + 1;
        }
    }

    /// Adds the candidates of a message's embeds: the image of each, or else
    /// its thumbnail.
    fn get_embed_image(v: &mut Vec<Source>, embeds: &Vec<EmbedInfo>)
        ensures
            views(final(v)@) == views(old(v)@) + embed_sources(embeds@, embeds@.len()),
    {
        let ghost v0 = views(v@);
        let mut i: usize = 0;
        while i < embeds.len()
            invariant
                i <= embeds@.len(),
                views(v@) == v0 + embed_sources(embeds@, i as nat),
            decreases embeds@.len() - i,
        {
            let e = &embeds[i];
            match &e.image {
                Some(u) => push_source(v, Source::Checked(copy_string(u))),
                None => match &e.thumbnail {
                    Some(u) => push_source(v, Source::Checked(copy_string(u))),
                    None => {},
                },
            }
            i = i + 1;
        }
    }

    /// Adds a message's candidates: attachments, stickers, then embeds.
    fn get_attachments(v: &mut Vec<Source>, m: &MessageSources, origin: Origin)
        ensures
            views(final(v)@) == views(old(v)@) + message_sources(*m, origin),
    {
        Self::get_file_image(v, &m.attachments, origin);
        Self::get_sticker_image(v, &m.stickers);
        Self::get_embed_image(v, &m.embeds);
    }

    /// The address of the image of the emoji that a token names: a custom
    /// emoji token or a bare emoji id; any other token is an
    /// `EmojiParseError` that names it.
    pub fn convert_emoji(argument: &str) -> (r: Result<String, Error>)
        ensures
            r matches Ok(u) ==> emoji_of(argument@) matches Some(p) && u@ == emoji_url_text(
                p.0,
                p.1,
            ),
            r is Err <==> emoji_of(argument@) is None,
            r matches Err(e) ==> e matches Error::EmojiParseError(t) && t@ == argument@,
    {
        match parse_emoji(argument) {
            Ok((animated, id)) => Ok(emoji_url(animated, id.as_str())),
            Err(e) => Err(e),
        }
    }

    /// Adds the candidates for a word (see `conversion_sources`).
    pub fn try_conversions(v: &mut Vec<Source>, arg: &str, origin: Origin)
        ensures
            views(final(v)@) == views(old(v)@) + conversion_sources(arg@, origin),
    {
        let ghost v0 = views(v@);
        if origin == Origin::Invoking {
            push_source(v, Source::Member(String::from_str(arg)));
            push_source(v, Source::User(String::from_str(arg)));
        }
        push_source(v, Source::GuildEmoji(origin, String::from_str(arg)));
        match Self::convert_emoji(arg) {
            Ok(u) => push_source(v, Source::Fetch(u)),
            Err(_) => {},
        }
        let mut cdn = String::from_str("https://emojicdn.elk.sh/");
        cdn.append(arg);
        cdn.append("?style=twitter");
        push_source(v, Source::Fetch(cdn));
        push_source(v, Source::Checked(String::from_str(arg)));
        assert(views(v@) =~= v0 + conversion_sources(arg@, origin));
    }

    /// The candidates for a command, in the order in which they are tried,
    /// with a chain at the first.
    pub fn plan(arg: Option<&str>, message: &MessageSources, referenced: Option<&MessageSources>) -> (r:
        Resolution)
        ensures
            r.wf(),
            r.chain.next == 0,
            views(r.sources@) == plan_sources(
                match arg {
                    Some(t) => Some(t@),
                    None => None,
                },
                *message,
                match referenced {
                    Some(m) => Some(*m),
                    None => None,
                },
            ),
            r.arg_sources == match arg {
                Some(t) => conversion_sources(t@, Origin::Invoking).len(),
                None => 0,
            },
    {
        let mut v: Vec<Source> = Vec::new();
        match arg {
            Some(t) => Self::try_conversions(&mut v, t, Origin::Invoking),
            None => {},
        }
        let arg_sources = v.len();
        assert(v@.len() == views(v@).len());
        Self::get_attachments(&mut v, message, Origin::Invoking);
        match referenced {
            Some(m) => {
                Self::get_attachments(&mut v, m, Origin::Referenced);
                if m.content.as_str().unicode_len() > 0 {
                    let word = first_word(m.content.as_str());
                    Self::try_conversions(&mut v, word.as_str(), Origin::Referenced);
                }
            },
            None => {},
        }
        push_source(&mut v, Source::Avatar);
        assert(v@.len() == views(v@).len());
        let len = v.len();
        let r = Resolution { sources: v, arg_sources, chain: Chain::new(len) };
        assert(views(r.sources@) =~= plan_sources(
            match arg {
                Some(t) => Some(t@),
                None => None,
            },
            *message,
            match referenced {
                Some(m) => Some(*m),
                None => None,
            },
        ));
        r
    }
}

} // verus!
