//! Decisions of the registration commands: which works may be tracked, under what key, and
//! whether a channel registration updates or inserts.
use vstd::prelude::*;
use crate::models::{Channel, Manga, MangaView};
use crate::source::{normalize, normalize_url, source_for, Source};
use crate::text::{chars_of, matches_at, occurs_at};

verus! {

/// Why a work could not be registered.
#[derive(Clone, Copy, Debug, PartialEq, Eq, Structural)]
pub enum RegisterError {
    /// The URL is not `https://`, or belongs to no supported site.
    InvalidUrl,
    /// The normalized URL is already tracked.
    AlreadyExists,
}

/// Registration and lookup of tracked works.
pub struct MangaService;

pub open spec fn registrable(url: Seq<char>) -> bool {
    occurs_at(url, "https://"@, 0) && source_for(url) is Some
}

/// A newly tracked work: untitled, at installment 0, with its normalized URL standing in for the
/// installment link, and no image.
pub open spec fn new_work(url: Seq<char>, now: int) -> MangaView {
    MangaView {
        title: "Untitled"@,
        url: normalize(url),
        latest_chapter: 0,
        latest_chapter_url: normalize(url),
        image_url: None,
        created_at: now,
        updated_at: now,
    }
}

/// The outcome of registering `url` when the store does or does not already track its
/// normalized form.
pub open spec fn register_spec(url: Seq<char>, already_tracked: bool, now: int) -> Result<
    MangaView,
    RegisterError,
> {
    if !registrable(url) {
        Err(RegisterError::InvalidUrl)
    } else if already_tracked {
        Err(RegisterError::AlreadyExists)
    } else {
        Ok(new_work(url, now))
    }
}

pub open spec fn register_view(r: Result<Manga, RegisterError>) -> Result<MangaView, RegisterError> {
    match r {
        Ok(m) => Ok(m@),
        Err(e) => Err(e),
    }
}

/// A watchlist store's contents after an upsert keyed by the work's URL.
pub open spec fn upsert(store: Map<Seq<char>, MangaView>, work: MangaView) -> Map<
    Seq<char>,
    MangaView,
> {
    store.insert(work.url, work)
}

/// What a watchlist store holds under `url`.
pub open spec fn lookup(store: Map<Seq<char>, MangaView>, url: Seq<char>) -> Option<MangaView> {
    if store.contains_key(url) {
        Some(store[url])
    } else {
        None
    }
}

fn https_text() -> (r: &'static str)
    ensures
        r@ == "https://"@,
{
    "https://"
}

impl MangaService {
    /// The key that `url` is stored under, its normalized form; `InvalidUrl` where it cannot be
    /// registered.
    pub fn registration_key(url: &str) -> (r: Result<String, RegisterError>)
        ensures
            registrable(url@) ==> (r matches Ok(k) && k@ == normalize(url@)),
            !registrable(url@) ==> r == Err::<String, RegisterError>(RegisterError::InvalidUrl),
    {
        let cs = chars_of(url);
        let prefix = chars_of(https_text());
        if !matches_at(&cs, &prefix, 0) {
            return Err(RegisterError::InvalidUrl);
        }
        match Source::for_url(url) {
            None => Err(RegisterError::InvalidUrl),
            Some(_) => Ok(normalize_url(url)),
        }
    }

    /// Registers `url` for tracking, given whether the store already holds its normalized form.
    pub fn register_work(url: &str, already_tracked: bool, now: i64) -> (r: Result<
        Manga,
        RegisterError,
    >)
        ensures
            register_view(r) == register_spec(url@, already_tracked, now as int),
            r matches Ok(m) ==> m.wf(),
    {
        let key = match MangaService::registration_key(url) {
            Err(e) => {
                return Err(e);
            },
            Ok(k) => k,
        };
        if already_tracked {
            return Err(RegisterError::AlreadyExists);
        }
        let chapter_url = key.clone();
        Ok(Manga::new(String::from_str("Untitled"), key, 0, chapter_url, None, now))
    }
}

/// Registering a work and then looking up its normalized URL in the store that the new work was
/// upserted into finds it, at installment 0 and under that URL.
pub proof fn lemma_register_then_lookup(store: Map<Seq<char>, MangaView>, url: Seq<char>, now: int)
    ensures
        register_spec(url, store.contains_key(normalize(url)), now) matches Ok(w) ==> {
            &&& lookup(upsert(store, w), normalize(url)) == Some(w)
            &&& w.latest_chapter == 0
            &&& w.url == normalize(url)
        },
{
}

/// How a channel registration is written.
#[derive(Clone, Copy, Debug, PartialEq, Eq, Structural)]
pub enum ChannelWrite {
    /// The guild already has a channel: replace it.
    Update,
    /// The guild has none yet: insert one.
    Create,
}

/// Registration and listing of notification channels.
pub struct ChannelsService;

pub open spec fn guild_has_channel(existing: Seq<Channel>, guild_id: Seq<char>) -> bool {
    exists|i: int| 0 <= i < existing.len() && (#[trigger] existing[i]).guild_id@ == guild_id
}

/// One line of the channel listing.
pub open spec fn channel_line(c: Channel) -> Seq<char> {
    "**"@ + c.channel_name@ + "** ("@ + c.channel_id@ + ")\n"@
}

/// The channel listing: one line per channel, separated by blank lines.
pub open spec fn listing(channels: Seq<Channel>) -> Seq<char>
    decreases channels.len(),
{
    if channels.len() == 0 {
        Seq::empty()
    } else if channels.len() == 1 {
        channel_line(channels[0])
    } else {
        listing(channels.drop_last()) + "\n"@ + channel_line(channels.last())
    }
}

impl ChannelsService {
    /// A guild keeps at most one channel: registering where it has one updates that one.
    pub fn registration_write(existing: &Vec<Channel>, guild_id: &str) -> (r: ChannelWrite)
        ensures
            (r == ChannelWrite::Update) <==> guild_has_channel(existing@, guild_id@),
    {
        let key = String::from_str(guild_id);
        let mut i: usize = 0;
        while i < existing.len()
            invariant
                key@ == guild_id@,
                i <= existing.len(),
                forall|j: int| 0 <= j < i ==> (#[trigger] existing@[j]).guild_id@ != guild_id@,
            decreases existing.len() - i,
        {
            if existing[i].guild_id == key {
                return ChannelWrite::Update;
            }
            i = i + 1;
        }
        ChannelWrite::Create
    }

    /// The text that lists `channels`; `None` where there are none.
    pub fn describe_channels(channels: &Vec<Channel>) -> (r: Option<String>)
        ensures
            channels.len() == 0 ==> r is None,
            channels.len() > 0 ==> (r matches Some(t) && t@ == listing(channels@)),
    {
        if channels.len() == 0 {
            return None;
        }
        let mut out = String::new();
        let mut i: usize = 0;
        while i < channels.len()
            invariant
                i <= channels.len(),
                out@ == listing(channels@.take(i as int)),
            decreases channels.len() - i,
        {
            let ghost before = out@;
            assert(channels@.take(i + 1).drop_last() =~= channels@.take(i as int));
            if i > 0 {
                out.append("\n");
            }
            let c = &channels[i];
            out.append("**");
            out.append(c.channel_name.as_str());
            out.append("** (");
            out.append(c.channel_id.as_str());
            out.append(")\n");
            proof {
                if i == 0 {
                    assert(before == Seq::<char>::empty());
                    assert(out@ =~= channel_line(channels@[0]));
                } else {
                    assert(out@ =~= before + "\n"@ + channel_line(channels@[i as int]));
                }
                assert(channels@.take(i + 1).last() == channels@[i as int]);
                assert(channels@.take(i + 1)[0] == channels@[0]);
            }
            i = i + 1;
        }
        assert(channels@.take(channels.len() as int) =~= channels@);
        Some(out)
    }
}

} // verus!
