//! The tracked data: works, notification channels, users, and what one extraction yields.
//! Timestamps are milliseconds since the Unix epoch, UTC.
use vstd::prelude::*;

verus! {

pub open spec fn opt_view(o: Option<String>) -> Option<Seq<char>> {
    match o {
        Some(s) => Some(s@),
        None => None,
    }
}

pub fn clone_opt(o: &Option<String>) -> (r: Option<String>)
    ensures
        r == *o,
{
    match o {
        Some(s) => Some(s.clone()),
        None => None,
    }
}

/// A tracked work, keyed by its source URL.
pub struct Manga {
    pub title: String,
    pub url: String,
    pub latest_chapter: i32,
    pub latest_chapter_url: String,
    pub image_url: Option<String>,
    pub created_at: i64,
    pub updated_at: i64,
}

pub struct MangaView {
    pub title: Seq<char>,
    pub url: Seq<char>,
    pub latest_chapter: int,
    pub latest_chapter_url: Seq<char>,
    pub image_url: Option<Seq<char>>,
    pub created_at: int,
    pub updated_at: int,
}

impl View for Manga {
    type V = MangaView;

    open spec fn view(&self) -> MangaView {
        MangaView {
            title: self.title@,
            url: self.url@,
            latest_chapter: self.latest_chapter as int,
            latest_chapter_url: self.latest_chapter_url@,
            image_url: opt_view(self.image_url),
            created_at: self.created_at as int,
            updated_at: self.updated_at as int,
        }
    }
}

impl Manga {
    /// Installment numbers are never negative.
    pub open spec fn wf(&self) -> bool {
        self.latest_chapter >= 0
    }

    /// A work created at `now`; both of its timestamps are `now`.
    pub fn new(
        title: String,
        url: String,
        latest_chapter: i32,
        latest_chapter_url: String,
        image_url: Option<String>,
        now: i64,
    ) -> (r: Manga)
        ensures
            r@ == (MangaView {
                title: title@,
                url: url@,
                latest_chapter: latest_chapter as int,
                latest_chapter_url: latest_chapter_url@,
                image_url: opt_view(image_url),
                created_at: now as int,
                updated_at: now as int,
            }),
    {
        Manga { title, url, latest_chapter, latest_chapter_url, image_url, created_at: now, updated_at: now }
    }

    /// A field-for-field copy.
    pub fn duplicate(&self) -> (r: Manga)
        ensures
            r@ == self@,
    {
        Manga {
            title: self.title.clone(),
            url: self.url.clone(),
            latest_chapter: self.latest_chapter,
            latest_chapter_url: self.latest_chapter_url.clone(),
            image_url: clone_opt(&self.image_url),
            created_at: self.created_at,
            updated_at: self.updated_at,
        }
    }
}

/// A notification channel, registered for the guild that owns it.
pub struct Channel {
    pub channel_id: String,
    pub guild_id: String,
    pub guild_name: String,
    pub channel_name: String,
    pub created_at: i64,
    pub updated_at: i64,
}

impl Channel {
    /// A channel registered at `now`; both of its timestamps are `now`.
    pub fn new(
        channel_id: String,
        guild_id: String,
        channel_name: String,
        guild_name: String,
        now: i64,
    ) -> (r: Channel)
        ensures
            r.channel_id@ == channel_id@,
            r.guild_id@ == guild_id@,
            r.channel_name@ == channel_name@,
            r.guild_name@ == guild_name@,
            r.created_at == now,
            r.updated_at == now,
    {
        Channel { channel_id, guild_id, guild_name, channel_name, created_at: now, updated_at: now }
    }
}

/// A registered user of a guild.
pub struct User {
    pub user_id: String,
    pub guild_id: String,
    pub guild_name: String,
    pub guild_user_nickname: String,
    pub global_name: String,
    pub user_name: String,
    pub created_at: i64,
    pub updated_at: i64,
}

impl User {
    /// A user registered at `now`; both of its timestamps are `now`.
    pub fn new(
        user_id: String,
        guild_id: String,
        guild_name: String,
        guild_user_nickname: String,
        global_name: String,
        user_name: String,
        now: i64,
    ) -> (r: User)
        ensures
            r.user_id@ == user_id@,
            r.guild_id@ == guild_id@,
            r.guild_name@ == guild_name@,
            r.guild_user_nickname@ == guild_user_nickname@,
            r.global_name@ == global_name@,
            r.user_name@ == user_name@,
            r.created_at == now,
            r.updated_at == now,
    {
        User {
            user_id,
            guild_id,
            guild_name,
            guild_user_nickname,
            global_name,
            user_name,
            created_at: now,
            updated_at: now,
        }
    }

    /// The user with the three names that the chat platform reports now, updated at `now`;
    /// the identity, guild and creation time stay.
    pub fn with_profile(
        self,
        guild_user_nickname: String,
        global_name: String,
        user_name: String,
        now: i64,
    ) -> (r: User)
        ensures
            r.user_id == self.user_id,
            r.guild_id == self.guild_id,
            r.guild_name == self.guild_name,
            r.guild_user_nickname@ == guild_user_nickname@,
            r.global_name@ == global_name@,
            r.user_name@ == user_name@,
            r.created_at == self.created_at,
            r.updated_at == now,
    {
        User { guild_user_nickname, global_name, user_name, updated_at: now, ..self }
    }
}

/// What one extraction finds on a work's page: its title, the number and link of the latest
/// installment, and the cover image where there is one.
pub struct CanonicalRecord {
    pub title: String,
    pub latest_chapter: i32,
    pub chapter_url: String,
    pub image_url: Option<String>,
}

pub struct RecordView {
    pub title: Seq<char>,
    pub latest_chapter: int,
    pub chapter_url: Seq<char>,
    pub image_url: Option<Seq<char>>,
}

impl View for CanonicalRecord {
    type V = RecordView;

    open spec fn view(&self) -> RecordView {
        RecordView {
            title: self.title@,
            latest_chapter: self.latest_chapter as int,
            chapter_url: self.chapter_url@,
            image_url: opt_view(self.image_url),
        }
    }
}

} // verus!
