//! Playlists and channels: their entries, the request that asks for the next
//! page of entries, and the texts their pages write numbers and titles in.

use vstd::prelude::*;

use crate::error::Error;
use crate::id::IdBuf;
use crate::numbers::parsed_u64;
use crate::numbers::parse_u64;
use crate::text::collect_chars;
use vstd::string::StrSliceExecFns;

verus! {

/// A thumbnail of a video, a playlist or a channel.
#[derive(Debug)]
pub struct Thumbnail {
    pub width: u64,
    pub height: u64,
    pub url: String,
}

impl Clone for Thumbnail {
    fn clone(&self) -> (r: Self)
        ensures
            r == *self,
    {
        Thumbnail { width: self.width, height: self.height, url: self.url.clone() }
    }
}

/// What a playlist's page says about the playlist.
#[derive(Debug)]
pub struct PlaylistInfo {
    pub thumbnails: Vec<Thumbnail>,
    pub title: String,
    pub description: String,
    pub page_url: String,
}

/// An entry of a playlist.
#[derive(Debug)]
pub struct PlaylistVideo {
    pub index: u64,
    pub video_id: IdBuf,
    pub title: String,
    pub length_seconds: u64,
    pub thumbnails: Vec<Thumbnail>,
    pub author: String,
}

/// What a channel's page says about the channel.
#[derive(Debug)]
pub struct ChannelInfo {
    pub title: String,
    pub description: String,
    pub keywords: Option<String>,
    pub channel_url: String,
    pub thumbnail: Vec<Thumbnail>,
    pub available_countries: Vec<String>,
}

/// A video of a channel.
#[derive(Debug)]
pub struct ChannelVideo {
    pub video_id: IdBuf,
    pub title: String,
    pub length_seconds: u64,
    pub thumbnails: Vec<Thumbnail>,
    pub author: String,
}

fn clone_thumbnails(v: &Vec<Thumbnail>) -> (r: Vec<Thumbnail>)
    ensures
        r@ == v@,
{
    let mut r: Vec<Thumbnail> = Vec::new();
    let mut i: usize = 0;
    while i < v.len()
        invariant
            i <= v@.len(),
            r@ == v@.subrange(0, i as int),
        decreases v@.len() - i,
    {
        r.push(v[i].clone());
        i = i + 1;
    }
    r
}

fn clone_strings(v: &Vec<String>) -> (r: Vec<String>)
    ensures
        r@ == v@,
{
    let mut r: Vec<String> = Vec::new();
    let mut i: usize = 0;
    while i < v.len()
        invariant
            i <= v@.len(),
            r@ == v@.subrange(0, i as int),
        decreases v@.len() - i,
    {
        r.push(v[i].clone());
        i = i + 1;
    }
    r
}

/// Two descriptions of a playlist say the same.
pub open spec fn same_playlist_info(a: PlaylistInfo, b: PlaylistInfo) -> bool {
    &&& a.thumbnails@ == b.thumbnails@
    &&& a.title == b.title
    &&& a.description == b.description
    &&& a.page_url == b.page_url
}

impl Clone for PlaylistInfo {
    fn clone(&self) -> (r: Self)
        ensures
            same_playlist_info(r, *self),
    {
        PlaylistInfo {
            thumbnails: clone_thumbnails(&self.thumbnails),
            title: self.title.clone(),
            description: self.description.clone(),
            page_url: self.page_url.clone(),
        }
    }
}

impl Clone for ChannelInfo {
    fn clone(&self) -> (r: Self)
        ensures
            r.title == self.title,
            r.description == self.description,
            r.keywords == self.keywords,
            r.channel_url == self.channel_url,
            r.thumbnail@ == self.thumbnail@,
            r.available_countries@ == self.available_countries@,
    {
        ChannelInfo {
            title: self.title.clone(),
            description: self.description.clone(),
            keywords: match &self.keywords {
                Some(k) => Some(k.clone()),
                None => None,
            },
            channel_url: self.channel_url.clone(),
            thumbnail: clone_thumbnails(&self.thumbnail),
            available_countries: clone_strings(&self.available_countries),
        }
    }
}

/// Two playlist entries say the same.
pub open spec fn same_playlist_video(a: PlaylistVideo, b: PlaylistVideo) -> bool {
    &&& a.index == b.index
    &&& a.video_id@ == b.video_id@
    &&& a.title == b.title
    &&& a.length_seconds == b.length_seconds
    &&& a.thumbnails@ == b.thumbnails@
    &&& a.author == b.author
}

impl Clone for PlaylistVideo {
    fn clone(&self) -> (r: Self)
        ensures
            same_playlist_video(r, *self),
    {
        PlaylistVideo {
            index: self.index,
            video_id: self.video_id.clone(),
            title: self.title.clone(),
            length_seconds: self.length_seconds,
            thumbnails: clone_thumbnails(&self.thumbnails),
            author: self.author.clone(),
        }
    }
}

/// Two channel videos say the same.
pub open spec fn same_channel_video(a: ChannelVideo, b: ChannelVideo) -> bool {
    &&& a.video_id@ == b.video_id@
    &&& a.title == b.title
    &&& a.length_seconds == b.length_seconds
    &&& a.thumbnails@ == b.thumbnails@
    &&& a.author == b.author
}

/// A playlist: what its page says about it, and its entries in order.
pub struct Playlist {
    playlist_info: PlaylistInfo,
    videos: Vec<PlaylistVideo>,
}

/// A channel: what its page says about it, and its videos in order.
pub struct Channel {
    channel_info: ChannelInfo,
    videos: Vec<ChannelVideo>,
}

impl Playlist {
    /// The playlist with this information and these entries.
    pub fn new(playlist_info: PlaylistInfo, videos: Vec<PlaylistVideo>) -> (p: Self)
        ensures
            p.spec_info() == playlist_info,
            p.spec_videos() == videos@,
    {
        Playlist { playlist_info, videos }
    }

    /// What the playlist's page says about it.
    pub closed spec fn spec_info(&self) -> PlaylistInfo {
        self.playlist_info
    }

    /// The entries of the playlist.
    pub closed spec fn spec_videos(&self) -> Seq<PlaylistVideo> {
        self.videos@
    }

    /// A copy of what the playlist's page says about it.
    pub fn playlist_info(&self) -> (r: PlaylistInfo)
        ensures
            same_playlist_info(r, self.spec_info()),
    {
        self.playlist_info.clone()
    }

    /// A copy of the entries of the playlist.
    pub fn videos(&self) -> (r: Vec<PlaylistVideo>)
        ensures
            r@.len() == self.spec_videos().len(),
            forall|i: int| 0 <= i < r@.len() ==> same_playlist_video(#[trigger] r@[i], self.spec_videos()[i]),
    {
        let mut r: Vec<PlaylistVideo> = Vec::new();
        let mut i: usize = 0;
        while i < self.videos.len()
            invariant
                i <= self.videos@.len(),
                r@.len() == i,
                forall|j: int| 0 <= j < i ==> same_playlist_video(#[trigger] r@[j], self.videos@[j]),
            decreases self.videos@.len() - i,
        {
            r.push(self.videos[i].clone());
            i = i + 1;
        }
        r
    }
}

impl Channel {
    /// The channel with this information and these videos.
    pub fn new(channel_info: ChannelInfo, videos: Vec<ChannelVideo>) -> (c: Self)
        ensures
            c.spec_info() == channel_info,
            c.spec_videos() == videos@,
    {
        Channel { channel_info, videos }
    }

    /// What the channel's page says about it.
    pub closed spec fn spec_info(&self) -> ChannelInfo {
        self.channel_info
    }

    /// The videos of the channel.
    pub closed spec fn spec_videos(&self) -> Seq<ChannelVideo> {
        self.videos@
    }

    /// A copy of what the channel's page says about it.
    pub fn channel_info(&self) -> (r: ChannelInfo)
        ensures
            r.title == self.spec_info().title,
            r.description == self.spec_info().description,
            r.keywords == self.spec_info().keywords,
            r.channel_url == self.spec_info().channel_url,
            r.thumbnail@ == self.spec_info().thumbnail@,
            r.available_countries@ == self.spec_info().available_countries@,
    {
        self.channel_info.clone()
    }

    /// A copy of the videos of the channel.
    pub fn videos(&self) -> (r: Vec<ChannelVideo>)
        ensures
            r@.len() == self.spec_videos().len(),
            forall|i: int| 0 <= i < r@.len() ==> same_channel_video(#[trigger] r@[i], self.spec_videos()[i]),
    {
        let mut r: Vec<ChannelVideo> = Vec::new();
        let mut i: usize = 0;
        while i < self.videos.len()
            invariant
                i <= self.videos@.len(),
                r@.len() == i,
                forall|j: int| 0 <= j < i ==> same_channel_video(#[trigger] r@[j], self.videos@[j]),
            decreases self.videos@.len() - i,
        {
            r.push(self.videos[i].clone());
            i = i + 1;
        }
        r
    }
}

impl Clone for ChannelVideo {
    fn clone(&self) -> (r: Self)
        ensures
            r.video_id@ == self.video_id@,
            r.title == self.title,
            r.length_seconds == self.length_seconds,
            r.thumbnails@ == self.thumbnails@,
            r.author == self.author,
    {
        ChannelVideo {
            video_id: self.video_id.clone(),
            title: self.title.clone(),
            length_seconds: self.length_seconds,
            thumbnails: clone_thumbnails(&self.thumbnails),
            author: self.author.clone(),
        }
    }
}

impl ChannelVideo {
    /// Sets the author and gives a copy of the entry as it is then.
    pub fn add_author(&mut self, author: String) -> (r: Self)
        ensures
            final(self).author == author,
            final(self).video_id == old(self).video_id,
            final(self).title == old(self).title,
            final(self).length_seconds == old(self).length_seconds,
            final(self).thumbnails == old(self).thumbnails,
            r.video_id@ == old(self).video_id@,
            r.title == old(self).title,
            r.length_seconds == old(self).length_seconds,
            r.thumbnails@ == old(self).thumbnails@,
            r.author == author,
    {
        self.author = author;
        self.clone()
    }
}

/// The client that a continuation request names.
#[derive(Debug, Default)]
pub struct ClientSender {
    pub client_name: String,
    pub client_version: String,
}

/// The context of a continuation request.
#[derive(Debug, Default)]
pub struct ContextSender {
    pub client: ClientSender,
}

/// The body of the request for the next page of a playlist's or a channel's
/// entries.
#[derive(Debug, Default)]
pub struct ContinuationReq {
    pub context: ContextSender,
    pub continuation: String,
}

impl ContinuationReq {
    /// The request for the page that `continuation` points at, sent as the
    /// web client of version `2.20221124.00.00`.
    pub fn new(continuation: &str) -> (r: Self)
        ensures
            r.continuation@ == continuation@,
            r.context.client.client_name@ == "WEB"@,
            r.context.client.client_version@ == "2.20221124.00.00"@,
    {
        ContinuationReq {
            context: ContextSender {
                client: ClientSender {
                    client_name: "WEB".to_string(),
                    client_version: "2.20221124.00.00".to_string(),
                },
            },
            continuation: continuation.to_string(),
        }
    }
}

/// How the request for a playlist's page is judged by its HTTP status: the
/// listing goes on only after a client error (a status from 400 to 499);
/// any other status ends it with `BadIdFormat`.
pub fn playlist_status_check(status: u16) -> (r: Result<(), Error>)
    ensures
        r is Ok <==> 400 <= status < 500,
        r matches Err(e) ==> e is BadIdFormat,
{
    if 400 <= status && status < 500 {
        Ok(())
    } else {
        Err(Error::BadIdFormat)
    }
}

/// The text of the first of a title's runs, or nothing when it has none.
pub fn first_run_text(runs: &Vec<String>) -> (r: String)
    ensures
        r@ == (if runs@.len() > 0 {
            runs@[0]@
        } else {
            Seq::<char>::empty()
        }),
{
    if runs.len() > 0 {
        runs[0].clone()
    } else {
        String::new()
    }
}

/// The parts of `s` between its `:` characters, as `str::split(':')` gives
/// them (a text without `:` is one part).
pub open spec fn split_colon(s: Seq<char>) -> Seq<Seq<char>>
    decreases s.len(),
{
    if s.len() == 0 {
        seq![Seq::<char>::empty()]
    } else {
        let p = split_colon(s.drop_last());
        if s.last() == ':' {
            p.push(Seq::<char>::empty())
        } else {
            p.update(p.len() - 1, p.last().push(s.last()))
        }
    }
}

/// The parts read as the digits of a number in base 60, the last part being
/// the lowest digit; `None` when a part is not a `u64`.
pub open spec fn base60_value(parts: Seq<Seq<char>>) -> Option<int>
    decreases parts.len(),
{
    if parts.len() == 0 {
        Some(0)
    } else {
        match (base60_value(parts.drop_last()), parsed_u64(parts.last())) {
            (Some(a), Some(v)) => Some(a * 60 + v),
            _ => None,
        }
    }
}

/// The seconds that a duration such as `1:02:03` writes: its parts are
/// numbers, weighted 1, 60, 3600, ... from the right. There is none when a
/// part is not a number, when the sum does not fit in a `u64`, or when there
/// are more than ten parts (the weight of an eleventh does not fit).
pub open spec fn length_seconds_of(text: Seq<char>) -> Option<u64> {
    let parts = split_colon(text);
    match base60_value(parts) {
        Some(t) => if parts.len() <= 10 && t <= u64::MAX {
            Some(t as u64)
        } else {
            None
        },
        None => None,
    }
}

proof fn lemma_split_nonempty(s: Seq<char>)
    ensures
        split_colon(s).len() >= 1,
    decreases s.len(),
{
    if s.len() > 0 {
        lemma_split_nonempty(s.drop_last());
    }
}

proof fn lemma_base60_nonneg(parts: Seq<Seq<char>>)
    ensures
        base60_value(parts) matches Some(t) ==> t >= 0,
    decreases parts.len(),
{
    if parts.len() > 0 {
        lemma_base60_nonneg(parts.drop_last());
    }
}

/// A prefix of the parts has a value no larger than the whole.
proof fn lemma_base60_prefix(parts: Seq<Seq<char>>, j: int)
    requires
        0 <= j <= parts.len(),
    ensures
        base60_value(parts) matches Some(t) ==> (base60_value(parts.subrange(0, j)) matches Some(
            a,
        ) && a <= t),
    decreases parts.len() - j,
{
    if j == parts.len() {
        assert(parts.subrange(0, j) =~= parts);
    } else {
        lemma_base60_prefix(parts.drop_last(), j);
        assert(parts.drop_last().subrange(0, j) =~= parts.subrange(0, j));
        lemma_base60_nonneg(parts.drop_last());
    }
}

/// The number of seconds a duration text writes, or `None` where reading it
/// fails (see `length_seconds_of`).
pub fn length_seconds_from_text(text: &str) -> (r: Option<u64>)
    ensures
        r == length_seconds_of(text@),
{
    let cs = collect_chars(text);
    let n = cs.len();
    let mut start: usize = 0;
    let mut acc: u64 = 0;
    let mut count: usize = 0;
    let ghost mut done: Seq<Seq<char>> = Seq::empty();
    let mut i: usize = 0;
    proof {
        assert(text@.subrange(0, 0) =~= Seq::<char>::empty());
        assert(done.push(Seq::<char>::empty()) =~= seq![Seq::<char>::empty()]);
    }
    while i < n
        invariant
            cs@ == text@,
            n == cs@.len(),
            start <= i <= n,
            count == done.len(),
            count <= 9,
            split_colon(text@.subrange(0, i as int)) == done.push(text@.subrange(start as int, i as int)),
            base60_value(done) == Some(acc as int),
            forall|k: int| start <= k < i ==> #[trigger] text@[k] != ':',
        decreases n - i,
    {
        let ghost pre = text@.subrange(0, i + 1);
        proof {
            assert(pre.drop_last() =~= text@.subrange(0, i as int));
            assert(pre.last() == text@[i as int]);
        }
        if cs[i] == ':' {
            let part = text.substring_char(start, i);
            let v = match parse_u64(part) {
                Some(v) => v,
                None => {
                    proof {
                        let parts = split_colon(text@);
                        assert(split_colon(pre) == done.push(part@).push(Seq::<char>::empty()));
                        lemma_split_prefix_parts(text@, (i + 1) as int);
                        lemma_base60_prefix(parts, done.len() + 1 as int);
                        assert(parts.subrange(0, done.len() + 1 as int) =~= done.push(part@));
                    }
                    return None;
                },
            };
            let ghost next = done.push(part@);
            proof {
                assert(next.drop_last() =~= done);
                assert(split_colon(pre) == next.push(Seq::<char>::empty()));
            }
            if count == 9 {
                proof {
                    lemma_split_prefix_parts(text@, (i + 1) as int);
                }
                return None;
            }
            let step = match acc.checked_mul(60) {
                Some(a) => a.checked_add(v),
                None => None,
            };
            match step {
                Some(a) => {
                    acc = a;
                },
                None => {
                    proof {
                        let parts = split_colon(text@);
                        lemma_split_prefix_parts(text@, (i + 1) as int);
                        lemma_base60_prefix(parts, next.len() as int);
                        assert(parts.subrange(0, next.len() as int) =~= next);
                    }
                    return None;
                },
            }
            proof {
                done = next;
                assert(text@.subrange((i + 1) as int, (i + 1) as int) =~= Seq::<char>::empty());
            }
            count = count + 1;
            start = i + 1;
        } else {
            proof {
                let p = split_colon(text@.subrange(0, i as int));
                assert(text@.subrange(start as int, i + 1) =~= text@.subrange(start as int, i as int).push(text@[i as int]));
                assert(p.update(p.len() - 1, p.last().push(text@[i as int])) =~= done.push(text@.subrange(start as int, i + 1)));
            }
        }
        i = i + 1;
    }
    proof {
        assert(text@.subrange(0, n as int) =~= text@);
    }
    let last = text.substring_char(start, n);
    let v = match parse_u64(last) {
        Some(v) => v,
        None => {
            return None;
        },
    };
    let ghost all = done.push(last@);
    proof {
        assert(all.drop_last() =~= done);
        assert(all.last() == last@);
    }
    match acc.checked_mul(60) {
        Some(a) => match a.checked_add(v) {
            Some(t) => Some(t),
            None => None,
        },
        None => {
            proof {
                lemma_base60_nonneg(done);
            }
            None
        },
    }
}

/// The parts of the whole text begin with the parts of a prefix that ends
/// just after a `:`.
proof fn lemma_split_prefix_parts(s: Seq<char>, j: int)
    requires
        0 < j <= s.len(),
        s[j - 1] == ':',
    ensures
        split_colon(s).len() >= split_colon(s.subrange(0, j)).len(),
        split_colon(s).subrange(0, split_colon(s.subrange(0, j)).len() - 1) == split_colon(
            s.subrange(0, j),
        ).drop_last(),
    decreases s.len() - j,
{
    if j == s.len() {
        assert(s.subrange(0, j) =~= s);
        let p = split_colon(s);
        assert(p.subrange(0, p.len() - 1) =~= p.drop_last());
    } else {
        lemma_split_prefix_parts(s.drop_last(), j);
        assert(s.drop_last().subrange(0, j) =~= s.subrange(0, j));
        let q = split_colon(s.drop_last());
        let k = split_colon(s.subrange(0, j)).len();
        lemma_split_nonempty(s.subrange(0, j));
        let p = split_colon(s);
        if s.last() == ':' {
            assert(p.subrange(0, k - 1) =~= q.subrange(0, k - 1));
        } else {
            lemma_split_nonempty(s.drop_last());
            lemma_split_grow(s, j);
            assert(p.subrange(0, k - 1) =~= q.subrange(0, k - 1));
        }
    }
}

proof fn lemma_split_grow(s: Seq<char>, j: int)
    requires
        0 < j < s.len(),
        s[j - 1] == ':',
    ensures
        split_colon(s.drop_last()).len() >= split_colon(s.subrange(0, j)).len(),
    decreases s.len() - j,
{
    if j + 1 == s.len() {
        assert(s.drop_last() =~= s.subrange(0, j));
    } else {
        lemma_split_grow(s.drop_last(), j);
        assert(s.drop_last().subrange(0, j) =~= s.subrange(0, j));
        lemma_split_nonempty(s.drop_last().drop_last());
    }
}

} // verus!
