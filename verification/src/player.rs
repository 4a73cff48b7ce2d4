//! The client's song cache layout and its play queue.
use vstd::prelude::*;
use std::collections::VecDeque;
use crate::fs_walker::song_views;
use crate::song::{song_path, Song, SongView};
use crate::text::push_char;

verus! {

/// Where finished songs are cached.
pub open spec fn base_path() -> Seq<char> {
    "/tmp/doomrakr"@
}

/// Where songs are written while they stream in.
pub open spec fn streaming_path() -> Seq<char> {
    "/tmp/doomrakr/streaming"@
}

/// `root/path`.
pub open spec fn under(root: Seq<char>, path: Seq<char>) -> Seq<char> {
    root + seq!['/'] + path
}

/// The cache directory, `/tmp/doomrakr`.
pub fn base_dir() -> (res: String)
    ensures
        res@ == base_path(),
{
    String::from_str("/tmp/doomrakr")
}

/// The directory of songs being streamed, `/tmp/doomrakr/streaming`.
pub fn streaming_dir() -> (res: String)
    ensures
        res@ == streaming_path(),
{
    String::from_str("/tmp/doomrakr/streaming")
}

/// Where the cached copy of `song` lies.
pub fn get_path_for_song(song: &Song) -> (res: String)
    ensures
        res@ == under(base_path(), song_path(song@)),
{
    let mut p = base_dir();
    push_char(&mut p, '/');
    p.append(Song::get_path(song).as_str());
    p
}

/// Where `song` is written while it streams in.
pub fn get_for_stream(song: &Song) -> (res: String)
    ensures
        res@ == under(streaming_path(), song_path(song@)),
{
    let mut p = streaming_dir();
    push_char(&mut p, '/');
    p.append(Song::get_path(song).as_str());
    p
}

/// The cache directory of the album of `song`.
pub fn get_dir_for_song(song: &Song) -> (res: String)
    ensures
        res@ == under(under(base_path(), song@.artist), song@.album),
{
    let mut p = base_dir();
    push_char(&mut p, '/');
    p.append(song.artist.as_str());
    push_char(&mut p, '/');
    p.append(song.album.as_str());
    p
}

/// The streaming directory of the album of `song`.
pub fn get_dir_for_stream(song: &Song) -> (res: String)
    ensures
        res@ == under(under(streaming_path(), song@.artist), song@.album),
{
    let mut p = streaming_dir();
    push_char(&mut p, '/');
    p.append(song.artist.as_str());
    push_char(&mut p, '/');
    p.append(song.album.as_str());
    p
}

/// The songs a client will play: those already handed to the audio sink,
/// then those still waiting.
pub struct SongQueue {
    queued_songs: VecDeque<Song>,
    playing_songs: VecDeque<Song>,
}

/// A [`SongQueue`] as a mathematical value.
pub struct SongQueueView {
    pub playing: Seq<SongView>,
    pub queued: Seq<SongView>,
}

impl View for SongQueue {
    type V = SongQueueView;

    closed spec fn view(&self) -> SongQueueView {
        SongQueueView {
            playing: song_views(self.playing_songs@),
            queued: song_views(self.queued_songs@),
        }
    }
}

/// How many songs that the sink has finished must leave `playing` when the
/// sink holds `sink_len` songs.
pub open spec fn finished_count(playing_len: nat, sink_len: nat) -> nat {
    if sink_len < playing_len {
        (playing_len - sink_len) as nat
    } else {
        0
    }
}

/// The queue once the sink, holding `sink_len` songs, has been caught up
/// with: finished songs leave `playing`, and if the sink holds fewer than two
/// songs the first waiting song, if any, joins `playing`.
pub open spec fn after_enqueue(q: SongQueueView, sink_len: nat) -> SongQueueView {
    let p = q.playing.skip(finished_count(q.playing.len(), sink_len) as int);
    if sink_len < 2 && q.queued.len() > 0 {
        SongQueueView { playing: p.push(q.queued[0]), queued: q.queued.skip(1) }
    } else {
        SongQueueView { playing: p, queued: q.queued }
    }
}

/// The song handed to the sink when the queue catches up with a sink that
/// holds `sink_len` songs.
pub open spec fn enqueued_song(q: SongQueueView, sink_len: nat) -> Option<SongView> {
    if sink_len < 2 && q.queued.len() > 0 {
        Some(q.queued[0])
    } else {
        None
    }
}

/// Every song of a queue, in the order it will play.
pub open spec fn all_songs(q: SongQueueView) -> Seq<SongView> {
    q.playing + q.queued
}

/// Catching up with the sink only drops songs the sink has finished, from
/// the front: the rest keep their order, and no waiting song is lost. Songs
/// handed to the sink never outnumber the sink's own by more than the one
/// just added, and none is added once the sink holds two.
pub proof fn law_enqueue_keeps_order(q: SongQueueView, sink_len: nat)
    ensures
        all_songs(after_enqueue(q, sink_len)) == all_songs(q).skip(
            finished_count(q.playing.len(), sink_len) as int,
        ),
        after_enqueue(q, sink_len).playing.len() <= sink_len + if sink_len < 2 { 1int } else { 0 },
{
    let k = finished_count(q.playing.len(), sink_len) as int;
    let p = q.playing.skip(k);
    if sink_len < 2 && q.queued.len() > 0 {
        assert(p.push(q.queued[0]) + q.queued.skip(1) =~= (q.playing + q.queued).skip(k));
    } else {
        assert(p + q.queued =~= (q.playing + q.queued).skip(k));
    }
}

/// After catching up with a sink that holds `sink_len` songs, the playing
/// songs are the last `sink_len` of those playing before (all of them when
/// there were no more), followed by the first waiting song when the sink
/// holds fewer than two and a song waits; that song then no longer waits,
/// and otherwise the waiting songs stay as they were.
pub proof fn law_enqueue_keeps_last_playing(q: SongQueueView, sink_len: nat)
    ensures
        ({
            let a = after_enqueue(q, sink_len);
            let kept = if sink_len < q.playing.len() { sink_len } else { q.playing.len() };
            let moved = sink_len < 2 && q.queued.len() > 0;
            &&& a.playing.take(kept as int) == q.playing.skip(q.playing.len() - kept)
            &&& a.playing.len() == kept + if moved { 1int } else { 0 }
            &&& moved ==> a.playing.last() == q.queued[0] && a.queued == q.queued.skip(1)
            &&& !moved ==> a.queued == q.queued
            &&& moved <==> enqueued_song(q, sink_len) is Some
        }),
{
    let kept = if sink_len < q.playing.len() { sink_len } else { q.playing.len() };
    let p = q.playing.skip(finished_count(q.playing.len(), sink_len) as int);
    assert(p.len() == kept);
    assert(p.push(q.queued.first()).take(kept as int) =~= p);
    assert(p.take(kept as int) =~= p);
}

/// A song added to the queue plays after every song already in it.
pub proof fn law_add_to_queue_is_fifo(q: SongQueueView, s: SongView)
    ensures
        all_songs(SongQueueView { playing: q.playing, queued: q.queued.push(s) }) == all_songs(q).push(s),
{
    assert(q.playing + q.queued.push(s) =~= (q.playing + q.queued).push(s));
}

/// A song's cache file lies in its album's cache directory, and its
/// streaming file in the album's streaming directory.
pub proof fn law_song_file_in_album_dir(s: SongView)
    ensures
        under(base_path(), song_path(s)) == under(under(under(base_path(), s.artist), s.album), s.name),
        under(streaming_path(), song_path(s)) == under(under(under(streaming_path(), s.artist), s.album), s.name),
{
    assert(under(base_path(), song_path(s)) =~= under(under(under(base_path(), s.artist), s.album), s.name));
    assert(under(streaming_path(), song_path(s)) =~= under(under(under(streaming_path(), s.artist), s.album), s.name));
}

/// A copy of `s`.
fn copy_song(s: &Song) -> (res: Song)
    ensures
        res@ == s@,
{
    Song::new(s.artist.clone(), s.album.clone(), s.name.clone())
}

impl SongQueue {
    pub fn new() -> (q: SongQueue)
        ensures
            q@.playing == Seq::<SongView>::empty(),
            q@.queued == Seq::<SongView>::empty(),
    {
        let q = SongQueue { queued_songs: VecDeque::new(), playing_songs: VecDeque::new() };
        proof {
            assert(song_views(q.playing_songs@) =~= Seq::empty());
            assert(song_views(q.queued_songs@) =~= Seq::empty());
        }
        q
    }

    /// Puts `song` at the end of the waiting songs.
    pub fn add_to_queue(&mut self, song: Song)
        ensures
            final(self)@.playing == old(self)@.playing,
            final(self)@.queued == old(self)@.queued.push(song@),
    {
        let ghost s = song@;
        self.queued_songs.push_back(song);
        proof {
            assert(song_views(self.queued_songs@) =~= song_views(old(self).queued_songs@).push(s));
        }
    }

    /// The number of songs handed to the sink and not yet known to be finished.
    pub fn playing_count(&self) -> (res: usize)
        ensures
            res == self@.playing.len(),
    {
        self.playing_songs.len()
    }

    /// Every song of the queue: the playing ones, then the waiting ones.
    pub fn get_queue(&self) -> (res: Vec<Song>)
        ensures
            song_views(res@) == self@.playing + self@.queued,
    {
        let mut out: Vec<Song> = Vec::new();
        let np = self.playing_songs.len();
        for i in 0..np
            invariant
                np == self.playing_songs@.len(),
                song_views(out@) =~= song_views(self.playing_songs@.take(i as int)),
        {
            let ghost before = out@;
            out.push(copy_song(&self.playing_songs[i]));
            proof {
                assert(self.playing_songs@.take(i + 1) =~= self.playing_songs@.take(i as int).push(self.playing_songs@[i as int]));
                assert(song_views(out@) =~= song_views(before).push(out@.last()@));
            }
        }
        proof {
            assert(self.playing_songs@.take(np as int) =~= self.playing_songs@);
        }
        let nq = self.queued_songs.len();
        for i in 0..nq
            invariant
                nq == self.queued_songs@.len(),
                song_views(out@) =~= song_views(self.playing_songs@) + song_views(self.queued_songs@.take(i as int)),
        {
            let ghost before = out@;
            out.push(copy_song(&self.queued_songs[i]));
            proof {
                assert(self.queued_songs@.take(i + 1) =~= self.queued_songs@.take(i as int).push(self.queued_songs@[i as int]));
                assert(song_views(out@) =~= song_views(before).push(out@.last()@));
            }
        }
        proof {
            assert(self.queued_songs@.take(nq as int) =~= self.queued_songs@);
        }
        out
    }

    /// Brings the queue in line with an audio sink that now holds `sink_len`
    /// songs: songs the sink has finished leave the front of `playing`, and
    /// when the sink holds fewer than two songs the next waiting song moves
    /// to `playing`. Returns the cache path of that song, which the caller
    /// hands to the sink.
    pub fn maybe_enqueue_song(&mut self, sink_len: usize) -> (res: Option<String>)
        ensures
            final(self)@ == after_enqueue(old(self)@, sink_len as nat),
            match enqueued_song(old(self)@, sink_len as nat) {
                Some(s) => res matches Some(path) && path@ == under(base_path(), song_path(s)),
                None => res is None,
            },
    {
        let ghost p0 = song_views(self.playing_songs@);
        let ghost k = finished_count(p0.len(), sink_len as nat);
        while sink_len < self.playing_songs.len()
            invariant
                song_views(self.queued_songs@) == old(self)@.queued,
                p0 == old(self)@.playing,
                k == finished_count(p0.len(), sink_len as nat),
                self.playing_songs@.len() <= p0.len(),
                self.playing_songs@.len() >= sink_len || self.playing_songs@.len() == p0.len(),
                song_views(self.playing_songs@) == p0.skip(p0.len() - self.playing_songs@.len()),
            decreases self.playing_songs@.len(),
        {
            let ghost before = self.playing_songs@;
            self.playing_songs.pop_front();
            proof {
                assert(song_views(self.playing_songs@) =~= song_views(before).skip(1));
                assert(p0.skip(p0.len() - self.playing_songs@.len()) =~= p0.skip(
                    p0.len() - before.len(),
                ).skip(1));
            }
        }
        proof {
            assert(p0.len() - self.playing_songs@.len() == k);
        }
        if sink_len < 2 {
            match self.queued_songs.pop_front() {
                None => None,
                Some(song) => {
                    let path = get_path_for_song(&song);
                    let ghost before_q = old(self).queued_songs@;
                    let ghost before_p = self.playing_songs@;
                    let ghost s = song@;
                    self.playing_songs.push_back(song);
                    proof {
                        assert(song_views(self.queued_songs@) =~= song_views(before_q).skip(1));
                        assert(song_views(self.playing_songs@) =~= song_views(before_p).push(s));
                    }
                    Some(path)
                },
            }
        } else {
            None
        }
    }
}

} // verus!
