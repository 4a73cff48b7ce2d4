//! The client's decisions: what each server command is, and what the client
//! answers.
use vstd::prelude::*;
use crate::doomrakr_worker::chunk_wire;
use crate::fs_walker::song_views;
use crate::headers::{
    header_fits_wire, header_parse, header_wire, law_header_send_get, Header, HeaderView, CLIENT_ACK, CLIENT_PAUSED, CLIENT_RESUMED,
    CLIENT_SONG_CACHED, CLIENT_STATUS, SERVER_ACK, SERVER_GET_STATUS, SERVER_INIT_STREAM,
    SERVER_PAUSE, SERVER_RESUME, SERVER_STREAM_CHUNK, SERVER_STREAM_FINISHED,
};
use crate::song::{law_song_send_get, song_fits_wire, song_parse, song_wire, Song, SongView};
use crate::wire::{be_bytes, be_value, lemma_len_field, put_u64_be, WireErrorView};

verus! {

/// A command that the server sends a client.
pub enum ServerCommand {
    Ack,
    InitStream,
    StreamChunk,
    StreamFinished,
    Resume,
    Pause,
    GetStatus,
    /// An action the client does not understand.
    Unknown(u8),
}

/// The command that a header with action `action` carries.
pub open spec fn spec_command(action: u8) -> ServerCommand {
    if action == SERVER_ACK {
        ServerCommand::Ack
    } else if action == SERVER_INIT_STREAM {
        ServerCommand::InitStream
    } else if action == SERVER_STREAM_CHUNK {
        ServerCommand::StreamChunk
    } else if action == SERVER_STREAM_FINISHED {
        ServerCommand::StreamFinished
    } else if action == SERVER_RESUME {
        ServerCommand::Resume
    } else if action == SERVER_PAUSE {
        ServerCommand::Pause
    } else if action == SERVER_GET_STATUS {
        ServerCommand::GetStatus
    } else {
        ServerCommand::Unknown(action)
    }
}

/// The command that a header with action `action` carries.
pub fn command_for_action(action: u8) -> (res: ServerCommand)
    ensures
        res == spec_command(action),
{
    if action == SERVER_ACK {
        ServerCommand::Ack
    } else if action == SERVER_INIT_STREAM {
        ServerCommand::InitStream
    } else if action == SERVER_STREAM_CHUNK {
        ServerCommand::StreamChunk
    } else if action == SERVER_STREAM_FINISHED {
        ServerCommand::StreamFinished
    } else if action == SERVER_RESUME {
        ServerCommand::Resume
    } else if action == SERVER_PAUSE {
        ServerCommand::Pause
    } else if action == SERVER_GET_STATUS {
        ServerCommand::GetStatus
    } else {
        ServerCommand::Unknown(action)
    }
}

/// The action of the header a client answers `cmd` with, if it answers with
/// a bare header; `song_on_disk` tells whether a song offered for streaming
/// is cached or already streaming.
pub open spec fn reply_action(cmd: ServerCommand, song_on_disk: bool) -> Option<u8> {
    match cmd {
        ServerCommand::InitStream => Some(if song_on_disk { CLIENT_SONG_CACHED } else { CLIENT_ACK }),
        ServerCommand::StreamChunk => Some(CLIENT_ACK),
        ServerCommand::StreamFinished => Some(CLIENT_ACK),
        ServerCommand::Resume => Some(CLIENT_RESUMED),
        ServerCommand::Pause => Some(CLIENT_PAUSED),
        _ => None,
    }
}

/// The header the client `client_id` answers `cmd` with: an ack, "song
/// cached", "resumed" or "paused", always carrying the client's id; none for
/// an ack, a status request (answered by [`status_reply`]) or an unknown
/// command.
pub fn reply_header(cmd: &ServerCommand, client_id: &String, song_on_disk: bool) -> (res: Option<
    Header,
>)
    ensures
        match (res, reply_action(*cmd, song_on_disk)) {
            (Some(h), Some(a)) => h@ == (HeaderView { action: a, id: client_id@ }),
            (None, None) => true,
            _ => false,
        },
{
    let action = match cmd {
        ServerCommand::InitStream => if song_on_disk {
            CLIENT_SONG_CACHED
        } else {
            CLIENT_ACK
        },
        ServerCommand::StreamChunk => CLIENT_ACK,
        ServerCommand::StreamFinished => CLIENT_ACK,
        ServerCommand::Resume => CLIENT_RESUMED,
        ServerCommand::Pause => CLIENT_PAUSED,
        _ => return None,
    };
    Some(Header::new(action, client_id.clone()))
}

/// What the client does with a song the server offers to stream.
pub struct OfferStep {
    /// The header to answer with.
    pub reply: Header,
    /// Whether the song is already on disk: then it goes straight to the
    /// play queue after the reply; otherwise its stream file is prepared
    /// before the reply.
    pub on_disk: bool,
}

/// A client reads each message that a worker sends as the command it was
/// sent for, from a header that carries the worker's id: the stream offer as
/// a stream start, a chunk with bytes as a chunk, and the message sent once
/// the file is exhausted as the end of the stream; it answers chunks and the
/// end of the stream with an ack.
pub proof fn law_client_reads_worker_messages(
    id: Seq<char>,
    song: SongView,
    data: Seq<u8>,
    chunk_len: nat,
    song_on_disk: bool,
)
    requires
        header_fits_wire(HeaderView { action: SERVER_INIT_STREAM, id: id }),
    ensures
        header_parse(header_wire(HeaderView { action: SERVER_INIT_STREAM, id: id }) + song_wire(song))
            matches Ok((h, _)) && h.id == id && spec_command(h.action) == ServerCommand::InitStream,
        header_parse(chunk_wire(id, song, data, chunk_len)) matches Ok((h, _)) && h.id == id
            && spec_command(h.action) == (if chunk_len == 0 {
            ServerCommand::StreamFinished
        } else {
            ServerCommand::StreamChunk
        }) && reply_action(spec_command(h.action), song_on_disk) == Some(CLIENT_ACK),
{
    let h0 = HeaderView { action: SERVER_INIT_STREAM, id: id };
    law_header_send_get(h0, song_wire(song));
    let action = if chunk_len == 0 { SERVER_STREAM_FINISHED } else { SERVER_STREAM_CHUNK };
    let h1 = HeaderView { action: action, id: id };
    let tail = if chunk_len == 0 { song_wire(song) } else { song_wire(song) + data };
    assert(chunk_wire(id, song, data, chunk_len) =~= header_wire(h1) + tail);
    law_header_send_get(h1, tail);
}

/// The client's answer to a stream offer of a song that is `song_cached` in
/// the cache or `song_streaming` in the streaming directory: a song on disk
/// is answered "song cached" and queued, any other is prepared for streaming
/// and acknowledged.
pub fn init_stream_step(client_id: &String, song_cached: bool, song_streaming: bool) -> (res: OfferStep)
    ensures
        res.on_disk == (song_cached || song_streaming),
        res.reply@ == (HeaderView {
            action: if song_cached || song_streaming { CLIENT_SONG_CACHED } else { CLIENT_ACK },
            id: client_id@,
        }),
{
    let on_disk = song_cached || song_streaming;
    let action = if on_disk { CLIENT_SONG_CACHED } else { CLIENT_ACK };
    OfferStep { reply: Header::new(action, client_id.clone()), on_disk: on_disk }
}

/// The songs' wire forms, one after the other.
pub open spec fn songs_wire(songs: Seq<SongView>) -> Seq<u8>
    decreases songs.len(),
{
    if songs.len() == 0 {
        Seq::empty()
    } else {
        songs_wire(songs.drop_last()) + song_wire(songs.last())
    }
}

/// An empty queue is sent as nothing, and a queue of one song as that
/// song's wire form.
pub proof fn law_songs_wire_small(s: SongView)
    ensures
        songs_wire(Seq::<SongView>::empty()) == Seq::<u8>::empty(),
        songs_wire(seq![s]) == song_wire(s),
{
    assert(seq![s].drop_last() =~= Seq::<SongView>::empty());
    assert(Seq::<u8>::empty() + song_wire(s) =~= song_wire(s));
}

/// The wire form of two queues one after the other is the wire form of the
/// first followed by that of the second.
pub proof fn law_songs_wire_concat(a: Seq<SongView>, b: Seq<SongView>)
    ensures
        songs_wire(a + b) == songs_wire(a) + songs_wire(b),
    decreases b.len(),
{
    if b.len() == 0 {
        assert(a + b =~= a);
        assert(songs_wire(a) + Seq::<u8>::empty() =~= songs_wire(a));
    } else {
        law_songs_wire_concat(a, b.drop_last());
        assert((a + b).drop_last() =~= a + b.drop_last());
        assert((a + b).last() == b.last());
        assert(songs_wire(a + b) =~= songs_wire(a) + songs_wire(b));
    }
}

/// The songs go out in queue order: the song at place `i` is sent right
/// after the songs before it and right before the songs after it, and a
/// receiver that skips the songs before it reads that very song.
pub proof fn law_songs_wire_in_order(q: Seq<SongView>, i: int)
    requires
        0 <= i < q.len(),
        song_fits_wire(q[i]),
    ensures
        songs_wire(q) == songs_wire(q.take(i)) + song_wire(q[i]) + songs_wire(q.skip(i + 1)),
        song_parse(songs_wire(q).skip(songs_wire(q.take(i)).len() as int)) == Ok::<
            (SongView, nat),
            WireErrorView,
        >((q[i], song_wire(q[i]).len())),
{
    let before = q.take(i);
    let after = q.skip(i + 1);
    assert(q =~= before + (seq![q[i]] + after));
    law_songs_wire_concat(before, seq![q[i]] + after);
    law_songs_wire_concat(seq![q[i]], after);
    law_songs_wire_small(q[i]);
    let w = songs_wire(q);
    let rest = songs_wire(after);
    assert(w =~= songs_wire(before) + song_wire(q[i]) + rest);
    assert(w.skip(songs_wire(before).len() as int) =~= song_wire(q[i]) + rest);
    law_song_send_get(q[i], rest);
}

/// The answer to a status request: whether playback is paused and how many
/// songs are queued, each as an eight-byte big-endian number, then a status
/// header with the client's id, then every queued song.
pub open spec fn status_wire(client_id: Seq<char>, is_paused: bool, queue: Seq<SongView>) -> Seq<u8> {
    be_bytes(if is_paused { 1 } else { 0 }, 8) + be_bytes(queue.len(), 8) + header_wire(
        HeaderView { action: CLIENT_STATUS, id: client_id },
    ) + songs_wire(queue)
}

/// A receiver of the status answer reads the pause flag (1 when paused, 0
/// when not) from the first eight bytes, the queue's length from the next
/// eight, then the status header with the client's id, and after it the
/// queued songs and nothing else.
pub proof fn law_status_reply_parts(client_id: Seq<char>, is_paused: bool, queue: Seq<SongView>)
    requires
        header_fits_wire(HeaderView { action: CLIENT_STATUS, id: client_id }),
        queue.len() <= u64::MAX,
    ensures
        ({
            let r = status_wire(client_id, is_paused, queue);
            let h = HeaderView { action: CLIENT_STATUS, id: client_id };
            let hl = header_wire(h).len();
            &&& be_value(r.take(8)) == (if is_paused { 1nat } else { 0nat })
            &&& be_value(r.subrange(8, 16)) == queue.len()
            &&& header_parse(r.skip(16)) == Ok::<(HeaderView, nat), WireErrorView>((h, hl))
            &&& r.skip(16 + hl as int) == songs_wire(queue)
        }),
{
    let r = status_wire(client_id, is_paused, queue);
    let h = HeaderView { action: CLIENT_STATUS, id: client_id };
    let hw = header_wire(h);
    let f = if is_paused { 1nat } else { 0nat };
    lemma_len_field(f);
    lemma_len_field(queue.len());
    assert(r.take(8) =~= be_bytes(f, 8));
    assert(r.subrange(8, 16) =~= be_bytes(queue.len(), 8));
    assert(r.skip(16) =~= hw + songs_wire(queue));
    law_header_send_get(h, songs_wire(queue));
    assert(r.skip(16 + hw.len() as int) =~= songs_wire(queue));
}

/// The bytes the client `client_id` answers a status request with.
pub fn status_reply(client_id: &String, is_paused: bool, queue: &Vec<Song>) -> (res: Vec<u8>)
    ensures
        res@ == status_wire(client_id@, is_paused, song_views(queue@)),
{
    let mut out: Vec<u8> = Vec::new();
    put_u64_be(&mut out, if is_paused { 1 } else { 0 });
    put_u64_be(&mut out, queue.len() as u64);
    let header = Header::new(CLIENT_STATUS, client_id.clone());
    header.put_bytes(&mut out);
    let ghost prefix = out@;
    let n = queue.len();
    for i in 0..n
        invariant
            n == queue@.len(),
            out@ == prefix + songs_wire(song_views(queue@.take(i as int))),
    {
        queue[i].put_bytes(&mut out);
        proof {
            let t = song_views(queue@.take(i + 1));
            assert(t.drop_last() =~= song_views(queue@.take(i as int)));
            assert(t.last() == queue@[i as int]@);
        }
    }
    proof {
        assert(queue@.take(n as int) =~= queue@);
    }
    out
}

/// Whether a heartbeat is due when `elapsed_secs` whole seconds have passed
/// since the last one.
pub fn heartbeat_due(elapsed_secs: u64) -> (res: bool)
    ensures
        res == (elapsed_secs >= 1),
{
    elapsed_secs >= 1
}

} // verus!
