//! The server's side of one client connection: its streaming state and the
//! messages it sends.
use vstd::prelude::*;
use crate::headers::{
    header_wire, Header, HeaderView, CLIENT_SONG_CACHED, SERVER_ACK, SERVER_INIT_STREAM,
    SERVER_STREAM_CHUNK, SERVER_STREAM_FINISHED,
};
use crate::headers::{header_fits_wire, header_parse, law_header_send_get};
use crate::song::{law_song_send_get, song_fits_wire, song_parse, song_path, song_wire, Song, SongView};
use crate::wire::WireErrorView;
use crate::text::push_char;

verus! {

/// What the server is doing for a client.
pub enum StreamState {
    /// Nothing: it answers heartbeats.
    Idle,
    /// Sending the song chunk by chunk.
    Streaming(Song),
    /// The connection is over.
    Closed,
}

/// A [`StreamState`] as a mathematical value.
pub enum StreamStateView {
    Idle,
    Streaming(SongView),
    Closed,
}

impl View for StreamState {
    type V = StreamStateView;

    open spec fn view(&self) -> StreamStateView {
        match self {
            StreamState::Idle => StreamStateView::Idle,
            StreamState::Streaming(s) => StreamStateView::Streaming(s@),
            StreamState::Closed => StreamStateView::Closed,
        }
    }
}

/// What a worker's loop does next.
pub enum Task {
    /// Answer the client's heartbeat, then rest a moment.
    Heartbeat,
    /// Send the next chunk of the streamed song.
    SendChunk,
    /// Clean up and leave the loop.
    Stop,
}

/// The state the server keeps for one client, without the connection itself.
pub struct Worker {
    pub client_id: String,
    pub id: String,
    pub state: StreamState,
}

/// Where the server's music library lies.
pub open spec fn library_root() -> Seq<char> {
    "/home/nick/music"@
}

/// The file of `song` in the server's library.
pub fn library_path(song: &Song) -> (res: String)
    ensures
        res@ == library_root() + seq!['/'] + song_path(song@),
{
    let mut p = String::from_str("/home/nick/music");
    push_char(&mut p, '/');
    p.append(Song::get_path(song).as_str());
    p
}

/// The message that carries one chunk of `song`: a chunk header with the
/// server's id, the song, then the whole chunk buffer `data`; when the file
/// is exhausted (`chunk_len == 0`) a finish header and the song instead.
pub open spec fn chunk_wire(id: Seq<char>, song: SongView, data: Seq<u8>, chunk_len: nat) -> Seq<u8> {
    if chunk_len == 0 {
        header_wire(HeaderView { action: SERVER_STREAM_FINISHED, id: id }) + song_wire(song)
    } else {
        header_wire(HeaderView { action: SERVER_STREAM_CHUNK, id: id }) + song_wire(song) + data
    }
}

/// Every chunk message with some bytes read carries the whole buffer: a
/// receiver reads the chunk header with the sender's id, then the song, and
/// what is left of the message is exactly `data`, however many bytes were
/// read. The finish message holds the finish header and the song, and
/// nothing after them.
pub proof fn law_chunk_message_parts(id: Seq<char>, song: SongView, data: Seq<u8>, chunk_len: nat)
    requires
        header_fits_wire(HeaderView { action: SERVER_STREAM_CHUNK, id: id }),
        song_fits_wire(song),
    ensures
        ({
            let action = if chunk_len == 0 { SERVER_STREAM_FINISHED } else { SERVER_STREAM_CHUNK };
            let h = HeaderView { action: action, id: id };
            let m = chunk_wire(id, song, data, chunk_len);
            let hl = header_wire(h).len();
            let sl = song_wire(song).len();
            &&& header_parse(m) == Ok::<(HeaderView, nat), WireErrorView>((h, hl))
            &&& song_parse(m.skip(hl as int)) == Ok::<(SongView, nat), WireErrorView>((song, sl))
            &&& chunk_len > 0 ==> m.skip((hl + sl) as int) == data
            &&& chunk_len == 0 ==> m.len() == hl + sl
        }),
{
    let action = if chunk_len == 0 { SERVER_STREAM_FINISHED } else { SERVER_STREAM_CHUNK };
    let h = HeaderView { action: action, id: id };
    let m = chunk_wire(id, song, data, chunk_len);
    let hw = header_wire(h);
    let sw = song_wire(song);
    let tail = if chunk_len == 0 { sw } else { sw + data };
    assert(m =~= hw + tail);
    law_header_send_get(h, tail);
    assert(m.skip(hw.len() as int) =~= tail);
    if chunk_len == 0 {
        law_song_send_get(song, Seq::empty());
        assert(sw + Seq::<u8>::empty() =~= sw);
    } else {
        law_song_send_get(song, data);
        assert(m.skip((hw.len() + sw.len()) as int) =~= data);
    }
}

/// The chunk message does not depend on how many bytes were read, as long
/// as some were: the whole buffer is sent either way.
pub proof fn law_chunk_message_ignores_count(
    id: Seq<char>,
    song: SongView,
    data: Seq<u8>,
    n1: nat,
    n2: nat,
)
    requires
        n1 > 0,
        n2 > 0,
    ensures
        chunk_wire(id, song, data, n1) == chunk_wire(id, song, data, n2),
        chunk_wire(id, song, data, n1).len() == header_wire(
            HeaderView { action: SERVER_STREAM_CHUNK, id: id },
        ).len() + song_wire(song).len() + data.len(),
{
}

impl Worker {
    /// Takes on a client that said hello with `hello`: the worker is idle,
    /// knows the client by the id of the hello, calls itself `MASTER`, and
    /// answers with a server ack that carries the client's id.
    pub fn init_connection(hello: &Header) -> (res: (Worker, Header))
        ensures
            res.0.client_id@ == hello.id@,
            res.0.id@ == "MASTER"@,
            res.0.state@ == StreamStateView::Idle,
            res.1@ == (HeaderView { action: SERVER_ACK, id: hello.id@ }),
    {
        let ack = Header::new(SERVER_ACK, hello.id.clone());
        let w = Worker {
            client_id: hello.id.clone(),
            id: String::from_str("MASTER"),
            state: StreamState::Idle,
        };
        (w, ack)
    }

    /// The answer to a heartbeat: a server ack that carries the client's id.
    pub fn heartbeat_ack(&self) -> (res: Header)
        ensures
            res@ == (HeaderView { action: SERVER_ACK, id: self.client_id@ }),
    {
        Header::new(SERVER_ACK, self.client_id.clone())
    }

    /// The request to stream `song`: a stream-init header with the server's
    /// id, then the song.
    pub fn song_request(&self, song: &Song) -> (res: Vec<u8>)
        ensures
            res@ == header_wire(HeaderView { action: SERVER_INIT_STREAM, id: self.id@ })
                + song_wire(song@),
    {
        let header = Header::new(SERVER_INIT_STREAM, self.id.clone());
        let mut out = header.to_bytes();
        song.put_bytes(&mut out);
        out
    }

    /// The library file to stream `song` from, after the client answered
    /// the stream request with `ack`: none when the client has the song
    /// cached already.
    pub fn stream_file_for(&self, ack: &Header, song: &Song) -> (res: Option<String>)
        ensures
            ack.action == CLIENT_SONG_CACHED ==> res is None,
            ack.action != CLIENT_SONG_CACHED ==> (res matches Some(p) && p@ == library_root()
                + seq!['/'] + song_path(song@)),
    {
        if ack.action == CLIENT_SONG_CACHED {
            return None;
        }
        Some(library_path(song))
    }

    /// The song's file is open: the worker streams `song` from now on.
    pub fn start_stream(&mut self, song: Song)
        ensures
            final(self).client_id == old(self).client_id,
            final(self).id == old(self).id,
            final(self).state@ == StreamStateView::Streaming(song@),
    {
        self.state = StreamState::Streaming(song);
    }

    /// The message for the next chunk of the streamed song, read into `data`
    /// with `chunk_len` bytes filled (`0` once the file is exhausted).
    pub fn chunk_message(&self, data: &[u8], chunk_len: usize) -> (res: Vec<u8>)
        requires
            self.state is Streaming,
        ensures
            res@ == chunk_wire(self.id@, self.state->Streaming_0@, data@, chunk_len as nat),
            chunk_len > 0 ==> res@ == header_wire(
                HeaderView { action: SERVER_STREAM_CHUNK, id: self.id@ },
            ) + song_wire(self.state->Streaming_0@) + data@,
            chunk_len == 0 ==> res@ == header_wire(
                HeaderView { action: SERVER_STREAM_FINISHED, id: self.id@ },
            ) + song_wire(self.state->Streaming_0@),
    {
        let song = match &self.state {
            StreamState::Streaming(s) => s,
            _ => { proof { assert(false); } return Vec::new(); }
        };
        let action = if chunk_len == 0 { SERVER_STREAM_FINISHED } else { SERVER_STREAM_CHUNK };
        let header = Header::new(action, self.id.clone());
        let mut out = header.to_bytes();
        song.put_bytes(&mut out);
        if chunk_len != 0 {
            crate::wire::extend_bytes(&mut out, data);
        }
        out
    }

    /// What the worker's loop does next in its present state.
    pub fn next_task(&self) -> (res: Task)
        ensures
            match self.state@ {
                StreamStateView::Idle => res is Heartbeat,
                StreamStateView::Streaming(_) => res is SendChunk,
                StreamStateView::Closed => res is Stop,
            },
    {
        match self.state {
            StreamState::Idle => Task::Heartbeat,
            StreamState::Streaming(_) => Task::SendChunk,
            StreamState::Closed => Task::Stop,
        }
    }

    /// Whether the connection to the client is over.
    pub fn is_closed(&self) -> (res: bool)
        ensures
            res == (self.state@ == StreamStateView::Closed),
    {
        match self.state {
            StreamState::Closed => true,
            _ => false,
        }
    }

    /// A chunk message with `chunk_len` bytes of the file was sent: when it
    /// was the last one (`chunk_len == 0`) the stream is over and the worker
    /// is idle again; otherwise it keeps streaming. Returns whether the
    /// stream is over.
    pub fn chunk_sent(&mut self, chunk_len: usize) -> (finished: bool)
        ensures
            finished == (chunk_len == 0),
            final(self).client_id == old(self).client_id,
            final(self).id == old(self).id,
            finished ==> final(self).state@ == StreamStateView::Idle,
            !finished ==> final(self).state@ == old(self).state@,
    {
        if chunk_len == 0 {
            self.finish_stream();
            true
        } else {
            false
        }
    }

    /// The stream is over: the worker is idle again.
    pub fn finish_stream(&mut self)
        ensures
            final(self).client_id == old(self).client_id,
            final(self).id == old(self).id,
            final(self).state@ == StreamStateView::Idle,
    {
        self.state = StreamState::Idle;
    }
}

} // verus!
