//! A song of the library and its form on the wire.
use vstd::prelude::*;
use crate::text::string_from_utf8;
use crate::wire::{
    be_bytes, be_value, copy_range, decode_u64_be_at, extend_bytes, law_u64_be_bytes_roundtrip,
    lemma_len_field, lemma_utf8_bytes_roundtrip, lemma_utf8_roundtrip, put_u64_be, utf8, WireError,
    WireErrorView,
};

verus! {

/// A song, named by its artist, album and title.
pub struct Song {
    pub artist: String,
    pub album: String,
    pub name: String,
}

/// A [`Song`] as a mathematical value.
pub struct SongView {
    pub artist: Seq<char>,
    pub album: Seq<char>,
    pub name: Seq<char>,
}

impl View for Song {
    type V = SongView;

    open spec fn view(&self) -> SongView {
        SongView { artist: self.artist@, album: self.album@, name: self.name@ }
    }
}

/// `artist/album/name`: where a song lies below a library root.
pub open spec fn song_path(s: SongView) -> Seq<char> {
    s.artist + seq!['/'] + s.album + seq!['/'] + s.name
}

/// The bytes that describe a song on the wire: the three UTF-8 lengths as
/// eight-byte big-endian numbers, then artist, album and title.
pub open spec fn song_wire(s: SongView) -> Seq<u8> {
    be_bytes(utf8(s.artist).len(), 8) + be_bytes(utf8(s.album).len(), 8) + be_bytes(
        utf8(s.name).len(),
        8,
    ) + utf8(s.artist) + utf8(s.album) + utf8(s.name)
}

/// What the three text fields of a song decode to: the song, or the error
/// of the first field that is not UTF-8.
pub open spec fn song_from_parts(a: Seq<u8>, b: Seq<u8>, c: Seq<u8>) -> Result<
    SongView,
    Seq<char>,
> {
    if !vstd::utf8::valid_utf8(a) {
        Err(crate::text::utf8_error_text(a))
    } else if !vstd::utf8::valid_utf8(b) {
        Err(crate::text::utf8_error_text(b))
    } else if !vstd::utf8::valid_utf8(c) {
        Err(crate::text::utf8_error_text(c))
    } else {
        Ok(
            SongView {
                artist: vstd::utf8::decode_utf8(a),
                album: vstd::utf8::decode_utf8(b),
                name: vstd::utf8::decode_utf8(c),
            },
        )
    }
}

/// What a receiver makes of the buffer `b` that starts with a song: the song
/// and the number of bytes it took, or why there is none.
pub open spec fn song_parse(b: Seq<u8>) -> Result<(SongView, nat), WireErrorView> {
    if b.len() < 24 {
        Err(WireErrorView::Incomplete)
    } else {
        let la = be_value(b.subrange(0, 8)) as int;
        let lb = be_value(b.subrange(8, 16)) as int;
        let lc = be_value(b.subrange(16, 24)) as int;
        let end = 24 + la + lb + lc;
        if end > b.len() {
            Err(WireErrorView::Incomplete)
        } else {
            match song_from_parts(
                b.subrange(24, 24 + la),
                b.subrange(24 + la, 24 + la + lb),
                b.subrange(24 + la + lb, end),
            ) {
                Ok(s) => Ok((s, end as nat)),
                Err(m) => Err(WireErrorView::InvalidUtf8(m)),
            }
        }
    }
}

impl Song {
    pub fn new(artist: String, album: String, name: String) -> (s: Song)
        ensures
            s@ == (SongView { artist: artist@, album: album@, name: name@ }),
    {
        Song { artist: artist, album: album, name: name }
    }

    /// `artist/album/name`.
    pub fn get_path(song: &Song) -> (res: String)
        ensures
            res@ == song_path(song@),
    {
        let mut out = song.artist.clone();
        crate::text::push_char(&mut out, '/');
        out.append(song.album.as_str());
        crate::text::push_char(&mut out, '/');
        out.append(song.name.as_str());
        out
    }

    /// Appends the wire form of the song to `out`.
    pub fn put_bytes(&self, out: &mut Vec<u8>)
        ensures
            final(out)@ == old(out)@ + song_wire(self@),
            song_fits_wire(self@),
    {
        let a = self.artist.as_str().as_bytes();
        let b = self.album.as_str().as_bytes();
        let c = self.name.as_str().as_bytes();
        put_u64_be(out, a.len() as u64);
        put_u64_be(out, b.len() as u64);
        put_u64_be(out, c.len() as u64);
        extend_bytes(out, a);
        extend_bytes(out, b);
        extend_bytes(out, c);
        proof {
            assert(final(out)@ =~= old(out)@ + song_wire(self@));
        }
    }

    /// The wire form of the song in its six fields, each written on its own:
    /// the lengths of artist, album and title, then the three texts.
    pub fn wire_fields(&self) -> (res: Vec<Vec<u8>>)
        ensures
            res@.len() == 6,
            res@[0]@ == be_bytes(utf8(self@.artist).len(), 8),
            res@[1]@ == be_bytes(utf8(self@.album).len(), 8),
            res@[2]@ == be_bytes(utf8(self@.name).len(), 8),
            res@[3]@ == utf8(self@.artist),
            res@[4]@ == utf8(self@.album),
            res@[5]@ == utf8(self@.name),
            res@[0]@ + res@[1]@ + res@[2]@ + res@[3]@ + res@[4]@ + res@[5]@ == song_wire(self@),
    {
        let a = self.artist.as_str().as_bytes();
        let b = self.album.as_str().as_bytes();
        let c = self.name.as_str().as_bytes();
        let mut la: Vec<u8> = Vec::new();
        put_u64_be(&mut la, a.len() as u64);
        let mut lb: Vec<u8> = Vec::new();
        put_u64_be(&mut lb, b.len() as u64);
        let mut lc: Vec<u8> = Vec::new();
        put_u64_be(&mut lc, c.len() as u64);
        let mut ta: Vec<u8> = Vec::new();
        extend_bytes(&mut ta, a);
        let mut tb: Vec<u8> = Vec::new();
        extend_bytes(&mut tb, b);
        let mut tc: Vec<u8> = Vec::new();
        extend_bytes(&mut tc, c);
        proof {
            assert(la@ =~= be_bytes(utf8(self@.artist).len(), 8));
            assert(lb@ =~= be_bytes(utf8(self@.album).len(), 8));
            assert(lc@ =~= be_bytes(utf8(self@.name).len(), 8));
            assert(ta@ =~= utf8(self@.artist));
            assert(tb@ =~= utf8(self@.album));
            assert(tc@ =~= utf8(self@.name));
        }
        let mut res: Vec<Vec<u8>> = Vec::new();
        res.push(la);
        res.push(lb);
        res.push(lc);
        res.push(ta);
        res.push(tb);
        res.push(tc);
        res
    }

    /// The bytes that `ConnectionSend` writes for the song.
    pub fn to_bytes(&self) -> (res: Vec<u8>)
        ensures
            res@ == song_wire(self@),
            song_fits_wire(self@),
    {
        let mut out: Vec<u8> = Vec::new();
        self.put_bytes(&mut out);
        proof {
            assert(out@ =~= song_wire(self@));
        }
        out
    }

    /// Builds the song from its three received text fields, as
    /// `ConnectionGet` does once it has read them.
    pub fn from_parts(artist: Vec<u8>, album: Vec<u8>, name: Vec<u8>) -> (res: Result<
        Song,
        String,
    >)
        ensures
            match (res, song_from_parts(artist@, album@, name@)) {
                (Ok(s), Ok(v)) => s@ == v,
                (Err(m), Err(t)) => m@ == t,
                _ => false,
            },
    {
        let artist = match string_from_utf8(artist) {
            Ok(s) => s,
            Err(m) => return Err(m),
        };
        let album = match string_from_utf8(album) {
            Ok(s) => s,
            Err(m) => return Err(m),
        };
        let name = match string_from_utf8(name) {
            Ok(s) => s,
            Err(m) => return Err(m),
        };
        Ok(Song::new(artist, album, name))
    }

    /// Reads a song from the start of `bytes`: the song and the number of
    /// bytes it took.
    pub fn parse(bytes: &[u8]) -> (res: Result<(Song, usize), WireError>)
        ensures
            match (res, song_parse(bytes@)) {
                (Ok((s, n)), Ok((v, m))) => s@ == v && n == m,
                (Err(e), Err(f)) => e@ == f,
                _ => false,
            },
    {
        let len = bytes.len();
        if len < 24 {
            return Err(WireError::Incomplete);
        }
        let la = decode_u64_be_at(bytes, 0);
        let lb = decode_u64_be_at(bytes, 8);
        let lc = decode_u64_be_at(bytes, 16);
        let rest = (len - 24) as u64;
        if la > rest || lb > rest - la || lc > rest - la - lb {
            return Err(WireError::Incomplete);
        }
        let a_end = 24 + la as usize;
        let b_end = a_end + lb as usize;
        let c_end = b_end + lc as usize;
        let a = copy_range(bytes, 24, a_end);
        let b = copy_range(bytes, a_end, b_end);
        let c = copy_range(bytes, b_end, c_end);
        match Song::from_parts(a, b, c) {
            Ok(s) => Ok((s, c_end)),
            Err(m) => Err(WireError::InvalidUtf8(m)),
        }
    }
}


/// Whether each text field of `s` has a UTF-8 length that an eight-byte
/// length field can carry (true of every song held in memory).
pub open spec fn song_fits_wire(s: SongView) -> bool {
    &&& utf8(s.artist).len() <= u64::MAX
    &&& utf8(s.album).len() <= u64::MAX
    &&& utf8(s.name).len() <= u64::MAX
}

/// On the wire a song is the UTF-8 lengths of its artist, album and title,
/// each as an eight-byte big-endian number, then the artist's, the album's
/// and the title's UTF-8 bytes.
pub proof fn law_song_layout(s: SongView)
    requires
        song_fits_wire(s),
    ensures
        ({
            let w = song_wire(s);
            let la = utf8(s.artist).len() as int;
            let lb = utf8(s.album).len() as int;
            let lc = utf8(s.name).len() as int;
            &&& w.len() == 24 + la + lb + lc
            &&& be_value(w.subrange(0, 8)) == la
            &&& be_value(w.subrange(8, 16)) == lb
            &&& be_value(w.subrange(16, 24)) == lc
            &&& w.subrange(24, 24 + la) == utf8(s.artist)
            &&& w.subrange(24 + la, 24 + la + lb) == utf8(s.album)
            &&& w.skip(24 + la + lb) == utf8(s.name)
        }),
{
    let w = song_wire(s);
    let a = utf8(s.artist);
    let b = utf8(s.album);
    let c = utf8(s.name);
    lemma_len_field(a.len());
    lemma_len_field(b.len());
    lemma_len_field(c.len());
    let la = a.len() as int;
    let lb = b.len() as int;
    assert(w.subrange(0, 8) =~= be_bytes(a.len(), 8));
    assert(w.subrange(8, 16) =~= be_bytes(b.len(), 8));
    assert(w.subrange(16, 24) =~= be_bytes(c.len(), 8));
    assert(w.subrange(24, 24 + la) =~= a);
    assert(w.subrange(24 + la, 24 + la + lb) =~= b);
    assert(w.skip(24 + la + lb) =~= c);
}

/// A song's path is its artist, a slash, its album, a slash and its title.
pub proof fn law_song_path_parts(s: SongView)
    ensures
        song_path(s).len() == s.artist.len() + s.album.len() + s.name.len() + 2,
        song_path(s).take(s.artist.len() as int) == s.artist,
        song_path(s)[s.artist.len() as int] == '/',
        song_path(s).subrange(s.artist.len() + 1 as int, s.artist.len() + 1 + s.album.len() as int)
            == s.album,
        song_path(s)[s.artist.len() + 1 + s.album.len() as int] == '/',
        song_path(s).skip(s.artist.len() + s.album.len() as int + 2) == s.name,
{
    let p = song_path(s);
    let la = s.artist.len() as int;
    let lb = s.album.len() as int;
    assert(p.take(la) =~= s.artist);
    assert(p.subrange(la + 1, la + 1 + lb) =~= s.album);
    assert(p.skip(la + lb + 2) =~= s.name);
}

/// A receiver reads back exactly the song that was sent, whatever follows it
/// in the stream, and takes exactly the bytes that were sent for it.
pub proof fn law_song_send_get(s: SongView, rest: Seq<u8>)
    requires
        song_fits_wire(s),
    ensures
        song_parse(song_wire(s) + rest) == Ok::<(SongView, nat), WireErrorView>(
            (s, song_wire(s).len()),
        ),
{
    let a = utf8(s.artist);
    let b = utf8(s.album);
    let c = utf8(s.name);
    let w = song_wire(s);
    let buf = w + rest;
    lemma_len_field(a.len());
    lemma_len_field(b.len());
    lemma_len_field(c.len());
    lemma_utf8_roundtrip(s.artist);
    lemma_utf8_roundtrip(s.album);
    lemma_utf8_roundtrip(s.name);
    let la = a.len() as int;
    let lb = b.len() as int;
    let lc = c.len() as int;
    assert(buf.subrange(0, 8) =~= be_bytes(a.len(), 8));
    assert(buf.subrange(8, 16) =~= be_bytes(b.len(), 8));
    assert(buf.subrange(16, 24) =~= be_bytes(c.len(), 8));
    assert(buf.subrange(24, 24 + la) =~= a);
    assert(buf.subrange(24 + la, 24 + la + lb) =~= b);
    assert(buf.subrange(24 + la + lb, 24 + la + lb + lc) =~= c);
}

/// What a receiver reads is exactly what the sender of that song writes:
/// the bytes taken are the wire form of the song read.
pub proof fn law_song_get_send(b: Seq<u8>)
    ensures
        song_parse(b) matches Ok((s, n)) ==> song_wire(s) == b.take(n as int) && song_fits_wire(s),
{
    if let Ok((s, n)) = song_parse(b) {
        let la = be_value(b.subrange(0, 8)) as int;
        let lb = be_value(b.subrange(8, 16)) as int;
        let lc = be_value(b.subrange(16, 24)) as int;
        law_u64_be_bytes_roundtrip(b.subrange(0, 8));
        law_u64_be_bytes_roundtrip(b.subrange(8, 16));
        law_u64_be_bytes_roundtrip(b.subrange(16, 24));
        let pa = b.subrange(24, 24 + la);
        let pb = b.subrange(24 + la, 24 + la + lb);
        let pc = b.subrange(24 + la + lb, 24 + la + lb + lc);
        lemma_utf8_bytes_roundtrip(pa);
        lemma_utf8_bytes_roundtrip(pb);
        lemma_utf8_bytes_roundtrip(pc);
        assert(song_wire(s) =~= b.take(n as int));
    }
}

} // verus!
