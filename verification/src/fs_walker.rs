//! The music library: artists, their albums and the songs on them.
use vstd::prelude::*;
use crate::song::{Song, SongView};

verus! {

/// An album: its name and its songs, in the order they were found.
pub struct Album {
    songs: Vec<Song>,
    name: String,
}

/// An [`Album`] as a mathematical value.
pub struct AlbumView {
    pub name: Seq<char>,
    pub songs: Seq<SongView>,
}

/// The views of a sequence of songs.
pub open spec fn song_views(s: Seq<Song>) -> Seq<SongView> {
    s.map_values(|x: Song| x@)
}

impl View for Album {
    type V = AlbumView;

    closed spec fn view(&self) -> AlbumView {
        AlbumView { name: self.name@, songs: song_views(self.songs@) }
    }
}

/// `i` is the first position in `songs` of a song called `name`.
pub open spec fn first_song_named(songs: Seq<SongView>, name: Seq<char>, i: int) -> bool {
    &&& 0 <= i < songs.len()
    &&& songs[i].name == name
    &&& forall|j: int| 0 <= j < i ==> songs[j].name != name
}

/// No song in `songs` is called `name`.
pub open spec fn no_song_named(songs: Seq<SongView>, name: Seq<char>) -> bool {
    forall|j: int| 0 <= j < songs.len() ==> songs[j].name != name
}

impl Album {
    pub fn new(name: String) -> (a: Album)
        ensures
            a@ == (AlbumView { name: name@, songs: Seq::empty() }),
    {
        let a = Album { name: name, songs: Vec::new() };
        proof {
            assert(song_views(a.songs@) =~= Seq::empty());
        }
        a
    }

    pub fn name(&self) -> (res: &String)
        ensures
            res@ == self@.name,
    {
        &self.name
    }

    pub fn songs(&self) -> (res: &Vec<Song>)
        ensures
            song_views(res@) == self@.songs,
    {
        &self.songs
    }

    /// The first song of the album called `song`.
    pub fn get_song(&self, song: &String) -> (res: Option<&Song>)
        ensures
            match res {
                Some(s) => exists|i: int|
                    first_song_named(self@.songs, song@, i) && #[trigger] self@.songs[i] == s@,
                None => no_song_named(self@.songs, song@),
            },
    {
        let n = self.songs.len();
        for i in 0..n
            invariant
                n == self.songs@.len(),
                no_song_named(song_views(self.songs@.take(i as int)), song@),
        {
            if self.songs[i].name == *song {
                assert(first_song_named(self@.songs, song@, i as int)) by {
                    assert forall|j: int| 0 <= j < i implies self@.songs[j].name != song@ by {
                        assert(song_views(self.songs@.take(i as int))[j] == self@.songs[j]);
                    }
                }
                return Some(&self.songs[i]);
            }
            assert forall|j: int| 0 <= j < i + 1 implies (#[trigger] song_views(
                self.songs@.take(i + 1),
            )[j]).name != song@ by {
                if j < i {
                    assert(song_views(self.songs@.take(i as int))[j] == song_views(
                        self.songs@.take(i + 1),
                    )[j]);
                }
            }
        }
        assert(self.songs@.take(n as int) =~= self.songs@);
        None
    }
}

/// An artist: its name and its albums, in the order they were found.
pub struct Artist {
    albums: Vec<Album>,
    name: String,
}

/// An [`Artist`] as a mathematical value.
pub struct ArtistView {
    pub name: Seq<char>,
    pub albums: Seq<AlbumView>,
}

/// The views of a sequence of albums.
pub open spec fn album_views(s: Seq<Album>) -> Seq<AlbumView> {
    s.map_values(|x: Album| x@)
}

impl View for Artist {
    type V = ArtistView;

    closed spec fn view(&self) -> ArtistView {
        ArtistView { name: self.name@, albums: album_views(self.albums@) }
    }
}

/// `i` is the first position in `albums` of an album called `name`.
pub open spec fn first_album_named(albums: Seq<AlbumView>, name: Seq<char>, i: int) -> bool {
    &&& 0 <= i < albums.len()
    &&& albums[i].name == name
    &&& forall|j: int| 0 <= j < i ==> albums[j].name != name
}

/// No album in `albums` is called `name`.
pub open spec fn no_album_named(albums: Seq<AlbumView>, name: Seq<char>) -> bool {
    forall|j: int| 0 <= j < albums.len() ==> albums[j].name != name
}

impl Artist {
    pub fn new(name: String) -> (a: Artist)
        ensures
            a@ == (ArtistView { name: name@, albums: Seq::empty() }),
    {
        let a = Artist { name: name, albums: Vec::new() };
        proof {
            assert(album_views(a.albums@) =~= Seq::empty());
        }
        a
    }

    pub fn name(&self) -> (res: &String)
        ensures
            res@ == self@.name,
    {
        &self.name
    }

    pub fn albums(&self) -> (res: &Vec<Album>)
        ensures
            album_views(res@) == self@.albums,
    {
        &self.albums
    }

    /// The first album of the artist called `album`.
    pub fn get_album(&self, album: &String) -> (res: Option<&Album>)
        ensures
            match res {
                Some(a) => exists|i: int|
                    first_album_named(self@.albums, album@, i) && #[trigger] self@.albums[i]
                        == a@,
                None => no_album_named(self@.albums, album@),
            },
    {
        let n = self.albums.len();
        for i in 0..n
            invariant
                n == self.albums@.len(),
                no_album_named(album_views(self.albums@.take(i as int)), album@),
        {
            if self.albums[i].name == *album {
                assert(first_album_named(self@.albums, album@, i as int)) by {
                    assert forall|j: int| 0 <= j < i implies self@.albums[j].name != album@ by {
                        assert(album_views(self.albums@.take(i as int))[j] == self@.albums[j]);
                    }
                }
                return Some(&self.albums[i]);
            }
            assert forall|j: int| 0 <= j < i + 1 implies (#[trigger] album_views(
                self.albums@.take(i + 1),
            )[j]).name != album@ by {
                if j < i {
                    assert(album_views(self.albums@.take(i as int))[j] == album_views(
                        self.albums@.take(i + 1),
                    )[j]);
                }
            }
        }
        assert(self.albums@.take(n as int) =~= self.albums@);
        None
    }
}


/// An album as found on disk: its name and the file names of its songs.
pub struct AlbumListing {
    pub name: String,
    pub songs: Vec<String>,
}

/// An artist as found on disk: its name and its albums.
pub struct ArtistListing {
    pub name: String,
    pub albums: Vec<AlbumListing>,
}

/// The songs of a listed album, each knowing its artist and album.
pub open spec fn listed_songs(artist: Seq<char>, album: Seq<char>, songs: Seq<String>) -> Seq<SongView> {
    songs.map_values(|s: String| SongView { artist: artist, album: album, name: s@ })
}

/// The album that a listing entry of artist `artist` describes.
pub open spec fn listed_album(artist: Seq<char>, a: AlbumListing) -> AlbumView {
    AlbumView { name: a.name@, songs: listed_songs(artist, a.name@, a.songs@) }
}

/// The albums of the listed artist `artist`.
pub open spec fn listed_albums(artist: Seq<char>, albums: Seq<AlbumListing>) -> Seq<AlbumView> {
    albums.map_values(|a: AlbumListing| listed_album(artist, a))
}

/// The artist that a listing entry describes.
pub open spec fn listed_artist(e: ArtistListing) -> ArtistView {
    ArtistView { name: e.name@, albums: listed_albums(e.name@, e.albums@) }
}

/// The library `m` after filing each listed artist in turn, a later artist
/// replacing an earlier one of the same name.
pub open spec fn after_listing(m: Map<Seq<char>, ArtistView>, entries: Seq<ArtistListing>) -> Map<
    Seq<char>,
    ArtistView,
>
    decreases entries.len(),
{
    if entries.len() == 0 {
        m
    } else {
        after_listing(m, entries.drop_last()).insert(
            entries.last().name@,
            listed_artist(entries.last()),
        )
    }
}

/// A listed artist holds exactly what its listing names: the listed name,
/// one album per listed album, in order and under the listed name, and on
/// each album one song per listed file, in order, each song knowing the
/// artist, the album and its file name.
pub proof fn law_listed_artist_exact(e: ArtistListing)
    ensures
        listed_artist(e).name == e.name@,
        listed_artist(e).albums.len() == e.albums@.len(),
        forall|j: int|
            0 <= j < e.albums@.len() ==> (#[trigger] listed_artist(e).albums[j]).name
                == e.albums@[j].name@ && listed_artist(e).albums[j].songs.len()
                == e.albums@[j].songs@.len(),
        forall|j: int, i: int|
            0 <= j < e.albums@.len() && 0 <= i < e.albums@[j].songs@.len()
                ==> #[trigger] listed_artist(e).albums[j].songs[i] == (SongView {
                artist: e.name@,
                album: e.albums@[j].name@,
                name: e.albums@[j].songs@[i]@,
            }),
{
}

/// Filing a listing: the artist named `entries[i].name` is the one that
/// `entries[i]` lists when no later entry has that name, whatever the
/// library held before.
pub proof fn law_after_listing_last_wins(
    m: Map<Seq<char>, ArtistView>,
    entries: Seq<ArtistListing>,
    i: int,
)
    requires
        0 <= i < entries.len(),
        forall|j: int| i < j < entries.len() ==> (#[trigger] entries[j]).name@ != entries[i].name@,
    ensures
        after_listing(m, entries).contains_key(entries[i].name@),
        after_listing(m, entries)[entries[i].name@] == listed_artist(entries[i]),
    decreases entries.len(),
{
    if i < entries.len() - 1 {
        let d = entries.drop_last();
        assert forall|j: int| i < j < d.len() implies (#[trigger] d[j]).name@ != d[i].name@ by {
            assert(d[j] == entries[j]);
        }
        law_after_listing_last_wins(m, d, i);
        assert(entries.last().name@ != entries[i].name@);
    }
}

/// Filing a listing leaves every artist that no entry names as it was: it is
/// in the library afterwards exactly when it was before, and unchanged.
pub proof fn law_after_listing_keeps_others(
    m: Map<Seq<char>, ArtistView>,
    entries: Seq<ArtistListing>,
    k: Seq<char>,
)
    requires
        forall|j: int| 0 <= j < entries.len() ==> (#[trigger] entries[j]).name@ != k,
    ensures
        after_listing(m, entries).contains_key(k) == m.contains_key(k),
        m.contains_key(k) ==> after_listing(m, entries)[k] == m[k],
    decreases entries.len(),
{
    if entries.len() > 0 {
        let d = entries.drop_last();
        assert forall|j: int| 0 <= j < d.len() implies (#[trigger] d[j]).name@ != k by {
            assert(d[j] == entries[j]);
        }
        law_after_listing_keeps_others(m, d, k);
        assert(entries[entries.len() - 1].name@ != k);
    }
}

/// Builds the album that `entry` lists, for the artist `artist`.
fn album_from_listing(artist: &String, entry: &AlbumListing) -> (a: Album)
    ensures
        a@ == listed_album(artist@, *entry),
        a@.name == entry.name@,
        a@.songs.len() == entry.songs@.len(),
        forall|i: int|
            0 <= i < entry.songs@.len() ==> #[trigger] a@.songs[i] == (SongView {
                artist: artist@,
                album: entry.name@,
                name: entry.songs@[i]@,
            }),
{
    let mut album = Album::new(entry.name.clone());
    let n = entry.songs.len();
    for i in 0..n
        invariant
            n == entry.songs@.len(),
            album.name@ == entry.name@,
            song_views(album.songs@) =~= listed_songs(
                artist@,
                entry.name@,
                entry.songs@.take(i as int),
            ),
    {
        let song = Song::new(artist.clone(), entry.name.clone(), entry.songs[i].clone());
        let ghost before = album.songs@;
        album.songs.push(song);
        proof {
            assert(entry.songs@.take(i + 1) =~= entry.songs@.take(i as int).push(entry.songs@[i as int]));
            assert(song_views(album.songs@) =~= song_views(before).push(album.songs@.last()@));
            assert(listed_songs(artist@, entry.name@, entry.songs@.take(i + 1)) =~= listed_songs(
                artist@,
                entry.name@,
                entry.songs@.take(i as int),
            ).push(SongView { artist: artist@, album: entry.name@, name: entry.songs@[i as int]@ }));
        }
    }
    proof {
        assert(entry.songs@.take(n as int) =~= entry.songs@);
    }
    album
}

/// Builds the artist that `entry` lists.
fn artist_from_listing(entry: &ArtistListing) -> (a: Artist)
    ensures
        a@ == listed_artist(*entry),
{
    let mut artist = Artist::new(entry.name.clone());
    let n = entry.albums.len();
    for i in 0..n
        invariant
            n == entry.albums@.len(),
            artist.name@ == entry.name@,
            album_views(artist.albums@) =~= listed_albums(
                entry.name@,
                entry.albums@.take(i as int),
            ),
    {
        let album = album_from_listing(&entry.name, &entry.albums[i]);
        let ghost before = artist.albums@;
        artist.albums.push(album);
        proof {
            assert(entry.albums@.take(i + 1) =~= entry.albums@.take(i as int).push(entry.albums@[i as int]));
            assert(album_views(artist.albums@) =~= album_views(before).push(artist.albums@.last()@));
            assert(listed_albums(entry.name@, entry.albums@.take(i + 1)) =~= listed_albums(
                entry.name@,
                entry.albums@.take(i as int),
            ).push(listed_album(entry.name@, entry.albums@[i as int])));
        }
    }
    proof {
        assert(entry.albums@.take(n as int) =~= entry.albums@);
    }
    artist
}

/// Filing a listed artist keeps every song under the artist and album it names.
proof fn lemma_insert_listed_keeps_places(m: Map<Seq<char>, ArtistView>, e: ArtistListing)
    requires
        songs_where_they_lie(m),
    ensures
        songs_where_they_lie(m.insert(e.name@, listed_artist(e))),
{
    let m2 = m.insert(e.name@, listed_artist(e));
    assert forall|k: Seq<char>, a: int, s: int|
        #![trigger m2[k].albums[a].songs[s]]
        m2.contains_key(k) && 0 <= a < m2[k].albums.len() && 0 <= s < m2[k].albums[a].songs.len()
            implies m2[k].albums[a].songs[s].artist == k && m2[k].albums[a].songs[s].album
            == m2[k].albums[a].name by {
        if k != e.name@ {
            assert(m2[k] == m[k]);
            assert(m[k].albums[a].songs[s] == m2[k].albums[a].songs[s]);
        }
    }
}

/// The whole library, one entry per artist name.
pub struct Directory {
    artists: Vec<Artist>,
}

/// The views of a sequence of artists.
pub open spec fn artist_views(s: Seq<Artist>) -> Seq<ArtistView> {
    s.map_values(|x: Artist| x@)
}

/// No two artists in `s` share a name.
pub open spec fn names_unique(s: Seq<ArtistView>) -> bool {
    forall|i: int, j: int| 0 <= i < j < s.len() ==> s[i].name != s[j].name
}

/// The artists of `s` by name.
pub open spec fn artist_map(s: Seq<ArtistView>) -> Map<Seq<char>, ArtistView> {
    Map::new(
        |k: Seq<char>| exists|i: int| 0 <= i < s.len() && s[i].name == k,
        |k: Seq<char>| s[choose|i: int| 0 <= i < s.len() && s[i].name == k],
    )
}

/// In a sequence with unique names, the artist called `s[i].name` is `s[i]`.
pub proof fn lemma_artist_map_at(s: Seq<ArtistView>, i: int)
    requires
        names_unique(s),
        0 <= i < s.len(),
    ensures
        artist_map(s).contains_key(s[i].name),
        artist_map(s)[s[i].name] == s[i],
{
    let k = s[i].name;
    assert(exists|j: int| 0 <= j < s.len() && s[j].name == k);
    let j = choose|j: int| 0 <= j < s.len() && s[j].name == k;
    assert(i == j);
}

/// Every song of the library lies under the artist and album its fields name.
pub open spec fn songs_where_they_lie(m: Map<Seq<char>, ArtistView>) -> bool {
    forall|k: Seq<char>, a: int, s: int|
        #![trigger m[k].albums[a].songs[s]]
        m.contains_key(k) && 0 <= a < m[k].albums.len() && 0 <= s < m[k].albums[a].songs.len()
            ==> m[k].albums[a].songs[s].artist == k && m[k].albums[a].songs[s].album
            == m[k].albums[a].name
}

impl View for Directory {
    type V = Map<Seq<char>, ArtistView>;

    closed spec fn view(&self) -> Map<Seq<char>, ArtistView> {
        artist_map(artist_views(self.artists@))
    }
}

impl Directory {
    /// No artist name occurs twice.
    #[verifier::type_invariant]
    spec fn names_are_unique(&self) -> bool {
        names_unique(artist_views(self.artists@))
    }

    pub fn new() -> (d: Directory)
        ensures
            d@ == Map::<Seq<char>, ArtistView>::empty(),
            songs_where_they_lie(d@),
    {
        let d = Directory { artists: Vec::new() };
        proof {
            assert(d@ =~= Map::<Seq<char>, ArtistView>::empty());
        }
        d
    }

    /// The artists, each name once.
    pub fn artists(&self) -> (res: &Vec<Artist>)
        ensures
            names_unique(artist_views(res@)),
            artist_map(artist_views(res@)) == self@,
    {
        proof {
            use_type_invariant(self);
        }
        &self.artists
    }

    /// The position of the artist called `name`, if there is one.
    fn position_of(&self, name: &String) -> (res: Option<usize>)
        ensures
            match res {
                Some(i) => i < self.artists@.len() && self.artists@[i as int]@.name == name@,
                None => !self@.contains_key(name@),
            },
    {
        proof {
            use_type_invariant(self);
        }
        let n = self.artists.len();
        for i in 0..n
            invariant
                n == self.artists@.len(),
                names_unique(artist_views(self.artists@)),
                forall|j: int| 0 <= j < i ==> #[trigger] self.artists@[j]@.name != name@,
        {
            if self.artists[i].name == *name {
                return Some(i);
            }
        }
        proof {
            if self@.contains_key(name@) {
                let j = choose|j: int|
                    0 <= j < artist_views(self.artists@).len() && artist_views(self.artists@)[j].name
                        == name@;
                assert(self.artists@[j]@.name == name@);
            }
        }
        None
    }

    /// The artist called `artist`.
    pub fn get_artist(&self, artist: &String) -> (res: Option<&Artist>)
        ensures
            match res {
                Some(a) => self@.contains_key(artist@) && self@[artist@] == a@,
                None => !self@.contains_key(artist@),
            },
    {
        proof {
            use_type_invariant(self);
        }
        match self.position_of(artist) {
            Some(i) => {
                proof {
                    lemma_artist_map_at(artist_views(self.artists@), i as int);
                }
                Some(&self.artists[i])
            },
            None => None,
        }
    }

    /// Files every listed artist in turn, as walking the library directory
    /// does: a later artist replaces an earlier one of the same name, and
    /// each song is made to know its artist and album.
    pub fn load_listing(&mut self, listing: &Vec<ArtistListing>)
        ensures
            final(self)@ == after_listing(old(self)@, listing@),
            songs_where_they_lie(old(self)@) ==> songs_where_they_lie(final(self)@),
    {
        let ghost start = self@;
        let n = listing.len();
        for i in 0..n
            invariant
                n == listing@.len(),
                self@ == after_listing(start, listing@.take(i as int)),
                songs_where_they_lie(start) ==> songs_where_they_lie(self@),
        {
            let artist = artist_from_listing(&listing[i]);
            let ghost before = self@;
            self.insert_artist(artist);
            proof {
                assert(listing@.take(i + 1).drop_last() =~= listing@.take(i as int));
                if songs_where_they_lie(start) {
                    lemma_insert_listed_keeps_places(before, listing@[i as int]);
                }
            }
        }
        proof {
            assert(listing@.take(n as int) =~= listing@);
        }
    }

    /// Files `artist` under its name, replacing an artist of the same name.
    pub fn insert_artist(&mut self, artist: Artist)
        ensures
            final(self)@ == old(self)@.insert(artist@.name, artist@),
    {
        proof {
            use_type_invariant(&*self);
        }
        let ghost old_views = artist_views(self.artists@);
        let ghost a = artist@;
        let pos = self.position_of(&artist.name);
        let mut v: Vec<Artist> = Vec::new();
        std::mem::swap(&mut v, &mut self.artists);
        assert(artist_views(v@) == old_views);
        match pos {
            Some(i) => {
                v.set(i, artist);
                proof {
                    let nv = artist_views(v@);
                    assert(nv =~= old_views.update(i as int, a));
                    assert(old_views[i as int].name == a.name);
                    assert(names_unique(nv)) by {
                        assert forall|x: int, y: int| 0 <= x < y < nv.len() implies nv[x].name
                            != nv[y].name by {
                            assert(nv[x].name == old_views[x].name);
                            assert(nv[y].name == old_views[y].name);
                        }
                    }
                    assert(artist_map(nv) =~= artist_map(old_views).insert(a.name, a)) by {
                        assert forall|k: Seq<char>|
                            #[trigger] artist_map(nv).contains_key(k) == artist_map(
                                old_views,
                            ).insert(a.name, a).contains_key(k) by {
                            if artist_map(old_views).contains_key(k) {
                                let j = choose|j: int|
                                    0 <= j < old_views.len() && old_views[j].name == k;
                                if j != i {
                                    assert(nv[j].name == k);
                                }
                            }
                            if k == a.name {
                                assert(nv[i as int].name == k);
                            }
                        }
                        assert forall|k: Seq<char>| #[trigger]
                            artist_map(nv).contains_key(k) implies artist_map(nv)[k]
                            == artist_map(old_views).insert(a.name, a)[k] by {
                            let j = choose|j: int| 0 <= j < nv.len() && nv[j].name == k;
                            lemma_artist_map_at(nv, j);
                            if k != a.name {
                                assert(j != i);
                                assert(nv[j] == old_views[j]);
                                lemma_artist_map_at(old_views, j);
                            } else {
                                assert(nv[i as int].name == k);
                                assert(j == i);
                            }
                        }
                    }
                }
            },
            None => {
                v.push(artist);
                proof {
                    let nv = artist_views(v@);
                    assert(nv =~= old_views.push(a));
                    assert(names_unique(nv)) by {
                        assert forall|i: int, j: int| 0 <= i < j < nv.len() implies nv[i].name
                            != nv[j].name by {
                            if j == nv.len() - 1 {
                                if nv[i].name == nv[j].name {
                                    assert(old_views[i].name == a.name);
                                }
                            }
                        }
                    }
                    assert(artist_map(nv) =~= artist_map(old_views).insert(a.name, a)) by {
                        assert forall|k: Seq<char>|
                            #[trigger] artist_map(nv).contains_key(k) == artist_map(
                                old_views,
                            ).insert(a.name, a).contains_key(k) by {
                            if artist_map(old_views).contains_key(k) {
                                let j = choose|j: int|
                                    0 <= j < old_views.len() && old_views[j].name == k;
                                assert(nv[j].name == k);
                            }
                            if k == a.name {
                                assert(nv[nv.len() - 1].name == k);
                            }
                        }
                        assert forall|k: Seq<char>| #[trigger]
                            artist_map(nv).contains_key(k) implies artist_map(nv)[k]
                            == artist_map(old_views).insert(a.name, a)[k] by {
                            let j = choose|j: int| 0 <= j < nv.len() && nv[j].name == k;
                            lemma_artist_map_at(nv, j);
                            if k != a.name {
                                lemma_artist_map_at(old_views, j);
                            }
                        }
                    }
                }
            },
        }
        self.artists = v;
    }
}

} // verus!
