//! The server console's decisions: which client, which command, which song.
use vstd::prelude::*;
use crate::fs_walker::{
    first_album_named, first_song_named, no_album_named, no_song_named, song_views,
    songs_where_they_lie, Album, Artist, ArtistView, Directory,
};
use crate::song::{Song, SongView};
use crate::text::{
    decimal_text, decimal_value, is_usize_literal, lowercase, parse_usize, push_decimal,
    remove_whitespace, to_lowercase, trim, trimmed, unsigned_digits, usize_parse_error_text,
    without_white_space,
};

verus! {

/// A console command of the server.
pub enum Command {
    Add,
    Resume,
    Pause,
    Status,
    Help,
}

/// The command that the typed word `w` names, once white space is gone and
/// letters are lower case.
pub open spec fn command_named(w: Seq<char>) -> Option<Command> {
    if w == "add"@ {
        Some(Command::Add)
    } else if w == "resume"@ {
        Some(Command::Resume)
    } else if w == "pause"@ {
        Some(Command::Pause)
    } else if w == "status"@ {
        Some(Command::Status)
    } else if w == "help"@ {
        Some(Command::Help)
    } else {
        None
    }
}

/// The command that the word `word` names; words are matched exactly, and
/// any other word is answered with a message that quotes it.
pub fn command_from_word(word: &String) -> (res: Result<Command, String>)
    ensures
        match (res, command_named(word@)) {
            (Ok(c), Some(d)) => c == d,
            (Err(m), None) => m@ == "Command not recognized: "@ + word@,
            _ => false,
        },
{
    if *word == String::from_str("add") {
        Ok(Command::Add)
    } else if *word == String::from_str("resume") {
        Ok(Command::Resume)
    } else if *word == String::from_str("pause") {
        Ok(Command::Pause)
    } else if *word == String::from_str("status") {
        Ok(Command::Status)
    } else if *word == String::from_str("help") {
        Ok(Command::Help)
    } else {
        let mut m = String::from_str("Command not recognized: ");
        m.append(word.as_str());
        Err(m)
    }
}

/// Reads a command from the line `line` typed at the console: white space is
/// dropped and the word lowered before it is matched.
pub fn get_action(line: &String) -> (res: Result<Command, String>)
    ensures
        ({
            let w = lowercase(without_white_space(line@));
            match (res, command_named(w)) {
                (Ok(c), Some(d)) => c == d,
                (Err(m), None) => m@ == "Command not recognized: "@ + w,
                _ => false,
            }
        }),
{
    let mut action = line.clone();
    remove_whitespace(&mut action);
    let action = to_lowercase(action.as_str());
    command_from_word(&action)
}

/// What the server console does next.
pub enum ConsoleStep {
    /// No client is connected: sleep this many milliseconds, then look again.
    Sleep(u64),
    /// Ask the operator for a command.
    ReadAction,
    /// Run the command, then sleep this many milliseconds.
    Run(Command, u64),
    /// Show the operator this message, then sleep this many milliseconds.
    Complain(String, u64),
}

/// The console's next step when `n_workers` clients are connected and
/// `action` is the command read so far (`None` before one is read): with no
/// client it sleeps a second; otherwise it asks for a command, and then runs
/// it, or shows why the typed word is no command, waiting five seconds after
/// either.
pub fn console_step(n_workers: usize, action: Option<Result<Command, String>>) -> (res: ConsoleStep)
    ensures
        n_workers == 0 ==> (res matches ConsoleStep::Sleep(ms) && ms == 1000),
        n_workers > 0 ==> match action {
            None => res is ReadAction,
            Some(Ok(c)) => (res matches ConsoleStep::Run(d, ms) && d == c && ms == 5000),
            Some(Err(m)) => (res matches ConsoleStep::Complain(t, ms) && t == m && ms == 5000),
        },
{
    if n_workers == 0 {
        return ConsoleStep::Sleep(1000);
    }
    match action {
        None => ConsoleStep::ReadAction,
        Some(Ok(c)) => ConsoleStep::Run(c, 5000),
        Some(Err(m)) => ConsoleStep::Complain(m, 5000),
    }
}

/// Reads a client number from the line `line`: the trimmed text must be a
/// number no greater than `max_num`.
pub fn get_client_selection(line: &String, max_num: usize) -> (res: Result<usize, String>)
    ensures
        ({
            let t = trimmed(line@);
            if !is_usize_literal(t) {
                res matches Err(m) && m@ == usize_parse_error_text(t)
            } else if decimal_value(unsigned_digits(t)) > max_num {
                res matches Err(m) && m@ == "Invalid connection number. select a number between 0 and "@
                    + decimal_text(max_num as nat)
            } else {
                res matches Ok(n) && n == decimal_value(unsigned_digits(t))
            }
        }),
{
    let con_num = match parse_usize(trim(line.as_str())) {
        Ok(n) => n,
        Err(m) => return Err(m),
    };
    if con_num > max_num {
        let mut m = String::from_str("Invalid connection number. select a number between 0 and ");
        push_decimal(&mut m, max_num as u64);
        return Err(m);
    }
    Ok(con_num)
}

/// Finds the artist that the typed line `line` names.
pub fn select_artist<'a>(dir: &'a Directory, line: &String) -> (res: Result<&'a Artist, String>)
    ensures
        ({
            let name = without_white_space(line@);
            match res {
                Ok(a) => dir@.contains_key(name) && dir@[name] == a@,
                Err(m) => !dir@.contains_key(name) && m@ == "Artist "@ + name
                    + " does not exist. Try again!"@,
            }
        }),
{
    let mut name = line.clone();
    remove_whitespace(&mut name);
    match dir.get_artist(&name) {
        Some(a) => Ok(a),
        None => {
            let mut m = String::from_str("Artist ");
            m.append(name.as_str());
            m.append(" does not exist. Try again!");
            Err(m)
        },
    }
}

/// Finds the album of `artist` that the typed line `line` names.
pub fn select_album<'a>(artist: &'a Artist, line: &String) -> (res: Result<&'a Album, String>)
    ensures
        ({
            let name = without_white_space(line@);
            match res {
                Ok(a) => exists|i: int|
                    first_album_named(artist@.albums, name, i) && #[trigger] artist@.albums[i]
                        == a@,
                Err(m) => no_album_named(artist@.albums, name) && m@ == "Album "@ + name
                    + " does not exist. Try again!"@,
            }
        }),
{
    let mut name = line.clone();
    remove_whitespace(&mut name);
    match artist.get_album(&name) {
        Some(a) => Ok(a),
        None => {
            let mut m = String::from_str("Album ");
            m.append(name.as_str());
            m.append(" does not exist. Try again!");
            Err(m)
        },
    }
}

/// The song of `album` that the typed line `line` names, as a new value.
pub fn select_song(album: &Album, line: &String) -> (res: Result<Song, String>)
    ensures
        ({
            let name = without_white_space(line@);
            match res {
                Ok(s) => exists|i: int|
                    first_song_named(album@.songs, name, i) && #[trigger] album@.songs[i] == s@,
                Err(m) => no_song_named(album@.songs, name) && m@ == "Song "@ + name
                    + " does not exist. Try again!"@,
            }
        }),
{
    let mut name = line.clone();
    remove_whitespace(&mut name);
    match album.get_song(&name) {
        Some(s) => Ok(Song::new(s.artist.clone(), s.album.clone(), s.name.clone())),
        None => {
            let mut m = String::from_str("Song ");
            m.append(name.as_str());
            m.append(" does not exist. Try again!");
            Err(m)
        },
    }
}


/// In a library where every song lies where its fields say (as every library
/// loaded from a listing does), the song chosen through [`select_artist`],
/// [`select_album`] and [`select_song`] carries the chosen artist's name, the
/// chosen album's name and the typed song name.
pub proof fn law_selected_song_lies_where_chosen(
    dir: Map<Seq<char>, ArtistView>,
    artist: Seq<char>,
    a: int,
    s: int,
    song: Seq<char>,
)
    requires
        songs_where_they_lie(dir),
        dir.contains_key(artist),
        first_album_named(dir[artist].albums, dir[artist].albums[a].name, a),
        first_song_named(dir[artist].albums[a].songs, song, s),
    ensures
        dir[artist].albums[a].songs[s].artist == artist,
        dir[artist].albums[a].songs[s].album == dir[artist].albums[a].name,
        dir[artist].albums[a].songs[s].name == song,
{
    assert(dir[artist].albums[a].songs[s] == dir[artist].albums[a].songs[s]);
}

/// The text `json::stringify` makes of a JSON object with three entries,
/// inserted in this order: key `k1` with the string `v1`, key `k2` with the
/// boolean `v2`, and key `k3` with the array of strings `v3`.
pub uninterp spec fn json_object_text(
    k1: Seq<char>,
    v1: Seq<char>,
    k2: Seq<char>,
    v2: bool,
    k3: Seq<char>,
    v3: Seq<Seq<char>>,
) -> Seq<char>;

/// The texts of a sequence of strings.
pub open spec fn string_views(v: Seq<String>) -> Seq<Seq<char>> {
    v.map_values(|s: String| s@)
}

/// `json::stringify` of the object that `JsonValue::new_object` starts and
/// that gets, in order, the entries `k1`, `k2` and `k3`, each value turned
/// into a `JsonValue` by `JsonValue::from`. The text depends on these
/// arguments alone and is only named here, not spelt out.
#[verifier::external_body]
fn stringify_object(
    k1: &str,
    v1: &str,
    k2: &str,
    v2: bool,
    k3: &str,
    v3: Vec<String>,
) -> (res: String)
    ensures
        res@ == json_object_text(k1@, v1@, k2@, v2, k3@, string_views(v3@)),
{
    let mut object = json::JsonValue::new_object();
    object[k1] = json::JsonValue::from(v1);
    object[k2] = json::JsonValue::from(v2);
    object[k3] = json::JsonValue::from(v3);
    json::stringify(object)
}

/// The JSON text of a client's status: key `client_num` holds the client's
/// id, `is_paused` whether it is paused, and `current_queue` the names of
/// the songs in its queue.
pub open spec fn status_json_text(client_id: Seq<char>, is_paused: bool, names: Seq<Seq<char>>) -> Seq<char> {
    json_object_text("client_num"@, client_id, "is_paused"@, is_paused, "current_queue"@, names)
}

/// The names of the songs `queue`, in order.
pub open spec fn song_names(queue: Seq<SongView>) -> Seq<Seq<char>> {
    queue.map_values(|s: SongView| s.name)
}

/// The names listed are one per queued song, in queue order, each the name
/// of the song at its place.
pub proof fn law_song_names_one_per_song(queue: Seq<SongView>)
    ensures
        song_names(queue).len() == queue.len(),
        forall|i: int| 0 <= i < queue.len() ==> #[trigger] song_names(queue)[i] == queue[i].name,
{
}

/// The texts of strings are one per string, in order.
pub proof fn law_string_views_one_per_string(v: Seq<String>)
    ensures
        string_views(v).len() == v.len(),
        forall|i: int| 0 <= i < v.len() ==> #[trigger] string_views(v)[i] == v[i]@,
{
}

/// The status of client `client_id` as JSON: its id, whether it is paused,
/// and the names of the songs in its queue.
pub fn status_json(client_id: &String, is_paused: bool, queue: &Vec<Song>) -> (res: String)
    ensures
        res@ == status_json_text(client_id@, is_paused, song_names(song_views(queue@))),
        forall|names: Seq<Seq<char>>|
            names.len() == queue@.len() && (forall|i: int|
                0 <= i < queue@.len() ==> #[trigger] names[i] == queue@[i].name@)
                ==> res@ == #[trigger] json_object_text(
                "client_num"@,
                client_id@,
                "is_paused"@,
                is_paused,
                "current_queue"@,
                names,
            ),
{
    let mut names: Vec<String> = Vec::new();
    let n = queue.len();
    for i in 0..n
        invariant
            n == queue@.len(),
            string_views(names@) =~= song_names(song_views(queue@.take(i as int))),
    {
        let ghost before = names@;
        names.push(queue[i].name.clone());
        proof {
            assert(string_views(names@) =~= string_views(before).push(queue@[i as int].name@));
            assert(queue@.take(i + 1) =~= queue@.take(i as int).push(queue@[i as int]));
        }
    }
    proof {
        assert(queue@.take(n as int) =~= queue@);
    }
    let res = stringify_object(
        "client_num",
        client_id.as_str(),
        "is_paused",
        is_paused,
        "current_queue",
        names,
    );
    proof {
        let all = song_names(song_views(queue@));
        assert forall|names: Seq<Seq<char>>|
            names.len() == queue@.len() && (forall|i: int|
                0 <= i < queue@.len() ==> #[trigger] names[i] == queue@[i].name@) implies res@
            == #[trigger] json_object_text(
                "client_num"@,
                client_id@,
                "is_paused"@,
                is_paused,
                "current_queue"@,
                names,
            ) by {
            assert(names =~= all);
        }
    }
    res
}

} // verus!
