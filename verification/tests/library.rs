use doomrakr::doom::{
    command_from_word, console_step, get_action, get_client_selection, select_album, select_artist, select_song,
    status_json, Command, ConsoleStep,
};
use doomrakr::fs_walker::{Album, AlbumListing, Artist, ArtistListing, Directory};
use doomrakr::song::Song;
use doomrakr::text::remove_whitespace;

fn listing() -> Vec<ArtistListing> {
    vec![
        ArtistListing {
            name: "Doom".to_string(),
            albums: vec![
                AlbumListing { name: "Mm..Food".to_string(), songs: vec!["Beef Rapp.mp3".to_string(), "Hoe Cakes.mp3".to_string()] },
                AlbumListing { name: "Operation".to_string(), songs: vec!["Rhymes.mp3".to_string()] },
            ],
        },
        ArtistListing { name: "Other".to_string(), albums: vec![] },
    ]
}

#[test]
fn new_items_are_empty() {
    let a = Album::new("x".to_string());
    assert_eq!(a.name(), "x");
    assert!(a.songs().is_empty());
    let r = Artist::new("y".to_string());
    assert_eq!(r.name(), "y");
    assert!(r.albums().is_empty());
    let d = Directory::new();
    assert!(d.get_artist(&"y".to_string()).is_none());
}

#[test]
fn load_listing_files_songs_under_artist_and_album() {
    let mut d = Directory::new();
    d.load_listing(&listing());
    let artist = d.get_artist(&"Doom".to_string()).unwrap();
    assert_eq!(artist.albums().len(), 2);
    let album = artist.get_album(&"Mm..Food".to_string()).unwrap();
    let s = album.get_song(&"Hoe Cakes.mp3".to_string()).unwrap();
    assert_eq!((s.artist.as_str(), s.album.as_str(), s.name.as_str()), ("Doom", "Mm..Food", "Hoe Cakes.mp3"));
    assert!(album.get_song(&"Nope".to_string()).is_none());
    assert!(artist.get_album(&"Nope".to_string()).is_none());
    assert!(d.get_artist(&"Other".to_string()).unwrap().albums().is_empty());
    assert_eq!(d.artists().len(), 2);
}

#[test]
fn later_artist_of_same_name_replaces_earlier() {
    let mut d = Directory::new();
    d.load_listing(&listing());
    d.load_listing(&vec![ArtistListing { name: "Doom".to_string(), albums: vec![] }]);
    assert_eq!(d.artists().len(), 2);
    assert!(d.get_artist(&"Doom".to_string()).unwrap().albums().is_empty());
}

#[test]
fn remove_whitespace_drops_every_space() {
    let mut s = " Mm..Food\t\n".to_string();
    remove_whitespace(&mut s);
    assert_eq!(s, "Mm..Food");
    let mut s = "a b\u{3000}c\u{a0}".to_string();
    remove_whitespace(&mut s);
    assert_eq!(s, "abc");
    remove_whitespace(&mut s);
    assert_eq!(s, "abc");
}

#[test]
fn get_action_reads_commands() {
    assert!(matches!(get_action(&"add\n".to_string()), Ok(Command::Add)));
    assert!(matches!(get_action(&" RESUME ".to_string()), Ok(Command::Resume)));
    assert!(matches!(get_action(&"Pause".to_string()), Ok(Command::Pause)));
    assert!(matches!(get_action(&"status".to_string()), Ok(Command::Status)));
    assert!(matches!(get_action(&"help".to_string()), Ok(Command::Help)));
    match get_action(&"Play Now\n".to_string()) {
        Err(m) => assert_eq!(m, "Command not recognized: playnow"),
        Ok(_) => panic!("unknown command accepted"),
    }
}

#[test]
fn get_client_selection_checks_range() {
    assert_eq!(get_client_selection(&" 2\n".to_string(), 3), Ok(2));
    assert_eq!(get_client_selection(&"+3".to_string(), 3), Ok(3));
    assert_eq!(
        get_client_selection(&"4".to_string(), 3),
        Err("Invalid connection number. select a number between 0 and 3".to_string())
    );
    assert_eq!(get_client_selection(&"x".to_string(), 3), Err("invalid digit found in string".to_string()));
    assert_eq!(get_client_selection(&"\n".to_string(), 3), Err("cannot parse integer from empty string".to_string()));
    assert_eq!(
        get_client_selection(&"99999999999999999999999".to_string(), 3),
        Err("number too large to fit in target type".to_string())
    );
    assert_eq!(
        get_client_selection(&"12".to_string(), 10),
        Err("Invalid connection number. select a number between 0 and 10".to_string())
    );
}

#[test]
fn selection_finds_or_explains() {
    let mut d = Directory::new();
    d.load_listing(&listing());
    assert_eq!(select_artist(&d, &"Nobody\n".to_string()).err(), Some("Artist Nobody does not exist. Try again!".to_string()));
    let artist = select_artist(&d, &" Doom\n".to_string()).ok().unwrap();
    assert_eq!(select_album(artist, &"x".to_string()).err(), Some("Album x does not exist. Try again!".to_string()));
    let album = select_album(artist, &"Operation\n".to_string()).ok().unwrap();
    assert_eq!(select_song(album, &"y".to_string()).err(), Some("Song y does not exist. Try again!".to_string()));
    let s = select_song(album, &"Rhymes.mp3\n".to_string()).ok().unwrap();
    assert_eq!(Song::get_path(&s), "Doom/Operation/Rhymes.mp3");
}

#[test]
fn status_json_lists_song_names() {
    let q = vec![Song::new("a".to_string(), "b".to_string(), "one".to_string()), Song::new("a".to_string(), "b".to_string(), "t\"wo".to_string())];
    assert_eq!(status_json(&"c1".to_string(), true, &q), r#"{"client_num":"c1","is_paused":true,"current_queue":["one","t\"wo"]}"#);
    assert_eq!(status_json(&"c2".to_string(), false, &vec![]), r#"{"client_num":"c2","is_paused":false,"current_queue":[]}"#);
}

#[test]
fn command_words_are_matched_exactly() {
    assert!(matches!(command_from_word(&"add".to_string()), Ok(Command::Add)));
    assert!(matches!(command_from_word(&"resume".to_string()), Ok(Command::Resume)));
    assert!(matches!(command_from_word(&"pause".to_string()), Ok(Command::Pause)));
    assert!(matches!(command_from_word(&"status".to_string()), Ok(Command::Status)));
    assert!(matches!(command_from_word(&"help".to_string()), Ok(Command::Help)));
    match command_from_word(&"Add".to_string()) {
        Err(m) => assert_eq!(m, "Command not recognized: Add"),
        Ok(_) => panic!("words are matched exactly"),
    }
}

#[test]
fn console_steps() {
    assert!(matches!(console_step(0, None), ConsoleStep::Sleep(1000)));
    assert!(matches!(console_step(0, Some(Ok(Command::Add))), ConsoleStep::Sleep(1000)));
    assert!(matches!(console_step(2, None), ConsoleStep::ReadAction));
    assert!(matches!(console_step(2, Some(Ok(Command::Status))), ConsoleStep::Run(Command::Status, 5000)));
    match console_step(1, Some(Err("nope".to_string()))) {
        ConsoleStep::Complain(m, ms) => assert_eq!((m.as_str(), ms), ("nope", 5000)),
        _ => panic!("expected a complaint"),
    }
}
