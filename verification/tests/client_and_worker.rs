use doomrakr::doomrakr_worker::{library_path, StreamState, Task, Worker};
use doomrakr::doomreadr::{command_for_action, heartbeat_due, init_stream_step, reply_header, status_reply, ServerCommand};
use doomrakr::headers::{self, Header};
use doomrakr::logger::{gen_filename, log_filename_for};
use doomrakr::player::{get_dir_for_song, get_dir_for_stream, get_for_stream, get_path_for_song, SongQueue};
use doomrakr::song::Song;

fn song(n: &str) -> Song {
    Song::new("Art".to_string(), "Alb".to_string(), n.to_string())
}

fn names(v: &Vec<Song>) -> Vec<String> {
    v.iter().map(|s| s.name.clone()).collect()
}

#[test]
fn cache_paths() {
    let s = song("x.mp3");
    assert_eq!(get_path_for_song(&s), "/tmp/doomrakr/Art/Alb/x.mp3");
    assert_eq!(get_for_stream(&s), "/tmp/doomrakr/streaming/Art/Alb/x.mp3");
    assert_eq!(get_dir_for_song(&s), "/tmp/doomrakr/Art/Alb");
    assert_eq!(get_dir_for_stream(&s), "/tmp/doomrakr/streaming/Art/Alb");
    assert_eq!(library_path(&s), "/home/nick/music/Art/Alb/x.mp3");
}

#[test]
fn queue_feeds_the_sink_in_order() {
    let mut q = SongQueue::new();
    q.add_to_queue(song("a"));
    q.add_to_queue(song("b"));
    q.add_to_queue(song("c"));
    assert_eq!(names(&q.get_queue()), vec!["a", "b", "c"]);
    assert_eq!(q.maybe_enqueue_song(0), Some("/tmp/doomrakr/Art/Alb/a".to_string()));
    assert_eq!(q.maybe_enqueue_song(1), Some("/tmp/doomrakr/Art/Alb/b".to_string()));
    assert_eq!(q.playing_count(), 2);
    assert_eq!(q.maybe_enqueue_song(2), None);
    assert_eq!(names(&q.get_queue()), vec!["a", "b", "c"]);
    // the sink finished "a"
    assert_eq!(q.maybe_enqueue_song(1), Some("/tmp/doomrakr/Art/Alb/c".to_string()));
    assert_eq!(names(&q.get_queue()), vec!["b", "c"]);
    assert_eq!(q.maybe_enqueue_song(0), None);
    assert!(q.get_queue().is_empty());
}

#[test]
fn commands_and_replies() {
    assert!(matches!(command_for_action(headers::SERVER_ACK), ServerCommand::Ack));
    assert!(matches!(command_for_action(headers::SERVER_INIT_STREAM), ServerCommand::InitStream));
    assert!(matches!(command_for_action(headers::SERVER_STREAM_CHUNK), ServerCommand::StreamChunk));
    assert!(matches!(command_for_action(headers::SERVER_STREAM_FINISHED), ServerCommand::StreamFinished));
    assert!(matches!(command_for_action(headers::SERVER_RESUME), ServerCommand::Resume));
    assert!(matches!(command_for_action(headers::SERVER_PAUSE), ServerCommand::Pause));
    assert!(matches!(command_for_action(headers::SERVER_GET_STATUS), ServerCommand::GetStatus));
    assert!(matches!(command_for_action(200), ServerCommand::Unknown(200)));
    let id = "me".to_string();
    let r = reply_header(&ServerCommand::InitStream, &id, true).unwrap();
    assert_eq!((r.action, r.id.as_str()), (headers::CLIENT_SONG_CACHED, "me"));
    let r = reply_header(&ServerCommand::InitStream, &id, false).unwrap();
    assert_eq!(r.action, headers::CLIENT_ACK);
    assert_eq!(reply_header(&ServerCommand::StreamChunk, &id, false).unwrap().action, headers::CLIENT_ACK);
    assert_eq!(reply_header(&ServerCommand::StreamFinished, &id, false).unwrap().action, headers::CLIENT_ACK);
    assert_eq!(reply_header(&ServerCommand::Resume, &id, false).unwrap().action, headers::CLIENT_RESUMED);
    assert_eq!(reply_header(&ServerCommand::Pause, &id, false).unwrap().action, headers::CLIENT_PAUSED);
    assert!(reply_header(&ServerCommand::Ack, &id, false).is_none());
    assert!(reply_header(&ServerCommand::GetStatus, &id, false).is_none());
    assert!(reply_header(&ServerCommand::Unknown(99), &id, false).is_none());
    assert!(!heartbeat_due(0));
    assert!(heartbeat_due(1));
}

#[test]
fn status_reply_layout() {
    let q = vec![song("a")];
    let bytes = status_reply(&"me".to_string(), true, &q);
    let mut expect = Vec::new();
    expect.extend_from_slice(&1usize.to_be_bytes());
    expect.extend_from_slice(&1usize.to_be_bytes());
    expect.extend_from_slice(&Header::new(headers::CLIENT_STATUS, "me".to_string()).to_bytes());
    expect.extend_from_slice(&q[0].to_bytes());
    assert_eq!(bytes, expect);
}

#[test]
fn worker_streams_a_song() {
    let hello = Header::new(headers::CLIENT_HELLO, "client".to_string());
    let (mut w, ack) = Worker::init_connection(&hello);
    assert_eq!((ack.action, ack.id.as_str()), (headers::SERVER_ACK, "client"));
    assert_eq!((w.client_id.as_str(), w.id.as_str()), ("client", "MASTER"));
    assert!(matches!(w.next_task(), Task::Heartbeat));
    assert!(!w.is_closed());
    let hb = w.heartbeat_ack();
    assert_eq!((hb.action, hb.id.as_str()), (headers::SERVER_ACK, "client"));

    let s = song("x");
    let req = w.song_request(&s);
    let mut expect = Header::new(headers::SERVER_INIT_STREAM, "MASTER".to_string()).to_bytes();
    expect.extend_from_slice(&s.to_bytes());
    assert_eq!(req, expect);

    let cached = Header::new(headers::CLIENT_SONG_CACHED, "client".to_string());
    assert_eq!(w.stream_file_for(&cached, &s), None);
    let ok = Header::new(headers::CLIENT_ACK, "client".to_string());
    assert_eq!(w.stream_file_for(&ok, &s), Some("/home/nick/music/Art/Alb/x".to_string()));
    assert!(matches!(w.state, StreamState::Idle));
    w.start_stream(song("x"));
    assert!(matches!(w.next_task(), Task::SendChunk));

    let data = [7u8; 4096];
    let chunk = w.chunk_message(&data, 10);
    let mut expect = Header::new(headers::SERVER_STREAM_CHUNK, "MASTER".to_string()).to_bytes();
    expect.extend_from_slice(&s.to_bytes());
    expect.extend_from_slice(&data);
    assert_eq!(chunk, expect);
    let fin = w.chunk_message(&data, 0);
    let mut expect = Header::new(headers::SERVER_STREAM_FINISHED, "MASTER".to_string()).to_bytes();
    expect.extend_from_slice(&s.to_bytes());
    assert_eq!(fin, expect);
    assert!(!w.chunk_sent(10));
    assert!(matches!(w.next_task(), Task::SendChunk));
    assert!(w.chunk_sent(0));
    assert!(matches!(w.state, StreamState::Idle));
    w.start_stream(song("x"));
    w.finish_stream();
    assert!(matches!(w.state, StreamState::Idle));
    w.state = StreamState::Closed;
    assert!(w.is_closed());
    assert!(matches!(w.next_task(), Task::Stop));
}

#[test]
fn log_file_names() {
    assert_eq!(log_filename_for(3, 14, 0), "/tmp/doomrakr/doomrakr.3.14.0.log");
    assert_eq!(log_filename_for(12, 31, 23), "/tmp/doomrakr/doomrakr.12.31.23.log");
    let name = gen_filename();
    assert!(name.starts_with("/tmp/doomrakr/doomrakr."));
    assert!(name.ends_with(".log"));
    let parts: Vec<&str> = name["/tmp/doomrakr/doomrakr.".len()..name.len() - 4].split('.').collect();
    assert_eq!(parts.len(), 3);
    let m: u32 = parts[0].parse().unwrap();
    let d: u32 = parts[1].parse().unwrap();
    let h: u32 = parts[2].parse().unwrap();
    assert!((1..=12).contains(&m) && (1..=31).contains(&d) && h <= 23);
}

#[test]
fn stream_offer_steps() {
    let id = "me".to_string();
    for (cached, streaming) in [(true, false), (false, true), (true, true)] {
        let step = init_stream_step(&id, cached, streaming);
        assert!(step.on_disk);
        assert_eq!((step.reply.action, step.reply.id.as_str()), (headers::CLIENT_SONG_CACHED, "me"));
    }
    let step = init_stream_step(&id, false, false);
    assert!(!step.on_disk);
    assert_eq!((step.reply.action, step.reply.id.as_str()), (headers::CLIENT_ACK, "me"));
}
