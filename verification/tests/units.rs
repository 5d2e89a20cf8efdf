use pjoin::channel::ChunkQueue;
use pjoin::chunks::{chunk_bytes, copy_range, ChunkAssembler};
use pjoin::config::{Config, CHUNK_CAPACITY};
use pjoin::parse::{command_from_words, parse_command, split_object_path};
use pjoin::scheduler::Scheduler;
use pjoin::writer::{write_chunk, WriteProgress};

#[test]
fn config_rejects_zero_values() {
    assert!(Config::new(0, 1024).is_none());
    assert!(Config::new(4, 0).is_none());
    assert!(Config::new(1, 1).is_some());
}

#[test]
fn channel_depth_is_budget_over_chunk_capacity() {
    let c = Config::new(16, 1 << 30).unwrap();
    assert_eq!(c.channel_depth(), (1 << 30) / CHUNK_CAPACITY);
    assert_eq!(c.channel_depth(), 512);
}

#[test]
fn channel_depth_has_floor_one() {
    let c = Config::new(16, CHUNK_CAPACITY - 1).unwrap();
    assert_eq!(c.channel_depth(), 1);
    let d = Config::new(16, 2 * CHUNK_CAPACITY).unwrap();
    assert_eq!(d.channel_depth(), 2);
}

#[test]
fn chunking_splits_at_capacity() {
    let data: Vec<u8> = b"abcdefgh".to_vec();
    let chunks = chunk_bytes(&data, 3);
    let views: Vec<&[u8]> = chunks.iter().map(|c| c.as_slice()).collect();
    assert_eq!(views, vec![b"abc".as_slice(), b"def".as_slice(), b"gh".as_slice()]);
}

#[test]
fn chunking_round_trip() {
    let data: Vec<u8> = (0u8..=255).collect();
    for cap in [1usize, 7, 64, 256, 1000] {
        let chunks = chunk_bytes(&data, cap);
        let mut back: Vec<u8> = Vec::new();
        for c in &chunks {
            assert!(1 <= c.len() && c.len() <= cap);
            back.extend_from_slice(c);
        }
        assert_eq!(back, data);
    }
}

#[test]
fn chunking_empty_input() {
    let data: Vec<u8> = Vec::new();
    assert_eq!(chunk_bytes(&data, 4).len(), 0);
}

#[test]
fn assembler_gathers_reads_into_one_chunk() {
    let mut a = ChunkAssembler::new(5);
    assert_eq!(a.space(), 5);
    a.accept(&b"ab".to_vec());
    assert_eq!(a.space(), 3);
    assert!(!a.is_full());
    a.accept(&b"cde".to_vec());
    assert!(a.is_full());
    assert_eq!(a.take(), b"abcde".to_vec());
    assert!(a.is_empty());
    assert_eq!(a.space(), 5);
}

#[test]
fn assembler_hands_off_short_final_chunk() {
    let mut a = ChunkAssembler::new(8);
    a.accept(&b"xyz".to_vec());
    assert!(!a.is_full());
    assert!(!a.is_empty());
    assert_eq!(a.take(), b"xyz".to_vec());
    assert!(a.is_empty());
}

#[test]
fn copy_range_takes_the_middle() {
    let data: Vec<u8> = b"0123456789".to_vec();
    assert_eq!(copy_range(&data, 2, 5), b"234".to_vec());
    assert_eq!(copy_range(&data, 0, 0), Vec::<u8>::new());
}

#[test]
fn queue_is_first_in_first_out() {
    let mut q = ChunkQueue::new(2, 16);
    assert!(q.is_empty());
    q.push(b"one".to_vec());
    q.push(b"two".to_vec());
    assert!(q.is_full());
    assert_eq!(q.pop(), b"one".to_vec());
    q.push(b"three".to_vec());
    assert_eq!(q.pop(), b"two".to_vec());
    assert_eq!(q.pop(), b"three".to_vec());
    assert!(q.is_empty());
}

#[test]
fn scheduler_window_bounds_launches() {
    let mut s = Scheduler::new(5, 2);
    assert!(s.can_launch());
    s.launch();
    assert!(s.can_launch());
    s.launch();
    // Two in flight at the limit of two: no further launch.
    assert!(!s.can_launch());
    s.join();
    // A join frees a slot.
    assert!(s.can_launch());
    s.launch();
    assert!(!s.can_launch());
}

#[test]
fn scheduler_stops_at_total() {
    let mut s = Scheduler::new(1, 4);
    assert!(s.can_launch());
    s.launch();
    assert!(!s.can_launch());
}

#[test]
fn write_chunk_appends_whole_chunks() {
    let mut out: Vec<u8> = b"head".to_vec();
    write_chunk(&mut out, &b"-tail".to_vec());
    assert_eq!(out, b"head-tail".to_vec());
}

#[test]
fn write_progress_advances_to_done() {
    let mut p = WriteProgress::start(10);
    assert_eq!(p.remaining(), 10);
    p.advance(4);
    assert_eq!(p.remaining(), 6);
    p.advance(6);
    assert_eq!(p.remaining(), 0);
    assert_eq!(p.accepted, p.total);
}

#[test]
fn command_line_lexes_into_program_and_args() {
    let t = parse_command("echo hello world").unwrap();
    assert_eq!(t.program, "echo");
    assert_eq!(t.args, vec!["hello".to_string(), "world".to_string()]);
}

#[test]
fn command_line_quoting_groups_words() {
    // Fails if the lexer handed the line back unsplit: the quoted pair
    // must become one argument without its quotes.
    let t = parse_command("cp 'my file' dest").unwrap();
    assert_eq!(t.program, "cp");
    assert_eq!(t.args, vec!["my file".to_string(), "dest".to_string()]);
}

#[test]
fn empty_and_erroneous_command_lines_make_no_task() {
    assert!(parse_command("").is_none());
    assert!(parse_command("   ").is_none());
    // An unclosed quote is a lexing error.
    assert!(parse_command("echo 'unclosed").is_none());
}

#[test]
fn words_to_command_splits_head_and_tail() {
    let t = command_from_words(vec!["ls".to_string(), "-l".to_string()]).unwrap();
    assert_eq!(t.program, "ls");
    assert_eq!(t.args, vec!["-l".to_string()]);
    assert!(command_from_words(Vec::new()).is_none());
}

#[test]
fn object_path_splits_at_first_slash() {
    let p = split_object_path(&b"bucket/key/with/slashes".to_vec()).unwrap();
    assert_eq!(p.bucket, b"bucket".to_vec());
    assert_eq!(p.key, b"key/with/slashes".to_vec());
}

#[test]
fn object_path_edges() {
    assert!(split_object_path(&b"no-slash-here".to_vec()).is_none());
    let p = split_object_path(&b"/key".to_vec()).unwrap();
    assert_eq!(p.bucket, Vec::<u8>::new());
    assert_eq!(p.key, b"key".to_vec());
    let q = split_object_path(&b"bucket/".to_vec()).unwrap();
    assert_eq!(q.bucket, b"bucket".to_vec());
    assert_eq!(q.key, Vec::<u8>::new());
}
