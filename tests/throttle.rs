use chat_relay::completions::{
    check_status, latest_snapshot, update_texts, CompletionError, CompletionsMessageChunk,
    CompletionsMessageChunkChoise, CompletionsMessageChunkDelta, ContentAccumulator,
};
use chat_relay::sse::{sse_payload, ChunkFramer, LineBuffer};
use chat_relay::window::{source_events, window_batches, BufferEvent, WindowBuffer};

fn chunk(deltas: &[Option<&str>], finish: Option<&str>) -> CompletionsMessageChunk {
    CompletionsMessageChunk {
        id: "chatcmpl-1".to_string(),
        choices: deltas
            .iter()
            .map(|d| CompletionsMessageChunkChoise {
                delta: CompletionsMessageChunkDelta { content: d.map(|s| s.to_string()), role: None },
                finish_reason: finish.map(|s| s.to_string()),
            })
            .collect(),
    }
}

#[test]
fn window_single_burst() {
    let batches = window_batches(source_events(vec!['a', 'b', 'c']));
    assert_eq!(batches, vec![vec!['a', 'b', 'c']]);
}

#[test]
fn window_tick_races_in() {
    let events = vec![
        BufferEvent::Flush,
        BufferEvent::Item('a'),
        BufferEvent::Flush,
        BufferEvent::Item('b'),
        BufferEvent::Item('c'),
        BufferEvent::Flush,
        BufferEvent::Flush,
        BufferEvent::Completion,
        BufferEvent::Flush,
    ];
    let batches = window_batches(events);
    assert_eq!(batches, vec![vec![], vec!['a'], vec!['b', 'c'], vec![]]);
    let joined: Vec<char> = batches.concat();
    assert_eq!(joined, vec!['a', 'b', 'c']);
}

#[test]
fn window_idle_period_flushes_empty_batch() {
    let mut w: WindowBuffer<u32> = WindowBuffer::new();
    assert_eq!(w.on_event(BufferEvent::Flush), Some(vec![]));
    assert_eq!(w.on_event(BufferEvent::Item(7)), None);
    assert_eq!(w.on_event(BufferEvent::Flush), Some(vec![7]));
    assert_eq!(w.on_event(BufferEvent::Completion), None);
    assert!(w.is_finished());
    assert_eq!(w.on_event(BufferEvent::Item(8)), None);
    assert_eq!(w.on_event(BufferEvent::Flush), None);
}

#[test]
fn done_line_is_no_chunk() {
    assert_eq!(sse_payload(b"data: [DONE]"), None);
    assert_eq!(sse_payload(b"data: [DONE]\r"), None);
    assert_eq!(sse_payload(b"data: "), None);
    assert_eq!(sse_payload(b": keep-alive"), None);
    assert_eq!(sse_payload(b""), None);
    assert_eq!(sse_payload(b"data: {\"id\":\"x\"}"), Some(b"{\"id\":\"x\"}".to_vec()));
    assert_eq!(sse_payload(b"data: {}\r"), Some(b"{}".to_vec()));
}

#[test]
fn line_split_across_reads() {
    let mut f = ChunkFramer::new();
    let first = f.push_read(b"data: {\"id\":\"a\"}\ndata: {\"id\":");
    assert_eq!(first, vec![b"{\"id\":\"a\"}".to_vec()]);
    let second = f.push_read(b"\"b\"}\n\ndata: [DONE]\n");
    assert_eq!(second, vec![b"{\"id\":\"b\"}".to_vec()]);
    assert_eq!(f.finish(), None);
}

#[test]
fn last_line_without_newline() {
    let mut f = ChunkFramer::new();
    assert!(f.push_read(b"data: {\"id\":\"c\"}").is_empty());
    assert_eq!(f.finish(), Some(b"{\"id\":\"c\"}".to_vec()));
    let mut lines = LineBuffer::new();
    assert_eq!(lines.push(b"ab\ncd"), vec![b"ab".to_vec()]);
    assert_eq!(lines.push(b"e\n"), vec![b"cde".to_vec()]);
    assert_eq!(lines.finish(), None);
}

#[test]
fn accumulate_deltas() {
    let mut acc = ContentAccumulator::new();
    let snaps = acc.push_read(Ok(vec![
        chunk(&[None], None),
        chunk(&[Some("Hi")], None),
        chunk(&[Some(""), Some(" there")], None),
    ]));
    assert_eq!(snaps, vec!["Hi".to_string(), "Hi there".to_string()]);
    let none = acc.push_read(Err(CompletionError::NetworkError));
    assert!(none.is_empty());
    assert_eq!(acc.content(), "Hi there");
    let more = acc.push_chunk(&chunk(&[Some("!")], Some("stop")));
    assert_eq!(more, vec!["Hi there!".to_string()]);
}

#[test]
fn end_to_end_throttle() {
    let mut acc = ContentAccumulator::new();
    let mut snapshots = Vec::new();
    snapshots.extend(acc.push_chunk(&chunk(&[Some("Hi")], None)));
    snapshots.extend(acc.push_chunk(&chunk(&[Some(" there")], None)));
    snapshots.extend(acc.push_chunk(&chunk(&[Some("!")], Some("stop"))));
    let batches = window_batches(source_events(snapshots));
    let updates = update_texts(&batches);
    assert_eq!(updates, vec!["Hi there!".to_string()]);
}

#[test]
fn latest_snapshot_of_batches() {
    assert_eq!(latest_snapshot(&vec![]), None);
    assert_eq!(latest_snapshot(&vec!["a".to_string(), "ab".to_string()]), Some("ab".to_string()));
    let updates = update_texts(&vec![vec![], vec!["a".to_string()], vec![], vec!["ab".to_string(), "abc".to_string()]]);
    assert_eq!(updates, vec!["a".to_string(), "abc".to_string()]);
}

#[test]
fn upstream_status() {
    assert!(check_status(200).is_ok());
    assert!(check_status(299).is_ok());
    assert_eq!(check_status(199), Err(CompletionError::UpstreamHttpError));
    assert_eq!(check_status(300), Err(CompletionError::UpstreamHttpError));
    assert_eq!(check_status(500), Err(CompletionError::UpstreamHttpError));
}
