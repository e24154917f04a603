use whisper_client::chunk_buffer::ChunkBuffer;

#[test]
fn buffer_starts_empty() {
    let buffer = ChunkBuffer::new();
    assert_eq!(buffer.len(), 0);
}

#[test]
fn buffer_with_less_than_a_frame_gives_no_frame() {
    let mut buffer = ChunkBuffer::new();
    buffer.push(&[1, 2, 3]);
    let frames = buffer.drain_frames(4);
    assert!(frames.is_empty());
    assert_eq!(buffer.len(), 3);
    buffer.push(&[4]);
    let frames = buffer.drain_frames(4);
    assert_eq!(frames, vec![vec![1, 2, 3, 4]]);
    assert_eq!(buffer.len(), 0);
}

#[test]
fn buffer_drains_every_full_frame_in_order() {
    let mut buffer = ChunkBuffer::new();
    buffer.push(&[1, 2, 3, 4, 5, 6, 7, 8, 9, 10, 11]);
    let frames = buffer.drain_frames(3);
    assert_eq!(frames, vec![vec![1, 2, 3], vec![4, 5, 6], vec![7, 8, 9]]);
    assert_eq!(buffer.len(), 2);
    buffer.push(&[12]);
    let frames = buffer.drain_frames(3);
    assert_eq!(frames, vec![vec![10, 11, 12]]);
    assert_eq!(buffer.len(), 0);
}

#[test]
fn buffer_drain_twice_gives_nothing_the_second_time() {
    let mut buffer = ChunkBuffer::new();
    buffer.push(&[1, 2, 3, 4, 5]);
    assert_eq!(buffer.drain_frames(2).len(), 2);
    assert!(buffer.drain_frames(2).is_empty());
    assert_eq!(buffer.len(), 1);
}

#[test]
fn buffer_push_of_nothing_changes_nothing() {
    let mut buffer = ChunkBuffer::new();
    buffer.push(&[7, 8]);
    buffer.push(&[]);
    assert_eq!(buffer.len(), 2);
    assert_eq!(buffer.drain_frames(2), vec![vec![7, 8]]);
}

#[test]
fn buffer_pop_frame_takes_from_the_front() {
    let mut buffer = ChunkBuffer::new();
    buffer.push(&[1, 2, 3, 4, 5]);
    assert_eq!(buffer.pop_frame(2), Some(vec![1, 2]));
    assert_eq!(buffer.pop_frame(2), Some(vec![3, 4]));
    assert_eq!(buffer.pop_frame(2), None);
    assert_eq!(buffer.len(), 1);
    assert_eq!(buffer.pop_frame(1), Some(vec![5]));
    assert_eq!(buffer.pop_frame(0), Some(vec![]));
}

#[test]
fn buffer_conserves_samples_over_pushes_and_drains() {
    let mut buffer = ChunkBuffer::new();
    let mut pushed: Vec<u32> = Vec::new();
    let mut emitted: Vec<u32> = Vec::new();
    let mut next: u32 = 0;
    let batch_sizes = [0usize, 1, 5, 1323, 7, 480, 479, 481, 2, 960, 3];
    let frame_lens = [480usize, 1, 7, 480, 1323, 3, 480, 480, 5, 100, 480];
    for round in 0..batch_sizes.len() {
        let batch: Vec<u32> = (0..batch_sizes[round])
            .map(|_| {
                next += 1;
                next
            })
            .collect();
        pushed.extend_from_slice(&batch);
        buffer.push(&batch);
        let before = buffer.len();
        let frames = buffer.drain_frames(frame_lens[round]);
        assert_eq!(frames.len(), before / frame_lens[round]);
        for frame in &frames {
            assert_eq!(frame.len(), frame_lens[round]);
            emitted.extend_from_slice(frame);
        }
        assert!(buffer.len() < frame_lens[round]);
        assert_eq!(pushed.len(), emitted.len() + buffer.len());
    }
    assert_eq!(&pushed[..emitted.len()], &emitted[..]);
    let rest = buffer.drain_frames(1);
    for frame in rest {
        emitted.extend_from_slice(&frame);
    }
    assert_eq!(pushed, emitted);
}
