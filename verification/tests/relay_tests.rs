use decork::relay::{
    advance, is_done, relay_state, start, CopyAction, CopyEvent, CopyState, RelayState, CHUNK_SIZE,
};

/// Runs one direction over `source`, which hands out `limit` bytes a read at
/// most, and returns what was written, how the direction ended, and how often
/// the sink was flushed.
fn run(source: &[u8], limit: usize) -> (Vec<u8>, CopyState, usize) {
    let mut buffer = [0u8; CHUNK_SIZE];
    let mut written = Vec::new();
    let mut flushes = 0;
    let mut taken = 0;
    let (mut state, mut action) = start();
    loop {
        let event = match action {
            CopyAction::Read { capacity } => {
                let count = limit.min(capacity).min(source.len() - taken);
                buffer[..count].copy_from_slice(&source[taken..taken + count]);
                taken += count;
                CopyEvent::Read { piece: &buffer[..count] }
            }
            CopyAction::Write { piece } => {
                written.extend_from_slice(piece);
                CopyEvent::Written
            }
            CopyAction::Flush => {
                flushes += 1;
                CopyEvent::Flushed
            }
            CopyAction::Stop => return (written, state, flushes),
        };
        (state, action) = advance(state, event);
    }
}

#[test]
fn direction_starts_by_reading_a_full_buffer() {
    assert_eq!(CHUNK_SIZE, 8192);
    assert_eq!(start(), (CopyState::Reading, CopyAction::Read { capacity: 8192 }));
}

#[test]
fn piece_is_written_then_flushed_then_the_next_is_read() {
    let (state, action) = advance(CopyState::Reading, CopyEvent::Read { piece: b"hello" });
    assert_eq!((state, action), (CopyState::Writing, CopyAction::Write { piece: b"hello" }));
    let (state, action) = advance(state, CopyEvent::Written);
    assert_eq!((state, action), (CopyState::Flushing, CopyAction::Flush));
    let (state, action) = advance(state, CopyEvent::Flushed);
    assert_eq!((state, action), (CopyState::Reading, CopyAction::Read { capacity: 8192 }));
}

#[test]
fn empty_read_closes_the_direction() {
    assert_eq!(
        advance(CopyState::Reading, CopyEvent::Read { piece: b"" }),
        (CopyState::Closed, CopyAction::Stop)
    );
}

#[test]
fn any_failure_ends_the_direction() {
    for state in [CopyState::Reading, CopyState::Writing, CopyState::Flushing] {
        assert_eq!(advance(state, CopyEvent::Failed), (CopyState::Failed, CopyAction::Stop));
    }
}

#[test]
fn finished_direction_stays_finished() {
    let events = [
        CopyEvent::Read { piece: b"" },
        CopyEvent::Read { piece: b"late" },
        CopyEvent::Written,
        CopyEvent::Flushed,
        CopyEvent::Failed,
    ];
    for state in [CopyState::Closed, CopyState::Failed] {
        for event in events {
            assert_eq!(advance(state, event), (state, CopyAction::Stop));
        }
        assert!(is_done(state));
    }
}

#[test]
fn event_out_of_turn_fails_the_direction() {
    let failed = (CopyState::Failed, CopyAction::Stop);
    assert_eq!(advance(CopyState::Reading, CopyEvent::Written), failed);
    assert_eq!(advance(CopyState::Reading, CopyEvent::Flushed), failed);
    assert_eq!(advance(CopyState::Writing, CopyEvent::Read { piece: b"abc" }), failed);
    assert_eq!(advance(CopyState::Writing, CopyEvent::Flushed), failed);
    assert_eq!(advance(CopyState::Flushing, CopyEvent::Written), failed);
    assert_eq!(advance(CopyState::Flushing, CopyEvent::Read { piece: b"" }), failed);
}

#[test]
fn read_beyond_the_buffer_fails_the_direction() {
    let full = vec![7u8; 8192];
    assert_eq!(
        advance(CopyState::Reading, CopyEvent::Read { piece: &full }),
        (CopyState::Writing, CopyAction::Write { piece: &full })
    );
    let over = vec![7u8; 8193];
    assert_eq!(
        advance(CopyState::Reading, CopyEvent::Read { piece: &over }),
        (CopyState::Failed, CopyAction::Stop)
    );
}

#[test]
fn running_states_are_not_done() {
    assert!(!is_done(CopyState::Reading));
    assert!(!is_done(CopyState::Writing));
    assert!(!is_done(CopyState::Flushing));
}

#[test]
fn relay_is_over_only_when_both_directions_are() {
    let running = [CopyState::Reading, CopyState::Writing, CopyState::Flushing];
    let done = [CopyState::Closed, CopyState::Failed];
    for first in running {
        for second in running {
            assert_eq!(relay_state(first, second), RelayState::BothOpen);
        }
        for second in done {
            assert_eq!(relay_state(first, second), RelayState::OneClosed);
            assert_eq!(relay_state(second, first), RelayState::OneClosed);
        }
    }
    for first in done {
        for second in done {
            assert_eq!(relay_state(first, second), RelayState::BothClosed);
        }
    }
}

#[test]
fn bytes_spanning_several_chunks_arrive_unchanged() {
    let source: Vec<u8> = (0..3 * CHUNK_SIZE + 1234).map(|index| (index % 251) as u8).collect();
    let (written, state, flushes) = run(&source, CHUNK_SIZE);
    assert_eq!(written, source);
    assert_eq!(state, CopyState::Closed);
    assert_eq!(flushes, 4);
}

#[test]
fn bytes_arrive_unchanged_however_the_source_cuts_them() {
    let source: Vec<u8> = (0..20000usize).map(|index| (index * 7 % 256) as u8).collect();
    for limit in [1, 2, 3, 100, 4095, 8191, 8192, 8193, 100000] {
        let (written, state, _) = run(&source, limit);
        assert_eq!(written, source);
        assert_eq!(state, CopyState::Closed);
    }
}

#[test]
fn every_piece_is_flushed() {
    let source = vec![1u8; 10];
    let (written, _, flushes) = run(&source, 1);
    assert_eq!(written, source);
    assert_eq!(flushes, 10);
}

#[test]
fn empty_source_writes_nothing() {
    let (written, state, flushes) = run(&[], CHUNK_SIZE);
    assert!(written.is_empty());
    assert_eq!(state, CopyState::Closed);
    assert_eq!(flushes, 0);
}

#[test]
fn failed_write_stops_the_copy() {
    let (state, action) = advance(CopyState::Reading, CopyEvent::Read { piece: b"abc" });
    assert_eq!(action, CopyAction::Write { piece: b"abc" });
    let (state, action) = advance(state, CopyEvent::Failed);
    assert_eq!((state, action), (CopyState::Failed, CopyAction::Stop));
    assert_eq!(relay_state(state, CopyState::Reading), RelayState::OneClosed);
}

#[test]
fn direct_connection_echoes_both_ways() {
    let from_destination = b"server banner\r\nand more".to_vec();
    let from_local = b"client hello\n".to_vec();
    let (to_local, inbound, _) = run(&from_destination, CHUNK_SIZE);
    let (to_destination, outbound, _) = run(&from_local, CHUNK_SIZE);
    assert_eq!(to_local, from_destination);
    assert_eq!(to_destination, from_local);
    assert_eq!(relay_state(inbound, outbound), RelayState::BothClosed);
}
