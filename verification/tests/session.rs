use diffscreen::command::Command;
use diffscreen::command::InjectorAction;
use diffscreen::frame::FrameError;
use diffscreen::frame::HostPipeline;
use diffscreen::session::CloseReason;
use diffscreen::session::CommandReader;
use diffscreen::session::FrameEvent;
use diffscreen::session::FramePhase;
use diffscreen::session::FrameReader;
use diffscreen::wire::FrameMeta;

fn play(reader: &mut CommandReader, stream: &[u8]) -> Vec<InjectorAction> {
    let mut actions = Vec::new();
    let mut at = 0usize;
    while let Some(n) = reader.wants() {
        if at + n > stream.len() {
            assert_eq!(reader.feed(None), None);
            break;
        }
        if let Some(action) = reader.feed(Some(&stream[at..at + n])) {
            actions.push(action);
        }
        at += n;
    }
    actions
}

#[test]
fn command_worker_reads_opcode_then_payload() {
    let mut reader = CommandReader::new();
    assert_eq!(reader, CommandReader::Opcode);
    assert_eq!(reader.wants(), Some(1));
    assert_eq!(reader.feed(Some(&[2])), None);
    assert_eq!(reader, CommandReader::Payload(2));
    assert_eq!(reader.wants(), Some(1));
    assert_eq!(
        reader.feed(Some(&[65])),
        Some(InjectorAction::Key {
            code: 65,
            down: true
        })
    );
    assert_eq!(reader, CommandReader::Opcode);
    assert_eq!(reader.feed(Some(&[7])), None);
    assert_eq!(reader.wants(), Some(4));
    assert_eq!(
        reader.feed(Some(&[0x07, 0x7f, 0x04, 0x37])),
        Some(InjectorAction::MoveTo(1919, 1079))
    );
    assert_eq!(reader.wants(), Some(1));
}

#[test]
fn command_worker_acts_on_a_wheel_step_at_once() {
    let mut reader = CommandReader::new();
    assert_eq!(reader.feed(Some(&[5])), Some(InjectorAction::Scroll(-2)));
    assert_eq!(reader, CommandReader::Opcode);
    assert_eq!(reader.feed(Some(&[6])), Some(InjectorAction::Scroll(2)));
    assert_eq!(reader, CommandReader::Opcode);
}

#[test]
fn command_worker_ends_on_an_undefined_opcode() {
    let mut reader = CommandReader::new();
    assert_eq!(reader.feed(Some(&[0xff])), None);
    assert_eq!(reader, CommandReader::Closed);
    assert_eq!(reader.wants(), None);
    let mut again = CommandReader::new();
    assert_eq!(again.feed(Some(&[0])), None);
    assert_eq!(again.wants(), None);
}

#[test]
fn command_worker_ends_on_a_failed_read() {
    let mut reader = CommandReader::new();
    assert_eq!(reader.feed(None), None);
    assert_eq!(reader.wants(), None);
    let mut waiting = CommandReader::new();
    assert_eq!(waiting.feed(Some(&[1])), None);
    assert_eq!(waiting.feed(None), None);
    assert_eq!(waiting, CommandReader::Closed);
}

#[test]
fn command_worker_plays_a_whole_stream() {
    let commands = [
        Command::KeyDown(10),
        Command::Move(3, 4),
        Command::WheelUp,
        Command::MouseDown(1),
        Command::MouseUp(1),
        Command::WheelDown,
        Command::KeyUp(10),
    ];
    let mut stream = Vec::new();
    for c in commands.iter() {
        stream.extend_from_slice(&c.encode());
    }
    let mut reader = CommandReader::new();
    let actions = play(&mut reader, &stream);
    let expected: Vec<InjectorAction> = commands.iter().map(|c| c.action()).collect();
    assert_eq!(actions, expected);
    assert_eq!(reader, CommandReader::Closed);
}

#[test]
fn command_worker_stops_at_the_first_undefined_opcode_of_a_stream() {
    let mut stream = Command::KeyDown(10).encode();
    stream.push(0xff);
    stream.extend_from_slice(&Command::KeyUp(10).encode());
    let mut reader = CommandReader::new();
    let actions = play(&mut reader, &stream);
    assert_eq!(
        actions,
        vec![InjectorAction::Key {
            code: 10,
            down: true
        }]
    );
    assert_eq!(reader.wants(), None);
}

#[test]
fn frame_worker_reads_prefix_then_payload() {
    let meta = FrameMeta::new(4, 4).unwrap();
    let mut host = HostPipeline::new(meta);
    let mut reader = FrameReader::new(meta);
    assert_eq!(reader.wants(), Some(3));
    assert!(reader.frame().is_none());

    let first = vec![9u8; 24];
    let sent = host.next_frame(first.clone()).unwrap();
    assert_eq!(reader.feed(Some(&sent.header)), FrameEvent::Continue);
    assert_eq!(reader.wants(), Some(sent.payload.len()));
    assert_eq!(reader.feed(Some(&sent.payload)), FrameEvent::Ready);
    assert_eq!(reader.frame(), Some(&first));
    assert_eq!(reader.wants(), Some(3));

    let mut second = first.clone();
    second[0] = 1;
    second[20] = 2;
    let sent = host.next_frame(second.clone()).unwrap();
    assert_eq!(reader.feed(Some(&sent.header)), FrameEvent::Continue);
    assert_eq!(reader.feed(Some(&sent.payload)), FrameEvent::Ready);
    assert_eq!(reader.frame(), Some(&second));
}

#[test]
fn frame_worker_takes_the_length_from_the_prefix() {
    let mut reader = FrameReader::new(FrameMeta::new(4, 4).unwrap());
    assert_eq!(reader.feed(Some(&[1, 2, 3])), FrameEvent::Continue);
    assert_eq!(reader.wants(), Some(0x010203));
}

#[test]
fn frame_worker_ends_on_a_failed_read() {
    let meta = FrameMeta::new(4, 4).unwrap();
    let mut reader = FrameReader::new(meta);
    assert_eq!(
        reader.feed(None),
        FrameEvent::Stop(CloseReason::Transport)
    );
    assert_eq!(reader.wants(), None);

    let mut waiting = FrameReader::new(meta);
    assert_eq!(waiting.feed(Some(&[0, 0, 4])), FrameEvent::Continue);
    assert_eq!(
        waiting.feed(None),
        FrameEvent::Stop(CloseReason::Transport)
    );
    assert_eq!(waiting.wants(), None);
}

#[test]
fn frame_worker_ends_on_a_refused_payload_and_keeps_the_last_frame() {
    let meta = FrameMeta::new(4, 4).unwrap();
    let mut host = HostPipeline::new(meta);
    let mut reader = FrameReader::new(meta);
    let first = vec![5u8; 24];
    let sent = host.next_frame(first.clone()).unwrap();
    reader.feed(Some(&sent.header));
    reader.feed(Some(&sent.payload));

    assert_eq!(reader.feed(Some(&[0, 0, 4])), FrameEvent::Continue);
    assert_eq!(
        reader.feed(Some(&[0xff, 0xff, 0xff, 0xff])),
        FrameEvent::Stop(CloseReason::Frame(FrameError::Corrupt))
    );
    assert_eq!(reader.wants(), None);
    assert_eq!(reader.frame(), Some(&first));

    let other_meta = FrameMeta::new(2, 2).unwrap();
    let mut other = FrameReader::new(other_meta);
    assert_eq!(other.feed(Some(&sent.header)), FrameEvent::Continue);
    assert_eq!(
        other.feed(Some(&sent.payload)),
        FrameEvent::Stop(CloseReason::Frame(FrameError::WrongSize))
    );
    assert_eq!(other.wants(), None);
    assert!(other.frame().is_none());
}

#[test]
fn frame_phase_values_compare() {
    assert_eq!(FramePhase::Payload(3), FramePhase::Payload(3));
    assert_ne!(FramePhase::Header, FramePhase::Closed);
}

#[test]
fn host_preamble_is_the_encoded_dimensions() {
    let meta = FrameMeta::new(1920, 1080).unwrap();
    let host = HostPipeline::new(meta);
    assert_eq!(host.preamble(), [0x07, 0x80, 0x04, 0x38]);
    assert_eq!(FrameMeta::decode(&host.preamble()), Some(meta));
}
