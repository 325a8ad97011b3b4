use supernova::event::{EventReader, EventWriter, Events};

#[test]
fn events_double_buffering() {
    let mut ev: Events<u32> = Events::new();
    assert!(ev.is_empty());
    ev.send(1);
    ev.send(2);
    assert_eq!(ev.len(), 2);
    assert_eq!(ev.iter_current(), &[1, 2]);
    assert!(ev.iter_previous().is_empty());
    ev.flush();
    assert!(ev.is_empty());
    assert_eq!(ev.iter_previous(), &[1, 2]);
    ev.send(3);
    assert_eq!(ev.iter_current(), &[3]);
    ev.flush();
    assert_eq!(ev.iter_previous(), &[3]);
    ev.flush();
    assert!(ev.iter_previous().is_empty());
    assert!(ev.iter_current().is_empty());
}

#[test]
fn events_clear_empties_both_frames() {
    let mut ev: Events<&'static str> = Events::new();
    ev.send("a");
    ev.flush();
    ev.send("b");
    ev.clear();
    assert!(ev.iter_current().is_empty());
    assert!(ev.iter_previous().is_empty());
}

#[test]
fn reader_sees_each_event_once() {
    let mut ev: Events<i32> = Events::new();
    let mut reader: EventReader<i32> = EventReader::new();
    ev.send(10);
    ev.send(20);
    assert_eq!(reader.read(&ev), &[10, 20]);
    assert!(reader.read(&ev).is_empty());
    ev.send(30);
    assert_eq!(reader.read(&ev), &[30]);
    reader.reset();
    assert_eq!(reader.read(&ev), &[10, 20, 30]);
}

#[test]
fn reader_with_previous_frame() {
    let mut ev: Events<i32> = Events::new();
    let mut reader: EventReader<i32> = EventReader::new();
    ev.send(1);
    ev.flush();
    ev.send(2);
    let (cur, prev) = reader.read_with_previous(&ev);
    assert_eq!(cur, &[2]);
    assert_eq!(prev, &[1]);
}

#[test]
fn writer_appends_to_current_frame() {
    let mut ev: Events<u8> = Events::new();
    let w: EventWriter<u8> = EventWriter::new();
    w.send(&mut ev, 7);
    w.send(&mut ev, 8);
    assert_eq!(ev.iter_current(), &[7, 8]);
}

#[test]
fn reader_sees_new_frame_after_flush() {
    let mut ev: Events<i32> = Events::new();
    let mut r: EventReader<i32> = EventReader::new();
    ev.send(1);
    ev.send(2);
    assert_eq!(r.read(&ev), &[1, 2]);
    ev.flush();
    ev.send(3);
    assert_eq!(r.read(&ev), &[3]);
    assert!(r.read(&ev).is_empty());
    ev.clear();
    ev.send(4);
    let (cur, prev) = r.read_with_previous(&ev);
    assert_eq!(cur, &[4]);
    assert!(prev.is_empty());
}

#[test]
fn event_defaults() {
    let mut ev: Events<u8> = Events::default();
    let mut r: EventReader<u8> = EventReader::default();
    let w: EventWriter<u8> = EventWriter::default();
    w.send(&mut ev, 5);
    assert_eq!(r.read(&ev), &[5]);
}

#[test]
fn len_counts_sends_since_last_reset() {
    let mut ev: Events<u32> = Events::new();
    assert!(ev.is_empty());
    ev.send(1);
    ev.send(2);
    assert_eq!(ev.len(), 2);
    ev.flush();
    assert_eq!(ev.len(), 0);
    ev.send(3);
    assert_eq!(ev.len(), 1);
    assert_eq!(ev.iter_current().len(), ev.len());
    ev.clear();
    ev.send(4);
    ev.send(5);
    ev.send(6);
    assert_eq!(ev.len(), 3);
    assert_eq!(ev.iter_current(), &[4, 5, 6]);
    assert!(!ev.is_empty());
}
