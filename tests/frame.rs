use crayon_video::errors::Error;
use crayon_video::frame::{BufferPtr, Command, DoubleFrame, Frame};
use crayon_video::handle::Handle;

#[test]
fn payload_beyond_capacity_fails_without_corruption() {
    let mut frame = Frame::with_capacity(8, 6);
    let p = frame.extend_from_slice(&[1, 2, 3, 4]).unwrap();
    assert_eq!(p, BufferPtr { offset: 0, len: 4 });
    assert_eq!(frame.extend_from_slice(&[5, 6, 7]), Err(Error::CapacityExceeded));
    assert_eq!(frame.payload_len(), 4);
    assert_eq!(frame.bytes(p), &[1, 2, 3, 4]);
    let q = frame.extend_from_slice(&[5, 6]).unwrap();
    assert_eq!(q, BufferPtr { offset: 4, len: 2 });
    assert_eq!(frame.bytes(q), &[5, 6]);
    assert_eq!(frame.extend_from_slice(&[9]), Err(Error::CapacityExceeded));
    assert_eq!(frame.bytes(p), &[1, 2, 3, 4]);
}

#[test]
fn commands_beyond_capacity_fail() {
    let mut frame = Frame::with_capacity(2, 0);
    assert!(frame.push(Command::DeleteMesh(Handle::new(0, 0))).is_ok());
    assert!(frame.push(Command::DeleteMesh(Handle::new(1, 0))).is_ok());
    assert_eq!(frame.push(Command::DeleteMesh(Handle::new(2, 0))), Err(Error::CapacityExceeded));
    assert_eq!(frame.len(), 2);
    assert!(!frame.room_for(1, 0));
    assert!(frame.room_for(0, 0));
    assert!(matches!(frame.command(1), Command::DeleteMesh(h) if *h == Handle::new(1, 0)));
}

#[test]
fn empty_append_fits_a_full_arena() {
    let mut frame = Frame::with_capacity(1, 0);
    assert_eq!(frame.extend_from_slice(&[]), Ok(BufferPtr { offset: 0, len: 0 }));
}

#[test]
fn clear_keeps_capacity() {
    let mut frame = Frame::with_capacity(1, 2);
    frame.extend_from_slice(&[1, 2]).unwrap();
    frame.push(Command::DeleteShader(Handle::new(0, 0))).unwrap();
    frame.clear();
    assert_eq!(frame.len(), 0);
    assert_eq!(frame.payload_len(), 0);
    assert!(frame.room_for(1, 2));
    assert!(!frame.room_for(2, 0));
}

#[test]
fn swap_exchanges_frames() {
    let mut frames = DoubleFrame::with_capacity(4, 4);
    frames.front_mut().push(Command::DeleteTexture(Handle::new(3, 1))).unwrap();
    assert_eq!(frames.front_ref().len(), 1);
    assert_eq!(frames.back_ref().len(), 0);
    frames.swap();
    assert_eq!(frames.front_ref().len(), 0);
    assert_eq!(frames.back_ref().len(), 1);
}
