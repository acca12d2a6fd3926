use glypheris::frame::{client_joined, client_left, frame_packet, schema_id, welcome_frame};

#[test]
fn schema_ids() {
    assert_eq!(schema_id("GestureCommand"), 0);
    assert_eq!(schema_id("ExecutionPlan"), 1);
    assert_eq!(schema_id("InferencePacket"), 2);
    assert_eq!(schema_id("Unknown"), 0);
}

#[test]
fn frame_header_then_payload() {
    let payload: Vec<u8> = (0..300u32).map(|x| (x % 251) as u8).collect();
    let f = frame_packet("InferencePacket", &payload);
    assert_eq!(&f[..4], b"GLPH");
    assert_eq!(&f[4..8], &2u32.to_le_bytes());
    assert_eq!(&f[8..12], &300u32.to_le_bytes());
    assert_eq!(&f[12..], &payload[..]);
}

#[test]
fn welcome_frame_bytes() {
    assert_eq!(welcome_frame(), b"GLPH\xFF\xFF\xFF\xFF\x00\x00\x00\x00".to_vec());
}

#[test]
fn client_counting() {
    assert_eq!(client_joined(0), 1);
    assert_eq!(client_left(client_joined(7)), 7);
    assert_eq!(client_left(0), 0);
}

fn split_frames(mut buf: &[u8]) -> Option<Vec<(u32, Vec<u8>)>> {
    let mut out = Vec::new();
    while !buf.is_empty() {
        if buf.len() < 12 || &buf[..4] != b"GLPH" {
            return None;
        }
        let id = u32::from_le_bytes([buf[4], buf[5], buf[6], buf[7]]);
        let n = u32::from_le_bytes([buf[8], buf[9], buf[10], buf[11]]) as usize;
        if buf.len() < 12 + n {
            return None;
        }
        out.push((id, buf[12..12 + n].to_vec()));
        buf = &buf[12 + n..];
    }
    Some(out)
}

#[test]
fn concatenated_frames_split_back() {
    let mut stream = frame_packet("ExecutionPlan", &[1, 2, 3]);
    stream.extend(frame_packet("InferencePacket", &[]));
    stream.extend(frame_packet("GestureCommand", &[9]));
    assert_eq!(
        split_frames(&stream),
        Some(vec![(1, vec![1, 2, 3]), (2, vec![]), (0, vec![9])])
    );
}
