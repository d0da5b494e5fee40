use canopen::client::{id_to_raw, parse, CanId, CanOpenFrame, Error, FrameData, NmtState, NodeId, Pdo, Sdo};
use canopen::frame::{build_frame, CanFrame, SendError};

fn frame(id: u16, data: &[u8]) -> CanFrame {
    CanFrame::new(CanId::standard(id).unwrap(), data).unwrap()
}

fn check_pdo(id: u16, channel: Pdo) {
    let (node, frame) = parse(&frame(id, &[0x01, 0x02, 0x03, 0x04])).unwrap();
    assert!(matches!(node, Some(NodeId(0x01))));
    assert!(matches!(
        frame,
        CanOpenFrame::Pdo(c, FrameData { data: [0x01, 0x02, 0x03, 0x04, 0x00, 0x00, 0x00, 0x00], len: 4 }) if c == channel
    ));
}

#[test]
fn convert_nmt_state() {
    assert!(matches!(NmtState::try_from(0x00), Ok(NmtState::BootUp)));
    assert!(matches!(NmtState::try_from(0x04), Ok(NmtState::Stopped)));
    assert!(matches!(NmtState::try_from(0x05), Ok(NmtState::Operational)));
    assert!(matches!(NmtState::try_from(0x7F), Ok(NmtState::PreOperational)));
}

#[test]
#[should_panic]
fn convert_nmt_state_fail() {
    NmtState::try_from(0x11).unwrap();
}

#[test]
fn parse_sync() {
    let (node, frame) = parse(&frame(0x080, &[])).unwrap();
    assert!(node.is_none());
    assert!(frame.is_sync());
}

#[test]
fn parse_nmt() {
    let (node, frame) = parse(&frame(0x705, &[0x05])).unwrap();
    assert!(matches!(node, Some(NodeId(0x05))));
    assert!(matches!(frame, CanOpenFrame::Heartbeat(NmtState::Operational)));
}

#[test]
fn parse_tpdo1() {
    check_pdo(0x181, Pdo::Tx1);
}

#[test]
fn parse_tpdo2() {
    check_pdo(0x281, Pdo::Tx2);
}

#[test]
fn parse_tpdo3() {
    check_pdo(0x381, Pdo::Tx3);
}

#[test]
fn parse_tpdo4() {
    check_pdo(0x481, Pdo::Tx4);
}

#[test]
fn parse_rpdo1() {
    check_pdo(0x201, Pdo::Rx1);
}

#[test]
fn parse_rpdo2() {
    check_pdo(0x301, Pdo::Rx2);
}

#[test]
fn parse_rpdo3() {
    check_pdo(0x401, Pdo::Rx3);
}

#[test]
fn parse_rpdo4() {
    check_pdo(0x501, Pdo::Rx4);
}

#[test]
fn frame_data_variable_length() {
    let raw_data: [u8; 2] = [0x01, 0x02];
    let frame_data = FrameData::new(&raw_data[..], 2);
    assert_eq!(frame_data.data, [0x01, 0x02, 0x00, 0x00, 0x00, 0x00, 0x00, 0x00]);
}

#[test]
fn check_id_standard() {
    let id = CanId::standard(0x1F1).expect("Failed to created ID");
    assert_eq!(id_to_raw(&id), 0x1F1u32)
}

#[test]
fn check_id_extended() {
    let id = CanId::extended(0x1F1).expect("Failed to created ID");
    assert_eq!(id_to_raw(&id), 0x1F1u32)
}

#[test]
fn heartbeat_invalid_state() {
    assert!(matches!(parse(&frame(0x705, &[0x11])), Err(Error::InvalidNmtState)));
}

#[test]
fn heartbeat_without_data() {
    assert!(matches!(parse(&frame(0x705, &[])), Err(Error::InvalidNmtState)));
}

#[test]
fn heartbeat_states() {
    assert!(matches!(parse(&frame(0x77F, &[0x00])), Ok((Some(NodeId(0x7F)), CanOpenFrame::Heartbeat(NmtState::BootUp)))));
    assert!(matches!(parse(&frame(0x701, &[0x04])), Ok((Some(NodeId(0x01)), CanOpenFrame::Heartbeat(NmtState::Stopped)))));
    assert!(matches!(parse(&frame(0x701, &[0x7F])), Ok((Some(NodeId(0x01)), CanOpenFrame::Heartbeat(NmtState::PreOperational)))));
}

#[test]
fn unknown_channel() {
    assert!(matches!(parse(&frame(0x000, &[])), Err(Error::InvalidChannel(0x000))));
    assert!(matches!(parse(&frame(0x7E5, &[])), Err(Error::InvalidChannel(0x780))));
}

#[test]
fn sdo_channels() {
    let (node, f) = parse(&frame(0x583, &[0xAA])).unwrap();
    assert_eq!(node, Some(NodeId(0x03)));
    assert!(f.is_sdo());
    assert!(matches!(f, CanOpenFrame::Sdo(Sdo::Tx, FrameData { data: [0xAA, 0, 0, 0, 0, 0, 0, 0], len: 1 })));
    let (_, f) = parse(&frame(0x603, &[])).unwrap();
    assert!(matches!(f, CanOpenFrame::Sdo(Sdo::Rx, _)));
}

#[test]
fn tpdo1_every_node() {
    for n in 0u16..=0x7F {
        let (node, f) = parse(&frame(0x180 + n, &[])).unwrap();
        assert_eq!(node, Some(NodeId(n as u8)));
        assert!(matches!(f, CanOpenFrame::Pdo(Pdo::Tx1, _)));
        assert!(f.is_pdo() && !f.is_sync() && !f.is_heartbeat());
    }
}

#[test]
fn extended_identifier_collapses() {
    let f = CanFrame::new(CanId::extended(0x185).unwrap(), &[1]).unwrap();
    assert!(f.is_extended());
    let (node, m) = parse(&f).unwrap();
    assert_eq!(node.unwrap().as_raw(), 5);
    assert!(matches!(m, CanOpenFrame::Pdo(Pdo::Tx1, _)));
}

#[test]
fn frame_limits() {
    assert!(CanFrame::new(CanId::Standard(1), &[0; 9]).is_none());
    assert!(CanId::standard(0x800).is_none());
    assert!(CanId::extended(0x2000_0000).is_none());
    let r = CanFrame::new_remote(CanId::Standard(1), 3).unwrap();
    assert!(r.is_remote_frame());
    assert_eq!(r.data(), &[0, 0, 0]);
    assert_eq!(r.dlc(), 3);
    assert!(CanFrame::new_remote(CanId::Standard(1), 9).is_none());
}

#[test]
fn frame_data_truncates_long_input() {
    let fd = FrameData::new(&[1, 2, 3, 4, 5, 6, 7, 8, 9, 10], 10);
    assert_eq!(fd.data, [1, 2, 3, 4, 5, 6, 7, 8]);
    assert_eq!(fd.len, 10);
}

#[test]
fn node_id_from_raw() {
    assert_eq!(NodeId::from(0x22).as_raw(), 0x22);
}

#[test]
fn build_standard_frame1() {
    let text = "705#05";

    let frame = build_frame(text).unwrap();
    assert_eq!(frame.id(), CanId::standard(0x705).unwrap());
    assert_eq!(frame.dlc(), 1);
    assert_eq!(frame.data(), &[0x05]);
}

#[test]
fn build_standard_frame2() {
    let text = "705#0102";

    let frame = build_frame(text).unwrap();
    assert_eq!(frame.id(), CanId::standard(0x705).unwrap());
    assert_eq!(frame.dlc(), 2);
    assert_eq!(frame.data(), &[0x01, 0x02]);
}

#[test]
fn build_frame_edges() {
    let f = build_frame("7FF#0102030405060708").unwrap();
    assert_eq!(f.data(), &[1, 2, 3, 4, 5, 6, 7, 8]);
    assert!(!f.is_remote_frame());
    let f = build_frame("0#").unwrap();
    assert_eq!(f.id(), CanId::Standard(0));
    assert_eq!(f.dlc(), 0);
    assert_eq!(build_frame("705#+1").unwrap().data(), &[1]);
    for bad in ["800#01", "705#010", "705#010203040506070809", "705", "7#0#1", "705#zz", "#01", "705#-1", "7ü5#01", ""] {
        assert_eq!(build_frame(bad).err(), Some(SendError::SyntaxError), "{}", bad);
    }
}
