use chat_bridge::error::{ConfigError, ConfigKind, OperationKind};
use chat_bridge::store::{device_plan, load_token, save_token_target, DevicePlan};
use chat_bridge::token::{binary_decode, binary_encode, select_token, SessionToken, TOKEN_BIN_LEN};

fn sample_token(uin: i64) -> SessionToken {
    SessionToken {
        uin,
        d2: [1, 2, 3, 4],
        d2key: [5, 6, 7, 8],
        tgt: [9, 10, 11, 12],
        srm_token: [13, 14, 15, 16],
        t133: [17, 18, 19, 20],
        encrypted_a1: [21, 22, 23, 24],
        out_packet_session_id: [25, 26, 27, 28],
        tgtgt_key: [29, 30, 31, 32],
        wt_session_ticket_key: [33, 34, 35, 36],
    }
}

#[test]
fn encode_layout_is_big_endian_uin_then_fields() {
    let bytes = binary_encode(&sample_token(368894523));
    assert_eq!(bytes.len(), TOKEN_BIN_LEN);
    assert_eq!(&bytes[0..8], &368894523i64.to_be_bytes());
    let fields: Vec<u8> = (1..=36).collect();
    assert_eq!(&bytes[8..44], &fields[..]);
}

#[test]
fn round_trip_keeps_token() {
    for uin in [0i64, 1, -1, 368894523, i64::MAX, i64::MIN] {
        let t = sample_token(uin);
        assert_eq!(binary_decode(&binary_encode(&t)), Ok(t));
    }
}

#[test]
fn short_buffers_are_deserialization_errors() {
    let full = binary_encode(&sample_token(7));
    for len in [0usize, 1, 8, 12, 40, 43] {
        let e = binary_decode(&full[..len]).unwrap_err();
        assert_eq!(e.kind, ConfigKind::Token);
        assert_eq!(e.operation, OperationKind::Deserialization);
    }
}

#[test]
fn longer_buffer_is_refused() {
    let mut bytes = binary_encode(&sample_token(7));
    bytes.push(0);
    assert!(binary_decode(&bytes).is_err());
}

#[test]
fn binary_form_is_preferred() {
    let bin = sample_token(11);
    let text = sample_token(22);
    assert_eq!(select_token(Some(binary_encode(&bin)), Ok(text)), Ok(bin));
}

#[test]
fn text_form_is_the_fallback() {
    let text = sample_token(22);
    assert_eq!(select_token(None, Ok(text)), Ok(text));
    assert_eq!(select_token(Some(vec![1, 2, 3]), Ok(text)), Ok(text));
    let err = ConfigError::new(ConfigKind::Token, OperationKind::Read);
    assert_eq!(select_token(None, Err(err.clone())), Err(err));
}

#[test]
fn load_token_needs_the_account_directory() {
    let e = load_token(false, Some(binary_encode(&sample_token(1))), Ok(sample_token(1))).unwrap_err();
    assert_eq!(e.kind, ConfigKind::Token);
    assert_eq!(e.operation, OperationKind::NotFound);
    assert_eq!(load_token(true, Some(binary_encode(&sample_token(3))), Ok(sample_token(4))), Ok(sample_token(3)));
}

#[test]
fn device_plan_covers_each_case() {
    let e = device_plan(false, true).unwrap_err();
    assert_eq!((e.kind, e.operation), (ConfigKind::Device, OperationKind::NotFound));
    assert_eq!(device_plan(true, false), Ok(DevicePlan::Generate));
    assert_eq!(device_plan(true, true), Ok(DevicePlan::Read));
}

#[test]
fn save_needs_the_account_directory() {
    assert_eq!(save_token_target(true), Ok(()));
    let e = save_token_target(false).unwrap_err();
    assert_eq!((e.kind, e.operation), (ConfigKind::Token, OperationKind::NotFound));
}

#[test]
fn error_detail_is_kept() {
    let e = ConfigError::with_detail(ConfigKind::Client, OperationKind::Write, "disk full".to_string());
    assert_eq!(e.detail, Some("disk full".to_string()));
}
