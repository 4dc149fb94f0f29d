use grid_tactics::codec::CodecError;
use grid_tactics::game_event::{GuiEvent, GuiMessage};

#[test]
fn backlight_payload_is_a_varint() {
    let (kind, bytes) = GuiMessage::BackLightTile { index: 5 }.encode().unwrap();
    assert_eq!(kind, GuiEvent::BackLightTile);
    assert_eq!(bytes, vec![5]);
    let (_, bytes) = GuiMessage::BackLightTile { index: 300 }.encode().unwrap();
    assert_eq!(bytes, vec![251, 44, 1]);
    let (_, bytes) = GuiMessage::BackLightTile { index: 70000 }.encode().unwrap();
    assert_eq!(bytes, vec![252, 0x70, 0x11, 0x01, 0x00]);
}

#[test]
fn move_payload_is_two_varints() {
    let (kind, bytes) = GuiMessage::MoveUnit { index: 1, unit_id: 0 }.encode().unwrap();
    assert_eq!(kind, GuiEvent::MoveUnit);
    assert_eq!(bytes, vec![1, 0]);
    let (_, bytes) = GuiMessage::MoveUnit { index: 143, unit_id: 251 }.encode().unwrap();
    assert_eq!(bytes, vec![143, 251, 251, 0]);
}

#[test]
fn messages_round_trip() {
    for m in [
        GuiMessage::BackLightTile { index: 0 },
        GuiMessage::BackLightTile { index: 250 },
        GuiMessage::BackLightTile { index: usize::MAX },
        GuiMessage::MoveUnit { index: 17, unit_id: 1 << 40 },
    ] {
        let (kind, bytes) = m.encode().unwrap();
        assert_eq!(GuiMessage::decode(kind, &bytes), Ok(m));
    }
}

#[test]
fn bad_payloads_are_refused() {
    assert_eq!(GuiMessage::decode(GuiEvent::BackLightTile, &vec![]), Err(CodecError::Decode));
    assert_eq!(GuiMessage::decode(GuiEvent::BackLightTile, &vec![251, 1]), Err(CodecError::Decode));
    assert_eq!(GuiMessage::decode(GuiEvent::MoveUnit, &vec![3]), Err(CodecError::Decode));
    assert_eq!(GuiMessage::decode(GuiEvent::BackLightTile, &vec![255]), Err(CodecError::Decode));
}
