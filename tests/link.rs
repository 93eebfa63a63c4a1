use gw2_overlay::link::{
    poll_timeout_nanos, update_gw2, LinkedMem, MumbleContext, UiState, CONTEXT_OFFSET, CONTEXT_SIZE,
    IDENTITY_OFFSET, LINKED_MEM_SIZE, WIRE_RECORD_SIZE,
};

#[test]
fn test_ui_state() {
    let mut ctx = MumbleContext::default();

    ctx.ui_state = 1 << 0;
    assert!(ctx.get_ui_state(1 << 0));
    assert!(!ctx.get_ui_state(1 << 1));

    for i in 0..7 {
        ctx.ui_state = 1 << i;
        assert!(ctx.get_ui_state(1 << i));
    }
}

#[test]
fn single_ui_flag_reads_alone() {
    let flags = [
        UiState::MapOpen,
        UiState::CompassTopRight,
        UiState::CompassRotation,
        UiState::GameFocus,
        UiState::CompetetiveMode,
        UiState::TextbookFocus,
        UiState::Combat,
    ];
    let mut ctx = MumbleContext::default();
    for i in 0..7 {
        ctx.ui_state = 1 << i;
        for (j, f) in flags.iter().enumerate() {
            assert_eq!(ctx.get_ui_state(f.mask()), i == j);
        }
    }
    assert_eq!(UiState::Combat.mask(), 64);
}

#[test]
fn layout_sizes() {
    assert_eq!(CONTEXT_SIZE, 85);
    assert_eq!(WIRE_RECORD_SIZE, 1364);
    assert_eq!(LINKED_MEM_SIZE, 1364 + 2 * 2048);
}

fn wire_record() -> Vec<u8> {
    let mut d = vec![0u8; WIRE_RECORD_SIZE];
    d[0..4].copy_from_slice(&2u32.to_le_bytes());
    d[4..8].copy_from_slice(&7u32.to_le_bytes());
    d[8..12].copy_from_slice(&1.5f32.to_le_bytes());
    d[556..560].copy_from_slice(&(-3.0f32).to_le_bytes());
    d[568..572].copy_from_slice(&0.25f32.to_le_bytes());
    for (k, u) in "abc".encode_utf16().enumerate() {
        d[IDENTITY_OFFSET + 2 * k..IDENTITY_OFFSET + 2 * k + 2].copy_from_slice(&u.to_le_bytes());
    }
    d[1104..1108].copy_from_slice(&48u32.to_le_bytes());
    let c = CONTEXT_OFFSET;
    d[c..c + 4].copy_from_slice(&[127, 0, 0, 1]);
    d[c + 28..c + 32].copy_from_slice(&50u32.to_le_bytes());
    d[c + 48..c + 52].copy_from_slice(&0b1001u32.to_le_bytes());
    d[c + 52..c + 54].copy_from_slice(&200u16.to_le_bytes());
    d[c + 72..c + 76].copy_from_slice(&12.5f32.to_le_bytes());
    d[c + 84] = 3;
    d
}

#[test]
fn datagram_of_wire_size_fills_region() {
    let d = wire_record();
    let mut region = vec![0xFFu8; LINKED_MEM_SIZE];
    assert!(update_gw2(&mut region, &d));
    assert_eq!(region.len(), LINKED_MEM_SIZE);
    assert_eq!(&region[..WIRE_RECORD_SIZE], &d[..]);
    assert!(region[WIRE_RECORD_SIZE..].iter().all(|b| *b == 0));

    let m = LinkedMem::from_bytes(&region).unwrap();
    assert_eq!(m.get_ui_tick(), 7);
    assert_eq!(m.ui_version, 2);
    assert_eq!(m.get_avatar_pos(), [1.5f32.to_bits(), 0, 0]);
    assert_eq!(m.get_camera_pos(), [(-3.0f32).to_bits(), 0, 0]);
    assert_eq!(m.get_camera_front(), [0.25f32.to_bits(), 0, 0]);
    assert_eq!(m.context_len, 48);
    assert!(m.description.iter().all(|u| *u == 0));
    let identity = m.get_identity();
    assert!(identity.starts_with("abc"));
    assert_eq!(identity.chars().count(), 256);

    let ctx = m.get_context();
    assert_eq!(ctx.get_map_id(), 50);
    assert_eq!(ctx.server_address[..4], [127, 0, 0, 1]);
    assert!(ctx.get_ui_state(UiState::MapOpen.mask()));
    assert!(ctx.get_ui_state(UiState::GameFocus.mask()));
    assert!(!ctx.get_ui_state(UiState::Combat.mask()));
    assert_eq!(ctx.compass_width, 200);
    assert_eq!(ctx.get_map_center_y(), 12.5f32.to_bits());
    assert_eq!(ctx.mount_index, 3);
}

#[test]
fn datagram_of_other_size_is_dropped() {
    let d = wire_record();
    let before: Vec<u8> = (0..LINKED_MEM_SIZE).map(|i| (i % 251) as u8).collect();
    for n in [0usize, 1, WIRE_RECORD_SIZE - 1] {
        let mut region = before.clone();
        assert!(!update_gw2(&mut region, &d[..n]));
        assert_eq!(region, before);
    }
    let mut longer = d.clone();
    longer.push(0);
    let mut region = before.clone();
    assert!(!update_gw2(&mut region, &longer));
    assert_eq!(region, before);
}

#[test]
fn from_wire_zeroes_description() {
    let d = wire_record();
    let m = LinkedMem::from_wire(&d).unwrap();
    assert_eq!(m.ui_tick, 7);
    assert_eq!(m.description.len(), 2048);
    assert!(m.description.iter().all(|u| *u == 0));
    assert!(LinkedMem::from_wire(&d[..100]).is_none());
    assert!(LinkedMem::from_bytes(&d).is_none());
}

#[test]
fn default_context_is_zero() {
    let ctx = MumbleContext::default();
    assert_eq!(ctx.server_address, vec![0u8; 28]);
    assert_eq!(ctx.get_map_id(), 0);
    assert_eq!(ctx.get_map_scale(), 0);
    assert_eq!(ctx.get_map_center_x(), 0);
    assert!(!ctx.get_ui_state(u32::MAX));
}

#[test]
fn poll_timeouts() {
    assert_eq!(poll_timeout_nanos(true), 200_000_000);
    assert_eq!(poll_timeout_nanos(false), 1);
}
