use aerowm::outputs::{
    connector_action, find_crtc, next_output_x, pick_mode, ConnectorAction, EncoderInfo, ModeInfo,
};

fn mode(preferred: bool, width: u16, height: u16) -> ModeInfo {
    ModeInfo { preferred, width, height }
}

#[test]
fn preferred_mode_wins() {
    let modes = vec![mode(false, 3840, 2160), mode(true, 1920, 1080), mode(true, 1280, 720)];
    assert_eq!(pick_mode(&modes), 1);
}

#[test]
fn largest_mode_without_preference() {
    let modes = vec![mode(false, 1280, 720), mode(false, 1920, 1080), mode(false, 800, 600)];
    assert_eq!(pick_mode(&modes), 1);
    // Equally large modes: the last one is taken.
    let modes = vec![mode(false, 1920, 1080), mode(false, 1080, 1920), mode(false, 640, 480)];
    assert_eq!(pick_mode(&modes), 1);
    assert_eq!(pick_mode(&vec![mode(false, 65535, 65535)]), 0);
}

#[test]
fn crtc_prefers_the_current_one() {
    let encs = vec![
        None,
        Some(EncoderInfo { current: Some(7), possible: vec![5, 7] }),
    ];
    assert_eq!(find_crtc(&encs, &vec![5, 7], &vec![]), Some(7));
    // Current one busy: first free compatible one.
    assert_eq!(find_crtc(&encs, &vec![5, 7], &vec![7]), Some(5));
    // Current one not on this device: first free compatible one.
    assert_eq!(find_crtc(&encs, &vec![5], &vec![]), Some(5));
    assert_eq!(find_crtc(&encs, &vec![5, 7], &vec![5, 7]), None);
    assert_eq!(find_crtc(&vec![], &vec![5], &vec![]), None);
}

#[test]
fn outputs_are_placed_side_by_side() {
    assert_eq!(next_output_x(&vec![]), 0);
    assert_eq!(next_output_x(&vec![1920]), 1920);
    assert_eq!(next_output_x(&vec![1920, 1280]), 3200);
}

#[test]
fn connectors_follow_monitors() {
    assert_eq!(connector_action(true, 3, false), ConnectorAction::LightUp);
    assert_eq!(connector_action(true, 3, true), ConnectorAction::Keep);
    assert_eq!(connector_action(true, 0, true), ConnectorAction::Shutdown);
    assert_eq!(connector_action(false, 3, true), ConnectorAction::Shutdown);
    assert_eq!(connector_action(false, 0, false), ConnectorAction::Keep);
}
