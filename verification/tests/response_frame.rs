use soketto::frame::client::response::Frame;

fn switching() -> Frame {
    let mut f = Frame::default();
    f.set_version(1)
        .set_code(101)
        .set_reason("Switching Protocols")
        .set_upgrade(Some("WebSocket".to_owned()))
        .set_conn(Some("Upgrade".to_owned()))
        .set_ws_accept(Some("s3pPLMBiTxaQ9kYGzzhZRbK+xOo=".to_owned()));
    f
}

#[test]
fn response_frame_validates() {
    assert!(switching().validate());
    assert_eq!(switching().upgrade(), "WebSocket");
    assert_eq!(Frame::default().upgrade(), "");
}

#[test]
fn response_frame_refusals() {
    assert!(!Frame::default().validate());
    let mut f = switching();
    f.set_version(0);
    assert!(!f.validate());
    let mut f = switching();
    f.set_code(200);
    assert!(!f.validate());
    let mut f = switching();
    f.set_reason("OK");
    assert!(!f.validate());
    let mut f = switching();
    f.set_upgrade(None);
    assert!(!f.validate());
    let mut f = switching();
    f.set_conn(Some("keep-alive".to_owned()));
    assert!(!f.validate());
    let mut f = switching();
    f.set_ws_accept(None);
    assert!(!f.validate());
}
