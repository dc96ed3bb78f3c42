use pterodactil::file::ReadResult;
use pterodactil::source::SourceAction;
use pterodactil::viewer::{start_requests, ViewerError, ViewerMessage, ViewerState, ViewerStep};

#[test]
fn shader_becomes_pipeline_then_frames_use_it() {
    let mut v = ViewerState::new();
    match v.process(ViewerMessage::Tick) {
        Ok(ViewerStep::Render { with_pipeline }) => assert!(!with_pipeline),
        _ => panic!("expected a frame"),
    }
    let shader = ReadResult { id: 1, offset: 0, data: "fn vs_main() {}".as_bytes().to_vec() };
    match v.process(ViewerMessage::ShaderFetched(shader)) {
        Ok(ViewerStep::CreatePipeline(s)) => assert_eq!(s, "fn vs_main() {}"),
        _ => panic!("expected a pipeline"),
    }
    match v.process(ViewerMessage::Tick) {
        Ok(ViewerStep::Render { with_pipeline }) => assert!(with_pipeline),
        _ => panic!("expected a frame"),
    }
}

#[test]
fn invalid_shader_is_refused() {
    let mut v = ViewerState::new();
    let shader = ReadResult { id: 1, offset: 0, data: vec![0xff, 0xfe] };
    assert!(matches!(v.process(ViewerMessage::ShaderFetched(shader)), Err(ViewerError::ShaderNotUtf8)));
    assert!(!v.has_pipeline);
}

#[test]
fn viewer_starts_with_two_gets() {
    let requests = start_requests(5, 6);
    assert_eq!(requests.len(), 2);
    assert!(matches!(requests[0], SourceAction::Get { id: 0xbacc2ba1, on_result: 5 }));
    assert!(matches!(requests[1], SourceAction::Get { id: 0x1f063ad4, on_result: 6 }));
}
