use paint_type::plugins::effect::EffectType;
use paint_type::plugins::tool::ToolResponse;

#[test]
fn test_tool_response() {
    let mut response = ToolResponse::new();
    assert!(!response.canvas_modified);

    response = response.with_modified(Some((0, 0, 10, 10)));
    assert!(response.canvas_modified);
    assert_eq!(response.dirty_rect, Some((0, 0, 10, 10)));
}

#[test]
fn tool_response_builders_set_their_field() {
    let r = ToolResponse::default().with_preview(vec![1, 2]).with_status("drawing");
    assert!(!r.canvas_modified);
    assert_eq!(r.preview, Some(vec![1, 2]));
    assert_eq!(r.status, Some("drawing".to_string()));
    assert_eq!(r.dirty_rect, None);
}

#[test]
fn effect_type_names() {
    assert_eq!(EffectType::Blur.to_display_string(), "blur");
    assert_eq!(EffectType::ColourAdjustment.to_display_string(), "colour_adjustment");
}
