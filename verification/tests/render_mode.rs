use worktrunk::commands::list::progressive::{OutputFormat, RenderMode};

#[test]
fn test_render_mode_detect_explicit_flags() {
    // --progressive (Some(true)) should force progressive mode
    assert_eq!(RenderMode::detect(Some(true), false), RenderMode::Progressive);
    assert_eq!(RenderMode::detect(Some(true), true), RenderMode::Progressive);

    // --no-progressive (Some(false)) should force buffered mode
    assert_eq!(RenderMode::detect(Some(false), true), RenderMode::Buffered);
    assert_eq!(RenderMode::detect(Some(false), false), RenderMode::Buffered);
}

#[test]
fn render_mode_follows_the_stream_without_a_flag() {
    assert_eq!(RenderMode::detect(None, true), RenderMode::Progressive);
    assert_eq!(RenderMode::detect(None, false), RenderMode::Buffered);
}

#[test]
fn structured_output_is_never_progressive() {
    for forced in [Some(true), Some(false), None] {
        for tty in [true, false] {
            assert_eq!(RenderMode::for_format(OutputFormat::Json, forced, tty), RenderMode::Buffered);
            assert_eq!(
                RenderMode::for_format(OutputFormat::Table, forced, tty),
                RenderMode::detect(forced, tty)
            );
        }
    }
}
