use ssh3::proto::wire::{PtyRequest, SignalRequest, WindowChangeRequest};
use ssh3::server::session::pty::{
    checked_winsize, pty_size, validate_pty_dimensions, validate_window_change_dimensions,
    window_size, PtyError,
};

#[test]
fn checked_winsize_overflow_width_cols() {
    let result = checked_winsize(u16::MAX as u32 + 1, 24, 0, 0);
    let err = result.unwrap_err();
    assert_eq!(err.field, "width_cols");
    assert_eq!(err.value, u16::MAX as u32 + 1);
}

#[test]
fn checked_winsize_overflow_height_rows() {
    let result = checked_winsize(80, u16::MAX as u32 + 1, 0, 0);
    let err = result.unwrap_err();
    assert_eq!(err.field, "height_rows");
    assert_eq!(err.value, u16::MAX as u32 + 1);
}

#[test]
fn checked_winsize_overflow_pixel_width() {
    let result = checked_winsize(80, 24, u16::MAX as u32 + 1, 0);
    let err = result.unwrap_err();
    assert_eq!(err.field, "width_px");
    assert_eq!(err.value, u16::MAX as u32 + 1);
}

#[test]
fn checked_winsize_overflow_pixel_height() {
    let result = checked_winsize(80, 24, 0, u16::MAX as u32 + 1);
    let err = result.unwrap_err();
    assert_eq!(err.field, "height_px");
    assert_eq!(err.value, u16::MAX as u32 + 1);
}

#[test]
fn checked_winsize_all_in_range() {
    let ws = checked_winsize(
        u16::MAX as u32,
        u16::MAX as u32,
        u16::MAX as u32,
        u16::MAX as u32,
    ).unwrap();
    assert_eq!(ws.ws_col, u16::MAX);
    assert_eq!(ws.ws_row, u16::MAX);
    assert_eq!(ws.ws_xpixel, u16::MAX);
    assert_eq!(ws.ws_ypixel, u16::MAX);
}

#[test]
fn allocate_pty_rejects_overflow() {
    let request = PtyRequest {
        term_type: "xterm".into(),
        width_cols: u16::MAX as u32 + 1,
        height_rows: 24,
        width_px: 0,
        height_px: 0,
        terminal_modes: vec![],
    };
    let err = pty_size(&request).unwrap_err();
    match err {
        PtyError::Dimension { source } => {
            assert_eq!(source.field, "width_cols");
            assert_eq!(source.value, u16::MAX as u32 + 1);
        }
        other => panic!("expected DimensionOverflow, got {other:?}"),
    }
}

#[test]
fn set_window_size_rejects_overflow() {
    let pty_req = PtyRequest {
        term_type: "xterm".into(),
        width_cols: 80,
        height_rows: 24,
        width_px: 0,
        height_px: 0,
        terminal_modes: vec![],
    };
    pty_size(&pty_req).unwrap();

    let resize = WindowChangeRequest {
        width_cols: 80,
        height_rows: u16::MAX as u32 + 1,
        width_px: 0,
        height_px: 0,
    };
    let err = window_size(&resize).unwrap_err();
    match err {
        PtyError::Dimension { source } => {
            assert_eq!(source.field, "height_rows");
            assert_eq!(source.value, u16::MAX as u32 + 1);
        }
        other => panic!("expected DimensionOverflow, got {other:?}"),
    }
}

#[test]
fn parse_pty_request_roundtrip() {
    let original = PtyRequest {
        term_type: "xterm-256color".into(),
        width_cols: 80,
        height_rows: 24,
        width_px: 640,
        height_px: 480,
        terminal_modes: vec![0x01, 0x00, 0x00, 0x00, 0x03],
    };

    let encoded = original.encode().unwrap();
    let (parsed, _) = PtyRequest::decode(&encoded).unwrap();

    assert_eq!(parsed.term_type, original.term_type);
    assert_eq!(parsed.width_cols, original.width_cols);
    assert_eq!(parsed.height_rows, original.height_rows);
    assert_eq!(parsed.width_px, original.width_px);
    assert_eq!(parsed.height_px, original.height_px);
    assert_eq!(parsed.terminal_modes, original.terminal_modes);
}

#[test]
fn window_change_codec_roundtrip() {
    let original = WindowChangeRequest {
        width_cols: 120,
        height_rows: 40,
        width_px: 960,
        height_px: 800,
    };

    let encoded = original.encode().unwrap();
    let (parsed, _) = WindowChangeRequest::decode(&encoded).unwrap();

    assert_eq!(parsed.width_cols, original.width_cols);
    assert_eq!(parsed.height_rows, original.height_rows);
    assert_eq!(parsed.width_px, original.width_px);
    assert_eq!(parsed.height_px, original.height_px);
}

#[test]
fn signal_codec_roundtrip() {
    let original = SignalRequest {
        signal_name: "INT".into(),
    };

    let encoded = original.encode().unwrap();
    let (parsed, _) = SignalRequest::decode(&encoded).unwrap();

    assert_eq!(parsed.signal_name, "INT");
}

#[test]
fn pty_request_codec_empty_terminal_modes() {
    let original = PtyRequest {
        term_type: "dumb".into(),
        width_cols: 40,
        height_rows: 10,
        width_px: 0,
        height_px: 0,
        terminal_modes: vec![],
    };

    let encoded = original.encode().unwrap();
    let (parsed, _) = PtyRequest::decode(&encoded).unwrap();

    assert_eq!(parsed.term_type, "dumb");
    assert_eq!(parsed.width_cols, 40);
    assert_eq!(parsed.height_rows, 10);
    assert!(parsed.terminal_modes.is_empty());
}

#[test]
fn signal_codec_various_names() {
    for name in &["TERM", "KILL", "HUP", "USR1", "USR2", "QUIT"] {
        let original = SignalRequest {
            signal_name: name.to_string(),
        };
        let encoded = original.encode().unwrap();
        let (parsed, _) = SignalRequest::decode(&encoded).unwrap();
        assert_eq!(parsed.signal_name, *name);
    }
}

#[test]
fn dimension_overflow_is_told_in_full() {
    let error = checked_winsize(70000, 70001, 0, 0).unwrap_err();
    assert_eq!(
        error.to_string(),
        "PTY dimension overflow: width_cols = 70000 exceeds u16::MAX (65535)"
    );
    assert_eq!(PtyError::Os { errno: 5 }.to_string(), "PTY OS error");
}

#[test]
fn sizes_are_taken_over_field_by_field() {
    let request = WindowChangeRequest {
        width_cols: 120,
        height_rows: 40,
        width_px: 960,
        height_px: 800,
    };
    let ws = validate_window_change_dimensions(&request).unwrap();
    assert_eq!((ws.ws_col, ws.ws_row, ws.ws_xpixel, ws.ws_ypixel), (120, 40, 960, 800));
    let request = PtyRequest {
        term_type: "xterm".into(),
        width_cols: 132,
        height_rows: 43,
        width_px: 1056,
        height_px: 688,
        terminal_modes: vec![],
    };
    let ws = validate_pty_dimensions(&request).unwrap();
    assert_eq!((ws.ws_col, ws.ws_row, ws.ws_xpixel, ws.ws_ypixel), (132, 43, 1056, 688));
}

#[test]
fn set_window_size_on_allocated_pty() {
    let resize = WindowChangeRequest {
        width_cols: 120,
        height_rows: 40,
        width_px: 960,
        height_px: 800,
    };
    let ws = window_size(&resize).unwrap();
    assert_eq!(ws.ws_col, 120);
    assert_eq!(ws.ws_row, 40);
    assert_eq!(ws.ws_xpixel, 960);
    assert_eq!(ws.ws_ypixel, 800);
}

#[test]
fn allocate_pty_initial_size() {
    let request = PtyRequest {
        term_type: "xterm".to_string(),
        width_cols: 132,
        height_rows: 43,
        width_px: 1056,
        height_px: 688,
        terminal_modes: vec![],
    };
    let ws = pty_size(&request).unwrap();
    assert_eq!(ws.ws_col, 132);
    assert_eq!(ws.ws_row, 43);
    assert_eq!(ws.ws_xpixel, 1056);
    assert_eq!(ws.ws_ypixel, 688);
}
