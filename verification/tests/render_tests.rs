use astra::{GridStyle, PreferredGridStyle, RendererError, TextEditResult, TextKey, TextModifiers};

#[test]
fn grid_style_next_cycles_through_all_variants() {
    assert_eq!(GridStyle::NoGrid.next(), GridStyle::Lines);
    assert_eq!(GridStyle::Lines.next(), GridStyle::HorizontalLines);
    assert_eq!(GridStyle::HorizontalLines.next(), GridStyle::CrossPlus);
    assert_eq!(GridStyle::CrossPlus.next(), GridStyle::Dots);
    assert_eq!(GridStyle::Dots.next(), GridStyle::NoGrid);
}

#[test]
fn grid_style_name_returns_nonempty_string() {
    for style in [
        GridStyle::NoGrid,
        GridStyle::Lines,
        GridStyle::HorizontalLines,
        GridStyle::CrossPlus,
        GridStyle::Dots,
    ] {
        assert!(!style.name().is_empty());
    }
}

#[test]
fn grid_style_default_is_none() {
    assert_eq!(GridStyle::default(), GridStyle::NoGrid);
}

#[test]
fn text_modifiers_default_all_false() {
    let m = TextModifiers::default();
    assert!(!m.shift);
    assert!(!m.ctrl);
    assert!(!m.alt);
    assert!(!m.meta);
}

#[test]
fn text_key_character_stores_string() {
    let key = TextKey::Character("a".to_string());
    match key {
        TextKey::Character(s) => assert_eq!(s, "a"),
        _ => panic!("wrong variant"),
    }
}

#[test]
fn text_key_paste_stores_content() {
    let key = TextKey::Paste("pasted text".to_string());
    match key {
        TextKey::Paste(s) => assert_eq!(s, "pasted text"),
        _ => panic!("wrong variant"),
    }
}

#[test]
fn text_edit_result_variants_exist() {
    let _ = TextEditResult::Handled;
    let _ = TextEditResult::ExitEdit;
    let _ = TextEditResult::NotHandled;
    let _ = TextEditResult::Copy("hello".to_string());
}

#[test]
fn renderer_error_init_failed_display() {
    let err = RendererError::InitFailed("GPU unavailable".to_string());
    let msg = err.to_string();
    assert!(msg.contains("GPU unavailable"));
}

#[test]
fn renderer_error_render_failed_display() {
    let err = RendererError::RenderFailed("out of memory".to_string());
    let msg = err.to_string();
    assert!(msg.contains("out of memory"));
}

#[test]
fn renderer_error_surface_display() {
    let err = RendererError::Surface("lost".to_string());
    let msg = err.to_string();
    assert!(msg.contains("lost"));
}

#[test]
fn integration_grid_style_default_matches_unit_tests() {
    assert_eq!(GridStyle::default(), GridStyle::NoGrid);
}

#[test]
fn renderer_error_messages_are_exact() {
    assert_eq!(
        RendererError::InitFailed("x".to_string()).to_string(),
        "Initialization failed: x"
    );
    assert_eq!(RendererError::RenderFailed("y".to_string()).to_string(), "Render failed: y");
    assert_eq!(RendererError::Surface("z".to_string()).to_string(), "Surface error: z");
}

#[test]
fn grid_style_names_are_exact() {
    assert_eq!(GridStyle::NoGrid.name(), "None");
    assert_eq!(GridStyle::Lines.name(), "Grid");
    assert_eq!(GridStyle::HorizontalLines.name(), "Lines");
    assert_eq!(GridStyle::CrossPlus.name(), "Crosses");
    assert_eq!(GridStyle::Dots.name(), "Dots");
}

#[test]
fn grid_style_five_steps_return_to_start() {
    let mut g = GridStyle::CrossPlus;
    for _ in 0..5 {
        g = g.next();
    }
    assert_eq!(g, GridStyle::CrossPlus);
}

#[test]
fn grid_style_preference_round_trip() {
    for style in [
        GridStyle::NoGrid,
        GridStyle::Lines,
        GridStyle::HorizontalLines,
        GridStyle::CrossPlus,
        GridStyle::Dots,
    ] {
        let p: PreferredGridStyle = style.into();
        let back: GridStyle = p.into();
        assert_eq!(back, style);
    }
    let g: GridStyle = PreferredGridStyle::Dots.into();
    assert_eq!(g, GridStyle::Dots);
}
