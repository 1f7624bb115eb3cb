use aviutl2_ndi_live_output::text::{chars_of, is_white_space_char, trim_bounds, trims_to_empty};

#[test]
fn white_space_matches_std() {
    for u in 0u32..=0x10FFFF {
        if let Some(c) = char::from_u32(u) {
            assert_eq!(is_white_space_char(c), c.is_whitespace(), "{u:#x}");
        }
    }
}

#[test]
fn trim_matches_std() {
    for s in ["", " ", "a", " a ", "\u{85}x y\u{2029}", "\u{3000}\u{3000}", "ab  ", "  ab"] {
        let v = chars_of(s);
        let (start, end) = trim_bounds(&v);
        let kept: String = v[start..end].iter().collect();
        assert_eq!(kept, s.trim());
        assert_eq!(trims_to_empty(s), s.trim().is_empty());
    }
}
