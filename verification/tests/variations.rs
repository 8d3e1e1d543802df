use fractal_core::variations::Variation;

#[test]
fn all_lists_variations_in_id_order() {
    let all = Variation::all();
    assert_eq!(all.len(), Variation::count());
    assert_eq!(Variation::count(), 30);
    for (i, v) in all.iter().enumerate() {
        assert_eq!(v.id() as usize, i);
    }
    assert_eq!(all[0], Variation::Linear);
    assert_eq!(all[29], Variation::Bulge9000);
}

#[test]
fn by_id_round_trips_and_rejects_unknown_ids() {
    for v in Variation::all() {
        assert_eq!(Variation::by_id(v.id()), Some(*v));
    }
    assert_eq!(Variation::by_id(13), Some(Variation::Julia));
    assert_eq!(Variation::by_id(30), None);
    assert_eq!(Variation::by_id(255), None);
}

#[test]
fn by_attr_name_round_trips() {
    for v in Variation::all() {
        assert_eq!(Variation::by_attr_name(v.attr_name()), Some(*v));
    }
    assert_eq!(Variation::by_attr_name("gaussian_blur"), Some(Variation::GaussianBlur));
    assert_eq!(Variation::by_attr_name("f9k_orb"), Some(Variation::Orb9000));
    assert_eq!(Variation::by_attr_name("Linear"), None);
    assert_eq!(Variation::by_attr_name(""), None);
    assert_eq!(Variation::by_attr_name("weight"), None);
}

#[test]
fn display_and_attribute_names() {
    assert_eq!(Variation::GaussianBlur.name(), "Gaussian Blur");
    assert_eq!(Variation::Ripple9000.name(), "Ripple 9000");
    assert_eq!(Variation::Ripple9000.attr_name(), "f9k_ripple");
    assert_eq!(Variation::Ex.attr_name(), "ex");
    assert_eq!(Variation::Bulge9000.id(), 29);
}

#[test]
fn attribute_names_are_lower_case_identifiers() {
    for v in Variation::all() {
        let a = v.attr_name();
        assert!(!a.is_empty());
        assert!(a.chars().all(|c| c.is_ascii_lowercase() || c.is_ascii_digit() || c == '_'), "{}", a);
        if v.id() <= 25 {
            assert_eq!(a, v.name().to_ascii_lowercase());
        }
    }
}
