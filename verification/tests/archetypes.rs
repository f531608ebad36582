use tdg_rust::archetypes::{
    all_archetypes, archetype_by_complex_role, archetype_by_number, archetypes_by_complex,
    archetypes_by_role, Complex, Role,
};

#[test]
fn archetype_count_is_22() {
    assert_eq!(all_archetypes().len(), 22);
}

#[test]
fn archetype_numbers_are_sequential() {
    for (i, archetype) in all_archetypes().iter().enumerate() {
        assert_eq!(archetype.number, (i + 1) as u8, "Archetype {} has wrong number", i);
    }
}

#[test]
fn mind_complex_has_7() {
    assert_eq!(archetypes_by_complex(&Complex::Mind).len(), 7);
}

#[test]
fn body_complex_has_7() {
    assert_eq!(archetypes_by_complex(&Complex::Body).len(), 7);
}

#[test]
fn spirit_complex_has_7() {
    assert_eq!(archetypes_by_complex(&Complex::Spirit).len(), 7);
}

#[test]
fn pivot_has_1() {
    let pivot = archetypes_by_complex(&Complex::Pivot);
    assert_eq!(pivot.len(), 1);
    assert_eq!(pivot[0].name, "Choice");
}

#[test]
fn each_role_appears_3_times_plus_choice() {
    for role in &[
        Role::Matrix,
        Role::Potentiator,
        Role::Catalyst,
        Role::Experience,
        Role::Significator,
        Role::Transformation,
        Role::GreatWay,
    ] {
        let archetypes = archetypes_by_role(role);
        assert_eq!(archetypes.len(), 3, "Role {:?} should appear 3 times", role);
    }
    let choice = archetypes_by_role(&Role::Choice);
    assert_eq!(choice.len(), 1);
}

#[test]
fn get_archetype_by_number() {
    assert_eq!(archetype_by_number(1).unwrap().name, "Matrix of the Mind");
    assert_eq!(archetype_by_number(22).unwrap().name, "Choice");
    assert_eq!(archetype_by_number(8).unwrap().name, "Matrix of the Body");
    assert_eq!(archetype_by_number(15).unwrap().name, "Matrix of the Spirit");
    assert!(archetype_by_number(0).is_none());
    assert!(archetype_by_number(23).is_none());
}

#[test]
fn get_archetype_by_complex_role() {
    let arch = archetype_by_complex_role(&Complex::Mind, &Role::Matrix).unwrap();
    assert_eq!(arch.number, 1);
    assert_eq!(arch.name, "Matrix of the Mind");

    let arch = archetype_by_complex_role(&Complex::Spirit, &Role::Choice);
    assert!(arch.is_none());

    let arch = archetype_by_complex_role(&Complex::Pivot, &Role::Choice).unwrap();
    assert_eq!(arch.number, 22);
}

#[test]
fn role_symbols() {
    assert_eq!(Role::Matrix.as_str(), "M");
    assert_eq!(Role::Potentiator.as_str(), "P");
    assert_eq!(Role::Catalyst.as_str(), "C");
    assert_eq!(Role::Experience.as_str(), "E");
    assert_eq!(Role::Significator.as_str(), "S");
    assert_eq!(Role::Transformation.as_str(), "T");
    assert_eq!(Role::GreatWay.as_str(), "G");
    assert_eq!(Role::Choice.as_str(), "Ch");
}

#[test]
fn complex_strings() {
    assert_eq!(Complex::Mind.as_str(), "mind");
    assert_eq!(Complex::Body.as_str(), "body");
    assert_eq!(Complex::Spirit.as_str(), "spirit");
    assert_eq!(Complex::Pivot.as_str(), "pivot");
}

#[test]
fn choice_is_meta_pivot() {
    let choice = archetype_by_number(22).unwrap();
    assert_eq!(choice.complex, Complex::Pivot);
    assert_eq!(choice.role, Role::Choice);
    assert!(choice.description.contains("meta-pivot"));
}

#[test]
fn role_display_names() {
    assert_eq!(Role::GreatWay.display_name(), "Great Way");
    assert_eq!(Role::Choice.display_name(), "Choice");
}

#[test]
fn complex_role_lookup_agrees_with_layout() {
    for a in all_archetypes() {
        let found = archetype_by_complex_role(&a.complex, &a.role).unwrap();
        assert_eq!(found.number, a.number);
        assert_eq!(archetype_by_number(a.number).unwrap().name, a.name);
    }
    assert_eq!(archetype_by_complex_role(&Complex::Body, &Role::GreatWay).unwrap().number, 14);
    assert!(archetype_by_complex_role(&Complex::Pivot, &Role::Matrix).is_none());
}
