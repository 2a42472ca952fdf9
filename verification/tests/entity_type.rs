use qevy::entity_type::QevyEntityType;

#[test]
fn fgd_keywords() {
    assert_eq!(QevyEntityType::Base.to_fgd_string(), "@BaseClass");
    assert_eq!(QevyEntityType::Solid.to_fgd_string(), "@SolidClass");
    assert_eq!(QevyEntityType::Point.to_fgd_string(), "@PointClass");
}

#[test]
fn short_names_are_read_back() {
    assert_eq!(QevyEntityType::from_short_string("Base"), Some(QevyEntityType::Base));
    assert_eq!(QevyEntityType::from_short_string("Solid"), Some(QevyEntityType::Solid));
    assert_eq!(QevyEntityType::from_short_string("Point"), Some(QevyEntityType::Point));
    assert_eq!(QevyEntityType::from_short_string("point"), None);
    assert_eq!(QevyEntityType::from_short_string(""), None);
    assert_eq!(QevyEntityType::from_short_string("@PointClass"), None);
}
