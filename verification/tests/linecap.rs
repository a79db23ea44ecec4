use dungeon_protocol::linecap::LineCap;

#[test]
fn line_cap_from_name() {
    assert_eq!(LineCap::from("butt"), LineCap::Butt);
    assert_eq!(LineCap::from("round"), LineCap::Round);
    assert_eq!(LineCap::from("square"), LineCap::Square);
}

#[test]
fn line_cap_from_unknown_name_is_butt() {
    assert_eq!(LineCap::from(""), LineCap::Butt);
    assert_eq!(LineCap::from("Round"), LineCap::Butt);
    assert_eq!(LineCap::from("rounded"), LineCap::Butt);
    assert_eq!(LineCap::from("squar"), LineCap::Butt);
}

#[test]
fn line_cap_names() {
    assert_eq!(LineCap::Butt.to_string(), "butt");
    assert_eq!(LineCap::Round.to_string(), "round");
    assert_eq!(LineCap::Square.to_string(), "square");
    for cap in [LineCap::Butt, LineCap::Round, LineCap::Square] {
        assert_eq!(LineCap::from(cap.to_string()), cap);
    }
}
