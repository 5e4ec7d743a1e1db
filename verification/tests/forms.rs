use zeshicast::forms::{form_field_value, form_panel_height, form_panel_title, FieldInput};

#[test]
fn form_values_follow_the_widget() {
    let options = vec!["low".to_string(), "high".to_string()];
    assert_eq!(form_field_value(&FieldInput::Check(true), &options), "true");
    assert_eq!(form_field_value(&FieldInput::Check(false), &options), "false");
    assert_eq!(form_field_value(&FieldInput::Choice(1), &options), "high");
    assert_eq!(form_field_value(&FieldInput::Choice(2), &options), "");
    assert_eq!(form_field_value(&FieldInput::Text("abc".to_string()), &[]), "abc");
    assert_eq!(form_field_value(&FieldInput::Other, &options), "");
    assert_eq!(form_panel_title("Deploy"), "Deploy \u{2014} Fill arguments");
    assert_eq!(form_panel_height(0), 60);
    assert_eq!(form_panel_height(3), 240);
}
