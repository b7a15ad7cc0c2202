use mini_rusaint::codec::decode_sap_event;
use mini_rusaint::event::{SapEventBuilder, SapEventBuilderError, SapEventQueue};

#[test]
fn test_sap_event_decode() {
    let input = "Button_Press~E002Id~E004ZCMW_PERIOD_RE.ID_0DC742680F42DA9747594D1AE51A0C69~003AVIW_MAIN.BUTTON_PREV~E003~E002ResponseData~E004delta~E005ClientAction~E004submit~E003~E002~E003";
    let expected = "Button_Press{Id:ZCMW_PERIOD_RE.ID_0DC742680F42DA9747594D1AE51A0C69:VIW_MAIN.BUTTON_PREV}{ResponseData:delta,ClientAction:submit}{}";
    assert_eq!(decode_sap_event(input), expected);
}

#[test]
fn test_sap_event_builder() {
    let sap_event = SapEventBuilder::default()
        .event("ComboBox")
        .control("Select")
        .add_parameter((
            "Id".to_string(),
            "ZCMW_PERIOD_RE.ID_0DC742680F42DA9747594D1AE51A0C69:VIW_MAIN.PERYR".to_string(),
        ))
        .add_parameter(("Key".to_string(), "2024".to_string()))
        .add_ucf_parameter(("ResponseData".to_string(), "delta".to_string()))
        .add_ucf_parameter(("ClientAction".to_string(), "submit".to_string()))
        .build()
        .unwrap();

    assert_eq!(sap_event.event, "ComboBox");
    assert_eq!(sap_event.control, "Select");
    assert_eq!(
        sap_event.parameters.get("Id").unwrap(),
        "ZCMW_PERIOD_RE.ID_0DC742680F42DA9747594D1AE51A0C69:VIW_MAIN.PERYR"
    );
    assert_eq!(
        sap_event.ucf_parameters.get("ResponseData").unwrap(),
        "delta"
    );

    let sap_event_str = sap_event.to_string();

    assert!(sap_event_str.contains("ComboBox_Select"));
    assert!(sap_event_str
        .contains("Id~E004ZCMW_PERIOD_RE.ID_0DC742680F42DA9747594D1AE51A0C69~003AVIW_MAIN.PERYR"));
    assert!(sap_event_str.contains("Key~E0042024"));
    assert!(sap_event_str.contains("ResponseData~E004delta"));
    assert!(sap_event_str.contains("ClientAction~E004submit"));
    assert!(sap_event_str.contains("~E002~E003"));
}

#[test]
fn event_token_lists_parameters_in_insertion_order() {
    let event = SapEventBuilder::default()
        .event("ComboBox")
        .control("Select")
        .add_parameter(("Id".to_string(), "PERYR".to_string()))
        .add_parameter(("Key".to_string(), "2024".to_string()))
        .build()
        .unwrap();
    assert_eq!(
        event.to_string(),
        "ComboBox_Select~E002Id~E004PERYR~E005Key~E0042024~E003~E002~E003~E002~E003"
    );
}

#[test]
fn decoded_select_event_shows_both_parameters_in_first_group() {
    let event = SapEventBuilder::default()
        .event("ComboBox")
        .control("Select")
        .add_parameter(("Id".to_string(), "PERYR".to_string()))
        .add_parameter(("Key".to_string(), "2024".to_string()))
        .build()
        .unwrap();
    let decoded = decode_sap_event(&event.to_string());
    assert_eq!(decoded, "ComboBox_Select{Id:PERYR,Key:2024}{}{}");
    let first_group = &decoded[decoded.find('{').unwrap()..decoded.find('}').unwrap()];
    assert!(first_group.contains("Id:PERYR"));
    assert!(first_group.contains("Key:2024"));
    assert!(decoded.ends_with("}{}{}"));
}

#[test]
fn values_are_encoded_and_keys_are_not() {
    let event = SapEventBuilder::default()
        .event("Form")
        .control("Request")
        .add_custom_parameter(("Focus".to_string(), "{a:b}".to_string()))
        .build()
        .unwrap();
    assert_eq!(
        event.to_string(),
        "Form_Request~E002~E003~E002~E003~E002Focus~E004~007Ba~003Ab~007D~E003"
    );
}

#[test]
fn setting_a_key_again_replaces_its_value_in_place() {
    let event = SapEventBuilder::default()
        .event("Button")
        .control("Press")
        .add_parameter(("Id".to_string(), "first".to_string()))
        .add_parameter(("Data".to_string(), "x".to_string()))
        .add_parameter(("Id".to_string(), "second".to_string()))
        .build()
        .unwrap();
    assert_eq!(event.parameters.len(), 2);
    assert_eq!(event.parameters.get("Id").unwrap(), "second");
    let (key, value) = event.parameters.entry(0);
    assert_eq!(key, "Id");
    assert_eq!(value, "second");
    assert!(event.parameters.get("Missing").is_none());
}

#[test]
fn groups_may_reuse_a_key() {
    let event = SapEventBuilder::default()
        .event("Button")
        .control("Press")
        .add_parameter(("Id".to_string(), "a".to_string()))
        .add_ucf_parameter(("Id".to_string(), "b".to_string()))
        .add_custom_parameter(("Id".to_string(), "c".to_string()))
        .build()
        .unwrap();
    assert_eq!(
        event.to_string(),
        "Button_Press~E002Id~E004a~E003~E002Id~E004b~E003~E002Id~E004c~E003"
    );
}

#[test]
fn build_without_event_fails() {
    let r = SapEventBuilder::default().control("Select").build();
    assert_eq!(r.err(), Some(SapEventBuilderError::EmptyEvent));
}

#[test]
fn build_with_empty_event_fails() {
    let r = SapEventBuilder::default().event("").control("Select").build();
    assert_eq!(r.err(), Some(SapEventBuilderError::EmptyEvent));
}

#[test]
fn build_without_control_fails() {
    let r = SapEventBuilder::default().event("ComboBox").build();
    assert_eq!(r.err(), Some(SapEventBuilderError::EmptyControl));
    let r = SapEventBuilder::default().event("ComboBox").control("").build();
    assert_eq!(r.err(), Some(SapEventBuilderError::EmptyControl));
}

fn press(id: &str) -> mini_rusaint::event::SapEvent {
    SapEventBuilder::default()
        .event("Button")
        .control("Press")
        .add_parameter(("Id".to_string(), id.to_string()))
        .build()
        .unwrap()
}

#[test]
fn queue_of_two_joins_tokens_with_newline_escape() {
    let first = press("A");
    let second = press("B");
    let expected = format!("{}~E001{}", first.to_string(), second.to_string());
    let mut queue = SapEventQueue::new();
    queue.add_event(first);
    queue.add_event(second);
    assert_eq!(queue.len(), 2);
    let token = queue.to_string();
    assert_eq!(token, expected);
    assert_eq!(
        decode_sap_event(&token),
        "Button_Press{Id:A}{}{}\nButton_Press{Id:B}{}{}"
    );
}

#[test]
fn empty_and_single_queues() {
    let mut queue = SapEventQueue::new();
    assert_eq!(queue.to_string(), "");
    let event = press("A");
    let token = event.to_string();
    queue.add_event(event);
    assert_eq!(queue.to_string(), token);
}
