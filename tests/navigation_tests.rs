use mini_rusaint::client::SapSsrClient;
use mini_rusaint::codec::decode_sap_event;
use mini_rusaint::course_grades::{
    course_detail_steps, is_record_row, record_rows, semester_details_steps, CourseDetailLookup,
    CourseGradesApplicationError, NavigationStep, ScreenState, SemesterType,
};

#[test]
fn semester_keys() {
    assert_eq!(SemesterType::FirstSemester.key(), "090");
    assert_eq!(SemesterType::SummerSemester.key(), "091");
    assert_eq!(SemesterType::SecondSemester.key(), "092");
    assert_eq!(SemesterType::WinterSemester.key(), "093");
}

#[test]
fn initial_step_sends_no_queue() {
    assert_eq!(NavigationStep::Initial.event_queue(), None);
}

#[test]
fn select_year_queue() {
    let token = NavigationStep::SelectYear(2024).event_queue().unwrap();
    assert_eq!(
        token,
        "ComboBox_Select~E002Id~E004ZCMW_PERIOD_RE.ID_0DC742680F42DA9747594D1AE51A0C69~003AVIW_MAIN.PERYR~E005Key~E0042024~E003~E002~E003~E002~E003"
    );
    assert_eq!(
        NavigationStep::SelectYear(7).event_queue().unwrap(),
        "ComboBox_Select~E002Id~E004ZCMW_PERIOD_RE.ID_0DC742680F42DA9747594D1AE51A0C69~003AVIW_MAIN.PERYR~E005Key~E0047~E003~E002~E003~E002~E003"
    );
}

#[test]
fn select_semester_queue() {
    let token = NavigationStep::SelectSemester(SemesterType::SecondSemester)
        .event_queue()
        .unwrap();
    assert_eq!(
        decode_sap_event(&token),
        "ComboBox_Select{Id:ZCMW_PERIOD_RE.ID_0DC742680F42DA9747594D1AE51A0C69:VIW_MAIN.PERID,Key:092}{}{}"
    );
}

#[test]
fn open_and_close_detail_queues() {
    let open = NavigationStep::OpenCourseDetail("ROW.BTN_1".to_string())
        .event_queue()
        .unwrap();
    assert_eq!(
        decode_sap_event(&open),
        "ClientInspector_Notify{Id:WD01,Data:}{}{}\nButton_Press{Id:ROW.BTN_1}{}{}"
    );
    let close = NavigationStep::CloseCourseDetail.event_queue().unwrap();
    assert_eq!(
        decode_sap_event(&close),
        "Button_Press{Id:ZCMB3W0017.ID_0001:W_POPUP.WDBUTTON_5}{}{}"
    );
}

#[test]
fn semester_details_start_over_then_select_year_and_semester() {
    let steps = semester_details_steps(2024, SemesterType::SecondSemester);
    assert_eq!(steps.len(), 3);
    assert!(matches!(steps[0], NavigationStep::Initial));
    assert!(matches!(steps[1], NavigationStep::SelectYear(2024)));
    assert!(matches!(
        steps[2],
        NavigationStep::SelectSemester(SemesterType::SecondSemester)
    ));
}

#[test]
fn screen_state_allows_steps_in_order() {
    let s = ScreenState::Unopened;
    assert_eq!(
        s.advance(&NavigationStep::SelectYear(2024)),
        Err(CourseGradesApplicationError::StepOutOfOrder)
    );
    let s = s.advance(&NavigationStep::Initial).unwrap();
    assert_eq!(s, ScreenState::Ready);
    let s = s.advance(&NavigationStep::SelectSemester(SemesterType::FirstSemester)).unwrap();
    assert_eq!(s, ScreenState::Ready);
    assert_eq!(
        s.advance(&NavigationStep::CloseCourseDetail),
        Err(CourseGradesApplicationError::StepOutOfOrder)
    );
    let s = s.advance(&NavigationStep::OpenCourseDetail("B1".to_string())).unwrap();
    assert_eq!(s, ScreenState::DetailOpen);
    assert_eq!(
        s.advance(&NavigationStep::OpenCourseDetail("B2".to_string())),
        Err(CourseGradesApplicationError::StepOutOfOrder)
    );
    assert_eq!(
        s.advance(&NavigationStep::SelectYear(2023)),
        Err(CourseGradesApplicationError::StepOutOfOrder)
    );
    assert_eq!(s.advance(&NavigationStep::CloseCourseDetail), Ok(ScreenState::Ready));
    assert_eq!(s.advance(&NavigationStep::Initial), Ok(ScreenState::Ready));
}

#[test]
fn library_step_sequences_are_accepted() {
    let mut state = ScreenState::DetailOpen;
    for step in semester_details_steps(2023, SemesterType::WinterSemester) {
        state = state.advance(&step).unwrap();
    }
    for step in course_detail_steps(&CourseDetailLookup::Button(Some("B".to_string()))).unwrap() {
        state = state.advance(&step).unwrap();
    }
    assert_eq!(state, ScreenState::Ready);
}

#[test]
fn detail_steps_for_each_lookup() {
    assert_eq!(
        course_detail_steps(&CourseDetailLookup::MissingCell).err(),
        Some(CourseGradesApplicationError::HtmlParseError)
    );
    assert_eq!(
        course_detail_steps(&CourseDetailLookup::Button(None)).err(),
        Some(CourseGradesApplicationError::HtmlParseError)
    );
    assert_eq!(
        course_detail_steps(&CourseDetailLookup::NoButton).err(),
        Some(CourseGradesApplicationError::HtmlParseError)
    );
    let steps = course_detail_steps(&CourseDetailLookup::Button(Some("B1".to_string()))).unwrap();
    assert_eq!(steps.len(), 2);
    assert!(matches!(&steps[0], NavigationStep::OpenCourseDetail(id) if id == "B1"));
    assert!(matches!(steps[1], NavigationStep::CloseCourseDetail));
}

#[test]
fn record_row_positions() {
    assert!(!is_record_row(0, "tr", None));
    assert!(is_record_row(1, "tr", None));
    assert!(is_record_row(2, "tr", Some("3")));
    assert!(!is_record_row(2, "tr", Some("0")));
    assert!(!is_record_row(2, "td", None));
}

fn screen() -> SapSsrClient {
    SapSsrClient {
        action_url: "/sap/bc/webdynpro/SAP/ZCMB3W0017".to_string(),
        charset: "utf-8".to_string(),
        wd_secure_id: "ID1".to_string(),
        app_name: "ZCMB3W0017".to_string(),
        use_beacon: false,
    }
}

#[test]
fn replayed_steps_send_identical_bodies() {
    let client = screen();
    let run = || {
        let mut steps = semester_details_steps(2024, SemesterType::FirstSemester);
        steps.push(NavigationStep::OpenCourseDetail("B1".to_string()));
        steps.push(NavigationStep::CloseCourseDetail);
        steps
            .iter()
            .map(|s| s.request_body(&client))
            .collect::<Vec<_>>()
    };
    let first = run();
    let second = run();
    assert_eq!(first, second);
    assert_eq!(first[0].len(), 4);
    assert_eq!(first[0][3], ("fesrUseBeacon".to_string(), "false".to_string()));
    assert_eq!(first[1][4].0, "SAPEVENTQUEUE");
    assert_eq!(
        first[1][4].1,
        NavigationStep::SelectYear(2024).event_queue().unwrap()
    );
}

fn child(tag: &str, rr: Option<&str>) -> Option<(String, Option<String>)> {
    Some((tag.to_string(), rr.map(String::from)))
}

#[test]
fn record_rows_skip_header_text_and_empty_rows() {
    let tables = vec![
        vec![child("tr", None), None, child("tr", Some("1")), child("tr", Some("0")), child("td", None)],
        vec![child("tr", None), child("tr", None)],
    ];
    assert_eq!(record_rows(&tables).unwrap(), vec![(0, 2), (1, 1)]);
}

#[test]
fn record_rows_of_a_missing_table_is_an_error() {
    assert_eq!(
        record_rows(&vec![]).err(),
        Some(CourseGradesApplicationError::HtmlParseError)
    );
    assert_eq!(record_rows(&vec![vec![child("tr", None)]]).unwrap(), vec![]);
}
