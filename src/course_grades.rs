//! The course-grades screen: its fixed control ids, the events that select
//! a year and a semester and open and close a course's detail popup, and the
//! order in which they are sent.
use vstd::prelude::*;

use crate::client::{request_form, SapSsrClient, SapSsrClientError, SapSsrClientView};
use crate::codec::push_char;
use crate::event::{
    event_token, lemma_two_event_queue, structural_escape, SapEvent, SapEventParameters,
    SapEventQueue,
};

verus! {

/// The screen's application name.
pub const APP_NAME: &'static str = "ZCMB3W0017";

/// The body of the table of grades per semester.
pub const SEMESTER_GRADES_SUMMARY_TABLE_ID: &'static str =
    "ZCMB3W0017.ID_0001:VIW_MAIN.TABLE-contentTBody";

/// The body of the table of course grades of the selected semester.
pub const SEMESTER_GRADES_DETAIL_TABLE_ID: &'static str =
    "ZCMB3W0017.ID_0001:VIW_MAIN.TABLE_1-contentTBody";

/// The body of the table in a course's detail popup.
pub const COURSE_GRADES_DETAIL_TABLE_ID: &'static str =
    "ZCMB3W0017.ID_0001:V_DETAIL.TABLE-contentTBody";

/// The button that closes a course's detail popup.
pub const COURSE_GRADES_DETAIL_POPUP_CLOSE_BUTTON_ID: &'static str =
    "ZCMB3W0017.ID_0001:W_POPUP.WDBUTTON_5";

/// The combo box of the year.
pub const YEAR_COMBO_BOX_ID: &'static str =
    "ZCMW_PERIOD_RE.ID_0DC742680F42DA9747594D1AE51A0C69:VIW_MAIN.PERYR";

/// The combo box of the semester.
pub const SEMESTER_COMBO_BOX_ID: &'static str =
    "ZCMW_PERIOD_RE.ID_0DC742680F42DA9747594D1AE51A0C69:VIW_MAIN.PERID";

/// A semester of the academic year.
#[derive(Debug, Clone, Copy, PartialEq, Eq)]
pub enum SemesterType {
    FirstSemester,
    SummerSemester,
    SecondSemester,
    WinterSemester,
}

/// The key under which the screen knows a semester.
pub open spec fn semester_key(s: SemesterType) -> Seq<char> {
    match s {
        SemesterType::FirstSemester => "090"@,
        SemesterType::SummerSemester => "091"@,
        SemesterType::SecondSemester => "092"@,
        SemesterType::WinterSemester => "093"@,
    }
}

impl SemesterType {
    /// The key under which the screen knows this semester.
    pub fn key(&self) -> (r: &'static str)
        ensures
            r@ == semester_key(*self),
    {
        match self {
            SemesterType::FirstSemester => "090",
            SemesterType::SummerSemester => "091",
            SemesterType::SecondSemester => "092",
            SemesterType::WinterSemester => "093",
        }
    }
}

/// `n` in decimal, without leading zeros.
pub open spec fn decimal(n: nat) -> Seq<char>
    decreases n,
{
    if n < 10 {
        seq![(n + 48) as char]
    } else {
        decimal(n / 10).push((n % 10 + 48) as char)
    }
}

fn push_decimal(out: &mut String, n: u32)
    ensures
        final(out)@ == old(out)@ + decimal(n as nat),
    decreases n,
{
    let ghost before = out@;
    if n >= 10 {
        push_decimal(out, n / 10);
    }
    push_char(out, ((n % 10) as u8 + 48u8) as char);
    assert(out@ =~= before + decimal(n as nat));
}

/// A step of navigation on the screen: each is one request.
pub enum NavigationStep {
    /// The first request, with no event: the default view.
    Initial,
    /// Selects a year in its combo box.
    SelectYear(u32),
    /// Selects a semester in its combo box.
    SelectSemester(SemesterType),
    /// Presses the detail button of a course row, whose id is given.
    OpenCourseDetail(String),
    /// Closes the detail popup.
    CloseCourseDetail,
}

/// The token of a one-event queue that selects `key` in the combo box `id`.
pub open spec fn select_token(id: Seq<char>, key: Seq<char>) -> Seq<char> {
    event_token("ComboBox"@, "Select"@, seq![("Id"@, id), ("Key"@, key)], seq![], seq![])
}

/// The token of a one-event queue that presses the button `id`.
pub open spec fn press_token(id: Seq<char>) -> Seq<char> {
    event_token("Button"@, "Press"@, seq![("Id"@, id)], seq![], seq![])
}

/// The token of the queue that opens the detail popup of the button `id`:
/// a client notification, then the press.
pub open spec fn open_detail_token(id: Seq<char>) -> Seq<char> {
    event_token(
        "ClientInspector"@,
        "Notify"@,
        seq![("Id"@, "WD01"@), ("Data"@, Seq::empty())],
        seq![],
        seq![],
    ) + structural_escape('1') + press_token(id)
}

/// The event queue that a step sends, if any.
pub open spec fn step_queue(step: NavigationStep) -> Option<Seq<char>> {
    match step {
        NavigationStep::Initial => None,
        NavigationStep::SelectYear(y) => Some(select_token(YEAR_COMBO_BOX_ID@, decimal(y as nat))),
        NavigationStep::SelectSemester(s) => Some(
            select_token(SEMESTER_COMBO_BOX_ID@, semester_key(s)),
        ),
        NavigationStep::OpenCourseDetail(id) => Some(open_detail_token(id@)),
        NavigationStep::CloseCourseDetail => Some(
            press_token(COURSE_GRADES_DETAIL_POPUP_CLOSE_BUTTON_ID@),
        ),
    }
}

fn one_parameter(key: &str, value: String) -> (r: SapEventParameters)
    ensures
        r@ == seq![(key@, value@)],
{
    let r = SapEventParameters::new().inserted(String::from_str(key), value);
    assert(r@ =~= seq![(key@, value@)]);
    r
}

fn two_parameters(k1: &str, v1: String, k2: &str, v2: String) -> (r: SapEventParameters)
    requires
        k1@ != k2@,
    ensures
        r@ == seq![(k1@, v1@), (k2@, v2@)],
{
    let first = one_parameter(k1, v1);
    let r = first.inserted(String::from_str(k2), v2);
    assert(r@ =~= seq![(k1@, v1@), (k2@, v2@)]);
    r
}

fn select_event(id: &str, key: String) -> (r: SapEvent)
    ensures
        r.token() == select_token(id@, key@),
{
    proof {
        reveal_strlit("Id");
        reveal_strlit("Key");
        assert("Id"@.len() != "Key"@.len());
    }
    SapEvent {
        event: String::from_str("ComboBox"),
        control: String::from_str("Select"),
        parameters: two_parameters("Id", String::from_str(id), "Key", key),
        ucf_parameters: SapEventParameters::new(),
        custom_parameters: SapEventParameters::new(),
    }
}

fn press_event(id: &str) -> (r: SapEvent)
    ensures
        r.token() == press_token(id@),
{
    SapEvent {
        event: String::from_str("Button"),
        control: String::from_str("Press"),
        parameters: one_parameter("Id", String::from_str(id)),
        ucf_parameters: SapEventParameters::new(),
        custom_parameters: SapEventParameters::new(),
    }
}

fn notify_event() -> (r: SapEvent)
    ensures
        r.token() == event_token(
            "ClientInspector"@,
            "Notify"@,
            seq![("Id"@, "WD01"@), ("Data"@, Seq::empty())],
            seq![],
            seq![],
        ),
{
    proof {
        reveal_strlit("Id");
        reveal_strlit("Data");
        reveal_strlit("");
        assert("Id"@.len() != "Data"@.len());
        assert(""@ =~= Seq::<char>::empty());
    }
    SapEvent {
        event: String::from_str("ClientInspector"),
        control: String::from_str("Notify"),
        parameters: two_parameters("Id", String::from_str("WD01"), "Data", String::from_str("")),
        ucf_parameters: SapEventParameters::new(),
        custom_parameters: SapEventParameters::new(),
    }
}

/// The token of the queue that opens the detail popup of the button `id`.
pub fn open_detail_queue(id: &str) -> (r: String)
    ensures
        r@ == open_detail_token(id@),
{
    let notify = notify_event();
    let press = press_event(id);
    let ghost first = notify;
    let ghost second = press;
    let mut queue = SapEventQueue::new();
    queue.add_event(notify);
    queue.add_event(press);
    assert(queue@ =~= seq![first, second]);
    proof {
        lemma_two_event_queue(queue, first, second);
    }
    queue.to_string()
}

/// Why a navigation on the course-grades screen stopped.
#[derive(Debug, PartialEq, Eq)]
pub enum CourseGradesApplicationError {
    /// The screen's metadata does not allow a request.
    SapSsrClientError(SapSsrClientError),
    /// The transport failed; holds its message.
    RequestError(String),
    /// An element that the navigation relies on is missing from the page.
    HtmlParseError,
    /// A step was taken in a state of the screen that does not allow it.
    StepOutOfOrder,
}

/// Where a navigation of the screen stands.
#[derive(Debug, Clone, Copy, PartialEq, Eq)]
pub enum ScreenState {
    /// No request has been made yet.
    Unopened,
    /// The default view, or a view reached from it by selections.
    Ready,
    /// A course's detail popup is open and must be closed next.
    DetailOpen,
}

/// The state after taking `step` in state `s`, or `None` where the step is
/// not allowed: the first request may always be made again, selections and
/// opening a popup need a ready screen, and an open popup allows only its
/// closing.
pub open spec fn after_step(s: ScreenState, step: NavigationStep) -> Option<ScreenState> {
    match step {
        NavigationStep::Initial => Some(ScreenState::Ready),
        NavigationStep::SelectYear(_) | NavigationStep::SelectSemester(_) => if s
            == ScreenState::Ready {
            Some(ScreenState::Ready)
        } else {
            None
        },
        NavigationStep::OpenCourseDetail(_) => if s == ScreenState::Ready {
            Some(ScreenState::DetailOpen)
        } else {
            None
        },
        NavigationStep::CloseCourseDetail => if s == ScreenState::DetailOpen {
            Some(ScreenState::Ready)
        } else {
            None
        },
    }
}

/// The state after taking `steps` in order from `s`, or `None` where one of
/// them is not allowed.
pub open spec fn after_steps(s: ScreenState, steps: Seq<NavigationStep>) -> Option<ScreenState>
    decreases steps.len(),
{
    if steps.len() == 0 {
        Some(s)
    } else {
        match after_steps(s, steps.drop_last()) {
            Some(t) => after_step(t, steps.last()),
            None => None,
        }
    }
}

impl ScreenState {
    /// The state after taking `step`, or an error where this state does not
    /// allow it.
    pub fn advance(&self, step: &NavigationStep) -> (r: Result<
        ScreenState,
        CourseGradesApplicationError,
    >)
        ensures
            match after_step(*self, *step) {
                Some(t) => r == Ok::<ScreenState, CourseGradesApplicationError>(t),
                None => r == Err::<ScreenState, _>(CourseGradesApplicationError::StepOutOfOrder),
            },
    {
        let ready = match self {
            ScreenState::Ready => true,
            _ => false,
        };
        match step {
            NavigationStep::Initial => Ok(ScreenState::Ready),
            NavigationStep::SelectYear(_) | NavigationStep::SelectSemester(_) => {
                if ready {
                    Ok(ScreenState::Ready)
                } else {
                    Err(CourseGradesApplicationError::StepOutOfOrder)
                }
            },
            NavigationStep::OpenCourseDetail(_) => {
                if ready {
                    Ok(ScreenState::DetailOpen)
                } else {
                    Err(CourseGradesApplicationError::StepOutOfOrder)
                }
            },
            NavigationStep::CloseCourseDetail => match self {
                ScreenState::DetailOpen => Ok(ScreenState::Ready),
                _ => Err(CourseGradesApplicationError::StepOutOfOrder),
            },
        }
    }
}

/// What the fifth cell of a course row offers for the course's details.
pub enum CourseDetailLookup {
    /// The row has no fifth cell.
    MissingCell,
    /// The cell holds no button.
    NoButton,
    /// The cell's button, with its id attribute where it has one.
    Button(Option<String>),
}

/// The steps that reach the course grades of `year` and `semester`: the
/// first request, then the selection of the year and of the semester.
pub fn semester_details_steps(year: u32, semester: SemesterType) -> (r: Vec<NavigationStep>)
    ensures
        r@ == seq![
            NavigationStep::Initial,
            NavigationStep::SelectYear(year),
            NavigationStep::SelectSemester(semester),
        ],
{
    let mut r: Vec<NavigationStep> = Vec::new();
    r.push(NavigationStep::Initial);
    r.push(NavigationStep::SelectYear(year));
    r.push(NavigationStep::SelectSemester(semester));
    assert(r@ =~= seq![
        NavigationStep::Initial,
        NavigationStep::SelectYear(year),
        NavigationStep::SelectSemester(semester),
    ]);
    r
}

/// The steps that read a course's details: open its popup through the
/// button, then close it. A missing cell, a cell without a button, or a
/// button without an id, is an error: the row lacks its action control.
pub fn course_detail_steps(lookup: &CourseDetailLookup) -> (r: Result<
    Vec<NavigationStep>,
    CourseGradesApplicationError,
>)
    ensures
        match *lookup {
            CourseDetailLookup::Button(Some(id)) => r matches Ok(v) && v@.len() == 2 && (
            v@[0] matches NavigationStep::OpenCourseDetail(x) && x@ == id@) && v@[1]
                is CloseCourseDetail,
            _ => r == Err::<Vec<NavigationStep>, _>(CourseGradesApplicationError::HtmlParseError),
        },
{
    match lookup {
        CourseDetailLookup::Button(Some(id)) => {
            let mut v: Vec<NavigationStep> = Vec::new();
            v.push(NavigationStep::OpenCourseDetail(id.clone()));
            v.push(NavigationStep::CloseCourseDetail);
            Ok(v)
        },
        _ => Err(CourseGradesApplicationError::HtmlParseError),
    }
}

/// A child of a table body at `position` is a record row: it is not the
/// header (the first child), it is a `tr` element, and its row index
/// attribute `rr` is not `0`.
pub fn is_record_row(position: usize, tag: &str, rr: Option<&str>) -> (r: bool)
    ensures
        r == (position > 0 && tag@ == "tr"@ && !(rr matches Some(x) && x@ == "0"@)),
{
    if position == 0 || String::from_str(tag) != String::from_str("tr") {
        return false;
    }
    match rr {
        Some(x) => String::from_str(x) != String::from_str("0"),
        None => true,
    }
}

/// From any state, the steps that reach a semester's course grades are
/// allowed and leave the screen ready; from a ready screen, the steps that
/// read a course's details are allowed and leave it ready again: the detail
/// popup is always closed before the next request.
pub proof fn lemma_steps_keep_screen_ready(
    start: ScreenState,
    year: u32,
    semester: SemesterType,
    details: Seq<NavigationStep>,
)
    requires
        details.len() == 2,
        details[0] is OpenCourseDetail,
        details[1] is CloseCourseDetail,
    ensures
        after_steps(
            start,
            seq![
                NavigationStep::Initial,
                NavigationStep::SelectYear(year),
                NavigationStep::SelectSemester(semester),
            ],
        ) == Some(ScreenState::Ready),
        after_steps(ScreenState::Ready, details) == Some(ScreenState::Ready),
{
    let sel = seq![
        NavigationStep::Initial,
        NavigationStep::SelectYear(year),
        NavigationStep::SelectSemester(semester),
    ];
    assert(sel.drop_last().drop_last().drop_last() =~= Seq::<NavigationStep>::empty());
    assert(after_steps(start, sel.drop_last().drop_last().drop_last()) == Some(start));
    assert(after_steps(start, sel.drop_last().drop_last()) == Some(ScreenState::Ready));
    assert(after_steps(start, sel.drop_last()) == Some(ScreenState::Ready));
    assert(details.drop_last().drop_last() =~= Seq::<NavigationStep>::empty());
    assert(after_steps(ScreenState::Ready, details.drop_last().drop_last()) == Some(
        ScreenState::Ready,
    ));
    assert(after_steps(ScreenState::Ready, details.drop_last()) == Some(ScreenState::DetailOpen));
}

/// What a table body's child node is: an element's tag and `rr` attribute,
/// or `None` for text.
pub open spec fn is_record_child(c: Option<(Seq<char>, Option<Seq<char>>)>, position: int) -> bool {
    c matches Some(e) && position > 0 && e.0 == "tr"@ && !(e.1 matches Some(x) && x == "0"@)
}

/// The positions `(t, i)` of the record rows among the first children of
/// table body `t`, in order.
pub open spec fn record_positions(t: int, children: Seq<Option<(Seq<char>, Option<Seq<char>>)>>) -> Seq<
    (int, int),
>
    decreases children.len(),
{
    if children.len() == 0 {
        Seq::empty()
    } else {
        let before = record_positions(t, children.drop_last());
        let i = children.len() - 1;
        if is_record_child(children.last(), i) {
            before.push((t, i))
        } else {
            before
        }
    }
}

/// The positions of the record rows of all `tables`, table by table.
pub open spec fn all_record_positions(
    tables: Seq<Seq<Option<(Seq<char>, Option<Seq<char>>)>>>,
) -> Seq<(int, int)>
    decreases tables.len(),
{
    if tables.len() == 0 {
        Seq::empty()
    } else {
        all_record_positions(tables.drop_last()) + record_positions(
            tables.len() - 1,
            tables.last(),
        )
    }
}

/// The record rows of the table bodies that carry a result table's id, given
/// each body's child nodes: as `(body, child)` positions, in order. Without
/// any such body the page lacks the table, which is an error.
pub fn record_rows(tables: &Vec<Vec<Option<(String, Option<String>)>>>) -> (r: Result<
    Vec<(usize, usize)>,
    CourseGradesApplicationError,
>)
    ensures
        r is Err <==> tables.len() == 0,
        r matches Err(e) ==> e == CourseGradesApplicationError::HtmlParseError,
        r matches Ok(v) ==> v@.map_values(|p: (usize, usize)| (p.0 as int, p.1 as int))
            == all_record_positions(tables.deep_view()),
{
    if tables.len() == 0 {
        return Err(CourseGradesApplicationError::HtmlParseError);
    }
    let ghost ts = tables.deep_view();
    let mut v: Vec<(usize, usize)> = Vec::new();
    let mut t: usize = 0;
    assert(ts.take(0) =~= Seq::<Seq<Option<(Seq<char>, Option<Seq<char>>)>>>::empty());
    assert(v@.map_values(|p: (usize, usize)| (p.0 as int, p.1 as int)) =~= Seq::<(int, int)>::empty());
    while t < tables.len()
        invariant
            t <= tables.len(),
            ts == tables.deep_view(),
            v@.map_values(|p: (usize, usize)| (p.0 as int, p.1 as int)) == all_record_positions(
                ts.take(t as int),
            ),
        decreases tables.len() - t,
    {
        let children = &tables[t];
        let ghost cs = children.deep_view();
        assert(ts[t as int] == cs);
        let ghost before = all_record_positions(ts.take(t as int));
        let mut i: usize = 0;
        assert(cs.take(0) =~= Seq::<Option<(Seq<char>, Option<Seq<char>>)>>::empty());
        assert(before + record_positions(t as int, cs.take(0)) =~= before);
        while i < children.len()
            invariant
                i <= children.len(),
                t < tables.len(),
                cs == children.deep_view(),
                v@.map_values(|p: (usize, usize)| (p.0 as int, p.1 as int)) == before
                    + record_positions(t as int, cs.take(i as int)),
            decreases children.len() - i,
        {
            let record = match &children[i] {
                Some(e) => is_record_row(
                    i,
                    e.0.as_str(),
                    match &e.1 {
                        Some(x) => Some(x.as_str()),
                        None => None,
                    },
                ),
                None => false,
            };
            assert(cs[i as int] == children@[i as int].deep_view());
            assert(cs.take(i + 1).drop_last() =~= cs.take(i as int));
            let ghost old_v = v@;
            if record {
                v.push((t, i));
                assert(v@.map_values(|p: (usize, usize)| (p.0 as int, p.1 as int)) =~= old_v.map_values(
                    |p: (usize, usize)| (p.0 as int, p.1 as int),
                ).push((t as int, i as int)));
            }
            i = i + 1;
        }
        assert(cs.take(i as int) =~= cs);
        assert(ts.take(t + 1).drop_last() =~= ts.take(t as int));
        t = t + 1;
    }
    assert(ts.take(t as int) =~= ts);
    Ok(v)
}

/// The request bodies that replaying `steps` against a screen with
/// metadata `c` sends, in order.
pub open spec fn replayed(c: SapSsrClientView, steps: Seq<NavigationStep>) -> Seq<
    Seq<(Seq<char>, Seq<char>)>,
> {
    steps.map_values(|s: NavigationStep| request_form(c, step_queue(s)))
}

/// Replaying the same steps against the same screen metadata sends the same
/// request bodies: every field, and its place, is fixed by the step.
pub proof fn lemma_replay_is_deterministic(
    c1: SapSsrClientView,
    c2: SapSsrClientView,
    s1: Seq<NavigationStep>,
    s2: Seq<NavigationStep>,
)
    requires
        c1 == c2,
        s1.len() == s2.len(),
        forall|i: int| 0 <= i < s1.len() ==> step_queue(#[trigger] s1[i]) == step_queue(s2[i]),
    ensures
        replayed(c1, s1) == replayed(c2, s2),
{
    assert(replayed(c1, s1) =~= replayed(c2, s2));
}

impl NavigationStep {
    /// The form body of this step's request to a screen with metadata
    /// `client`.
    pub fn request_body(&self, client: &SapSsrClient) -> (r: Vec<(String, String)>)
        ensures
            r.deep_view() == request_form(client@, step_queue(*self)),
    {
        let queue = self.event_queue();
        match queue {
            Some(q) => client.form_data(Some(q.as_str())),
            None => client.form_data(None),
        }
    }

    /// The event queue this step sends, as a token; `None` for the first
    /// request.
    pub fn event_queue(&self) -> (r: Option<String>)
        ensures
            r.deep_view() == step_queue(*self),
    {
        match self {
            NavigationStep::Initial => None,
            NavigationStep::SelectYear(year) => {
                let mut key = String::new();
                push_decimal(&mut key, *year);
                assert(key@ =~= decimal(*year as nat));
                Some(select_event(YEAR_COMBO_BOX_ID, key).to_string())
            },
            NavigationStep::SelectSemester(semester) => {
                Some(select_event(SEMESTER_COMBO_BOX_ID, String::from_str(semester.key())).to_string())
            },
            NavigationStep::OpenCourseDetail(id) => Some(open_detail_queue(id.as_str())),
            NavigationStep::CloseCourseDetail => {
                Some(press_event(COURSE_GRADES_DETAIL_POPUP_CLOSE_BUTTON_ID).to_string())
            },
        }
    }
}

} // verus!
