//! The metadata a screen embeds in its hidden form, read once when the
//! screen is opened, and the requests built from it.
use vstd::prelude::*;


verus! {

/// The elements of an HTML document whose id is `sap.client.SsrClient.form`,
/// in the order in which the parser created them: each one's `action`
/// attribute, and the `name` and `value` attributes of each `input` element
/// inside it, in document order.
pub uninterp spec fn ssr_forms_of(html: Seq<char>) -> Seq<
    (Option<Seq<char>>, Seq<(Option<Seq<char>>, Option<Seq<char>>)>),
>;

/// Relies on scraper: `Html::parse_document`, `Selector::parse` on two fixed,
/// valid selectors, `select` and `attr`, which read the document's forms as
/// `ssr_forms_of` names them.
#[verifier::external_body]
fn ssr_forms(html: &str) -> (r: Vec<(Option<String>, Vec<(Option<String>, Option<String>)>)>)
    ensures
        r.deep_view() == ssr_forms_of(html@),
{
    let document = scraper::Html::parse_document(html);
    let form = scraper::Selector::parse("#sap\\.client\\.SsrClient\\.form").unwrap();
    let input = scraper::Selector::parse("input").unwrap();
    let attr = |e: &scraper::ElementRef, n: &str| e.attr(n).map(String::from);
    document.select(&form).map(|f| {
        (attr(&f, "action"), f.select(&input).map(|i| (attr(&i, "name"), attr(&i, "value"))).collect())
    }).collect()
}

/// What a screen's bootstrap tells about how to post to it.
pub struct SapSsrClientView {
    pub action_url: Seq<char>,
    pub charset: Seq<char>,
    pub wd_secure_id: Seq<char>,
    pub app_name: Seq<char>,
    pub use_beacon: bool,
}

/// The submission URL, charset, secure id, application name and beacon flag
/// of one opened screen.
pub struct SapSsrClient {
    pub action_url: String,
    pub charset: String,
    pub wd_secure_id: String,
    pub app_name: String,
    pub use_beacon: bool,
}

impl View for SapSsrClient {
    type V = SapSsrClientView;

    open spec fn view(&self) -> SapSsrClientView {
        SapSsrClientView {
            action_url: self.action_url@,
            charset: self.charset@,
            wd_secure_id: self.wd_secure_id@,
            app_name: self.app_name@,
            use_beacon: self.use_beacon,
        }
    }
}

/// An attribute's value, or the empty string where it is missing.
pub open spec fn or_empty(o: Option<Seq<char>>) -> Seq<char> {
    match o {
        Some(s) => s,
        None => Seq::empty(),
    }
}

/// All fields empty, the flag off.
pub open spec fn empty_client() -> SapSsrClientView {
    SapSsrClientView {
        action_url: Seq::empty(),
        charset: Seq::empty(),
        wd_secure_id: Seq::empty(),
        app_name: Seq::empty(),
        use_beacon: false,
    }
}

/// `c` after reading one input: a recognised name sets its field, any
/// other name is ignored; the flag is on exactly for the value `true`.
pub open spec fn read_input(c: SapSsrClientView, name: Seq<char>, value: Seq<char>) -> SapSsrClientView {
    if name == "sap-charset"@ {
        SapSsrClientView { charset: value, ..c }
    } else if name == "sap-wd-secure-id"@ {
        SapSsrClientView { wd_secure_id: value, ..c }
    } else if name == "fesrAppName"@ {
        SapSsrClientView { app_name: value, ..c }
    } else if name == "fesrUseBeacon"@ {
        SapSsrClientView { use_beacon: value == "true"@, ..c }
    } else {
        c
    }
}

/// `c` after reading `inputs` in order.
pub open spec fn read_inputs(
    c: SapSsrClientView,
    inputs: Seq<(Option<Seq<char>>, Option<Seq<char>>)>,
) -> SapSsrClientView
    decreases inputs.len(),
{
    if inputs.len() == 0 {
        c
    } else {
        let last = inputs.last();
        read_input(read_inputs(c, inputs.drop_last()), or_empty(last.0), or_empty(last.1))
    }
}

/// What reading `forms` in order yields: each form sets the submission URL
/// from its `action`, then reads its inputs.
pub open spec fn read_forms(
    forms: Seq<(Option<Seq<char>>, Seq<(Option<Seq<char>>, Option<Seq<char>>)>)>,
) -> SapSsrClientView
    decreases forms.len(),
{
    if forms.len() == 0 {
        empty_client()
    } else {
        let last = forms.last();
        read_inputs(
            SapSsrClientView { action_url: or_empty(last.0), ..read_forms(forms.drop_last()) },
            last.1,
        )
    }
}

/// The value of the last input named `name` among `inputs`, if any.
pub open spec fn last_value(
    inputs: Seq<(Option<Seq<char>>, Option<Seq<char>>)>,
    name: Seq<char>,
) -> Option<Seq<char>>
    decreases inputs.len(),
{
    if inputs.len() == 0 {
        None
    } else if or_empty(inputs.last().0) == name {
        Some(or_empty(inputs.last().1))
    } else {
        last_value(inputs.drop_last(), name)
    }
}

/// `v`'s value where there is one, else `d`.
pub open spec fn or_else(v: Option<Seq<char>>, d: Seq<char>) -> Seq<char> {
    match v {
        Some(x) => x,
        None => d,
    }
}

proof fn lemma_input_names_distinct()
    ensures
        "sap-charset"@ != "sap-wd-secure-id"@,
        "sap-charset"@ != "fesrAppName"@,
        "sap-charset"@ != "fesrUseBeacon"@,
        "sap-wd-secure-id"@ != "fesrAppName"@,
        "sap-wd-secure-id"@ != "fesrUseBeacon"@,
        "fesrAppName"@ != "fesrUseBeacon"@,
{
    reveal_strlit("sap-charset");
    reveal_strlit("sap-wd-secure-id");
    reveal_strlit("fesrAppName");
    reveal_strlit("fesrUseBeacon");
    assert("sap-charset"@.len() != "sap-wd-secure-id"@.len());
    assert("sap-charset"@[0] != "fesrAppName"@[0]);
    assert("sap-charset"@.len() != "fesrUseBeacon"@.len());
    assert("sap-wd-secure-id"@.len() != "fesrAppName"@.len());
    assert("sap-wd-secure-id"@.len() != "fesrUseBeacon"@.len());
    assert("fesrAppName"@.len() != "fesrUseBeacon"@.len());
}

/// Reading inputs sets each field from the last input of its name.
proof fn lemma_read_inputs_fields(c: SapSsrClientView, inputs: Seq<(Option<Seq<char>>, Option<Seq<char>>)>)
    ensures
        read_inputs(c, inputs) == (SapSsrClientView {
            action_url: c.action_url,
            charset: or_else(last_value(inputs, "sap-charset"@), c.charset),
            wd_secure_id: or_else(last_value(inputs, "sap-wd-secure-id"@), c.wd_secure_id),
            app_name: or_else(last_value(inputs, "fesrAppName"@), c.app_name),
            use_beacon: match last_value(inputs, "fesrUseBeacon"@) {
                Some(v) => v == "true"@,
                None => c.use_beacon,
            },
        }),
    decreases inputs.len(),
{
    lemma_input_names_distinct();
    if inputs.len() > 0 {
        lemma_read_inputs_fields(c, inputs.drop_last());
    }
}

/// Where exactly one input, at `i`, is named `name`, the last value of that
/// name is its value.
proof fn lemma_last_value_unique(
    inputs: Seq<(Option<Seq<char>>, Option<Seq<char>>)>,
    name: Seq<char>,
    i: int,
)
    requires
        0 <= i < inputs.len(),
        or_empty(inputs[i].0) == name,
        forall|j: int| 0 <= j < inputs.len() && j != i ==> or_empty(#[trigger] inputs[j].0) != name,
    ensures
        last_value(inputs, name) == Some(or_empty(inputs[i].1)),
    decreases inputs.len(),
{
    if i != inputs.len() - 1 {
        let rest = inputs.drop_last();
        assert(or_empty(inputs[inputs.len() - 1].0) != name);
        assert forall|j: int| 0 <= j < rest.len() && j != i implies or_empty(
            #[trigger] rest[j].0,
        ) != name by {
            assert(rest[j] == inputs[j]);
        }
        lemma_last_value_unique(rest, name, i);
    }
}

/// A page whose one bootstrap form has the submission URL `action` and,
/// among its inputs in any order, exactly one input of each recognised name
/// (at `c`, `s`, `a` and `b`) yields exactly those values; the flag is on
/// exactly where its value is `true`.
pub proof fn lemma_bootstrap_reads_form(
    action: Seq<char>,
    inputs: Seq<(Option<Seq<char>>, Option<Seq<char>>)>,
    c: int,
    s: int,
    a: int,
    b: int,
)
    requires
        0 <= c < inputs.len() && or_empty(inputs[c].0) == "sap-charset"@,
        0 <= s < inputs.len() && or_empty(inputs[s].0) == "sap-wd-secure-id"@,
        0 <= a < inputs.len() && or_empty(inputs[a].0) == "fesrAppName"@,
        0 <= b < inputs.len() && or_empty(inputs[b].0) == "fesrUseBeacon"@,
        forall|j: int|
            0 <= j < inputs.len() && j != c ==> or_empty(#[trigger] inputs[j].0) != "sap-charset"@,
        forall|j: int|
            0 <= j < inputs.len() && j != s ==> or_empty(#[trigger] inputs[j].0)
                != "sap-wd-secure-id"@,
        forall|j: int|
            0 <= j < inputs.len() && j != a ==> or_empty(#[trigger] inputs[j].0) != "fesrAppName"@,
        forall|j: int|
            0 <= j < inputs.len() && j != b ==> or_empty(#[trigger] inputs[j].0)
                != "fesrUseBeacon"@,
    ensures
        read_forms(seq![(Some(action), inputs)]) == (SapSsrClientView {
            action_url: action,
            charset: or_empty(inputs[c].1),
            wd_secure_id: or_empty(inputs[s].1),
            app_name: or_empty(inputs[a].1),
            use_beacon: or_empty(inputs[b].1) == "true"@,
        }),
{
    let forms = seq![(Some(action), inputs)];
    assert(forms.drop_last() =~= Seq::<(Option<Seq<char>>, Seq<(Option<Seq<char>>, Option<Seq<char>>)>)>::empty());
    let start = SapSsrClientView { action_url: action, ..empty_client() };
    assert(read_forms(forms.drop_last()) == empty_client());
    assert(forms.last() == (Some(action), inputs));
    assert(or_empty(forms.last().0) == action);
    assert(read_forms(forms) == read_inputs(start, inputs));
    lemma_read_inputs_fields(start, inputs);
    lemma_last_value_unique(inputs, "sap-charset"@, c);
    lemma_last_value_unique(inputs, "sap-wd-secure-id"@, s);
    lemma_last_value_unique(inputs, "fesrAppName"@, a);
    lemma_last_value_unique(inputs, "fesrUseBeacon"@, b);
}

/// Why a request cannot be made from a screen's metadata.
#[derive(Debug, Clone, Copy, PartialEq, Eq)]
pub enum SapSsrClientError {
    /// The bootstrap found no submission URL.
    BootstrapParseIncomplete,
}

/// The form body of a request: the four metadata fields, and the event
/// queue where there is one.
pub open spec fn request_form(c: SapSsrClientView, queue: Option<Seq<char>>) -> Seq<
    (Seq<char>, Seq<char>),
> {
    let fields = seq![
        ("charset"@, c.charset),
        ("sap-wd-secure-id"@, c.wd_secure_id),
        ("fesrAppName"@, c.app_name),
        ("fesrUseBeacon"@, if c.use_beacon { "true"@ } else { "false"@ }),
    ];
    match queue {
        Some(q) => fields.push(("SAPEVENTQUEUE"@, q)),
        None => fields,
    }
}

fn string_or_empty(o: &Option<String>) -> (r: String)
    ensures
        r@ == or_empty(o.deep_view()),
{
    match o {
        Some(s) => s.clone(),
        None => String::new(),
    }
}

impl SapSsrClient {
    /// The server that hosts the screens.
    pub const SSU_WEBDYNPRO_BASE_URL: &'static str = "https://ecc.ssu.ac.kr";

    /// The URL of the first page of the screen `app_name`.
    pub fn bootstrap_url(app_name: &str) -> (r: String)
        ensures
            r@ == Self::SSU_WEBDYNPRO_BASE_URL@ + "/sap/bc/webdynpro/SAP/"@ + app_name@
                + "?sap-wd-stableids=x"@,
    {
        let mut r = String::from_str(Self::SSU_WEBDYNPRO_BASE_URL);
        r.append("/sap/bc/webdynpro/SAP/");
        r.append(app_name);
        r.append("?sap-wd-stableids=x");
        r
    }

    /// Where requests to the screen are posted: the server and the
    /// submission URL. Without a submission URL no request can be made.
    pub fn action_target(&self) -> (r: Result<String, SapSsrClientError>)
        ensures
            r is Err <==> self.action_url@.len() == 0,
            r matches Ok(u) ==> u@ == Self::SSU_WEBDYNPRO_BASE_URL@ + "/"@ + self.action_url@,
            r matches Err(e) ==> e == SapSsrClientError::BootstrapParseIncomplete,
    {
        if self.action_url.as_str().is_empty() {
            return Err(SapSsrClientError::BootstrapParseIncomplete);
        }
        let mut r = String::from_str(Self::SSU_WEBDYNPRO_BASE_URL);
        r.append("/");
        r.append(self.action_url.as_str());
        Ok(r)
    }

    /// The form body of a request, with `event_queue` under the queue field
    /// where it is given.
    pub fn form_data(&self, event_queue: Option<&str>) -> (r: Vec<(String, String)>)
        ensures
            r.deep_view() == request_form(
                self@,
                match event_queue {
                    Some(q) => Some(q@),
                    None => None,
                },
            ),
    {
        let beacon = if self.use_beacon {
            String::from_str("true")
        } else {
            String::from_str("false")
        };
        let mut r: Vec<(String, String)> = Vec::new();
        r.push((String::from_str("charset"), self.charset.clone()));
        r.push((String::from_str("sap-wd-secure-id"), self.wd_secure_id.clone()));
        r.push((String::from_str("fesrAppName"), self.app_name.clone()));
        r.push((String::from_str("fesrUseBeacon"), beacon));
        match event_queue {
            Some(q) => r.push((String::from_str("SAPEVENTQUEUE"), String::from_str(q))),
            None => {},
        }
        assert(r.deep_view() =~= request_form(
            self@,
            match event_queue {
                Some(q) => Some(q@),
                None => None,
            },
        ));
        r
    }

    /// Reads the metadata from the forms of a screen, as listed by
    /// `ssr_forms_of`. Fields that no form or input sets stay empty.
    pub fn from_forms(forms: &Vec<(Option<String>, Vec<(Option<String>, Option<String>)>)>) -> (r:
        SapSsrClient)
        ensures
            r@ == read_forms(forms.deep_view()),
    {
        let mut r = SapSsrClient {
            action_url: String::new(),
            charset: String::new(),
            wd_secure_id: String::new(),
            app_name: String::new(),
            use_beacon: false,
        };
        let ghost fs = forms.deep_view();
        let mut i: usize = 0;
        assert(fs.take(0) =~= fs.take(0).take(0));
        assert(r@ == read_forms(fs.take(0)));
        while i < forms.len()
            invariant
                i <= forms.len(),
                fs == forms.deep_view(),
                r@ == read_forms(fs.take(i as int)),
            decreases forms.len() - i,
        {
            let form = &forms[i];
            assert(fs[i as int] == form.deep_view());
            r.action_url = string_or_empty(&form.0);
            let ghost start = r@;
            let inputs = &form.1;
            let ghost ins = inputs.deep_view();
            let mut j: usize = 0;
            assert(ins.take(0) =~= Seq::<(Option<Seq<char>>, Option<Seq<char>>)>::empty());
            while j < inputs.len()
                invariant
                    j <= inputs.len(),
                    ins == inputs.deep_view(),
                    r@ == read_inputs(start, ins.take(j as int)),
                decreases inputs.len() - j,
            {
                let name = string_or_empty(&inputs[j].0);
                let value = string_or_empty(&inputs[j].1);
                assert(ins[j as int] == inputs[j as int].deep_view());
                if name == String::from_str("sap-charset") {
                    r.charset = value;
                } else if name == String::from_str("sap-wd-secure-id") {
                    r.wd_secure_id = value;
                } else if name == String::from_str("fesrAppName") {
                    r.app_name = value;
                } else if name == String::from_str("fesrUseBeacon") {
                    r.use_beacon = value == String::from_str("true");
                }
                assert(ins.take(j + 1).drop_last() =~= ins.take(j as int));
                j = j + 1;
            }
            assert(ins.take(j as int) =~= ins);
            assert(fs.take(i + 1).drop_last() =~= fs.take(i as int));
            i = i + 1;
        }
        assert(fs.take(i as int) =~= fs);
        r
    }

    /// Opens a screen from the HTML of its first page: its metadata, or an
    /// error where the page yields no submission URL, since no request could
    /// follow.
    pub fn from_bootstrap_page(body: &str) -> (r: Result<SapSsrClient, SapSsrClientError>)
        ensures
            r is Err <==> read_forms(ssr_forms_of(body@)).action_url.len() == 0,
            r matches Ok(c) ==> c@ == read_forms(ssr_forms_of(body@)),
            r matches Err(e) ==> e == SapSsrClientError::BootstrapParseIncomplete,
    {
        let client = SapSsrClient::from_document(body);
        if client.action_url.as_str().is_empty() {
            Err(SapSsrClientError::BootstrapParseIncomplete)
        } else {
            Ok(client)
        }
    }

    /// Reads the metadata from the HTML of a screen's first page.
    pub fn from_document(body: &str) -> (r: SapSsrClient)
        ensures
            r@ == read_forms(ssr_forms_of(body@)),
    {
        let forms = ssr_forms(body);
        SapSsrClient::from_forms(&forms)
    }
}

} // verus!
