//! Event descriptors, their builder, and event queues, with the token each
//! serializes to.
use vstd::prelude::*;

use crate::codec::{
    encode_sap_event, escape_at, structural_at, lemma_hex_concat, lemma_structural_concat, push_char,
    sap_decoded, sap_encoded, unescape_hex, unescape_structural,
};

verus! {

/// The structural escape `~E00d`.
pub open spec fn structural_escape(d: char) -> Seq<char> {
    seq!['~', 'E', '0', '0', d]
}

/// Keys are unique within a parameter group.
pub open spec fn keys_unique(p: Seq<(Seq<char>, Seq<char>)>) -> bool {
    forall|i: int, j: int| 0 <= i < p.len() && 0 <= j < p.len() && i != j ==> p[i].0 != p[j].0
}

/// `p` holds the key `k`.
pub open spec fn has_key(p: Seq<(Seq<char>, Seq<char>)>, k: Seq<char>) -> bool {
    exists|i: int| 0 <= i < p.len() && p[i].0 == k
}

/// `p` after setting the key `k` to `v`: the value of an existing key is
/// replaced where it stands, a new key goes to the end.
pub open spec fn with_entry(p: Seq<(Seq<char>, Seq<char>)>, k: Seq<char>, v: Seq<char>) -> Seq<
    (Seq<char>, Seq<char>),
> {
    if has_key(p, k) {
        p.update(choose|i: int| 0 <= i < p.len() && p[i].0 == k, (k, v))
    } else {
        p.push((k, v))
    }
}

proof fn lemma_with_entry_keeps_keys_unique(
    p: Seq<(Seq<char>, Seq<char>)>,
    k: Seq<char>,
    v: Seq<char>,
)
    requires
        keys_unique(p),
    ensures
        keys_unique(with_entry(p, k, v)),
{
    let q = with_entry(p, k, v);
    if has_key(p, k) {
        let c = choose|i: int| 0 <= i < p.len() && p[i].0 == k;
        assert forall|i: int, j: int|
            0 <= i < q.len() && 0 <= j < q.len() && i != j implies q[i].0 != q[j].0 by {
            if i != c && j != c {
                assert(q[i] == p[i] && q[j] == p[j]);
            } else if i == c {
                assert(q[j] == p[j]);
            } else {
                assert(q[i] == p[i]);
            }
        }
    } else {
        assert forall|i: int, j: int|
            0 <= i < q.len() && 0 <= j < q.len() && i != j implies q[i].0 != q[j].0 by {
            if i < p.len() && j < p.len() {
                assert(q[i] == p[i] && q[j] == p[j]);
            } else if i < p.len() {
                assert(q[i] == p[i]);
            } else {
                assert(q[j] == p[j]);
            }
        }
    }
}

/// One parameter as it stands in a token: `key~E004` and the encoded value.
pub open spec fn entry_token(e: (Seq<char>, Seq<char>)) -> Seq<char> {
    e.0 + structural_escape('4') + sap_encoded(e.1)
}

/// The parameters of a group, in order, separated by `~E005`.
pub open spec fn group_entries(p: Seq<(Seq<char>, Seq<char>)>) -> Seq<char>
    decreases p.len(),
{
    if p.len() == 0 {
        Seq::empty()
    } else if p.len() == 1 {
        entry_token(p[0])
    } else {
        group_entries(p.drop_last()) + structural_escape('5') + entry_token(p.last())
    }
}

/// A parameter group in braces: `~E002`, its entries, `~E003`.
pub open spec fn group_token(p: Seq<(Seq<char>, Seq<char>)>) -> Seq<char> {
    structural_escape('2') + group_entries(p) + structural_escape('3')
}

/// The token of one event: `event_control` and its three parameter groups.
pub open spec fn event_token(
    event: Seq<char>,
    control: Seq<char>,
    parameters: Seq<(Seq<char>, Seq<char>)>,
    ucf_parameters: Seq<(Seq<char>, Seq<char>)>,
    custom_parameters: Seq<(Seq<char>, Seq<char>)>,
) -> Seq<char> {
    event + seq!['_'] + control + group_token(parameters) + group_token(ucf_parameters)
        + group_token(custom_parameters)
}

/// A group of event parameters: key and value pairs in the order in which
/// their keys were first set, each key once.
pub struct SapEventParameters {
    entries: Vec<(String, String)>,
}

impl View for SapEventParameters {
    type V = Seq<(Seq<char>, Seq<char>)>;

    closed spec fn view(&self) -> Seq<(Seq<char>, Seq<char>)> {
        self.entries@.map_values(|e: (String, String)| (e.0@, e.1@))
    }
}

impl SapEventParameters {
    #[verifier::type_invariant]
    spec fn inv(self) -> bool {
        keys_unique(self@)
    }

    /// An empty group.
    pub fn new() -> (r: Self)
        ensures
            r@ == Seq::<(Seq<char>, Seq<char>)>::empty(),
    {
        let r = SapEventParameters { entries: Vec::new() };
        assert(r@ =~= Seq::<(Seq<char>, Seq<char>)>::empty());
        r
    }

    /// The number of parameters.
    pub fn len(&self) -> (n: usize)
        ensures
            n == self@.len(),
    {
        self.entries.len()
    }

    /// The key and value at position `i`.
    pub fn entry(&self, i: usize) -> (r: (&String, &String))
        requires
            i < self@.len(),
        ensures
            (r.0@, r.1@) == self@[i as int],
    {
        (&self.entries[i].0, &self.entries[i].1)
    }

    fn position(&self, key: &String) -> (r: Option<usize>)
        ensures
            r is None <==> !has_key(self@, key@),
            r matches Some(i) ==> i < self@.len() && self@[i as int].0 == key@,
    {
        let mut i: usize = 0;
        while i < self.entries.len()
            invariant
                i <= self.entries.len(),
                forall|j: int| 0 <= j < i ==> self@[j].0 != key@,
            decreases self.entries.len() - i,
        {
            if self.entries[i].0 == *key {
                assert(self@[i as int].0 == key@);
                return Some(i);
            }
            i = i + 1;
        }
        None
    }

    /// The group with `key` set to `value`: an existing key keeps its place.
    pub fn inserted(self, key: String, value: String) -> (r: Self)
        ensures
            r@ == with_entry(self@, key@, value@),
    {
        proof {
            use_type_invariant(&self);
        }
        let ghost p = self@;
        let ghost k = key@;
        let ghost v = value@;
        let found = self.position(&key);
        let mut entries = self.entries;
        assert(entries@.map_values(|e: (String, String)| (e.0@, e.1@)) == p);
        match found {
            Some(i) => {
                proof {
                    let c = choose|j: int| 0 <= j < p.len() && p[j].0 == k;
                    assert(c == i);
                }
                entries.set(i, (key, value));
            },
            None => {
                entries.push((key, value));
            },
        }
        assert(entries@.map_values(|e: (String, String)| (e.0@, e.1@)) =~= with_entry(p, k, v));
        proof {
            lemma_with_entry_keeps_keys_unique(p, k, v);
        }
        SapEventParameters { entries }
    }

    /// The value set for `key`, if any.
    pub fn get(&self, key: &str) -> (r: Option<&String>)
        ensures
            r is Some <==> has_key(self@, key@),
            r matches Some(v) ==> exists|i: int|
                0 <= i < self@.len() && self@[i] == (key@, v@),
    {
        let k = String::from_str(key);
        match self.position(&k) {
            Some(i) => {
                assert(self@[i as int] == (key@, self.entries@[i as int].1@));
                Some(&self.entries[i].1)
            },
            None => None,
        }
    }
}

/// The tokens of a queue's events, in order, separated by `~E001`.
pub open spec fn queue_token(tokens: Seq<Seq<char>>) -> Seq<char>
    decreases tokens.len(),
{
    if tokens.len() == 0 {
        Seq::empty()
    } else if tokens.len() == 1 {
        tokens[0]
    } else {
        queue_token(tokens.drop_last()) + structural_escape('1') + tokens.last()
    }
}

fn push_escape(out: &mut String, d: char)
    ensures
        final(out)@ == old(out)@ + structural_escape(d),
{
    let ghost before = out@;
    push_char(out, '~');
    push_char(out, 'E');
    push_char(out, '0');
    push_char(out, '0');
    push_char(out, d);
    assert(out@ =~= before + structural_escape(d));
}

fn push_group(out: &mut String, p: &SapEventParameters)
    ensures
        final(out)@ == old(out)@ + group_token(p@),
{
    let ghost before = out@;
    push_escape(out, '2');
    let ghost start = out@;
    let mut i: usize = 0;
    assert(p@.take(0) =~= Seq::<(Seq<char>, Seq<char>)>::empty());
    while i < p.len()
        invariant
            i <= p@.len(),
            out@ == start + group_entries(p@.take(i as int)),
        decreases p@.len() - i,
    {
        let ghost prefix = out@;
        if i > 0 {
            push_escape(out, '5');
        }
        let (key, value) = p.entry(i);
        out.append(key.as_str());
        push_escape(out, '4');
        let encoded = encode_sap_event(value.as_str());
        out.append(encoded.as_str());
        let ghost next = p@.take(i + 1);
        assert(next.drop_last() =~= p@.take(i as int));
        assert(next.last() == p@[i as int]);
        if i == 0 {
            assert(out@ =~= prefix + entry_token(p@[0]));
            assert(group_entries(p@.take(0)) =~= Seq::<char>::empty());
        } else {
            assert(out@ =~= prefix + structural_escape('5') + entry_token(p@[i as int]));
        }
        assert(out@ =~= start + group_entries(next));
        i = i + 1;
    }
    assert(p@.take(i as int) =~= p@);
    push_escape(out, '3');
    assert(out@ =~= before + group_token(p@));
}

/// One UI action: what happened (`event`), to which control, and three
/// groups of parameters: the action's own, the protocol-control ("UCF")
/// ones, and custom ones.
pub struct SapEvent {
    pub event: String,
    pub control: String,
    pub parameters: SapEventParameters,
    pub ucf_parameters: SapEventParameters,
    pub custom_parameters: SapEventParameters,
}

impl SapEvent {
    /// The token that this event serializes to.
    pub open spec fn token(&self) -> Seq<char> {
        event_token(
            self.event@,
            self.control@,
            self.parameters@,
            self.ucf_parameters@,
            self.custom_parameters@,
        )
    }

    /// Serializes the event: `event_control`, then each parameter group in
    /// braces, its parameters in insertion order as `key:value` with the
    /// value encoded, separated by commas, all punctuation escaped.
    pub fn to_string(&self) -> (r: String)
        ensures
            r@ == self.token(),
    {
        let mut r = String::from_str(self.event.as_str());
        push_char(&mut r, '_');
        r.append(self.control.as_str());
        push_group(&mut r, &self.parameters);
        push_group(&mut r, &self.ucf_parameters);
        push_group(&mut r, &self.custom_parameters);
        assert(r@ =~= self.token());
        r
    }
}

/// Why an event could not be built.
#[derive(Debug, Clone, Copy, PartialEq, Eq)]
pub enum SapEventBuilderError {
    /// The event name is missing or empty.
    EmptyEvent,
    /// The control name is missing or empty.
    EmptyControl,
}

/// What a builder holds so far.
pub struct SapEventBuilderView {
    pub event: Option<Seq<char>>,
    pub control: Option<Seq<char>>,
    pub parameters: Seq<(Seq<char>, Seq<char>)>,
    pub ucf_parameters: Seq<(Seq<char>, Seq<char>)>,
    pub custom_parameters: Seq<(Seq<char>, Seq<char>)>,
}

/// Collects the parts of a `SapEvent`; `build` checks them once at the end.
pub struct SapEventBuilder {
    event: Option<String>,
    control: Option<String>,
    parameters: SapEventParameters,
    ucf_parameters: SapEventParameters,
    custom_parameters: SapEventParameters,
}

impl View for SapEventBuilder {
    type V = SapEventBuilderView;

    closed spec fn view(&self) -> SapEventBuilderView {
        SapEventBuilderView {
            event: match self.event {
                Some(e) => Some(e@),
                None => None,
            },
            control: match self.control {
                Some(c) => Some(c@),
                None => None,
            },
            parameters: self.parameters@,
            ucf_parameters: self.ucf_parameters@,
            custom_parameters: self.custom_parameters@,
        }
    }
}

impl Default for SapEventBuilder {
    fn default() -> (r: Self)
        ensures
            r@.event is None,
            r@.control is None,
            r@.parameters.len() == 0,
            r@.ucf_parameters.len() == 0,
            r@.custom_parameters.len() == 0,
    {
        SapEventBuilder {
            event: None,
            control: None,
            parameters: SapEventParameters::new(),
            ucf_parameters: SapEventParameters::new(),
            custom_parameters: SapEventParameters::new(),
        }
    }
}

/// A name that `build` accepts: present and not empty.
pub open spec fn is_given(name: Option<Seq<char>>) -> bool {
    name matches Some(n) && n.len() > 0
}

impl SapEventBuilder {
    /// Sets the event name.
    pub fn event(self, value: &str) -> (r: Self)
        ensures
            r@ == (SapEventBuilderView { event: Some(value@), ..self@ }),
    {
        SapEventBuilder { event: Some(String::from_str(value)), ..self }
    }

    /// Sets the control name.
    pub fn control(self, value: &str) -> (r: Self)
        ensures
            r@ == (SapEventBuilderView { control: Some(value@), ..self@ }),
    {
        SapEventBuilder { control: Some(String::from_str(value)), ..self }
    }

    /// Sets one parameter of the first group.
    pub fn add_parameter(self, item: (String, String)) -> (r: Self)
        ensures
            r@ == (SapEventBuilderView {
                parameters: with_entry(self@.parameters, item.0@, item.1@),
                ..self@
            }),
    {
        let SapEventBuilder { event, control, parameters, ucf_parameters, custom_parameters } =
            self;
        let parameters = parameters.inserted(item.0, item.1);
        SapEventBuilder { event, control, parameters, ucf_parameters, custom_parameters }
    }

    /// Sets one protocol-control ("UCF") parameter.
    pub fn add_ucf_parameter(self, item: (String, String)) -> (r: Self)
        ensures
            r@ == (SapEventBuilderView {
                ucf_parameters: with_entry(self@.ucf_parameters, item.0@, item.1@),
                ..self@
            }),
    {
        let SapEventBuilder { event, control, parameters, ucf_parameters, custom_parameters } =
            self;
        let ucf_parameters = ucf_parameters.inserted(item.0, item.1);
        SapEventBuilder { event, control, parameters, ucf_parameters, custom_parameters }
    }

    /// Sets one custom parameter.
    pub fn add_custom_parameter(self, item: (String, String)) -> (r: Self)
        ensures
            r@ == (SapEventBuilderView {
                custom_parameters: with_entry(self@.custom_parameters, item.0@, item.1@),
                ..self@
            }),
    {
        let SapEventBuilder { event, control, parameters, ucf_parameters, custom_parameters } =
            self;
        let custom_parameters = custom_parameters.inserted(item.0, item.1);
        SapEventBuilder { event, control, parameters, ucf_parameters, custom_parameters }
    }

    /// The event, where both names are given; else which one is missing,
    /// the event name first.
    pub fn build(self) -> (r: Result<SapEvent, SapEventBuilderError>)
        ensures
            r is Ok <==> is_given(self@.event) && is_given(self@.control),
            !is_given(self@.event) ==> r == Err::<SapEvent, _>(SapEventBuilderError::EmptyEvent),
            is_given(self@.event) && !is_given(self@.control) ==> r == Err::<SapEvent, _>(
                SapEventBuilderError::EmptyControl,
            ),
            r matches Ok(e) ==> {
                &&& Some(e.event@) == self@.event
                &&& Some(e.control@) == self@.control
                &&& e.parameters@ == self@.parameters
                &&& e.ucf_parameters@ == self@.ucf_parameters
                &&& e.custom_parameters@ == self@.custom_parameters
            },
    {
        let SapEventBuilder { event, control, parameters, ucf_parameters, custom_parameters } =
            self;
        let event = match event {
            Some(e) if !e.as_str().is_empty() => e,
            _ => return Err(SapEventBuilderError::EmptyEvent),
        };
        let control = match control {
            Some(c) if !c.as_str().is_empty() => c,
            _ => return Err(SapEventBuilderError::EmptyControl),
        };
        Ok(SapEvent { event, control, parameters, ucf_parameters, custom_parameters })
    }
}

/// Events submitted together, kept in the order in which they were added.
pub struct SapEventQueue {
    queue: Vec<SapEvent>,
}

impl View for SapEventQueue {
    type V = Seq<SapEvent>;

    closed spec fn view(&self) -> Seq<SapEvent> {
        self.queue@
    }
}

impl SapEventQueue {
    /// The token of the queue: its events' tokens, in order, separated by
    /// the newline escape.
    pub open spec fn token(&self) -> Seq<char> {
        queue_token(self@.map_values(|e: SapEvent| e.token()))
    }

    /// An empty queue.
    pub fn new() -> (r: Self)
        ensures
            r@ == Seq::<SapEvent>::empty(),
    {
        SapEventQueue { queue: Vec::new() }
    }

    /// Adds `event` at the end.
    pub fn add_event(&mut self, event: SapEvent)
        ensures
            final(self)@ == old(self)@.push(event),
    {
        self.queue.push(event);
    }

    /// The number of events.
    pub fn len(&self) -> (n: usize)
        ensures
            n == self@.len(),
    {
        self.queue.len()
    }

    /// Serializes the queue.
    pub fn to_string(&self) -> (r: String)
        ensures
            r@ == self.token(),
    {
        let ghost tokens = self@.map_values(|e: SapEvent| e.token());
        let mut r = String::new();
        let mut i: usize = 0;
        assert(tokens.take(0) =~= Seq::<Seq<char>>::empty());
        while i < self.queue.len()
            invariant
                i <= self.queue.len(),
                tokens == self@.map_values(|e: SapEvent| e.token()),
                r@ == queue_token(tokens.take(i as int)),
            decreases self.queue.len() - i,
        {
            let ghost prefix = r@;
            if i > 0 {
                push_escape(&mut r, '1');
            }
            let token = self.queue[i].to_string();
            r.append(token.as_str());
            let ghost next = tokens.take(i + 1);
            assert(next.drop_last() =~= tokens.take(i as int));
            assert(next.last() == tokens[i as int]);
            if i == 0 {
                assert(r@ =~= queue_token(next));
            } else {
                assert(r@ =~= prefix + structural_escape('1') + tokens[i as int]);
            }
            i = i + 1;
        }
        assert(tokens.take(i as int) =~= tokens);
        r
    }
}

/// A token that ends with a structural escape leaves no escape open across
/// its end.
proof fn lemma_closed_end(a: Seq<char>, d: char, b: Seq<char>)
    requires
        a.len() >= 5,
        a.subrange(a.len() - 5, a.len() as int) == structural_escape(d),
        d != '~',
    ensures
        forall|i: int| a.len() - 5 < i < a.len() ==> !escape_at(#[trigger] (a + b), i),
{
    let tail = a.subrange(a.len() - 5, a.len() as int);
    assert forall|i: int| a.len() - 5 < i < a.len() implies !escape_at(#[trigger] (a + b), i) by {
        assert((a + b)[i] == a[i]);
        assert(a[i] == tail[i - (a.len() - 5)]);
        assert(tail[i - (a.len() - 5)] != '~');
    }
}

proof fn lemma_newline_escape()
    ensures
        unescape_structural(structural_escape('1')) == seq!['\n'],
        unescape_hex(seq!['\n']) == seq!['\n'],
{
    let nl = structural_escape('1');
    assert(structural_at(nl, 0));
    assert(nl.skip(5) =~= Seq::<char>::empty());
    assert(unescape_structural(nl.skip(5)) =~= Seq::<char>::empty());
    assert(unescape_structural(nl) =~= seq!['\n']);
    assert(!escape_at(seq!['\n'], 0));
    assert(seq!['\n'].skip(1) =~= Seq::<char>::empty());
    assert(unescape_hex(seq!['\n'].skip(1)) =~= Seq::<char>::empty());
    assert(unescape_hex(seq!['\n']) =~= seq!['\n']);
}

proof fn lemma_token_ends_closed(e: SapEvent)
    ensures
        e.token().len() >= 5,
        e.token().subrange(e.token().len() - 5, e.token().len() as int) == structural_escape('3'),
{
    let t = e.token();
    assert(t =~= (e.event@ + seq!['_'] + e.control@ + group_token(e.parameters@) + group_token(
        e.ucf_parameters@,
    ) + structural_escape('2') + group_entries(e.custom_parameters@)) + structural_escape('3'));
    assert(t.subrange(t.len() - 5, t.len() as int) =~= structural_escape('3'));
}

proof fn lemma_queue_of_two(q: SapEventQueue, first: SapEvent, second: SapEvent)
    requires
        q@ == seq![first, second],
    ensures
        q.token() == first.token() + structural_escape('1') + second.token(),
{
    let t1 = first.token();
    let t2 = second.token();
    let tokens = q@.map_values(|e: SapEvent| e.token());
    assert(tokens =~= seq![t1, t2]);
    assert(tokens.drop_last() =~= seq![t1]);
    assert(queue_token(seq![t1]) == t1);
    assert(queue_token(tokens) == queue_token(tokens.drop_last()) + structural_escape('1')
        + tokens.last());
}

/// Decoding two tokens joined by the newline escape, the first ending with
/// a structural escape, gives the two decodings around a newline.
proof fn lemma_decode_joined(t1: Seq<char>, t2: Seq<char>)
    requires
        t1.len() >= 5,
        t1.subrange(t1.len() - 5, t1.len() as int) == structural_escape('3'),
    ensures
        sap_decoded(t1 + structural_escape('1') + t2) == sap_decoded(t1) + seq!['\n']
            + sap_decoded(t2),
{
    let nl = structural_escape('1');
    let rest = nl + t2;
    assert(t1 + nl + t2 =~= t1 + rest);
    lemma_closed_end(t1, '3', rest);
    lemma_structural_concat(t1, rest);
    assert(nl.subrange(0, 5) =~= structural_escape('1'));
    lemma_closed_end(nl, '1', t2);
    lemma_structural_concat(nl, t2);
    lemma_newline_escape();
    let u1 = unescape_structural(t1);
    let u2 = unescape_structural(t2);
    let tail = seq!['\n'] + u2;
    assert forall|i: int| u1.len() - 5 < i < u1.len() implies !escape_at(#[trigger] (u1 + tail), i)
        by {
        assert((u1 + tail)[u1.len() as int] == '\n');
    }
    lemma_hex_concat(u1, tail);
    assert forall|i: int| 1 - 5 < i < 1 implies !escape_at(#[trigger] (seq!['\n'] + u2), i) by {}
    lemma_hex_concat(seq!['\n'], u2);
    assert(unescape_structural(t1 + rest) =~= u1 + tail);
}

/// A queue of two events serializes as the first event's token, the
/// newline escape and the second event's token; decoding that shows the two
/// decoded events around a literal newline, in the order they were added.
pub proof fn lemma_two_event_queue(q: SapEventQueue, first: SapEvent, second: SapEvent)
    requires
        q@ == seq![first, second],
    ensures
        q.token() == first.token() + structural_escape('1') + second.token(),
        sap_decoded(q.token()) == sap_decoded(first.token()) + seq!['\n'] + sap_decoded(
            second.token(),
        ),
{
    lemma_queue_of_two(q, first, second);
    lemma_token_ends_closed(first);
    lemma_decode_joined(first.token(), second.token());
}

} // verus!
