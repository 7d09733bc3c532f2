//! Encoding commands into frames and decoding frames into responses.
use vstd::prelude::*;
use vstd::utf8::{decode_utf8, encode_utf8, valid_utf8};

use crate::error::Error;
use crate::text::{decimal, decimal_string, utf8_text};
use crate::schema::{
    opt_view, Command, CommandView, CreateTabResponse, CreateTabView, ListSessionsResponse,
    ListSessionsView, Response, ResponseView, SendTextResponse, SessionSummary, Tab, TabView, Window,
    WindowView, CREATE_TAB_FIELD, ERROR_FIELD, FIRST_SUBMESSAGE_FIELD, ID_FIELD,
    LIST_SESSIONS_FIELD, SEND_TEXT_FIELD,
};
use crate::wire::{
    bytes_field, field_at, fields_of, lemma_varint_cut_short, lemma_varint_round_trip, lemma_varint_within,
    read_fields, varint_at, varint_bytes, write_bytes_field, Field, FieldView, WireValue,
    WireValueView, MAX_FIELD_NUMBER,
};

verus! {

/// A string field: the UTF-8 bytes of the text, length-delimited.
pub open spec fn string_field(number: u64, s: Seq<char>) -> Seq<u8> {
    bytes_field(number, encode_utf8(s))
}

/// A string field when the text is present, nothing otherwise.
pub open spec fn opt_string_field(number: u64, o: Option<Seq<char>>) -> Seq<u8> {
    match o {
        Some(s) => string_field(number, s),
        None => Seq::empty(),
    }
}

/// The field number under which a command travels.
pub open spec fn request_field(c: CommandView) -> u64 {
    match c {
        CommandView::CreateTab { .. } => CREATE_TAB_FIELD,
        CommandView::SendText { .. } => SEND_TEXT_FIELD,
        CommandView::ListSessions => LIST_SESSIONS_FIELD,
    }
}

/// The encoded request inside a command's message.
pub open spec fn request_payload(c: CommandView) -> Seq<u8> {
    match c {
        CommandView::CreateTab { profile_name, window_id } => opt_string_field(1, profile_name)
            + opt_string_field(2, window_id),
        CommandView::SendText { session_id, text } => string_field(1, session_id) + string_field(
            2,
            text,
        ),
        CommandView::ListSessions => Seq::empty(),
    }
}

/// The frame that carries a command: one field holding the encoded request.
pub open spec fn command_bytes(c: CommandView) -> Seq<u8> {
    bytes_field(request_field(c), request_payload(c))
}

fn write_string_field(out: &mut Vec<u8>, number: u64, s: &str)
    requires
        1 <= number <= MAX_FIELD_NUMBER,
    ensures
        final(out)@ == old(out)@ + string_field(number, s@),
{
    write_bytes_field(out, number, s.as_bytes());
}

fn write_opt_string_field(out: &mut Vec<u8>, number: u64, o: &Option<String>)
    requires
        1 <= number <= MAX_FIELD_NUMBER,
    ensures
        final(out)@ == old(out)@ + opt_string_field(number, opt_view(*o)),
{
    match o {
        Some(s) => write_string_field(out, number, s.as_str()),
        None => {
            assert(old(out)@ + Seq::<u8>::empty() =~= old(out)@);
        },
    }
}

/// Encodes a command as the bytes of one frame.
pub fn encode_command(cmd: &Command) -> (r: Vec<u8>)
    ensures
        r@ == command_bytes(cmd@),
{
    let mut payload: Vec<u8> = Vec::new();
    let number = match cmd {
        Command::CreateTab { profile_name, window_id } => {
            write_opt_string_field(&mut payload, 1, profile_name);
            write_opt_string_field(&mut payload, 2, window_id);
            CREATE_TAB_FIELD
        },
        Command::SendText { session_id, text } => {
            write_string_field(&mut payload, 1, session_id.as_str());
            write_string_field(&mut payload, 2, text.as_str());
            SEND_TEXT_FIELD
        },
        Command::ListSessions => LIST_SESSIONS_FIELD,
    };
    assert(payload@ =~= request_payload(cmd@));
    let mut out: Vec<u8> = Vec::new();
    write_bytes_field(&mut out, number, payload.as_slice());
    assert(out@ =~= command_bytes(cmd@));
    out
}

/// Folds the fields of a message in order through `step`; none as soon as a
/// step fails.
pub open spec fn fold_fields<S>(
    fs: Seq<FieldView>,
    init: S,
    step: spec_fn(S, FieldView) -> Option<S>,
) -> Option<S>
    decreases fs.len(),
{
    if fs.len() == 0 {
        Some(init)
    } else {
        match fold_fields(fs.drop_last(), init, step) {
            Some(st) => step(st, fs.last()),
            None => None,
        }
    }
}

/// A message read from `b`: its fields folded from `init` through `step`.
pub open spec fn message_of<S>(
    b: Seq<u8>,
    init: S,
    step: spec_fn(S, FieldView) -> Option<S>,
) -> Option<S> {
    match fields_of(b) {
        Some(fs) => fold_fields(fs, init, step),
        None => None,
    }
}

proof fn lemma_fold_next<S>(
    fs: Seq<FieldView>,
    init: S,
    step: spec_fn(S, FieldView) -> Option<S>,
    i: int,
)
    requires
        0 <= i < fs.len(),
    ensures
        fold_fields(fs.take(i + 1), init, step) == (match fold_fields(fs.take(i), init, step) {
            Some(st) => step(st, fs[i]),
            None => None,
        }),
{
    assert(fs.take(i + 1).drop_last() =~= fs.take(i));
}

proof fn lemma_fold_failed<S>(
    fs: Seq<FieldView>,
    init: S,
    step: spec_fn(S, FieldView) -> Option<S>,
    i: int,
)
    requires
        0 <= i <= fs.len(),
        fold_fields(fs.take(i), init, step) is None,
    ensures
        fold_fields(fs, init, step) is None,
    decreases fs.len() - i,
{
    if i < fs.len() {
        lemma_fold_next(fs, init, step, i);
        lemma_fold_failed(fs, init, step, i + 1);
    } else {
        assert(fs.take(i) =~= fs);
    }
}

proof fn lemma_fold_all<S>(fs: Seq<FieldView>, init: S, step: spec_fn(S, FieldView) -> Option<S>)
    ensures
        fold_fields(fs.take(fs.len() as int), init, step) == fold_fields(fs, init, step),
{
    assert(fs.take(fs.len() as int) =~= fs);
}

/// The text of a string field: its bytes decoded as UTF-8.
pub open spec fn text_of(v: WireValueView) -> Option<Seq<char>> {
    match v {
        WireValueView::Bytes(p) => if valid_utf8(p) {
            Some(decode_utf8(p))
        } else {
            None
        },
        _ => None,
    }
}

/// The value of a varint field.
pub open spec fn varint_of(v: WireValueView) -> Option<u64> {
    match v {
        WireValueView::Varint(x) => Some(x),
        _ => None,
    }
}

pub open spec fn session_step(id: Seq<char>, f: FieldView) -> Option<Seq<char>> {
    if f.number == 1 {
        text_of(f.value)
    } else {
        Some(id)
    }
}

pub open spec fn session_steps() -> spec_fn(Seq<char>, FieldView) -> Option<Seq<char>> {
    |id: Seq<char>, f: FieldView| session_step(id, f)
}

/// A session summary read from `b`: the identifier is field 1.
pub open spec fn session_of(b: Seq<u8>) -> Option<Seq<char>> {
    message_of(b, Seq::empty(), session_steps())
}

/// The sessions of a split-tree node read from `b`, in order: its links are
/// the repeated field 2.
pub open spec fn node_sessions(b: Seq<u8>) -> Option<Seq<Seq<char>>>
    decreases b.len(), 3nat, 0nat,
{
    match fields_of(b) {
        Some(fs) => node_fold(fs, b.len()),
        None => None,
    }
}

/// The sessions of the links among `fs`, whose payloads are shorter than `bound`.
pub open spec fn node_fold(fs: Seq<FieldView>, bound: nat) -> Option<Seq<Seq<char>>>
    decreases bound, 2nat, fs.len(),
{
    if fs.len() == 0 {
        Some(Seq::empty())
    } else {
        match node_fold(fs.drop_last(), bound) {
            None => None,
            Some(acc) => {
                let f = fs.last();
                if f.number == 2 {
                    match f.value {
                        WireValueView::Bytes(p) => if p.len() < bound {
                            match link_sessions(p) {
                                Some(s) => Some(acc + s),
                                None => None,
                            }
                        } else {
                            None
                        },
                        _ => None,
                    }
                } else {
                    Some(acc)
                }
            },
        }
    }
}

/// The sessions of a split-tree link read from `b`: one session (field 1) or
/// a node (field 2), the last one given counting; none at all when neither is.
pub open spec fn link_sessions(b: Seq<u8>) -> Option<Seq<Seq<char>>>
    decreases b.len(), 1nat, 0nat,
{
    match fields_of(b) {
        Some(fs) => link_fold(fs, b.len()),
        None => None,
    }
}

pub open spec fn link_fold(fs: Seq<FieldView>, bound: nat) -> Option<Seq<Seq<char>>>
    decreases bound, 0nat, fs.len(),
{
    if fs.len() == 0 {
        Some(Seq::empty())
    } else {
        match link_fold(fs.drop_last(), bound) {
            None => None,
            Some(acc) => {
                let f = fs.last();
                if f.number == 1 {
                    match f.value {
                        WireValueView::Bytes(p) => match session_of(p) {
                            Some(s) => Some(seq![s]),
                            None => None,
                        },
                        _ => None,
                    }
                } else if f.number == 2 {
                    match f.value {
                        WireValueView::Bytes(p) => if p.len() < bound {
                            node_sessions(p)
                        } else {
                            None
                        },
                        _ => None,
                    }
                } else {
                    Some(acc)
                }
            },
        }
    }
}

/// Whether `v` is no payload, or a payload shorter than `bound`.
pub open spec fn shorter_than(v: WireValueView, bound: nat) -> bool {
    match v {
        WireValueView::Bytes(p) => p.len() < bound,
        _ => true,
    }
}

/// Every length-delimited payload among the fields of `b` is shorter than `b`.
pub proof fn lemma_payloads_shorter(b: Seq<u8>)
    ensures
        fields_of(b) matches Some(fs) ==> forall|i: int|
            0 <= i < fs.len() ==> shorter_than((#[trigger] fs[i]).value, b.len()),
    decreases b.len(),
{
    if b.len() > 0 {
        match field_at(b) {
            Some((f, n)) => {
                if 0 < n <= b.len() {
                    let rest = b.subrange(n as int, b.len() as int);
                    lemma_payloads_shorter(rest);
                    lemma_varint_within(b, 0);
                    match fields_of(rest) {
                        Some(tail) => {
                            let fs = seq![f] + tail;
                            assert forall|i: int| 0 <= i < fs.len() implies shorter_than(
                                (#[trigger] fs[i]).value,
                                b.len(),
                            ) by {
                                if i > 0 {
                                    assert(fs[i] == tail[i - 1]);
                                }
                            }
                        },
                        None => {},
                    }
                }
            },
            None => {},
        }
    }
}

pub open spec fn sessions_view(v: Seq<SessionSummary>) -> Seq<Seq<char>> {
    v.map_values(|s: SessionSummary| s@)
}

pub open spec fn tab_step(t: TabView, f: FieldView) -> Option<TabView> {
    if f.number == 2 {
        match text_of(f.value) {
            Some(id) => Some(TabView { tab_id: id, ..t }),
            None => None,
        }
    } else if f.number == 3 {
        match f.value {
            WireValueView::Bytes(p) => match node_sessions(p) {
                Some(ss) => Some(TabView { sessions: ss, ..t }),
                None => None,
            },
            _ => None,
        }
    } else {
        Some(t)
    }
}

pub open spec fn tab_steps() -> spec_fn(TabView, FieldView) -> Option<TabView> {
    |t: TabView, f: FieldView| tab_step(t, f)
}

pub open spec fn empty_tab() -> TabView {
    TabView { tab_id: Seq::empty(), sessions: Seq::empty() }
}

/// A tab read from `b`: the identifier is field 2, the split tree of its
/// sessions field 3.
pub open spec fn tab_of(b: Seq<u8>) -> Option<TabView> {
    message_of(b, empty_tab(), tab_steps())
}

pub open spec fn window_step(w: WindowView, f: FieldView) -> Option<WindowView> {
    if f.number == 1 {
        match f.value {
            WireValueView::Bytes(p) => match tab_of(p) {
                Some(t) => Some(WindowView { tabs: w.tabs.push(t), ..w }),
                None => None,
            },
            _ => None,
        }
    } else if f.number == 2 {
        match text_of(f.value) {
            Some(id) => Some(WindowView { window_id: id, ..w }),
            None => None,
        }
    } else {
        Some(w)
    }
}

pub open spec fn window_steps() -> spec_fn(WindowView, FieldView) -> Option<WindowView> {
    |w: WindowView, f: FieldView| window_step(w, f)
}

pub open spec fn empty_window() -> WindowView {
    WindowView { window_id: Seq::empty(), tabs: Seq::empty() }
}

/// A window read from `b`: its tabs are the repeated field 1, its identifier
/// field 2.
pub open spec fn window_of(b: Seq<u8>) -> Option<WindowView> {
    message_of(b, empty_window(), window_steps())
}

pub open spec fn list_step(l: ListSessionsView, f: FieldView) -> Option<ListSessionsView> {
    if f.number == 1 {
        match f.value {
            WireValueView::Bytes(p) => match window_of(p) {
                Some(w) => Some(ListSessionsView { windows: l.windows.push(w), ..l }),
                None => None,
            },
            _ => None,
        }
    } else if f.number == 2 {
        match f.value {
            WireValueView::Bytes(p) => match session_of(p) {
                Some(s) => Some(
                    ListSessionsView { buried_sessions: l.buried_sessions.push(s), ..l },
                ),
                None => None,
            },
            _ => None,
        }
    } else {
        Some(l)
    }
}

pub open spec fn list_steps() -> spec_fn(ListSessionsView, FieldView) -> Option<
    ListSessionsView,
> {
    |l: ListSessionsView, f: FieldView| list_step(l, f)
}

pub open spec fn empty_list() -> ListSessionsView {
    ListSessionsView { windows: Seq::empty(), buried_sessions: Seq::empty() }
}

/// A list-sessions response read from `b`: windows are the repeated field 1,
/// buried sessions the repeated field 2.
pub open spec fn list_of(b: Seq<u8>) -> Option<ListSessionsView> {
    message_of(b, empty_list(), list_steps())
}

pub open spec fn create_tab_step(c: CreateTabView, f: FieldView) -> Option<CreateTabView> {
    if f.number == 1 {
        match varint_of(f.value) {
            Some(v) => Some(CreateTabView { status: v, ..c }),
            None => None,
        }
    } else if f.number == 2 {
        match text_of(f.value) {
            Some(t) => Some(CreateTabView { window_id: t, ..c }),
            None => None,
        }
    } else if f.number == 4 {
        match text_of(f.value) {
            Some(t) => Some(CreateTabView { session_id: t, ..c }),
            None => None,
        }
    } else {
        Some(c)
    }
}

pub open spec fn create_tab_steps() -> spec_fn(CreateTabView, FieldView) -> Option<
    CreateTabView,
> {
    |c: CreateTabView, f: FieldView| create_tab_step(c, f)
}

pub open spec fn empty_create_tab() -> CreateTabView {
    CreateTabView { status: 0, window_id: Seq::empty(), session_id: Seq::empty() }
}

/// A create-tab response read from `b`: status is field 1, window identifier
/// field 2, session identifier field 4; an absent status is OK.
pub open spec fn create_tab_of(b: Seq<u8>) -> Option<CreateTabView> {
    message_of(b, empty_create_tab(), create_tab_steps())
}

pub open spec fn send_text_step(status: u64, f: FieldView) -> Option<u64> {
    if f.number == 1 {
        varint_of(f.value)
    } else {
        Some(status)
    }
}

pub open spec fn send_text_steps() -> spec_fn(u64, FieldView) -> Option<u64> {
    |status: u64, f: FieldView| send_text_step(status, f)
}

/// A send-text response read from `b`: its status is field 1; an absent
/// status is OK.
pub open spec fn send_text_of(b: Seq<u8>) -> Option<u64> {
    message_of(b, 0u64, send_text_steps())
}

pub open spec fn response_step(r: ResponseView, f: FieldView) -> Option<ResponseView> {
    if f.number == ID_FIELD {
        match varint_of(f.value) {
            Some(_) => Some(r),
            None => None,
        }
    } else if f.number == ERROR_FIELD {
        match text_of(f.value) {
            Some(t) => Some(ResponseView::ServerError(t)),
            None => None,
        }
    } else if f.number == LIST_SESSIONS_FIELD || f.number == SEND_TEXT_FIELD || f.number
        == CREATE_TAB_FIELD {
        match f.value {
            WireValueView::Bytes(p) => if f.number == LIST_SESSIONS_FIELD {
                match list_of(p) {
                    Some(l) => Some(ResponseView::ListSessions(l)),
                    None => None,
                }
            } else if f.number == SEND_TEXT_FIELD {
                match send_text_of(p) {
                    Some(s) => Some(ResponseView::SendText(s)),
                    None => None,
                }
            } else {
                match create_tab_of(p) {
                    Some(c) => Some(ResponseView::CreateTab(c)),
                    None => None,
                }
            },
            _ => None,
        }
    } else if f.number >= FIRST_SUBMESSAGE_FIELD {
        Some(ResponseView::Other(f.number))
    } else {
        Some(r)
    }
}

pub open spec fn response_steps() -> spec_fn(ResponseView, FieldView) -> Option<ResponseView> {
    |r: ResponseView, f: FieldView| response_step(r, f)
}

/// The response that a frame holds; none when the frame does not conform to
/// the schema.
///
/// Of several submessages the last one counts; fields the schema does not
/// name are skipped.
pub open spec fn response_of(b: Seq<u8>) -> Option<ResponseView> {
    message_of(b, ResponseView::Empty, response_steps())
}

fn malformed() -> (r: Error)
    ensures
        r is Decode && r.text() == "malformed field encoding"@,
{
    Error::Decode(String::from_str("malformed field encoding"))
}

fn bad_field(number: u64) -> (r: Error)
    ensures
        r is Decode && r.text() == "unexpected value in field "@ + decimal(number as nat),
{
    let mut m = String::from_str("unexpected value in field ");
    let n = decimal_string(number);
    m.append(n.as_str());
    Error::Decode(m)
}

fn text_value(v: &WireValue) -> (r: Option<String>)
    ensures
        match text_of(v@) {
            Some(t) => r matches Some(s) && s@ == t,
            None => r is None,
        },
{
    match v {
        WireValue::Bytes(p) => utf8_text(p.as_slice()),
        _ => None,
    }
}

fn fields_or_error(b: &[u8]) -> (r: Result<Vec<Field>, Error>)
    ensures
        match fields_of(b@) {
            Some(fs) => r matches Ok(v) && v@.map_values(|f: Field| f@) == fs,
            None => r matches Err(e) && e is Decode,
        },
{
    match read_fields(b) {
        Some(v) => Ok(v),
        None => Err(malformed()),
    }
}

/// Decodes a session summary.
pub fn decode_session(b: &[u8]) -> (r: Result<SessionSummary, Error>)
    ensures
        match session_of(b@) {
            Some(v) => r matches Ok(x) && x@ == v,
            None => r matches Err(e) && e is Decode,
        },
{
    let fields = fields_or_error(b)?;
    let ghost fs = fields@.map_values(|f: Field| f@);
    let mut id = String::new();
    let mut i: usize = 0;
    while i < fields.len()
        invariant
            fs == fields@.map_values(|f: Field| f@),
            fields_of(b@) == Some(fs),
            i <= fields@.len(),
            fold_fields(fs.take(i as int), Seq::empty(), session_steps()) == Some(id@),
        decreases fields@.len() - i,
    {
        proof {
            lemma_fold_next(fs, Seq::empty(), session_steps(), i as int);
        }
        let f = &fields[i];
        if f.number == 1 {
            match text_value(&f.value) {
                Some(t) => id = t,
                None => {
                    proof {
                        lemma_fold_failed(fs, Seq::empty(), session_steps(), i + 1);
                    }
                    return Err(bad_field(f.number));
                },
            }
        }
        i = i + 1;
    }
    proof {
        lemma_fold_all(fs, Seq::empty(), session_steps());
    }
    Ok(SessionSummary { unique_identifier: id })
}

proof fn lemma_node_failed(fs: Seq<FieldView>, bound: nat, i: int)
    requires
        0 <= i <= fs.len(),
        node_fold(fs.take(i), bound) is None,
    ensures
        node_fold(fs, bound) is None,
    decreases fs.len() - i,
{
    if i < fs.len() {
        assert(fs.take(i + 1).drop_last() =~= fs.take(i));
        lemma_node_failed(fs, bound, i + 1);
    } else {
        assert(fs.take(i) =~= fs);
    }
}

proof fn lemma_link_failed(fs: Seq<FieldView>, bound: nat, i: int)
    requires
        0 <= i <= fs.len(),
        link_fold(fs.take(i), bound) is None,
    ensures
        link_fold(fs, bound) is None,
    decreases fs.len() - i,
{
    if i < fs.len() {
        assert(fs.take(i + 1).drop_last() =~= fs.take(i));
        lemma_link_failed(fs, bound, i + 1);
    } else {
        assert(fs.take(i) =~= fs);
    }
}

/// Decodes the sessions of a split-tree node, in order.
pub fn decode_node(b: &[u8]) -> (r: Result<Vec<SessionSummary>, Error>)
    ensures
        match node_sessions(b@) {
            Some(v) => r matches Ok(x) && sessions_view(x@) == v,
            None => r matches Err(e) && e is Decode,
        },
    decreases b@.len(), 1nat,
{
    let fields = fields_or_error(b)?;
    let ghost fs = fields@.map_values(|f: Field| f@);
    proof {
        lemma_payloads_shorter(b@);
    }
    let mut out: Vec<SessionSummary> = Vec::new();
    assert(sessions_view(out@) =~= Seq::empty());
    let mut i: usize = 0;
    while i < fields.len()
        invariant
            fs == fields@.map_values(|f: Field| f@),
            fields_of(b@) == Some(fs),
            forall|j: int| 0 <= j < fs.len() ==> shorter_than((#[trigger] fs[j]).value, b@.len()),
            i <= fields@.len(),
            node_fold(fs.take(i as int), b@.len()) == Some(sessions_view(out@)),
        decreases fields@.len() - i,
    {
        assert(fs.take(i + 1).drop_last() =~= fs.take(i as int));
        let f = &fields[i];
        assert(fs[i as int] == f@);
        assert(shorter_than(fs[i as int].value, b@.len()));
        if f.number == 2 {
            match &f.value {
                WireValue::Bytes(p) => {
                    match decode_link(p.as_slice()) {
                        Ok(mut more) => {
                            let ghost before = sessions_view(out@);
                            let ghost added = sessions_view(more@);
                            out.append(&mut more);
                            assert(sessions_view(out@) =~= before + added);
                        },
                        Err(e) => {
                            proof {
                                lemma_node_failed(fs, b@.len(), i + 1);
                            }
                            return Err(e);
                        },
                    }
                },
                _ => {
                    proof {
                        lemma_node_failed(fs, b@.len(), i + 1);
                    }
                    return Err(bad_field(f.number));
                },
            }
        }
        i = i + 1;
    }
    assert(fs.take(fs.len() as int) =~= fs);
    Ok(out)
}

/// Decodes the sessions of a split-tree link.
pub fn decode_link(b: &[u8]) -> (r: Result<Vec<SessionSummary>, Error>)
    ensures
        match link_sessions(b@) {
            Some(v) => r matches Ok(x) && sessions_view(x@) == v,
            None => r matches Err(e) && e is Decode,
        },
    decreases b@.len(), 0nat,
{
    let fields = fields_or_error(b)?;
    let ghost fs = fields@.map_values(|f: Field| f@);
    proof {
        lemma_payloads_shorter(b@);
    }
    let mut out: Vec<SessionSummary> = Vec::new();
    assert(sessions_view(out@) =~= Seq::empty());
    let mut i: usize = 0;
    while i < fields.len()
        invariant
            fs == fields@.map_values(|f: Field| f@),
            fields_of(b@) == Some(fs),
            forall|j: int| 0 <= j < fs.len() ==> shorter_than((#[trigger] fs[j]).value, b@.len()),
            i <= fields@.len(),
            link_fold(fs.take(i as int), b@.len()) == Some(sessions_view(out@)),
        decreases fields@.len() - i,
    {
        assert(fs.take(i + 1).drop_last() =~= fs.take(i as int));
        let f = &fields[i];
        assert(fs[i as int] == f@);
        assert(shorter_than(fs[i as int].value, b@.len()));
        if f.number == 1 || f.number == 2 {
            let child = match &f.value {
                WireValue::Bytes(p) => {
                    if f.number == 1 {
                        match decode_session(p.as_slice()) {
                            Ok(s) => {
                                let v = vec![s];
                                assert(sessions_view(v@) =~= seq![v@[0]@]);
                                Ok(v)
                            },
                            Err(e) => Err(e),
                        }
                    } else {
                        decode_node(p.as_slice())
                    }
                },
                _ => Err(bad_field(f.number)),
            };
            match child {
                Ok(v) => out = v,
                Err(e) => {
                    proof {
                        lemma_link_failed(fs, b@.len(), i + 1);
                    }
                    return Err(e);
                },
            }
        }
        i = i + 1;
    }
    assert(fs.take(fs.len() as int) =~= fs);
    Ok(out)
}

/// Decodes a tab and the sessions of its split tree.
pub fn decode_tab(b: &[u8]) -> (r: Result<Tab, Error>)
    ensures
        match tab_of(b@) {
            Some(v) => r matches Ok(x) && x@ == v,
            None => r matches Err(e) && e is Decode,
        },
{
    let fields = fields_or_error(b)?;
    let ghost fs = fields@.map_values(|f: Field| f@);
    let mut t = Tab { tab_id: String::new(), sessions: Vec::new() };
    assert(t@.sessions =~= Seq::empty());
    let mut i: usize = 0;
    while i < fields.len()
        invariant
            fs == fields@.map_values(|f: Field| f@),
            fields_of(b@) == Some(fs),
            i <= fields@.len(),
            fold_fields(fs.take(i as int), empty_tab(), tab_steps()) == Some(t@),
        decreases fields@.len() - i,
    {
        proof {
            lemma_fold_next(fs, empty_tab(), tab_steps(), i as int);
        }
        let f = &fields[i];
        if f.number == 2 {
            match text_value(&f.value) {
                Some(id) => t.tab_id = id,
                None => {
                    proof {
                        lemma_fold_failed(fs, empty_tab(), tab_steps(), i + 1);
                    }
                    return Err(bad_field(f.number));
                },
            }
        } else if f.number == 3 {
            let sessions = match &f.value {
                WireValue::Bytes(p) => decode_node(p.as_slice()),
                _ => Err(bad_field(f.number)),
            };
            match sessions {
                Ok(ss) => t.sessions = ss,
                Err(e) => {
                    proof {
                        lemma_fold_failed(fs, empty_tab(), tab_steps(), i + 1);
                    }
                    return Err(e);
                },
            }
        }
        i = i + 1;
    }
    proof {
        lemma_fold_all(fs, empty_tab(), tab_steps());
    }
    Ok(t)
}

/// Decodes a window and its tabs.
pub fn decode_window(b: &[u8]) -> (r: Result<Window, Error>)
    ensures
        match window_of(b@) {
            Some(v) => r matches Ok(x) && x@ == v,
            None => r matches Err(e) && e is Decode,
        },
{
    let fields = fields_or_error(b)?;
    let ghost fs = fields@.map_values(|f: Field| f@);
    let mut w = Window { window_id: String::new(), tabs: Vec::new() };
    assert(w@.tabs =~= Seq::empty());
    let mut i: usize = 0;
    while i < fields.len()
        invariant
            fs == fields@.map_values(|f: Field| f@),
            fields_of(b@) == Some(fs),
            i <= fields@.len(),
            fold_fields(fs.take(i as int), empty_window(), window_steps()) == Some(w@),
        decreases fields@.len() - i,
    {
        proof {
            lemma_fold_next(fs, empty_window(), window_steps(), i as int);
        }
        let f = &fields[i];
        if f.number == 1 {
            let t = match &f.value {
                WireValue::Bytes(p) => decode_tab(p.as_slice()),
                _ => Err(bad_field(f.number)),
            };
            match t {
                Ok(t) => {
                    let ghost before = w@;
                    w.tabs.push(t);
                    assert(w@.tabs =~= before.tabs.push(t@));
                },
                Err(e) => {
                    proof {
                        lemma_fold_failed(fs, empty_window(), window_steps(), i + 1);
                    }
                    return Err(e);
                },
            }
        } else if f.number == 2 {
            match text_value(&f.value) {
                Some(t) => w.window_id = t,
                None => {
                    proof {
                        lemma_fold_failed(fs, empty_window(), window_steps(), i + 1);
                    }
                    return Err(bad_field(f.number));
                },
            }
        }
        i = i + 1;
    }
    proof {
        lemma_fold_all(fs, empty_window(), window_steps());
    }
    Ok(w)
}

/// Decodes a list-sessions response.
pub fn decode_list_sessions(b: &[u8]) -> (r: Result<ListSessionsResponse, Error>)
    ensures
        match list_of(b@) {
            Some(v) => r matches Ok(x) && x@ == v,
            None => r matches Err(e) && e is Decode,
        },
{
    let fields = fields_or_error(b)?;
    let ghost fs = fields@.map_values(|f: Field| f@);
    let mut l = ListSessionsResponse { windows: Vec::new(), buried_sessions: Vec::new() };
    assert(l@.windows =~= Seq::empty());
    assert(l@.buried_sessions =~= Seq::empty());
    let mut i: usize = 0;
    while i < fields.len()
        invariant
            fs == fields@.map_values(|f: Field| f@),
            fields_of(b@) == Some(fs),
            i <= fields@.len(),
            fold_fields(fs.take(i as int), empty_list(), list_steps()) == Some(l@),
        decreases fields@.len() - i,
    {
        proof {
            lemma_fold_next(fs, empty_list(), list_steps(), i as int);
        }
        let f = &fields[i];
        if f.number == 1 {
            let w = match &f.value {
                WireValue::Bytes(p) => decode_window(p.as_slice()),
                _ => Err(bad_field(f.number)),
            };
            match w {
                Ok(w) => {
                    let ghost before = l@;
                    l.windows.push(w);
                    assert(l@.windows =~= before.windows.push(w@));
                },
                Err(e) => {
                    proof {
                        lemma_fold_failed(fs, empty_list(), list_steps(), i + 1);
                    }
                    return Err(e);
                },
            }
        } else if f.number == 2 {
            let s = match &f.value {
                WireValue::Bytes(p) => decode_session(p.as_slice()),
                _ => Err(bad_field(f.number)),
            };
            match s {
                Ok(s) => {
                    let ghost before = l@;
                    l.buried_sessions.push(s);
                    assert(l@.buried_sessions =~= before.buried_sessions.push(s@));
                },
                Err(e) => {
                    proof {
                        lemma_fold_failed(fs, empty_list(), list_steps(), i + 1);
                    }
                    return Err(e);
                },
            }
        }
        i = i + 1;
    }
    proof {
        lemma_fold_all(fs, empty_list(), list_steps());
    }
    Ok(l)
}

/// Decodes a create-tab response.
pub fn decode_create_tab(b: &[u8]) -> (r: Result<CreateTabResponse, Error>)
    ensures
        match create_tab_of(b@) {
            Some(v) => r matches Ok(x) && x@ == v,
            None => r matches Err(e) && e is Decode,
        },
{
    let fields = fields_or_error(b)?;
    let ghost fs = fields@.map_values(|f: Field| f@);
    let mut c = CreateTabResponse {
        status: 0,
        window_id: String::new(),
        session_id: String::new(),
    };
    let mut i: usize = 0;
    while i < fields.len()
        invariant
            fs == fields@.map_values(|f: Field| f@),
            fields_of(b@) == Some(fs),
            i <= fields@.len(),
            fold_fields(fs.take(i as int), empty_create_tab(), create_tab_steps()) == Some(c@),
        decreases fields@.len() - i,
    {
        proof {
            lemma_fold_next(fs, empty_create_tab(), create_tab_steps(), i as int);
        }
        let f = &fields[i];
        if f.number == 1 {
            match &f.value {
                WireValue::Varint(v) => c.status = *v,
                _ => {
                    proof {
                        lemma_fold_failed(fs, empty_create_tab(), create_tab_steps(), i + 1);
                    }
                    return Err(bad_field(f.number));
                },
            }
        } else if f.number == 2 || f.number == 4 {
            match text_value(&f.value) {
                Some(t) => {
                    if f.number == 2 {
                        c.window_id = t;
                    } else {
                        c.session_id = t;
                    }
                },
                None => {
                    proof {
                        lemma_fold_failed(fs, empty_create_tab(), create_tab_steps(), i + 1);
                    }
                    return Err(bad_field(f.number));
                },
            }
        }
        i = i + 1;
    }
    proof {
        lemma_fold_all(fs, empty_create_tab(), create_tab_steps());
    }
    Ok(c)
}

/// Decodes a send-text response.
pub fn decode_send_text(b: &[u8]) -> (r: Result<SendTextResponse, Error>)
    ensures
        match send_text_of(b@) {
            Some(v) => r matches Ok(x) && x.status == v,
            None => r matches Err(e) && e is Decode,
        },
{
    let fields = fields_or_error(b)?;
    let ghost fs = fields@.map_values(|f: Field| f@);
    let mut status: u64 = 0;
    let mut i: usize = 0;
    while i < fields.len()
        invariant
            fs == fields@.map_values(|f: Field| f@),
            fields_of(b@) == Some(fs),
            i <= fields@.len(),
            fold_fields(fs.take(i as int), 0u64, send_text_steps()) == Some(status),
        decreases fields@.len() - i,
    {
        proof {
            lemma_fold_next(fs, 0u64, send_text_steps(), i as int);
        }
        let f = &fields[i];
        if f.number == 1 {
            match &f.value {
                WireValue::Varint(v) => status = *v,
                _ => {
                    proof {
                        lemma_fold_failed(fs, 0u64, send_text_steps(), i + 1);
                    }
                    return Err(bad_field(f.number));
                },
            }
        }
        i = i + 1;
    }
    proof {
        lemma_fold_all(fs, 0u64, send_text_steps());
    }
    Ok(SendTextResponse { status })
}

/// Decodes one frame from the application into a response.
///
/// A frame that does not conform to the schema (truncated, an unknown wire
/// type, a field of the wrong wire type, text that is not UTF-8) gives a
/// decode error; nothing else does.
pub fn decode_response(b: &[u8]) -> (r: Result<Response, Error>)
    ensures
        match response_of(b@) {
            Some(v) => r matches Ok(x) && x@ == v,
            None => r matches Err(e) && e is Decode,
        },
{
    let fields = fields_or_error(b)?;
    let ghost fs = fields@.map_values(|f: Field| f@);
    let mut resp = Response::Empty;
    let mut i: usize = 0;
    while i < fields.len()
        invariant
            fs == fields@.map_values(|f: Field| f@),
            fields_of(b@) == Some(fs),
            i <= fields@.len(),
            fold_fields(fs.take(i as int), ResponseView::Empty, response_steps()) == Some(
                resp@,
            ),
        decreases fields@.len() - i,
    {
        proof {
            lemma_fold_next(fs, ResponseView::Empty, response_steps(), i as int);
        }
        let f = &fields[i];
        let step: Result<Option<Response>, Error> = if f.number == ID_FIELD {
            match &f.value {
                WireValue::Varint(_) => Ok(None),
                _ => Err(bad_field(f.number)),
            }
        } else if f.number == ERROR_FIELD {
            match text_value(&f.value) {
                Some(t) => Ok(Some(Response::ServerError(t))),
                None => Err(bad_field(f.number)),
            }
        } else if f.number == LIST_SESSIONS_FIELD || f.number == SEND_TEXT_FIELD || f.number
            == CREATE_TAB_FIELD {
            match &f.value {
                WireValue::Bytes(p) => {
                    if f.number == LIST_SESSIONS_FIELD {
                        match decode_list_sessions(p.as_slice()) {
                            Ok(l) => Ok(Some(Response::ListSessions(l))),
                            Err(e) => Err(e),
                        }
                    } else if f.number == SEND_TEXT_FIELD {
                        match decode_send_text(p.as_slice()) {
                            Ok(s) => Ok(Some(Response::SendText(s))),
                            Err(e) => Err(e),
                        }
                    } else {
                        match decode_create_tab(p.as_slice()) {
                            Ok(c) => Ok(Some(Response::CreateTab(c))),
                            Err(e) => Err(e),
                        }
                    }
                },
                _ => Err(bad_field(f.number)),
            }
        } else if f.number >= FIRST_SUBMESSAGE_FIELD {
            Ok(Some(Response::Other(f.number)))
        } else {
            Ok(None)
        };
        match step {
            Ok(Some(next)) => resp = next,
            Ok(None) => {},
            Err(e) => {
                proof {
                    lemma_fold_failed(fs, ResponseView::Empty, response_steps(), i + 1);
                }
                return Err(e);
            },
        }
        i = i + 1;
    }
    proof {
        lemma_fold_all(fs, ResponseView::Empty, response_steps());
    }
    Ok(resp)
}

/// A frame whose first key is corrupt is no response: a key of field number
/// zero, or of a wire type the schema does not know (3, 4, 6 or 7).
pub proof fn lemma_corrupt_key_rejected(b: Seq<u8>, key: u64, n: nat)
    requires
        varint_at(b) == Some((key, n)),
        key / 8 == 0 || key % 8 == 3 || key % 8 == 4 || key % 8 == 6 || key % 8 == 7,
    ensures
        response_of(b) is None,
{
    assert(field_at(b) is None);
}

/// A frame that ends inside its first field is no response: its key is
/// unterminated, or the length of its first length-delimited field runs past
/// the end of the frame.
pub proof fn lemma_truncated_rejected(b: Seq<u8>)
    requires
        b.len() > 0,
        varint_at(b) is None || (varint_at(b) matches Some((key, n)) && (key % 8 == 2 && (
        varint_at(b.subrange(n as int, b.len() as int)) matches Some((len, ln)) && n + ln + len
            > b.len()))),
    ensures
        response_of(b) is None,
{
    lemma_varint_within(b, 0);
    assert(field_at(b) is None);
}

/// A length-delimited field, as written by `write_bytes_field`, reads back as
/// that one field.
pub proof fn lemma_bytes_field_read_back(number: u64, p: Seq<u8>)
    requires
        1 <= number <= MAX_FIELD_NUMBER,
        p.len() <= u64::MAX,
    ensures
        fields_of(bytes_field(number, p)) == Some(
            seq![FieldView { number, value: WireValueView::Bytes(p) }],
        ),
{
    let key = (number * 8 + 2) as u64;
    let len = p.len() as u64;
    let kb = varint_bytes(key as nat);
    let lb = varint_bytes(len as nat);
    let frame = bytes_field(number, p);
    assert(frame =~= kb + (lb + p));
    lemma_varint_round_trip(key, lb + p);
    lemma_varint_round_trip(len, p);
    let rest = frame.subrange(kb.len() as int, frame.len() as int);
    assert(rest =~= lb + p);
    assert(rest.subrange(lb.len() as int, lb.len() + len) =~= p);
    let f = FieldView { number, value: WireValueView::Bytes(p) };
    assert(field_at(frame) == Some((f, frame.len())));
    let tail = frame.subrange(frame.len() as int, frame.len() as int);
    assert(tail =~= Seq::<u8>::empty());
    assert(fields_of(tail) == Some(Seq::<FieldView>::empty()));
    assert(seq![f] + Seq::<FieldView>::empty() =~= seq![f]);
}

/// A frame of one length-delimited field, which is what every response is,
/// cut short anywhere is no response: it decodes to a decode error.
pub proof fn lemma_truncated_frame_rejected(number: u64, p: Seq<u8>, keep: nat)
    requires
        1 <= number <= MAX_FIELD_NUMBER,
        p.len() <= u64::MAX,
        0 < keep < bytes_field(number, p).len(),
    ensures
        response_of(bytes_field(number, p).take(keep as int)) is None,
{
    let key = (number * 8 + 2) as u64;
    let len = p.len() as u64;
    let kb = varint_bytes(key as nat);
    let lb = varint_bytes(len as nat);
    let frame = bytes_field(number, p);
    let t = frame.take(keep as int);
    assert(frame =~= kb + (lb + p));
    if keep < kb.len() {
        assert(t =~= kb.take(keep as int));
        lemma_varint_cut_short(key, keep);
    } else {
        let kn = kb.len();
        let after = t.subrange(kn as int, keep as int);
        assert(t =~= kb + after);
        lemma_varint_round_trip(key, after);
        if keep < kn + lb.len() {
            assert(after =~= lb.take(keep - kn));
            lemma_varint_cut_short(len, (keep - kn) as nat);
        } else {
            let part = p.take(keep - kn - lb.len());
            assert(after =~= lb + part);
            lemma_varint_round_trip(len, part);
        }
    }
    assert(field_at(t) is None);
}

} // verus!
