//! The state and the answers of a local OnlineSim stand-in for tests.
//!
//! [`MockState`] holds what the stand-in knows (balance, scripted SMS,
//! operations); [`MockState::handle`] answers one API call with the JSON body
//! OnlineSim would send, updating the state the way the real service does:
//! ordering a number opens an operation, polling its state counts polls and
//! delivers the scripted code, closing ends it. The HTTP server around it,
//! and saving the state to a file, belong to the caller.
use vstd::prelude::*;

use crate::config::DEFAULT_COUNTRY;
use crate::json::{jv, jv_entries, jv_items, json_i64, json_str, lemma_jv_entries, lemma_jv_items, obj_get, Json, JsonV};
use crate::text::{all_digits, cat, cat3, format_i64, int_text, is_digit, lemma_parse_format_i64, owned, parse_i64, parse_i64_spec, str_eq, strip_prefix, strip_prefix_spec, trim_end_pat, trim_end_pat_spec};
use crate::util::{opt_view, pairs_view};

verus! {

// ---------------------------------------------------------------------------
// State
// ---------------------------------------------------------------------------

/// Script describing one mocked SMS purchase and delivery.
#[derive(Debug, Clone)]
pub struct SmsScript {
    /// Service slug expected on `getNum` (first matching unused script wins).
    pub service: String,
    /// Phone number returned when `number=true`.
    pub number: String,
    /// Country dial code.
    pub country: i64,
    /// SMS code delivered after `polls_before_code` empty polls.
    pub code: String,
    /// How many `getState` calls return `TZ_NUM_WAIT` without `msg` before delivering.
    pub polls_before_code: u32,
    /// Price string for `getPrice`.
    pub price: String,
}

/// The abstract content of an [`SmsScript`].
pub struct SmsScriptV {
    pub service: Seq<char>,
    pub number: Seq<char>,
    pub country: i64,
    pub code: Seq<char>,
    pub polls_before_code: u32,
    pub price: Seq<char>,
}

impl View for SmsScript {
    type V = SmsScriptV;

    open spec fn view(&self) -> SmsScriptV {
        SmsScriptV {
            service: self.service@,
            number: self.number@,
            country: self.country,
            code: self.code@,
            polls_before_code: self.polls_before_code,
            price: self.price@,
        }
    }
}

/// The script used when none is queued: service `telegram`, number
/// `+19001234567`, the default country, code `123456`, delivered at the
/// first poll, price `10`.
pub open spec fn default_script() -> SmsScriptV {
    SmsScriptV {
        service: "telegram"@,
        number: "+19001234567"@,
        country: DEFAULT_COUNTRY,
        code: "123456"@,
        polls_before_code: 0,
        price: "10"@,
    }
}

impl SmsScript {
    /// The default script.
    pub fn new_default() -> (r: SmsScript)
        ensures
            r@ == default_script(),
    {
        SmsScript {
            service: owned("telegram"),
            number: owned("+19001234567"),
            country: DEFAULT_COUNTRY,
            code: owned("123456"),
            polls_before_code: 0,
            price: owned("10"),
        }
    }
}

impl Default for SmsScript {
    fn default() -> (r: SmsScript)
        ensures
            r@ == default_script(),
    {
        SmsScript::new_default()
    }
}

/// One operation (a temporary number or a rent) known to the stand-in.
#[derive(Debug, Clone)]
pub struct Operation {
    /// Service slug (`rent` for a rented number).
    pub service: String,
    /// Phone number.
    pub number: String,
    /// Country dial code.
    pub country: i64,
    /// Code delivered once enough polls were made.
    pub code: String,
    /// `getState` polls made so far.
    pub polls: u32,
    /// Polls answered without a code.
    pub polls_before_code: u32,
    /// Whether the operation was closed.
    pub closed: bool,
}

/// The abstract content of an [`Operation`].
pub struct OperationV {
    pub service: Seq<char>,
    pub number: Seq<char>,
    pub country: i64,
    pub code: Seq<char>,
    pub polls: u32,
    pub polls_before_code: u32,
    pub closed: bool,
}

impl View for Operation {
    type V = OperationV;

    open spec fn view(&self) -> OperationV {
        OperationV {
            service: self.service@,
            number: self.number@,
            country: self.country,
            code: self.code@,
            polls: self.polls,
            polls_before_code: self.polls_before_code,
            closed: self.closed,
        }
    }
}

/// The views of scripts.
pub open spec fn scripts_view(s: Seq<SmsScript>) -> Seq<SmsScriptV> {
    s.map_values(|x: SmsScript| x@)
}

/// The views of operations.
pub open spec fn ops_view(s: Seq<(i64, Operation)>) -> Seq<(i64, OperationV)> {
    s.map_values(|p: (i64, Operation)| (p.0, p.1@))
}

/// The views of strings.
pub open spec fn strs_view(s: Seq<String>) -> Seq<Seq<char>> {
    s.map_values(|x: String| x@)
}

/// What the stand-in knows.
#[derive(Debug)]
pub struct MockState {
    /// Balance (a JSON number).
    pub balance: Json,
    /// Frozen balance (a JSON number).
    pub zbalance: Json,
    /// Income (a JSON number).
    pub income: Json,
    /// If set, the next `getBalance` answers this API error code (once).
    pub balance_error: Option<String>,
    /// Profile webhook URL.
    pub webhook_url: Option<String>,
    /// The id the next operation receives.
    pub next_tzid: i64,
    /// Queued SMS scripts.
    pub scripts: Vec<SmsScript>,
    /// Operations by id, each id once.
    pub ops: Vec<(i64, Operation)>,
    /// Services for which `getNum` answers `NO_NUMBER`.
    pub no_number_for: Vec<String>,
}

/// The abstract content of a [`MockState`].
pub struct MockStateV {
    pub balance: JsonV,
    pub zbalance: JsonV,
    pub income: JsonV,
    pub balance_error: Option<Seq<char>>,
    pub webhook_url: Option<Seq<char>>,
    pub next_tzid: i64,
    pub scripts: Seq<SmsScriptV>,
    pub ops: Seq<(i64, OperationV)>,
    pub no_number_for: Seq<Seq<char>>,
}

impl View for MockState {
    type V = MockStateV;

    open spec fn view(&self) -> MockStateV {
        MockStateV {
            balance: self.balance@,
            zbalance: self.zbalance@,
            income: self.income@,
            balance_error: opt_view(self.balance_error),
            webhook_url: opt_view(self.webhook_url),
            next_tzid: self.next_tzid,
            scripts: scripts_view(self.scripts@),
            ops: ops_view(self.ops@),
            no_number_for: strs_view(self.no_number_for@),
        }
    }
}

/// Each operation id occurs once.
pub open spec fn ids_distinct(ops: Seq<(i64, OperationV)>) -> bool {
    forall|i: int, j: int| 0 <= i < j < ops.len() ==> (#[trigger] ops[i]).0 != (#[trigger] ops[j]).0
}

impl MockState {
    /// Operation ids are unique.
    pub open spec fn wf(&self) -> bool {
        ids_distinct(self@.ops)
    }

    /// A fresh stand-in: balance `100.0`, frozen `0.0`, income `25.0`, no
    /// webhook, first operation id `1000`, nothing queued.
    pub fn fresh() -> (r: MockState)
        ensures
            r.wf(),
            r@.balance == JsonV::Number("100.0"@),
            r@.zbalance == JsonV::Number("0.0"@),
            r@.income == JsonV::Number("25.0"@),
            r@.balance_error is None,
            r@.webhook_url is None,
            r@.next_tzid == 1000,
            r@.scripts.len() == 0,
            r@.ops.len() == 0,
            r@.no_number_for.len() == 0,
    {
        MockState {
            balance: Json::Number(owned("100.0")),
            zbalance: Json::Number(owned("0.0")),
            income: Json::Number(owned("25.0")),
            balance_error: None,
            webhook_url: None,
            next_tzid: 1000,
            scripts: Vec::new(),
            ops: Vec::new(),
            no_number_for: Vec::new(),
        }
    }
}

// ---------------------------------------------------------------------------
// Queries and operations
// ---------------------------------------------------------------------------

/// The value of query parameter `key` (the last one when repeated).
pub open spec fn qget(q: Seq<(Seq<char>, Seq<char>)>, key: Seq<char>) -> Option<Seq<char>>
    decreases q.len(),
{
    if q.len() == 0 {
        None
    } else if q.last().0 == key {
        Some(q.last().1)
    } else {
        qget(q.drop_last(), key)
    }
}

/// The value of query parameter `key` (the last one when repeated).
pub fn query_get(query: &Vec<(String, String)>, key: &str) -> (r: Option<String>)
    ensures
        opt_view(r) == qget(pairs_view(query@), key@),
{
    let ghost qv = pairs_view(query@);
    let mut found: Option<String> = None;
    let mut i: usize = 0;
    assert(qv.take(0) =~= Seq::<(Seq<char>, Seq<char>)>::empty());
    while i < query.len()
        invariant
            i <= query.len(),
            qv == pairs_view(query@),
            opt_view(found) == qget(qv.take(i as int), key@),
        decreases query.len() - i,
    {
        assert(qv.take(i + 1).drop_last() == qv.take(i as int));
        assert(qv.take(i + 1).last() == (query@[i as int].0@, query@[i as int].1@));
        if str_eq(query[i].0.as_str(), key) {
            found = Some(query[i].1.clone());
        }
        i = i + 1;
    }
    assert(qv.take(i as int) == qv);
    found
}

/// Query parameter `key` read as an integer.
pub open spec fn qget_i64(q: Seq<(Seq<char>, Seq<char>)>, key: Seq<char>) -> Option<i64> {
    match qget(q, key) {
        Some(s) => parse_i64_spec(s),
        None => None,
    }
}

/// Query parameter `key` read as an integer.
pub fn query_i64(query: &Vec<(String, String)>, key: &str) -> (r: Option<i64>)
    ensures
        r == qget_i64(pairs_view(query@), key@),
{
    match query_get(query, key) {
        Some(s) => parse_i64(s.as_str()),
        None => None,
    }
}

/// Position of operation `id`.
pub open spec fn op_pos(ops: Seq<(i64, OperationV)>, id: i64) -> Option<int>
    decreases ops.len(),
{
    if ops.len() == 0 {
        None
    } else if ops.last().0 == id {
        Some(ops.len() - 1)
    } else {
        op_pos(ops.drop_last(), id)
    }
}

/// `op_pos` finds the operation of that id.
pub proof fn lemma_op_pos(ops: Seq<(i64, OperationV)>, id: i64)
    ensures
        op_pos(ops, id) matches Some(i) ==> 0 <= i < ops.len() && ops[i].0 == id,
        op_pos(ops, id) is None ==> forall|j: int| 0 <= j < ops.len() ==> (#[trigger] ops[j]).0 != id,
    decreases ops.len(),
{
    if ops.len() > 0 {
        let d = ops.drop_last();
        lemma_op_pos(d, id);
        assert forall|j: int| 0 <= j < d.len() implies #[trigger] d[j] == ops[j] by {}
        assert(ops.last() == ops[ops.len() - 1]);
        if op_pos(ops, id) is None {
            assert forall|j: int| 0 <= j < ops.len() implies (#[trigger] ops[j]).0 != id by {
                if j < d.len() {
                    assert(d[j] == ops[j]);
                }
            }
        }
    }
}

/// The operations after storing `op` under `id`: it replaces the
/// operation of that id, or is appended.
pub open spec fn put_op(ops: Seq<(i64, OperationV)>, id: i64, op: OperationV) -> Seq<(i64, OperationV)> {
    match op_pos(ops, id) {
        Some(i) => ops.update(i, (id, op)),
        None => ops.push((id, op)),
    }
}

/// Storing an operation keeps ids unique.
pub proof fn lemma_put_op_distinct(ops: Seq<(i64, OperationV)>, id: i64, op: OperationV)
    requires
        ids_distinct(ops),
    ensures
        ids_distinct(put_op(ops, id, op)),
        op_pos(put_op(ops, id, op), id) matches Some(i) && put_op(ops, id, op)[i] == (id, op),
{
    lemma_op_pos(ops, id);
    let r = put_op(ops, id, op);
    lemma_op_pos(r, id);
    match op_pos(ops, id) {
        Some(i) => {
            assert forall|a: int, b: int| 0 <= a < b < r.len() implies (#[trigger] r[a]).0 != (#[trigger] r[b]).0 by {
                assert(ops[a].0 != ops[b].0);
            }
            match op_pos(r, id) {
                Some(k) => {
                    if k != i {
                        assert(r[k] == ops[k]);
                        assert(ops[k].0 != ops[i].0);
                    }
                },
                None => {
                    assert(r[i].0 == id);
                },
            }
        },
        None => {
            assert forall|a: int, b: int| 0 <= a < b < r.len() implies (#[trigger] r[a]).0 != (#[trigger] r[b]).0 by {
                if b == ops.len() {
                    assert(r[a] == ops[a]);
                } else {
                    assert(r[a] == ops[a]);
                    assert(r[b] == ops[b]);
                }
            }
            match op_pos(r, id) {
                Some(k) => {
                    if k < ops.len() {
                        assert(r[k] == ops[k]);
                    }
                },
                None => {
                    assert(r[ops.len() as int].0 == id);
                },
            }
        },
    }
}

/// Position of operation `id`.
pub fn find_op(ops: &Vec<(i64, Operation)>, id: i64) -> (r: Option<usize>)
    ensures
        match r {
            Some(i) => op_pos(ops_view(ops@), id) == Some(i as int),
            None => op_pos(ops_view(ops@), id) is None,
        },
{
    let ghost ov = ops_view(ops@);
    let mut found: Option<usize> = None;
    let mut i: usize = 0;
    assert(ov.take(0) =~= Seq::<(i64, OperationV)>::empty());
    while i < ops.len()
        invariant
            i <= ops.len(),
            ov == ops_view(ops@),
            match found {
                Some(k) => op_pos(ov.take(i as int), id) == Some(k as int),
                None => op_pos(ov.take(i as int), id) is None,
            },
        decreases ops.len() - i,
    {
        assert(ov.take(i + 1).drop_last() == ov.take(i as int));
        assert(ov.take(i + 1).last() == ov[i as int]);
        if ops[i].0 == id {
            found = Some(i);
        }
        i = i + 1;
    }
    assert(ov.take(i as int) == ov);
    found
}

// ---------------------------------------------------------------------------
// JSON building blocks
// ---------------------------------------------------------------------------

/// A JSON string.
pub open spec fn js(s: Seq<char>) -> JsonV {
    JsonV::String(s)
}

/// A JSON integer.
pub open spec fn ji(n: int) -> JsonV {
    JsonV::Number(int_text(n))
}

/// A JSON number given by its text.
pub open spec fn jn(t: Seq<char>) -> JsonV {
    JsonV::Number(t)
}

/// An object member.
fn mem(key: &str, v: Json) -> (r: (String, Json))
    ensures
        r.0@ == key@,
        r.1@ == v@,
{
    (owned(key), v)
}

/// A JSON number given by its text.
fn num(t: &str) -> (r: Json)
    ensures
        r@ == jn(t@),
{
    Json::Number(owned(t))
}

/// An operation as stored: its script's data, no polls yet, open.
pub open spec fn op_of(s: SmsScriptV) -> OperationV {
    OperationV {
        service: s.service,
        number: s.number,
        country: s.country,
        code: s.code,
        polls: 0,
        polls_before_code: s.polls_before_code,
        closed: false,
    }
}

/// The answer `{"response": code}`.
pub open spec fn status_body(code: JsonV) -> JsonV {
    JsonV::Object(seq![("response"@, code)])
}

/// The answer `{"response": code}`.
fn status(code: Json) -> (r: Json)
    ensures
        r@ == status_body(code@),
{
    let e = vec![mem("response", code)];
    proof {
        lemma_jv_entries(e@);
        assert(jv_entries(e@) =~= seq![("response"@, code@)]);
    }
    Json::Object(e)
}


// ---------------------------------------------------------------------------
// Balance, price, numbers
// ---------------------------------------------------------------------------

/// The `getBalance` body.
pub open spec fn balance_body(s: MockStateV) -> JsonV {
    JsonV::Object(
        seq![
            ("response"@, js("1"@)),
            ("balance"@, s.balance),
            ("zbalance"@, s.zbalance),
            ("income"@, s.income),
            ("income_usd"@, s.income),
        ],
    )
}

/// `getBalance`: the queued error once, else the balance.
pub open spec fn balance_step(s: MockStateV) -> (MockStateV, JsonV) {
    match s.balance_error {
        Some(c) => (MockStateV { balance_error: None, ..s }, status_body(js(c))),
        None => (s, balance_body(s)),
    }
}

/// Position of the first script for `service`.
pub open spec fn script_pos(scripts: Seq<SmsScriptV>, service: Seq<char>) -> Option<int>
    decreases scripts.len(),
{
    if scripts.len() == 0 {
        None
    } else {
        match script_pos(scripts.drop_last(), service) {
            Some(i) => Some(i),
            None => if scripts.last().service == service {
                Some(scripts.len() - 1)
            } else {
                None
            },
        }
    }
}

proof fn lemma_script_pos(scripts: Seq<SmsScriptV>, service: Seq<char>)
    ensures
        script_pos(scripts, service) matches Some(i) ==> 0 <= i < scripts.len(),
    decreases scripts.len(),
{
    if scripts.len() > 0 {
        lemma_script_pos(scripts.drop_last(), service);
    }
}

proof fn lemma_script_pos_prefix(scripts: Seq<SmsScriptV>, service: Seq<char>, n: int)
    requires
        0 <= n <= scripts.len(),
        script_pos(scripts.take(n), service) is Some,
    ensures
        script_pos(scripts, service) == script_pos(scripts.take(n), service),
    decreases scripts.len() - n,
{
    if n < scripts.len() {
        assert(scripts.drop_last().take(n) == scripts.take(n));
        lemma_script_pos_prefix(scripts.drop_last(), service, n);
    } else {
        assert(scripts.take(n) == scripts);
    }
}

/// Position of the first script for `service`.
fn find_script(scripts: &Vec<SmsScript>, service: &str) -> (r: Option<usize>)
    ensures
        match r {
            Some(i) => script_pos(scripts_view(scripts@), service@) == Some(i as int),
            None => script_pos(scripts_view(scripts@), service@) is None,
        },
{
    let ghost sv = scripts_view(scripts@);
    let mut i: usize = 0;
    assert(sv.take(0) =~= Seq::<SmsScriptV>::empty());
    while i < scripts.len()
        invariant
            i <= scripts.len(),
            sv == scripts_view(scripts@),
            script_pos(sv.take(i as int), service@) is None,
        decreases scripts.len() - i,
    {
        assert(sv.take(i + 1).drop_last() == sv.take(i as int));
        assert(sv.take(i + 1).last() == scripts@[i as int]@);
        if str_eq(scripts[i].service.as_str(), service) {
            proof {
                lemma_script_pos_prefix(sv, service@, i + 1);
            }
            return Some(i);
        }
        i = i + 1;
    }
    assert(sv.take(i as int) == sv);
    None
}

/// The service a query names, or `dflt`.
pub open spec fn service_or(q: Seq<(Seq<char>, Seq<char>)>, dflt: Seq<char>) -> Seq<char> {
    match qget(q, "service"@) {
        Some(s) => s,
        None => dflt,
    }
}

/// The `getPrice` body: the price of the first script for the service,
/// else `10`.
pub open spec fn price_body(s: MockStateV, q: Seq<(Seq<char>, Seq<char>)>) -> JsonV {
    let service = service_or(q, ""@);
    let price = match script_pos(s.scripts, service) {
        Some(i) => s.scripts[i].price,
        None => "10"@,
    };
    JsonV::Object(seq![("response"@, js("1"@)), ("price"@, js(price))])
}

/// Whether `v` holds `s`.
pub open spec fn holds(v: Seq<Seq<char>>, s: Seq<char>) -> bool {
    exists|i: int| 0 <= i < v.len() && v[i] == s
}

fn contains_str(v: &Vec<String>, s: &str) -> (r: bool)
    ensures
        r == holds(strs_view(v@), s@),
{
    let ghost sv = strs_view(v@);
    let mut i: usize = 0;
    while i < v.len()
        invariant
            i <= v.len(),
            sv == strs_view(v@),
            forall|j: int| 0 <= j < i ==> sv[j] != s@,
        decreases v.len() - i,
    {
        if str_eq(v[i].as_str(), s) {
            assert(sv[i as int] == s@);
            return true;
        }
        i = i + 1;
    }
    false
}

/// The script `getNum` consumes: the first one for the service, else the
/// first one queued.
pub open spec fn chosen_script(scripts: Seq<SmsScriptV>, service: Seq<char>) -> Option<int> {
    match script_pos(scripts, service) {
        Some(i) => Some(i),
        None => if scripts.len() > 0 {
            Some(0)
        } else {
            None
        },
    }
}

/// The script an order follows (the default one for the service when none
/// is queued).
pub open spec fn script_for(scripts: Seq<SmsScriptV>, service: Seq<char>) -> SmsScriptV {
    match chosen_script(scripts, service) {
        Some(i) => scripts[i],
        None => SmsScriptV { service, ..default_script() },
    }
}

/// The queue after an order.
pub open spec fn scripts_after(scripts: Seq<SmsScriptV>, service: Seq<char>) -> Seq<SmsScriptV> {
    match chosen_script(scripts, service) {
        Some(i) => scripts.remove(i),
        None => scripts,
    }
}

/// Whether the order asks for the number (`number=true` or `number=1`).
pub open spec fn wants_number(q: Seq<(Seq<char>, Seq<char>)>) -> bool {
    qget(q, "number"@) == Some("true"@) || qget(q, "number"@) == Some("1"@)
}

/// The `getNum` body for operation `tzid`.
pub open spec fn num_body(tzid: i64, sc: SmsScriptV, with_number: bool) -> JsonV {
    if with_number {
        JsonV::Object(
            seq![
                ("response"@, ji(1)),
                ("tzid"@, ji(tzid as int)),
                ("number"@, js(sc.number)),
                ("country"@, ji(sc.country as int)),
                ("time"@, ji(900)),
                ("service"@, js(sc.service)),
                ("title"@, js(sc.service)),
                ("response_text"@, js("waiting"@)),
                ("guard_interval_remaining_seconds"@, ji(0)),
            ],
        )
    } else {
        JsonV::Object(seq![("response"@, ji(1)), ("tzid"@, ji(tzid as int))])
    }
}

/// `getNum` / `getNumRepeat`: `NO_NUMBER` for a blocked service; otherwise
/// a new operation under the next id, following the chosen script.
pub open spec fn get_num_step(s: MockStateV, q: Seq<(Seq<char>, Seq<char>)>) -> (MockStateV, JsonV) {
    let service = service_or(q, "telegram"@);
    if holds(s.no_number_for, service) {
        (s, status_body(js("NO_NUMBER"@)))
    } else {
        let sc = script_for(s.scripts, service);
        let tzid = s.next_tzid;
        (
            MockStateV {
                scripts: scripts_after(s.scripts, service),
                next_tzid: (tzid + 1) as i64,
                ops: put_op(s.ops, tzid, op_of(sc)),
                ..s
            },
            num_body(tzid, sc, wants_number(q)),
        )
    }
}

/// Appends an operation to the list, or replaces the one of that id.
fn store_op(ops: &mut Vec<(i64, Operation)>, id: i64, op: Operation)
    ensures
        ops_view(final(ops)@) == put_op(ops_view(old(ops)@), id, op@),
{
    let ghost ov = op@;
    proof {
        lemma_op_pos(ops_view(old(ops)@), id);
    }
    match find_op(ops, id) {
        Some(i) => {
            ops.set(i, (id, op));
            assert(ops_view(ops@) =~= ops_view(old(ops)@).update(i as int, (id, ov)));
        },
        None => {
            ops.push((id, op));
            assert(ops_view(ops@) =~= ops_view(old(ops)@).push((id, ov)));
        },
    }
}

impl MockState {
    /// `getBalance`.
    pub fn handle_balance(&mut self) -> (r: Json)
        requires
            old(self).wf(),
        ensures
            final(self).wf(),
            (final(self)@, r@) == balance_step(old(self)@),
    {
        match self.balance_error.take() {
            Some(code) => status(Json::String(code)),
            None => {
                let e = vec![
                    mem("response", json_str("1")),
                    mem("balance", crate::json::clone_json(&self.balance)),
                    mem("zbalance", crate::json::clone_json(&self.zbalance)),
                    mem("income", crate::json::clone_json(&self.income)),
                    mem("income_usd", crate::json::clone_json(&self.income)),
                ];
                proof {
                    lemma_jv_entries(e@);
                    assert(jv_entries(e@) =~= balance_body(self@)->Object_0);
                }
                Json::Object(e)
            },
        }
    }

    /// `getPrice`.
    pub fn handle_price(&self, query: &Vec<(String, String)>) -> (r: Json)
        ensures
            r@ == price_body(self@, pairs_view(query@)),
    {
        let service = match query_get(query, "service") {
            Some(s) => s,
            None => owned(""),
        };
        let price = match find_script(&self.scripts, service.as_str()) {
            Some(i) => {
                proof {
                    lemma_script_pos(scripts_view(self.scripts@), service@);
                }
                self.scripts[i].price.clone()
            },
            None => owned("10"),
        };
        let e = vec![mem("response", json_str("1")), mem("price", Json::String(price))];
        proof {
            lemma_jv_entries(e@);
            assert(jv_entries(e@) =~= price_body(self@, pairs_view(query@))->Object_0);
        }
        Json::Object(e)
    }

    /// `getNum` / `getNumRepeat`.
    pub fn handle_get_num(&mut self, query: &Vec<(String, String)>) -> (r: Json)
        requires
            old(self).wf(),
            old(self).next_tzid < i64::MAX,
        ensures
            final(self).wf(),
            (final(self)@, r@) == get_num_step(old(self)@, pairs_view(query@)),
    {
        let service = match query_get(query, "service") {
            Some(s) => s,
            None => owned("telegram"),
        };
        if contains_str(&self.no_number_for, service.as_str()) {
            return status(json_str("NO_NUMBER"));
        }
        proof {
            lemma_script_pos(scripts_view(self.scripts@), service@);
        }
        let idx = match find_script(&self.scripts, service.as_str()) {
            Some(i) => Some(i),
            None => if self.scripts.len() > 0 {
                Some(0)
            } else {
                None
            },
        };
        let ghost sv0 = scripts_view(self.scripts@);
        let script = match idx {
            Some(i) => {
                let sc = self.scripts.remove(i);
                assert(scripts_view(self.scripts@) =~= sv0.remove(i as int));
                sc
            },
            None => SmsScript {
                service: service.clone(),
                number: owned("+19001234567"),
                country: DEFAULT_COUNTRY,
                code: owned("123456"),
                polls_before_code: 0,
                price: owned("10"),
            },
        };
        let tzid = self.next_tzid;
        self.next_tzid = tzid + 1;
        let op = Operation {
            service: script.service.clone(),
            number: script.number.clone(),
            country: script.country,
            code: script.code.clone(),
            polls: 0,
            polls_before_code: script.polls_before_code,
            closed: false,
        };
        proof {
            lemma_put_op_distinct(ops_view(self.ops@), tzid, op@);
        }
        store_op(&mut self.ops, tzid, op);
        let number_flag = query_get(query, "number");
        let with_number = match &number_flag {
            Some(n) => str_eq(n.as_str(), "true") || str_eq(n.as_str(), "1"),
            None => false,
        };
        if with_number {
            let e = vec![
                mem("response", json_i64(1)),
                mem("tzid", json_i64(tzid)),
                mem("number", Json::String(script.number.clone())),
                mem("country", json_i64(script.country)),
                mem("time", json_i64(900)),
                mem("service", Json::String(script.service.clone())),
                mem("title", Json::String(script.service.clone())),
                mem("response_text", json_str("waiting")),
                mem("guard_interval_remaining_seconds", json_i64(0)),
            ];
            proof {
                lemma_jv_entries(e@);
                assert(jv_entries(e@) =~= num_body(tzid, script@, true)->Object_0);
            }
            Json::Object(e)
        } else {
            let e = vec![mem("response", json_i64(1)), mem("tzid", json_i64(tzid))];
            proof {
                lemma_jv_entries(e@);
                assert(jv_entries(e@) =~= num_body(tzid, script@, false)->Object_0);
            }
            Json::Object(e)
        }
    }
}


// ---------------------------------------------------------------------------
// Operation states
// ---------------------------------------------------------------------------

/// Whether `getState` reports this operation: it is the one asked for (or
/// none was named), it is open, and it is not a rent.
pub open spec fn eligible(p: (i64, OperationV), sel: Option<i64>) -> bool {
    &&& (sel matches Some(id) ==> p.0 == id)
    &&& !p.1.closed
    &&& p.1.service != "rent"@
}

/// An operation after one more poll.
pub open spec fn polled(op: OperationV) -> OperationV {
    OperationV { polls: (op.polls + 1) as u32, ..op }
}

/// Whether the code is due: more polls were made than the script holds
/// back.
pub open spec fn ready(op: OperationV) -> bool {
    op.polls > op.polls_before_code
}

/// One `getState` row (for the operation after its poll): the code is
/// included once it is due.
pub open spec fn state_item(id: i64, op: OperationV) -> JsonV {
    JsonV::Object(
        seq![
            ("tzid"@, ji(id as int)),
            ("response"@, js(if ready(op) {
                "TZ_NUM_ANSWER"@
            } else {
                "TZ_NUM_WAIT"@
            })),
            ("number"@, js(op.number)),
            ("service"@, js(op.service)),
            ("time"@, ji(800)),
            ("extend"@, ji(0)),
            ("country"@, ji(op.country as int)),
            ("sum"@, jn("10.0"@)),
        ] + if ready(op) {
            seq![("msg"@, js(op.code))]
        } else {
            seq![]
        },
    )
}

/// The rows `getState` reports, in the order of the operations.
pub open spec fn state_items(ops: Seq<(i64, OperationV)>, sel: Option<i64>) -> Seq<JsonV>
    decreases ops.len(),
{
    if ops.len() == 0 {
        seq![]
    } else if eligible(ops.last(), sel) {
        state_items(ops.drop_last(), sel).push(state_item(ops.last().0, polled(ops.last().1)))
    } else {
        state_items(ops.drop_last(), sel)
    }
}

/// The operations after a `getState`: each reported one counts a poll.
pub open spec fn polled_ops(ops: Seq<(i64, OperationV)>, sel: Option<i64>) -> Seq<(i64, OperationV)>
    decreases ops.len(),
{
    if ops.len() == 0 {
        seq![]
    } else if eligible(ops.last(), sel) {
        polled_ops(ops.drop_last(), sel).push((ops.last().0, polled(ops.last().1)))
    } else {
        polled_ops(ops.drop_last(), sel).push(ops.last())
    }
}

/// Whether every reported operation can count one more poll.
pub open spec fn polls_can_grow(ops: Seq<(i64, OperationV)>, sel: Option<i64>) -> bool {
    forall|i: int| 0 <= i < ops.len() && eligible(#[trigger] ops[i], sel) ==> ops[i].1.polls < u32::MAX
}

/// `getState`: the rows of the reported operations (each counts a poll),
/// or `ERROR_NO_OPERATIONS` when there are none.
pub open spec fn get_state_step(s: MockStateV, q: Seq<(Seq<char>, Seq<char>)>) -> (MockStateV, JsonV) {
    let sel = qget_i64(q, "tzid"@);
    let items = state_items(s.ops, sel);
    if items.len() == 0 {
        (s, status_body(js("ERROR_NO_OPERATIONS"@)))
    } else {
        (MockStateV { ops: polled_ops(s.ops, sel), ..s }, JsonV::Array(items))
    }
}

/// Polling keeps the ids, in order.
pub proof fn lemma_polled_ids(ops: Seq<(i64, OperationV)>, sel: Option<i64>)
    ensures
        polled_ops(ops, sel).len() == ops.len(),
        forall|i: int| 0 <= i < ops.len() ==> (#[trigger] polled_ops(ops, sel)[i]).0 == ops[i].0,
    decreases ops.len(),
{
    if ops.len() > 0 {
        lemma_polled_ids(ops.drop_last(), sel);
        let p = polled_ops(ops, sel);
        let p0 = polled_ops(ops.drop_last(), sel);
        assert forall|i: int| 0 <= i < ops.len() implies (#[trigger] polled_ops(ops, sel)[i]).0 == ops[i].0 by {
            if i < ops.len() - 1 {
                assert(p[i] == p0[i]);
                assert(ops.drop_last()[i] == ops[i]);
            }
        }
    }
}

/// One row of `getState`.
fn state_row(id: i64, op: &Operation) -> (r: Json)
    ensures
        r@ == state_item(id, op@),
{
    let due = op.polls > op.polls_before_code;
    let mut e = vec![
        mem("tzid", json_i64(id)),
        mem("response", json_str(if due {
            "TZ_NUM_ANSWER"
        } else {
            "TZ_NUM_WAIT"
        })),
        mem("number", Json::String(op.number.clone())),
        mem("service", Json::String(op.service.clone())),
        mem("time", json_i64(800)),
        mem("extend", json_i64(0)),
        mem("country", json_i64(op.country)),
        mem("sum", num("10.0")),
    ];
    if due {
        e.push(mem("msg", Json::String(op.code.clone())));
    }
    proof {
        lemma_jv_entries(e@);
        assert(jv_entries(e@) =~= state_item(id, op@)->Object_0);
    }
    Json::Object(e)
}

// ---------------------------------------------------------------------------
// Closing, next, profile
// ---------------------------------------------------------------------------

/// `setOperationOk` / `rent/closeRentNum`: closes the operation named by
/// `tzid`; `ERROR_NO_TZID` when there is none.
pub open spec fn close_step(s: MockStateV, q: Seq<(Seq<char>, Seq<char>)>) -> (MockStateV, JsonV) {
    match qget_i64(q, "tzid"@) {
        Some(id) => match op_pos(s.ops, id) {
            Some(i) => (
                MockStateV {
                    ops: s.ops.update(i, (id, OperationV { closed: true, ..s.ops[i].1 })),
                    ..s
                },
                JsonV::Object(seq![("response"@, ji(1)), ("tzid"@, ji(id as int))]),
            ),
            None => (s, status_body(js("ERROR_NO_TZID"@))),
        },
        None => (s, status_body(js("ERROR_NO_TZID"@))),
    }
}

/// `setOperationRevise`: acknowledges a known operation.
pub open spec fn next_body(s: MockStateV, q: Seq<(Seq<char>, Seq<char>)>) -> JsonV {
    match qget_i64(q, "tzid"@) {
        Some(id) => if op_pos(s.ops, id) is Some {
            JsonV::Object(seq![("response"@, js("1"@)), ("tzid"@, ji(id as int))])
        } else {
            status_body(js("ERROR_NO_TZID"@))
        },
        None => status_body(js("ERROR_NO_TZID"@)),
    }
}

/// The `getProfile` body.
pub open spec fn profile_body(s: MockStateV) -> JsonV {
    JsonV::Object(
        seq![
            ("response"@, js("1"@)),
            (
                "profile"@,
                JsonV::Object(
                    seq![
                        ("id"@, ji(1)),
                        ("name"@, js("Mock User"@)),
                        ("username"@, js("mock"@)),
                        ("email"@, js("mock@example.test"@)),
                        ("locale"@, js("en"@)),
                        ("ugroup"@, ji(1)),
                        ("verify"@, ji(1)),
                        ("block"@, ji(0)),
                        ("webhook_url"@, match s.webhook_url {
                            Some(u) => js(u),
                            None => JsonV::Null,
                        }),
                        (
                            "payment"@,
                            JsonV::Object(
                                seq![
                                    ("payment"@, jn("100.0"@)),
                                    ("income"@, jn("25.0"@)),
                                    ("spent"@, jn("10.0"@)),
                                    ("now"@, jn("0.0"@)),
                                ],
                            ),
                        ),
                    ],
                ),
            ),
        ],
    )
}

/// The webhook URL a profile save sets: `null` or `""` clear it, a string
/// sets it, anything else (or no such member) leaves it.
pub open spec fn saved_webhook_url(body: Option<JsonV>) -> Option<Option<Seq<char>>> {
    match body {
        Some(v) => match obj_get(v, "profile"@) {
            Some(p) => match obj_get(p, "webhook_url"@) {
                Some(JsonV::Null) => Some(None),
                Some(JsonV::String(u)) => if u.len() == 0 {
                    Some(None)
                } else {
                    Some(Some(u))
                },
                _ => None,
            },
            None => None,
        },
        None => None,
    }
}

/// `profile` (save): updates the webhook URL.
pub open spec fn profile_save_step(s: MockStateV, body: Option<JsonV>) -> (MockStateV, JsonV) {
    (
        match saved_webhook_url(body) {
            Some(u) => MockStateV { webhook_url: u, ..s },
            None => s,
        },
        status_body(js("1"@)),
    )
}

/// The view of an optional body.
pub open spec fn body_view(b: Option<Json>) -> Option<JsonV> {
    match b {
        Some(v) => Some(v@),
        None => None,
    }
}

impl MockState {
    /// `getState`.
    pub fn handle_get_state(&mut self, query: &Vec<(String, String)>) -> (r: Json)
        requires
            old(self).wf(),
            polls_can_grow(old(self)@.ops, qget_i64(pairs_view(query@), "tzid"@)),
        ensures
            final(self).wf(),
            (final(self)@, r@) == get_state_step(old(self)@, pairs_view(query@)),
    {
        let sel = query_i64(query, "tzid");
        let ghost ov = ops_view(self.ops@);
        let mut rest: Vec<(i64, Operation)> = Vec::new();
        std::mem::swap(&mut rest, &mut self.ops);
        let mut out: Vec<(i64, Operation)> = Vec::new();
        let mut items: Vec<Json> = Vec::new();
        let n = rest.len();
        let mut i: usize = 0;
        assert(ov.take(0) =~= Seq::<(i64, OperationV)>::empty());
        assert(jv_items(items@) =~= Seq::<JsonV>::empty());
        assert(ops_view(out@) =~= Seq::<(i64, OperationV)>::empty());
        assert(ops_view(rest@).subrange(0, n as int) == ov);
        while i < n
            invariant
                i <= n,
                n == ov.len(),
                ops_view(rest@) == ov.subrange(i as int, n as int),
                ops_view(out@) == polled_ops(ov.take(i as int), sel),
                jv_items(items@) == state_items(ov.take(i as int), sel),
                polls_can_grow(ov, sel),
                sel == qget_i64(pairs_view(query@), "tzid"@),
            decreases n - i,
        {
            let ghost next = ov.take(i + 1);
            assert(next.drop_last() == ov.take(i as int));
            assert(next.last() == ov[i as int]);
            let ghost rv = ops_view(rest@);
            let ghost rold = rest@;
            assert(rest@.len() == rv.len());
            let (id, mut op) = rest.remove(0);
            assert(rv[0] == ov[i as int]);
            assert(rest@ == rold.subrange(1, rold.len() as int));
            assert(ops_view(rest@) =~= rv.subrange(1, rv.len() as int));
            assert(ops_view(rest@) =~= ov.subrange(i + 1, n as int));
            let pick = match sel {
                Some(t) => id == t,
                None => true,
            };
            let is_rent = str_eq(op.service.as_str(), "rent");
            let ghost old_opv = op@;
            let ghost old_items = items@;
            assert(ov[i as int] == (id, old_opv));
            if pick && !op.closed && !is_rent {
                assert(eligible(ov[i as int], sel));
                op.polls = op.polls + 1;
                assert(op@ == polled(old_opv));
                let row = state_row(id, &op);
                items.push(row);
                assert(items@.drop_last() =~= old_items);
                out.push((id, op));
            } else {
                assert(!eligible(ov[i as int], sel));
                out.push((id, op));
            }
            assert(ops_view(out@) =~= polled_ops(next, sel));
            assert(jv_items(items@) =~= state_items(next, sel));
            i = i + 1;
        }
        assert(ov.take(n as int) == ov);
        if items.len() == 0 {
            // nothing reported: the operations are as they were
            proof {
                lemma_polled_unchanged(ov, sel);
            }
            self.ops = out;
            assert(ops_view(self.ops@) == ov);
            return status(json_str("ERROR_NO_OPERATIONS"));
        }
        self.ops = out;
        proof {
            lemma_polled_ids(ov, sel);
            assert forall|a: int, b: int| 0 <= a < b < ops_view(self.ops@).len() implies (#[trigger] ops_view(self.ops@)[a]).0 != (#[trigger] ops_view(self.ops@)[b]).0 by {
                assert(ops_view(self.ops@)[a].0 == ov[a].0);
                assert(ops_view(self.ops@)[b].0 == ov[b].0);
            }
        }
        Json::Array(items)
    }

    /// `setOperationOk` / `rent/closeRentNum`.
    pub fn handle_close(&mut self, query: &Vec<(String, String)>) -> (r: Json)
        requires
            old(self).wf(),
        ensures
            final(self).wf(),
            (final(self)@, r@) == close_step(old(self)@, pairs_view(query@)),
    {
        match query_i64(query, "tzid") {
            Some(id) => {
                proof {
                    lemma_op_pos(ops_view(self.ops@), id);
                }
                match find_op(&self.ops, id) {
                    Some(i) => {
                        let ghost ov = ops_view(self.ops@);
                        let (k, mut op) = self.ops.remove(i);
                        op.closed = true;
                        let ghost opv = op@;
                        self.ops.insert(i, (k, op));
                        assert(ops_view(self.ops@) =~= ov.update(i as int, (id, opv)));
                        assert forall|a: int, b: int| 0 <= a < b < ops_view(self.ops@).len() implies (#[trigger] ops_view(self.ops@)[a]).0 != (#[trigger] ops_view(self.ops@)[b]).0 by {
                            assert(ov[a].0 != ov[b].0);
                        }
                        let e = vec![mem("response", json_i64(1)), mem("tzid", json_i64(id))];
                        proof {
                            lemma_jv_entries(e@);
                            assert(jv_entries(e@) =~= seq![("response"@, ji(1)), ("tzid"@, ji(id as int))]);
                        }
                        Json::Object(e)
                    },
                    None => status(json_str("ERROR_NO_TZID")),
                }
            },
            None => status(json_str("ERROR_NO_TZID")),
        }
    }

    /// `setOperationRevise`.
    pub fn handle_next(&self, query: &Vec<(String, String)>) -> (r: Json)
        ensures
            r@ == next_body(self@, pairs_view(query@)),
    {
        match query_i64(query, "tzid") {
            Some(id) => match find_op(&self.ops, id) {
                Some(_) => {
                    let e = vec![mem("response", json_str("1")), mem("tzid", json_i64(id))];
                    proof {
                        lemma_jv_entries(e@);
                        assert(jv_entries(e@) =~= seq![("response"@, js("1"@)), ("tzid"@, ji(id as int))]);
                    }
                    Json::Object(e)
                },
                None => status(json_str("ERROR_NO_TZID")),
            },
            None => status(json_str("ERROR_NO_TZID")),
        }
    }

    /// `getProfile`.
    pub fn handle_profile(&self) -> (r: Json)
        ensures
            r@ == profile_body(self@),
    {
        let url = match &self.webhook_url {
            Some(u) => Json::String(u.clone()),
            None => Json::Null,
        };
        let pay = vec![
            mem("payment", num("100.0")),
            mem("income", num("25.0")),
            mem("spent", num("10.0")),
            mem("now", num("0.0")),
        ];
        proof {
            lemma_jv_entries(pay@);
            assert(jv_entries(pay@) =~= seq![
                ("payment"@, jn("100.0"@)),
                ("income"@, jn("25.0"@)),
                ("spent"@, jn("10.0"@)),
                ("now"@, jn("0.0"@)),
            ]);
        }
        let pay = Json::Object(pay);
        let prof = vec![
            mem("id", json_i64(1)),
            mem("name", json_str("Mock User")),
            mem("username", json_str("mock")),
            mem("email", json_str("mock@example.test")),
            mem("locale", json_str("en")),
            mem("ugroup", json_i64(1)),
            mem("verify", json_i64(1)),
            mem("block", json_i64(0)),
            mem("webhook_url", url),
            mem("payment", pay),
        ];
        proof {
            lemma_jv_entries(prof@);
            assert(jv_entries(prof@) =~= profile_body(self@)->Object_0[1].1->Object_0);
        }
        let prof = Json::Object(prof);
        let e = vec![mem("response", json_str("1")), mem("profile", prof)];
        proof {
            lemma_jv_entries(e@);
            assert(jv_entries(e@) =~= profile_body(self@)->Object_0);
        }
        Json::Object(e)
    }

    /// `profile` (save).
    pub fn handle_profile_save(&mut self, body: Option<Json>) -> (r: Json)
        requires
            old(self).wf(),
        ensures
            final(self).wf(),
            (final(self)@, r@) == profile_save_step(old(self)@, body_view(body)),
    {
        let url: Option<Option<String>> = match &body {
            Some(v) => match v.get("profile") {
                Some(p) => match p.get("webhook_url") {
                    Some(Json::Null) => Some(None),
                    Some(Json::String(u)) => if u.as_str().is_empty() {
                        Some(None)
                    } else {
                        Some(Some(u.clone()))
                    },
                    _ => None,
                },
                None => None,
            },
            None => None,
        };
        match url {
            Some(u) => {
                self.webhook_url = u;
            },
            None => {},
        }
        status(json_str("1"))
    }
}

/// A `getState` that reports nothing leaves the operations as they were.
proof fn lemma_polled_unchanged(ops: Seq<(i64, OperationV)>, sel: Option<i64>)
    requires
        state_items(ops, sel).len() == 0,
    ensures
        polled_ops(ops, sel) == ops,
    decreases ops.len(),
{
    if ops.len() > 0 {
        if !eligible(ops.last(), sel) {
            lemma_polled_unchanged(ops.drop_last(), sel);
            assert(polled_ops(ops, sel) =~= ops);
        }
    } else {
        assert(polled_ops(ops, sel) =~= ops);
    }
}


// ---------------------------------------------------------------------------
// Rent
// ---------------------------------------------------------------------------

/// The country a query names, or the default one.
pub open spec fn country_or_default(q: Seq<(Seq<char>, Seq<char>)>) -> i64 {
    match qget_i64(q, "country"@) {
        Some(c) => c,
        None => DEFAULT_COUNTRY,
    }
}

/// The number of a rented operation: `+{country}9000000000`.
pub open spec fn rent_number(country: i64) -> Seq<char> {
    "+"@ + int_text(country as int) + "9000000000"@
}

/// The operation a rent opens.
pub open spec fn rent_op(country: i64) -> OperationV {
    OperationV {
        service: "rent"@,
        number: rent_number(country),
        country,
        code: "000000"@,
        polls: 0,
        polls_before_code: 0,
        closed: false,
    }
}

/// The item of a new rent.
pub open spec fn rent_item(tzid: i64, country: i64) -> JsonV {
    JsonV::Object(
        seq![
            ("tzid"@, ji(tzid as int)),
            ("status"@, ji(1)),
            ("messages"@, JsonV::Array(seq![])),
            ("country"@, ji(country as int)),
            ("rent"@, ji(1)),
            ("extension"@, ji(0)),
            ("sum"@, jn("50.0"@)),
            ("number"@, js(rent_number(country))),
            ("time"@, ji(86400)),
            ("hours"@, ji(24)),
            ("extend"@, JsonV::Object(seq![])),
            ("checked"@, JsonV::Bool(true)),
            ("reload"@, ji(0)),
            ("day_extend"@, jn("0.0"@)),
        ],
    )
}

/// `rent/getRentNum`: a new rent under the next id.
pub open spec fn rent_get_step(s: MockStateV, q: Seq<(Seq<char>, Seq<char>)>) -> (MockStateV, JsonV) {
    let country = country_or_default(q);
    let tzid = s.next_tzid;
    (
        MockStateV {
            next_tzid: (tzid + 1) as i64,
            ops: put_op(s.ops, tzid, rent_op(country)),
            ..s
        },
        JsonV::Object(seq![("response"@, ji(1)), ("item"@, rent_item(tzid, country))]),
    )
}

/// `x` clamped to the range of `i64` (what `saturating_mul` gives).
pub open spec fn clamp_i64(x: int) -> int {
    if x > i64::MAX {
        i64::MAX as int
    } else if x < i64::MIN {
        i64::MIN as int
    } else {
        x
    }
}

/// `a * b`, saturating at the bounds of `i64`.
fn saturating_mul_i64(a: i64, b: i64) -> (r: i64)
    requires
        0 <= b <= 100000,
    ensures
        r as int == clamp_i64(a * b),
{
    let a2: i128 = a as i128;
    let b2: i128 = b as i128;
    assert(-9223372036854775808 * 100000 <= a2 * b2 <= 9223372036854775807 * 100000) by (nonlinear_arith)
        requires
            -9223372036854775808 <= a2 <= 9223372036854775807,
            0 <= b2 <= 100000,
    ;
    let p: i128 = a2 * b2;
    if p > i64::MAX as i128 {
        i64::MAX
    } else if p < i64::MIN as i128 {
        i64::MIN
    } else {
        p as i64
    }
}

/// Whether operation `p` is an open rent.
pub open spec fn open_rent(op: OperationV) -> bool {
    op.service == "rent"@ && !op.closed
}

/// The item of an extended rent.
pub open spec fn extended_item(tzid: i64, op: OperationV, days: i64) -> JsonV {
    JsonV::Object(
        seq![
            ("tzid"@, ji(tzid as int)),
            ("status"@, ji(1)),
            ("messages"@, JsonV::Array(seq![])),
            ("country"@, ji(op.country as int)),
            ("rent"@, ji(1)),
            ("extension"@, ji(1)),
            ("sum"@, jn("50.0"@)),
            ("number"@, js(op.number)),
            ("time"@, ji(clamp_i64(days * 86400))),
            ("hours"@, ji(clamp_i64(days * 24))),
            ("extend"@, JsonV::Object(seq![("1"@, jn("40.0"@)), ("7"@, jn("200.0"@))])),
            ("checked"@, JsonV::Bool(true)),
            ("reload"@, ji(0)),
            ("day_extend"@, jn("40.0"@)),
        ],
    )
}

/// `rent/extendRentState`: the extended item of an open rent (`days`
/// defaults to 1); `ERROR_NO_TZID` otherwise.
pub open spec fn rent_extend_body(s: MockStateV, q: Seq<(Seq<char>, Seq<char>)>) -> JsonV {
    match qget_i64(q, "tzid"@) {
        Some(id) => {
            let days = match qget_i64(q, "days"@) {
                Some(d) => d,
                None => 1,
            };
            match op_pos(s.ops, id) {
                Some(i) => if open_rent(s.ops[i].1) {
                    JsonV::Object(seq![("response"@, ji(1)), ("item"@, extended_item(id, s.ops[i].1, days))])
                } else {
                    status_body(js("ERROR_NO_TZID"@))
                },
                None => status_body(js("ERROR_NO_TZID"@)),
            }
        },
        None => status_body(js("ERROR_NO_TZID"@)),
    }
}

/// `rent/portReload`: acknowledges an open rent.
pub open spec fn port_reload_body(s: MockStateV, q: Seq<(Seq<char>, Seq<char>)>) -> JsonV {
    match qget_i64(q, "tzid"@) {
        Some(id) => match op_pos(s.ops, id) {
            Some(i) => if open_rent(s.ops[i].1) {
                JsonV::Object(seq![("response"@, js("1"@)), ("tzid"@, ji(id as int))])
            } else {
                status_body(js("ERROR_NO_TZID"@))
            },
            None => status_body(js("ERROR_NO_TZID"@)),
        },
        None => status_body(js("ERROR_NO_TZID"@)),
    }
}

/// One row of the rent list.
pub open spec fn rent_state_item(id: i64, op: OperationV) -> JsonV {
    JsonV::Object(
        seq![
            ("tzid"@, ji(id as int)),
            ("status"@, ji(1)),
            ("messages"@, JsonV::Array(seq![])),
            ("country"@, ji(op.country as int)),
            ("rent"@, ji(1)),
            ("number"@, js(op.number)),
            ("time"@, ji(86400)),
            ("hours"@, ji(24)),
            ("extend"@, JsonV::Object(seq![])),
            ("checked"@, JsonV::Bool(true)),
            ("reload"@, ji(0)),
            ("day_extend"@, jn("0.0"@)),
        ],
    )
}

/// The rows of the open rents (only the one named, when `tzid` is given).
pub open spec fn rent_rows(ops: Seq<(i64, OperationV)>, sel: Option<i64>) -> Seq<JsonV>
    decreases ops.len(),
{
    if ops.len() == 0 {
        seq![]
    } else if open_rent(ops.last().1) && (sel matches Some(t) ==> ops.last().0 == t) {
        rent_rows(ops.drop_last(), sel).push(rent_state_item(ops.last().0, ops.last().1))
    } else {
        rent_rows(ops.drop_last(), sel)
    }
}

/// `rent/getRentState`.
pub open spec fn rent_state_body(s: MockStateV, q: Seq<(Seq<char>, Seq<char>)>) -> JsonV {
    JsonV::Object(
        seq![("response"@, ji(1)), ("list"@, JsonV::Array(rent_rows(s.ops, qget_i64(q, "tzid"@))))],
    )
}

fn rent_number_text(country: i64) -> (r: String)
    ensures
        r@ == rent_number(country),
{
    let c = format_i64(country);
    cat3("+", c.as_str(), "9000000000")
}

fn rent_state_row(id: i64, op: &Operation) -> (r: Json)
    ensures
        r@ == rent_state_item(id, op@),
{
    let msgs: Vec<Json> = Vec::new();
    let ext: Vec<(String, Json)> = Vec::new();
    proof {
        assert(jv_items(msgs@) =~= Seq::<JsonV>::empty());
        assert(jv_entries(ext@) =~= Seq::<(Seq<char>, JsonV)>::empty());
    }
    let e = vec![
        mem("tzid", json_i64(id)),
        mem("status", json_i64(1)),
        mem("messages", Json::Array(msgs)),
        mem("country", json_i64(op.country)),
        mem("rent", json_i64(1)),
        mem("number", Json::String(op.number.clone())),
        mem("time", json_i64(86400)),
        mem("hours", json_i64(24)),
        mem("extend", Json::Object(ext)),
        mem("checked", Json::Bool(true)),
        mem("reload", json_i64(0)),
        mem("day_extend", num("0.0")),
    ];
    proof {
        lemma_jv_entries(e@);
        assert(jv_entries(e@) =~= rent_state_item(id, op@)->Object_0);
    }
    Json::Object(e)
}

impl MockState {
    /// `rent/getRentNum`.
    pub fn handle_rent_get(&mut self, query: &Vec<(String, String)>) -> (r: Json)
        requires
            old(self).wf(),
            old(self).next_tzid < i64::MAX,
        ensures
            final(self).wf(),
            (final(self)@, r@) == rent_get_step(old(self)@, pairs_view(query@)),
    {
        let country = match query_i64(query, "country") {
            Some(c) => c,
            None => DEFAULT_COUNTRY,
        };
        let tzid = self.next_tzid;
        self.next_tzid = tzid + 1;
        let op = Operation {
            service: owned("rent"),
            number: rent_number_text(country),
            country,
            code: owned("000000"),
            polls: 0,
            polls_before_code: 0,
            closed: false,
        };
        proof {
            lemma_put_op_distinct(ops_view(self.ops@), tzid, op@);
        }
        store_op(&mut self.ops, tzid, op);
        let msgs: Vec<Json> = Vec::new();
        let ext: Vec<(String, Json)> = Vec::new();
        proof {
            assert(jv_items(msgs@) =~= Seq::<JsonV>::empty());
            assert(jv_entries(ext@) =~= Seq::<(Seq<char>, JsonV)>::empty());
        }
        let item = vec![
            mem("tzid", json_i64(tzid)),
            mem("status", json_i64(1)),
            mem("messages", Json::Array(msgs)),
            mem("country", json_i64(country)),
            mem("rent", json_i64(1)),
            mem("extension", json_i64(0)),
            mem("sum", num("50.0")),
            mem("number", Json::String(rent_number_text(country))),
            mem("time", json_i64(86400)),
            mem("hours", json_i64(24)),
            mem("extend", Json::Object(ext)),
            mem("checked", Json::Bool(true)),
            mem("reload", json_i64(0)),
            mem("day_extend", num("0.0")),
        ];
        proof {
            lemma_jv_entries(item@);
            assert(jv_entries(item@) =~= rent_item(tzid, country)->Object_0);
        }
        let e = vec![mem("response", json_i64(1)), mem("item", Json::Object(item))];
        proof {
            lemma_jv_entries(e@);
            assert(jv_entries(e@) =~= seq![("response"@, ji(1)), ("item"@, rent_item(tzid, country))]);
        }
        Json::Object(e)
    }

    /// `rent/extendRentState`.
    pub fn handle_rent_extend(&self, query: &Vec<(String, String)>) -> (r: Json)
        ensures
            r@ == rent_extend_body(self@, pairs_view(query@)),
    {
        let id = match query_i64(query, "tzid") {
            Some(id) => id,
            None => {
                return status(json_str("ERROR_NO_TZID"));
            },
        };
        let days = match query_i64(query, "days") {
            Some(d) => d,
            None => 1,
        };
        proof {
            lemma_op_pos(ops_view(self.ops@), id);
        }
        let i = match find_op(&self.ops, id) {
            Some(i) => i,
            None => {
                return status(json_str("ERROR_NO_TZID"));
            },
        };
        let op = &self.ops[i].1;
        if !str_eq(op.service.as_str(), "rent") || op.closed {
            return status(json_str("ERROR_NO_TZID"));
        }
        let msgs: Vec<Json> = Vec::new();
        proof {
            assert(jv_items(msgs@) =~= Seq::<JsonV>::empty());
        }
        let ext = vec![mem("1", num("40.0")), mem("7", num("200.0"))];
        proof {
            lemma_jv_entries(ext@);
            assert(jv_entries(ext@) =~= seq![("1"@, jn("40.0"@)), ("7"@, jn("200.0"@))]);
        }
        let item = vec![
            mem("tzid", json_i64(id)),
            mem("status", json_i64(1)),
            mem("messages", Json::Array(msgs)),
            mem("country", json_i64(op.country)),
            mem("rent", json_i64(1)),
            mem("extension", json_i64(1)),
            mem("sum", num("50.0")),
            mem("number", Json::String(op.number.clone())),
            mem("time", json_i64(saturating_mul_i64(days, 86400))),
            mem("hours", json_i64(saturating_mul_i64(days, 24))),
            mem("extend", Json::Object(ext)),
            mem("checked", Json::Bool(true)),
            mem("reload", json_i64(0)),
            mem("day_extend", num("40.0")),
        ];
        proof {
            lemma_jv_entries(item@);
            assert(jv_entries(item@) =~= extended_item(id, op@, days)->Object_0);
        }
        let e = vec![mem("response", json_i64(1)), mem("item", Json::Object(item))];
        proof {
            lemma_jv_entries(e@);
            assert(jv_entries(e@) =~= seq![("response"@, ji(1)), ("item"@, extended_item(id, op@, days))]);
        }
        Json::Object(e)
    }

    /// `rent/portReload`.
    pub fn handle_rent_port_reload(&self, query: &Vec<(String, String)>) -> (r: Json)
        ensures
            r@ == port_reload_body(self@, pairs_view(query@)),
    {
        let id = match query_i64(query, "tzid") {
            Some(id) => id,
            None => {
                return status(json_str("ERROR_NO_TZID"));
            },
        };
        proof {
            lemma_op_pos(ops_view(self.ops@), id);
        }
        match find_op(&self.ops, id) {
            Some(i) => {
                let op = &self.ops[i].1;
                if str_eq(op.service.as_str(), "rent") && !op.closed {
                    let e = vec![mem("response", json_str("1")), mem("tzid", json_i64(id))];
                    proof {
                        lemma_jv_entries(e@);
                        assert(jv_entries(e@) =~= seq![("response"@, js("1"@)), ("tzid"@, ji(id as int))]);
                    }
                    Json::Object(e)
                } else {
                    status(json_str("ERROR_NO_TZID"))
                }
            },
            None => status(json_str("ERROR_NO_TZID")),
        }
    }

    /// `rent/getRentState`.
    pub fn handle_rent_state(&self, query: &Vec<(String, String)>) -> (r: Json)
        ensures
            r@ == rent_state_body(self@, pairs_view(query@)),
    {
        let sel = query_i64(query, "tzid");
        let ghost ov = ops_view(self.ops@);
        let mut rows: Vec<Json> = Vec::new();
        let mut i: usize = 0;
        assert(ov.take(0) =~= Seq::<(i64, OperationV)>::empty());
        assert(jv_items(rows@) =~= Seq::<JsonV>::empty());
        while i < self.ops.len()
            invariant
                i <= self.ops.len(),
                ov == ops_view(self.ops@),
                jv_items(rows@) == rent_rows(ov.take(i as int), sel),
            decreases self.ops.len() - i,
        {
            let ghost next = ov.take(i + 1);
            assert(next.drop_last() == ov.take(i as int));
            assert(next.last() == ov[i as int]);
            let id = self.ops[i].0;
            let op = &self.ops[i].1;
            let pick = match sel {
                Some(t) => id == t,
                None => true,
            };
            let ghost old_rows = rows@;
            if str_eq(op.service.as_str(), "rent") && !op.closed && pick {
                rows.push(rent_state_row(id, op));
                assert(rows@.drop_last() =~= old_rows);
            }
            assert(jv_items(rows@) =~= rent_rows(next, sel));
            i = i + 1;
        }
        assert(ov.take(i as int) == ov);
        let e = vec![mem("response", json_i64(1)), mem("list", Json::Array(rows))];
        proof {
            lemma_jv_entries(e@);
            assert(jv_entries(e@) =~= rent_state_body(self@, pairs_view(query@))->Object_0);
        }
        Json::Object(e)
    }
}


// ---------------------------------------------------------------------------
// Fixed answers
// ---------------------------------------------------------------------------

/// The tariff of the one mocked country, under country code `code`.
pub open spec fn tariff_one(code: i64) -> Seq<(Seq<char>, JsonV)> {
    seq![
        ("name"@, js("USA"@)),
        ("position"@, ji(1)),
        ("code"@, ji(code as int)),
        ("new"@, JsonV::Bool(false)),
        ("enabled"@, JsonV::Bool(true)),
        ("locale_name"@, js("USA"@)),
        (
            "services"@,
            JsonV::Object(
                seq![
                    (
                        "telegram"@,
                        JsonV::Object(
                            seq![
                                ("count"@, ji(100)),
                                ("popular"@, JsonV::Bool(true)),
                                ("price"@, jn("10.0"@)),
                                ("id"@, js("telegram"@)),
                                ("service"@, js("telegram"@)),
                                ("slug"@, js("telegram"@)),
                            ],
                        ),
                    ),
                ],
            ),
        ),
    ]
}

/// `getNumbersStats`: all countries (`country=all`, keyed by the default
/// country, `7`) or the one asked for (its code echoed; the default
/// country `7` when absent or unreadable).
pub open spec fn tariffs_body(q: Seq<(Seq<char>, Seq<char>)>) -> JsonV {
    let country = match qget(q, "country"@) {
        Some(c) => c,
        None => int_text(DEFAULT_COUNTRY as int),
    };
    let code = match parse_i64_spec(country) {
        Some(n) => n,
        None => DEFAULT_COUNTRY,
    };
    if country == "all"@ {
        JsonV::Object(
            seq![
                ("response"@, js("1"@)),
                (int_text(DEFAULT_COUNTRY as int), JsonV::Object(tariff_one(code))),
            ],
        )
    } else {
        JsonV::Object(tariff_one(code).push(("response"@, js("1"@))))
    }
}

fn tariff_entries(code: i64) -> (r: Vec<(String, Json)>)
    ensures
        jv_entries(r@) == tariff_one(code),
{
    let svc = vec![
        mem("count", json_i64(100)),
        mem("popular", Json::Bool(true)),
        mem("price", num("10.0")),
        mem("id", json_str("telegram")),
        mem("service", json_str("telegram")),
        mem("slug", json_str("telegram")),
    ];
    proof {
        lemma_jv_entries(svc@);
        assert(jv_entries(svc@) =~= tariff_one(code)[6].1->Object_0[0].1->Object_0);
    }
    let services = vec![mem("telegram", Json::Object(svc))];
    proof {
        lemma_jv_entries(services@);
        assert(jv_entries(services@) =~= tariff_one(code)[6].1->Object_0);
    }
    let e = vec![
        mem("name", json_str("USA")),
        mem("position", json_i64(1)),
        mem("code", json_i64(code)),
        mem("new", Json::Bool(false)),
        mem("enabled", Json::Bool(true)),
        mem("locale_name", json_str("USA")),
        mem("services", Json::Object(services)),
    ];
    proof {
        lemma_jv_entries(e@);
        assert(jv_entries(e@) =~= tariff_one(code));
    }
    e
}

/// `getNumbersStats`.
pub fn handle_tariffs(query: &Vec<(String, String)>) -> (r: Json)
    ensures
        r@ == tariffs_body(pairs_view(query@)),
{
    let country = match query_get(query, "country") {
        Some(c) => c,
        None => format_i64(DEFAULT_COUNTRY),
    };
    let code = match parse_i64(country.as_str()) {
        Some(n) => n,
        None => DEFAULT_COUNTRY,
    };
    let one = tariff_entries(code);
    if str_eq(country.as_str(), "all") {
        let e = vec![mem("response", json_str("1")), (format_i64(DEFAULT_COUNTRY), Json::Object(one))];
        proof {
            lemma_jv_entries(e@);
            assert(jv_entries(e@) =~= tariffs_body(pairs_view(query@))->Object_0);
        }
        Json::Object(e)
    } else {
        let mut one = one;
        let ghost before = one@;
        one.push(mem("response", json_str("1")));
        assert(one@.drop_last() =~= before);
        Json::Object(one)
    }
}

/// The `webhook-logs` body: one successful delivery.
pub open spec fn webhook_logs_body() -> JsonV {
    JsonV::Object(
        seq![
            ("response"@, js("1"@)),
            (
                "data"@,
                JsonV::Object(
                    seq![
                        ("current_page"@, ji(1)),
                        ("per_page"@, ji(10)),
                        ("total"@, ji(1)),
                        ("last_page"@, ji(1)),
                        ("data"@, JsonV::Array(seq![webhook_log_row()])),
                    ],
                ),
            ),
        ],
    )
}

/// The one webhook log row.
pub open spec fn webhook_log_row() -> JsonV {
    JsonV::Object(
        seq![
            ("id"@, ji(1)),
            ("type"@, js("receiving_sms"@)),
            ("user_id"@, ji(1)),
            ("webhook_url"@, js("https://example.test/hook"@)),
            (
                "params"@,
                JsonV::Object(
                    seq![
                        ("user_id"@, ji(1)),
                        ("country_code"@, ji(1)),
                        ("number"@, js("+19001234567"@)),
                        ("sender"@, js("Telegram"@)),
                        ("message"@, js("code 123456"@)),
                        ("time_start"@, js("2026-01-01 00:00:00"@)),
                        ("time_left"@, ji(10)),
                        ("operation_id"@, ji(1000)),
                        ("webhook_type"@, js("receiving_sms"@)),
                        ("code"@, js("123456"@)),
                    ],
                ),
            ),
            ("status"@, js("success"@)),
            ("error"@, JsonV::Null),
            ("created_at"@, js("2026-01-01T00:00:00Z"@)),
        ],
    )
}

/// `webhook-logs`.
pub fn handle_webhook_logs() -> (r: Json)
    ensures
        r@ == webhook_logs_body(),
{
    let params = vec![
        mem("user_id", json_i64(1)),
        mem("country_code", json_i64(1)),
        mem("number", json_str("+19001234567")),
        mem("sender", json_str("Telegram")),
        mem("message", json_str("code 123456")),
        mem("time_start", json_str("2026-01-01 00:00:00")),
        mem("time_left", json_i64(10)),
        mem("operation_id", json_i64(1000)),
        mem("webhook_type", json_str("receiving_sms")),
        mem("code", json_str("123456")),
    ];
    proof {
        lemma_jv_entries(params@);
        assert(jv_entries(params@) =~= webhook_log_row()->Object_0[4].1->Object_0);
    }
    let row = vec![
        mem("id", json_i64(1)),
        mem("type", json_str("receiving_sms")),
        mem("user_id", json_i64(1)),
        mem("webhook_url", json_str("https://example.test/hook")),
        mem("params", Json::Object(params)),
        mem("status", json_str("success")),
        mem("error", Json::Null),
        mem("created_at", json_str("2026-01-01T00:00:00Z")),
    ];
    proof {
        lemma_jv_entries(row@);
        assert(jv_entries(row@) =~= webhook_log_row()->Object_0);
    }
    let rows = vec![Json::Object(row)];
    proof {
        lemma_jv_items(rows@);
        assert(jv_items(rows@) =~= seq![webhook_log_row()]);
    }
    let page = vec![
        mem("current_page", json_i64(1)),
        mem("per_page", json_i64(10)),
        mem("total", json_i64(1)),
        mem("last_page", json_i64(1)),
        mem("data", Json::Array(rows)),
    ];
    proof {
        lemma_jv_entries(page@);
        assert(jv_entries(page@) =~= webhook_logs_body()->Object_0[1].1->Object_0);
    }
    let e = vec![mem("response", json_str("1")), mem("data", Json::Object(page))];
    proof {
        lemma_jv_entries(e@);
        assert(jv_entries(e@) =~= webhook_logs_body()->Object_0);
    }
    Json::Object(e)
}

/// The `getPaymentHistory` body.
pub open spec fn payment_history_body() -> JsonV {
    JsonV::Object(
        seq![
            ("response"@, js("1"@)),
            ("forms"@, JsonV::Object(seq![])),
            ("currency"@, JsonV::Object(seq![("USD"@, jn("1.0"@))])),
            ("orders"@, JsonV::Object(seq![("current_page"@, ji(1)), ("data"@, JsonV::Array(seq![]))])),
            ("paylist"@, JsonV::Object(seq![])),
        ],
    )
}

fn empty_object() -> (r: Json)
    ensures
        r@ == JsonV::Object(seq![]),
{
    let e: Vec<(String, Json)> = Vec::new();
    assert(jv_entries(e@) =~= Seq::<(Seq<char>, JsonV)>::empty());
    Json::Object(e)
}

fn empty_array() -> (r: Json)
    ensures
        r@ == JsonV::Array(seq![]),
{
    let e: Vec<Json> = Vec::new();
    assert(jv_items(e@) =~= Seq::<JsonV>::empty());
    Json::Array(e)
}

/// `getPaymentHistory`.
pub fn handle_payment_history() -> (r: Json)
    ensures
        r@ == payment_history_body(),
{
    let cur = vec![mem("USD", num("1.0"))];
    proof {
        lemma_jv_entries(cur@);
        assert(jv_entries(cur@) =~= seq![("USD"@, jn("1.0"@))]);
    }
    let orders = vec![mem("current_page", json_i64(1)), mem("data", empty_array())];
    proof {
        lemma_jv_entries(orders@);
        assert(jv_entries(orders@) =~= seq![("current_page"@, ji(1)), ("data"@, JsonV::Array(seq![]))]);
    }
    let e = vec![
        mem("response", json_str("1")),
        mem("forms", empty_object()),
        mem("currency", Json::Object(cur)),
        mem("orders", Json::Object(orders)),
        mem("paylist", empty_object()),
    ];
    proof {
        lemma_jv_entries(e@);
        assert(jv_entries(e@) =~= payment_history_body()->Object_0);
    }
    Json::Object(e)
}

/// The `getFreeCountryList` body.
pub open spec fn free_countries_body() -> JsonV {
    JsonV::Object(
        seq![
            ("response"@, ji(1)),
            (
                "countries"@,
                JsonV::Array(
                    seq![
                        JsonV::Object(
                            seq![
                                ("country"@, ji(DEFAULT_COUNTRY as int)),
                                ("country_text"@, js("USA"@)),
                                ("country_original"@, js("USA"@)),
                            ],
                        ),
                    ],
                ),
            ),
        ],
    )
}

/// `getFreeCountryList`.
pub fn handle_free_countries() -> (r: Json)
    ensures
        r@ == free_countries_body(),
{
    let c = vec![
        mem("country", json_i64(DEFAULT_COUNTRY)),
        mem("country_text", json_str("USA")),
        mem("country_original", json_str("USA")),
    ];
    proof {
        lemma_jv_entries(c@);
        assert(jv_entries(c@) =~= free_countries_body()->Object_0[1].1->Array_0[0]->Object_0);
    }
    let list = vec![Json::Object(c)];
    proof {
        lemma_jv_items(list@);
        assert(jv_items(list@) =~= free_countries_body()->Object_0[1].1->Array_0);
    }
    let e = vec![mem("response", json_i64(1)), mem("countries", Json::Array(list))];
    proof {
        lemma_jv_entries(e@);
        assert(jv_entries(e@) =~= free_countries_body()->Object_0);
    }
    Json::Object(e)
}

/// The `getFreePhoneList` body for a country.
pub open spec fn free_numbers_body(country: i64) -> JsonV {
    JsonV::Object(
        seq![
            ("response"@, js("1"@)),
            (
                "numbers"@,
                JsonV::Array(
                    seq![
                        JsonV::Object(
                            seq![
                                ("number"@, js("9001234567"@)),
                                ("country"@, ji(country as int)),
                                ("full_number"@, js("+"@ + int_text(country as int) + "9001234567"@)),
                                ("updated_at"@, js("2026-01-01T00:00:00Z"@)),
                                ("data_humans"@, js("just now"@)),
                                ("maxdate"@, js("2026-01-02"@)),
                            ],
                        ),
                    ],
                ),
            ),
        ],
    )
}

/// `getFreePhoneList` (the country asked for, or the default one).
pub fn handle_free_numbers(query: &Vec<(String, String)>) -> (r: Json)
    ensures
        r@ == free_numbers_body(country_or_default(pairs_view(query@))),
{
    let country = match query_i64(query, "country") {
        Some(c) => c,
        None => DEFAULT_COUNTRY,
    };
    let ct = format_i64(country);
    let full = cat3("+", ct.as_str(), "9001234567");
    let n = vec![
        mem("number", json_str("9001234567")),
        mem("country", json_i64(country)),
        mem("full_number", Json::String(full)),
        mem("updated_at", json_str("2026-01-01T00:00:00Z")),
        mem("data_humans", json_str("just now")),
        mem("maxdate", json_str("2026-01-02")),
    ];
    proof {
        lemma_jv_entries(n@);
        assert(jv_entries(n@) =~= free_numbers_body(country)->Object_0[1].1->Array_0[0]->Object_0);
    }
    let list = vec![Json::Object(n)];
    proof {
        lemma_jv_items(list@);
        assert(jv_items(list@) =~= free_numbers_body(country)->Object_0[1].1->Array_0);
    }
    let e = vec![mem("response", json_str("1")), mem("numbers", Json::Array(list))];
    proof {
        lemma_jv_entries(e@);
        assert(jv_entries(e@) =~= free_numbers_body(country)->Object_0);
    }
    Json::Object(e)
}

/// The `getFreeMessageList` body.
pub open spec fn free_messages_body() -> JsonV {
    JsonV::Object(
        seq![
            ("response"@, ji(1)),
            (
                "messages"@,
                JsonV::Object(
                    seq![
                        ("current_page"@, ji(1)),
                        (
                            "data"@,
                            JsonV::Array(
                                seq![
                                    JsonV::Object(
                                        seq![
                                            ("text"@, js("Your code is 111222"@)),
                                            ("in_number"@, js("Telegram"@)),
                                            ("my_number"@, ji(9001234567)),
                                            ("created_at"@, js("2026-01-01T00:00:00Z"@)),
                                            ("data_humans"@, js("just now"@)),
                                        ],
                                    ),
                                ],
                            ),
                        ),
                    ],
                ),
            ),
        ],
    )
}

/// `getFreeMessageList`.
pub fn handle_free_messages() -> (r: Json)
    ensures
        r@ == free_messages_body(),
{
    let m = vec![
        mem("text", json_str("Your code is 111222")),
        mem("in_number", json_str("Telegram")),
        mem("my_number", json_i64(9001234567)),
        mem("created_at", json_str("2026-01-01T00:00:00Z")),
        mem("data_humans", json_str("just now")),
    ];
    proof {
        lemma_jv_entries(m@);
        assert(jv_entries(m@) =~= free_messages_body()->Object_0[1].1->Object_0[1].1->Array_0[0]->Object_0);
    }
    let data = vec![Json::Object(m)];
    proof {
        lemma_jv_items(data@);
        assert(jv_items(data@) =~= free_messages_body()->Object_0[1].1->Object_0[1].1->Array_0);
    }
    let page = vec![mem("current_page", json_i64(1)), mem("data", Json::Array(data))];
    proof {
        lemma_jv_entries(page@);
        assert(jv_entries(page@) =~= free_messages_body()->Object_0[1].1->Object_0);
    }
    let e = vec![mem("response", json_i64(1)), mem("messages", Json::Object(page))];
    proof {
        lemma_jv_entries(e@);
        assert(jv_entries(e@) =~= free_messages_body()->Object_0);
    }
    Json::Object(e)
}

/// The `getFreeList` body.
pub open spec fn free_list_body() -> JsonV {
    JsonV::Object(
        seq![
            ("response"@, ji(1)),
            (
                "countries"@,
                JsonV::Array(
                    seq![
                        JsonV::Object(
                            seq![("country"@, ji(DEFAULT_COUNTRY as int)), ("country_text"@, js("USA"@))],
                        ),
                    ],
                ),
            ),
            (
                "numbers"@,
                JsonV::Object(
                    seq![
                        (
                            "9001234567"@,
                            JsonV::Object(
                                seq![
                                    ("country"@, ji(DEFAULT_COUNTRY as int)),
                                    ("country_original"@, js("USA"@)),
                                    ("full_number"@, js("+19001234567"@)),
                                    ("is_archive"@, JsonV::Bool(false)),
                                ],
                            ),
                        ),
                    ],
                ),
            ),
            (
                "messages"@,
                JsonV::Object(
                    seq![
                        ("current_page"@, ji(1)),
                        ("data"@, JsonV::Array(seq![])),
                        ("number"@, js("9001234567"@)),
                        ("country"@, ji(DEFAULT_COUNTRY as int)),
                    ],
                ),
            ),
        ],
    )
}

/// `getFreeList`.
pub fn handle_free_list() -> (r: Json)
    ensures
        r@ == free_list_body(),
{
    let c = vec![mem("country", json_i64(DEFAULT_COUNTRY)), mem("country_text", json_str("USA"))];
    proof {
        lemma_jv_entries(c@);
        assert(jv_entries(c@) =~= free_list_body()->Object_0[1].1->Array_0[0]->Object_0);
    }
    let countries = vec![Json::Object(c)];
    proof {
        lemma_jv_items(countries@);
        assert(jv_items(countries@) =~= free_list_body()->Object_0[1].1->Array_0);
    }
    let n = vec![
        mem("country", json_i64(DEFAULT_COUNTRY)),
        mem("country_original", json_str("USA")),
        mem("full_number", json_str("+19001234567")),
        mem("is_archive", Json::Bool(false)),
    ];
    proof {
        lemma_jv_entries(n@);
        assert(jv_entries(n@) =~= free_list_body()->Object_0[2].1->Object_0[0].1->Object_0);
    }
    let numbers = vec![mem("9001234567", Json::Object(n))];
    proof {
        lemma_jv_entries(numbers@);
        assert(jv_entries(numbers@) =~= free_list_body()->Object_0[2].1->Object_0);
    }
    let msgs = vec![
        mem("current_page", json_i64(1)),
        mem("data", empty_array()),
        mem("number", json_str("9001234567")),
        mem("country", json_i64(DEFAULT_COUNTRY)),
    ];
    proof {
        lemma_jv_entries(msgs@);
        assert(jv_entries(msgs@) =~= free_list_body()->Object_0[3].1->Object_0);
    }
    let e = vec![
        mem("response", json_i64(1)),
        mem("countries", Json::Array(countries)),
        mem("numbers", Json::Object(numbers)),
        mem("messages", Json::Object(msgs)),
    ];
    proof {
        lemma_jv_entries(e@);
        assert(jv_entries(e@) =~= free_list_body()->Object_0);
    }
    Json::Object(e)
}

/// The rent tariff of the one mocked country.
pub open spec fn rent_tariff_one() -> Seq<(Seq<char>, JsonV)> {
    seq![
        ("code"@, ji(DEFAULT_COUNTRY as int)),
        ("enabled"@, JsonV::Bool(true)),
        ("name"@, js("USA"@)),
        ("new"@, JsonV::Bool(false)),
        ("position"@, ji(1)),
        ("count"@, JsonV::Object(seq![("1"@, jn("10.0"@))])),
        ("days"@, JsonV::Object(seq![("1"@, jn("50.0"@)), ("7"@, jn("200.0"@))])),
        ("extend"@, jn("40.0"@)),
    ]
}

/// `rent/tariffsRent`: one country when `country` is given, else all.
pub open spec fn rent_tariffs_body(q: Seq<(Seq<char>, Seq<char>)>) -> JsonV {
    if qget(q, "country"@) is Some {
        JsonV::Object(rent_tariff_one().push(("response"@, js("1"@))))
    } else {
        JsonV::Object(
            seq![
                ("response"@, js("1"@)),
                (int_text(DEFAULT_COUNTRY as int), JsonV::Object(rent_tariff_one())),
            ],
        )
    }
}

/// `rent/tariffsRent`.
pub fn handle_rent_tariffs(query: &Vec<(String, String)>) -> (r: Json)
    ensures
        r@ == rent_tariffs_body(pairs_view(query@)),
{
    let count = vec![mem("1", num("10.0"))];
    proof {
        lemma_jv_entries(count@);
        assert(jv_entries(count@) =~= rent_tariff_one()[5].1->Object_0);
    }
    let days = vec![mem("1", num("50.0")), mem("7", num("200.0"))];
    proof {
        lemma_jv_entries(days@);
        assert(jv_entries(days@) =~= rent_tariff_one()[6].1->Object_0);
    }
    let mut one = vec![
        mem("code", json_i64(DEFAULT_COUNTRY)),
        mem("enabled", Json::Bool(true)),
        mem("name", json_str("USA")),
        mem("new", Json::Bool(false)),
        mem("position", json_i64(1)),
        mem("count", Json::Object(count)),
        mem("days", Json::Object(days)),
        mem("extend", num("40.0")),
    ];
    proof {
        lemma_jv_entries(one@);
        assert(jv_entries(one@) =~= rent_tariff_one());
    }
    match query_get(query, "country") {
        Some(_) => {
            let ghost before = one@;
            one.push(mem("response", json_str("1")));
            assert(one@.drop_last() =~= before);
            Json::Object(one)
        },
        None => {
            let e = vec![mem("response", json_str("1")), (format_i64(DEFAULT_COUNTRY), Json::Object(one))];
            proof {
                lemma_jv_entries(e@);
                assert(jv_entries(e@) =~= rent_tariffs_body(pairs_view(query@))->Object_0);
            }
            Json::Object(e)
        },
    }
}

/// A JSON array of two strings.
fn two_strings(a: &str, b: &str) -> (r: Json)
    ensures
        r@ == JsonV::Array(seq![js(a@), js(b@)]),
{
    let v = vec![json_str(a), json_str(b)];
    proof {
        lemma_jv_items(v@);
        assert(jv_items(v@) =~= seq![js(a@), js(b@)]);
    }
    Json::Array(v)
}

/// The `getService` body.
pub open spec fn services_body() -> JsonV {
    JsonV::Object(
        seq![("response"@, js("1"@)), ("service"@, JsonV::Array(seq![js("telegram"@), js("whatsapp"@)]))],
    )
}

/// The `getServiceNumber` body.
pub open spec fn service_numbers_body() -> JsonV {
    JsonV::Object(
        seq![
            ("response"@, js("1"@)),
            ("number"@, JsonV::Array(seq![js("79001112233"@), js("79001112234"@)])),
        ],
    )
}

/// The `pay/createEmpty` body.
pub open spec fn create_pay_body() -> JsonV {
    JsonV::Object(
        seq![
            ("response"@, js("1"@)),
            ("payId"@, ji(1)),
            (
                "params"@,
                JsonV::Object(
                    seq![
                        ("url"@, js("https://example.test/pay"@)),
                        ("sum"@, js("100"@)),
                        ("label"@, js("Pay"@)),
                    ],
                ),
            ),
        ],
    )
}

/// The answer to an unknown method: `REQUEST_NOT_FOUND` and the path.
pub open spec fn not_found_body(rest: Seq<char>) -> JsonV {
    JsonV::Object(seq![("response"@, js("REQUEST_NOT_FOUND"@)), ("path"@, js(rest))])
}

/// `getService`.
pub fn handle_services() -> (r: Json)
    ensures
        r@ == services_body(),
{
    let e = vec![mem("response", json_str("1")), mem("service", two_strings("telegram", "whatsapp"))];
    proof {
        lemma_jv_entries(e@);
        assert(jv_entries(e@) =~= services_body()->Object_0);
    }
    Json::Object(e)
}

/// `getServiceNumber`.
pub fn handle_service_numbers() -> (r: Json)
    ensures
        r@ == service_numbers_body(),
{
    let e = vec![mem("response", json_str("1")), mem("number", two_strings("79001112233", "79001112234"))];
    proof {
        lemma_jv_entries(e@);
        assert(jv_entries(e@) =~= service_numbers_body()->Object_0);
    }
    Json::Object(e)
}

/// `pay/createEmpty`.
pub fn handle_create_pay() -> (r: Json)
    ensures
        r@ == create_pay_body(),
{
    let p = vec![
        mem("url", json_str("https://example.test/pay")),
        mem("sum", json_str("100")),
        mem("label", json_str("Pay")),
    ];
    proof {
        lemma_jv_entries(p@);
        assert(jv_entries(p@) =~= create_pay_body()->Object_0[2].1->Object_0);
    }
    let e = vec![mem("response", json_str("1")), mem("payId", json_i64(1)), mem("params", Json::Object(p))];
    proof {
        lemma_jv_entries(e@);
        assert(jv_entries(e@) =~= create_pay_body()->Object_0);
    }
    Json::Object(e)
}

/// An unknown method.
pub fn handle_not_found(rest: &str) -> (r: Json)
    ensures
        r@ == not_found_body(rest@),
{
    let e = vec![mem("response", json_str("REQUEST_NOT_FOUND")), mem("path", json_str(rest))];
    proof {
        lemma_jv_entries(e@);
        assert(jv_entries(e@) =~= not_found_body(rest@)->Object_0);
    }
    Json::Object(e)
}


// ---------------------------------------------------------------------------
// Routing
// ---------------------------------------------------------------------------

/// The API method a request path names: without a leading `/`, a leading
/// `api/` and trailing `.php`.
pub open spec fn method_of(path: Seq<char>) -> Seq<char> {
    let a = match strip_prefix_spec(path, "/"@) {
        Some(x) => x,
        None => path,
    };
    let b = match strip_prefix_spec(a, "api/"@) {
        Some(x) => x,
        None => a,
    };
    trim_end_pat_spec(b, ".php"@)
}

/// The API method of a request path.
pub fn method_name(path: &str) -> (r: String)
    ensures
        r@ == method_of(path@),
{
    let a = match strip_prefix(path, "/") {
        Some(x) => x,
        None => owned(path),
    };
    let b = match strip_prefix(a.as_str(), "api/") {
        Some(x) => x,
        None => a,
    };
    proof {
        reveal_strlit(".php");
    }
    trim_end_pat(b.as_str(), ".php")
}

/// The answer the stand-in gives to a method.
#[derive(Debug)]
pub enum MockRoute {
    Balance,
    Price,
    GetNum,
    GetState,
    Close,
    Next,
    Tariffs,
    Profile,
    ProfileSave,
    WebhookLogs,
    PaymentHistory,
    FreeCountries,
    FreeNumbers,
    FreeMessages,
    FreeList,
    RentGet,
    RentExtend,
    RentState,
    RentPortReload,
    RentTariffs,
    Services,
    ServiceNumbers,
    CreatePay,
    /// An unknown method, by its name.
    NotFound(String),
}

/// Whether `r` is the answer to method `m`.
pub open spec fn route_for(r: MockRoute, m: Seq<char>) -> bool {
    if m == "getBalance"@ {
        r is Balance
    } else if m == "getPrice"@ {
        r is Price
    } else if m == "getNum"@ || m == "getNumRepeat"@ {
        r is GetNum
    } else if m == "getState"@ {
        r is GetState
    } else if m == "setOperationOk"@ || m == "rent/closeRentNum"@ {
        r is Close
    } else if m == "setOperationRevise"@ {
        r is Next
    } else if m == "getNumbersStats"@ {
        r is Tariffs
    } else if m == "getProfile"@ {
        r is Profile
    } else if m == "profile"@ {
        r is ProfileSave
    } else if m == "webhook-logs"@ {
        r is WebhookLogs
    } else if m == "getPaymentHistory"@ {
        r is PaymentHistory
    } else if m == "getFreeCountryList"@ {
        r is FreeCountries
    } else if m == "getFreePhoneList"@ {
        r is FreeNumbers
    } else if m == "getFreeMessageList"@ {
        r is FreeMessages
    } else if m == "getFreeList"@ {
        r is FreeList
    } else if m == "rent/getRentNum"@ {
        r is RentGet
    } else if m == "rent/extendRentState"@ {
        r is RentExtend
    } else if m == "rent/getRentState"@ {
        r is RentState
    } else if m == "rent/portReload"@ {
        r is RentPortReload
    } else if m == "rent/tariffsRent"@ {
        r is RentTariffs
    } else if m == "getService"@ {
        r is Services
    } else if m == "getServiceNumber"@ {
        r is ServiceNumbers
    } else if m == "pay/createEmpty"@ {
        r is CreatePay
    } else {
        r matches MockRoute::NotFound(x) && x@ == m
    }
}

/// The answer to the method of a request path.
pub fn route_of(path: &str) -> (r: MockRoute)
    ensures
        route_for(r, method_of(path@)),
{
    let m = method_name(path);
    let t = m.as_str();
    if str_eq(t, "getBalance") {
        MockRoute::Balance
    } else if str_eq(t, "getPrice") {
        MockRoute::Price
    } else if str_eq(t, "getNum") || str_eq(t, "getNumRepeat") {
        MockRoute::GetNum
    } else if str_eq(t, "getState") {
        MockRoute::GetState
    } else if str_eq(t, "setOperationOk") || str_eq(t, "rent/closeRentNum") {
        MockRoute::Close
    } else if str_eq(t, "setOperationRevise") {
        MockRoute::Next
    } else if str_eq(t, "getNumbersStats") {
        MockRoute::Tariffs
    } else if str_eq(t, "getProfile") {
        MockRoute::Profile
    } else if str_eq(t, "profile") {
        MockRoute::ProfileSave
    } else if str_eq(t, "webhook-logs") {
        MockRoute::WebhookLogs
    } else if str_eq(t, "getPaymentHistory") {
        MockRoute::PaymentHistory
    } else if str_eq(t, "getFreeCountryList") {
        MockRoute::FreeCountries
    } else if str_eq(t, "getFreePhoneList") {
        MockRoute::FreeNumbers
    } else if str_eq(t, "getFreeMessageList") {
        MockRoute::FreeMessages
    } else if str_eq(t, "getFreeList") {
        MockRoute::FreeList
    } else if str_eq(t, "rent/getRentNum") {
        MockRoute::RentGet
    } else if str_eq(t, "rent/extendRentState") {
        MockRoute::RentExtend
    } else if str_eq(t, "rent/getRentState") {
        MockRoute::RentState
    } else if str_eq(t, "rent/portReload") {
        MockRoute::RentPortReload
    } else if str_eq(t, "rent/tariffsRent") {
        MockRoute::RentTariffs
    } else if str_eq(t, "getService") {
        MockRoute::Services
    } else if str_eq(t, "getServiceNumber") {
        MockRoute::ServiceNumbers
    } else if str_eq(t, "pay/createEmpty") {
        MockRoute::CreatePay
    } else {
        MockRoute::NotFound(m)
    }
}

/// Whether answering the route changes the saved state (the caller then
/// reloads the saved state before, and saves after).
pub open spec fn route_mutates(r: MockRoute) -> bool {
    match r {
        MockRoute::GetNum | MockRoute::GetState | MockRoute::Close | MockRoute::Next
        | MockRoute::ProfileSave | MockRoute::RentGet | MockRoute::RentExtend
        | MockRoute::RentPortReload => true,
        _ => false,
    }
}

/// Whether answering the route changes the saved state.
pub fn mutates(r: &MockRoute) -> (b: bool)
    ensures
        b == route_mutates(*r),
{
    match r {
        MockRoute::GetNum | MockRoute::GetState | MockRoute::Close | MockRoute::Next
        | MockRoute::ProfileSave | MockRoute::RentGet | MockRoute::RentExtend
        | MockRoute::RentPortReload => true,
        _ => false,
    }
}

/// The state after, and the body of, the answer to a route.
pub open spec fn handle_step(
    s: MockStateV,
    r: MockRoute,
    q: Seq<(Seq<char>, Seq<char>)>,
    body: Option<JsonV>,
) -> (MockStateV, JsonV) {
    match r {
        MockRoute::Balance => balance_step(s),
        MockRoute::Price => (s, price_body(s, q)),
        MockRoute::GetNum => get_num_step(s, q),
        MockRoute::GetState => get_state_step(s, q),
        MockRoute::Close => close_step(s, q),
        MockRoute::Next => (s, next_body(s, q)),
        MockRoute::Tariffs => (s, tariffs_body(q)),
        MockRoute::Profile => (s, profile_body(s)),
        MockRoute::ProfileSave => profile_save_step(s, body),
        MockRoute::WebhookLogs => (s, webhook_logs_body()),
        MockRoute::PaymentHistory => (s, payment_history_body()),
        MockRoute::FreeCountries => (s, free_countries_body()),
        MockRoute::FreeNumbers => (s, free_numbers_body(country_or_default(q))),
        MockRoute::FreeMessages => (s, free_messages_body()),
        MockRoute::FreeList => (s, free_list_body()),
        MockRoute::RentGet => rent_get_step(s, q),
        MockRoute::RentExtend => (s, rent_extend_body(s, q)),
        MockRoute::RentState => (s, rent_state_body(s, q)),
        MockRoute::RentPortReload => (s, port_reload_body(s, q)),
        MockRoute::RentTariffs => (s, rent_tariffs_body(q)),
        MockRoute::Services => (s, services_body()),
        MockRoute::ServiceNumbers => (s, service_numbers_body()),
        MockRoute::CreatePay => (s, create_pay_body()),
        MockRoute::NotFound(m) => (s, not_found_body(m@)),
    }
}

/// Whether every operation a state poll reports can count one more poll.
fn polls_room(ops: &Vec<(i64, Operation)>, sel: Option<i64>) -> (b: bool)
    ensures
        b == polls_can_grow(ops_view(ops@), sel),
{
    let ghost ov = ops_view(ops@);
    let mut i: usize = 0;
    while i < ops.len()
        invariant
            i <= ops.len(),
            ov == ops_view(ops@),
            forall|k: int| 0 <= k < i && eligible(#[trigger] ov[k], sel) ==> ov[k].1.polls < u32::MAX,
        decreases ops.len() - i,
    {
        assert(ov[i as int] == (ops@[i as int].0, ops@[i as int].1@));
        let named = match sel {
            Some(id) => ops[i].0 == id,
            None => true,
        };
        if named && !ops[i].1.closed && !str_eq(ops[i].1.service.as_str(), "rent") && ops[i].1.polls
            == u32::MAX {
            assert(eligible(ov[i as int], sel));
            return false;
        }
        i = i + 1;
    }
    true
}

impl MockState {
    /// Whether this state can answer the call without a counter running
    /// over: a new operation needs a next id, a state poll one more poll for
    /// each operation it reports.
    pub fn accepts(&self, route: &MockRoute, query: &Vec<(String, String)>) -> (b: bool)
        ensures
            b == can_handle(self@, *route, pairs_view(query@)),
    {
        match route {
            MockRoute::GetNum | MockRoute::RentGet => self.next_tzid < i64::MAX,
            MockRoute::GetState => polls_room(&self.ops, query_i64(query, "tzid")),
            _ => true,
        }
    }
}

/// What answering a route needs of the state: a free operation id for a
/// new operation, room for one more poll of each reported operation.
pub open spec fn can_handle(s: MockStateV, r: MockRoute, q: Seq<(Seq<char>, Seq<char>)>) -> bool {
    &&& (r is GetNum || r is RentGet) ==> s.next_tzid < i64::MAX
    &&& r is GetState ==> polls_can_grow(s.ops, qget_i64(q, "tzid"@))
}

impl MockState {
    /// Answer one API call.
    pub fn handle(&mut self, route: &MockRoute, query: &Vec<(String, String)>, body: Option<Json>) -> (r: Json)
        requires
            old(self).wf(),
            can_handle(old(self)@, *route, pairs_view(query@)),
        ensures
            final(self).wf(),
            (final(self)@, r@) == handle_step(old(self)@, *route, pairs_view(query@), body_view(body)),
    {
        match route {
            MockRoute::Balance => self.handle_balance(),
            MockRoute::Price => self.handle_price(query),
            MockRoute::GetNum => self.handle_get_num(query),
            MockRoute::GetState => self.handle_get_state(query),
            MockRoute::Close => self.handle_close(query),
            MockRoute::Next => self.handle_next(query),
            MockRoute::Tariffs => handle_tariffs(query),
            MockRoute::Profile => self.handle_profile(),
            MockRoute::ProfileSave => self.handle_profile_save(body),
            MockRoute::WebhookLogs => handle_webhook_logs(),
            MockRoute::PaymentHistory => handle_payment_history(),
            MockRoute::FreeCountries => handle_free_countries(),
            MockRoute::FreeNumbers => handle_free_numbers(query),
            MockRoute::FreeMessages => handle_free_messages(),
            MockRoute::FreeList => handle_free_list(),
            MockRoute::RentGet => self.handle_rent_get(query),
            MockRoute::RentExtend => self.handle_rent_extend(query),
            MockRoute::RentState => self.handle_rent_state(query),
            MockRoute::RentPortReload => self.handle_rent_port_reload(query),
            MockRoute::RentTariffs => handle_rent_tariffs(query),
            MockRoute::Services => handle_services(),
            MockRoute::ServiceNumbers => handle_service_numbers(),
            MockRoute::CreatePay => handle_create_pay(),
            MockRoute::NotFound(m) => handle_not_found(m.as_str()),
        }
    }
}


// ---------------------------------------------------------------------------
// Setup and saved state
// ---------------------------------------------------------------------------

impl MockState {
    /// Set the balance fields returned by `getBalance` (and drop a queued
    /// balance error).
    pub fn set_balance(&mut self, balance: Json, zbalance: Json, income: Json)
        requires
            old(self).wf(),
        ensures
            final(self).wf(),
            final(self)@ == (MockStateV {
                balance: balance@,
                zbalance: zbalance@,
                income: income@,
                balance_error: None,
                ..old(self)@
            }),
    {
        self.balance = balance;
        self.zbalance = zbalance;
        self.income = income;
        self.balance_error = None;
    }

    /// The next `getBalance` answers the given API error code (once).
    pub fn fail_balance(&mut self, code: &str)
        requires
            old(self).wf(),
        ensures
            final(self).wf(),
            final(self)@ == (MockStateV { balance_error: Some(code@), ..old(self)@ }),
    {
        self.balance_error = Some(owned(code));
    }

    /// Queue an SMS script; the next matching `getNum` consumes it.
    pub fn script_sms(&mut self, script: SmsScript)
        requires
            old(self).wf(),
        ensures
            final(self).wf(),
            final(self)@ == (MockStateV { scripts: old(self)@.scripts.push(script@), ..old(self)@ }),
    {
        let ghost sv = script@;
        self.scripts.push(script);
        assert(scripts_view(self.scripts@) =~= scripts_view(old(self).scripts@).push(sv));
    }

    /// `getNum` for this service answers `NO_NUMBER`.
    pub fn fail_no_number(&mut self, service: &str)
        requires
            old(self).wf(),
        ensures
            final(self).wf(),
            final(self)@ == (MockStateV {
                no_number_for: old(self)@.no_number_for.push(service@),
                ..old(self)@
            }),
    {
        self.no_number_for.push(owned(service));
        assert(strs_view(self.no_number_for@) =~= strs_view(old(self).no_number_for@).push(service@));
    }
}

/// The part of the state that is saved to a file: balances, webhook, next
/// id and operations (under their ids as text). Queued scripts, blocked
/// services and a queued balance error are not saved.
#[derive(Debug)]
pub struct SavedState {
    pub balance: Json,
    pub zbalance: Json,
    pub income: Json,
    pub webhook_url: Option<String>,
    pub next_tzid: i64,
    pub ops: Vec<(String, Operation)>,
}

/// The saved operations under their ids as text.
pub open spec fn saved_ops(ops: Seq<(i64, OperationV)>) -> Seq<(Seq<char>, OperationV)> {
    ops.map_values(|p: (i64, OperationV)| (int_text(p.0 as int), p.1))
}

/// The views of saved operations.
pub open spec fn saved_ops_view(ops: Seq<(String, Operation)>) -> Seq<(Seq<char>, OperationV)> {
    ops.map_values(|p: (String, Operation)| (p.0@, p.1@))
}

/// The operations read back from saved ones: entries whose key is not an
/// integer are skipped; a later entry of the same id replaces an earlier
/// one.
pub open spec fn loaded_ops(saved: Seq<(Seq<char>, OperationV)>) -> Seq<(i64, OperationV)>
    decreases saved.len(),
{
    if saved.len() == 0 {
        seq![]
    } else {
        let prev = loaded_ops(saved.drop_last());
        match parse_i64_spec(saved.last().0) {
            Some(id) => put_op(prev, id, saved.last().1),
            None => prev,
        }
    }
}

fn clone_op(op: &Operation) -> (r: Operation)
    ensures
        r@ == op@,
{
    Operation {
        service: op.service.clone(),
        number: op.number.clone(),
        country: op.country,
        code: op.code.clone(),
        polls: op.polls,
        polls_before_code: op.polls_before_code,
        closed: op.closed,
    }
}

impl MockState {
    /// The part of the state that is saved.
    pub fn snapshot(&self) -> (r: SavedState)
        ensures
            r.balance@ == self@.balance,
            r.zbalance@ == self@.zbalance,
            r.income@ == self@.income,
            opt_view(r.webhook_url) == self@.webhook_url,
            r.next_tzid == self@.next_tzid,
            saved_ops_view(r.ops@) == saved_ops(self@.ops),
    {
        let mut ops: Vec<(String, Operation)> = Vec::new();
        let mut i: usize = 0;
        while i < self.ops.len()
            invariant
                i <= self.ops.len(),
                ops@.len() == i,
                saved_ops_view(ops@) == saved_ops(ops_view(self.ops@).take(i as int)),
            decreases self.ops.len() - i,
        {
            let ghost before = ops@;
            let ghost ov = ops_view(self.ops@);
            ops.push((format_i64(self.ops[i].0), clone_op(&self.ops[i].1)));
            proof {
                assert(saved_ops_view(ops@).len() == i + 1);
                assert forall|k: int| 0 <= k < i + 1 implies saved_ops_view(ops@)[k] == saved_ops(ov.take(i + 1))[k] by {
                    if k < i {
                        assert(ops@[k] == before[k]);
                        assert(saved_ops_view(before)[k] == saved_ops(ov.take(i as int))[k]);
                    }
                }
            }
            assert(saved_ops_view(ops@) =~= saved_ops(ops_view(self.ops@).take(i + 1)));
            i = i + 1;
        }
        assert(ops_view(self.ops@).take(i as int) == ops_view(self.ops@));
        SavedState {
            balance: crate::json::clone_json(&self.balance),
            zbalance: crate::json::clone_json(&self.zbalance),
            income: crate::json::clone_json(&self.income),
            webhook_url: crate::config::clone_opt_string(&self.webhook_url),
            next_tzid: self.next_tzid,
            ops,
        }
    }

    /// Take over a saved state (the file was written by another process,
    /// or earlier); queued scripts, blocked services and a queued balance
    /// error are kept.
    pub fn restore(&mut self, saved: SavedState)
        requires
            old(self).wf(),
        ensures
            final(self).wf(),
            final(self)@ == (MockStateV {
                balance: saved.balance@,
                zbalance: saved.zbalance@,
                income: saved.income@,
                webhook_url: opt_view(saved.webhook_url),
                next_tzid: saved.next_tzid,
                ops: loaded_ops(saved_ops_view(saved.ops@)),
                ..old(self)@
            }),
    {
        let ghost sv = saved_ops_view(saved.ops@);
        let mut ops: Vec<(i64, Operation)> = Vec::new();
        let mut i: usize = 0;
        assert(sv.take(0) =~= Seq::<(Seq<char>, OperationV)>::empty());
        assert(ops_view(ops@) =~= Seq::<(i64, OperationV)>::empty());
        while i < saved.ops.len()
            invariant
                i <= saved.ops.len(),
                sv == saved_ops_view(saved.ops@),
                ops_view(ops@) == loaded_ops(sv.take(i as int)),
                ids_distinct(ops_view(ops@)),
            decreases saved.ops.len() - i,
        {
            assert(sv.take(i + 1).drop_last() == sv.take(i as int));
            assert(sv.take(i + 1).last() == sv[i as int]);
            match parse_i64(saved.ops[i].0.as_str()) {
                Some(id) => {
                    let op = clone_op(&saved.ops[i].1);
                    proof {
                        lemma_put_op_distinct(ops_view(ops@), id, op@);
                    }
                    store_op(&mut ops, id, op);
                },
                None => {},
            }
            i = i + 1;
        }
        assert(sv.take(i as int) == sv);
        self.balance = saved.balance;
        self.zbalance = saved.zbalance;
        self.income = saved.income;
        self.webhook_url = saved.webhook_url;
        self.next_tzid = saved.next_tzid;
        self.ops = ops;
    }
}

/// Builder for the stand-in with optional on-disk state.
#[derive(Debug, Clone)]
pub struct MockOnlineSimBuilder {
    /// File that keeps the state across runs, when set.
    pub state_path: Option<std::path::PathBuf>,
}

impl MockOnlineSimBuilder {
    /// A builder for an in-memory stand-in (no state file).
    pub fn new() -> (r: Self)
        ensures
            r.state_path is None,
    {
        MockOnlineSimBuilder { state_path: None }
    }

    /// Keep the state in this JSON file (loaded on start, saved after
    /// changes).
    pub fn state_path(self, path: std::path::PathBuf) -> (r: Self)
        ensures
            r.state_path == Some(path),
    {
        MockOnlineSimBuilder { state_path: Some(path) }
    }
}


// ---------------------------------------------------------------------------
// Laws of the stand-in
// ---------------------------------------------------------------------------

/// The query that names operation `id`.
pub open spec fn tzid_query(id: i64) -> Seq<(Seq<char>, Seq<char>)> {
    seq![("tzid"@, int_text(id as int))]
}

proof fn lemma_tzid_query(id: i64)
    ensures
        qget_i64(tzid_query(id), "tzid"@) == Some(id),
{
    lemma_parse_format_i64(id);
    assert(tzid_query(id).drop_last() =~= Seq::<(Seq<char>, Seq<char>)>::empty());
}

/// With unique ids, polling one named operation touches only it.
proof fn lemma_state_named(ops: Seq<(i64, OperationV)>, id: i64)
    requires
        ids_distinct(ops),
    ensures
        match op_pos(ops, id) {
            Some(i) => if eligible(ops[i], Some(id)) {
                state_items(ops, Some(id)) == seq![state_item(id, polled(ops[i].1))] && polled_ops(ops, Some(id))
                    == ops.update(i, (id, polled(ops[i].1)))
            } else {
                state_items(ops, Some(id)).len() == 0 && polled_ops(ops, Some(id)) == ops
            },
            None => state_items(ops, Some(id)).len() == 0 && polled_ops(ops, Some(id)) == ops,
        },
    decreases ops.len(),
{
    if ops.len() > 0 {
        let d = ops.drop_last();
        assert forall|a: int, b: int| 0 <= a < b < d.len() implies (#[trigger] d[a]).0 != (#[trigger] d[b]).0 by {
            assert(d[a] == ops[a]);
            assert(d[b] == ops[b]);
        }
        lemma_state_named(d, id);
        lemma_op_pos(d, id);
        lemma_op_pos(ops, id);
        if ops.last().0 == id {
            // the operation is the last one; none before it has that id
            assert forall|j: int| 0 <= j < d.len() implies (#[trigger] d[j]).0 != id by {
                assert(d[j] == ops[j]);
                assert(ops[j].0 != ops[ops.len() - 1].0);
            }
            assert(op_pos(d, id) is None);
            if eligible(ops.last(), Some(id)) {
                assert(state_items(ops, Some(id)) =~= seq![state_item(id, polled(ops.last().1))]);
                assert(polled_ops(ops, Some(id)) =~= ops.update(ops.len() - 1, (id, polled(ops.last().1))));
            } else {
                assert(polled_ops(ops, Some(id)) =~= ops);
            }
        } else {
            match op_pos(d, id) {
                Some(i) => {
                    assert(ops[i] == d[i]);
                    if eligible(d[i], Some(id)) {
                        assert(polled_ops(ops, Some(id)) =~= ops.update(i, (id, polled(ops[i].1))));
                    } else {
                        assert(polled_ops(ops, Some(id)) =~= ops);
                    }
                },
                None => {
                    assert(polled_ops(ops, Some(id)) =~= ops);
                },
            }
        }
    }
}

/// Ordering a number (for a service that is not blocked) opens a new,
/// unpolled, open operation under the next id, following the chosen
/// script, and answers that id; the next id moves on by one.
pub proof fn law_order_opens_operation(s: MockStateV, q: Seq<(Seq<char>, Seq<char>)>)
    requires
        ids_distinct(s.ops),
        !holds(s.no_number_for, service_or(q, "telegram"@)),
        s.next_tzid < i64::MAX,
    ensures
        ({
            let (s2, body) = get_num_step(s, q);
            let sc = script_for(s.scripts, service_or(q, "telegram"@));
            &&& s2.next_tzid == s.next_tzid + 1
            &&& ids_distinct(s2.ops)
            &&& op_pos(s2.ops, s.next_tzid) matches Some(i) && s2.ops[i].1 == op_of(sc)
            &&& obj_get(body, "tzid"@) == Some(ji(s.next_tzid as int))
            &&& obj_get(body, "response"@) == Some(ji(1))
        }),
{
    let sc = script_for(s.scripts, service_or(q, "telegram"@));
    lemma_put_op_distinct(s.ops, s.next_tzid, op_of(sc));
    reveal_strlit("tzid");
    reveal_strlit("response");
    assert("tzid"@.len() != "response"@.len());
    let body = get_num_step(s, q).1;
    let e = body->Object_0;
    crate::json::lemma_key_pos(e, "tzid"@);
    crate::json::lemma_key_pos(e, "response"@);
}

/// Polling the state of one open, non-rent operation counts one poll for
/// it alone and answers its single row; the row carries the code exactly
/// when more polls were made than the script holds back.
pub proof fn law_poll_delivers_after_held_polls(s: MockStateV, id: i64)
    requires
        ids_distinct(s.ops),
        op_pos(s.ops, id) matches Some(i) && !s.ops[i].1.closed && s.ops[i].1.service != "rent"@
            && s.ops[i].1.polls < u32::MAX,
    ensures
        ({
            let i = op_pos(s.ops, id).unwrap();
            let op = s.ops[i].1;
            let (s2, body) = get_state_step(s, tzid_query(id));
            &&& s2 == MockStateV { ops: s.ops.update(i, (id, polled(op))), ..s }
            &&& body == JsonV::Array(seq![state_item(id, polled(op))])
            &&& s2.ops[i].1.polls == op.polls + 1
            &&& (obj_get(state_item(id, polled(op)), "msg"@) is Some <==> op.polls + 1
                > op.polls_before_code)
        }),
{
    lemma_tzid_query(id);
    lemma_op_pos(s.ops, id);
    lemma_state_named(s.ops, id);
    let i = op_pos(s.ops, id).unwrap();
    let op = s.ops[i].1;
    let item = state_item(id, polled(op));
    let e = item->Object_0;
    crate::json::lemma_key_pos(e, "msg"@);
    reveal_strlit("msg");
    reveal_strlit("tzid");
    reveal_strlit("response");
    reveal_strlit("number");
    reveal_strlit("service");
    reveal_strlit("time");
    reveal_strlit("extend");
    reveal_strlit("country");
    reveal_strlit("sum");
    if ready(polled(op)) {
        assert(e[8].0 == "msg"@);
        assert(e.len() == 9);
    } else {
        assert(e.len() == 8);
        assert forall|j: int| 0 <= j < e.len() implies e[j].0 != "msg"@ by {
            if j == 7 {
                assert("sum"@[0] != "msg"@[0]);
            } else {
                assert(e[j].0.len() != 3);
            }
        }
    }
}

/// A closed operation is no longer reported: after closing it, polling its
/// state answers `ERROR_NO_OPERATIONS` and changes nothing.
pub proof fn law_closed_not_reported(s: MockStateV, id: i64)
    requires
        ids_distinct(s.ops),
        op_pos(s.ops, id) is Some,
    ensures
        ({
            let s2 = close_step(s, tzid_query(id)).0;
            &&& ids_distinct(s2.ops)
            &&& get_state_step(s2, tzid_query(id)) == (s2, status_body(js("ERROR_NO_OPERATIONS"@)))
        }),
{
    lemma_tzid_query(id);
    lemma_op_pos(s.ops, id);
    let i = op_pos(s.ops, id).unwrap();
    let s2 = close_step(s, tzid_query(id)).0;
    assert(s2.ops == s.ops.update(i, (id, OperationV { closed: true, ..s.ops[i].1 })));
    assert forall|a: int, b: int| 0 <= a < b < s2.ops.len() implies (#[trigger] s2.ops[a]).0 != (#[trigger] s2.ops[b]).0 by {
        assert(s.ops[a].0 != s.ops[b].0);
    }
    lemma_op_pos(s2.ops, id);
    assert(op_pos(s2.ops, id) == Some(i)) by {
        match op_pos(s2.ops, id) {
            Some(k) => {
                if k != i {
                    assert(s2.ops[k] == s.ops[k]);
                    assert(s.ops[k].0 != s.ops[i].0);
                }
            },
            None => {
                assert(s2.ops[i].0 == id);
            },
        }
    }
    lemma_state_named(s2.ops, id);
}

/// Saving the operations (ids as decimal text) and loading them back gives
/// the same operations in the same order: a snapshot restored after a
/// restart reproduces the operations the stand-in had.
pub proof fn law_saved_ops_reload(ops: Seq<(i64, OperationV)>)
    requires
        ids_distinct(ops),
    ensures
        loaded_ops(saved_ops(ops)) == ops,
    decreases ops.len(),
{
    if ops.len() == 0 {
        assert(saved_ops(ops) =~= Seq::<(Seq<char>, OperationV)>::empty());
    } else {
        let d = ops.drop_last();
        assert forall|a: int, b: int| 0 <= a < b < d.len() implies (#[trigger] d[a]).0 != (
        #[trigger] d[b]).0 by {
            assert(d[a] == ops[a]);
            assert(d[b] == ops[b]);
        }
        law_saved_ops_reload(d);
        let sv = saved_ops(ops);
        assert(sv.drop_last() =~= saved_ops(d));
        let id = ops.last().0;
        lemma_parse_format_i64(id);
        assert(sv.last() == (int_text(id as int), ops.last().1));
        lemma_op_pos(d, id);
        assert forall|j: int| 0 <= j < d.len() implies (#[trigger] d[j]).0 != id by {
            assert(d[j] == ops[j]);
            assert(ops[j].0 != ops[ops.len() - 1].0);
        }
        if let Some(i) = op_pos(d, id) {
            assert(d[i].0 == id);
        }
        assert(d.push((id, ops.last().1)) =~= ops);
    }
}

/// A queued balance error is answered once: the next balance call reports
/// the balance again.
pub proof fn law_balance_error_once(s: MockStateV, code: Seq<char>)
    requires
        s.balance_error == Some(code),
    ensures
        ({
            let (s2, first) = balance_step(s);
            let (s3, second) = balance_step(s2);
            &&& first == status_body(js(code))
            &&& s2 == MockStateV { balance_error: None, ..s }
            &&& s3 == s2
            &&& second == balance_body(s2)
        }),
{
}

/// The profile reports the webhook URL that was last saved: a non-empty URL
/// as it was sent, an empty one as `null`.
pub proof fn law_webhook_saved_then_read(s: MockStateV, u: Seq<char>)
    ensures
        ({
            let body = JsonV::Object(
                seq![("profile"@, JsonV::Object(seq![("webhook_url"@, js(u))]))],
            );
            let s2 = profile_save_step(s, Some(body)).0;
            &&& s2.webhook_url == (if u.len() == 0 {
                None
            } else {
                Some(u)
            })
            &&& obj_get(profile_body(s2), "profile"@) matches Some(p) && obj_get(p, "webhook_url"@)
                == Some(if u.len() == 0 {
                JsonV::Null
            } else {
                js(u)
            })
        }),
{
    reveal_strlit("profile");
    reveal_strlit("webhook_url");
    reveal_strlit("response");
    reveal_strlit("id");
    reveal_strlit("name");
    reveal_strlit("username");
    reveal_strlit("email");
    reveal_strlit("locale");
    reveal_strlit("ugroup");
    reveal_strlit("verify");
    reveal_strlit("block");
    let body = JsonV::Object(seq![("profile"@, JsonV::Object(seq![("webhook_url"@, js(u))]))]);
    let be = body->Object_0;
    crate::json::lemma_key_pos(be, "profile"@);
    let inner = JsonV::Object(seq![("webhook_url"@, js(u))])->Object_0;
    crate::json::lemma_key_pos(inner, "webhook_url"@);
    let s2 = profile_save_step(s, Some(body)).0;
    let pb = profile_body(s2);
    let top = pb->Object_0;
    assert("response"@.len() != "profile"@.len());
    crate::json::lemma_key_pos(top, "profile"@);
    let p = top[1].1;
    let pe = p->Object_0;
    crate::json::lemma_key_pos(pe, "webhook_url"@);
    assert(pe[8].0 == "webhook_url"@);
    assert forall|j: int| 0 <= j < 8 implies pe[j].0 != "webhook_url"@ by {
        assert(pe[j].0.len() != "webhook_url"@.len());
    }
}

/// The tariffs of the default country: asked with no country, the answer
/// carries code `7`; asked for all countries, the map is keyed `"7"` and
/// that entry carries code `7`.
pub proof fn law_tariffs_default_country()
    ensures
        obj_get(tariffs_body(seq![]), "code"@) == Some(ji(7)),
        obj_get(tariffs_body(seq![("country"@, "all"@)]), "7"@) matches Some(c) && obj_get(
            c,
            "code"@,
        ) == Some(ji(7)),
{
    reveal_strlit("code");
    reveal_strlit("name");
    reveal_strlit("position");
    reveal_strlit("response");
    reveal_strlit("country");
    reveal_strlit("all");
    reveal_strlit("7");
    lemma_parse_format_i64(7);
    assert(int_text(7) == "7"@);
    assert(!is_digit('a'));
    assert(!all_digits("all"@));
    assert(parse_i64_spec("all"@) is None);
    let q0: Seq<(Seq<char>, Seq<char>)> = seq![];
    assert(qget(q0, "country"@) is None);
    let q1: Seq<(Seq<char>, Seq<char>)> = seq![("country"@, "all"@)];
    assert(q1.last().0 == "country"@);
    assert(qget(q1, "country"@) == Some("all"@));
    let one = tariff_one(7);
    crate::json::lemma_key_pos(one, "code"@);
    assert(one[0].0 != "code"@) by {
        assert(one[0].0[0] != "code"@[0]);
    }
    assert(one[1].0.len() != "code"@.len());
    let b0 = one.push(("response"@, js("1"@)));
    crate::json::lemma_key_pos(b0, "code"@);
    assert(b0[0] == one[0] && b0[1] == one[1] && b0[2] == one[2]);
    let b1 = tariffs_body(q1)->Object_0;
    crate::json::lemma_key_pos(b1, "7"@);
    assert(b1[0].0.len() != "7"@.len());
}

/// Every row of the rent list is an open rent of the stand-in (of the one
/// asked for, when a `tzid` is given).
pub proof fn law_rent_rows_open(ops: Seq<(i64, OperationV)>, sel: Option<i64>)
    ensures
        forall|k: int|
            0 <= k < rent_rows(ops, sel).len() ==> exists|i: int|
                0 <= i < ops.len() && #[trigger] rent_rows(ops, sel)[k] == rent_state_item(
                    ops[i].0,
                    ops[i].1,
                ) && ops[i].1.service == "rent"@ && !ops[i].1.closed && (sel matches Some(t)
                    ==> ops[i].0 == t),
    decreases ops.len(),
{
    if ops.len() > 0 {
        let d = ops.drop_last();
        law_rent_rows_open(d, sel);
        let rd = rent_rows(d, sel);
        let r = rent_rows(ops, sel);
        assert forall|k: int| 0 <= k < r.len() implies exists|i: int|
            0 <= i < ops.len() && #[trigger] r[k] == rent_state_item(ops[i].0, ops[i].1)
                && ops[i].1.service == "rent"@ && !ops[i].1.closed && (sel matches Some(t) ==> ops[i].0 == t) by {
            if k < rd.len() {
                assert(r[k] == rd[k]);
                let i = choose|i: int|
                    0 <= i < d.len() && #[trigger] rd[k] == rent_state_item(d[i].0, d[i].1)
                        && d[i].1.service == "rent"@ && !d[i].1.closed && (sel matches Some(t) ==> d[i].0 == t);
                assert(d[i] == ops[i]);
            } else {
                assert(ops.last() == ops[ops.len() - 1]);
            }
        }
    }
}

/// A rent closed with `closeRentNum` is no longer listed: after closing
/// operation `id`, every row of `getRentState` is an open rent with another
/// id.
pub proof fn law_closed_rent_not_listed(s: MockStateV, id: i64, q: Seq<(Seq<char>, Seq<char>)>)
    requires
        ids_distinct(s.ops),
        op_pos(s.ops, id) is Some,
    ensures
        ({
            let s2 = close_step(s, tzid_query(id)).0;
            let rows = rent_rows(s2.ops, qget_i64(q, "tzid"@));
            &&& rent_state_body(s2, q) == JsonV::Object(
                seq![("response"@, ji(1)), ("list"@, JsonV::Array(rows))],
            )
            &&& forall|k: int|
                0 <= k < rows.len() ==> exists|i: int|
                    0 <= i < s2.ops.len() && #[trigger] rows[k] == rent_state_item(
                        s2.ops[i].0,
                        s2.ops[i].1,
                    ) && !s2.ops[i].1.closed && s2.ops[i].0 != id
        }),
{
    lemma_tzid_query(id);
    lemma_op_pos(s.ops, id);
    let p = op_pos(s.ops, id).unwrap();
    let s2 = close_step(s, tzid_query(id)).0;
    assert(s2.ops == s.ops.update(p, (id, OperationV { closed: true, ..s.ops[p].1 })));
    let sel = qget_i64(q, "tzid"@);
    let rows = rent_rows(s2.ops, sel);
    law_rent_rows_open(s2.ops, sel);
    assert forall|k: int| 0 <= k < rows.len() implies exists|i: int|
        0 <= i < s2.ops.len() && #[trigger] rows[k] == rent_state_item(s2.ops[i].0, s2.ops[i].1)
            && !s2.ops[i].1.closed && s2.ops[i].0 != id by {
        let i = choose|i: int|
            0 <= i < s2.ops.len() && #[trigger] rows[k] == rent_state_item(s2.ops[i].0, s2.ops[i].1)
                && s2.ops[i].1.service == "rent"@ && !s2.ops[i].1.closed && (sel matches Some(t)
                ==> s2.ops[i].0 == t);
        if i != p {
            assert(s2.ops[i] == s.ops[i]);
            if s.ops[i].0 == id {
                assert(s.ops[p].0 == id);
                if i < p {
                    assert(s.ops[i].0 != s.ops[p].0);
                } else {
                    assert(s.ops[p].0 != s.ops[i].0);
                }
            }
        }
    }
}

} // verus!
