//! Builders for requests and the conversions that turn results into
//! responses.

pub mod abi;

use crate::error::{KvError, KvErrorView};
use crate::pb::abi::{
    pairs_view, CommandRequest, CommandResponse, Hdel, Hexist, Hget, Hgetall, Hmdel,
    Hmexist, Hmget, Hmset, Hset, Kvpair, KvpairView, RequestData, ResponseView, Value, ValueView,
};
use http::StatusCode;
use vstd::prelude::*;
use vstd::std_specs::convert::FromSpecImpl;
use vstd::string::StringExecFns;

verus! {

/// The outcome classes of a response.
#[derive(Clone, Copy, Debug, PartialEq, Eq)]
pub enum Status {
    Success,
    BadRequest,
    NotFound,
    InternalServerError,
}

impl Status {
    /// The numeric code of the class.
    pub open spec fn number(self) -> u32 {
        match self {
            Status::Success => 200,
            Status::BadRequest => 400,
            Status::NotFound => 404,
            Status::InternalServerError => 500,
        }
    }

    /// The numeric code of the class.
    ///
    /// Trusted: calls `http::StatusCode::as_u16` on the constant of the
    /// same name (`OK`, `BAD_REQUEST`, `NOT_FOUND`,
    /// `INTERNAL_SERVER_ERROR`) and claims that it gives 200, 400, 404 and
    /// 500 for them.
    #[verifier::external_body]
    pub(crate) fn code(self) -> (code: u32)
        ensures
            code == self.number(),
    {
        let status = match self {
            Status::Success => StatusCode::OK,
            Status::BadRequest => StatusCode::BAD_REQUEST,
            Status::NotFound => StatusCode::NOT_FOUND,
            Status::InternalServerError => StatusCode::INTERNAL_SERVER_ERROR,
        };
        u32::from(status.as_u16())
    }
}

impl KvErrorView {
    /// The outcome class that an error maps to: only a missing key and a
    /// malformed request differ from the default.
    pub open spec fn status(self) -> Status {
        match self {
            KvErrorView::NotFound(_, _) => Status::NotFound,
            KvErrorView::InvalidCommand(_) => Status::BadRequest,
            _ => Status::InternalServerError,
        }
    }
}

impl CommandRequest {
    pub fn new_hset(table: &str, key: &str, value: Value) -> (cmd: CommandRequest)
        ensures
            ({
                &&& cmd.request_data matches Some(RequestData::Hset(param))
                &&& param.table@ == table@
                &&& param.pair matches Some(pair)
                &&& pair@ == (KvpairView { key: key@, value: Some(value@) })
            }),
    {
        CommandRequest {
            request_data: Some(
                RequestData::Hset(
                    Hset { table: String::from_str(table), pair: Some(Kvpair::new(key, value)) },
                ),
            ),
        }
    }

    pub fn new_hmset(table: &str, pairs: Vec<Kvpair>) -> (cmd: CommandRequest)
        ensures
            cmd.request_data matches Some(RequestData::Hmset(param)) && param.table@ == table@
                && param.pairs == pairs,
    {
        CommandRequest {
            request_data: Some(RequestData::Hmset(Hmset { table: String::from_str(table), pairs })),
        }
    }

    pub fn new_hget(table: &str, key: &str) -> (cmd: CommandRequest)
        ensures
            cmd.request_data matches Some(RequestData::Hget(param)) && param.table@ == table@
                && param.key@ == key@,
    {
        CommandRequest {
            request_data: Some(
                RequestData::Hget(
                    Hget { table: String::from_str(table), key: String::from_str(key) },
                ),
            ),
        }
    }

    pub fn new_hmget(table: &str, keys: Vec<String>) -> (cmd: CommandRequest)
        ensures
            cmd.request_data matches Some(RequestData::Hmget(param)) && param.table@ == table@
                && param.keys == keys,
    {
        CommandRequest {
            request_data: Some(RequestData::Hmget(Hmget { table: String::from_str(table), keys })),
        }
    }

    pub fn new_hgetall(table: &str) -> (cmd: CommandRequest)
        ensures
            cmd.request_data matches Some(RequestData::Hgetall(param)) && param.table@ == table@,
    {
        CommandRequest {
            request_data: Some(RequestData::Hgetall(Hgetall { table: String::from_str(table) })),
        }
    }

    pub fn new_hdel(table: &str, key: &str) -> (cmd: CommandRequest)
        ensures
            cmd.request_data matches Some(RequestData::Hdel(param)) && param.table@ == table@
                && param.key@ == key@,
    {
        CommandRequest {
            request_data: Some(
                RequestData::Hdel(
                    Hdel { table: String::from_str(table), key: String::from_str(key) },
                ),
            ),
        }
    }

    pub fn new_hmdel(table: &str, keys: Vec<String>) -> (cmd: CommandRequest)
        ensures
            cmd.request_data matches Some(RequestData::Hmdel(param)) && param.table@ == table@
                && param.keys == keys,
    {
        CommandRequest {
            request_data: Some(RequestData::Hmdel(Hmdel { table: String::from_str(table), keys })),
        }
    }

    pub fn new_hexist(table: &str, key: &str) -> (cmd: CommandRequest)
        ensures
            cmd.request_data matches Some(RequestData::Hexist(param)) && param.table@ == table@
                && param.key@ == key@,
    {
        CommandRequest {
            request_data: Some(
                RequestData::Hexist(
                    Hexist { table: String::from_str(table), key: String::from_str(key) },
                ),
            ),
        }
    }

    pub fn new_hmexist(table: &str, keys: Vec<String>) -> (cmd: CommandRequest)
        ensures
            cmd.request_data matches Some(RequestData::Hmexist(param)) && param.table@ == table@
                && param.keys == keys,
    {
        CommandRequest {
            request_data: Some(
                RequestData::Hmexist(Hmexist { table: String::from_str(table), keys }),
            ),
        }
    }
}

impl Kvpair {
    /// A pair that holds a value.
    pub fn new(key: &str, value: Value) -> (pair: Kvpair)
        ensures
            pair@ == (KvpairView { key: key@, value: Some(value@) }),
            pair.value == Some(value),
    {
        Kvpair { key: String::from_str(key), value: Some(value) }
    }
}

impl From<String> for Value {
    fn from(s: String) -> (v: Value)
        ensures
            v == Value::Text(s),
    {
        Value::Text(s)
    }
}

impl FromSpecImpl<String> for Value {
    open spec fn obeys_from_spec() -> bool {
        true
    }

    open spec fn from_spec(s: String) -> Value {
        Value::Text(s)
    }
}

impl From<&str> for Value {
    fn from(s: &str) -> (v: Value)
        ensures
            v@ == ValueView::Text(s@),
    {
        Value::Text(String::from_str(s))
    }
}

impl FromSpecImpl<&str> for Value {
    open spec fn obeys_from_spec() -> bool {
        false
    }

    open spec fn from_spec(s: &str) -> Value {
        Value::Absent
    }
}

impl From<i64> for Value {
    fn from(i: i64) -> (v: Value)
        ensures
            v == Value::Integer(i),
    {
        Value::Integer(i)
    }
}

impl FromSpecImpl<i64> for Value {
    open spec fn obeys_from_spec() -> bool {
        true
    }

    open spec fn from_spec(i: i64) -> Value {
        Value::Integer(i)
    }
}

impl From<bool> for Value {
    fn from(b: bool) -> (v: Value)
        ensures
            v == Value::Boolean(b),
    {
        Value::Boolean(b)
    }
}

impl FromSpecImpl<bool> for Value {
    open spec fn obeys_from_spec() -> bool {
        true
    }

    open spec fn from_spec(b: bool) -> Value {
        Value::Boolean(b)
    }
}

/// The response that carries one value.
pub open spec fn value_response(value: ValueView) -> ResponseView {
    ResponseView {
        status: Status::Success.number(),
        message: Seq::empty(),
        values: seq![value],
        pairs: Seq::empty(),
    }
}

/// The response that reports an error: its status and its text, and no
/// payload.
pub open spec fn error_response(error: KvErrorView) -> ResponseView {
    ResponseView {
        status: error.status().number(),
        message: error.message(),
        values: Seq::empty(),
        pairs: Seq::empty(),
    }
}

/// The response that carries pairs.
pub open spec fn pairs_response(pairs: Seq<KvpairView>) -> ResponseView {
    ResponseView {
        status: Status::Success.number(),
        message: Seq::empty(),
        values: Seq::empty(),
        pairs,
    }
}

/// The status of a batch: success as soon as one key succeeded.
pub open spec fn batch_status(successes: nat) -> Status {
    if successes > 0 {
        Status::Success
    } else {
        Status::InternalServerError
    }
}

/// The line that reports the failure of one key.
pub open spec fn error_line(key: Seq<char>, error: KvErrorView) -> Seq<char> {
    "request key: "@ + key + ", message: "@ + error.message() + "\n"@
}

/// One line for each failure, in the order of the failures.
pub open spec fn error_lines(failures: Seq<(Seq<char>, KvErrorView)>) -> Seq<char>
    decreases failures.len(),
{
    if failures.len() == 0 {
        Seq::empty()
    } else {
        error_lines(failures.drop_last()) + error_line(failures.last().0, failures.last().1)
    }
}

/// The response of a batch: the pairs of the keys that succeeded, a line
/// for each key that failed, and the status that the successes decide.
pub open spec fn batch_response(
    pairs: Seq<KvpairView>,
    failures: Seq<(Seq<char>, KvErrorView)>,
) -> ResponseView {
    ResponseView {
        status: batch_status(pairs.len()).number(),
        message: error_lines(failures),
        values: Seq::empty(),
        pairs,
    }
}

/// The views of the failures of a batch, in order.
pub open spec fn failures_view(failures: Seq<(String, KvError)>) -> Seq<(Seq<char>, KvErrorView)> {
    failures.map_values(|f: (String, KvError)| (f.0@, f.1@))
}

/// Keys with the value found for each, as pairs.
pub open spec fn entries_view(entries: Seq<(String, Value)>) -> Seq<KvpairView> {
    entries.map_values(|e: (String, Value)| KvpairView { key: e.0@, value: Some(e.1@) })
}

/// Keys with a flag for each, as pairs that hold the flag.
pub open spec fn flags_view(flags: Seq<(String, bool)>) -> Seq<KvpairView> {
    flags.map_values(
        |f: (String, bool)| KvpairView { key: f.0@, value: Some(ValueView::Boolean(f.1)) },
    )
}

impl From<Value> for CommandResponse {
    fn from(v: Value) -> (res: CommandResponse)
        ensures
            res@ == value_response(v@),
    {
        let mut values = Vec::new();
        values.push(v);
        let res = CommandResponse {
            status: Status::Success.code(),
            message: String::new(),
            values,
            pairs: Vec::new(),
        };
        assert(res@.values =~= seq![v@]);
        assert(res@.pairs =~= Seq::empty());
        res
    }
}

impl FromSpecImpl<Value> for CommandResponse {
    open spec fn obeys_from_spec() -> bool {
        false
    }

    open spec fn from_spec(v: Value) -> CommandResponse {
        arbitrary()
    }
}

impl From<KvError> for CommandResponse {
    fn from(e: KvError) -> (res: CommandResponse)
        ensures
            res@ == error_response(e@),
    {
        let mut result = CommandResponse {
            status: Status::InternalServerError.code(),
            message: e.to_string(),
            values: Vec::new(),
            pairs: Vec::new(),
        };
        match e {
            KvError::NotFound(_, _) => result.status = Status::NotFound.code(),
            KvError::InvalidCommand(_) => result.status = Status::BadRequest.code(),
            KvError::ConvertError(_, _) => {},
            KvError::StorageError(_, _, _, _) => {},
            KvError::EncodeError(_) => {},
            KvError::DecodeError(_) => {},
            KvError::Internal(_) => {},
        };
        assert(result@.values =~= Seq::empty());
        assert(result@.pairs =~= Seq::empty());
        result
    }
}

impl FromSpecImpl<KvError> for CommandResponse {
    open spec fn obeys_from_spec() -> bool {
        false
    }

    open spec fn from_spec(e: KvError) -> CommandResponse {
        arbitrary()
    }
}

impl From<Vec<Kvpair>> for CommandResponse {
    fn from(v: Vec<Kvpair>) -> (res: CommandResponse)
        ensures
            res@ == pairs_response(pairs_view(v@)),
    {
        let res = CommandResponse {
            status: Status::Success.code(),
            message: String::new(),
            values: Vec::new(),
            pairs: v,
        };
        assert(res@.values =~= Seq::empty());
        res
    }
}

impl FromSpecImpl<Vec<Kvpair>> for CommandResponse {
    open spec fn obeys_from_spec() -> bool {
        false
    }

    open spec fn from_spec(v: Vec<Kvpair>) -> CommandResponse {
        arbitrary()
    }
}

impl From<Kvpair> for CommandResponse {
    fn from(pair: Kvpair) -> (res: CommandResponse)
        ensures
            res@ == pairs_response(seq![pair@]),
    {
        let mut pairs = Vec::new();
        pairs.push(pair);
        let res = CommandResponse {
            status: Status::Success.code(),
            message: String::new(),
            values: Vec::new(),
            pairs,
        };
        assert(res@.values =~= Seq::empty());
        assert(res@.pairs =~= seq![pair@]);
        res
    }
}

impl FromSpecImpl<Kvpair> for CommandResponse {
    open spec fn obeys_from_spec() -> bool {
        false
    }

    open spec fn from_spec(pair: Kvpair) -> CommandResponse {
        arbitrary()
    }
}

impl From<bool> for CommandResponse {
    fn from(b: bool) -> (res: CommandResponse)
        ensures
            res@ == value_response(ValueView::Boolean(b)),
    {
        CommandResponse::from(Value::from(b))
    }
}

impl FromSpecImpl<bool> for CommandResponse {
    open spec fn obeys_from_spec() -> bool {
        false
    }

    open spec fn from_spec(b: bool) -> CommandResponse {
        arbitrary()
    }
}

impl From<(Vec<(String, Value)>, Vec<(String, KvError)>)> for CommandResponse {
    fn from(tuple: (Vec<(String, Value)>, Vec<(String, KvError)>)) -> (res: CommandResponse)
        ensures
            res@ == batch_response(entries_view(tuple.0@), failures_view(tuple.1@)),
    {
        let status = estimate_status_code_by_vec(&tuple.0);
        let ghost entries = tuple.0@;
        let mut pairs: Vec<Kvpair> = Vec::new();
        for entry in it: tuple.0.into_iter()
            invariant
                it.seq() == entries,
                pairs@.len() == it.index(),
                forall|j: int|
                    0 <= j < pairs@.len() ==> (#[trigger] pairs@[j])@ == entries_view(entries)[j],
        {
            let (k, v) = entry;
            pairs.push(Kvpair { key: k, value: Some(v) });
        }
        let message = combine_error_messages(tuple.1);
        let res = CommandResponse { status, pairs, message, values: Vec::new() };
        assert(res@.values =~= Seq::empty());
        assert(res@.pairs =~= entries_view(entries));
        res
    }
}

impl FromSpecImpl<(Vec<(String, Value)>, Vec<(String, KvError)>)> for CommandResponse {
    open spec fn obeys_from_spec() -> bool {
        false
    }

    open spec fn from_spec(tuple: (Vec<(String, Value)>, Vec<(String, KvError)>)) -> CommandResponse {
        arbitrary()
    }
}

impl From<(Vec<(String, bool)>, Vec<(String, KvError)>)> for CommandResponse {
    fn from(tuple: (Vec<(String, bool)>, Vec<(String, KvError)>)) -> (res: CommandResponse)
        ensures
            res@ == batch_response(flags_view(tuple.0@), failures_view(tuple.1@)),
    {
        let status = estimate_status_code_by_vec(&tuple.0);
        let message = combine_error_messages(tuple.1);
        let ghost flags = tuple.0@;
        let mut pairs: Vec<Kvpair> = Vec::new();
        for flag in it: tuple.0.into_iter()
            invariant
                it.seq() == flags,
                pairs@.len() == it.index(),
                forall|j: int|
                    0 <= j < pairs@.len() ==> (#[trigger] pairs@[j])@ == flags_view(flags)[j],
        {
            let (k, b) = flag;
            pairs.push(Kvpair { key: k, value: Some(Value::from(b)) });
        }
        let res = CommandResponse { status, message, pairs, values: Vec::new() };
        assert(res@.values =~= Seq::empty());
        assert(res@.pairs =~= flags_view(flags));
        res
    }
}

impl FromSpecImpl<(Vec<(String, bool)>, Vec<(String, KvError)>)> for CommandResponse {
    open spec fn obeys_from_spec() -> bool {
        false
    }

    open spec fn from_spec(tuple: (Vec<(String, bool)>, Vec<(String, KvError)>)) -> CommandResponse {
        arbitrary()
    }
}

impl From<(Vec<Kvpair>, Vec<(String, KvError)>)> for CommandResponse {
    fn from(tuple: (Vec<Kvpair>, Vec<(String, KvError)>)) -> (res: CommandResponse)
        ensures
            res@ == batch_response(pairs_view(tuple.0@), failures_view(tuple.1@)),
    {
        let status = estimate_status_code_by_vec(&tuple.0);
        let message = combine_error_messages(tuple.1);
        let res = CommandResponse { status, pairs: tuple.0, message, values: Vec::new() };
        assert(res@.values =~= Seq::empty());
        res
    }
}

impl FromSpecImpl<(Vec<Kvpair>, Vec<(String, KvError)>)> for CommandResponse {
    open spec fn obeys_from_spec() -> bool {
        false
    }

    open spec fn from_spec(tuple: (Vec<Kvpair>, Vec<(String, KvError)>)) -> CommandResponse {
        arbitrary()
    }
}

/// The status of a batch whose successes are `data`.
fn estimate_status_code_by_vec<T>(data: &Vec<T>) -> (status: u32)
    ensures
        status == batch_status(data@.len()).number(),
{
    let status;
    if data.len() > 0 {
        status = Status::Success.code();
    } else {
        status = Status::InternalServerError.code();
    }
    status
}

/// One line for each failure of a batch, in order.
pub fn combine_error_messages(errors: Vec<(String, KvError)>) -> (message: String)
    ensures
        message@ == error_lines(failures_view(errors@)),
{
    let mut message = String::new();
    let ghost failures = failures_view(errors@);
    for error in it: errors.into_iter()
        invariant
            it.seq() == errors@,
            failures == failures_view(errors@),
            message@ == error_lines(failures.take(it.index() as int)),
    {
        let (k, v) = error;
        let ghost done = failures.take(it.index() as int);
        let ghost next = failures.take(it.index() + 1);
        assert(next.drop_last() =~= done);
        assert(next.last() == (k@, v@));
        message.append("request key: ");
        message.append(k.as_str());
        message.append(", message: ");
        message.append(v.to_string().as_str());
        message.append("\n");
    }
    assert(failures.take(failures.len() as int) =~= failures);
    message
}

} // verus!
