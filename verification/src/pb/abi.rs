//! The message types of the protocol and their mathematical views.
//!
//! Every type that carries text has a view in which a `String` is a
//! `Seq<char>` and a `Vec` is a `Seq`; contracts throughout the crate are
//! stated over these views.

use vstd::prelude::*;

verus! {

/// A stored scalar: absent, or one payload.
#[derive(Debug, PartialEq, PartialOrd)]
pub enum Value {
    /// No payload. This is the default value, and the one that stands for
    /// "there was no previous value".
    Absent,
    Text(String),
    Integer(i64),
    Boolean(bool),
}

/// The view of a [`Value`].
pub enum ValueView {
    Absent,
    Text(Seq<char>),
    Integer(i64),
    Boolean(bool),
}

impl View for Value {
    type V = ValueView;

    open spec fn view(&self) -> ValueView {
        match self {
            Value::Absent => ValueView::Absent,
            Value::Text(s) => ValueView::Text(s@),
            Value::Integer(i) => ValueView::Integer(*i),
            Value::Boolean(b) => ValueView::Boolean(*b),
        }
    }
}

impl Clone for Value {
    fn clone(&self) -> (copy: Value)
        ensures
            copy == *self,
    {
        match self {
            Value::Absent => Value::Absent,
            Value::Text(s) => Value::Text(s.clone()),
            Value::Integer(i) => Value::Integer(*i),
            Value::Boolean(b) => Value::Boolean(*b),
        }
    }
}

impl Default for Value {
    fn default() -> (v: Value)
        ensures
            v == Value::Absent,
    {
        Value::Absent
    }
}

/// The view of an optional value.
pub open spec fn option_view(v: Option<Value>) -> Option<ValueView> {
    match v {
        Some(v) => Some(v@),
        None => None,
    }
}

/// The views of a sequence of values, in order.
pub open spec fn values_view(values: Seq<Value>) -> Seq<ValueView> {
    values.map_values(|v: Value| v@)
}

/// A key with an optional value. `value` is `None` where an operation found
/// nothing, which differs from a stored absent value.
#[derive(Debug, PartialEq, PartialOrd)]
pub struct Kvpair {
    pub key: String,
    pub value: Option<Value>,
}

/// The view of a [`Kvpair`].
pub struct KvpairView {
    pub key: Seq<char>,
    pub value: Option<ValueView>,
}

impl View for Kvpair {
    type V = KvpairView;

    open spec fn view(&self) -> KvpairView {
        KvpairView { key: self.key@, value: option_view(self.value) }
    }
}

impl Clone for Kvpair {
    fn clone(&self) -> (copy: Kvpair)
        ensures
            copy == *self,
    {
        let value = match &self.value {
            Some(v) => Some(v.clone()),
            None => None,
        };
        Kvpair { key: self.key.clone(), value }
    }
}

impl Default for Kvpair {
    fn default() -> (pair: Kvpair)
        ensures
            pair@ == (KvpairView { key: Seq::empty(), value: None }),
    {
        Kvpair { key: String::new(), value: None }
    }
}

/// The views of a sequence of pairs, in order.
pub open spec fn pairs_view(pairs: Seq<Kvpair>) -> Seq<KvpairView> {
    pairs.map_values(|p: Kvpair| p@)
}

/// The views of a sequence of strings, in order.
pub open spec fn keys_view(keys: Seq<String>) -> Seq<Seq<char>> {
    keys.map_values(|k: String| k@)
}

/// Set one key of a table.
#[derive(Debug, PartialEq)]
pub struct Hset {
    pub table: String,
    pub pair: Option<Kvpair>,
}

/// Set several keys of a table.
#[derive(Debug, PartialEq)]
pub struct Hmset {
    pub table: String,
    pub pairs: Vec<Kvpair>,
}

/// Read one key of a table.
#[derive(Debug, PartialEq)]
pub struct Hget {
    pub table: String,
    pub key: String,
}

/// Read several keys of a table.
#[derive(Debug, PartialEq)]
pub struct Hmget {
    pub table: String,
    pub keys: Vec<String>,
}

/// Read a whole table.
#[derive(Debug, PartialEq)]
pub struct Hgetall {
    pub table: String,
}

/// Delete one key of a table.
#[derive(Debug, PartialEq)]
pub struct Hdel {
    pub table: String,
    pub key: String,
}

/// Delete several keys of a table.
#[derive(Debug, PartialEq)]
pub struct Hmdel {
    pub table: String,
    pub keys: Vec<String>,
}

/// Ask whether a table holds a key.
#[derive(Debug, PartialEq)]
pub struct Hexist {
    pub table: String,
    pub key: String,
}

/// Ask whether a table holds each of several keys.
#[derive(Debug, PartialEq)]
pub struct Hmexist {
    pub table: String,
    pub keys: Vec<String>,
}

/// The nine commands.
#[derive(Debug, PartialEq)]
pub enum RequestData {
    Hget(Hget),
    Hgetall(Hgetall),
    Hmget(Hmget),
    Hset(Hset),
    Hmset(Hmset),
    Hdel(Hdel),
    Hmdel(Hmdel),
    Hexist(Hexist),
    Hmexist(Hmexist),
}

/// A request: one command, or nothing where the sender gave none.
#[derive(Debug, PartialEq)]
pub struct CommandRequest {
    pub request_data: Option<RequestData>,
}

/// The answer to a request.
#[derive(Debug, PartialEq)]
pub struct CommandResponse {
    pub status: u32,
    pub message: String,
    pub values: Vec<Value>,
    pub pairs: Vec<Kvpair>,
}

/// The view of a [`CommandResponse`].
pub struct ResponseView {
    pub status: u32,
    pub message: Seq<char>,
    pub values: Seq<ValueView>,
    pub pairs: Seq<KvpairView>,
}

impl View for CommandResponse {
    type V = ResponseView;

    open spec fn view(&self) -> ResponseView {
        ResponseView {
            status: self.status,
            message: self.message@,
            values: values_view(self.values@),
            pairs: pairs_view(self.pairs@),
        }
    }
}

impl Default for CommandResponse {
    fn default() -> (res: CommandResponse)
        ensures
            res@ == (ResponseView {
                status: 0,
                message: Seq::empty(),
                values: Seq::empty(),
                pairs: Seq::empty(),
            }),
    {
        let res = CommandResponse {
            status: 0,
            message: String::new(),
            values: Vec::new(),
            pairs: Vec::new(),
        };
        assert(values_view(res.values@) =~= Seq::empty());
        assert(pairs_view(res.pairs@) =~= Seq::empty());
        res
    }
}

impl Clone for Hget {
    fn clone(&self) -> (copy: Hget)
        ensures
            copy == *self,
    {
        Hget { table: self.table.clone(), key: self.key.clone() }
    }
}

impl Clone for Hgetall {
    fn clone(&self) -> (copy: Hgetall)
        ensures
            copy == *self,
    {
        Hgetall { table: self.table.clone() }
    }
}

impl Clone for Hdel {
    fn clone(&self) -> (copy: Hdel)
        ensures
            copy == *self,
    {
        Hdel { table: self.table.clone(), key: self.key.clone() }
    }
}

impl Clone for Hexist {
    fn clone(&self) -> (copy: Hexist)
        ensures
            copy == *self,
    {
        Hexist { table: self.table.clone(), key: self.key.clone() }
    }
}

impl Clone for Hmget {
    fn clone(&self) -> (copy: Hmget)
        ensures
            copy.table == self.table,
            copy.keys@ == self.keys@,
    {
        Hmget { table: self.table.clone(), keys: self.keys.clone() }
    }
}

impl Clone for Hmdel {
    fn clone(&self) -> (copy: Hmdel)
        ensures
            copy.table == self.table,
            copy.keys@ == self.keys@,
    {
        Hmdel { table: self.table.clone(), keys: self.keys.clone() }
    }
}

impl Clone for Hmexist {
    fn clone(&self) -> (copy: Hmexist)
        ensures
            copy.table == self.table,
            copy.keys@ == self.keys@,
    {
        Hmexist { table: self.table.clone(), keys: self.keys.clone() }
    }
}

impl Clone for Hmset {
    fn clone(&self) -> (copy: Hmset)
        ensures
            copy.table == self.table,
            copy.pairs@ == self.pairs@,
    {
        Hmset { table: self.table.clone(), pairs: self.pairs.clone() }
    }
}

impl Clone for Hset {
    fn clone(&self) -> (copy: Hset)
        ensures
            copy == *self,
    {
        let pair = match &self.pair {
            Some(pair) => Some(pair.clone()),
            None => None,
        };
        Hset { table: self.table.clone(), pair }
    }
}

impl RequestData {
    /// Whether two commands are the same command with the same table, keys
    /// and values.
    pub open spec fn same_as(self, other: RequestData) -> bool {
        match (self, other) {
            (RequestData::Hget(a), RequestData::Hget(b)) => a == b,
            (RequestData::Hgetall(a), RequestData::Hgetall(b)) => a == b,
            (RequestData::Hmget(a), RequestData::Hmget(b)) => a.table == b.table && a.keys@
                == b.keys@,
            (RequestData::Hset(a), RequestData::Hset(b)) => a == b,
            (RequestData::Hmset(a), RequestData::Hmset(b)) => a.table == b.table && a.pairs@
                == b.pairs@,
            (RequestData::Hdel(a), RequestData::Hdel(b)) => a == b,
            (RequestData::Hmdel(a), RequestData::Hmdel(b)) => a.table == b.table && a.keys@
                == b.keys@,
            (RequestData::Hexist(a), RequestData::Hexist(b)) => a == b,
            (RequestData::Hmexist(a), RequestData::Hmexist(b)) => a.table == b.table && a.keys@
                == b.keys@,
            _ => false,
        }
    }
}

impl Clone for RequestData {
    fn clone(&self) -> (copy: RequestData)
        ensures
            self.same_as(copy),
    {
        match self {
            RequestData::Hget(param) => RequestData::Hget(param.clone()),
            RequestData::Hgetall(param) => RequestData::Hgetall(param.clone()),
            RequestData::Hmget(param) => RequestData::Hmget(param.clone()),
            RequestData::Hset(param) => RequestData::Hset(param.clone()),
            RequestData::Hmset(param) => RequestData::Hmset(param.clone()),
            RequestData::Hdel(param) => RequestData::Hdel(param.clone()),
            RequestData::Hmdel(param) => RequestData::Hmdel(param.clone()),
            RequestData::Hexist(param) => RequestData::Hexist(param.clone()),
            RequestData::Hmexist(param) => RequestData::Hmexist(param.clone()),
        }
    }
}

impl Clone for CommandRequest {
    fn clone(&self) -> (copy: CommandRequest)
        ensures
            match (self.request_data, copy.request_data) {
                (Some(data), Some(copied)) => data.same_as(copied),
                (None, None) => true,
                _ => false,
            },
    {
        let request_data = match &self.request_data {
            Some(data) => Some(data.clone()),
            None => None,
        };
        CommandRequest { request_data }
    }
}

impl Clone for CommandResponse {
    fn clone(&self) -> (copy: CommandResponse)
        ensures
            copy@ == self@,
    {
        let copy = CommandResponse {
            status: self.status,
            message: self.message.clone(),
            values: self.values.clone(),
            pairs: self.pairs.clone(),
        };
        assert(copy.values@ =~= self.values@);
        assert(copy.pairs@ =~= self.pairs@);
        copy
    }
}

} // verus!
