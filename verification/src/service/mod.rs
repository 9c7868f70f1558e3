//! The service: dispatch of a request to its handler, and the hooks that
//! run around it.

pub mod command_service;
pub mod laws;

use crate::error::{KvError, KvErrorView};
use crate::pb::abi::{CommandRequest, CommandResponse, RequestData, ResponseView};
use crate::pb::error_response;
use crate::storage::memory::MemTable;
use crate::storage::{Storage, StoreView};
use std::sync::Arc;
use vstd::prelude::*;
use vstd::rwlock::{RwLock, RwLockPredicate};
use vstd::string::StringExecFns;

verus! {

/// A command that can be carried out on a store.
pub trait CommandService {
    /// Whether `res` may answer this command on a store that held `before`
    /// and holds `after` when the command is done. `reliable` says whether
    /// the store is one whose operations cannot fail.
    spec fn answers(
        &self,
        before: StoreView,
        reliable: bool,
        res: ResponseView,
        after: StoreView,
    ) -> bool;

    /// Carries the command out on `store`.
    fn execute<S: Storage + ?Sized>(self, store: &mut S) -> (res: CommandResponse)
        ensures
            self.answers(
                old(store).contents(),
                old(store).reliable(),
                res@,
                final(store).contents(),
            ),
            final(store).reliable() == old(store).reliable(),
    ;
}

/// A hook that is shown a value and cannot change it.
pub trait Notify<Arg>: Send + Sync {
    fn notify(&self, arg: &Arg);
}

/// A hook that may change the value it is shown.
pub trait NotifyMut<Arg>: Send + Sync {
    /// Whether the hook may turn `before` into `after`. A hook that does
    /// not say otherwise may turn a value into any other.
    open spec fn turns(&self, before: Arg, after: Arg) -> bool {
        true
    }

    fn notify(&self, arg: &mut Arg)
        ensures
            self.turns(*old(arg), *final(arg)),
    ;
}

impl<Arg> Notify<Arg> for Vec<Box<dyn Notify<Arg>>> {
    /// Shows the value to each hook, in the order of registration.
    fn notify(&self, arg: &Arg) {
        let mut i: usize = 0;
        while i < self.len()
            invariant
                i <= self.len(),
            decreases self.len() - i,
        {
            self[i].notify(arg);
            i = i + 1;
        }
    }
}

/// `steps` are values that the hooks may make of one another in turn: each
/// hook turns one step into the next.
pub open spec fn turned_in_turn<Arg>(hooks: Seq<Box<dyn NotifyMut<Arg>>>, steps: Seq<Arg>) -> bool {
    &&& steps.len() == hooks.len() + 1
    &&& forall|i: int| 0 <= i < hooks.len() ==> (#[trigger] hooks[i]).turns(steps[i], steps[i + 1])
}

/// Whether the hooks, each working on what the one before it left, may
/// turn `before` into `after`.
pub open spec fn turned_by<Arg>(
    hooks: Seq<Box<dyn NotifyMut<Arg>>>,
    before: Arg,
    after: Arg,
) -> bool {
    exists|steps: Seq<Arg>| #[trigger]
        turned_in_turn(hooks, steps) && steps[0] == before && steps.last() == after
}

impl<Arg> NotifyMut<Arg> for Vec<Box<dyn NotifyMut<Arg>>> {
    open spec fn turns(&self, before: Arg, after: Arg) -> bool {
        turned_by(self@, before, after)
    }

    /// Hands the value to each hook, in the order of registration; each
    /// sees what the one before it left.
    fn notify(&self, arg: &mut Arg) {
        let ghost mut steps: Seq<Arg> = seq![*arg];
        let mut i: usize = 0;
        while i < self.len()
            invariant
                i <= self.len(),
                steps.len() == i + 1,
                forall|j: int| 0 <= j < i ==> (#[trigger] self@[j]).turns(steps[j], steps[j + 1]),
                steps[0] == *old(arg),
                steps.last() == *arg,
            decreases self.len() - i,
        {
            self[i].notify(arg);
            proof {
                steps = steps.push(*arg);
            }
            i = i + 1;
        }
        assert(turned_in_turn(self@, steps));
    }
}

/// Whether `res` may answer the request on a store that held `before` and
/// holds `after` afterwards: the answer of the command's handler, or the
/// report of an invalid command where the request holds none.
pub open spec fn dispatched(
    cmd: CommandRequest,
    before: StoreView,
    reliable: bool,
    res: ResponseView,
    after: StoreView,
) -> bool {
    match cmd.request_data {
        Some(RequestData::Hget(param)) => param.answers(before, reliable, res, after),
        Some(RequestData::Hgetall(param)) => param.answers(before, reliable, res, after),
        Some(RequestData::Hset(param)) => param.answers(before, reliable, res, after),
        Some(RequestData::Hmset(param)) => param.answers(before, reliable, res, after),
        Some(RequestData::Hmget(param)) => param.answers(before, reliable, res, after),
        Some(RequestData::Hexist(param)) => param.answers(before, reliable, res, after),
        Some(RequestData::Hmexist(param)) => param.answers(before, reliable, res, after),
        Some(RequestData::Hdel(param)) => param.answers(before, reliable, res, after),
        Some(RequestData::Hmdel(param)) => param.answers(before, reliable, res, after),
        None => res == error_response(KvErrorView::InvalidCommand("Request has not data"@))
            && after == before,
    }
}

/// Carries a request out on `store`: picks the handler by the command.
pub fn dispatch<S: Storage + ?Sized>(cmd: CommandRequest, store: &mut S) -> (res: CommandResponse)
    ensures
        dispatched(cmd, old(store).contents(), old(store).reliable(), res@, final(store).contents()),
        final(store).reliable() == old(store).reliable(),
{
    match cmd.request_data {
        Some(RequestData::Hget(param)) => param.execute(store),
        Some(RequestData::Hgetall(param)) => param.execute(store),
        Some(RequestData::Hset(param)) => param.execute(store),
        Some(RequestData::Hmset(param)) => param.execute(store),
        Some(RequestData::Hmget(param)) => param.execute(store),
        Some(RequestData::Hexist(param)) => param.execute(store),
        Some(RequestData::Hmexist(param)) => param.execute(store),
        Some(RequestData::Hdel(param)) => param.execute(store),
        Some(RequestData::Hmdel(param)) => param.execute(store),
        None => CommandResponse::from(
            KvError::InvalidCommand(String::from_str("Request has not data")),
        ),
    }
}

/// Whether a request only reads the store: the commands that get a value,
/// list a table or test for a key, and a request without a command.
pub open spec fn reads_only(cmd: CommandRequest) -> bool {
    match cmd.request_data {
        Some(RequestData::Hget(_)) => true,
        Some(RequestData::Hgetall(_)) => true,
        Some(RequestData::Hmget(_)) => true,
        Some(RequestData::Hexist(_)) => true,
        Some(RequestData::Hmexist(_)) => true,
        Some(RequestData::Hset(_)) => false,
        Some(RequestData::Hmset(_)) => false,
        Some(RequestData::Hdel(_)) => false,
        Some(RequestData::Hmdel(_)) => false,
        None => true,
    }
}

/// Whether a request only reads the store.
pub fn is_read(cmd: &CommandRequest) -> (reads: bool)
    ensures
        reads == reads_only(*cmd),
{
    match &cmd.request_data {
        Some(RequestData::Hget(_)) => true,
        Some(RequestData::Hgetall(_)) => true,
        Some(RequestData::Hmget(_)) => true,
        Some(RequestData::Hexist(_)) => true,
        Some(RequestData::Hmexist(_)) => true,
        Some(RequestData::Hset(_)) => false,
        Some(RequestData::Hmset(_)) => false,
        Some(RequestData::Hdel(_)) => false,
        Some(RequestData::Hmdel(_)) => false,
        None => true,
    }
}

/// Carries out a request that only reads, on a store that it cannot
/// change; a request that writes is handed back as it came.
pub fn dispatch_read<S: Storage + ?Sized>(cmd: CommandRequest, store: &S) -> (r: Result<
    CommandResponse,
    CommandRequest,
>)
    ensures
        match r {
            Ok(res) => reads_only(cmd) && dispatched(
                cmd,
                store.contents(),
                store.reliable(),
                res@,
                store.contents(),
            ),
            Err(back) => !reads_only(cmd) && back == cmd,
        },
{
    match cmd.request_data {
        Some(RequestData::Hget(param)) => Ok(param.read(store)),
        Some(RequestData::Hgetall(param)) => Ok(param.read(store)),
        Some(RequestData::Hmget(param)) => Ok(param.read(store)),
        Some(RequestData::Hexist(param)) => Ok(param.read(store)),
        Some(RequestData::Hmexist(param)) => Ok(param.read(store)),
        Some(RequestData::Hset(param)) => Err(
            CommandRequest { request_data: Some(RequestData::Hset(param)) },
        ),
        Some(RequestData::Hmset(param)) => Err(
            CommandRequest { request_data: Some(RequestData::Hmset(param)) },
        ),
        Some(RequestData::Hdel(param)) => Err(
            CommandRequest { request_data: Some(RequestData::Hdel(param)) },
        ),
        Some(RequestData::Hmdel(param)) => Err(
            CommandRequest { request_data: Some(RequestData::Hmdel(param)) },
        ),
        None => Ok(
            CommandResponse::from(
                KvError::InvalidCommand(String::from_str("Request has not data")),
            ),
        ),
    }
}

/// A store with the hooks that run around each command.
///
/// Hooks are registered while the service is built and run in the order
/// of their registration; none can be taken out again.
pub struct ServiceInner<Store> {
    store: Store,
    on_received: Vec<Box<dyn Notify<CommandRequest>>>,
    on_executed: Vec<Box<dyn Notify<CommandResponse>>>,
    on_before_send: Vec<Box<dyn NotifyMut<CommandResponse>>>,
    on_after_send: Vec<Box<dyn Notify<()>>>,
}

impl<Store: Storage> ServiceInner<Store> {
    /// What the store holds.
    pub closed spec fn contents(&self) -> StoreView {
        self.store.contents()
    }

    /// Whether the store is one whose operations cannot fail.
    pub closed spec fn reliable(&self) -> bool {
        self.store.reliable()
    }

    /// The hooks that are shown each request.
    pub closed spec fn received_hooks(&self) -> Seq<Box<dyn Notify<CommandRequest>>> {
        self.on_received@
    }

    /// The hooks that are shown each response as the handler made it.
    pub closed spec fn executed_hooks(&self) -> Seq<Box<dyn Notify<CommandResponse>>> {
        self.on_executed@
    }

    /// The hooks that may change each response before it leaves.
    pub closed spec fn before_send_hooks(&self) -> Seq<Box<dyn NotifyMut<CommandResponse>>> {
        self.on_before_send@
    }

    /// The hooks that are told that a response has left.
    pub closed spec fn after_send_hooks(&self) -> Seq<Box<dyn Notify<()>>> {
        self.on_after_send@
    }

    /// A service on `store`, without hooks.
    pub fn new(store: Store) -> (inner: Self)
        ensures
            inner.contents() == store.contents(),
            inner.reliable() == store.reliable(),
            inner.received_hooks().len() == 0,
            inner.executed_hooks().len() == 0,
            inner.before_send_hooks().len() == 0,
            inner.after_send_hooks().len() == 0,
    {
        Self {
            store,
            on_received: Vec::new(),
            on_executed: Vec::new(),
            on_before_send: Vec::new(),
            on_after_send: Vec::new(),
        }
    }

    /// Registers a hook that is shown each request before it is carried out.
    pub fn fn_received(self, f: Box<dyn Notify<CommandRequest>>) -> (inner: Self)
        ensures
            inner.received_hooks() == self.received_hooks().push(f),
            inner.executed_hooks() == self.executed_hooks(),
            inner.before_send_hooks() == self.before_send_hooks(),
            inner.after_send_hooks() == self.after_send_hooks(),
            inner.contents() == self.contents(),
            inner.reliable() == self.reliable(),
    {
        let mut inner = self;
        inner.on_received.push(f);
        inner
    }

    /// Registers a hook that is shown each response as the handler made it.
    pub fn fn_executed(self, f: Box<dyn Notify<CommandResponse>>) -> (inner: Self)
        ensures
            inner.received_hooks() == self.received_hooks(),
            inner.executed_hooks() == self.executed_hooks().push(f),
            inner.before_send_hooks() == self.before_send_hooks(),
            inner.after_send_hooks() == self.after_send_hooks(),
            inner.contents() == self.contents(),
            inner.reliable() == self.reliable(),
    {
        let mut inner = self;
        inner.on_executed.push(f);
        inner
    }

    /// Registers a hook that may change each response before it leaves.
    pub fn fn_before_send(self, f: Box<dyn NotifyMut<CommandResponse>>) -> (inner: Self)
        ensures
            inner.received_hooks() == self.received_hooks(),
            inner.executed_hooks() == self.executed_hooks(),
            inner.before_send_hooks() == self.before_send_hooks().push(f),
            inner.after_send_hooks() == self.after_send_hooks(),
            inner.contents() == self.contents(),
            inner.reliable() == self.reliable(),
    {
        let mut inner = self;
        inner.on_before_send.push(f);
        inner
    }

    /// Registers a hook that is told that a response has left.
    pub fn fn_after_send(self, f: Box<dyn Notify<()>>) -> (inner: Self)
        ensures
            inner.received_hooks() == self.received_hooks(),
            inner.executed_hooks() == self.executed_hooks(),
            inner.before_send_hooks() == self.before_send_hooks(),
            inner.after_send_hooks() == self.after_send_hooks().push(f),
            inner.contents() == self.contents(),
            inner.reliable() == self.reliable(),
    {
        let mut inner = self;
        inner.on_after_send.push(f);
        inner
    }

    /// Whether `res` may be what the service hands back for `cmd`: the
    /// handler's answer `made`, as the hooks before sending left it.
    pub open spec fn serves(
        &self,
        cmd: CommandRequest,
        res: CommandResponse,
        after: StoreView,
    ) -> bool {
        exists|made: CommandResponse| #[trigger]
            dispatched(cmd, self.contents(), self.reliable(), made@, after)
                && turned_by(self.before_send_hooks(), made, res)
    }

    /// Carries out a request that only reads, as [`Self::execute`] does,
    /// without a claim to change the store; a request that writes is
    /// handed back as it came, and no hook has then run.
    pub fn execute_read(&self, cmd: CommandRequest) -> (r: Result<CommandResponse, CommandRequest>)
        ensures
            match r {
                Ok(res) => reads_only(cmd) && self.serves(cmd, res, self.contents()),
                Err(back) => !reads_only(cmd) && back == cmd,
            },
    {
        if !is_read(&cmd) {
            return Err(cmd);
        }
        self.on_received.notify(&cmd);
        match dispatch_read(cmd, &self.store) {
            Ok(made) => {
                let mut res = made;
                let ghost made = res;
                self.on_executed.notify(&res);
                self.on_before_send.notify(&mut res);
                self.on_after_send.notify(&());
                assert(dispatched(cmd, self.contents(), self.reliable(), made@, self.contents()));
                Ok(res)
            },
            Err(back) => Err(back),
        }
    }

    /// Carries a request out: shows it to the hooks for received requests,
    /// dispatches it, shows the response to the hooks for executed
    /// commands, lets the hooks before sending change it, and tells the
    /// hooks after sending.
    pub fn execute(&mut self, cmd: CommandRequest) -> (res: CommandResponse)
        ensures
            old(self).serves(cmd, res, final(self).contents()),
            final(self).reliable() == old(self).reliable(),
            final(self).received_hooks() == old(self).received_hooks(),
            final(self).executed_hooks() == old(self).executed_hooks(),
            final(self).before_send_hooks() == old(self).before_send_hooks(),
            final(self).after_send_hooks() == old(self).after_send_hooks(),
    {
        self.on_received.notify(&cmd);
        let mut res = dispatch(cmd, &mut self.store);
        let ghost made = res;
        self.on_executed.notify(&res);
        self.on_before_send.notify(&mut res);
        self.on_after_send.notify(&());
        assert(dispatched(
            cmd,
            old(self).contents(),
            old(self).reliable(),
            made@,
            self.contents(),
        ));
        res
    }
}

/// What stays the same of a service while it is shared: whether its store
/// is reliable, and the hooks that may change a response.
pub struct Registered {
    pub reliable: bool,
    pub before_send: Seq<Box<dyn NotifyMut<CommandResponse>>>,
}

impl<Store: Storage> RwLockPredicate<ServiceInner<Store>> for Registered {
    open spec fn inv(self, inner: ServiceInner<Store>) -> bool {
        &&& inner.reliable() == self.reliable
        &&& inner.before_send_hooks() == self.before_send
    }
}

/// A handle to a service that can be cloned; all clones work on the same
/// store.
pub struct Service<Store: Storage = MemTable> {
    inner: Arc<RwLock<ServiceInner<Store>, Registered>>,
}

/// A second handle to the same value.
///
/// Trusted: `Arc::clone` gives a pointer to the same allocation, so both
/// point to one and the same value.
#[verifier::external_body]
fn share<T>(handle: &Arc<T>) -> (other: Arc<T>)
    ensures
        other == *handle,
{
    Arc::clone(handle)
}

impl<Store: Storage> Clone for Service<Store> {
    fn clone(&self) -> (other: Self)
        ensures
            other.registered() == self.registered(),
    {
        Self { inner: share(&self.inner) }
    }
}

impl<Store: Storage> Service<Store> {
    /// What was fixed when the service was made.
    pub closed spec fn registered(&self) -> Registered {
        self.inner.pred()
    }

    /// Carries a request out on the shared store, as
    /// [`ServiceInner::execute`] does. A request that only reads shares
    /// the store with other readers; a request that writes has the store
    /// to itself. The response answers the request on what the store held
    /// when its turn came.
    pub fn execute(&self, cmd: CommandRequest) -> (res: CommandResponse)
        ensures
            exists|made: CommandResponse, before: StoreView, after: StoreView| #[trigger]
                dispatched(cmd, before, self.registered().reliable, made@, after) && turned_by(
                    self.registered().before_send,
                    made,
                    res,
                ),
    {
        let cmd = if is_read(&cmd) {
            let reader = self.inner.acquire_read();
            let read = reader.borrow().execute_read(cmd);
            proof {
                if let Ok(res) = &read {
                    let inner = reader.view();
                    let made = choose|made: CommandResponse| #[trigger]
                        dispatched(
                            cmd,
                            inner.contents(),
                            inner.reliable(),
                            made@,
                            inner.contents(),
                        ) && turned_by(inner.before_send_hooks(), made, *res);
                    assert(dispatched(
                        cmd,
                        inner.contents(),
                        self.registered().reliable,
                        made@,
                        inner.contents(),
                    ));
                }
            }
            reader.release_read();
            match read {
                Ok(res) => {
                    return res;
                },
                Err(back) => back,
            }
        } else {
            cmd
        };
        let (mut inner, handle) = self.inner.acquire_write();
        let ghost before = inner.contents();
        let res = inner.execute(cmd);
        proof {
            let made = choose|made: CommandResponse| #[trigger]
                dispatched(cmd, before, inner.reliable(), made@, inner.contents()) && turned_by(
                    inner.before_send_hooks(),
                    made,
                    res,
                );
            assert(dispatched(cmd, before, self.registered().reliable, made@, inner.contents()));
        }
        handle.release_write(inner);
        res
    }
}

impl<Store: Storage> From<ServiceInner<Store>> for Service<Store> {
    fn from(inner: ServiceInner<Store>) -> (service: Self)
        ensures
            service.registered().reliable == inner.reliable(),
            service.registered().before_send == inner.before_send_hooks(),
    {
        let ghost registered = Registered {
            reliable: inner.reliable(),
            before_send: inner.before_send_hooks(),
        };
        Self { inner: Arc::new(RwLock::new(inner, Ghost(registered))) }
    }
}

impl<Store: Storage> vstd::std_specs::convert::FromSpecImpl<ServiceInner<Store>> for Service<Store> {
    open spec fn obeys_from_spec() -> bool {
        false
    }

    open spec fn from_spec(inner: ServiceInner<Store>) -> Self {
        arbitrary()
    }
}

} // verus!
