//! Hook and event tables, and the dispatch decisions taken on every executed
//! instruction and on every emitted event.
//!
//! The interceptor never runs a handler itself. Dispatch returns the ordered
//! list of handler invocations that are due; the caller performs them against
//! its script engine once it has let go of the interceptor, so a handler is
//! free to register further hooks while earlier invocations are still being
//! carried out. A handler that fails does not keep the caller from performing
//! the invocations that follow it.
//!
//! Where one thread emulates and another serves a control surface, the
//! interceptor belongs behind a lock that is held for one operation at a
//! time, never while a handler runs. Reading takes `&self`, changing takes
//! `&mut self`, and the snapshots are copies: whoever reads sees the tables
//! as some operation left them.

use std::collections::HashMap;
use vstd::prelude::*;

verus! {

/// How a handler is invoked.
#[derive(Clone, Copy, Debug, PartialEq, Eq, Structural)]
pub enum HandlerKind {
    /// A script function called with the event's own arguments only.
    Named,
    /// A script function that also receives the capability handle, through
    /// which it reads and writes registers and memory, moves the program
    /// counter and registers further hooks.
    Closure,
}

/// A registered interest in the instructions executed inside `[begin, end)`.
#[derive(Clone, Debug, PartialEq, Eq)]
pub struct CodeHook {
    pub id: u64,
    pub begin: u64,
    pub end: u64,
    pub kind: HandlerKind,
    pub handler: String,
}

/// The mathematical value of a [`CodeHook`].
pub struct CodeHookView {
    pub id: u64,
    pub begin: u64,
    pub end: u64,
    pub kind: HandlerKind,
    pub handler: Seq<char>,
}

impl View for CodeHook {
    type V = CodeHookView;

    open spec fn view(&self) -> CodeHookView {
        CodeHookView {
            id: self.id,
            begin: self.begin,
            end: self.end,
            kind: self.kind,
            handler: self.handler@,
        }
    }
}

impl CodeHookView {
    /// The range is not inverted.
    pub open spec fn wf(self) -> bool {
        self.begin <= self.end
    }

    /// The hook fires for the instruction occupying `[addr, addr + size)`
    /// exactly when that instruction lies wholly inside `[begin, end)`.
    pub open spec fn fires(self, addr: u64, size: u32) -> bool {
        addr >= self.begin && addr + size <= self.end
    }
}

impl CodeHook {
    /// Whether this hook fires for the instruction of `size` bytes at `addr`.
    pub fn fires(&self, addr: u64, size: u32) -> (fires: bool)
        ensures
            fires == self@.fires(addr, size),
    {
        addr >= self.begin && size as u64 <= self.end && addr <= self.end - size as u64
    }
}

/// One handler invocation that is due for an executed instruction.
#[derive(Debug)]
pub struct HookCall<'a, D> {
    /// Identifier of the hook that fired.
    pub id: u64,
    pub kind: HandlerKind,
    pub handler: String,
    /// Address of the executed instruction.
    pub addr: u64,
    /// Size of the executed instruction in bytes.
    pub size: u32,
    /// The payload attached to the hook when it was registered, if any.
    pub data: Option<&'a D>,
}

/// The mathematical value of a [`HookCall`].
pub struct HookCallView<D> {
    pub id: u64,
    pub kind: HandlerKind,
    pub handler: Seq<char>,
    pub addr: u64,
    pub size: u32,
    pub data: Option<D>,
}

impl<'a, D> View for HookCall<'a, D> {
    type V = HookCallView<D>;

    open spec fn view(&self) -> HookCallView<D> {
        HookCallView {
            id: self.id,
            kind: self.kind,
            handler: self.handler@,
            addr: self.addr,
            size: self.size,
            data: match self.data {
                Some(d) => Some(*d),
                None => None,
            },
        }
    }
}

/// The payload registered for `id`, if there is one.
pub open spec fn payload_of<D>(datas: Map<u64, D>, id: u64) -> Option<D> {
    if datas.contains_key(id) {
        Some(datas[id])
    } else {
        None
    }
}

/// The invocation that `hook` is owed for the instruction at `addr`.
pub open spec fn call_of<D>(hook: CodeHookView, datas: Map<u64, D>, addr: u64, size: u32)
    -> HookCallView<D> {
    HookCallView {
        id: hook.id,
        kind: hook.kind,
        handler: hook.handler,
        addr,
        size,
        data: payload_of(datas, hook.id),
    }
}

/// The hooks of `hooks` that fire for the instruction at `addr`, in table order.
pub open spec fn firing_hooks(hooks: Seq<CodeHookView>, addr: u64, size: u32) -> Seq<
    CodeHookView,
> {
    hooks.filter(|h: CodeHookView| h.fires(addr, size))
}

/// The invocations due for the instruction at `addr`: one per firing hook,
/// in table order, each with the hook's payload.
pub open spec fn firing_calls<D>(
    hooks: Seq<CodeHookView>,
    datas: Map<u64, D>,
    addr: u64,
    size: u32,
) -> Seq<HookCallView<D>> {
    firing_hooks(hooks, addr, size).map_values(|h: CodeHookView| call_of(h, datas, addr, size))
}

/// The views of a list of invocations.
pub open spec fn calls_view<'a, D>(calls: Seq<HookCall<'a, D>>) -> Seq<HookCallView<D>> {
    calls.map_values(|c: HookCall<'a, D>| c@)
}

/// The views of a list of hooks.
pub open spec fn hooks_view(hooks: Seq<CodeHook>) -> Seq<CodeHookView> {
    hooks.map_values(|h: CodeHook| h@)
}

/// No two hooks of the table share an identifier.
pub open spec fn ids_unique(hooks: Seq<CodeHookView>) -> bool {
    forall|i: int, j: int|
        0 <= i < hooks.len() && 0 <= j < hooks.len() && i != j ==> hooks[i].id != hooks[j].id
}

/// Some hook of the table carries the identifier `id`.
pub open spec fn has_id(hooks: Seq<CodeHookView>, id: u64) -> bool {
    exists|i: int| 0 <= i < hooks.len() && #[trigger] hooks[i].id == id
}

/// Why a hook registration was turned down.
#[derive(Clone, Copy, Debug, PartialEq, Eq, Structural)]
pub enum HookError {
    /// The hook type is not one the interceptor knows; only `"CODE"` is.
    UnknownHookType,
    /// The start address is negative.
    NegativeAddress,
    /// The range holds no byte.
    EmptyRange,
    /// The end of the range does not fit in 64 bits.
    RangeOverflow,
}

/// The `k`-th identifier tried when a registration starts from `candidate`:
/// the identifiers follow one another upwards and wrap around after the
/// largest.
pub open spec fn probe(candidate: u64, k: int) -> u64 {
    ((candidate + k) % 0x1_0000_0000_0000_0000) as u64
}

/// `id` is the first identifier, counting upwards from `candidate`, that no
/// hook of the table carries.
pub open spec fn first_free_from(hooks: Seq<CodeHookView>, candidate: u64, id: u64) -> bool {
    exists|k: int|
        {
            &&& 0 <= k <= hooks.len()
            &&& id == #[trigger] probe(candidate, k)
            &&& !has_id(hooks, id)
            &&& forall|j: int| 0 <= j < k ==> has_id(hooks, #[trigger] probe(candidate, j))
        }
}

/// Why the range of `size` bytes at `begin` cannot be hooked, if it cannot.
pub open spec fn range_error(begin: u64, size: u64) -> Option<HookError> {
    if size == 0 {
        Some(HookError::EmptyRange)
    } else if begin + size > u64::MAX {
        Some(HookError::RangeOverflow)
    } else {
        None
    }
}

/// Why a script's request for a hook is turned down, if it is. The hook type
/// is looked at first, then the address, then the size.
pub open spec fn request_error(hook_type: Seq<char>, address: i64, size: i64) -> Option<
    HookError,
> {
    if hook_type != "CODE"@ {
        Some(HookError::UnknownHookType)
    } else if address < 0 {
        Some(HookError::NegativeAddress)
    } else if size <= 0 {
        Some(HookError::EmptyRange)
    } else {
        None
    }
}

/// A table of `n` hooks cannot hold `n + 1` different identifiers, so the
/// identifiers tried from any candidate cannot all be taken.
pub proof fn lemma_some_probe_is_free(hooks: Seq<CodeHookView>, candidate: u64)
    requires
        hooks.len() < 0x1_0000_0000_0000_0000,
    ensures
        exists|k: int| 0 <= k <= hooks.len() && !has_id(hooks, #[trigger] probe(candidate, k)),
    decreases hooks.len(),
{
    let n = hooks.len() as int;
    if has_id(hooks, probe(candidate, n)) {
        let p = choose|p: int| 0 <= p < hooks.len() && #[trigger] hooks[p].id == probe(candidate, n);
        let rest = hooks.remove(p);
        lemma_some_probe_is_free(rest, candidate);
        let k = choose|k: int| 0 <= k <= rest.len() && !has_id(rest, #[trigger] probe(candidate, k));
        assert(probe(candidate, k) != probe(candidate, n));
        if has_id(hooks, probe(candidate, k)) {
            let q = choose|q: int|
                0 <= q < hooks.len() && #[trigger] hooks[q].id == probe(candidate, k);
            if q < p {
                assert(rest[q].id == probe(candidate, k));
            } else {
                assert(rest[q - 1].id == probe(candidate, k));
            }
        }
    }
}

/// Draws the identifier from which a registration starts looking for a free
/// one. Calls `rand::thread_rng` and `RngCore::next_u64`; nothing is claimed
/// of the number drawn.
#[verifier::external_body]
fn draw_candidate() -> (candidate: u64) {
    rand::RngCore::next_u64(&mut rand::thread_rng())
}

/// The hook and payload tables together with the event table.
pub struct Interceptor<D> {
    code_hooks: Vec<CodeHook>,
    /// One entry per registered hook, keyed by the hook's identifier; the
    /// entry holds the hook's payload where it has one.
    hook_datas: HashMap<u64, Option<D>>,
    on_events: Vec<EventCallback>,
}

/// A registered interest in the emission of a named event.
#[derive(Clone, Debug, PartialEq, Eq)]
pub struct EventCallback {
    pub event_type: String,
    pub kind: HandlerKind,
    pub handler: String,
}

/// The mathematical value of an [`EventCallback`].
pub struct EventCallbackView {
    pub event_type: Seq<char>,
    pub kind: HandlerKind,
    pub handler: Seq<char>,
}

impl View for EventCallback {
    type V = EventCallbackView;

    open spec fn view(&self) -> EventCallbackView {
        EventCallbackView {
            event_type: self.event_type@,
            kind: self.kind,
            handler: self.handler@,
        }
    }
}

/// One handler invocation that is due for an emitted event.
#[derive(Clone, Debug, PartialEq, Eq)]
pub struct EventCall {
    pub kind: HandlerKind,
    pub handler: String,
    /// The emitted event's type, handed to the handler.
    pub event_type: String,
    /// The emitted event's message, handed to the handler.
    pub message: String,
}

/// The mathematical value of an [`EventCall`].
pub struct EventCallView {
    pub kind: HandlerKind,
    pub handler: Seq<char>,
    pub event_type: Seq<char>,
    pub message: Seq<char>,
}

impl View for EventCall {
    type V = EventCallView;

    open spec fn view(&self) -> EventCallView {
        EventCallView {
            kind: self.kind,
            handler: self.handler@,
            event_type: self.event_type@,
            message: self.message@,
        }
    }
}

/// The views of a list of event invocations.
pub open spec fn event_calls_view(calls: Seq<EventCall>) -> Seq<EventCallView> {
    calls.map_values(|c: EventCall| c@)
}

/// The callbacks registered for `event_type`, in table order.
pub open spec fn listening(events: Seq<EventCallbackView>, event_type: Seq<char>) -> Seq<
    EventCallbackView,
> {
    events.filter(|e: EventCallbackView| e.event_type == event_type)
}

/// The invocations due when `event_type` is emitted with `message`: one per
/// callback registered for that type, in table order.
pub open spec fn emitted_calls(
    events: Seq<EventCallbackView>,
    event_type: Seq<char>,
    message: Seq<char>,
) -> Seq<EventCallView> {
    listening(events, event_type).map_values(
        |e: EventCallbackView|
            EventCallView { kind: e.kind, handler: e.handler, event_type, message },
    )
}

/// The views of a list of event callbacks.
pub open spec fn events_view(events: Seq<EventCallback>) -> Seq<EventCallbackView> {
    events.map_values(|e: EventCallback| e@)
}

/// Whether `hook_type` names the one kind of hook there is.
fn is_code_hook_type(hook_type: &String) -> (is_code: bool)
    ensures
        is_code == (hook_type@ == "CODE"@),
{
    let code = "CODE".to_owned();
    *hook_type == code
}

impl<D> Interceptor<D> {
    /// What a script's request for a hook on the `size` bytes at `address`
    /// does to the tables `pre`, leaving `post` and returning `result`.
    ///
    /// A request that is in order appends one hook, under an identifier that
    /// no other hook carries, and records its payload; one that is not leaves
    /// the tables as they were and says why.
    pub open spec fn requested(
        pre: Self,
        post: Self,
        result: Result<u64, HookError>,
        hook_type: Seq<char>,
        address: i64,
        size: i64,
        kind: HandlerKind,
        handler: Seq<char>,
        data: Option<D>,
    ) -> bool {
        &&& post.wf()
        &&& post.events() == pre.events()
        &&& match result {
            Ok(id) => {
                &&& request_error(hook_type, address, size) is None
                &&& !has_id(pre.hooks(), id)
                &&& post.hooks() == pre.hooks().push(
                    CodeHookView {
                        id,
                        begin: address as u64,
                        end: (address + size) as u64,
                        kind,
                        handler,
                    },
                )
                &&& post.datas() == match data {
                    Some(d) => pre.datas().insert(id, d),
                    None => pre.datas(),
                }
            },
            Err(e) => {
                &&& request_error(hook_type, address, size) == Some(e)
                &&& post.hooks() == pre.hooks()
                &&& post.datas() == pre.datas()
            },
        }
    }

    /// The hook table, in registration order.
    pub closed spec fn hooks(&self) -> Seq<CodeHookView> {
        hooks_view(self.code_hooks@)
    }

    /// The event table, in registration order.
    pub closed spec fn events(&self) -> Seq<EventCallbackView> {
        events_view(self.on_events@)
    }

    /// The payloads, keyed by hook identifier.
    pub closed spec fn datas(&self) -> Map<u64, D> {
        Map::new(
            |id: u64| self.hook_datas@.contains_key(id) && self.hook_datas@[id] is Some,
            |id: u64| self.hook_datas@[id]->0,
        )
    }

    /// The payload table has exactly one entry per registered hook.
    pub closed spec fn slots_match(&self) -> bool {
        forall|id: u64| self.hook_datas@.contains_key(id) <==> has_id(self.hooks(), id)
    }

    /// The tables are consistent: every range is well formed, identifiers are
    /// unique, and payloads belong to registered hooks only.
    ///
    /// Every interceptor that a program holds is consistent: the tables are
    /// private, and each operation leaves them consistent.
    pub open spec fn wf(&self) -> bool {
        &&& self.slots_match()
        &&& forall|i: int| 0 <= i < self.hooks().len() ==> (#[trigger] self.hooks()[i]).wf()
        &&& ids_unique(self.hooks())
        &&& forall|id: u64| self.datas().contains_key(id) ==> has_id(self.hooks(), id)
    }

    /// Consistency as the invariant of the type.
    #[verifier::type_invariant]
    spec fn consistent(&self) -> bool {
        self.wf()
    }

    /// An interceptor with empty tables.
    pub fn new() -> (interceptor: Self)
        ensures
            interceptor.wf(),
            interceptor.hooks() == Seq::<CodeHookView>::empty(),
            interceptor.events() == Seq::<EventCallbackView>::empty(),
            interceptor.datas() == Map::<u64, D>::empty(),
    {
        let interceptor = Interceptor {
            code_hooks: Vec::new(),
            hook_datas: HashMap::new(),
            on_events: Vec::new(),
        };
        assert(interceptor.datas() =~= Map::<u64, D>::empty());
        interceptor
    }

    /// The first identifier at or after `candidate` that no hook carries.
    fn fresh_id(&self, candidate: u64) -> (id: u64)
        ensures
            first_free_from(self.hooks(), candidate, id),
    {
        proof {
            use_type_invariant(self);
        }
        let mut id = candidate;
        let mut k: usize = 0;
        while self.hook_datas.contains_key(&id)
            invariant
                self.wf(),
                self.hooks().len() == self.code_hooks.len(),
                0 <= k <= self.code_hooks.len(),
                id == probe(candidate, k as int),
                forall|j: int| 0 <= j < k ==> has_id(self.hooks(), #[trigger] probe(candidate, j)),
            decreases self.code_hooks.len() - k,
        {
            proof {
                assert(has_id(self.hooks(), id));
                if k == self.code_hooks.len() {
                    lemma_some_probe_is_free(self.hooks(), candidate);
                }
            }
            id = if id == u64::MAX {
                0
            } else {
                id + 1
            };
            k += 1;
        }
        id
    }

    /// Registers a hook on the `size` bytes at `begin`, giving it the first
    /// free identifier at or after `candidate`.
    ///
    /// A range without bytes, or one whose end does not fit in 64 bits, is
    /// turned down and leaves the tables as they were.
    pub fn insert_code_hook(
        &mut self,
        candidate: u64,
        begin: u64,
        size: u64,
        kind: HandlerKind,
        handler: String,
        data: Option<D>,
    ) -> (result: Result<u64, HookError>)
        ensures
            final(self).wf(),
            final(self).events() == old(self).events(),
            match result {
                Ok(id) => {
                    &&& range_error(begin, size) is None
                    &&& first_free_from(old(self).hooks(), candidate, id)
                    &&& final(self).hooks() == old(self).hooks().push(
                        CodeHookView {
                            id,
                            begin,
                            end: (begin + size) as u64,
                            kind,
                            handler: handler@,
                        },
                    )
                    &&& final(self).datas() == match data {
                        Some(d) => old(self).datas().insert(id, d),
                        None => old(self).datas(),
                    }
                },
                Err(e) => {
                    &&& range_error(begin, size) == Some(e)
                    &&& final(self).hooks() == old(self).hooks()
                    &&& final(self).datas() == old(self).datas()
                },
            },
    {
        proof {
            use_type_invariant(&*self);
        }
        if size == 0 {
            return Err(HookError::EmptyRange);
        }
        if begin > u64::MAX - size {
            return Err(HookError::RangeOverflow);
        }
        let id = self.fresh_id(candidate);
        let hook = CodeHook { id, begin, end: begin + size, kind, handler };
        let ghost old_hooks = self.hooks();
        let ghost old_datas = self.datas();
        let ghost old_events = self.events();
        let ghost new_hooks = old_hooks.push(hook@);
        // The tables are taken out, extended, and put back together: at no
        // point does an interceptor exist whose tables disagree.
        let mut taken = Interceptor::new();
        core::mem::swap(self, &mut taken);
        let Interceptor { code_hooks, hook_datas, on_events } = taken;
        let mut code_hooks = code_hooks;
        let mut hook_datas = hook_datas;
        code_hooks.push(hook);
        hook_datas.insert(id, data);
        proof {
            assert(hooks_view(code_hooks@) =~= new_hooks);
            assert forall|other: u64| has_id(new_hooks, other) <==> (other == id || has_id(
                old_hooks,
                other,
            )) by {
                if has_id(new_hooks, other) {
                    let i = choose|i: int|
                        0 <= i < new_hooks.len() && #[trigger] new_hooks[i].id == other;
                    if i < old_hooks.len() {
                        assert(old_hooks[i].id == other);
                    }
                }
                if other == id {
                    assert(new_hooks[old_hooks.len() as int].id == other);
                }
                if has_id(old_hooks, other) {
                    let i = choose|i: int|
                        0 <= i < old_hooks.len() && #[trigger] old_hooks[i].id == other;
                    assert(new_hooks[i].id == other);
                }
            }
            assert forall|i: int, j: int|
                0 <= i < new_hooks.len() && 0 <= j < new_hooks.len() && i != j implies new_hooks[i].id
                != new_hooks[j].id by {
                if i < old_hooks.len() {
                    assert(old_hooks[i].id == new_hooks[i].id);
                }
                if j < old_hooks.len() {
                    assert(old_hooks[j].id == new_hooks[j].id);
                }
            }
        }
        let extended = Interceptor { code_hooks, hook_datas, on_events };
        proof {
            assert(extended.hooks() == new_hooks);
            assert(extended.events() == old_events);
            assert(extended.datas() =~= match data {
                Some(d) => old_datas.insert(id, d),
                None => old_datas,
            });
        }
        *self = extended;
        Ok(id)
    }

    /// Registers a hook on the `size` bytes at `begin` under an identifier
    /// that no other hook carries, and returns the identifier.
    ///
    /// The identifier is drawn at random and, should a hook carry it already,
    /// replaced by the next free one.
    pub fn add_code_hook(
        &mut self,
        begin: u64,
        size: u64,
        kind: HandlerKind,
        handler: String,
        data: Option<D>,
    ) -> (result: Result<u64, HookError>)
        ensures
            final(self).wf(),
            final(self).events() == old(self).events(),
            match result {
                Ok(id) => {
                    &&& range_error(begin, size) is None
                    &&& !has_id(old(self).hooks(), id)
                    &&& final(self).hooks() == old(self).hooks().push(
                        CodeHookView {
                            id,
                            begin,
                            end: (begin + size) as u64,
                            kind,
                            handler: handler@,
                        },
                    )
                    &&& final(self).datas() == match data {
                        Some(d) => old(self).datas().insert(id, d),
                        None => old(self).datas(),
                    }
                },
                Err(e) => {
                    &&& range_error(begin, size) == Some(e)
                    &&& final(self).hooks() == old(self).hooks()
                    &&& final(self).datas() == old(self).datas()
                },
            },
    {
        let candidate = draw_candidate();
        self.insert_code_hook(candidate, begin, size, kind, handler, data)
    }

    /// Checks a script's request and registers the hook it asks for.
    fn request_hook(
        &mut self,
        hook_type: String,
        address: i64,
        size: i64,
        kind: HandlerKind,
        handler: String,
        data: Option<D>,
    ) -> (result: Result<u64, HookError>)
        ensures
            Self::requested(
                *old(self),
                *final(self),
                result,
                hook_type@,
                address,
                size,
                kind,
                handler@,
                data,
            ),
    {
        proof {
            use_type_invariant(&*self);
        }
        if !is_code_hook_type(&hook_type) {
            return Err(HookError::UnknownHookType);
        }
        if address < 0 {
            return Err(HookError::NegativeAddress);
        }
        if size <= 0 {
            return Err(HookError::EmptyRange);
        }
        self.add_code_hook(address as u64, size as u64, kind, handler, data)
    }

    /// Registers a hook of type `hook_type` on the `size` bytes at `address`
    /// whose handler is the script function `function_name`.
    pub fn add_hook(
        &mut self,
        hook_type: String,
        address: i64,
        size: i64,
        function_name: String,
    ) -> (result: Result<u64, HookError>)
        ensures
            Self::requested(
                *old(self),
                *final(self),
                result,
                hook_type@,
                address,
                size,
                HandlerKind::Named,
                function_name@,
                None,
            ),
    {
        self.request_hook(hook_type, address, size, HandlerKind::Named, function_name, None)
    }

    /// Registers a hook of type `hook_type` on the `size` bytes at `address`
    /// whose handler is the script closure named `callback`; the handler
    /// receives the capability handle.
    pub fn add_cb_hook(
        &mut self,
        hook_type: String,
        address: i64,
        size: i64,
        callback: String,
    ) -> (result: Result<u64, HookError>)
        ensures
            Self::requested(
                *old(self),
                *final(self),
                result,
                hook_type@,
                address,
                size,
                HandlerKind::Closure,
                callback@,
                None,
            ),
    {
        self.request_hook(hook_type, address, size, HandlerKind::Closure, callback, None)
    }

    /// As [`Interceptor::add_hook`], with a payload that every invocation of
    /// the handler is given.
    pub fn add_hook_with_data(
        &mut self,
        hook_type: String,
        address: i64,
        size: i64,
        function_name: String,
        data: D,
    ) -> (result: Result<u64, HookError>)
        ensures
            Self::requested(
                *old(self),
                *final(self),
                result,
                hook_type@,
                address,
                size,
                HandlerKind::Named,
                function_name@,
                Some(data),
            ),
    {
        self.request_hook(
            hook_type,
            address,
            size,
            HandlerKind::Named,
            function_name,
            Some(data),
        )
    }

    /// As [`Interceptor::add_cb_hook`], with a payload that every invocation
    /// of the handler is given.
    pub fn add_cb_hook_with_data(
        &mut self,
        hook_type: String,
        address: i64,
        size: i64,
        callback: String,
        data: D,
    ) -> (result: Result<u64, HookError>)
        ensures
            Self::requested(
                *old(self),
                *final(self),
                result,
                hook_type@,
                address,
                size,
                HandlerKind::Closure,
                callback@,
                Some(data),
            ),
    {
        self.request_hook(hook_type, address, size, HandlerKind::Closure, callback, Some(data))
    }

    /// Appends a callback for `event_type` to the event table.
    fn push_event(&mut self, event_type: String, handler: String)
        ensures
            final(self).wf(),
            final(self).hooks() == old(self).hooks(),
            final(self).datas() == old(self).datas(),
            final(self).events() == old(self).events().push(
                EventCallbackView {
                    event_type: event_type@,
                    kind: HandlerKind::Closure,
                    handler: handler@,
                },
            ),
    {
        proof {
            use_type_invariant(&*self);
        }
        let callback = EventCallback { event_type, kind: HandlerKind::Closure, handler };
        let ghost old_hooks = self.hooks();
        let ghost old_datas = self.datas();
        let ghost old_events = self.events();
        let mut taken = Interceptor::new();
        core::mem::swap(self, &mut taken);
        let Interceptor { code_hooks, hook_datas, on_events } = taken;
        let mut on_events = on_events;
        on_events.push(callback);
        let extended = Interceptor { code_hooks, hook_datas, on_events };
        proof {
            assert(extended.hooks() == old_hooks);
            assert(extended.events() =~= old_events.push(callback@));
            assert(extended.datas() =~= old_datas);
        }
        *self = extended;
    }

    /// Registers the script function `function_name` as a callback for the
    /// events of type `event_type`. Any number of callbacks may share a type.
    ///
    /// An event callback always receives the capability handle, so it is
    /// recorded as [`HandlerKind::Closure`].
    pub fn on_event(&mut self, event_type: String, function_name: String)
        ensures
            final(self).wf(),
            final(self).hooks() == old(self).hooks(),
            final(self).datas() == old(self).datas(),
            final(self).events() == old(self).events().push(
                EventCallbackView {
                    event_type: event_type@,
                    kind: HandlerKind::Closure,
                    handler: function_name@,
                },
            ),
    {
        self.push_event(event_type, function_name)
    }

    /// Registers the script closure named `callback` as a callback for the
    /// events of type `event_type`.
    pub fn on_cb_event(&mut self, event_type: String, callback: String)
        ensures
            final(self).wf(),
            final(self).hooks() == old(self).hooks(),
            final(self).datas() == old(self).datas(),
            final(self).events() == old(self).events().push(
                EventCallbackView {
                    event_type: event_type@,
                    kind: HandlerKind::Closure,
                    handler: callback@,
                },
            ),
    {
        self.push_event(event_type, callback)
    }

    /// The handler invocations due when an event of type `event_type` is
    /// emitted with the message `msg`: one for every callback registered for
    /// that type, in registration order. Callbacks of other types are left out.
    pub fn emit(&self, event_type: String, msg: String) -> (calls: Vec<EventCall>)
        ensures
            event_calls_view(calls@) == emitted_calls(self.events(), event_type@, msg@),
    {
        let mut calls: Vec<EventCall> = Vec::new();
        let mut i: usize = 0;
        proof {
            reveal(Seq::filter);
            assert(self.events().take(0) =~= Seq::<EventCallbackView>::empty());
        }
        while i < self.on_events.len()
            invariant
                0 <= i <= self.on_events.len(),
                event_calls_view(calls@) == emitted_calls(
                    self.events().take(i as int),
                    event_type@,
                    msg@,
                ),
            decreases self.on_events.len() - i,
        {
            let event = &self.on_events[i];
            let ghost before = self.events().take(i as int);
            let ghost after = self.events().take(i + 1);
            proof {
                reveal(Seq::filter);
                assert(after.drop_last() =~= before);
                assert(after.last() == event@);
            }
            if event.event_type == event_type {
                let call = EventCall {
                    kind: event.kind,
                    handler: event.handler.clone(),
                    event_type: event_type.clone(),
                    message: msg.clone(),
                };
                let ghost old_calls = calls@;
                calls.push(call);
                proof {
                    assert(event_calls_view(calls@) =~= event_calls_view(old_calls).push(call@));
                    assert(emitted_calls(after, event_type@, msg@) =~= emitted_calls(
                        before,
                        event_type@,
                        msg@,
                    ).push(call@));
                }
            } else {
                proof {
                    assert(emitted_calls(after, event_type@, msg@) =~= emitted_calls(
                        before,
                        event_type@,
                        msg@,
                    ));
                }
            }
            i += 1;
        }
        proof {
            assert(self.events().take(i as int) =~= self.events());
        }
        calls
    }

    /// A copy of the hook table, in registration order.
    ///
    /// The copy is whole: it is the table as the last operation left it,
    /// every hook in it has a well-formed range, and no two share an
    /// identifier.
    pub fn get_code_hooks(&self) -> (hooks: Vec<CodeHook>)
        ensures
            hooks_view(hooks@) == self.hooks(),
            forall|i: int| 0 <= i < hooks@.len() ==> (#[trigger] hooks@[i])@.wf(),
            ids_unique(hooks_view(hooks@)),
    {
        proof {
            use_type_invariant(self);
        }
        let mut hooks: Vec<CodeHook> = Vec::new();
        let mut i: usize = 0;
        while i < self.code_hooks.len()
            invariant
                0 <= i <= self.code_hooks.len(),
                hooks_view(hooks@) == self.hooks().take(i as int),
            decreases self.code_hooks.len() - i,
        {
            let hook = &self.code_hooks[i];
            let copy = CodeHook {
                id: hook.id,
                begin: hook.begin,
                end: hook.end,
                kind: hook.kind,
                handler: hook.handler.clone(),
            };
            let ghost old_hooks = hooks@;
            hooks.push(copy);
            proof {
                assert(hooks_view(hooks@) =~= hooks_view(old_hooks).push(copy@));
                assert(self.hooks().take(i + 1) =~= self.hooks().take(i as int).push(hook@));
            }
            i += 1;
        }
        proof {
            assert(self.hooks().take(i as int) =~= self.hooks());
            assert forall|k: int| 0 <= k < hooks@.len() implies (#[trigger] hooks@[k])@.wf() by {
                assert(hooks_view(hooks@)[k] == hooks@[k]@);
            }
        }
        hooks
    }

    /// A copy of the event table, in registration order.
    pub fn get_event_hooks(&self) -> (events: Vec<EventCallback>)
        ensures
            events_view(events@) == self.events(),
    {
        let mut events: Vec<EventCallback> = Vec::new();
        let mut i: usize = 0;
        while i < self.on_events.len()
            invariant
                0 <= i <= self.on_events.len(),
                events_view(events@) == self.events().take(i as int),
            decreases self.on_events.len() - i,
        {
            let event = &self.on_events[i];
            let copy = EventCallback {
                event_type: event.event_type.clone(),
                kind: event.kind,
                handler: event.handler.clone(),
            };
            let ghost old_events = events@;
            events.push(copy);
            proof {
                assert(events_view(events@) =~= events_view(old_events).push(copy@));
                assert(self.events().take(i + 1) =~= self.events().take(i as int).push(event@));
            }
            i += 1;
        }
        proof {
            assert(self.events().take(i as int) =~= self.events());
        }
        events
    }

    /// The handler invocations due for the executed instruction of `size`
    /// bytes at `addr`: one for every hook whose range wholly contains the
    /// instruction, in registration order, each with the payload attached to
    /// its hook.
    pub fn on_code_hook(&self, addr: u64, size: u32) -> (calls: Vec<HookCall<'_, D>>)
        ensures
            calls_view(calls@) == firing_calls(self.hooks(), self.datas(), addr, size),
    {
        let mut calls: Vec<HookCall<'_, D>> = Vec::new();
        let mut i: usize = 0;
        proof {
            use_type_invariant(self);
            reveal(Seq::filter);
            assert(self.hooks().take(0) =~= Seq::<CodeHookView>::empty());
        }
        while i < self.code_hooks.len()
            invariant
                self.wf(),
                0 <= i <= self.code_hooks.len(),
                calls_view(calls@) == firing_calls(
                    self.hooks().take(i as int),
                    self.datas(),
                    addr,
                    size,
                ),
            decreases self.code_hooks.len() - i,
        {
            let hook = &self.code_hooks[i];
            let ghost before = self.hooks().take(i as int);
            let ghost after = self.hooks().take(i + 1);
            proof {
                reveal(Seq::filter);
                assert(after.drop_last() =~= before);
                assert(after.last() == hook@);
            }
            if hook.fires(addr, size) {
                let data: Option<&D> = match self.hook_datas.get(&hook.id) {
                    Some(slot) => slot.as_ref(),
                    None => None,
                };
                let call = HookCall {
                    id: hook.id,
                    kind: hook.kind,
                    handler: hook.handler.clone(),
                    addr,
                    size,
                    data,
                };
                proof {
                    assert(call@ == call_of(hook@, self.datas(), addr, size));
                }
                let ghost old_calls = calls@;
                calls.push(call);
                proof {
                    assert(calls_view(calls@) =~= calls_view(old_calls).push(call@));
                    assert(firing_calls(after, self.datas(), addr, size) =~= firing_calls(
                        before,
                        self.datas(),
                        addr,
                        size,
                    ).push(call_of(hook@, self.datas(), addr, size)));
                }
            } else {
                proof {
                    assert(firing_calls(after, self.datas(), addr, size) =~= firing_calls(
                        before,
                        self.datas(),
                        addr,
                        size,
                    ));
                }
            }
            i += 1;
        }
        proof {
            assert(self.hooks().take(i as int) =~= self.hooks());
        }
        calls
    }
}

/// A hook is among those that fire for an instruction exactly when it is in
/// the table and its range wholly contains the instruction.
pub proof fn lemma_fires_iff_contained(
    hooks: Seq<CodeHookView>,
    addr: u64,
    size: u32,
    hook: CodeHookView,
)
    ensures
        firing_hooks(hooks, addr, size).contains(hook) <==> (hooks.contains(hook) && addr
            >= hook.begin && addr + size <= hook.end),
{
    let fires = |h: CodeHookView| h.fires(addr, size);
    let firing = hooks.filter(fires);
    if firing.contains(hook) {
        let a = choose|a: int| 0 <= a < firing.len() && firing[a] == hook;
        hooks.lemma_filter_pred(fires, a);
        hooks.lemma_filter_contains_rev(fires, hook);
    }
    if hooks.contains(hook) && hook.fires(addr, size) {
        let i = choose|i: int| 0 <= i < hooks.len() && hooks[i] == hook;
        hooks.lemma_filter_contains(fires, i);
    }
}

/// The `i`-th hook of a table with unique identifiers is invoked for an
/// instruction exactly when its range wholly contains the instruction.
pub proof fn lemma_invoked_iff_contained<D>(
    hooks: Seq<CodeHookView>,
    datas: Map<u64, D>,
    addr: u64,
    size: u32,
    i: int,
)
    requires
        ids_unique(hooks),
        0 <= i < hooks.len(),
    ensures
        (exists|c: int|
            0 <= c < firing_calls(hooks, datas, addr, size).len() && (#[trigger] firing_calls(
                hooks,
                datas,
                addr,
                size,
            )[c]).id == hooks[i].id) <==> (addr >= hooks[i].begin && addr + size <= hooks[i].end),
{
    let firing = firing_hooks(hooks, addr, size);
    let calls = firing_calls(hooks, datas, addr, size);
    lemma_fires_iff_contained(hooks, addr, size, hooks[i]);
    if exists|c: int| 0 <= c < calls.len() && (#[trigger] calls[c]).id == hooks[i].id {
        let c = choose|c: int| 0 <= c < calls.len() && (#[trigger] calls[c]).id == hooks[i].id;
        assert(firing.contains(firing[c]));
        lemma_fires_iff_contained(hooks, addr, size, firing[c]);
        let j = choose|j: int| 0 <= j < hooks.len() && hooks[j] == firing[c];
        assert(j == i);
    }
    if hooks[i].fires(addr, size) {
        assert(hooks.contains(hooks[i]));
        let c = choose|c: int| 0 <= c < firing.len() && firing[c] == hooks[i];
        assert(calls[c].id == hooks[i].id);
    }
}

/// An instruction that spans a hook's range exactly makes the hook fire.
pub proof fn lemma_exact_span_fires(hook: CodeHookView)
    requires
        hook.wf(),
        hook.end - hook.begin <= u32::MAX,
    ensures
        hook.fires(hook.begin, (hook.end - hook.begin) as u32),
{
}

/// An instruction that reaches past a hook's end, be it by one byte, does not
/// make the hook fire.
pub proof fn lemma_past_end_does_not_fire(hook: CodeHookView, addr: u64, size: u32)
    requires
        addr + size > hook.end,
    ensures
        !hook.fires(addr, size),
{
}

/// `pos` gives, for each element of `firing`, its place in `hooks`, and the
/// places rise from one element to the next.
pub open spec fn in_table_order(
    hooks: Seq<CodeHookView>,
    firing: Seq<CodeHookView>,
    pos: Seq<int>,
) -> bool {
    &&& pos.len() == firing.len()
    &&& forall|a: int|
        0 <= a < pos.len() ==> 0 <= #[trigger] pos[a] < hooks.len() && hooks[pos[a]] == firing[a]
    &&& forall|a: int, b: int| 0 <= a < b < pos.len() ==> pos[a] < pos[b]
}

/// The hooks that fire for an instruction fire in the order in which they
/// were registered: the proof returns the table position of each.
pub proof fn lemma_fires_in_registration_order(hooks: Seq<CodeHookView>, addr: u64, size: u32)
    -> (pos: Seq<int>)
    ensures
        in_table_order(hooks, firing_hooks(hooks, addr, size), pos),
    decreases hooks.len(),
{
    reveal(Seq::filter);
    if hooks.len() == 0 {
        Seq::empty()
    } else {
        let before = lemma_fires_in_registration_order(hooks.drop_last(), addr, size);
        if hooks.last().fires(addr, size) {
            before.push(hooks.len() - 1)
        } else {
            before
        }
    }
}

/// Where every hook of the table contains the instruction, all of them fire,
/// in registration order.
pub proof fn lemma_overlapping_hooks_all_fire(hooks: Seq<CodeHookView>, addr: u64, size: u32)
    requires
        forall|i: int| 0 <= i < hooks.len() ==> (#[trigger] hooks[i]).fires(addr, size),
    ensures
        firing_hooks(hooks, addr, size) == hooks,
    decreases hooks.len(),
{
    reveal(Seq::filter);
    if hooks.len() > 0 {
        lemma_overlapping_hooks_all_fire(hooks.drop_last(), addr, size);
        assert(hooks.drop_last().push(hooks.last()) =~= hooks);
    }
}

/// Dispatch depends on the tables and the instruction alone: as long as the
/// tables stay as they are, the same instruction is owed the same invocations
/// every time it executes.
pub proof fn lemma_dispatch_repeats<D>(
    first: Interceptor<D>,
    second: Interceptor<D>,
    addr: u64,
    size: u32,
)
    requires
        first.hooks() == second.hooks(),
        first.datas() == second.datas(),
    ensures
        firing_calls(first.hooks(), first.datas(), addr, size) == firing_calls(
            second.hooks(),
            second.datas(),
            addr,
            size,
        ),
{
}

/// No two hooks of a consistent interceptor carry the same identifier,
/// however many were registered.
pub proof fn lemma_identifiers_differ<D>(interceptor: Interceptor<D>, i: int, j: int)
    requires
        interceptor.wf(),
        0 <= i < interceptor.hooks().len(),
        0 <= j < interceptor.hooks().len(),
        i != j,
    ensures
        interceptor.hooks()[i].id != interceptor.hooks()[j].id,
{
}

/// A payload given at registration reaches the handler unchanged: once a hook
/// was registered with `data`, every instruction inside its range is owed an
/// invocation of that hook, the last of the list, which carries `data`.
pub proof fn lemma_payload_round_trip<D>(
    pre: Interceptor<D>,
    post: Interceptor<D>,
    id: u64,
    begin: u64,
    end: u64,
    kind: HandlerKind,
    handler: Seq<char>,
    data: D,
    addr: u64,
    size: u32,
)
    requires
        post.hooks() == pre.hooks().push(CodeHookView { id, begin, end, kind, handler }),
        post.datas() == pre.datas().insert(id, data),
        addr >= begin,
        addr + size <= end,
    ensures
        firing_calls(post.hooks(), post.datas(), addr, size).len() > 0,
        firing_calls(post.hooks(), post.datas(), addr, size).last() == (HookCallView {
            id,
            kind,
            handler,
            addr,
            size,
            data: Some(data),
        }),
{
    reveal(Seq::filter);
    let hook = CodeHookView { id, begin, end, kind, handler };
    assert(post.hooks().drop_last() =~= pre.hooks());
    assert(post.hooks().last() == hook);
    assert(firing_hooks(post.hooks(), addr, size) =~= firing_hooks(pre.hooks(), addr, size).push(
        hook,
    ));
}

} // verus!
