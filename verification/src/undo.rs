//! The undo manager: it records the local transactions of a document and takes
//! them back, or brings them back, one step at a time.

use vstd::prelude::*;
use std::sync::mpsc::Receiver;
use std::sync::mpsc::Sender;
use std::time::Duration;
use std::time::SystemTime;
use crate::container::holds_null;
use crate::container::null_value;
use crate::cursor::AbsolutePosition;
use crate::cursor::Cursor;
use crate::doc::containers_kept;
use crate::doc::sound_doc;
use crate::doc::DocHandle;
use crate::doc::LoroDoc;
use crate::err::settle;
use crate::err::error_of;
use crate::err::outside_error;
use crate::err::ErrorKind;
use crate::err::OutsideError;
use crate::event::DiffEvent;
use crate::event::RawEvent;
use crate::value::LoroValue;
use crate::value::Side;
use crate::window::MergeWindow;
use crate::window::PushRecord;
use crate::window::outcome;
use crate::window::trimmed;
use crate::window::WindowView;

verus! {

/// Which of the two stacks an entry goes to or comes from.
#[derive(Clone, Copy, Debug, PartialEq, Eq, Structural, Hash)]
pub enum UndoOrRedo {
    Undo,
    Redo,
}

/// The operations of one peer from the counter `start` up to, not including,
/// `end`.
#[derive(Clone, Copy, Debug, PartialEq, Eq, Structural, Hash)]
pub struct CounterSpan {
    pub start: i32,
    pub end: i32,
}

/// A cursor with the position at which it stood when it was recorded.
pub struct CursorWithPos {
    pub cursor: Cursor,
    pub pos: AbsolutePosition,
}

/// What an application attaches to a transaction when it is pushed onto a
/// stack, and gets back when it is popped: a value of its choice and the
/// cursors to restore, such as those of a selection.
pub struct UndoItemMeta {
    pub value: LoroValue,
    pub cursors: Vec<CursorWithPos>,
}

impl UndoItemMeta {
    /// Nothing to attach: the null value and no cursor.
    pub fn new() -> (meta: UndoItemMeta)
        ensures
            holds_null(meta.value),
            meta.cursors@.len() == 0,
    {
        UndoItemMeta { value: null_value(), cursors: Vec::new() }
    }
}

/// `std::sync::mpsc::Sender`.
#[verifier::external_type_specification]
#[verifier::external_body]
#[verifier::reject_recursive_types(T)]
pub struct ExSender<T>(std::sync::mpsc::Sender<T>);

/// `std::sync::mpsc::Receiver`.
#[verifier::external_type_specification]
#[verifier::external_body]
#[verifier::reject_recursive_types(T)]
pub struct ExReceiver<T>(std::sync::mpsc::Receiver<T>);

/// `std::time::SystemTime`.
#[verifier::external_type_specification]
#[verifier::external_body]
pub struct ExSystemTime(std::time::SystemTime);

/// A `loro::UndoManager`, with a second reference to its document. It keeps
/// every transaction apart; which of them make one step is for `MergeWindow`
/// to say.
#[verifier::external_body]
pub struct UndoHandle {
    raw: loro::UndoManager,
    doc: loro::LoroDoc,
}

/// Whether `d` is the document that the manager `m` was made for.
pub uninterp spec fn manages(m: UndoHandle, d: DocHandle) -> bool;

/// Both are managers of the same document.
pub open spec fn same_binding(a: UndoHandle, b: UndoHandle) -> bool {
    forall|d: DocHandle| #[trigger] manages(a, d) == manages(b, d)
}

/// The prefixes that the manager `m` excludes, in the order in which they were
/// added: a local transaction whose origin starts with one of them is not
/// recorded.
pub uninterp spec fn undo_excluded(m: UndoHandle) -> Seq<Seq<char>>;

/// Whether a hook of the application is asked what to attach to a transaction
/// that `m` pushes.
pub uninterp spec fn push_hooked(m: UndoHandle) -> bool;

/// Whether a hook of the application is handed what was attached to a
/// transaction that `m` pops.
pub uninterp spec fn pop_hooked(m: UndoHandle) -> bool;

/// Both exclude the same prefixes and have hooks in the same places.
pub open spec fn same_hooks(a: UndoHandle, b: UndoHandle) -> bool {
    &&& undo_excluded(a) == undo_excluded(b)
    &&& push_hooked(a) == push_hooked(b)
    &&& pop_hooked(a) == pop_hooked(b)
}

/// Whether a transaction of the origin `origin` is left out by `prefixes`:
/// whether its origin starts with one of them.
pub open spec fn left_out(prefixes: Seq<Seq<char>>, origin: Seq<char>) -> bool {
    exists|i: int| 0 <= i < prefixes.len() && #[trigger] prefixes[i].is_prefix_of(origin)
}

/// With one more prefix, the origins left out are those that were, and those
/// that start with the new prefix.
pub proof fn lemma_left_out_grows(prefixes: Seq<Seq<char>>, prefix: Seq<char>, origin: Seq<char>)
    ensures
        left_out(prefixes.push(prefix), origin) == (left_out(prefixes, origin)
            || prefix.is_prefix_of(origin)),
{
    let more = prefixes.push(prefix);
    if left_out(prefixes, origin) {
        let i = choose|i: int| 0 <= i < prefixes.len() && #[trigger] prefixes[i].is_prefix_of(origin);
        assert(more[i].is_prefix_of(origin));
    }
    if prefix.is_prefix_of(origin) {
        assert(more[prefixes.len() as int].is_prefix_of(origin));
    }
    if left_out(more, origin) {
        let i = choose|i: int| 0 <= i < more.len() && #[trigger] more[i].is_prefix_of(origin);
        if i < prefixes.len() {
            assert(prefixes[i].is_prefix_of(origin));
        }
    }
}

/// A `loro::UndoItemMeta`.
#[verifier::external_body]
pub struct RawMeta {
    raw: loro::UndoItemMeta,
}

/// `UndoManager::new` for the document, with a second reference to the
/// document as `LoroDoc::clone` gives it. A new manager excludes no prefix and
/// has no hook.
#[verifier::external_body]
fn raw_new(doc: &DocHandle) -> (m: UndoHandle)
    ensures
        manages(m, *doc),
        undo_excluded(m).len() == 0,
        !push_hooked(m),
        !pop_hooked(m),
{
    UndoHandle { raw: loro::UndoManager::new(&doc.raw), doc: doc.raw.clone() }
}

/// Whether `doc` is the document that the manager was made for: whether both
/// references lead to one place, which `std::ptr::eq` tells.
#[verifier::external_body]
fn raw_manages(m: &UndoHandle, doc: &DocHandle) -> (r: bool)
    ensures
        r == manages(*m, *doc),
{
    std::ptr::eq::<loro_internal::LoroDocInner>(&**m.doc.inner(), &**doc.raw.inner())
}

/// `std::sync::mpsc::channel`: a way for pushes from the hook to the manager.
#[verifier::external_body]
fn new_channel() -> (ends: (Sender<PushRecord>, Receiver<PushRecord>))
{
    std::sync::mpsc::channel()
}

/// `Clone::clone` of a `Sender`: a second entry to the same way.
#[verifier::external_body]
fn second_sender(to: &Sender<PushRecord>) -> (again: Sender<PushRecord>)
{
    to.clone()
}

/// `Sender::send`. A record that nobody is left to receive is dropped.
#[verifier::external_body]
fn send(to: &Sender<PushRecord>, record: PushRecord)
{
    let _ = to.send(record);
}

/// `Receiver::try_recv`: the record that was sent first of those that were not
/// received yet, if there is one. Which it is depends on what the hook has
/// sent since.
#[verifier::external_body]
fn receive(from: &Receiver<PushRecord>) -> (record: Option<PushRecord>)
{
    from.try_recv().ok()
}

/// `SystemTime::now`.
#[verifier::external_body]
fn time_now() -> (now: SystemTime)
{
    SystemTime::now()
}

/// `SystemTime::duration_since` the beginning of 1970; `None` for a time before
/// it.
#[verifier::external_body]
fn since_epoch(time: &SystemTime) -> (d: Option<Duration>)
{
    time.duration_since(std::time::UNIX_EPOCH).ok()
}

/// `Duration::as_millis`.
#[verifier::external_body]
fn to_millis(d: &Duration) -> (ms: u128)
{
    d.as_millis()
}

/// The time that the clock shows, in milliseconds since 1970; `None` where the
/// clock stands before 1970.
fn clock() -> (now: Option<u128>) {
    match since_epoch(&time_now()) {
        Some(d) => Some(to_millis(&d)),
        None => None,
    }
}

/// What `UndoManager::undo` of the manager `m` gives on its document `d`: what
/// it returns, an error as `outside_error` reads it, and the manager and the
/// document that it leaves.
pub uninterp spec fn undo_step(m: UndoHandle, d: DocHandle) -> (
    Result<bool, OutsideError>,
    UndoHandle,
    DocHandle,
);

/// What `UndoManager::redo` of the manager `m` gives on its document `d`, as
/// `undo_step` does for an undo.
pub uninterp spec fn redo_step(m: UndoHandle, d: DocHandle) -> (
    Result<bool, OutsideError>,
    UndoHandle,
    DocHandle,
);

/// The manager that `UndoManager::record_new_checkpoint` of the manager `m`
/// leaves on its document `d`.
pub uninterp spec fn checkpointed(m: UndoHandle, d: DocHandle) -> UndoHandle;

/// What `loro` answered to an undo or a redo, an error as `outside_error` reads
/// it.
pub open spec fn answer_of(r: Option<Result<bool, loro::LoroError>>) -> Result<bool, OutsideError> {
    match r {
        Some(Ok(b)) => Ok(b),
        Some(Err(e)) => Err(outside_error(e)),
        None => Err(OutsideError::Other),
    }
}

/// Whether a call answered `r` and left the manager `m` and the document `d`,
/// as `step` says.
pub open spec fn gave(
    r: Option<Result<bool, loro::LoroError>>,
    m: UndoHandle,
    d: DocHandle,
    step: (Result<bool, OutsideError>, UndoHandle, DocHandle),
) -> bool {
    r is Some && answer_of(r) == step.0 && m == step.1 && d == step.2
}

/// What one undo, or one redo, of `loro` gives.
pub open spec fn step_of(m: UndoHandle, d: DocHandle, undo: bool) -> (
    Result<bool, OutsideError>,
    UndoHandle,
    DocHandle,
) {
    if undo {
        undo_step(m, d)
    } else {
        redo_step(m, d)
    }
}

/// What `count` undos, or redos, give one after the other, up to the first that
/// fails: the number of those that did not fail, the error of the one that did,
/// and the manager and the document that are left.
pub open spec fn run_of(m: UndoHandle, d: DocHandle, count: nat, undo: bool) -> (
    nat,
    Option<ErrorKind>,
    UndoHandle,
    DocHandle,
)
    decreases count,
{
    if count == 0 {
        (0, None, m, d)
    } else {
        let step = step_of(m, d, undo);
        match step.0 {
            Err(k) => (0, Some(error_of(k)), step.1, step.2),
            Ok(_) => {
                let rest = run_of(step.1, step.2, (count - 1) as nat, undo);
                (rest.0 + 1, rest.1, rest.2, rest.3)
            },
        }
    }
}

/// A run that came after `done` steps that did not fail.
pub open spec fn ahead(done: nat, rest: (nat, Option<ErrorKind>, UndoHandle, DocHandle)) -> (
    nat,
    Option<ErrorKind>,
    UndoHandle,
    DocHandle,
) {
    (done + rest.0, rest.1, rest.2, rest.3)
}

/// `UndoManager::undo`: takes the newest transaction of the undo stack back, if
/// there is one, and says whether that changed anything. It changes the
/// manager's own document, which `doc` is. Where it says `false`, no container
/// has changed. Whatever it changes, every tree of that document is
/// without a cycle afterwards as before, and every item of a list has an
/// inserting operation of its own. The manager excludes the prefixes that it
/// excluded and has the hooks that it had. What it returns and leaves depends
/// on the manager and the document alone.
#[verifier::external_body]
fn raw_undo(m: &mut UndoHandle, doc: &mut DocHandle) -> (r: Option<Result<bool, loro::LoroError>>)
    requires
        manages(*old(m), *old(doc)),
        sound_doc(*old(doc)),
    ensures
        r is Some,
        manages(*final(m), *final(doc)),
        same_hooks(*old(m), *final(m)),
        sound_doc(*final(doc)),
        r matches Some(Ok(false)) ==> containers_kept(*old(doc), *final(doc)),
        gave(r, *final(m), *final(doc), undo_step(*old(m), *old(doc))),
{
    Some(m.raw.undo())
}

/// `UndoManager::redo`: brings the transaction back that was last taken back,
/// if there is one, and says whether that changed anything. Of `doc` and of
/// the manager the same holds as for `raw_undo`.
#[verifier::external_body]
fn raw_redo(m: &mut UndoHandle, doc: &mut DocHandle) -> (r: Option<Result<bool, loro::LoroError>>)
    requires
        manages(*old(m), *old(doc)),
        sound_doc(*old(doc)),
    ensures
        r is Some,
        manages(*final(m), *final(doc)),
        same_hooks(*old(m), *final(m)),
        sound_doc(*final(doc)),
        r matches Some(Ok(false)) ==> containers_kept(*old(doc), *final(doc)),
        gave(r, *final(m), *final(doc), redo_step(*old(m), *old(doc))),
{
    Some(m.raw.redo())
}

/// `UndoManager::record_new_checkpoint`: closes the open transaction of the
/// manager's own document, which `doc` is, and which is then recorded. It
/// never fails. No container changes by it, nor what the manager excludes, nor
/// its hooks.
#[verifier::external_body]
fn raw_checkpoint(m: &mut UndoHandle, doc: &mut DocHandle) -> (r: Option<
    Result<(), loro::LoroError>,
>)
    requires
        manages(*old(m), *old(doc)),
    ensures
        r matches Some(Ok(_)),
        *final(doc) == *old(doc),
        manages(*final(m), *final(doc)),
        same_binding(*old(m), *final(m)),
        *final(m) == checkpointed(*old(m), *old(doc)),
        same_hooks(*old(m), *final(m)),
{
    Some(m.raw.record_new_checkpoint())
}

/// `UndoManager::add_exclude_origin_prefix`: puts `prefix` behind the prefixes
/// that the manager excludes, and leaves its hooks as they are.
#[verifier::external_body]
fn raw_exclude(m: &mut UndoHandle, prefix: &str)
    ensures
        same_binding(*old(m), *final(m)),
        undo_excluded(*final(m)) == undo_excluded(*old(m)).push(prefix@),
        push_hooked(*final(m)) == push_hooked(*old(m)),
        pop_hooked(*final(m)) == pop_hooked(*old(m)),
{
    m.raw.add_exclude_origin_prefix(prefix)
}

/// `UndoManager::set_max_undo_steps`, which sets that number and nothing else.
#[verifier::external_body]
fn raw_set_max(m: &mut UndoHandle, size: usize)
    ensures
        same_binding(*old(m), *final(m)),
        same_hooks(*old(m), *final(m)),
{
    m.raw.set_max_undo_steps(size)
}

/// `UndoManager::set_merge_interval`, which sets that interval and nothing
/// else.
#[verifier::external_body]
fn raw_set_interval(m: &mut UndoHandle, interval: i64)
    ensures
        same_binding(*old(m), *final(m)),
        same_hooks(*old(m), *final(m)),
{
    m.raw.set_merge_interval(interval)
}

/// `UndoManager::clear`: both stacks are empty afterwards. What the manager
/// excludes and its hooks stay.
#[verifier::external_body]
fn raw_clear(m: &mut UndoHandle)
    ensures
        same_binding(*old(m), *final(m)),
        same_hooks(*old(m), *final(m)),
{
    m.raw.clear()
}

/// The value that a `loro::UndoItemMeta` holds.
pub uninterp spec fn meta_value(raw: RawMeta) -> LoroValue;

/// The cursors that a `loro::UndoItemMeta` holds, in their order, each with the
/// position at which it stood.
pub uninterp spec fn meta_cursors(raw: RawMeta) -> Seq<(Cursor, AbsolutePosition)>;

/// Cursors and their positions as pairs.
pub open spec fn paired(cursors: Seq<CursorWithPos>) -> Seq<(Cursor, AbsolutePosition)> {
    cursors.map_values(|c: CursorWithPos| (c.cursor, c.pos))
}

/// Builds a `loro::UndoItemMeta` from a value and cursors with their positions,
/// field for field.
#[verifier::external_body]
fn meta_to_raw(meta: UndoItemMeta) -> (r: RawMeta)
    ensures
        meta_value(r) == meta.value,
        meta_cursors(r) == paired(meta.cursors@),
{
    let cursors = meta.cursors.into_iter().map(|c| loro::undo::CursorWithPos {
        cursor: c.cursor.0,
        pos: loro::cursor::AbsolutePosition { pos: c.pos.pos, side: match c.pos.side {
            Side::Left => loro::cursor::Side::Left,
            Side::Middle => loro::cursor::Side::Middle,
            Side::Right => loro::cursor::Side::Right,
        } },
    }).collect();
    RawMeta { raw: loro::UndoItemMeta { value: meta.value.0, cursors } }
}

/// Reads the value and the cursors with their positions of a
/// `loro::UndoItemMeta`, field for field.
#[verifier::external_body]
fn meta_from_raw(raw: RawMeta) -> (r: UndoItemMeta)
    ensures
        r.value == meta_value(raw),
        paired(r.cursors@) == meta_cursors(raw),
{
    let cursors = raw.raw.cursors.into_iter().map(|c| CursorWithPos {
        cursor: Cursor(c.cursor),
        pos: AbsolutePosition { pos: c.pos.pos, side: match c.pos.side {
            loro::cursor::Side::Left => Side::Left,
            loro::cursor::Side::Middle => Side::Middle,
            loro::cursor::Side::Right => Side::Right,
        } },
    }).collect();
    UndoItemMeta { value: LoroValue(raw.raw.value), cursors }
}

/// The stack that a push or a pop concerns.
pub open spec fn stack_of(undo: bool) -> UndoOrRedo {
    if undo {
        UndoOrRedo::Undo
    } else {
        UndoOrRedo::Redo
    }
}

/// What a hook is handed: the stack, the operations of the transaction, and the
/// event of the transaction if there is one.
pub fn hook_arguments(undo: bool, start: i32, end: i32, event: Option<DiffEvent>) -> (r: (
    UndoOrRedo,
    CounterSpan,
    Option<DiffEvent>,
))
    ensures
        r.0 == stack_of(undo),
        r.1 == (CounterSpan { start, end }),
        r.2 == event,
{
    (
        if undo {
            UndoOrRedo::Undo
        } else {
            UndoOrRedo::Redo
        },
        CounterSpan { start, end },
        event,
    )
}

/// What the manager does when a transaction is pushed onto a stack: it writes
/// the push down, with the stack and the time that the clock shows, and asks
/// the hook, if there is one, what to attach to the transaction. Without a hook
/// nothing is attached: the null value and no cursor.
pub fn listen<F: Fn(UndoOrRedo, CounterSpan, Option<DiffEvent>) -> UndoItemMeta>(
    log: &Sender<PushRecord>,
    hook: &Option<F>,
    undo: bool,
    start: i32,
    end: i32,
    event: Option<DiffEvent>,
    now: Option<u128>,
) -> (r: UndoItemMeta)
    requires
        hook matches Some(f) ==> forall|u: UndoOrRedo, s: CounterSpan, e: Option<DiffEvent>| #[trigger]
            f.requires((u, s, e)),
    ensures
        hook matches Some(f) ==> f.ensures((stack_of(undo), CounterSpan { start, end }, event), r),
        hook is None ==> holds_null(r.value) && r.cursors@.len() == 0,
{
    send(log, PushRecord::noted(undo, now));
    match hook {
        Some(f) => {
            let args = hook_arguments(undo, start, end, event);
            f(args.0, args.1, args.2)
        },
        None => UndoItemMeta::new(),
    }
}

/// What the manager answers when `loro` tells it of a push: what `listen`
/// gives at the time that the clock shows, as a `loro::UndoItemMeta`.
pub fn heard<F: Fn(UndoOrRedo, CounterSpan, Option<DiffEvent>) -> UndoItemMeta>(
    log: &Sender<PushRecord>,
    hook: &Option<F>,
    undo: bool,
    start: i32,
    end: i32,
    event: Option<DiffEvent>,
) -> (r: RawMeta)
    requires
        hook matches Some(f) ==> forall|u: UndoOrRedo, s: CounterSpan, e: Option<DiffEvent>| #[trigger]
            f.requires((u, s, e)),
    ensures
        hook is None ==> holds_null(meta_value(r)) && meta_cursors(r).len() == 0,
        hook matches Some(f) ==> exists|meta: UndoItemMeta| #[trigger]
            f.ensures(
                (stack_of(undo), CounterSpan { start, end }, event),
                meta,
            ) && meta_value(r) == meta.value && meta_cursors(r) == paired(meta.cursors@),
{
    meta_to_raw(listen(log, hook, undo, start, end, event, clock()))
}

/// What the manager does when `loro` tells it of a pop: it hands the hook the
/// stack, the operations of the transaction, and what was attached to it.
pub fn handed<F: Fn(UndoOrRedo, CounterSpan, UndoItemMeta)>(
    hook: &F,
    undo: bool,
    start: i32,
    end: i32,
    attached: RawMeta,
)
    requires
        forall|u: UndoOrRedo, s: CounterSpan, meta: UndoItemMeta| #[trigger] hook.requires((u, s, meta)),
    ensures
        exists|meta: UndoItemMeta| #[trigger]
            hook.ensures(
                (stack_of(undo), CounterSpan { start, end }, meta),
                (),
            ) && meta.value == meta_value(attached) && paired(meta.cursors@) == meta_cursors(
                attached,
            ),
{
    let args = hook_arguments(undo, start, end, None);
    let meta = meta_from_raw(attached);
    hook(args.0, args.1, meta)
}

/// `UndoManager::set_on_push` with a hook that hands each push to `heard`, with
/// `log` and `hook`: the event goes in as `DiffEvent::from_raw` reads it.
/// Nothing else of the manager changes.
#[verifier::external_body]
fn raw_listen<
    F: Fn(UndoOrRedo, CounterSpan, Option<DiffEvent>) -> UndoItemMeta + Send + Sync + 'static,
>(m: &mut UndoHandle, log: Sender<PushRecord>, hook: Option<F>)
    requires
        hook matches Some(f) ==> forall|u: UndoOrRedo, s: CounterSpan, e: Option<DiffEvent>| #[trigger]
            f.requires((u, s, e)),
    ensures
        same_binding(*old(m), *final(m)),
        hook is Some <==> push_hooked(*final(m)),
        pop_hooked(*final(m)) == pop_hooked(*old(m)),
        undo_excluded(*final(m)) == undo_excluded(*old(m)),
{
    m.raw.set_on_push(Some(Box::new(move |u, span, e| {
        let event = e.map(|x| DiffEvent::from_raw(&RawEvent { raw: x }));
        heard(&log, &hook, matches!(u, loro::UndoOrRedo::Undo), span.start, span.end, event).raw
    })))
}

/// `UndoManager::set_on_pop` with a hook that hands each pop to `handed`, with
/// `hook`, or with none: from now on `hook` is handed, for every transaction
/// that is popped from a stack, what was attached to it. Nothing else of the
/// manager changes.
#[verifier::external_body]
fn raw_set_on_pop<F: Fn(UndoOrRedo, CounterSpan, UndoItemMeta) + Send + Sync + 'static>(
    m: &mut UndoHandle,
    hook: Option<F>,
)
    requires
        hook matches Some(f) ==> forall|u: UndoOrRedo, s: CounterSpan, meta: UndoItemMeta| #[trigger]
            f.requires((u, s, meta)),
    ensures
        same_binding(*old(m), *final(m)),
        hook is Some <==> pop_hooked(*final(m)),
        push_hooked(*final(m)) == push_hooked(*old(m)),
        undo_excluded(*final(m)) == undo_excluded(*old(m)),
{
    m.raw.set_on_pop(hook.map(|f| -> loro::undo::OnPop {
        Box::new(move |u, span, meta| {
            handed(&f, matches!(u, loro::UndoOrRedo::Undo), span.start, span.end, RawMeta { raw: meta })
        })
    }))
}

/// The undo manager of one document. It records each local transaction of the
/// document on its undo stack. Transactions that follow one another within the
/// merge interval, with no checkpoint between them, make one entry. `undo` pops
/// the newest entry, applies the inverse of its transactions as new
/// transactions and pushes them onto the redo stack as one entry; `redo` does
/// the reverse.
pub struct UndoManager {
    pub(crate) inner: UndoHandle,
    pub(crate) outbox: Sender<PushRecord>,
    pub(crate) inbox: Receiver<PushRecord>,
    pub(crate) window: MergeWindow,
}

impl View for UndoManager {
    type V = WindowView;

    closed spec fn view(&self) -> WindowView {
        self.window@
    }
}

/// What was recorded leaves the merge interval and the number of entries that
/// are kept as they were, and the undo stack within that number if it was.
pub proof fn lemma_folded_keeps_settings(w: WindowView, log: Seq<PushRecord>)
    ensures
        w.folded(log).interval == w.interval,
        w.folded(log).max_steps == w.max_steps,
        w.undo.len() <= w.max_steps ==> w.folded(log).undo.len() <= w.max_steps,
    decreases log.len(),
{
    if log.len() > 0 {
        lemma_folded_keeps_settings(w, log.drop_last());
    }
}

/// What an undo leaves and returns. The transactions that were closed since the
/// manager last looked, `log`, are recorded first. With nothing on the undo
/// stack then, the undo returns `false` and leaves that window. Else the newest
/// entry is taken off, and `done` of its transactions are taken back while the
/// pushes in `back` are written down: the undo returns `true` if all were taken
/// back, and the error that stopped it if not.
pub open spec fn undid(
    before: WindowView,
    after: WindowView,
    r: Result<bool, ErrorKind>,
    log: Seq<PushRecord>,
    done: usize,
    back: Seq<PushRecord>,
) -> bool {
    let w = before.folded(log);
    if w.undo.len() == 0 {
        r == Ok::<bool, ErrorKind>(false) && after == w
    } else {
        &&& done <= w.undo.last()
        &&& (r is Ok <==> done == w.undo.last())
        &&& (r is Ok ==> r == Ok::<bool, ErrorKind>(true))
        &&& after == w.undone(done, back)
    }
}

/// What a redo leaves and returns: as `undid`, with the stacks in each other's
/// place.
pub open spec fn redid(
    before: WindowView,
    after: WindowView,
    r: Result<bool, ErrorKind>,
    log: Seq<PushRecord>,
    done: usize,
    back: Seq<PushRecord>,
) -> bool {
    let w = before.folded(log);
    if w.redo.len() == 0 {
        r == Ok::<bool, ErrorKind>(false) && after == w
    } else {
        &&& done <= w.redo.last()
        &&& (r is Ok <==> done == w.redo.last())
        &&& (r is Ok ==> r == Ok::<bool, ErrorKind>(true))
        &&& after == w.redone(done, back)
    }
}

/// No hook, of the kind of `f`.
fn no_hook<F>(f: &F) -> (r: Option<F>)
    ensures
        r is None,
{
    None
}

impl UndoManager {
    /// A manager for `doc`, with empty stacks, room for 100 entries, and no
    /// merging. It excludes no prefix and has no hook.
    pub fn new(doc: &LoroDoc) -> (m: UndoManager)
        ensures
            m.made_for(*doc),
            m@.undo.len() == 0,
            m@.redo.len() == 0,
            m@.interval == 0,
            m@.max_steps == 100,
            !m@.sealed,
            m.excluded().len() == 0,
            !m.has_push_hook(),
            !m.has_pop_hook(),
    {
        let mut inner = raw_new(&doc.inner);
        let (outbox, inbox) = new_channel();
        let silent = |u: UndoOrRedo, s: CounterSpan, e: Option<DiffEvent>| -> (r: UndoItemMeta) {
            UndoItemMeta::new()
        };
        raw_listen(&mut inner, second_sender(&outbox), no_hook(&silent));
        raw_set_max(&mut inner, usize::MAX);
        raw_set_interval(&mut inner, 0);
        UndoManager { inner, outbox, inbox, window: MergeWindow::new() }
    }

    /// Whether `doc` is the document that the manager was made for.
    pub closed spec fn made_for(&self, doc: LoroDoc) -> bool {
        manages(self.inner, doc.inner)
    }

    /// The prefixes that the manager excludes, in the order in which they were
    /// added.
    pub closed spec fn excluded(&self) -> Seq<Seq<char>> {
        undo_excluded(self.inner)
    }

    /// Whether a local transaction of the origin `origin` is not recorded:
    /// whether its origin starts with an excluded prefix.
    pub open spec fn excludes(&self, origin: Seq<char>) -> bool {
        left_out(self.excluded(), origin)
    }

    /// Whether a hook is asked what to attach to a transaction that is pushed.
    pub closed spec fn has_push_hook(&self) -> bool {
        push_hooked(self.inner)
    }

    /// Whether a hook is handed what was attached to a transaction that is
    /// popped.
    pub closed spec fn has_pop_hook(&self) -> bool {
        pop_hooked(self.inner)
    }

    /// The manager excludes the prefixes that `before` excludes and has hooks
    /// where `before` has them.
    pub open spec fn keeps_hooks(&self, before: UndoManager) -> bool {
        &&& self.excluded() == before.excluded()
        &&& self.has_push_hook() == before.has_push_hook()
        &&& self.has_pop_hook() == before.has_pop_hook()
    }

    /// The manager of `loro` that this manager holds.
    pub open(crate) spec fn handle(&self) -> UndoHandle {
        self.inner
    }

    /// The manager of `loro` that a checkpoint on `doc` leaves.
    pub open(crate) spec fn marked(&self, doc: LoroDoc) -> UndoHandle {
        checkpointed(self.inner, doc.inner)
    }

    /// The manager serves the documents that `before` serves.
    pub closed spec fn keeps_document(&self, before: UndoManager) -> bool {
        same_binding(before.inner, self.inner)
    }

    /// Whether `doc` is the document that the manager was made for.
    pub fn is_made_for(&self, doc: &LoroDoc) -> (r: bool)
        ensures
            r == self.made_for(*doc),
    {
        raw_manages(&self.inner, &doc.inner)
    }

    /// The pushes that the hook has sent since the manager last looked, in their
    /// order.
    fn received(&self) -> (log: Vec<PushRecord>) {
        let mut log: Vec<PushRecord> = Vec::new();
        let mut more = true;
        while more && log.len() < usize::MAX
            invariant
                log.len() <= usize::MAX,
            decreases usize::MAX - log.len() + if more {
                1int
            } else {
                0int
            },
        {
            match receive(&self.inbox) {
                Some(record) => { log.push(record); },
                None => { more = false; },
            }
        }
        log
    }

    /// Records the transactions that were closed since the manager last looked:
    /// the pushes that were written down since then, whichever they are, are
    /// recorded in their order.
    fn sync(&mut self) -> (log: Ghost<Seq<PushRecord>>)
        ensures
            final(self)@ == old(self)@.folded(log@),
            final(self).inner == old(self).inner,
            final(self)@.interval == old(self)@.interval,
            final(self)@.max_steps == old(self)@.max_steps,
            old(self)@.undo.len() <= old(self)@.max_steps ==> final(self)@.undo.len() <= final(self)@.max_steps,
    {
        let log = self.received();
        proof {
            lemma_folded_keeps_settings(self.window@, log@);
        }
        self.window.fold(&log);
        Ghost(log@)
    }

    /// What an undo, or a redo, of the manager `before` on the document `doc`
    /// leaves and returns. What is open is closed first, and the transactions
    /// that were closed since the manager last looked, `log`, are recorded.
    /// With nothing on the stack then, `false` is returned and nothing else has
    /// changed. Else the newest entry is taken off and `loro` is asked once for
    /// each of its transactions, up to the first that fails: `true` is returned
    /// if none failed, and the error of the one that did if one did; the
    /// document is the one that the last call left; and the pushes that were
    /// written down meanwhile, `back`, make the entry of the other stack.
    pub open(crate) spec fn stepped_back(
        before: UndoManager,
        doc: LoroDoc,
        after: UndoManager,
        left: LoroDoc,
        r: Result<bool, ErrorKind>,
        log: Seq<PushRecord>,
        back: Seq<PushRecord>,
        undo: bool,
    ) -> bool {
        let start = checkpointed(before.inner, doc.inner);
        let w = before.window@.folded(log);
        let stack = if undo {
            w.undo
        } else {
            w.redo
        };
        if stack.len() == 0 {
            r == Ok::<bool, ErrorKind>(false) && after.window@ == w && after.inner == start && left
                == doc
        } else {
            let run = run_of(start, doc.inner, stack.last() as nat, undo);
            &&& r == outcome(run.1)
            &&& after.window@ == if undo {
                w.undone(run.0 as usize, back)
            } else {
                w.redone(run.0 as usize, back)
            }
            &&& after.inner == run.2
            &&& left.inner == run.3
        }
    }

    /// Asks `loro` for `count` undos, or redos, one after the other, up to the
    /// first that fails, and says how many did not fail and which error stopped
    /// the others.
    fn run(&mut self, doc: &mut LoroDoc, count: usize, undo: bool) -> (r: (usize, Option<ErrorKind>))
        requires
            manages(old(self).inner, old(doc).inner),
            old(doc).wf(),
        ensures
            (r.0 as nat, r.1, final(self).inner, final(doc).inner) == run_of(
                old(self).inner,
                old(doc).inner,
                count as nat,
                undo,
            ),
            r.0 <= count,
            r.1 is None <==> r.0 == count,
            final(self).window == old(self).window,
            manages(final(self).inner, final(doc).inner),
            same_hooks(old(self).inner, final(self).inner),
            final(doc).wf(),
    {
        let mut done: usize = 0;
        let mut failed: Option<ErrorKind> = None;
        let ghost first = self.inner;
        let ghost start = doc.inner;
        while done < count && failed.is_none()
            invariant
                done <= count,
                failed is Some ==> done < count,
                self.window == old(self).window,
                same_hooks(old(self).inner, self.inner),
                manages(self.inner, doc.inner),
                sound_doc(doc.inner),
                run_of(first, start, count as nat, undo) == ahead(
                    done as nat,
                    if failed is None {
                        run_of(self.inner, doc.inner, (count - done) as nat, undo)
                    } else {
                        (0nat, failed, self.inner, doc.inner)
                    },
                ),
            decreases
                    count - done + if failed is None {
                        1int
                    } else {
                        0int
                    },
        {
            let ghost m = self.inner;
            let ghost d = doc.inner;
            let raw = if undo {
                raw_undo(&mut self.inner, &mut doc.inner)
            } else {
                raw_redo(&mut self.inner, &mut doc.inner)
            };
            proof {
                assert(gave(raw, self.inner, doc.inner, step_of(m, d, undo)));
            }
            match settle(raw) {
                Ok(_) => { done += 1; },
                Err(e) => { failed = Some(e); },
            }
        }
        (done, failed)
    }

    /// Takes the newest entry of the undo stack back, and says whether there was
    /// one: `Ok(false)` where nothing is recorded. What is open is closed and
    /// recorded first. A manager of another document does nothing and returns
    /// `Other`.
    pub fn undo(&mut self, doc: &mut LoroDoc) -> (r: Result<bool, ErrorKind>)
        requires
            old(doc).wf(),
        ensures
            final(doc).wf(),
            final(self).keeps_hooks(*old(self)),
            final(self).made_for(*final(doc)) == old(self).made_for(*old(doc)),
            !old(self).made_for(*old(doc)) ==> r == Err::<bool, ErrorKind>(ErrorKind::Other)
                && *final(doc) == *old(doc) && final(self)@ == old(self)@,
            old(self).made_for(*old(doc)) ==> exists|
                log: Seq<PushRecord>,
                done: usize,
                back: Seq<PushRecord>,
            | #[trigger] undid(old(self)@, final(self)@, r, log, done, back),
            old(self).made_for(*old(doc)) ==> exists|log: Seq<PushRecord>, back: Seq<PushRecord>| #[trigger]
                Self::stepped_back(
                    *old(self),
                    *old(doc),
                    *final(self),
                    *final(doc),
                    r,
                    log,
                    back,
                    true,
                ),
            final(self)@.interval == old(self)@.interval,
            final(self)@.max_steps == old(self)@.max_steps,
            r == Ok::<bool, ErrorKind>(false) ==> final(self)@.undo.len() == 0,
            r == Ok::<bool, ErrorKind>(false) ==> final(doc).keeps_containers(*old(doc)),
    {
        if !raw_manages(&self.inner, &doc.inner) {
            return Err(ErrorKind::Other);
        }
        let _ = raw_checkpoint(&mut self.inner, &mut doc.inner);
        let log = self.sync();
        let ghost w = self.window@;
        let count = match self.window.take_undo() {
            None => {
                proof {
                    assert(undid(old(self)@, self@, Ok::<bool, ErrorKind>(false), log@, 0, log@));
                    assert(Self::stepped_back(
                        *old(self),
                        *old(doc),
                        *self,
                        *doc,
                        Ok::<bool, ErrorKind>(false),
                        log@,
                        log@,
                        true,
                    ));
                }
                return Ok(false);
            },
            Some(k) => k,
        };
        let ran = self.run(doc, count, true);
        let back = self.received();
        let r = self.window.settle_undo(count, ran.0, ran.1, &back);
        proof {
            assert(self@ == w.undone(ran.0, back@));
            assert(undid(old(self)@, self@, r, log@, ran.0, back@));
            assert(Self::stepped_back(*old(self), *old(doc), *self, *doc, r, log@, back@, true));
        }
        r
    }

    /// Brings the entry back that was last taken back, and says whether there
    /// was one: `Ok(false)` where there is none. What is open is closed and
    /// recorded first. A manager of another document does nothing and returns
    /// `Other`.
    pub fn redo(&mut self, doc: &mut LoroDoc) -> (r: Result<bool, ErrorKind>)
        requires
            old(doc).wf(),
        ensures
            final(doc).wf(),
            final(self).keeps_hooks(*old(self)),
            final(self).made_for(*final(doc)) == old(self).made_for(*old(doc)),
            !old(self).made_for(*old(doc)) ==> r == Err::<bool, ErrorKind>(ErrorKind::Other)
                && *final(doc) == *old(doc) && final(self)@ == old(self)@,
            old(self).made_for(*old(doc)) ==> exists|
                log: Seq<PushRecord>,
                done: usize,
                back: Seq<PushRecord>,
            | #[trigger] redid(old(self)@, final(self)@, r, log, done, back),
            old(self).made_for(*old(doc)) ==> exists|log: Seq<PushRecord>, back: Seq<PushRecord>| #[trigger]
                Self::stepped_back(
                    *old(self),
                    *old(doc),
                    *final(self),
                    *final(doc),
                    r,
                    log,
                    back,
                    false,
                ),
            final(self)@.interval == old(self)@.interval,
            final(self)@.max_steps == old(self)@.max_steps,
            r == Ok::<bool, ErrorKind>(false) ==> final(self)@.redo.len() == 0,
            r == Ok::<bool, ErrorKind>(false) ==> final(doc).keeps_containers(*old(doc)),
    {
        if !raw_manages(&self.inner, &doc.inner) {
            return Err(ErrorKind::Other);
        }
        let _ = raw_checkpoint(&mut self.inner, &mut doc.inner);
        let log = self.sync();
        let ghost w = self.window@;
        let count = match self.window.take_redo() {
            None => {
                proof {
                    assert(redid(old(self)@, self@, Ok::<bool, ErrorKind>(false), log@, 0, log@));
                    assert(Self::stepped_back(
                        *old(self),
                        *old(doc),
                        *self,
                        *doc,
                        Ok::<bool, ErrorKind>(false),
                        log@,
                        log@,
                        false,
                    ));
                }
                return Ok(false);
            },
            Some(k) => k,
        };
        let ran = self.run(doc, count, false);
        let back = self.received();
        let r = self.window.settle_redo(count, ran.0, ran.1, &back);
        proof {
            assert(self@ == w.redone(ran.0, back@));
            assert(redid(old(self)@, self@, r, log@, ran.0, back@));
            assert(Self::stepped_back(*old(self), *old(doc), *self, *doc, r, log@, back@, false));
        }
        r
    }

    /// Sets a checkpoint: what is open is closed and recorded, and the next
    /// transaction starts an entry of its own, however soon it follows. A
    /// manager of another document does nothing and returns `Other`; the
    /// manager of this one never fails.
    pub fn record_new_checkpoint(&mut self, doc: &mut LoroDoc) -> (r: Result<(), ErrorKind>)
        ensures
            *final(doc) == *old(doc),
            final(self).keeps_hooks(*old(self)),
            final(self).keeps_document(*old(self)),
            old(self).made_for(*old(doc)) <==> r is Ok,
            r is Ok ==> final(self).handle() == old(self).marked(*old(doc)),
            r is Err ==> final(self).handle() == old(self).handle(),
            r is Err ==> r == Err::<(), ErrorKind>(ErrorKind::Other) && final(self)@ == old(self)@,
            r is Ok ==> exists|log: Seq<PushRecord>| final(self)@ == (WindowView {
                sealed: true,
                ..#[trigger] old(self)@.folded(log)
            }),
            final(self)@.interval == old(self)@.interval,
            final(self)@.max_steps == old(self)@.max_steps,
    {
        if !raw_manages(&self.inner, &doc.inner) {
            return Err(ErrorKind::Other);
        }
        let ghost before = self.inner;
        let _ = raw_checkpoint(&mut self.inner, &mut doc.inner);
        let log = self.sync();
        self.window.seal();
        proof {
            assert(self@ == (WindowView { sealed: true, ..old(self)@.folded(log@) }));
        }
        Ok(())
    }

    /// Whether there is an entry to take back, once the transactions that were
    /// closed since the manager last looked are recorded.
    pub fn can_undo(&mut self) -> (r: bool)
        ensures
            r == (final(self)@.undo.len() > 0),
            exists|log: Seq<PushRecord>| final(self)@ == #[trigger] old(self)@.folded(log),
            final(self).keeps_hooks(*old(self)),
            final(self).keeps_document(*old(self)),
            final(self)@.interval == old(self)@.interval,
            final(self)@.max_steps == old(self)@.max_steps,
    {
        let _ = self.sync();
        self.window.undo_len() > 0
    }

    /// Whether there is an entry to bring back, once the transactions that were
    /// closed since the manager last looked are recorded.
    pub fn can_redo(&mut self) -> (r: bool)
        ensures
            r == (final(self)@.redo.len() > 0),
            exists|log: Seq<PushRecord>| final(self)@ == #[trigger] old(self)@.folded(log),
            final(self).keeps_hooks(*old(self)),
            final(self).keeps_document(*old(self)),
            final(self)@.interval == old(self)@.interval,
            final(self)@.max_steps == old(self)@.max_steps,
    {
        let _ = self.sync();
        self.window.redo_len() > 0
    }

    /// From now on a local transaction whose origin starts with `prefix` is not
    /// recorded: `prefix` joins the prefixes that the manager excludes. What is
    /// recorded already stays.
    pub fn add_exclude_origin_prefix(&mut self, prefix: &str)
        ensures
            final(self).excluded() == old(self).excluded().push(prefix@),
            final(self).excludes(prefix@),
            final(self).has_push_hook() == old(self).has_push_hook(),
            final(self).has_pop_hook() == old(self).has_pop_hook(),
            final(self).keeps_document(*old(self)),
            final(self)@ == old(self)@,
    {
        proof {
            lemma_left_out_grows(undo_excluded(self.inner), prefix@, prefix@);
        }
        raw_exclude(&mut self.inner, prefix)
    }

    /// Bounds the number of entries that the undo stack keeps: beyond it the
    /// oldest is dropped first. The transactions that were closed since the
    /// manager last looked are recorded first.
    pub fn set_max_undo_steps(&mut self, size: usize)
        ensures
            exists|log: Seq<PushRecord>| final(self)@ == (WindowView {
                max_steps: size,
                undo: trimmed((#[trigger] old(self)@.folded(log)).undo, size),
                ..old(self)@.folded(log)
            }),
            final(self).keeps_hooks(*old(self)),
            final(self).keeps_document(*old(self)),
            final(self)@.max_steps == size,
            final(self)@.undo.len() <= size,
            final(self)@.interval == old(self)@.interval,
    {
        let log = self.sync();
        self.window.set_max_steps(size);
        proof {
            let w = old(self)@.folded(log@);
            assert(self@ == (WindowView { max_steps: size, undo: trimmed(w.undo, size), ..w }));
        }
    }

    /// Sets the merge interval in milliseconds. Transactions that follow one
    /// another within it make one entry; with 0 each is an entry of its own.
    /// The transactions that were closed since the manager last looked are
    /// recorded first, by the interval that held for them.
    pub fn set_merge_interval(&mut self, interval: i64)
        ensures
            exists|log: Seq<PushRecord>| final(self)@ == (WindowView {
                interval,
                ..#[trigger] old(self)@.folded(log)
            }),
            final(self).keeps_hooks(*old(self)),
            final(self).keeps_document(*old(self)),
            final(self)@.interval == interval,
            final(self)@.max_steps == old(self)@.max_steps,
    {
        let log = self.sync();
        self.window.set_interval(interval);
        proof {
            assert(self@ == (WindowView { interval, ..old(self)@.folded(log@) }));
        }
    }

    /// Sets or, with `None`, removes the hook that is asked what to attach to a
    /// transaction that is pushed.
    pub fn set_on_push<
        F: Fn(UndoOrRedo, CounterSpan, Option<DiffEvent>) -> UndoItemMeta + Send + Sync + 'static,
    >(&mut self, on_push: Option<F>)
        requires
            on_push matches Some(f) ==> forall|
                u: UndoOrRedo,
                s: CounterSpan,
                e: Option<DiffEvent>,
            | #[trigger] f.requires((u, s, e)),
        ensures
            final(self).has_push_hook() == (on_push is Some),
            final(self).has_pop_hook() == old(self).has_pop_hook(),
            final(self).excluded() == old(self).excluded(),
            final(self).keeps_document(*old(self)),
            final(self)@ == old(self)@,
    {
        raw_listen(&mut self.inner, second_sender(&self.outbox), on_push)
    }

    /// Sets or, with `None`, removes the hook that is handed what was attached
    /// to a transaction that is popped.
    pub fn set_on_pop<F: Fn(UndoOrRedo, CounterSpan, UndoItemMeta) + Send + Sync + 'static>(
        &mut self,
        on_pop: Option<F>,
    )
        requires
            on_pop matches Some(f) ==> forall|u: UndoOrRedo, s: CounterSpan, meta: UndoItemMeta| #[trigger]
                f.requires((u, s, meta)),
        ensures
            final(self).has_pop_hook() == (on_pop is Some),
            final(self).has_push_hook() == old(self).has_push_hook(),
            final(self).excluded() == old(self).excluded(),
            final(self).keeps_document(*old(self)),
            final(self)@ == old(self)@,
    {
        raw_set_on_pop(&mut self.inner, on_pop)
    }

    /// Empties both stacks. Transactions that were closed and not yet recorded
    /// are forgotten with them.
    pub fn clear(&mut self)
        ensures
            final(self)@ == (WindowView {
                undo: Seq::empty(),
                redo: Seq::empty(),
                ..old(self)@
            }),
            final(self).keeps_hooks(*old(self)),
            final(self).keeps_document(*old(self)),
    {
        raw_clear(&mut self.inner);
        let _ = self.received();
        self.window.clear();
    }
}

} // verus!
