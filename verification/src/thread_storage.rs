//! What one thread keeps between frame boundaries, and the calls that
//! instrumented code makes on it.

use vec_map::VecMap;
use vstd::prelude::*;
use vstd::string::StringExecFns;
use crate::counters::Frame;
use crate::counters::FrameReport;
use crate::counters::lemma_report_keeps_walk;
use crate::counters::shows_all;
use crate::name_map::Variables;
use crate::nesting::begins;
use crate::nesting::lemma_forest_mirrors_nesting;
use crate::nesting::open_after;
use crate::nesting::preorder;
use crate::nesting::Regions;
use crate::nesting::replay;
use crate::nesting::Step;
use crate::nesting::well_nested;
use crate::profiler::Profiler;
use crate::profiler::ProfilerError;
use crate::profiler::room;
use crate::profiler::send_profiler_state;
use crate::report::began;
use crate::report::ended;
use crate::report::Report;
use crate::reporter::CUSTOM;
use crate::reporter::Reporter;
use crate::reporter::SYSTEM_CLOCK;
use crate::reporter::TimeSource;
use crate::text::decimal;
use crate::text::decimal_string;

verus! {

/// `vec_map::VecMap`, a map from small numbers to values. What one holds
/// is known only through `stacks`.
#[verifier::external_type_specification]
#[verifier::external_body]
#[verifier::reject_recursive_types(V)]
pub struct ExVecMap<V>(VecMap<V>);

/// What a `VecMap` of region stacks holds: the stack stored under each key.
pub uninterp spec fn stacks(map: VecMap<Report>) -> Map<usize, Report>;

/// No stack under any key.
pub open spec fn no_stacks() -> Map<usize, Report> {
    Map::empty()
}

/// `VecMap::new`: a map that holds nothing.
#[verifier::external_body]
fn stacks_new() -> (map: VecMap<Report>)
    ensures
        stacks(map) == no_stacks(),
{
    VecMap::new()
}

/// `VecMap::insert`: stores `report` under `key`, in place of what was
/// there. The map grows its vector up to `key`, so the key is kept small.
#[verifier::external_body]
fn stacks_insert(map: &mut VecMap<Report>, key: usize, report: Report)
    requires
        key < 2,
    ensures
        stacks(*final(map)) == stacks(*old(map)).insert(key, report),
{
    map.insert(key, report);
}

/// `VecMap::get`: the stack stored under `key`, if there is one.
#[verifier::external_body]
fn stacks_get(map: &VecMap<Report>, key: usize) -> (slot: Option<&Report>)
    ensures
        slot == if stacks(*map).contains_key(key) {
            Some(&stacks(*map)[key])
        } else {
            None
        },
{
    map.get(key)
}

/// `VecMap::get_mut`: the stack stored under `key`, if there is one, to be
/// changed in place. Nothing else in the map changes. The call does not
/// panic.
#[verifier::external_body]
fn stacks_get_mut(map: &mut VecMap<Report>, key: usize) -> (slot: Option<&mut Report>)
    ensures
        match slot {
            Some(report) => stacks(*old(map)).contains_key(key) && *report == stacks(*old(map))[key]
                && stacks(*final(map)) == stacks(*old(map)).insert(key, *final(report)),
            None => !stacks(*old(map)).contains_key(key) && stacks(*final(map)) == stacks(
                *old(map),
            ),
        },
    no_unwind
{
    map.get_mut(key)
}

/// True of the two kinds of time source that a thread keeps a stack for.
pub open spec fn is_kind(reporter_id: usize) -> bool {
    reporter_id == SYSTEM_CLOCK || reporter_id == CUSTOM
}

/// The region stacks of a thread, one under each kind of time source.
struct Reports {
    map: VecMap<Report>,
}

impl Reports {
    #[verifier::type_invariant]
    spec fn inv(self) -> bool {
        forall|key: usize| stacks(self.map).contains_key(key) <==> is_kind(key)
    }

    /// What is recorded under each kind.
    closed spec fn view(&self) -> Map<usize, Regions<TimeSource>> {
        Map::new(|key: usize| is_kind(key), |key: usize| stacks(self.map)[key]@)
    }

    fn new() -> (reports: Reports)
        ensures
            reports@ == Map::new(
                |key: usize| is_kind(key),
                |key: usize| Regions::<TimeSource>::empty(),
            ),
    {
        let mut map = stacks_new();
        stacks_insert(&mut map, SYSTEM_CLOCK, Report::new());
        stacks_insert(&mut map, CUSTOM, Report::new());
        let reports = Reports { map };
        assert(reports@ =~= Map::new(
            |key: usize| is_kind(key),
            |key: usize| Regions::<TimeSource>::empty(),
        ));
        reports
    }

    fn get(&self, kind: usize) -> (report: &Report)
        requires
            is_kind(kind),
        ensures
            report@ == self@[kind],
    {
        proof {
            use_type_invariant(self);
        }
        stacks_get(&self.map, kind).unwrap()
    }

    fn get_mut(&mut self, kind: usize) -> (report: &mut Report)
        requires
            is_kind(kind),
        ensures
            report@ == old(self)@[kind],
            final(self)@ == old(self)@.insert(kind, final(report)@),
    {
        proof {
            use_type_invariant(&*self);
        }
        let slot = stacks_get_mut(&mut self.map, kind);
        slot.unwrap()
    }
}

/// The model of a thread's storage.
pub struct ThreadState {
    /// The name under which the thread reports.
    pub thread_name: Seq<char>,
    /// The index of the frame that is being recorded.
    pub frame: i32,
    /// What is recorded under each kind of time source.
    pub kinds: Map<usize, Regions<TimeSource>>,
    /// The trace variables of the frame that is being recorded.
    pub variables: Map<Seq<char>, u32>,
}

/// What a frame boundary does about one kind of time source.
pub enum Verdict {
    /// Nothing was recorded: nothing is done.
    Idle,
    /// A region is still open: nothing is done, and the boundary fails.
    Unterminated,
    /// The report is made and the stack cleared, but there is no channel.
    NotInitialised,
    /// The report is made and the stack cleared, but the channel is full.
    ChannelFull,
    /// The report is made, the stack cleared and the report delivered.
    Sent,
}

/// What a frame boundary does about all kinds.
pub struct Outcome {
    /// The state in which the boundary leaves the thread.
    pub state: ThreadState,
    /// The kinds whose reports were delivered, in the order of delivery.
    pub sent: Seq<usize>,
    /// What the boundary returns.
    pub result: Result<(), ProfilerError>,
}

/// The name under which a thread reports what it recorded for `kind`: its
/// own name for the system clock, and its name, a space and the kind's
/// number for any other kind.
pub open spec fn label(thread_name: Seq<char>, kind: usize) -> Seq<char> {
    if kind == SYSTEM_CLOCK {
        thread_name
    } else {
        thread_name + seq![' '] + decimal(kind as nat)
    }
}

impl Verdict {
    /// The verdict makes the whole boundary fail with this error.
    pub open spec fn error(self) -> Option<ProfilerError> {
        match self {
            Verdict::Idle => None,
            Verdict::Sent => None,
            Verdict::Unterminated => Some(ProfilerError::UnterminatedRegion),
            Verdict::NotInitialised => Some(ProfilerError::NotInitialised),
            Verdict::ChannelFull => Some(ProfilerError::ChannelFull),
        }
    }
}

impl ThreadState {
    /// What a frame boundary does about `kind` when the channel has `room`.
    pub open spec fn verdict(self, kind: usize, room: Option<nat>) -> Verdict {
        let regions = self.kinds[kind];
        if regions.forest.len() == 0 {
            Verdict::Idle
        } else if regions.depth > 0 {
            Verdict::Unterminated
        } else {
            match room {
                None => Verdict::NotInitialised,
                Some(free) => if free == 0 {
                    Verdict::ChannelFull
                } else {
                    Verdict::Sent
                },
            }
        }
    }

    /// The state after the boundary has dealt with `kind`: the kind's stack
    /// is cleared whenever its report was made, delivered or not.
    pub open spec fn after(self, kind: usize, verdict: Verdict) -> ThreadState {
        match verdict {
            Verdict::Idle => self,
            Verdict::Unterminated => self,
            _ => ThreadState { kinds: self.kinds.insert(kind, Regions::empty()), ..self },
        }
    }

    /// The state in which the next frame starts: the index one further, no
    /// variables.
    pub open spec fn next(self) -> ThreadState {
        ThreadState { frame: (self.frame + 1) as i32, variables: Map::empty(), ..self }
    }

    /// `frame` reports what this state holds for `kind`: under the kind's
    /// label and the state's frame index, with the state's variables, and
    /// with roots that show the kind's forest.
    pub open spec fn reported_by(self, kind: usize, frame: Frame) -> bool {
        &&& frame.thread_name == label(self.thread_name, kind)
        &&& frame.frame == self.frame
        &&& frame.variables == self.variables
        &&& shows_all(frame.roots, self.kinds[kind].forest)
    }

    /// What a frame boundary does when the channel has `room`. The kinds are
    /// dealt with in the order of their numbers, and the first that fails
    /// ends the boundary: the kinds before it stay dealt with, the frame
    /// index and the variables stay as they are. Only when no kind fails
    /// does the next frame start.
    pub open spec fn advance(self, room: Option<nat>) -> Outcome {
        let first = self.verdict(SYSTEM_CLOCK, room);
        let middle = self.after(SYSTEM_CLOCK, first);
        let left = match (first, room) {
            (Verdict::Sent, Some(free)) => Some((free - 1) as nat),
            _ => room,
        };
        let sent_first = if first is Sent {
            seq![SYSTEM_CLOCK]
        } else {
            Seq::empty()
        };
        let second = middle.verdict(CUSTOM, left);
        let last = middle.after(CUSTOM, second);
        let sent_second = if second is Sent {
            sent_first.push(CUSTOM)
        } else {
            sent_first
        };
        if first.error() is Some {
            Outcome { state: middle, sent: sent_first, result: Err(first.error()->0) }
        } else if second.error() is Some {
            Outcome { state: last, sent: sent_second, result: Err(second.error()->0) }
        } else {
            Outcome { state: last.next(), sent: sent_second, result: Ok(()) }
        }
    }
}

/// A report of a thread that has closed every region it opened mirrors the
/// thread's calls: the pre-order walk of the report's roots lists the
/// names and ids of the regions in the order in which they began, each at
/// the depth at which it began.
pub proof fn lemma_report_mirrors_run(
    steps: Seq<Step<TimeSource>>,
    state: ThreadState,
    kind: usize,
    frame: Frame,
)
    requires
        well_nested(steps),
        open_after(steps) == 0,
        state.kinds[kind] == replay(steps),
        state.reported_by(kind, frame),
    ensures
        preorder(frame.roots, 0) == begins(steps),
{
    lemma_forest_mirrors_nesting(steps);
    lemma_report_keeps_walk(frame.roots, state.kinds[kind].forest, 0);
}

/// The channel went from `before` to `after` by the delivery of one report
/// for each kind of `sent`, in that order, each reporting what `state`
/// holds for its kind.
pub open spec fn delivered(
    before: Option<Profiler>,
    after: Option<Profiler>,
    state: ThreadState,
    sent: Seq<usize>,
) -> bool {
    match before {
        None => after is None,
        Some(b) => {
            &&& after matches Some(a)
            &&& a.bound() == b.bound()
            &&& a.pending().len() == b.pending().len() + sent.len()
            &&& a.pending().take(b.pending().len() as int) == b.pending()
            &&& forall|i: int|
                0 <= i < sent.len() ==> state.reported_by(
                    #[trigger] sent[i],
                    a.pending()[b.pending().len() as int + i]@,
                )
        },
    }
}

/// What one thread keeps: its name, the index of its current frame, its
/// region stacks and its trace variables. It belongs to its thread alone.
pub struct ThreadStorage {
    thread_name: String,
    frame: i32,
    reports: Reports,
    variables: Variables,
}

impl View for ThreadStorage {
    type V = ThreadState;

    closed spec fn view(&self) -> ThreadState {
        ThreadState {
            thread_name: self.thread_name@,
            frame: self.frame,
            kinds: self.reports@,
            variables: self.variables@,
        }
    }
}

/// The name under which `thread_name` reports what it recorded for `kind`.
pub fn thread_label(thread_name: &String, kind: usize) -> (text: String)
    ensures
        text@ == label(thread_name@, kind),
{
    if kind == SYSTEM_CLOCK {
        thread_name.clone()
    } else {
        proof {
            reveal_strlit(" ");
        }
        let mut text = thread_name.clone();
        text.append(" ");
        text.append(decimal_string(kind as u64).as_str());
        assert(text@ =~= label(thread_name@, kind));
        text
    }
}

impl ThreadStorage {
    /// The storage of a thread that has recorded nothing: named "unknown",
    /// in frame 0, with an empty stack for each kind and no variables.
    pub fn new() -> (storage: ThreadStorage)
        ensures
            storage@ == (ThreadState {
                thread_name: "unknown"@,
                frame: 0,
                kinds: Map::new(
                    |key: usize| is_kind(key),
                    |key: usize| Regions::<TimeSource>::empty(),
                ),
                variables: Map::empty(),
            }),
    {
        ThreadStorage {
            thread_name: "unknown".to_owned(),
            frame: 0,
            reports: Reports::new(),
            variables: Variables::new(),
        }
    }

    /// The name under which the thread reports.
    pub fn thread_name(&self) -> (name: &String)
        ensures
            name@ == self@.thread_name,
    {
        &self.thread_name
    }

    /// The index of the frame that is being recorded.
    pub fn frame(&self) -> (frame: i32)
        ensures
            frame == self@.frame,
    {
        self.frame
    }

    /// The trace variables of the frame that is being recorded.
    pub fn variables(&self) -> (variables: &Variables)
        ensures
            variables@ == self@.variables,
    {
        &self.variables
    }

    /// The number of regions that are open on the stack of `reporter_id`.
    pub fn depth(&self, reporter_id: usize) -> (depth: usize)
        requires
            is_kind(reporter_id),
        ensures
            depth == self@.kinds[reporter_id].depth,
    {
        self.reports.get(reporter_id).depth()
    }

    /// The id of the innermost open region on the stack of `reporter_id`, if
    /// one is open.
    pub fn active_id(&self, reporter_id: usize) -> (id: Option<&'static str>)
        requires
            is_kind(reporter_id),
        ensures
            self@.kinds[reporter_id].depth == 0 ==> id is None,
            self@.kinds[reporter_id].depth > 0 ==> id is Some && id->0@
                == self@.kinds[reporter_id].innermost().id,
    {
        self.reports.get(reporter_id).active_id()
    }

    /// What is recorded under every kind is a forest whose open regions are
    /// its rightmost path.
    pub proof fn lemma_wf(&self, reporter_id: usize)
        requires
            is_kind(reporter_id),
        ensures
            self@.kinds[reporter_id].wf(),
    {
        stacks(self.reports.map)[reporter_id].lemma_wf();
    }
}

/// Names the thread. Threads of one name report as one thread.
pub fn set_thread_name(storage: &mut ThreadStorage, name: &str)
    ensures
        final(storage)@ == (ThreadState { thread_name: name@, ..old(storage)@ }),
{
    storage.thread_name = name.to_owned();
}

/// Gives the trace variable `name` the value `value` for the frame that is
/// being recorded, in place of any value it had.
pub fn set_variable_value(storage: &mut ThreadStorage, name: String, value: u32)
    ensures
        final(storage)@ == (ThreadState {
            variables: old(storage)@.variables.insert(name@, value),
            ..old(storage)@
        }),
{
    storage.variables.insert(name, value);
}

/// Begins a region on the stack of `reporter_id`: the region becomes the
/// last child of the innermost open region of that stack, or a new root,
/// its time source is started, and it is the innermost open region from
/// now on. Nothing else changes.
pub fn start_region(
    storage: &mut ThreadStorage,
    name: &str,
    id: &'static str,
    reporter: Reporter,
    reporter_id: usize,
)
    requires
        is_kind(reporter_id),
    ensures
        began(
            old(storage)@.kinds[reporter_id],
            final(storage)@.kinds[reporter_id],
            name@,
            id@,
            reporter@,
        ),
        final(storage)@ == (ThreadState {
            kinds: old(storage)@.kinds.insert(reporter_id, final(storage)@.kinds[reporter_id]),
            ..old(storage)@
        }),
{
    storage.reports.get_mut(reporter_id).start_region(name, id, reporter);
}

/// Ends the innermost open region on the stack of `reporter_id`: its time
/// source is ended, and its parent is the innermost open region again.
/// Nothing else changes; the trace variables stay until the frame boundary.
pub fn end_region(storage: &mut ThreadStorage, reporter_id: usize)
    requires
        is_kind(reporter_id),
        old(storage)@.kinds[reporter_id].depth > 0,
    ensures
        ended(old(storage)@.kinds[reporter_id], final(storage)@.kinds[reporter_id]),
        final(storage)@ == (ThreadState {
            kinds: old(storage)@.kinds.insert(reporter_id, final(storage)@.kinds[reporter_id]),
            ..old(storage)@
        }),
{
    storage.reports.get_mut(reporter_id).end_region();
}

/// A channel that is left alone has had nothing delivered.
proof fn lemma_nothing_delivered(profiler: Option<Profiler>, state: ThreadState)
    ensures
        delivered(profiler, profiler, state, Seq::empty()),
{
    match profiler {
        Some(channel) => {
            assert(channel.pending().take(channel.pending().len() as int) =~= channel.pending());
        },
        None => {},
    }
}

/// Two deliveries one after the other are one delivery of both.
proof fn lemma_delivered_twice(
    before: Option<Profiler>,
    between: Option<Profiler>,
    after: Option<Profiler>,
    state: ThreadState,
    later: ThreadState,
    first: Seq<usize>,
    second: Seq<usize>,
)
    requires
        delivered(before, between, state, first),
        delivered(between, after, later, second),
        later.thread_name == state.thread_name,
        later.frame == state.frame,
        later.variables == state.variables,
        forall|i: int|
            0 <= i < second.len() ==> later.kinds[#[trigger] second[i]] == state.kinds[second[i]],
    ensures
        delivered(before, after, state, first + second),
{
    match before {
        Some(b) => {
            let m = between->0;
            let a = after->0;
            let all = first + second;
            assert(a.pending().take(b.pending().len() as int) =~= b.pending()) by {
                assert(a.pending().take(m.pending().len() as int) == m.pending());
                assert(m.pending().take(b.pending().len() as int) == b.pending());
                assert forall|i: int| 0 <= i < b.pending().len() implies a.pending()[i]
                    == b.pending()[i] by {
                    assert(a.pending().take(m.pending().len() as int)[i] == a.pending()[i]);
                    assert(m.pending().take(b.pending().len() as int)[i] == m.pending()[i]);
                }
            }
            assert forall|i: int| 0 <= i < all.len() implies state.reported_by(
                #[trigger] all[i],
                a.pending()[b.pending().len() as int + i]@,
            ) by {
                if i < first.len() {
                    assert(all[i] == first[i]);
                    assert(a.pending().take(m.pending().len() as int)[b.pending().len() as int + i]
                        == a.pending()[b.pending().len() as int + i]);
                    assert(state.reported_by(first[i], m.pending()[b.pending().len() as int + i]@));
                } else {
                    let j = i - first.len();
                    assert(all[i] == second[j]);
                    assert(later.reported_by(second[j], a.pending()[m.pending().len() as int + j]@));
                }
            }
        },
        None => {},
    }
}

/// One kind's part of a frame boundary.
fn advance_kind(storage: &mut ThreadStorage, profiler: &mut Option<Profiler>, kind: usize) -> (result:
    Result<(), ProfilerError>)
    requires
        is_kind(kind),
    ensures
        ({
            let verdict = old(storage)@.verdict(kind, room(*old(profiler)));
            &&& final(storage)@ == old(storage)@.after(kind, verdict)
            &&& result == match verdict.error() {
                Some(error) => Err::<(), ProfilerError>(error),
                None => Ok::<(), ProfilerError>(()),
            }
            &&& delivered(
                *old(profiler),
                *final(profiler),
                old(storage)@,
                if verdict is Sent {
                    seq![kind]
                } else {
                    Seq::empty()
                },
            )
        }),
{
    let report = storage.reports.get(kind);
    if report.empty() {
        proof {
            lemma_nothing_delivered(*profiler, storage@);
        }
        return Ok(());
    }
    if report.depth() > 0 {
        proof {
            lemma_nothing_delivered(*profiler, storage@);
        }
        return Err(ProfilerError::UnterminatedRegion);
    }
    let counters = storage.reports.get_mut(kind).take_counters();
    let thread_name = thread_label(&storage.thread_name, kind);
    let frame = FrameReport::from_thread_data(
        thread_name.as_str(),
        storage.frame,
        counters,
        &storage.variables,
    );
    let result = send_profiler_state(profiler, frame);
    proof {
        assert(old(storage)@.reported_by(kind, frame@));
        match *old(profiler) {
            Some(before) => {
                let after = profiler->0;
                if result is Ok {
                    assert(after.pending().take(before.pending().len() as int)
                        =~= before.pending());
                    assert(after.pending()[before.pending().len() as int + 0] == frame);
                } else {
                    assert(after.pending().take(before.pending().len() as int)
                        =~= before.pending());
                }
            },
            None => {},
        }
    }
    result
}

/// The frame boundary: reports what the thread recorded and starts the
/// next frame.
///
/// For each kind of time source that recorded anything, in the order of the
/// kinds' numbers, a report is made of the kind's forest, under the kind's
/// label, with the current frame index and a copy of the trace variables;
/// the kind's stack is cleared and the report delivered to the channel in
/// `profiler`. The first kind that fails ends the call with its error: a
/// kind with an open region fails untouched with `UnterminatedRegion`, and a
/// report that cannot be delivered is lost to `NotInitialised` or
/// `ChannelFull`. Only when no kind fails does the frame index go up by one
/// and are the trace variables cleared.
pub fn next_frame(storage: &mut ThreadStorage, profiler: &mut Option<Profiler>) -> (result: Result<
    (),
    ProfilerError,
>)
    requires
        old(storage)@.frame < i32::MAX,
    ensures
        result == old(storage)@.advance(room(*old(profiler))).result,
        final(storage)@ == old(storage)@.advance(room(*old(profiler))).state,
        delivered(
            *old(profiler),
            *final(profiler),
            old(storage)@,
            old(storage)@.advance(room(*old(profiler))).sent,
        ),
{
    let ghost start = storage@;
    let ghost outcome = start.advance(room(*profiler));
    let ghost first = start.verdict(SYSTEM_CLOCK, room(*profiler));
    let ghost sent_first = if first is Sent {
        seq![SYSTEM_CLOCK]
    } else {
        Seq::<usize>::empty()
    };
    match advance_kind(storage, profiler, SYSTEM_CLOCK) {
        Err(error) => {
            return Err(error);
        },
        Ok(()) => {},
    }
    let ghost between = *profiler;
    let ghost middle = storage@;
    let ghost second = middle.verdict(CUSTOM, room(between));
    let ghost sent_second = if second is Sent {
        seq![CUSTOM]
    } else {
        Seq::<usize>::empty()
    };
    let failed = advance_kind(storage, profiler, CUSTOM);
    proof {
        lemma_delivered_twice(
            *old(profiler),
            between,
            *profiler,
            start,
            middle,
            sent_first,
            sent_second,
        );
        assert(sent_first + sent_second =~= outcome.sent);
    }
    match failed {
        Err(error) => {
            return Err(error);
        },
        Ok(()) => {},
    }
    storage.frame = storage.frame + 1;
    storage.variables.clear();
    Ok(())
}

} // verus!
