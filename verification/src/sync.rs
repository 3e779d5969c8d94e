//! The synchronization orchestrator.
//!
//! A sync-archive run walks a two-level course tree in a fixed order and
//! downloads every file reachable from it, publishing coarse progress as it
//! goes. [`sync_archive`] turns the archive into the complete, ordered
//! schedule of steps of one run; the host executes the steps one by one,
//! writing each published value into the shared progress counter and handing
//! each file batch to the external save routine. The schedule fixes both
//! correctness properties of a run: the traversal order of the batches, and
//! the monotone progress sequence that ends at exactly 100 percent.

use vstd::prelude::*;
use vstd::arithmetic::div_mod::{
    lemma_div_is_ordered,
    lemma_div_pos_is_pos,
    lemma_multiply_divide_lt,
};
use crate::course::{Course, TrainexFile, course_batches, archive_batches, clone_files};
use crate::state::{PROGRESS_DONE, SharedState};

verus! {

/// One step of a sync run, in execution order.
pub enum SyncStep {
    /// Write this value, in basis points, into the shared progress counter.
    Publish(u32),
    /// Hand this file batch to the external save routine.
    Save(Vec<TrainexFile>),
}

/// The mathematical shape of one step: a published value, or a saved batch
/// as a sequence.
pub enum StepModel {
    /// A progress value, in basis points.
    Publish(u32),
    /// One file batch, in download order.
    Save(Seq<TrainexFile>),
}

/// The model of an executable step.
pub open spec fn step_model(s: SyncStep) -> StepModel {
    match s {
        SyncStep::Publish(v) => StepModel::Publish(v),
        SyncStep::Save(b) => StepModel::Save(b@),
    }
}

/// The models of a whole step vector, in order.
pub open spec fn step_models(steps: Seq<SyncStep>) -> Seq<StepModel> {
    steps.map_values(|s: SyncStep| step_model(s))
}

/// The progress published when course `i` of `n` is reached, in basis
/// points: the fraction of courses already completed.
pub open spec fn progress_bp_of(i: int, n: int) -> int
    recommends
        0 < n,
{
    i * (PROGRESS_DONE as int) / n
}

/// The steps course `i` of `n` contributes to a run: its progress value
/// first, then its batches in download order.
pub open spec fn course_steps(c: Course, i: int, n: int) -> Seq<StepModel> {
    seq![StepModel::Publish(progress_bp_of(i, n) as u32)] + course_batches(c).map_values(
        |b: Seq<TrainexFile>| StepModel::Save(b),
    )
}

/// The steps of the first `i` courses of the archive, in order.
pub open spec fn steps_upto(archive: Seq<Course>, i: int) -> Seq<StepModel>
    decreases i,
{
    if i <= 0 {
        Seq::empty()
    } else {
        steps_upto(archive, i - 1) + course_steps(
            archive[i - 1],
            i - 1,
            archive.len() as int,
        )
    }
}

/// The complete schedule of one sync run: every course's steps in listed
/// order, then the completion publish of exactly 100 percent.
pub open spec fn schedule(archive: Seq<Course>) -> Seq<StepModel> {
    steps_upto(archive, archive.len() as int).push(StepModel::Publish(PROGRESS_DONE))
}

/// The progress fraction of course `i` of `n`, computed exactly. The value
/// of an uncompleted run always stays strictly below 100 percent.
pub fn progress_fraction_bp(i: usize, n: usize) -> (bp: u32)
    requires
        i < n,
    ensures
        bp == progress_bp_of(i as int, n as int),
        bp < PROGRESS_DONE,
{
    proof {
        let ii = i as int;
        let nn = n as int;
        lemma_div_pos_is_pos(ii * (PROGRESS_DONE as int), nn);
        lemma_multiply_divide_lt(ii * (PROGRESS_DONE as int), nn, PROGRESS_DONE as int);
    }
    ((i as u128) * (PROGRESS_DONE as u128) / (n as u128)) as u32
}

/// A step the shared state can absorb: a published value never exceeds 100
/// percent.
pub open spec fn step_wf(s: SyncStep) -> bool {
    match s {
        SyncStep::Publish(v) => v <= PROGRESS_DONE,
        SyncStep::Save(_) => true,
    }
}

/// Sync-archive command: builds the schedule of the run over `archive` and
/// echoes the destination path back, exactly as the run returns it to the
/// UI on completion. The schedule is the whole behavior of the run: batches
/// in traversal order, progress values in publication order.
pub fn sync_archive(archive: &Vec<Course>, path: String) -> (r: (Vec<SyncStep>, String))
    ensures
        step_models(r.0@) == schedule(archive@),
        forall|k: int| 0 <= k < r.0@.len() ==> step_wf(#[trigger] r.0@[k]),
        r.1 == path,
{
    let ghost a = archive@;
    let n = archive.len();
    let mut steps: Vec<SyncStep> = Vec::new();
    let mut i: usize = 0;
    while i < n
        invariant
            i <= n,
            n == a.len(),
            a == archive@,
            step_models(steps@) == steps_upto(a, i as int),
            forall|k: int| 0 <= k < steps@.len() ==> step_wf(#[trigger] steps@[k]),
        decreases n - i,
    {
        let bp = progress_fraction_bp(i, n);
        let ghost s0 = steps@;
        steps.push(SyncStep::Publish(bp));
        proof {
            assert(step_models(steps@) =~= step_models(s0).push(StepModel::Publish(bp)));
        }
        let ghost before_course = steps@;
        let course = &archive[i];
        let mut j: usize = 0;
        while j < course.children.len()
            invariant
                i < n,
                n == a.len(),
                a == archive@,
                course == a[i as int],
                j <= course.children@.len(),
                step_models(before_course) == steps_upto(a, i as int).push(
                    StepModel::Publish(bp),
                ),
                bp == progress_bp_of(i as int, n as int),
                step_models(steps@) == step_models(before_course) + course.children@.take(
                    j as int,
                ).map_values(|ch: Course| StepModel::Save(ch.files@)),
                forall|k: int| 0 <= k < steps@.len() ==> step_wf(#[trigger] steps@[k]),
            decreases course.children@.len() - j,
        {
            let batch = clone_files(&course.children[j].files);
            let ghost s1 = steps@;
            steps.push(SyncStep::Save(batch));
            proof {
                assert(step_models(steps@) =~= step_models(s1).push(
                    StepModel::Save(batch@),
                ));
                assert(course.children@.take(j + 1) =~= course.children@.take(j as int).push(
                    course.children@[j as int],
                ));
                assert(course.children@.take(j + 1).map_values(
                    |ch: Course| StepModel::Save(ch.files@),
                ) =~= course.children@.take(j as int).map_values(
                    |ch: Course| StepModel::Save(ch.files@),
                ).push(StepModel::Save(course.children@[j as int].files@)));
                assert(step_models(steps@) =~= step_models(before_course)
                    + course.children@.take(j + 1).map_values(
                    |ch: Course| StepModel::Save(ch.files@),
                ));
            }
            j += 1;
        }
        let own = clone_files(&course.files);
        let ghost s2 = steps@;
        steps.push(SyncStep::Save(own));
        proof {
            assert(step_models(steps@) =~= step_models(s2).push(StepModel::Save(own@)));
            assert(course.children@.take(course.children@.len() as int) =~= course.children@);
            assert(course_batches(a[i as int]).map_values(
                |b: Seq<TrainexFile>| StepModel::Save(b),
            ) =~= course.children@.map_values(
                |ch: Course| StepModel::Save(ch.files@),
            ).push(StepModel::Save(a[i as int].files@)));
            assert(step_models(steps@) =~= steps_upto(a, i as int) + course_steps(
                a[i as int],
                i as int,
                n as int,
            ));
            assert(step_models(steps@) == steps_upto(a, i + 1));
        }
        i += 1;
    }
    let ghost s3 = steps@;
    steps.push(SyncStep::Publish(PROGRESS_DONE));
    proof {
        assert(step_models(steps@) =~= step_models(s3).push(
            StepModel::Publish(PROGRESS_DONE),
        ));
        assert(step_models(steps@) == schedule(a));
    }
    (steps, path)
}

/// Executes one schedule step against the shared state: a publish step
/// writes its value into the progress counter and asks for no save; a save
/// step leaves the state alone and hands its batch back for the host to
/// pass to the external save routine.
pub fn apply_step<'a>(state: &mut SharedState, step: &'a SyncStep) -> (batch: Option<
    &'a Vec<TrainexFile>,
>)
    requires
        old(state).wf(),
        step_wf(*step),
    ensures
        final(state).driver_guard() == old(state).driver_guard(),
        final(state).sync_in_flight() == old(state).sync_in_flight(),
        final(state).wf(),
        match step_model(*step) {
            StepModel::Publish(v) => final(state).progress_bp() == v && batch is None,
            StepModel::Save(b) => final(state).progress_bp() == old(state).progress_bp()
                && batch is Some && batch.unwrap()@ == b,
        },
{
    match step {
        SyncStep::Publish(v) => {
            state.set_progress(*v);
            Option::None
        },
        SyncStep::Save(files) => Option::Some(files),
    }
}

/// The progress values a poller can observe during one run: the published
/// values of the schedule, in publication order.
pub open spec fn publishes_of(steps: Seq<StepModel>) -> Seq<u32>
    decreases steps.len(),
{
    if steps.len() == 0 {
        Seq::empty()
    } else {
        match steps[0] {
            StepModel::Publish(v) => seq![v] + publishes_of(steps.drop_first()),
            StepModel::Save(_) => publishes_of(steps.drop_first()),
        }
    }
}

/// The file batches a run saves: the saved batches of the schedule, in
/// download order.
pub open spec fn saves_of(steps: Seq<StepModel>) -> Seq<Seq<TrainexFile>>
    decreases steps.len(),
{
    if steps.len() == 0 {
        Seq::empty()
    } else {
        match steps[0] {
            StepModel::Publish(_) => saves_of(steps.drop_first()),
            StepModel::Save(b) => seq![b] + saves_of(steps.drop_first()),
        }
    }
}

proof fn lemma_publishes_concat(x: Seq<StepModel>, y: Seq<StepModel>)
    ensures
        publishes_of(x + y) == publishes_of(x) + publishes_of(y),
    decreases x.len(),
{
    if x.len() == 0 {
        assert(x + y =~= y);
        assert(publishes_of(x) + publishes_of(y) =~= publishes_of(y));
    } else {
        assert((x + y).drop_first() =~= x.drop_first() + y);
        lemma_publishes_concat(x.drop_first(), y);
        assert(publishes_of(x + y) =~= publishes_of(x) + publishes_of(y));
    }
}

proof fn lemma_saves_concat(x: Seq<StepModel>, y: Seq<StepModel>)
    ensures
        saves_of(x + y) == saves_of(x) + saves_of(y),
    decreases x.len(),
{
    if x.len() == 0 {
        assert(x + y =~= y);
        assert(saves_of(x) + saves_of(y) =~= saves_of(y));
    } else {
        assert((x + y).drop_first() =~= x.drop_first() + y);
        lemma_saves_concat(x.drop_first(), y);
        assert(saves_of(x + y) =~= saves_of(x) + saves_of(y));
    }
}

proof fn lemma_saves_of_save_batches(m: Seq<Seq<TrainexFile>>)
    ensures
        saves_of(m.map_values(|b: Seq<TrainexFile>| StepModel::Save(b))) == m,
        publishes_of(m.map_values(|b: Seq<TrainexFile>| StepModel::Save(b)))
            == Seq::<u32>::empty(),
    decreases m.len(),
{
    let mapped = m.map_values(|b: Seq<TrainexFile>| StepModel::Save(b));
    if m.len() == 0 {
        assert(saves_of(mapped) =~= m);
    } else {
        assert(mapped.drop_first() =~= m.drop_first().map_values(
            |b: Seq<TrainexFile>| StepModel::Save(b),
        ));
        lemma_saves_of_save_batches(m.drop_first());
        assert(saves_of(mapped) =~= m);
    }
}

proof fn lemma_course_steps_decomposed(c: Course, i: int, n: int)
    ensures
        saves_of(course_steps(c, i, n)) == course_batches(c),
        publishes_of(course_steps(c, i, n)) == seq![(progress_bp_of(i, n) as u32)],
{
    let mapped = course_batches(c).map_values(|b: Seq<TrainexFile>| StepModel::Save(b));
    let head = seq![StepModel::Publish(progress_bp_of(i, n) as u32)];
    lemma_saves_concat(head, mapped);
    lemma_publishes_concat(head, mapped);
    lemma_saves_of_save_batches(course_batches(c));
    assert(head.drop_first() =~= Seq::<StepModel>::empty());
    assert(saves_of(Seq::<StepModel>::empty()) == Seq::<Seq<TrainexFile>>::empty());
    assert(publishes_of(Seq::<StepModel>::empty()) == Seq::<u32>::empty());
    assert(saves_of(head) =~= Seq::<Seq<TrainexFile>>::empty());
    assert(saves_of(course_steps(c, i, n)) =~= course_batches(c));
    assert(publishes_of(head) =~= seq![(progress_bp_of(i, n) as u32)]);
    assert(publishes_of(course_steps(c, i, n)) =~= seq![(progress_bp_of(i, n) as u32)]);
}

proof fn lemma_archive_batches_snoc(s: Seq<Course>, c: Course)
    ensures
        archive_batches(s.push(c)) == archive_batches(s) + course_batches(c),
    decreases s.len(),
{
    if s.len() == 0 {
        assert(s.push(c)[0] == c);
        assert(s.push(c).drop_first() =~= Seq::<Course>::empty());
        assert(s =~= Seq::<Course>::empty());
        assert(archive_batches(Seq::<Course>::empty()) == Seq::<Seq<TrainexFile>>::empty());
        assert(archive_batches(s.push(c)) =~= archive_batches(s) + course_batches(c));
    } else {
        assert(s.push(c).drop_first() =~= s.drop_first().push(c));
        lemma_archive_batches_snoc(s.drop_first(), c);
        assert(archive_batches(s.push(c)) =~= archive_batches(s) + course_batches(c));
    }
}

proof fn lemma_saves_steps_upto(a: Seq<Course>, i: int)
    requires
        0 <= i <= a.len(),
    ensures
        saves_of(steps_upto(a, i)) == archive_batches(a.take(i)),
    decreases i,
{
    if i == 0 {
        assert(a.take(0) =~= Seq::<Course>::empty());
    } else {
        lemma_saves_steps_upto(a, i - 1);
        lemma_saves_concat(steps_upto(a, i - 1), course_steps(a[i - 1], i - 1, a.len() as int));
        lemma_course_steps_decomposed(a[i - 1], i - 1, a.len() as int);
        assert(a.take(i) =~= a.take(i - 1).push(a[i - 1]));
        lemma_archive_batches_snoc(a.take(i - 1), a[i - 1]);
    }
}

proof fn lemma_publishes_steps_upto(a: Seq<Course>, i: int)
    requires
        0 <= i <= a.len(),
    ensures
        publishes_of(steps_upto(a, i)) == Seq::new(
            i as nat,
            |k: int| (progress_bp_of(k, a.len() as int) as u32),
        ),
    decreases i,
{
    if i == 0 {
        assert(publishes_of(steps_upto(a, 0)) =~= Seq::new(
            0nat,
            |k: int| (progress_bp_of(k, a.len() as int) as u32),
        ));
    } else {
        lemma_publishes_steps_upto(a, i - 1);
        lemma_publishes_concat(
            steps_upto(a, i - 1),
            course_steps(a[i - 1], i - 1, a.len() as int),
        );
        lemma_course_steps_decomposed(a[i - 1], i - 1, a.len() as int);
        assert(publishes_of(steps_upto(a, i)) =~= Seq::new(
            i as nat,
            |k: int| (progress_bp_of(k, a.len() as int) as u32),
        ));
    }
}

/// Traversal order: one sync run saves exactly the archive's batches, in
/// archive order — for every course, each child's files first, children in
/// listed order, then the course's own files, and courses themselves in
/// listed order.
pub proof fn lemma_traversal_order(archive: Seq<Course>)
    ensures
        saves_of(schedule(archive)) == archive_batches(archive),
{
    let upto = steps_upto(archive, archive.len() as int);
    let last = seq![StepModel::Publish(PROGRESS_DONE)];
    assert(schedule(archive) =~= upto + last);
    lemma_saves_concat(upto, last);
    lemma_saves_steps_upto(archive, archive.len() as int);
    assert(archive.take(archive.len() as int) =~= archive);
    assert(last.drop_first() =~= Seq::<StepModel>::empty());
    assert(saves_of(Seq::<StepModel>::empty()) == Seq::<Seq<TrainexFile>>::empty());
    assert(saves_of(last) =~= Seq::<Seq<TrainexFile>>::empty());
    assert(saves_of(schedule(archive)) =~= archive_batches(archive));
}

/// The exact progress sequence of one run over `n` courses: the fraction
/// `k / n` of the work, in basis points, as each course `k` is reached, and
/// exactly 100 percent once on completion.
pub proof fn lemma_progress_schedule(archive: Seq<Course>)
    ensures
        publishes_of(schedule(archive)) == Seq::new(
            archive.len(),
            |k: int| (progress_bp_of(k, archive.len() as int) as u32),
        ).push(PROGRESS_DONE),
{
    let upto = steps_upto(archive, archive.len() as int);
    let last = seq![StepModel::Publish(PROGRESS_DONE)];
    assert(schedule(archive) =~= upto + last);
    lemma_publishes_concat(upto, last);
    lemma_publishes_steps_upto(archive, archive.len() as int);
    assert(last.drop_first() =~= Seq::<StepModel>::empty());
    assert(publishes_of(Seq::<StepModel>::empty()) == Seq::<u32>::empty());
    assert(publishes_of(last) =~= seq![PROGRESS_DONE]);
    assert(publishes_of(schedule(archive)) =~= Seq::new(
        archive.len(),
        |k: int| (progress_bp_of(k, archive.len() as int) as u32),
    ).push(PROGRESS_DONE));
}

/// Every value the schedule can publish lies between 0 and 100 percent.
proof fn lemma_progress_value_bounds(k: int, n: int)
    requires
        0 <= k < n,
    ensures
        0 <= progress_bp_of(k, n) < PROGRESS_DONE,
{
    lemma_div_pos_is_pos(k * (PROGRESS_DONE as int), n);
    lemma_multiply_divide_lt(k * (PROGRESS_DONE as int), n, PROGRESS_DONE as int);
}

/// Progress monotonicity: within one run, the sequence of published
/// progress values is non-decreasing, so a poller can never observe the
/// counter move backwards.
pub proof fn lemma_progress_monotonic(archive: Seq<Course>, k1: int, k2: int)
    requires
        0 <= k1 <= k2 < publishes_of(schedule(archive)).len(),
    ensures
        publishes_of(schedule(archive))[k1] <= publishes_of(schedule(archive))[k2],
{
    lemma_progress_schedule(archive);
    let n = archive.len() as int;
    if k1 < n {
        lemma_progress_value_bounds(k1, n);
        if k2 < n {
            lemma_progress_value_bounds(k2, n);
            lemma_div_is_ordered(
                k1 * (PROGRESS_DONE as int),
                k2 * (PROGRESS_DONE as int),
                n,
            );
        }
    }
}

/// The value the shared progress counter holds after a run that started at
/// `init` has executed `steps`: the last published value, or `init` while
/// nothing was published yet. This is what a poller reads between steps.
pub open spec fn counter_after(init: u32, steps: Seq<StepModel>) -> u32
    decreases steps.len(),
{
    if steps.len() == 0 {
        init
    } else {
        counter_after(
            match steps[0] {
                StepModel::Publish(v) => v,
                StepModel::Save(_) => init,
            },
            steps.drop_first(),
        )
    }
}

proof fn lemma_counter_after_snoc(init: u32, steps: Seq<StepModel>, e: StepModel)
    ensures
        counter_after(init, steps.push(e)) == match e {
            StepModel::Publish(v) => v,
            StepModel::Save(_) => counter_after(init, steps),
        },
    decreases steps.len(),
{
    if steps.len() == 0 {
        assert(steps.push(e)[0] == e);
        assert(steps.push(e).drop_first() =~= Seq::<StepModel>::empty());
        match e {
            StepModel::Publish(v) => {
                assert(counter_after(v, Seq::<StepModel>::empty()) == v);
            },
            StepModel::Save(_) => {
                assert(counter_after(init, Seq::<StepModel>::empty()) == init);
            },
        }
    } else {
        assert(steps.push(e).drop_first() =~= steps.drop_first().push(e));
        match steps[0] {
            StepModel::Publish(v) => lemma_counter_after_snoc(v, steps.drop_first(), e),
            StepModel::Save(_) => lemma_counter_after_snoc(init, steps.drop_first(), e),
        }
    }
}

proof fn lemma_counter_is_last_publish(init: u32, steps: Seq<StepModel>)
    ensures
        counter_after(init, steps) == if publishes_of(steps).len() == 0 {
            init
        } else {
            publishes_of(steps).last()
        },
    decreases steps.len(),
{
    if steps.len() == 0 {
    } else {
        match steps[0] {
            StepModel::Publish(v) => lemma_counter_is_last_publish(v, steps.drop_first()),
            StepModel::Save(_) => lemma_counter_is_last_publish(init, steps.drop_first()),
        }
    }
}

proof fn lemma_publishes_prefix(s: Seq<StepModel>, p: int)
    requires
        0 <= p <= s.len(),
    ensures
        publishes_of(s.take(p)).len() <= publishes_of(s).len(),
        publishes_of(s.take(p)) == publishes_of(s).take(
            publishes_of(s.take(p)).len() as int,
        ),
{
    assert(s =~= s.take(p) + s.skip(p));
    lemma_publishes_concat(s.take(p), s.skip(p));
    assert(publishes_of(s).take(publishes_of(s.take(p)).len() as int) =~= publishes_of(
        s.take(p),
    ));
}

/// Poller monotonicity: whatever two moments of one run a poller reads the
/// shared counter at, the later read is never below the earlier one. The
/// moments are prefixes of the schedule; the counter starts at 0.
pub proof fn lemma_poller_monotonic(archive: Seq<Course>, p1: int, p2: int)
    requires
        0 <= p1 <= p2 <= schedule(archive).len(),
    ensures
        counter_after(0, schedule(archive).take(p1)) <= counter_after(
            0,
            schedule(archive).take(p2),
        ),
    decreases p2 - p1,
{
    let s = schedule(archive);
    if p1 < p2 {
        lemma_poller_monotonic(archive, p1, p2 - 1);
        assert(s.take(p2) =~= s.take(p2 - 1).push(s[p2 - 1]));
        lemma_counter_after_snoc(0, s.take(p2 - 1), s[p2 - 1]);
        match s[p2 - 1] {
            StepModel::Save(_) => {},
            StepModel::Publish(v) => {
                let m1 = publishes_of(s.take(p1)).len() as int;
                let m2 = publishes_of(s.take(p2 - 1)).len() as int;
                lemma_publishes_prefix(s, p1);
                lemma_publishes_prefix(s, p2 - 1);
                lemma_publishes_prefix(s, p2);
                assert(s.take(p2 - 1) =~= s.take(p1) + s.take(p2 - 1).skip(p1));
                lemma_publishes_concat(s.take(p1), s.take(p2 - 1).skip(p1));
                assert(m1 <= m2);
                lemma_publishes_concat(s.take(p2 - 1), seq![StepModel::Publish(v)]);
                assert(seq![StepModel::Publish(v)].drop_first() =~= Seq::<StepModel>::empty());
                assert(publishes_of(Seq::<StepModel>::empty()) == Seq::<u32>::empty());
                assert(publishes_of(seq![StepModel::Publish(v)]) =~= seq![v]);
                assert(s.take(p2) =~= s.take(p2 - 1) + seq![StepModel::Publish(v)]);
                assert(publishes_of(s.take(p2)) == publishes_of(s.take(p2 - 1)) + seq![v]);
                assert(publishes_of(s).take(m2 + 1).last() == publishes_of(s)[m2]);
                assert(v == publishes_of(s)[m2]);
                lemma_counter_is_last_publish(0, s.take(p1));
                if m1 == 0 {
                } else {
                    assert(counter_after(0, s.take(p1)) == publishes_of(s)[m1 - 1]);
                    lemma_progress_monotonic(archive, m1 - 1, m2);
                }
            },
        }
    }
}

/// Progress granularity and completion: during the per-course loop over `n`
/// courses the counter only ever shows `k / n` of the work — its maximum is
/// `(n - 1) / n`, never 100 percent — and the run publishes exactly 100
/// percent once, as its final step.
pub proof fn lemma_progress_completion(archive: Seq<Course>)
    ensures
        publishes_of(schedule(archive)).len() == archive.len() + 1,
        publishes_of(schedule(archive)).last() == PROGRESS_DONE,
        forall|k: int|
            0 <= k < archive.len() ==> publishes_of(schedule(archive))[k] == progress_bp_of(
                k,
                archive.len() as int,
            ),
        forall|k: int|
            0 <= k < archive.len() ==> publishes_of(schedule(archive))[k] < PROGRESS_DONE,
{
    lemma_progress_schedule(archive);
    let n = archive.len() as int;
    assert forall|k: int| 0 <= k < archive.len() implies publishes_of(schedule(archive))[k]
        == progress_bp_of(k, n) && publishes_of(schedule(archive))[k] < PROGRESS_DONE by {
        lemma_progress_value_bounds(k, n);
    }
}

} // verus!
