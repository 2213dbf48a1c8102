//! Keeping one worker for each attached receiver.

use vstd::prelude::*;

use crate::hid::client::WorkerCommand;

verus! {

/// How often to look for newly attached receivers, in seconds. Workers go on by
/// themselves, so that this only bounds how late a receiver that was just plugged
/// in is noticed.
pub const RESCAN_SECS: u64 = 20;

/// Whether a worker is to be retired: it has ended, or its receiver is not
/// attached any more. A scan that failed is `None` and says nothing of the
/// receivers.
pub open spec fn is_over(pid: u16, finished: Seq<u16>, present: Option<Seq<u16>>) -> bool {
    finished.contains(pid) || is_unplugged(pid, present)
}

/// Whether a scan shows that a receiver is not attached any more.
pub open spec fn is_unplugged(pid: u16, present: Option<Seq<u16>>) -> bool {
    present is Some && !present->0.contains(pid)
}

/// The workers that go on.
pub open spec fn kept(
    workers: Seq<u16>,
    finished: Seq<u16>,
    present: Option<Seq<u16>>,
) -> Seq<u16>
    decreases workers.len(),
{
    if workers.len() == 0 {
        Seq::empty()
    } else {
        let before = kept(workers.drop_last(), finished, present);
        if is_over(workers.last(), finished, present) {
            before
        } else {
            before.push(workers.last())
        }
    }
}

/// A worker that was retired.
#[derive(Clone, Copy, Debug, PartialEq, Eq, Structural)]
pub struct Retired {
    pub pid: u16,
    /// Its receiver is gone. The worker may still run, and has to be told to end.
    pub unplugged: bool,
}

/// The workers that are retired.
pub open spec fn retired(
    workers: Seq<u16>,
    finished: Seq<u16>,
    present: Option<Seq<u16>>,
) -> Seq<Retired>
    decreases workers.len(),
{
    if workers.len() == 0 {
        Seq::empty()
    } else {
        let before = retired(workers.drop_last(), finished, present);
        if is_over(workers.last(), finished, present) {
            before.push(
                Retired { pid: workers.last(), unplugged: is_unplugged(workers.last(), present) },
            )
        } else {
            before
        }
    }
}

/// The receivers that get a worker: those that have none.
pub open spec fn unattended(workers: Seq<u16>, present: Seq<u16>) -> Seq<u16>
    decreases present.len(),
{
    if present.len() == 0 {
        Seq::empty()
    } else {
        let before = unattended(workers, present.drop_last());
        if workers.contains(present.last()) || before.contains(present.last()) {
            before
        } else {
            before.push(present.last())
        }
    }
}

/// The receivers that get a worker after a scan.
pub open spec fn spawned(
    workers: Seq<u16>,
    finished: Seq<u16>,
    present: Option<Seq<u16>>,
) -> Seq<u16> {
    match present {
        Some(list) => unattended(kept(workers, finished, present), list),
        None => Seq::empty(),
    }
}

/// What to do after a scan.
#[derive(Debug)]
pub struct Plan {
    /// To be announced as gone, and told to end where the receiver is unplugged.
    pub retired: Vec<Retired>,
    /// To be given a worker.
    pub spawned: Vec<u16>,
}

/// What wakes the supervisor between two scans.
#[derive(Clone, Copy, Debug, PartialEq, Eq, Structural)]
pub enum Wakeup {
    Command(WorkerCommand),
    /// It is time for the next scan.
    Timeout,
    /// There is nobody left to give commands.
    Disconnected,
}

/// What to do about a command.
#[derive(Clone, Copy, Debug, PartialEq, Eq, Structural)]
pub struct Order {
    /// To be passed on to every worker.
    pub pass_on: Option<WorkerCommand>,
    /// Whether to end.
    pub stop: bool,
}

/// The receivers that have a worker, and what new workers are to know.
#[derive(Debug)]
pub struct Supervisor {
    pub workers: Vec<u16>,
    /// How often new workers read all batteries at least, in seconds.
    pub safety_secs: u64,
}

fn holds(list: &[u16], pid: u16) -> (found: bool)
    ensures
        found == list@.contains(pid),
{
    let mut i: usize = 0;
    while i < list.len()
        invariant
            i <= list@.len(),
            forall|j: int| 0 <= j < i ==> #[trigger] list@[j] != pid,
        decreases list@.len() - i,
    {
        if list[i] == pid {
            return true;
        }
        i = i + 1;
    }
    false
}

/// What is to be passed on of a wakeup.
pub open spec fn order_for(wakeup: Wakeup) -> Order {
    match wakeup {
        Wakeup::Command(command) => Order {
            pass_on: Some(command),
            stop: command == WorkerCommand::Exit,
        },
        Wakeup::Timeout => Order { pass_on: None, stop: false },
        Wakeup::Disconnected => Order { pass_on: None, stop: true },
    }
}

impl Supervisor {
    /// No receiver has a worker yet.
    pub fn new(safety_secs: u64) -> (supervisor: Self)
        ensures
            supervisor.workers@ == Seq::<u16>::empty(),
            supervisor.workers@.no_duplicates(),
            supervisor.safety_secs == safety_secs,
    {
        Supervisor { workers: Vec::new(), safety_secs }
    }

    /// Takes note of a scan: the receivers that are attached, or `None` if the
    /// scan failed. `finished` are the workers that have ended by themselves.
    ///
    /// A worker that ends while reading does not tell that its devices are gone,
    /// and one whose receiver was unplugged may not end at all and would hold its
    /// place against the receiver being plugged in again. Both are retired.
    pub fn scan(&mut self, finished: &[u16], present: Option<&[u16]>) -> (plan: Plan)
        ensures
            ({
                let list = match present {
                    Some(list) => Some(list@),
                    None => None,
                };
                let before = old(self).workers@;
                &&& plan.retired@ == retired(before, finished@, list)
                &&& plan.spawned@ == spawned(before, finished@, list)
                &&& final(self).workers@ == kept(before, finished@, list) + spawned(
                    before,
                    finished@,
                    list,
                )
                &&& final(self).safety_secs == old(self).safety_secs
            }),
            old(self).workers@.no_duplicates() ==> final(self).workers@.no_duplicates(),
    {
        let ghost before = self.workers@;
        let ghost list = match present {
            Some(list) => Some(list@),
            None => None,
        };
        let mut gone: Vec<Retired> = Vec::new();
        let mut workers: Vec<u16> = Vec::new();
        let mut i: usize = 0;
        assert(before.take(0) == Seq::<u16>::empty());
        while i < self.workers.len()
            invariant
                i <= before.len(),
                before == self.workers@,
                list == (match present {
                    Some(list) => Some(list@),
                    None => None,
                }),
                workers@ == kept(before.take(i as int), finished@, list),
                gone@ == retired(before.take(i as int), finished@, list),
            decreases before.len() - i,
        {
            assert(before.take(i + 1).drop_last() == before.take(i as int));
            assert(before.take(i + 1).last() == before[i as int]);
            let pid = self.workers[i];
            let unplugged = match present {
                Some(list) => !holds(list, pid),
                None => false,
            };
            if holds(finished, pid) || unplugged {
                gone.push(Retired { pid, unplugged });
            } else {
                workers.push(pid);
            }
            i = i + 1;
        }
        assert(before.take(i as int) == before);
        let ghost stay = workers@;
        let mut fresh: Vec<u16> = Vec::new();
        if let Some(receivers) = present {
            let mut k: usize = 0;
            assert(receivers@.take(0) == Seq::<u16>::empty());
            while k < receivers.len()
                invariant
                    k <= receivers@.len(),
                    fresh@ == unattended(stay, receivers@.take(k as int)),
                    workers@ == stay + fresh@,
                decreases receivers@.len() - k,
            {
                assert(receivers@.take(k + 1).drop_last() == receivers@.take(k as int));
                assert(receivers@.take(k + 1).last() == receivers@[k as int]);
                let pid = receivers[k];
                proof {
                    in_either(stay, fresh@, pid);
                }
                if !holds(&workers, pid) {
                    fresh.push(pid);
                    workers.push(pid);
                    assert(workers@ == stay + fresh@);
                }
                k = k + 1;
            }
            assert(receivers@.take(k as int) == receivers@);
        }
        assert(workers@ == stay + fresh@);
        proof {
            if before.no_duplicates() {
                one_worker_for_each_receiver(before, finished@, list);
            }
        }
        self.workers = workers;
        Plan { retired: gone, spawned: fresh }
    }

    /// What to do about a wakeup.
    pub fn wake(&mut self, wakeup: Wakeup) -> (order: Order)
        ensures
            order == order_for(wakeup),
            final(self).workers == old(self).workers,
            final(self).safety_secs == (match wakeup {
                Wakeup::Command(WorkerCommand::SetSafetyInterval(secs)) => secs,
                _ => old(self).safety_secs,
            }),
    {
        match wakeup {
            Wakeup::Command(command) => {
                if let WorkerCommand::SetSafetyInterval(secs) = command {
                    self.safety_secs = secs;
                }
                Order { pass_on: Some(command), stop: command == WorkerCommand::Exit }
            },
            Wakeup::Timeout => Order { pass_on: None, stop: false },
            Wakeup::Disconnected => Order { pass_on: None, stop: true },
        }
    }
}

proof fn in_either(a: Seq<u16>, b: Seq<u16>, pid: u16)
    ensures
        (a + b).contains(pid) <==> a.contains(pid) || b.contains(pid),
{
    if a.contains(pid) {
        let i = choose|i: int| 0 <= i < a.len() && a[i] == pid;
        assert((a + b)[i] == pid);
    }
    if b.contains(pid) {
        let i = choose|i: int| 0 <= i < b.len() && b[i] == pid;
        assert((a + b)[a.len() + i] == pid);
    }
}

proof fn kept_are_those_that_go_on(
    workers: Seq<u16>,
    finished: Seq<u16>,
    present: Option<Seq<u16>>,
    pid: u16,
)
    ensures
        kept(workers, finished, present).contains(pid) <==> workers.contains(pid) && !is_over(
            pid,
            finished,
            present,
        ),
        workers.no_duplicates() ==> kept(workers, finished, present).no_duplicates(),
    decreases workers.len(),
{
    if workers.len() > 0 {
        let head = workers.drop_last();
        let last = workers.last();
        let before = kept(head, finished, present);
        let after = kept(workers, finished, present);
        kept_are_those_that_go_on(head, finished, present, pid);
        kept_are_those_that_go_on(head, finished, present, last);
        assert(workers == head.push(last));
        in_either(head, seq![last], pid);
        assert(head + seq![last] == workers);
        assert(seq![last].contains(pid) <==> pid == last) by {
            assert(seq![last][0] == last);
        }
        if workers.no_duplicates() {
            assert forall|i: int, j: int| 0 <= i < head.len() && 0 <= j < head.len() && i
                != j implies head[i] != head[j] by {
                assert(workers[i] != workers[j]);
            }
        }
        if !is_over(last, finished, present) {
            in_either(before, seq![last], pid);
            assert(before + seq![last] == after);
            if workers.no_duplicates() {
                assert(!head.contains(last)) by {
                    if head.contains(last) {
                        let i = choose|i: int| 0 <= i < head.len() && head[i] == last;
                        assert(workers[i] == workers[workers.len() - 1]);
                    }
                }
                adding_a_new_one(before, last);
            }
        }
    }
}

proof fn adding_a_new_one(list: Seq<u16>, pid: u16)
    requires
        list.no_duplicates(),
        !list.contains(pid),
    ensures
        list.push(pid).no_duplicates(),
{
    let more = list.push(pid);
    assert forall|i: int, j: int| 0 <= i < more.len() && 0 <= j < more.len() && i
        != j implies more[i] != more[j] by {
        if i < list.len() {
            assert(more[i] == list[i]);
        }
        if j < list.len() {
            assert(more[j] == list[j]);
        }
    }
}

proof fn unattended_have_no_worker(workers: Seq<u16>, present: Seq<u16>, pid: u16)
    ensures
        unattended(workers, present).contains(pid) <==> present.contains(pid)
            && !workers.contains(pid),
        workers.no_duplicates() ==> (workers + unattended(workers, present)).no_duplicates(),
    decreases present.len(),
{
    let all = unattended(workers, present);
    if present.len() > 0 {
        let head = present.drop_last();
        let last = present.last();
        let before = unattended(workers, head);
        unattended_have_no_worker(workers, head, pid);
        in_either(head, seq![last], pid);
        assert(head + seq![last] == present);
        assert(seq![last].contains(pid) <==> pid == last) by {
            assert(seq![last][0] == last);
        }
        if !(workers.contains(last) || before.contains(last)) {
            in_either(before, seq![last], pid);
            assert(before + seq![last] == all);
            if workers.no_duplicates() {
                in_either(workers, before, last);
                adding_a_new_one(workers + before, last);
                assert((workers + before).push(last) == workers + all);
            }
        }
    } else {
        assert(workers + all == workers);
    }
}

/// No receiver ever has two workers.
pub proof fn one_worker_for_each_receiver(
    workers: Seq<u16>,
    finished: Seq<u16>,
    present: Option<Seq<u16>>,
)
    requires
        workers.no_duplicates(),
    ensures
        (kept(workers, finished, present) + spawned(workers, finished, present)).no_duplicates(),
{
    let stay = kept(workers, finished, present);
    kept_are_those_that_go_on(workers, finished, present, 0);
    match present {
        Some(list) => unattended_have_no_worker(stay, list, 0),
        None => assert(stay + Seq::<u16>::empty() == stay),
    }
}

/// After a scan exactly the receivers that are attached have a worker. One whose
/// worker had ended gets a new one.
pub proof fn attached_receivers_are_attended(
    workers: Seq<u16>,
    finished: Seq<u16>,
    present: Seq<u16>,
    pid: u16,
)
    ensures
        (kept(workers, finished, Some(present)) + spawned(workers, finished, Some(present))).contains(
            pid,
        ) <==> present.contains(pid),
        present.contains(pid) && finished.contains(pid) ==> spawned(
            workers,
            finished,
            Some(present),
        ).contains(pid),
{
    let stay = kept(workers, finished, Some(present));
    kept_are_those_that_go_on(workers, finished, Some(present), pid);
    unattended_have_no_worker(stay, present, pid);
    in_either(stay, unattended(stay, present), pid);
}

/// A scan that fails is not taken to mean that the receivers are gone: no worker
/// is retired but those that ended by themselves, and none is started.
pub proof fn failed_scans_retire_nobody(workers: Seq<u16>, finished: Seq<u16>, pid: u16)
    ensures
        spawned(workers, finished, None).len() == 0,
        kept(workers, finished, None).contains(pid) <==> workers.contains(pid)
            && !finished.contains(pid),
{
    kept_are_those_that_go_on(workers, finished, None, pid);
}

/// Every worker that does not go on is announced, and none that does.
pub proof fn retired_workers_are_announced(
    workers: Seq<u16>,
    finished: Seq<u16>,
    present: Option<Seq<u16>>,
    worker: Retired,
)
    ensures
        retired(workers, finished, present).contains(worker) <==> workers.contains(worker.pid)
            && is_over(worker.pid, finished, present) && worker.unplugged == is_unplugged(
            worker.pid,
            present,
        ),
        retired(workers, finished, present).len() + kept(workers, finished, present).len()
            == workers.len(),
    decreases workers.len(),
{
    if workers.len() > 0 {
        let head = workers.drop_last();
        let last = workers.last();
        let before = retired(head, finished, present);
        let after = retired(workers, finished, present);
        retired_workers_are_announced(head, finished, present, worker);
        in_either(head, seq![last], worker.pid);
        assert(head + seq![last] == workers);
        assert(seq![last].contains(worker.pid) <==> worker.pid == last) by {
            assert(seq![last][0] == last);
        }
        if is_over(last, finished, present) {
            let own = Retired { pid: last, unplugged: is_unplugged(last, present) };
            assert(after == before.push(own));
            assert(after.contains(worker) <==> before.contains(worker) || worker == own) by {
                if before.contains(worker) {
                    let i = choose|i: int| 0 <= i < before.len() && before[i] == worker;
                    assert(after[i] == worker);
                }
                if worker == own {
                    assert(after[before.len() as int] == worker);
                }
            }
        }
    }
}

/// Which workers are retired, and which go on: those that have ended are retired,
/// and so are those whose receiver a scan does not show, which are told so; all
/// others go on, in the order in which they were.
pub proof fn workers_end_with_their_receivers(
    workers: Seq<u16>,
    finished: Seq<u16>,
    present: Option<Seq<u16>>,
    worker: Retired,
)
    ensures
        ({
            let absent = present is Some && !present->0.contains(worker.pid);
            retired(workers, finished, present).contains(worker) <==> workers.contains(worker.pid)
                && (finished.contains(worker.pid) || absent) && worker.unplugged == absent
        }),
        kept(workers, finished, present) == workers.filter(
            |pid: u16|
                !finished.contains(pid) && (present is None || present->0.contains(pid)),
        ),
{
    retired_workers_are_announced(workers, finished, present, worker);
    kept_are_filtered(workers, finished, present);
}

proof fn kept_are_filtered(workers: Seq<u16>, finished: Seq<u16>, present: Option<Seq<u16>>)
    ensures
        kept(workers, finished, present) == workers.filter(
            |pid: u16|
                !finished.contains(pid) && (present is None || present->0.contains(pid)),
        ),
    decreases workers.len(),
{
    reveal(Seq::filter);
    if workers.len() > 0 {
        kept_are_filtered(workers.drop_last(), finished, present);
    }
}

/// A receiver gets a worker after a scan exactly if the scan shows it and it has
/// none, or one that has ended; and it gets one, however often the scan shows it.
pub proof fn workers_begin_with_their_receivers(
    workers: Seq<u16>,
    finished: Seq<u16>,
    present: Seq<u16>,
    pid: u16,
)
    ensures
        spawned(workers, finished, Some(present)).contains(pid) <==> present.contains(pid) && (
        !workers.contains(pid) || finished.contains(pid)),
        spawned(workers, finished, Some(present)).no_duplicates(),
{
    let stay = kept(workers, finished, Some(present));
    kept_are_those_that_go_on(workers, finished, Some(present), pid);
    unattended_have_no_worker(stay, present, pid);
    unattended_have_no_worker(Seq::empty(), present, pid);
    unattended_are_distinct(stay, present);
}

proof fn unattended_are_distinct(workers: Seq<u16>, present: Seq<u16>)
    ensures
        unattended(workers, present).no_duplicates(),
    decreases present.len(),
{
    if present.len() > 0 {
        let before = unattended(workers, present.drop_last());
        unattended_are_distinct(workers, present.drop_last());
        if !(workers.contains(present.last()) || before.contains(present.last())) {
            adding_a_new_one(before, present.last());
        }
    }
}

/// Every command is passed on to the workers, and nothing else is. The supervisor
/// ends at the command to exit, and when nobody is left to give commands.
pub proof fn commands_are_passed_on(wakeup: Wakeup)
    ensures
        wakeup matches Wakeup::Command(command) ==> order_for(wakeup).pass_on == Some(command),
        wakeup !is Command ==> order_for(wakeup).pass_on is None,
        order_for(wakeup).stop <==> wakeup == Wakeup::Command(WorkerCommand::Exit) || wakeup
            is Disconnected,
{
}

} // verus!
