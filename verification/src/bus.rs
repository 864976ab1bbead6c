//! The bus and pin interfaces the chip drivers are generic over, and the
//! record each driver keeps of the traffic it issued.
//!
//! A driver never inspects the bus: it issues requests and keeps, in
//! ghost state, one [`Event`] per request with whether the bus reported
//! success and the bytes that came back. Driver contracts are stated over
//! that record: which requests were issued, in which order, where the
//! driver stopped on a failure, and how results are decoded from the
//! bytes read.

use vstd::prelude::*;

verus! {

/// One transfer or pin operation as it happened.
pub struct Event<R> {
    /// What the driver asked for.
    pub request: R,
    /// Whether the bus or pin reported success.
    pub ok: bool,
    /// Bytes that came back (empty for writes).
    pub data: Seq<u8>,
}

/// An I2C transfer as a driver requests it.
pub enum I2cRequest {
    /// Write the bytes to the 7-bit address.
    Write(u8, Seq<u8>),
    /// Read this many bytes from the address.
    Read(u8, nat),
    /// Write the bytes, then read this many bytes, in one transaction.
    WriteRead(u8, Seq<u8>, nat),
}

/// Record of I2C traffic.
pub type I2cLog = Seq<Event<I2cRequest>>;

/// A blocking I2C controller, as a board support package provides it.
pub trait I2cBus {
    /// Bus error.
    type Error;

    /// Whether every transfer on this bus is answered. No bus is taken to
    /// answer everything unless its own verified impl says so.
    open spec fn answers_all(&self) -> bool {
        false
    }

    /// Writes `bytes` to the device at `address`.
    fn write(&mut self, address: u8, bytes: &[u8]) -> (r: Result<(), Self::Error>)
        ensures
            old(self).answers_all() ==> r is Ok && final(self).answers_all(),
    ;

    /// Reads `buffer.len()` bytes from the device at `address`.
    fn read(&mut self, address: u8, buffer: &mut [u8]) -> (r: Result<(), Self::Error>)
        ensures
            final(buffer)@.len() == old(buffer)@.len(),
            old(self).answers_all() ==> r is Ok && final(self).answers_all(),
    ;

    /// Writes `bytes`, then reads `buffer.len()` bytes, as one transaction.
    fn write_read(&mut self, address: u8, bytes: &[u8], buffer: &mut [u8]) -> (r: Result<
        (),
        Self::Error,
    >)
        ensures
            final(buffer)@.len() == old(buffer)@.len(),
            old(self).answers_all() ==> r is Ok && final(self).answers_all(),
    ;
}

/// One planned step: the request, and whether a failure ends the run
/// (`true`) or is ignored (`false`).
pub type Step<R> = (R, bool);

/// The event matches the planned step and, if the step is required, it
/// succeeded.
pub open spec fn step_done<R>(e: Event<R>, s: Step<R>) -> bool {
    e.request == s.0 && (e.ok || !s.1)
}

/// `log` grew from `base` by the first steps of `plan`, each done.
pub open spec fn on_track<R>(base: Seq<Event<R>>, log: Seq<Event<R>>, plan: Seq<Step<R>>) -> bool {
    &&& base.is_prefix_of(log)
    &&& log.len() <= base.len() + plan.len()
    &&& forall|i: int| base.len() <= i < log.len() ==> step_done(#[trigger] log[i], plan[i - base.len()])
}

/// Every step of `plan` was issued and done.
pub open spec fn completed<R>(base: Seq<Event<R>>, log: Seq<Event<R>>, plan: Seq<Step<R>>) -> bool {
    on_track(base, log, plan) && log.len() == base.len() + plan.len()
}

/// The run stopped at a required step that failed: all steps before it
/// were done, and nothing was issued after it.
pub open spec fn stopped<R>(base: Seq<Event<R>>, log: Seq<Event<R>>, plan: Seq<Step<R>>) -> bool {
    let k = log.len() - 1 - base.len();
    &&& log.len() > base.len()
    &&& on_track(base, log.drop_last(), plan)
    &&& k < plan.len()
    &&& log.last().request == plan[k].0
    &&& !log.last().ok
    &&& plan[k].1
}

/// `plan` was run from `base` to the end, or up to the first required
/// step that failed.
pub open spec fn ran<R>(base: Seq<Event<R>>, log: Seq<Event<R>>, plan: Seq<Step<R>>) -> bool {
    completed(base, log, plan) || stopped(base, log, plan)
}

/// Issuing the next planned step keeps the run on track, or ends it.
pub proof fn lemma_step<R>(base: Seq<Event<R>>, log: Seq<Event<R>>, plan: Seq<Step<R>>, e: Event<R>)
    requires
        on_track(base, log, plan),
        log.len() < base.len() + plan.len(),
        e.request == plan[log.len() - base.len()].0,
    ensures
        (e.ok || !plan[log.len() - base.len()].1) ==> on_track(base, log.push(e), plan),
        (!e.ok && plan[log.len() - base.len()].1) ==> stopped(base, log.push(e), plan),
{
    let l2 = log.push(e);
    assert(l2.drop_last() =~= log);
    assert(base.is_prefix_of(l2)) by {
        assert(base =~= l2.subrange(0, base.len() as int));
    }
    if e.ok || !plan[log.len() - base.len()].1 {
        assert forall|i: int| base.len() <= i < l2.len() implies step_done(
            #[trigger] l2[i],
            plan[i - base.len()],
        ) by {
            if i < log.len() {
                assert(l2[i] == log[i]);
            }
        }
    }
}

/// A run on track for one plan is on track for any plan that agrees
/// with it on the steps issued so far.
pub proof fn lemma_replan<R>(base: Seq<Event<R>>, log: Seq<Event<R>>, p1: Seq<Step<R>>, p2: Seq<Step<R>>)
    requires
        on_track(base, log, p1),
        log.len() <= base.len() + p2.len(),
        forall|i: int| 0 <= i < log.len() - base.len() ==> p1[i] == p2[i],
    ensures
        on_track(base, log, p2),
{
    assert forall|i: int| base.len() <= i < log.len() implies step_done(
        #[trigger] log[i],
        p2[i - base.len()],
    ) by {
        assert(p1[i - base.len()] == p2[i - base.len()]);
    }
}

/// Nothing issued yet is on track for any plan.
pub proof fn lemma_start<R>(base: Seq<Event<R>>, plan: Seq<Step<R>>)
    ensures
        on_track(base, base, plan),
{
    assert(base.is_prefix_of(base)) by {
        assert(base =~= base.subrange(0, base.len() as int));
    }
}

/// Two runs back to back are one run of the two plans back to back.
pub proof fn lemma_concat<R>(
    base: Seq<Event<R>>,
    mid: Seq<Event<R>>,
    fin: Seq<Event<R>>,
    pa: Seq<Step<R>>,
    pb: Seq<Step<R>>,
)
    requires
        completed(base, mid, pa),
        mid.is_prefix_of(fin),
    ensures
        on_track(mid, fin, pb) ==> on_track(base, fin, pa + pb),
        completed(mid, fin, pb) <==> completed(base, fin, pa + pb),
        stopped(mid, fin, pb) ==> stopped(base, fin, pa + pb),
        ran(mid, fin, pb) ==> ran(base, fin, pa + pb),
{
    assert(base.is_prefix_of(fin)) by {
        assert(base =~= fin.subrange(0, base.len() as int)) by {
            assert forall|i: int| 0 <= i < base.len() implies base[i] == fin[i] by {
                assert(mid[i] == base[i]);
                assert(fin.subrange(0, mid.len() as int)[i] == fin[i]);
            }
        }
    }
    assert forall|i: int| base.len() <= i < mid.len() implies step_done(#[trigger] fin[i], (pa + pb)[i - base.len()]) by {
        assert(fin.subrange(0, mid.len() as int)[i] == fin[i]);
        assert(step_done(mid[i], pa[i - base.len()]));
    }
    if on_track(mid, fin, pb) {
        assert forall|i: int| base.len() <= i < fin.len() implies step_done(#[trigger] fin[i], (pa + pb)[i - base.len()]) by {
            if i >= mid.len() {
                assert(step_done(fin[i], pb[i - mid.len()]));
            }
        }
    }
    if completed(base, fin, pa + pb) {
        assert forall|i: int| mid.len() <= i < fin.len() implies step_done(#[trigger] fin[i], pb[i - mid.len()]) by {
            assert(step_done(fin[i], (pa + pb)[i - base.len()]));
        }
    }
    if stopped(mid, fin, pb) {
        let d = fin.drop_last();
        assert(mid.is_prefix_of(d)) by {
            assert(mid =~= d.subrange(0, mid.len() as int));
        }
        assert(d.is_prefix_of(fin)) by {
            assert(d =~= fin.subrange(0, d.len() as int));
        }
        assert(base.is_prefix_of(d)) by {
            assert(base =~= d.subrange(0, base.len() as int)) by {
                assert forall|i: int| 0 <= i < base.len() implies base[i] == d[i] by {
                    assert(mid[i] == base[i]);
                    assert(d.subrange(0, mid.len() as int)[i] == d[i]);
                }
            }
        }
        assert forall|i: int| base.len() <= i < d.len() implies step_done(#[trigger] d[i], (pa + pb)[i - base.len()]) by {
            assert(d[i] == fin[i]);
            if i < mid.len() {
                assert(d.subrange(0, mid.len() as int)[i] == d[i]);
                assert(step_done(mid[i], pa[i - base.len()]));
            } else {
                assert(step_done(d[i], pb[i - mid.len()]));
            }
        }
    }
}

/// `k` copies of one step.
pub open spec fn repeat<R>(s: Step<R>, k: nat) -> Seq<Step<R>> {
    Seq::new(k, |i: int| s)
}

/// Polls a waiting loop issues from position `start` of `log`: polling
/// continues while the byte read is below `need`, up to `max` polls. A
/// position past the end of the log (the loop was cut short) counts as
/// running to `max`.
pub open spec fn polls<R>(log: Seq<Event<R>>, start: int, i: nat, max: nat, need: u8) -> nat
    decreases max - i,
{
    if i >= max || start + i >= log.len() || start + i < 0 {
        max
    } else if log[start + i].data.len() > 0 && log[start + i].data[0] >= need {
        i + 1
    } else {
        polls(log, start, i + 1, max, need)
    }
}

/// The poll at `start + i` read a byte of at least `need`.
pub open spec fn poll_hit<R>(log: Seq<Event<R>>, start: int, i: int, need: u8) -> bool {
    0 <= start + i < log.len() && log[start + i].data.len() > 0 && log[start + i].data[0] >= need
}

/// Polls already found short do not change the count.
pub proof fn lemma_polls_skip<R>(log: Seq<Event<R>>, start: int, j: nat, max: nat, need: u8)
    requires
        j <= max,
        0 <= start,
        start + j <= log.len(),
        forall|i: int| 0 <= i < j ==> !poll_hit(log, start, i, need),
    ensures
        polls(log, start, 0, max, need) == polls(log, start, j, max, need),
    decreases j,
{
    if j > 0 {
        lemma_polls_skip(log, start, (j - 1) as nat, max, need);
        assert(!poll_hit(log, start, j - 1, need));
    }
}

/// The count depends only on the polls it looks at.
pub proof fn lemma_polls_prefix<R>(l1: Seq<Event<R>>, l2: Seq<Event<R>>, start: int, i: nat, max: nat, need: u8)
    requires
        l1.is_prefix_of(l2),
        0 <= start,
        i <= max,
        start + polls(l1, start, i, max, need) <= l1.len(),
    ensures
        polls(l1, start, i, max, need) == polls(l2, start, i, max, need),
    decreases max - i,
{
    if i < max {
        assert(l2.subrange(0, l1.len() as int)[start + i] == l2[start + i]);
        if !(l1[start + i].data.len() > 0 && l1[start + i].data[0] >= need) {
            lemma_polls_prefix(l1, l2, start, i + 1, max, need);
        }
    }
}

/// A run keeps what was issued before it.
pub proof fn lemma_ran_prefix<R>(base: Seq<Event<R>>, log: Seq<Event<R>>, plan: Seq<Step<R>>)
    requires
        ran(base, log, plan),
    ensures
        base.is_prefix_of(log),
{
    if stopped(base, log, plan) {
        let d = log.drop_last();
        assert(base =~= log.subrange(0, base.len() as int)) by {
            assert forall|i: int| 0 <= i < base.len() implies base[i] == log[i] by {
                assert(d.subrange(0, base.len() as int)[i] == d[i]);
            }
        }
    }
}

/// A run that stopped stays stopped under any longer plan that starts
/// with the same steps.
pub proof fn lemma_stop_extend<R>(base: Seq<Event<R>>, log: Seq<Event<R>>, p: Seq<Step<R>>, q: Seq<Step<R>>)
    requires
        stopped(base, log, p),
        p.len() <= q.len(),
        forall|i: int| 0 <= i < p.len() ==> p[i] == q[i],
    ensures
        stopped(base, log, q),
{
    lemma_replan(base, log.drop_last(), p, q);
}

/// A run that stopped stays stopped under a plan of the same length that
/// agrees with it up to the step that failed.
pub proof fn lemma_stop_replan<R>(base: Seq<Event<R>>, log: Seq<Event<R>>, p: Seq<Step<R>>, q: Seq<Step<R>>)
    requires
        stopped(base, log, p),
        p.len() == q.len(),
        forall|i: int| 0 <= i <= log.len() - 1 - base.len() ==> p[i] == q[i],
    ensures
        stopped(base, log, q),
{
    lemma_replan(base, log.drop_last(), p, q);
}

/// Prefixes chain.
pub proof fn lemma_prefix_trans<E>(l1: Seq<E>, l2: Seq<E>, l3: Seq<E>)
    requires
        l1.is_prefix_of(l2),
        l2.is_prefix_of(l3),
    ensures
        l1.is_prefix_of(l3),
{
    assert(l1 =~= l3.subrange(0, l1.len() as int)) by {
        assert forall|i: int| 0 <= i < l1.len() implies l1[i] == l3[i] by {
            assert(l2.subrange(0, l1.len() as int)[i] == l2[i]);
            assert(l3.subrange(0, l2.len() as int)[i] == l3[i]);
        }
    }
}

/// Register-file devices (select, then read one byte).

/// Register select: the register address alone.
pub open spec fn select_req(a: u8, reg: u8) -> I2cRequest {
    I2cRequest::Write(a, seq![reg])
}

/// A named-register read: select the register, then read one byte.
pub open spec fn read_pair(a: u8, reg: u8) -> Seq<Step<I2cRequest>> {
    seq![(select_req(a, reg), true), (I2cRequest::Read(a, 1), true)]
}

/// A named-register write: the register address and the data bytes.
pub open spec fn write_req(a: u8, reg: u8, data: Seq<u8>) -> I2cRequest {
    I2cRequest::Write(a, seq![reg] + data)
}

/// The byte the read of a [`read_pair`] at `at` returned.
pub open spec fn read_byte(log: I2cLog, at: nat) -> u8 {
    log[at + 1int].data[0]
}

/// Dropping the last element leaves a prefix.
pub proof fn lemma_drop_last_prefix<E>(l: Seq<E>)
    requires
        l.len() > 0,
    ensures
        l.drop_last().is_prefix_of(l),
{
    assert(l.drop_last() =~= l.subrange(0, l.len() - 1));
}

/// A device on an I2C bus at a fixed address, with the record of the
/// traffic issued over it. The `*_to` transfers reach other devices on
/// the same bus.
pub struct I2cDevice<B> {
    bus: B,
    address: u8,
    log: Ghost<I2cLog>,
    origin: Ghost<B>,
}

impl<B> I2cDevice<B> {
    /// The bus the device holds.
    pub closed spec fn spec_bus(&self) -> B {
        self.bus
    }

    /// The bus the device was made with: the traffic on it since is
    /// [`I2cDevice::events`].
    pub closed spec fn spec_origin(&self) -> B {
        self.origin@
    }

    /// Gives back the bus the device holds.
    pub fn release(self) -> (b: B)
        ensures
            b == self.spec_bus(),
    {
        self.bus
    }
}

impl<B: I2cBus> I2cDevice<B> {
    /// Whether the bus answers every transfer.
    pub closed spec fn answers_all(&self) -> bool {
        self.bus.answers_all()
    }

    /// Traffic issued so far, oldest first.
    pub closed spec fn events(&self) -> I2cLog {
        self.log@
    }

    /// The device's 7-bit address.
    pub closed spec fn spec_address(&self) -> u8 {
        self.address
    }

    /// Wraps a bus; nothing has been issued yet.
    pub fn new(bus: B, address: u8) -> (d: Self)
        ensures
            d.events() == Seq::<Event<I2cRequest>>::empty(),
            d.spec_address() == address,
            d.spec_bus() == bus,
            d.spec_origin() == bus,
            d.answers_all() == bus.answers_all(),
    {
        I2cDevice { bus, address, log: Ghost(Seq::empty()), origin: Ghost(bus) }
    }

    /// The device's 7-bit address.
    pub fn address(&self) -> (a: u8)
        ensures
            a == self.spec_address(),
    {
        self.address
    }

    /// Writes `bytes` to the device.
    pub fn write(&mut self, bytes: &[u8]) -> (r: Result<(), B::Error>)
        ensures
            final(self).spec_address() == old(self).spec_address(),
            final(self).spec_origin() == old(self).spec_origin(),
            old(self).answers_all() ==> r is Ok && final(self).answers_all(),
            final(self).events() == old(self).events().push(
                Event {
                    request: I2cRequest::Write(old(self).spec_address(), bytes@),
                    ok: r is Ok,
                    data: Seq::empty(),
                },
            ),
    {
        let r = self.bus.write(self.address, bytes);
        self.log = Ghost(
            self.log@.push(
                Event {
                    request: I2cRequest::Write(self.address, bytes@),
                    ok: r is Ok,
                    data: Seq::empty(),
                },
            ),
        );
        r
    }

    /// Reads `buffer.len()` bytes from the device.
    pub fn read(&mut self, buffer: &mut [u8]) -> (r: Result<(), B::Error>)
        ensures
            final(self).spec_address() == old(self).spec_address(),
            final(self).spec_origin() == old(self).spec_origin(),
            old(self).answers_all() ==> r is Ok && final(self).answers_all(),
            final(buffer)@.len() == old(buffer)@.len(),
            final(self).events() == old(self).events().push(
                Event {
                    request: I2cRequest::Read(old(self).spec_address(), old(buffer)@.len()),
                    ok: r is Ok,
                    data: final(buffer)@,
                },
            ),
    {
        let ghost len = buffer@.len();
        let r = self.bus.read(self.address, buffer);
        self.log = Ghost(
            self.log@.push(
                Event {
                    request: I2cRequest::Read(self.address, len),
                    ok: r is Ok,
                    data: buffer@,
                },
            ),
        );
        r
    }

    /// Writes `bytes`, then reads `buffer.len()` bytes, in one transaction.
    pub fn write_read(&mut self, bytes: &[u8], buffer: &mut [u8]) -> (r: Result<(), B::Error>)
        ensures
            final(self).spec_address() == old(self).spec_address(),
            final(self).spec_origin() == old(self).spec_origin(),
            old(self).answers_all() ==> r is Ok && final(self).answers_all(),
            final(buffer)@.len() == old(buffer)@.len(),
            final(self).events() == old(self).events().push(
                Event {
                    request: I2cRequest::WriteRead(
                        old(self).spec_address(),
                        bytes@,
                        old(buffer)@.len(),
                    ),
                    ok: r is Ok,
                    data: final(buffer)@,
                },
            ),
    {
        let ghost len = buffer@.len();
        let r = self.bus.write_read(self.address, bytes, buffer);
        self.log = Ghost(
            self.log@.push(
                Event {
                    request: I2cRequest::WriteRead(self.address, bytes@, len),
                    ok: r is Ok,
                    data: buffer@,
                },
            ),
        );
        r
    }

    /// Writes `bytes` to the device at `address` on the same bus.
    pub fn write_to(&mut self, address: u8, bytes: &[u8]) -> (r: Result<(), B::Error>)
        ensures
            final(self).spec_address() == old(self).spec_address(),
            final(self).spec_origin() == old(self).spec_origin(),
            old(self).answers_all() ==> r is Ok && final(self).answers_all(),
            final(self).events() == old(self).events().push(
                Event { request: I2cRequest::Write(address, bytes@), ok: r is Ok, data: Seq::empty() },
            ),
    {
        let r = self.bus.write(address, bytes);
        self.log = Ghost(
            self.log@.push(
                Event { request: I2cRequest::Write(address, bytes@), ok: r is Ok, data: Seq::empty() },
            ),
        );
        r
    }

    /// Writes `bytes`, then reads `buffer.len()` bytes, in one transaction
    /// with the device at `address` on the same bus.
    pub fn write_read_to(&mut self, address: u8, bytes: &[u8], buffer: &mut [u8]) -> (r: Result<(), B::Error>)
        ensures
            final(self).spec_address() == old(self).spec_address(),
            final(self).spec_origin() == old(self).spec_origin(),
            old(self).answers_all() ==> r is Ok && final(self).answers_all(),
            final(buffer)@.len() == old(buffer)@.len(),
            final(self).events() == old(self).events().push(
                Event {
                    request: I2cRequest::WriteRead(address, bytes@, old(buffer)@.len()),
                    ok: r is Ok,
                    data: final(buffer)@,
                },
            ),
    {
        let ghost len = buffer@.len();
        let r = self.bus.write_read(address, bytes, buffer);
        self.log = Ghost(
            self.log@.push(
                Event { request: I2cRequest::WriteRead(address, bytes@, len), ok: r is Ok, data: buffer@ },
            ),
        );
        r
    }

    /// [`I2cDevice::write_to`] as the next step of a planned run.
    pub fn write_step_to(
        &mut self,
        address: u8,
        bytes: &[u8],
        Ghost(base): Ghost<I2cLog>,
        Ghost(plan): Ghost<Seq<Step<I2cRequest>>>,
    ) -> (r: Result<(), B::Error>)
        requires
            on_track(base, old(self).events(), plan),
            old(self).events().len() < base.len() + plan.len(),
            plan[old(self).events().len() - base.len()].0 == I2cRequest::Write(address, bytes@),
        ensures
            final(self).spec_address() == old(self).spec_address(),
            final(self).spec_origin() == old(self).spec_origin(),
            old(self).answers_all() ==> r is Ok && final(self).answers_all(),
            final(self).events().len() == old(self).events().len() + 1,
            final(self).events().drop_last() == old(self).events(),
            final(self).events().last().ok == r is Ok,
            (r is Ok || !plan[old(self).events().len() - base.len()].1) ==> on_track(
                base,
                final(self).events(),
                plan,
            ),
            (r is Err && plan[old(self).events().len() - base.len()].1) ==> stopped(
                base,
                final(self).events(),
                plan,
            ),
    {
        let ghost log = self.events();
        let r = self.write_to(address, bytes);
        proof {
            lemma_step(base, log, plan, self.events().last());
            assert(self.events().drop_last() =~= log);
        }
        r
    }

    /// [`I2cDevice::write`] as the next step of a planned run.
    pub fn write_step(
        &mut self,
        bytes: &[u8],
        Ghost(base): Ghost<I2cLog>,
        Ghost(plan): Ghost<Seq<Step<I2cRequest>>>,
    ) -> (r: Result<(), B::Error>)
        requires
            on_track(base, old(self).events(), plan),
            old(self).events().len() < base.len() + plan.len(),
            plan[old(self).events().len() - base.len()].0 == I2cRequest::Write(
                old(self).spec_address(),
                bytes@,
            ),
        ensures
            final(self).spec_address() == old(self).spec_address(),
            final(self).spec_origin() == old(self).spec_origin(),
            old(self).answers_all() ==> r is Ok && final(self).answers_all(),
            final(self).events().len() == old(self).events().len() + 1,
            final(self).events().drop_last() == old(self).events(),
            final(self).events().last().ok == r is Ok,
            (r is Ok || !plan[old(self).events().len() - base.len()].1) ==> on_track(
                base,
                final(self).events(),
                plan,
            ),
            (r is Err && plan[old(self).events().len() - base.len()].1) ==> stopped(
                base,
                final(self).events(),
                plan,
            ),
    {
        let ghost log = self.events();
        let r = self.write(bytes);
        proof {
            lemma_step(base, log, plan, self.events().last());
            assert(self.events().drop_last() =~= log);
        }
        r
    }

    /// [`I2cDevice::read`] as the next step of a planned run.
    pub fn read_step(
        &mut self,
        buffer: &mut [u8],
        Ghost(base): Ghost<I2cLog>,
        Ghost(plan): Ghost<Seq<Step<I2cRequest>>>,
    ) -> (r: Result<(), B::Error>)
        requires
            on_track(base, old(self).events(), plan),
            old(self).events().len() < base.len() + plan.len(),
            plan[old(self).events().len() - base.len()].0 == I2cRequest::Read(
                old(self).spec_address(),
                old(buffer)@.len(),
            ),
        ensures
            final(self).spec_address() == old(self).spec_address(),
            final(self).spec_origin() == old(self).spec_origin(),
            old(self).answers_all() ==> r is Ok && final(self).answers_all(),
            final(buffer)@.len() == old(buffer)@.len(),
            final(self).events().len() == old(self).events().len() + 1,
            final(self).events().drop_last() == old(self).events(),
            final(self).events().last().ok == r is Ok,
            final(self).events().last().data == final(buffer)@,
            (r is Ok || !plan[old(self).events().len() - base.len()].1) ==> on_track(
                base,
                final(self).events(),
                plan,
            ),
            (r is Err && plan[old(self).events().len() - base.len()].1) ==> stopped(
                base,
                final(self).events(),
                plan,
            ),
    {
        let ghost log = self.events();
        let r = self.read(buffer);
        proof {
            lemma_step(base, log, plan, self.events().last());
            assert(self.events().drop_last() =~= log);
        }
        r
    }

    /// A named-register read (select, then one byte) as the next two
    /// planned steps, both required.
    pub fn read_pair_step(
        &mut self,
        reg: u8,
        Ghost(base): Ghost<I2cLog>,
        Ghost(plan): Ghost<Seq<Step<I2cRequest>>>,
    ) -> (r: Result<u8, B::Error>)
        requires
            on_track(base, old(self).events(), plan),
            old(self).events().len() + 1 < base.len() + plan.len(),
            plan[old(self).events().len() - base.len()] == (select_req(old(self).spec_address(), reg), true),
            plan[old(self).events().len() - base.len() + 1] == (I2cRequest::Read(old(self).spec_address(), 1), true),
        ensures
            final(self).spec_address() == old(self).spec_address(),
            final(self).spec_origin() == old(self).spec_origin(),
            old(self).answers_all() ==> r is Ok && final(self).answers_all(),
            old(self).events().is_prefix_of(final(self).events()),
            r is Ok ==> on_track(base, final(self).events(), plan) && final(self).events().len() == old(self).events().len() + 2,
            r is Err ==> stopped(base, final(self).events(), plan),
            r matches Ok(v) ==> v == read_byte(final(self).events(), old(self).events().len()),
    {
        let ghost log = self.events();
        let sel = [reg];
        assert(sel@ =~= seq![reg]);
        match self.write_step(&sel, Ghost(base), Ghost(plan)) {
            Err(e) => {
                proof {
                    assert(log =~= self.events().subrange(0, log.len() as int));
                }
                return Err(e);
            },
            Ok(()) => {},
        }
        let ghost mid = self.events();
        let mut val = [0u8];
        let r = self.read_step(&mut val, Ghost(base), Ghost(plan));
        proof {
            let fin = self.events();
            assert(log =~= fin.subrange(0, log.len() as int)) by {
                assert forall|i: int| 0 <= i < log.len() implies log[i] == fin[i] by {
                    assert(mid[i] == log[i]);
                }
            }
        }
        match r {
            Ok(()) => Ok(val[0]),
            Err(e) => Err(e),
        }
    }

    /// [`I2cDevice::write_read`] as the next step of a planned run.
    pub fn write_read_step(
        &mut self,
        bytes: &[u8],
        buffer: &mut [u8],
        Ghost(base): Ghost<I2cLog>,
        Ghost(plan): Ghost<Seq<Step<I2cRequest>>>,
    ) -> (r: Result<(), B::Error>)
        requires
            on_track(base, old(self).events(), plan),
            old(self).events().len() < base.len() + plan.len(),
            plan[old(self).events().len() - base.len()].0 == I2cRequest::WriteRead(
                old(self).spec_address(),
                bytes@,
                old(buffer)@.len(),
            ),
        ensures
            final(self).spec_address() == old(self).spec_address(),
            final(self).spec_origin() == old(self).spec_origin(),
            old(self).answers_all() ==> r is Ok && final(self).answers_all(),
            final(buffer)@.len() == old(buffer)@.len(),
            final(self).events().len() == old(self).events().len() + 1,
            final(self).events().drop_last() == old(self).events(),
            final(self).events().last().ok == r is Ok,
            final(self).events().last().data == final(buffer)@,
            (r is Ok || !plan[old(self).events().len() - base.len()].1) ==> on_track(
                base,
                final(self).events(),
                plan,
            ),
            (r is Err && plan[old(self).events().len() - base.len()].1) ==> stopped(
                base,
                final(self).events(),
                plan,
            ),
    {
        let ghost log = self.events();
        let r = self.write_read(bytes, buffer);
        proof {
            lemma_step(base, log, plan, self.events().last());
            assert(self.events().drop_last() =~= log);
        }
        r
    }
}

/// A pin of an SPI-attached device.
#[derive(PartialEq, Eq, Structural)]
pub enum PinId {
    /// SX1262 chip select (active low).
    Nss,
    /// SX1262 BUSY input.
    Busy,
    /// SSD1677 data/command select.
    Dc,
    /// SSD1677 chip select (active low).
    Cs,
}

/// An SPI transfer or pin operation as a driver requests it.
pub enum SpiRequest {
    /// Clock the bytes out.
    Write(Seq<u8>),
    /// Clock this many bytes in.
    Read(nat),
    /// Clock the bytes out while clocking this many in.
    Transfer(Seq<u8>, nat),
    /// Drive the pin high (`true`) or low (`false`).
    Drive(PinId, bool),
    /// Sample the input pin. The event's data is `[1]` when the pin read
    /// low or the read failed (waiting ends), `[0]` when it read high.
    Sample(PinId),
}

/// Record of SPI and pin traffic.
pub type SpiLog = Seq<Event<SpiRequest>>;

/// A blocking SPI bus (the device's chip select is driven separately).
pub trait SpiBus {
    /// Bus error.
    type Error;

    /// Clocks `words` out.
    fn write(&mut self, words: &[u8]) -> Result<(), Self::Error>;

    /// Clocks `words.len()` bytes in.
    fn read(&mut self, words: &mut [u8]) -> (r: Result<(), Self::Error>)
        ensures
            final(words)@.len() == old(words)@.len(),
    ;

    /// Clocks `write` out while clocking `read.len()` bytes in.
    fn transfer(&mut self, read: &mut [u8], write: &[u8]) -> (r: Result<(), Self::Error>)
        ensures
            final(read)@.len() == old(read)@.len(),
    ;
}

/// A push-pull output pin.
pub trait OutputPin {
    /// Pin error.
    type Error;

    /// Drives the pin low.
    fn set_low(&mut self) -> Result<(), Self::Error>;

    /// Drives the pin high.
    fn set_high(&mut self) -> Result<(), Self::Error>;
}

/// A digital input pin.
pub trait InputPin {
    /// Pin error.
    type Error;

    /// Whether the pin reads low.
    fn is_low(&mut self) -> Result<bool, Self::Error>;
}

} // verus!
