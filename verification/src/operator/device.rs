//! The interfaces of a device that is lent, and what is done with them when the device changes
//! its configuration.
use crate::usb::RusbError;
use vstd::prelude::*;

verus! {

/// How many interfaces of a device are looked at.
pub const NUM_INTERFACES: usize = 16;

/// The configuration that a device is opened in.
pub const BASE_CONFIG: u8 = 1;

/// Who has an interface.
#[derive(Debug, Clone, Copy, PartialEq, Eq, Structural)]
pub enum InterfaceStatus {
    /// This process has exclusive access to the interface.
    Claimed,
    /// This process has not claimed the interface: requests to it fail.
    Unclaimed,
    /// A driver of the kernel has the interface, and must be detached before it can be claimed.
    DriverClaimed,
    /// The device has no such interface.
    NotFound,
}

/// The first interface with the status is the one at `at`.
pub open spec fn first_with(s: Seq<InterfaceStatus>, status: InterfaceStatus, at: int) -> bool {
    &&& 0 <= at < s.len()
    &&& s[at] == status
    &&& forall|j: int| 0 <= j < at ==> s[j] != status
}

/// What is to be done to find out about an interface of a device that is opened.
#[derive(Debug, Clone, Copy, PartialEq, Eq, Structural)]
pub enum Probe {
    /// A driver has it: detach the driver, then claim the interface; no failure is tolerated.
    DetachAndClaim,
    /// Nobody has it: claim it.
    Claim,
    /// There is none.
    Skip,
}

/// The interfaces of a device.
pub struct Interfaces {
    pub status: [InterfaceStatus; 16],
}

impl View for Interfaces {
    type V = Seq<InterfaceStatus>;

    open spec fn view(&self) -> Seq<InterfaceStatus> {
        self.status@
    }
}

impl Interfaces {
    /// A device of whose interfaces none is known.
    pub fn new() -> (t: Self)
        ensures
            t@.len() == 16,
            forall|i: int| 0 <= i < 16 ==> t@[i] == InterfaceStatus::NotFound,
    {
        Interfaces { status: [InterfaceStatus::NotFound; 16] }
    }

    /// What to do about an interface, by whether a driver of the kernel has it.
    pub fn probe(driver_active: Result<bool, RusbError>) -> (p: Probe)
        ensures
            p == (match driver_active {
                Ok(true) => Probe::DetachAndClaim,
                Ok(false) => Probe::Claim,
                Err(_) => Probe::Skip,
            }),
    {
        match driver_active {
            Ok(true) => Probe::DetachAndClaim,
            Ok(false) => Probe::Claim,
            Err(_) => Probe::Skip,
        }
    }

    /// Who has an interface that was free, after it was claimed. A claim fails only where there
    /// is no such interface.
    pub fn after_claim(claim: Result<(), RusbError>) -> (s: InterfaceStatus)
        requires
            claim matches Err(e) ==> e == RusbError::NotFound,
        ensures
            s == (if claim is Ok {
                InterfaceStatus::Claimed
            } else {
                InterfaceStatus::NotFound
            }),
    {
        match claim {
            Ok(_) => InterfaceStatus::Claimed,
            Err(_) => InterfaceStatus::NotFound,
        }
    }

    /// Takes note of who has an interface.
    pub fn set(&mut self, interface: u8, status: InterfaceStatus)
        requires
            interface < 16,
        ensures
            final(self)@ == old(self)@.update(interface as int, status),
    {
        self.status[interface as usize] = status;
    }

    /// Tells whether an interface is claimed already.
    pub fn is_claimed(&self, interface: u8) -> (b: bool)
        ensures
            b <==> interface < 16 && self@[interface as int] == InterfaceStatus::Claimed,
    {
        (interface as usize) < NUM_INTERFACES && matches!(
            self.status[interface as usize],
            InterfaceStatus::Claimed
        )
    }

    /// An interface was claimed.
    pub fn on_claimed(&mut self, interface: u8)
        requires
            interface < 16,
        ensures
            final(self)@ == old(self)@.update(interface as int, InterfaceStatus::Claimed),
    {
        self.status[interface as usize] = InterfaceStatus::Claimed;
    }

    /// Tells whether a device has to be set to a configuration: to set it to the one that it has
    /// would reset it.
    pub fn must_set_config(active: u8, config: u8) -> (b: bool)
        ensures
            b <==> active != config,
    {
        active != config
    }

    /// The first interface with the status, which gets the other status.
    fn change_first(&mut self, from: InterfaceStatus, to: InterfaceStatus) -> (r: Option<u8>)
        requires
            from != to,
        ensures
            match r {
                Some(i) => first_with(old(self)@, from, i as int) && final(self)@
                    == old(self)@.update(i as int, to),
                None => !old(self)@.contains(from) && final(self)@ == old(self)@,
            },
    {
        let mut i: u8 = 0;
        while i < 16
            invariant
                i <= 16,
                self@ == old(self)@,
                self@.len() == 16,
                forall|j: int| 0 <= j < i ==> self@[j] != from,
            decreases 16 - i,
        {
            if self.status[i as usize] == from {
                self.status[i as usize] = to;
                return Some(i);
            }
            i = i + 1;
        }
        None
    }

    /// The next interface to be released before the configuration changes; it counts as released
    /// whether or not that fails.
    pub fn release_next(&mut self) -> (r: Option<u8>)
        ensures
            match r {
                Some(i) => first_with(old(self)@, InterfaceStatus::Claimed, i as int)
                    && final(self)@ == old(self)@.update(i as int, InterfaceStatus::Unclaimed),
                None => !old(self)@.contains(InterfaceStatus::Claimed) && final(self)@
                    == old(self)@,
            },
    {
        self.change_first(InterfaceStatus::Claimed, InterfaceStatus::Unclaimed)
    }

    /// The next interface to be claimed after the configuration has changed; it counts as claimed
    /// whether or not that fails.
    pub fn claim_next(&mut self) -> (r: Option<u8>)
        ensures
            match r {
                Some(i) => first_with(old(self)@, InterfaceStatus::Unclaimed, i as int)
                    && final(self)@ == old(self)@.update(i as int, InterfaceStatus::Claimed),
                None => !old(self)@.contains(InterfaceStatus::Unclaimed) && final(self)@
                    == old(self)@,
            },
    {
        self.change_first(InterfaceStatus::Unclaimed, InterfaceStatus::Claimed)
    }
}

/// The interfaces with every status `from` turned into `to`.
pub open spec fn all_changed(
    s: Seq<InterfaceStatus>,
    from: InterfaceStatus,
    to: InterfaceStatus,
) -> Seq<InterfaceStatus> {
    Seq::new(
        s.len(),
        |i: int|
            if s[i] == from {
                to
            } else {
                s[i]
            },
    )
}

/// The state with the number follows from the one before by a change of the first interface with
/// the status `from`.
pub open spec fn follows(
    steps: Seq<Seq<InterfaceStatus>>,
    k: int,
    from: InterfaceStatus,
    to: InterfaceStatus,
) -> bool {
    exists|i: int|
        #[trigger] first_with(steps[k - 1], from, i) && steps[k] == steps[k - 1].update(i, to)
}

/// `steps` is a run: each state follows from the one before, and in the last there is no
/// interface with the status `from`.
pub open spec fn run(
    steps: Seq<Seq<InterfaceStatus>>,
    from: InterfaceStatus,
    to: InterfaceStatus,
) -> bool {
    &&& steps.len() > 0
    &&& !steps.last().contains(from)
    &&& forall|k: int| 0 < k < steps.len() ==> #[trigger] follows(steps, k, from, to)
}

proof fn lemma_run(steps: Seq<Seq<InterfaceStatus>>, from: InterfaceStatus, to: InterfaceStatus)
    requires
        from != to,
        run(steps, from, to),
    ensures
        steps.last() == all_changed(steps[0], from, to),
    decreases steps.len(),
{
    if steps.len() == 1 {
        assert forall|i: int| 0 <= i < steps[0].len() implies steps[0][i] != from by {
            assert(steps.last().contains(steps[0][i]));
        }
        assert(steps.last() =~= all_changed(steps[0], from, to));
    } else {
        let rest = steps.drop_first();
        assert(follows(steps, 1, from, to));
        assert forall|k: int| 0 < k < rest.len() implies #[trigger] follows(rest, k, from, to) by {
            assert(follows(steps, k + 1, from, to));
            assert(rest[k] == steps[k + 1]);
            assert(rest[k - 1] == steps[k]);
        }
        lemma_run(rest, from, to);
        assert(all_changed(rest[0], from, to) =~= all_changed(steps[0], from, to));
    }
}

/// A change of the configuration in which no call fails ends with every interface claimed that
/// was claimed before or could be, and leaves the others as they were.
pub proof fn law_config_change_claims_all(
    releases: Seq<Seq<InterfaceStatus>>,
    claims: Seq<Seq<InterfaceStatus>>,
)
    requires
        run(releases, InterfaceStatus::Claimed, InterfaceStatus::Unclaimed),
        run(claims, InterfaceStatus::Unclaimed, InterfaceStatus::Claimed),
        claims[0] == releases.last(),
    ensures
        claims.last() == all_changed(
            releases[0],
            InterfaceStatus::Unclaimed,
            InterfaceStatus::Claimed,
        ),
{
    lemma_run(releases, InterfaceStatus::Claimed, InterfaceStatus::Unclaimed);
    lemma_run(claims, InterfaceStatus::Unclaimed, InterfaceStatus::Claimed);
    assert(claims.last() =~= all_changed(
        releases[0],
        InterfaceStatus::Unclaimed,
        InterfaceStatus::Claimed,
    ));
}

} // verus!
