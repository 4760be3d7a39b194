//! Booting the GSP on Hopper and Blackwell GPUs, where the FSP does the work.
use vstd::prelude::*;
use crate::error::Error;
use crate::poll::{first_decision, law_wait, wait_gives, PollAction, PollBudget};

verus! {

/// Pattern that the firmware writes to the first mailbox while branch privilege
/// lockdown is active. The low byte varies.
pub const GSP_LOCKDOWN_PATTERN: u32 = 0xbadf_4100;

/// The bits of the pattern that are fixed.
pub const GSP_LOCKDOWN_MASK: u32 = 0xffff_ff00;

/// Time between two looks at the mailboxes while waiting for the release of the
/// lockdown, in microseconds.
pub const LOCKDOWN_SLEEP_US: u64 = 10_000;

/// Time to wait for the release of the lockdown, in microseconds.
pub const LOCKDOWN_TIMEOUT_US: u64 = 30_000_000;

/// The mailboxes of the GSP.
#[derive(Clone, Copy, Debug, PartialEq, Eq, Structural)]
pub struct GspMbox {
    pub mbox0: u32,
    pub mbox1: u32,
}

impl GspMbox {
    /// The first mailbox holds the lockdown pattern.
    pub open spec fn spec_is_locked_down(self) -> bool {
        self.mbox0 / 0x100 == GSP_LOCKDOWN_PATTERN / 0x100
    }

    /// The address in the two mailboxes.
    pub open spec fn spec_combined_addr(self) -> u64 {
        (self.mbox1 * 0x1_0000_0000 + self.mbox0) as u64
    }

    /// The lockdown is released, given whether the hardware still reports it: not while
    /// the pattern is there; but if the mailboxes hold anything else than the address of
    /// the boot parameters, whatever the hardware reports.
    pub open spec fn spec_lockdown_released(
        self,
        riscv_br_priv_lockdown: bool,
        fmc_boot_params_addr: u64,
    ) -> bool {
        &&& !self.spec_is_locked_down()
        &&& {
            ||| self.mbox0 != 0 && self.spec_combined_addr() != fmc_boot_params_addr
            ||| !riscv_br_priv_lockdown
        }
    }

    /// Returns true if the lockdown pattern is in the first mailbox.
    pub fn is_locked_down(&self) -> (r: bool)
        ensures
            r == self.spec_is_locked_down(),
    {
        let m = self.mbox0;
        assert((m & 0xffff_ff00) == 0xbadf_4100 <==> m / 0x100 == 0xbadf41) by (bit_vector);
        m != 0 && (m & GSP_LOCKDOWN_MASK) == GSP_LOCKDOWN_PATTERN
    }

    /// Combines the mailboxes into a 64-bit address.
    pub fn combined_addr(&self) -> (r: u64)
        ensures
            r == self.spec_combined_addr(),
    {
        let hi = self.mbox1 as u64;
        let lo = self.mbox0 as u64;
        assert((hi << 32u64) | lo == hi * 0x1_0000_0000 + lo) by (bit_vector)
            requires
                hi <= 0xffff_ffff,
                lo <= 0xffff_ffff,
        ;
        (hi << 32u64) | lo
    }

    /// What the mailboxes alone say of the release of the lockdown. `None` means that
    /// the hardware has to be asked.
    pub fn mailbox_verdict(&self, fmc_boot_params_addr: u64) -> (r: Option<bool>)
        ensures
            match r {
                Some(released) => forall|hw: bool| #[trigger]
                    self.spec_lockdown_released(hw, fmc_boot_params_addr) == released,
                None => forall|hw: bool| #[trigger]
                    self.spec_lockdown_released(hw, fmc_boot_params_addr) == !hw,
            },
    {
        if self.is_locked_down() {
            return Some(false);
        }
        if self.mbox0 != 0 && self.combined_addr() != fmc_boot_params_addr {
            return Some(true);
        }
        None
    }

    /// Returns true if the lockdown is released, given whether the hardware still
    /// reports it.
    pub fn lockdown_released(&self, riscv_br_priv_lockdown: bool, fmc_boot_params_addr: u64) -> (r:
        bool)
        ensures
            r == self.spec_lockdown_released(riscv_br_priv_lockdown, fmc_boot_params_addr),
    {
        match self.mailbox_verdict(fmc_boot_params_addr) {
            Some(released) => {
                assert(self.spec_lockdown_released(riscv_br_priv_lockdown, fmc_boot_params_addr)
                    == released);
                released
            },
            None => !riscv_br_priv_lockdown,
        }
    }

    /// What comes of a look at the mailboxes, `elapsed_us` after the first.
    pub open spec fn spec_lockdown_step(self, released: bool, elapsed_us: u64) -> Option<
        Result<(), Error>,
    > {
        if released {
            if self.mbox0 != 0 {
                Some(Err(Error::EIO))
            } else {
                Some(Ok(()))
            }
        } else if elapsed_us > LOCKDOWN_TIMEOUT_US {
            Some(Err(Error::ETIMEDOUT))
        } else {
            None
        }
    }

    /// One look at the mailboxes, `elapsed_us` after the first, while waiting for the
    /// release of the lockdown. `None` means to sleep and look again.
    ///
    /// Ends with `EIO` if the firmware left an error in the first mailbox, and with
    /// `ETIMEDOUT` if the lockdown was not released in time.
    pub fn lockdown_step(&self, released: bool, elapsed_us: u64) -> (r: Option<Result<(), Error>>)
        ensures
            r == self.spec_lockdown_step(released, elapsed_us),
    {
        let budget = PollBudget { timeout_us: LOCKDOWN_TIMEOUT_US };
        match budget.step(released, elapsed_us) {
            PollAction::Done => {
                if self.mbox0 != 0 {
                    Some(Err(Error::EIO))
                } else {
                    Some(Ok(()))
                }
            },
            PollAction::TimedOut => Some(Err(Error::ETIMEDOUT)),
            PollAction::Sleep => None,
        }
    }
}

/// The wait for the release of the lockdown succeeds on a look at the mailboxes just
/// when the first is empty and the hardware no longer reports the lockdown. It fails with
/// `EIO` just when the first holds something else than the lockdown pattern, and either
/// both do not hold the address of the boot parameters or the hardware no longer reports
/// the lockdown.
pub proof fn law_lockdown_wait(
    mbox: GspMbox,
    riscv_br_priv_lockdown: bool,
    fmc_boot_params_addr: u64,
    elapsed_us: u64,
)
    ensures
        ({
            let released = mbox.spec_lockdown_released(
                riscv_br_priv_lockdown,
                fmc_boot_params_addr,
            );
            let r = mbox.spec_lockdown_step(released, elapsed_us);
            &&& (r matches Some(Ok(_))) <==> mbox.mbox0 == 0 && !riscv_br_priv_lockdown
            &&& r == Some(Err::<(), Error>(Error::EIO)) <==> mbox.mbox0 != 0
                && !mbox.spec_is_locked_down() && (mbox.spec_combined_addr() != fmc_boot_params_addr
                || !riscv_br_priv_lockdown)
        }),
{
}

/// A look at the mailboxes and at what the hardware reports of the lockdown.
#[derive(Clone, Copy, Debug, PartialEq, Eq, Structural)]
pub struct LockdownLook {
    pub mbox: GspMbox,
    pub riscv_br_priv_lockdown: bool,
    pub elapsed_us: u64,
}

impl LockdownLook {
    /// What comes of the look.
    pub open spec fn step(self, fmc_boot_params_addr: u64) -> Option<Result<(), Error>> {
        self.mbox.spec_lockdown_step(
            self.mbox.spec_lockdown_released(self.riscv_br_priv_lockdown, fmc_boot_params_addr),
            self.elapsed_us,
        )
    }

    /// What the look found: a release of the lockdown, with an error in the first mailbox
    /// or without one.
    pub open spec fn found(self, fmc_boot_params_addr: u64) -> Option<Result<(), Error>> {
        if !self.mbox.spec_lockdown_released(self.riscv_br_priv_lockdown, fmc_boot_params_addr) {
            None
        } else if self.mbox.mbox0 != 0 {
            Some(Err(Error::EIO))
        } else {
            Some(Ok(()))
        }
    }
}

/// What a wait for the release of the lockdown gives, of these looks.
pub open spec fn lockdown_wait(looks: Seq<LockdownLook>, fmc_boot_params_addr: u64) -> Option<
    Result<(), Error>,
> {
    first_decision(Seq::new(looks.len(), |i: int| looks[i].step(fmc_boot_params_addr)))
}

/// Waiting for the release of the lockdown, look by look, ends with what the first look
/// found that saw a release, if none before it came too late, and with `ETIMEDOUT` only if
/// none saw one.
pub proof fn law_lockdown_wait_over_looks(looks: Seq<LockdownLook>, fmc_boot_params_addr: u64)
    ensures
        wait_gives(
            Seq::new(looks.len(), |i: int| looks[i].found(fmc_boot_params_addr)),
            Seq::new(looks.len(), |i: int| looks[i].elapsed_us),
            LOCKDOWN_TIMEOUT_US,
            Err(Error::ETIMEDOUT),
            lockdown_wait(looks, fmc_boot_params_addr),
        ),
{
    law_wait(
        Seq::new(looks.len(), |i: int| looks[i].step(fmc_boot_params_addr)),
        Seq::new(looks.len(), |i: int| looks[i].found(fmc_boot_params_addr)),
        Seq::new(looks.len(), |i: int| looks[i].elapsed_us),
        LOCKDOWN_TIMEOUT_US,
        Err(Error::ETIMEDOUT),
    );
}

/// The steps of booting the GSP, in order.
#[derive(Clone, Copy, Debug, PartialEq, Eq, Structural)]
pub enum BootStep {
    /// Get hold of the FSP.
    OpenFsp,
    /// Load the firmware that the FSP is to run.
    LoadFirmware,
    /// Wait for the FSP's own secure boot.
    WaitSecureBoot,
    /// Put the boot arguments together.
    BuildArgs,
    /// Have the FSP boot the firmware.
    BootFmc,
    /// Wait for the GSP's lockdown to be released.
    WaitLockdownRelease,
}

impl BootStep {
    /// The step to take after this one, given how it went. What comes after the last
    /// one is not supported yet.
    pub open spec fn spec_next(self, outcome: Result<(), Error>) -> Result<BootStep, Error> {
        match outcome {
            Err(e) => Err(e),
            Ok(_) => match self {
                BootStep::OpenFsp => Ok(BootStep::LoadFirmware),
                BootStep::LoadFirmware => Ok(BootStep::WaitSecureBoot),
                BootStep::WaitSecureBoot => Ok(BootStep::BuildArgs),
                BootStep::BuildArgs => Ok(BootStep::BootFmc),
                BootStep::BootFmc => Ok(BootStep::WaitLockdownRelease),
                BootStep::WaitLockdownRelease => Err(Error::ENOTSUPP),
            },
        }
    }

    /// Decides what to do after this step, given how it went.
    pub fn next(self, outcome: Result<(), Error>) -> (r: Result<BootStep, Error>)
        ensures
            r == self.spec_next(outcome),
    {
        match outcome {
            Ok(_) => {},
            Err(e) => {
                return Err(e);
            },
        }
        match self {
            BootStep::OpenFsp => Ok(BootStep::LoadFirmware),
            BootStep::LoadFirmware => Ok(BootStep::WaitSecureBoot),
            BootStep::WaitSecureBoot => Ok(BootStep::BuildArgs),
            BootStep::BuildArgs => Ok(BootStep::BootFmc),
            BootStep::BootFmc => Ok(BootStep::WaitLockdownRelease),
            BootStep::WaitLockdownRelease => Err(Error::ENOTSUPP),
        }
    }
}

/// The error that ends a boot which is at `step`, if the steps from there on go as in
/// `outcomes`. `None` means that there are more steps to take.
pub open spec fn boot_error(step: BootStep, outcomes: Seq<Result<(), Error>>) -> Option<Error>
    decreases outcomes.len(),
{
    if outcomes.len() == 0 {
        None
    } else {
        match step.spec_next(outcomes[0]) {
            Ok(next) => boot_error(next, outcomes.skip(1)),
            Err(e) => Some(e),
        }
    }
}

/// A boot takes six steps at most and ends with the error of the first that fails, or,
/// if none does, with `ENOTSUPP`.
pub proof fn law_boot_ends_with_first_error(outcomes: Seq<Result<(), Error>>)
    requires
        outcomes.len() == 6,
    ensures
        forall|i: int|
            0 <= i < 6 && #[trigger] outcomes[i] is Err && (forall|j: int|
                0 <= j < i ==> #[trigger] outcomes[j] is Ok) ==> boot_error(
                BootStep::OpenFsp,
                outcomes,
            ) == Some(outcomes[i]->Err_0),
        (forall|i: int| 0 <= i < 6 ==> #[trigger] outcomes[i] is Ok) ==> boot_error(
            BootStep::OpenFsp,
            outcomes,
        ) == Some(Error::ENOTSUPP),
{
    reveal_with_fuel(boot_error, 7);
    let s1 = outcomes.skip(1);
    let s2 = s1.skip(1);
    let s3 = s2.skip(1);
    let s4 = s3.skip(1);
    let s5 = s4.skip(1);
    assert(s1[0] == outcomes[1] && s2[0] == outcomes[2] && s3[0] == outcomes[3]);
    assert(s4[0] == outcomes[4] && s5[0] == outcomes[5]);
}

/// The lockdown pattern is any word that differs from `0xbadf4100` in its low byte at most.
pub proof fn law_lockdown_pattern(mbox: GspMbox)
    ensures
        mbox.spec_is_locked_down() <==> 0xbadf_4100 <= mbox.mbox0 <= 0xbadf_41ff,
{
}

/// The first mailbox is the lower half of the address, and the second the upper.
pub proof fn law_combined_addr(mbox: GspMbox)
    ensures
        mbox.spec_combined_addr() % 0x1_0000_0000 == mbox.mbox0,
        mbox.spec_combined_addr() / 0x1_0000_0000 == mbox.mbox1,
{
}

/// While the pattern is there, the lockdown is not released, whatever else is so. If it is
/// not, and the mailboxes are empty or hold the address of the boot parameters, what the
/// hardware reports decides; if they hold anything else, it is released.
pub proof fn law_lockdown_release(mbox: GspMbox, hw: bool, addr: u64)
    ensures
        0xbadf_4100 <= mbox.mbox0 <= 0xbadf_41ff ==> !mbox.spec_lockdown_released(hw, addr),
        mbox.mbox0 == 0 ==> mbox.spec_lockdown_released(hw, addr) == !hw,
        !(0xbadf_4100 <= mbox.mbox0 <= 0xbadf_41ff) && addr % 0x1_0000_0000 == mbox.mbox0 && addr
            / 0x1_0000_0000 == mbox.mbox1 ==> mbox.spec_lockdown_released(hw, addr) == !hw,
        mbox.mbox0 != 0 && !(0xbadf_4100 <= mbox.mbox0 <= 0xbadf_41ff) && !(addr % 0x1_0000_0000
            == mbox.mbox0 && addr / 0x1_0000_0000 == mbox.mbox1) ==> mbox.spec_lockdown_released(
            hw,
            addr,
        ),
{
    law_combined_addr(mbox);
    law_lockdown_pattern(mbox);
}

/// A release counts at any time, as a failure if there is something in the first mailbox.
/// Without one, the look is repeated up to the very end of thirty seconds, and given up
/// after.
pub proof fn law_lockdown_look(mbox: GspMbox, elapsed_us: u64)
    ensures
        mbox.mbox0 == 0 ==> (mbox.spec_lockdown_step(true, elapsed_us) matches Some(Ok(_))),
        mbox.mbox0 != 0 ==> mbox.spec_lockdown_step(true, elapsed_us) == Some(
            Err::<(), Error>(Error::EIO),
        ),
        elapsed_us <= 30_000_000 ==> mbox.spec_lockdown_step(false, elapsed_us) is None,
        elapsed_us > 30_000_000 ==> mbox.spec_lockdown_step(false, elapsed_us) == Some(
            Err::<(), Error>(Error::ETIMEDOUT),
        ),
{
}

/// A boot takes its steps in this order: nothing is asked of the FSP before its firmware is
/// loaded and its own boot is complete, and the lockdown is waited for last.
pub proof fn law_boot_order()
    ensures
        BootStep::OpenFsp.spec_next(Ok(())) == Ok::<BootStep, Error>(BootStep::LoadFirmware),
        BootStep::LoadFirmware.spec_next(Ok(())) == Ok::<BootStep, Error>(
            BootStep::WaitSecureBoot,
        ),
        BootStep::WaitSecureBoot.spec_next(Ok(())) == Ok::<BootStep, Error>(BootStep::BuildArgs),
        BootStep::BuildArgs.spec_next(Ok(())) == Ok::<BootStep, Error>(BootStep::BootFmc),
        BootStep::BootFmc.spec_next(Ok(())) == Ok::<BootStep, Error>(
            BootStep::WaitLockdownRelease,
        ),
        BootStep::WaitLockdownRelease.spec_next(Ok(())) == Err::<BootStep, Error>(
            Error::ENOTSUPP,
        ),
{
}

/// A step that fails ends the boot with its error, whichever it is.
pub proof fn law_failed_step_ends_boot(step: BootStep, error: Error)
    ensures
        step.spec_next(Err(error)) == Err::<BootStep, Error>(error),
{
}

/// The mailboxes are looked at every ten milliseconds, for half a minute.
pub proof fn law_looks_at_mailboxes()
    ensures
        LOCKDOWN_SLEEP_US * 100 == 1_000_000,
        LOCKDOWN_TIMEOUT_US == 3000 * LOCKDOWN_SLEEP_US,
{
}

} // verus!
