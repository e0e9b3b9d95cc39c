//! The chain driver: frames register writes for a daisy chain of chips and
//! hands each frame to the SPI device as one transaction.

use embedded_hal::spi::SpiDevice;
use vstd::prelude::*;
use vstd::slice::slice_subrange;

use crate::bus::{Bus, Transfer};
use crate::error::Error;
use crate::registers::{digit_register, DecodeMode, Register};
use crate::{MAX_DISPLAYS, NUM_DIGITS};

verus! {

/// Capacity of the transmit buffer: one two-byte packet per chip of the longest chain.
pub const BUFFER_LEN: usize = MAX_DISPLAYS * 2;

/// The frame for a chain of `len` chips that gives chip `index` the packet
/// `(addr, value)` and every other chip the all-zero no-op packet.
pub open spec fn single_frame(len: nat, index: nat, addr: u8, value: u8) -> Seq<u8> {
    Seq::new(
        2 * len,
        |k: int|
            if k == 2 * index {
                addr
            } else if k == 2 * index + 1 {
                value
            } else {
                0u8
            },
    )
}

/// The frame that gives the chip at position `j` the packet `ops[j]`.
pub open spec fn chain_frame(ops: Seq<(Register, u8)>) -> Seq<u8> {
    Seq::new(
        2 * ops.len(),
        |k: int|
            if k % 2 == 0 {
                ops[k / 2].0.spec_addr()
            } else {
                ops[k / 2].1
            },
    )
}

/// The same packet for each of `len` chips.
pub open spec fn uniform_ops(len: nat, register: Register, value: u8) -> Seq<(Register, u8)> {
    Seq::new(len, |_j: int| (register, value))
}

/// The frame that writes `value` to `register` on every chip of a chain of `len`.
pub open spec fn broadcast_frame(len: nat, register: Register, value: u8) -> Seq<u8> {
    chain_frame(uniform_ops(len, register, value))
}

/// The byte that switches a one-bit setting on or off.
pub open spec fn flag_byte(enable: bool) -> u8 {
    if enable {
        1u8
    } else {
        0u8
    }
}

/// The eight frames that clear the digits of chip `index`, digit 0 first.
pub open spec fn clear_frames(len: nat, index: nat) -> Seq<Seq<u8>> {
    Seq::new(8, |d: int| single_frame(len, index, digit_register(d).spec_addr(), 0u8))
}

/// The eight frames that clear the digits of every chip, digit 0 first.
pub open spec fn clear_all_frames(len: nat) -> Seq<Seq<u8>> {
    Seq::new(8, |d: int| broadcast_frame(len, digit_register(d), 0u8))
}

/// The frames of a full initialization: power on, display test off, all
/// digits scanned, no decoding, then every digit cleared.
pub open spec fn init_frames(len: nat) -> Seq<Seq<u8>> {
    seq![
        broadcast_frame(len, Register::Shutdown, 1u8),
        broadcast_frame(len, Register::DisplayTest, 0u8),
        broadcast_frame(len, Register::ScanLimit, 7u8),
        broadcast_frame(len, Register::DecodeMode, DecodeMode::NoDecode.spec_value()),
    ] + clear_all_frames(len)
}

/// The bytes of each transfer of a log.
pub open spec fn frames_of(log: Seq<Transfer>) -> Seq<Seq<u8>> {
    log.map_values(|t: Transfer| t.0)
}

/// The log `after` is `before` followed by `k` transfers that carried the
/// first `k` of `frames`, in order, each of which succeeded.
pub open spec fn ok_prefix(before: Seq<Transfer>, after: Seq<Transfer>, frames: Seq<Seq<u8>>, k: int) -> bool {
    &&& 0 <= k <= frames.len()
    &&& after.len() == before.len() + k
    &&& after.subrange(0, before.len() as int) == before
    &&& forall|j: int|
        before.len() <= j < after.len() ==> (#[trigger] after[j]).0 == frames[j - before.len()]
            && after[j].1 is Ok
}

/// The log went from `before` to `after` by writing `frames` in order and
/// stopping right after the first write that failed; `r` is the outcome of
/// the last write made. So `r` is `Ok` exactly when every write was made and
/// succeeded, and otherwise it is the error of the one failed write.
pub open spec fn run_of(
    before: Seq<Transfer>,
    after: Seq<Transfer>,
    frames: Seq<Seq<u8>>,
    r: Result<(), Error>,
) -> bool {
    &&& before.len() < after.len() <= before.len() + frames.len()
    &&& ok_prefix(before, after.drop_last(), frames, after.len() - before.len() - 1)
    &&& after.last().0 == frames[after.len() - before.len() - 1]
    &&& r == after.last().1
    &&& r is Ok ==> after.len() == before.len() + frames.len()
}

/// One more write of a run: a success extends the successful prefix; a
/// failure, or the success of the last write, ends the run.
proof fn lemma_run_step(
    before: Seq<Transfer>,
    cur: Seq<Transfer>,
    frames: Seq<Seq<u8>>,
    k: int,
    res: Result<(), Error>,
)
    requires
        ok_prefix(before, cur, frames, k),
        k < frames.len(),
    ensures
        res is Ok ==> ok_prefix(before, cur.push((frames[k], res)), frames, k + 1),
        (res is Err || k + 1 == frames.len()) ==> run_of(before, cur.push((frames[k], res)), frames, res),
{
    let next = cur.push((frames[k], res));
    assert(next.drop_last() =~= cur);
    assert(next.subrange(0, before.len() as int) =~= cur.subrange(0, before.len() as int));
    if res is Ok {
        assert forall|j: int| before.len() <= j < next.len() implies (#[trigger] next[j]).0
            == frames[j - before.len()] && next[j].1 is Ok by {
            if j < cur.len() {
                assert(next[j] == cur[j]);
            }
        }
    }
}

/// A successful prefix of `k` writes followed by a run of the rest of
/// `frames` is a run of all of `frames`.
proof fn lemma_run_concat(
    before: Seq<Transfer>,
    mid: Seq<Transfer>,
    after: Seq<Transfer>,
    frames: Seq<Seq<u8>>,
    k: int,
    r: Result<(), Error>,
)
    requires
        ok_prefix(before, mid, frames, k),
        k < frames.len(),
        run_of(mid, after, frames.subrange(k, frames.len() as int), r),
    ensures
        run_of(before, after, frames, r),
{
    let a = after.drop_last();
    let m = after.len() - mid.len() - 1;
    assert(a.subrange(0, mid.len() as int) == mid);
    assert(a.subrange(0, before.len() as int) =~= mid.subrange(0, before.len() as int));
    assert forall|j: int| before.len() <= j < a.len() implies (#[trigger] a[j]).0 == frames[j
        - before.len()] && a[j].1 is Ok by {
        if j < mid.len() {
            assert(a[j] == a.subrange(0, mid.len() as int)[j]);
        } else {
            assert(a[j].0 == frames.subrange(k, frames.len() as int)[j - mid.len()]);
        }
    }
    assert(after.last().0 == frames.subrange(k, frames.len() as int)[m]);
}

/// Driver for a chain of MAX7219 chips behind one SPI device.
///
/// Position 0 of the chain is the chip furthest from the controller: its
/// packet is the first two bytes of every frame.
pub struct Max7219<SPI> {
    spi: Bus<SPI>,
    buffer: [u8; BUFFER_LEN],
    device_count: usize,
}

impl<SPI> Max7219<SPI> {
    /// The number of chips in the chain.
    pub closed spec fn chain_len(&self) -> nat {
        self.device_count as nat
    }

    /// Every transfer made on the SPI device so far, oldest first: the
    /// frame handed to the device and what the device reported.
    pub closed spec fn transfers(&self) -> Seq<Transfer> {
        self.spi.log()
    }

    /// The chain length is in `1..=MAX_DISPLAYS`.
    pub closed spec fn wf(&self) -> bool {
        1 <= self.device_count <= MAX_DISPLAYS
    }

    /// `after` is `before` after one write of `(register, value)` to chip
    /// `index`, which returned `r`: an index past the chain is refused with
    /// nothing sent; otherwise exactly one frame goes out and `r` is what the
    /// device reported for it.
    pub open spec fn addressed_write(
        before: Self,
        after: Self,
        index: nat,
        register: Register,
        value: u8,
        r: Result<(), Error>,
    ) -> bool {
        &&& after.wf()
        &&& after.chain_len() == before.chain_len()
        &&& index >= before.chain_len() ==> r == Err::<(), Error>(Error::InvalidDeviceIndex)
            && after == before
        &&& index < before.chain_len() ==> after.transfers() == before.transfers().push(
            (single_frame(before.chain_len(), index, register.spec_addr(), value), r),
        ) && (r matches Err(e) ==> e is SpiError)
    }

    /// `after` is `before` after one write of `(register, value)` to every
    /// chip, which returned `r`: exactly one frame goes out and `r` is what
    /// the device reported for it.
    pub open spec fn broadcast_write(
        before: Self,
        after: Self,
        register: Register,
        value: u8,
        r: Result<(), Error>,
    ) -> bool {
        &&& after.wf()
        &&& after.chain_len() == before.chain_len()
        &&& after.transfers() == before.transfers().push(
            (broadcast_frame(before.chain_len(), register, value), r),
        )
        &&& r matches Err(e) ==> e is SpiError
    }
}

impl<SPI: SpiDevice> Max7219<SPI> {
    /// Takes ownership of the SPI device; the chain holds one chip.
    ///
    /// The device must use SPI mode 0 at 10 MHz or less.
    pub fn new(spi: SPI) -> (r: Self)
        ensures
            r.wf(),
            r.chain_len() == 1,
            r.transfers() == Seq::<Transfer>::empty(),
    {
        Self { spi: Bus::new(spi), device_count: 1, buffer: [0u8; BUFFER_LEN] }
    }

    /// The number of chips in the chain.
    pub fn device_count(&self) -> (r: usize)
        ensures
            r == self.chain_len(),
            self.wf() ==> 1 <= r <= MAX_DISPLAYS,
    {
        self.device_count
    }

    /// Sends the first `2 * device_count` bytes of the buffer as one transaction.
    fn transmit(&mut self) -> (r: Result<(), Error>)
        requires
            old(self).wf(),
        ensures
            final(self).device_count == old(self).device_count,
            final(self).buffer == old(self).buffer,
            final(self).spi.log() == old(self).spi.log().push(
                (old(self).buffer@.subrange(0, 2 * old(self).device_count), r),
            ),
            r matches Err(e) ==> e is SpiError,
    {
        let len = self.device_count * 2;
        let frame = slice_subrange(self.buffer.as_slice(), 0, len);
        self.spi.write(frame)
    }

    /// Writes `data` to `register` of the chip at `device_index` and a no-op
    /// to every other chip, in one transaction.
    pub fn write_device_register(
        &mut self,
        device_index: usize,
        register: Register,
        data: u8,
    ) -> (r: Result<(), Error>)
        requires
            old(self).wf(),
        ensures
            Self::addressed_write(*old(self), *final(self), device_index as nat, register, data, r),
    {
        if device_index >= self.device_count {
            return Err(Error::InvalidDeviceIndex);
        }
        self.buffer = [0u8; BUFFER_LEN];
        let offset = device_index * 2;
        self.buffer[offset] = register.addr();
        self.buffer[offset + 1] = data;
        assert(self.buffer@.subrange(0, 2 * self.device_count) =~= single_frame(
            self.device_count as nat,
            device_index as nat,
            register.spec_addr(),
            data,
        ));
        self.transmit()
    }

    /// Writes `ops[j]` to the chip at position `j`, for every chip, in one
    /// transaction. `ops` holds exactly one packet per chip of the chain: a
    /// list of another length is a caller error, excluded by `requires`.
    pub fn write_all_registers(&mut self, ops: &[(Register, u8)]) -> (r: Result<(), Error>)
        requires
            old(self).wf(),
            ops@.len() == old(self).chain_len(),
        ensures
            final(self).wf(),
            final(self).chain_len() == old(self).chain_len(),
            final(self).transfers() == old(self).transfers().push((chain_frame(ops@), r)),
            r matches Err(e) ==> e is SpiError,
    {
        self.buffer = [0u8; BUFFER_LEN];
        let n = ops.len();
        let mut i: usize = 0;
        while i < n
            invariant
                n == ops@.len(),
                n == self.device_count,
                1 <= n <= MAX_DISPLAYS,
                0 <= i <= n,
                self.spi == old(self).spi,
                forall|k: int| 0 <= k < 2 * i ==> #[trigger] self.buffer@[k] == chain_frame(ops@)[k],
            decreases n - i,
        {
            let (reg, data) = ops[i];
            let offset = i * 2;
            self.buffer[offset] = reg.addr();
            self.buffer[offset + 1] = data;
            i += 1;
        }
        assert(self.buffer@.subrange(0, 2 * self.device_count) =~= chain_frame(ops@));
        self.transmit()
    }
    /// Sets the number of chips in the chain; `InvalidDeviceCount` unless it
    /// is in `1..=MAX_DISPLAYS`. The driver is consumed either way: on success
    /// the reconfigured one is handed back.
    pub fn with_device_count(self, count: usize) -> (r: Result<Self, Error>)
        requires
            self.wf(),
        ensures
            match r {
                Ok(d) => 1 <= count <= MAX_DISPLAYS && d.wf() && d.chain_len() == count
                    && d.transfers() == self.transfers(),
                Err(e) => !(1 <= count <= MAX_DISPLAYS) && e == Error::InvalidDeviceCount,
            },
    {
        if count == 0 || count > MAX_DISPLAYS {
            return Err(Error::InvalidDeviceCount);
        }
        let mut d = self;
        d.device_count = count;
        Ok(d)
    }

    /// Writes `(register, data)` to every chip in one transaction.
    fn write_uniform(&mut self, register: Register, data: u8) -> (r: Result<(), Error>)
        requires
            old(self).wf(),
        ensures
            Self::broadcast_write(*old(self), *final(self), register, data, r),
    {
        let ops = [(register, data); MAX_DISPLAYS];
        let n = self.device_count;
        let chain = slice_subrange(ops.as_slice(), 0, n);
        assert(chain@ =~= uniform_ops(n as nat, register, data));
        self.write_all_registers(chain)
    }

    /// Powers on every chip: `Shutdown <- 1`.
    pub fn power_on(&mut self) -> (r: Result<(), Error>)
        requires
            old(self).wf(),
        ensures
            Self::broadcast_write(*old(self), *final(self), Register::Shutdown, 1u8, r),
    {
        self.write_uniform(Register::Shutdown, 0x01)
    }

    /// Powers off every chip: `Shutdown <- 0`.
    pub fn power_off(&mut self) -> (r: Result<(), Error>)
        requires
            old(self).wf(),
        ensures
            Self::broadcast_write(*old(self), *final(self), Register::Shutdown, 0u8, r),
    {
        self.write_uniform(Register::Shutdown, 0x00)
    }

    /// Powers on the chip at `device_index`.
    pub fn power_on_device(&mut self, device_index: usize) -> (r: Result<(), Error>)
        requires
            old(self).wf(),
        ensures
            Self::addressed_write(
                *old(self),
                *final(self),
                device_index as nat,
                Register::Shutdown,
                1u8,
                r,
            ),
    {
        self.write_device_register(device_index, Register::Shutdown, 0x01)
    }

    /// Powers off the chip at `device_index`.
    pub fn power_off_device(&mut self, device_index: usize) -> (r: Result<(), Error>)
        requires
            old(self).wf(),
        ensures
            Self::addressed_write(
                *old(self),
                *final(self),
                device_index as nat,
                Register::Shutdown,
                0u8,
                r,
            ),
    {
        self.write_device_register(device_index, Register::Shutdown, 0x00)
    }

    /// Switches display test mode (every LED lit) on or off on one chip.
    pub fn test_device(&mut self, device_index: usize, enable: bool) -> (r: Result<(), Error>)
        requires
            old(self).wf(),
        ensures
            Self::addressed_write(
                *old(self),
                *final(self),
                device_index as nat,
                Register::DisplayTest,
                flag_byte(enable),
                r,
            ),
    {
        let data: u8 = if enable {
            0x01
        } else {
            0x00
        };
        self.write_device_register(device_index, Register::DisplayTest, data)
    }

    /// Switches display test mode on or off on every chip in one transaction.
    pub fn test_all(&mut self, enable: bool) -> (r: Result<(), Error>)
        requires
            old(self).wf(),
        ensures
            Self::broadcast_write(*old(self), *final(self), Register::DisplayTest, flag_byte(enable), r),
    {
        let data: u8 = if enable {
            0x01
        } else {
            0x00
        };
        self.write_uniform(Register::DisplayTest, data)
    }

    /// Sets how many digits (1 to 8) one chip scans; the chip is sent
    /// `limit - 1`. `InvalidScanLimit` outside `1..=8`, with nothing sent.
    pub fn set_device_scan_limit(&mut self, device_index: usize, limit: u8) -> (r: Result<(), Error>)
        requires
            old(self).wf(),
        ensures
            !(1 <= limit <= 8) ==> r == Err::<(), Error>(Error::InvalidScanLimit) && *final(self)
                == *old(self),
            1 <= limit <= 8 ==> Self::addressed_write(
                *old(self),
                *final(self),
                device_index as nat,
                Register::ScanLimit,
                (limit - 1) as u8,
                r,
            ),
    {
        if limit < 1 || limit > 8 {
            return Err(Error::InvalidScanLimit);
        }
        self.write_device_register(device_index, Register::ScanLimit, limit - 1)
    }

    /// Sets how many digits (1 to 8) every chip scans, in one transaction.
    /// `InvalidScanLimit` outside `1..=8`, with nothing sent.
    pub fn set_scan_limit_all(&mut self, limit: u8) -> (r: Result<(), Error>)
        requires
            old(self).wf(),
        ensures
            !(1 <= limit <= 8) ==> r == Err::<(), Error>(Error::InvalidScanLimit) && *final(self)
                == *old(self),
            1 <= limit <= 8 ==> Self::broadcast_write(
                *old(self),
                *final(self),
                Register::ScanLimit,
                (limit - 1) as u8,
                r,
            ),
    {
        if limit < 1 || limit > 8 {
            return Err(Error::InvalidScanLimit);
        }
        let val = limit - 1;
        self.write_uniform(Register::ScanLimit, val)
    }

    /// Selects which digits of one chip are decoded as Code B characters.
    pub fn set_device_decode_mode(
        &mut self,
        device_index: usize,
        mode: DecodeMode,
    ) -> (r: Result<(), Error>)
        requires
            old(self).wf(),
        ensures
            Self::addressed_write(
                *old(self),
                *final(self),
                device_index as nat,
                Register::DecodeMode,
                mode.spec_value(),
                r,
            ),
    {
        self.write_device_register(device_index, Register::DecodeMode, mode.value())
    }

    /// Selects the decode mode of every chip in one transaction.
    pub fn set_decode_mode_all(&mut self, mode: DecodeMode) -> (r: Result<(), Error>)
        requires
            old(self).wf(),
        ensures
            Self::broadcast_write(*old(self), *final(self), Register::DecodeMode, mode.spec_value(), r),
    {
        let byte = mode.value();
        self.write_uniform(Register::DecodeMode, byte)
    }

    /// Writes the raw segment (or row) byte `value` to digit `digit` of one
    /// chip. `InvalidDigit` above 7, with nothing sent.
    pub fn write_raw_digit(
        &mut self,
        device_index: usize,
        digit: u8,
        value: u8,
    ) -> (r: Result<(), Error>)
        requires
            old(self).wf(),
        ensures
            digit >= 8 ==> r == Err::<(), Error>(Error::InvalidDigit) && *final(self) == *old(self),
            digit < 8 ==> Self::addressed_write(
                *old(self),
                *final(self),
                device_index as nat,
                digit_register(digit as int),
                value,
                r,
            ),
    {
        let digit_register = match Register::try_digit(digit) {
            Ok(reg) => reg,
            Err(e) => return Err(e),
        };
        self.write_device_register(device_index, digit_register, value)
    }

    /// Sets the brightness (0 to 15) of one chip. `InvalidIntensity` above
    /// 15, with nothing sent.
    pub fn set_intensity(&mut self, device_index: usize, intensity: u8) -> (r: Result<(), Error>)
        requires
            old(self).wf(),
        ensures
            intensity > 0x0F ==> r == Err::<(), Error>(Error::InvalidIntensity) && *final(self)
                == *old(self),
            intensity <= 0x0F ==> Self::addressed_write(
                *old(self),
                *final(self),
                device_index as nat,
                Register::Intensity,
                intensity,
                r,
            ),
    {
        if intensity > 0x0F {
            return Err(Error::InvalidIntensity);
        }
        self.write_device_register(device_index, Register::Intensity, intensity)
    }

    /// Sets the brightness (0 to 15) of every chip in one transaction.
    /// `InvalidIntensity` above 15, with nothing sent.
    pub fn set_intensity_all(&mut self, intensity: u8) -> (r: Result<(), Error>)
        requires
            old(self).wf(),
        ensures
            intensity > 0x0F ==> r == Err::<(), Error>(Error::InvalidIntensity) && *final(self)
                == *old(self),
            intensity <= 0x0F ==> Self::broadcast_write(
                *old(self),
                *final(self),
                Register::Intensity,
                intensity,
                r,
            ),
    {
        if intensity > 0x0F {
            return Err(Error::InvalidIntensity);
        }
        self.write_uniform(Register::Intensity, intensity)
    }

    /// Clears one chip: writes 0 to each of its eight digit registers, one
    /// transaction per digit, stopping right after the first failed write.
    pub fn clear_display(&mut self, device_index: usize) -> (r: Result<(), Error>)
        requires
            old(self).wf(),
        ensures
            final(self).wf(),
            final(self).chain_len() == old(self).chain_len(),
            device_index >= old(self).chain_len() ==> r == Err::<(), Error>(
                Error::InvalidDeviceIndex,
            ) && *final(self) == *old(self),
            device_index < old(self).chain_len() ==> run_of(
                old(self).transfers(),
                final(self).transfers(),
                clear_frames(old(self).chain_len(), device_index as nat),
                r,
            ) && (r matches Err(e) ==> e is SpiError),
    {
        if device_index >= self.device_count {
            return Err(Error::InvalidDeviceIndex);
        }
        let ghost t0 = self.transfers();
        let ghost frames = clear_frames(self.device_count as nat, device_index as nat);
        let digits = Register::digits();
        let mut k: usize = 0;
        assert(t0.subrange(0, t0.len() as int) =~= t0);
        while k < 8
            invariant
                self.wf(),
                self.chain_len() == old(self).chain_len(),
                device_index < self.chain_len(),
                frames == clear_frames(self.chain_len(), device_index as nat),
                0 <= k < 8,
                t0 == old(self).transfers(),
                ok_prefix(t0, self.transfers(), frames, k as int),
                forall|j: int| 0 <= j < 8 ==> #[trigger] digits@[j] == digit_register(j),
            decreases 8 - k,
        {
            let ghost cur = self.transfers();
            let res = self.write_device_register(device_index, digits[k], 0x00);
            proof {
                assert(self.transfers() == cur.push((frames[k as int], res)));
                lemma_run_step(t0, cur, frames, k as int, res);
            }
            if res.is_err() || k == 7 {
                return res;
            }
            k += 1;
        }
        Ok(())
    }

    /// Clears every chip: for each of the eight digit registers in turn, one
    /// transaction that writes 0 to it on every chip, stopping right after
    /// the first failed write.
    pub fn clear_all(&mut self) -> (r: Result<(), Error>)
        requires
            old(self).wf(),
        ensures
            final(self).wf(),
            final(self).chain_len() == old(self).chain_len(),
            run_of(
                old(self).transfers(),
                final(self).transfers(),
                clear_all_frames(old(self).chain_len()),
                r,
            ),
            r matches Err(e) ==> e is SpiError,
    {
        let ghost t0 = self.transfers();
        let ghost frames = clear_all_frames(self.device_count as nat);
        let digits = Register::digits();
        let mut k: usize = 0;
        assert(t0.subrange(0, t0.len() as int) =~= t0);
        while k < 8
            invariant
                self.wf(),
                self.chain_len() == old(self).chain_len(),
                frames == clear_all_frames(self.chain_len()),
                0 <= k < 8,
                t0 == old(self).transfers(),
                ok_prefix(t0, self.transfers(), frames, k as int),
                forall|j: int| 0 <= j < 8 ==> #[trigger] digits@[j] == digit_register(j),
            decreases 8 - k,
        {
            let ghost cur = self.transfers();
            let res = self.write_uniform(digits[k], 0x00);
            proof {
                assert(self.transfers() == cur.push((frames[k as int], res)));
                lemma_run_step(t0, cur, frames, k as int, res);
            }
            if res.is_err() || k == 7 {
                return res;
            }
            k += 1;
        }
        Ok(())
    }

    /// Brings every chip to a known state: powered on, display test off, all
    /// eight digits scanned, no decoding, every digit cleared. Stops right
    /// after the first failed write.
    pub fn init(&mut self) -> (r: Result<(), Error>)
        requires
            old(self).wf(),
        ensures
            final(self).wf(),
            final(self).chain_len() == old(self).chain_len(),
            run_of(
                old(self).transfers(),
                final(self).transfers(),
                init_frames(old(self).chain_len()),
                r,
            ),
            r matches Err(e) ==> e is SpiError,
    {
        let ghost t0 = self.transfers();
        let ghost frames = init_frames(self.chain_len());
        assert(t0.subrange(0, t0.len() as int) =~= t0);
        let ghost cur = self.transfers();
        let res = self.power_on();
        proof {
            lemma_run_step(t0, cur, frames, 0, res);
        }
        if res.is_err() {
            return res;
        }
        let ghost cur = self.transfers();
        let res = self.test_all(false);
        proof {
            lemma_run_step(t0, cur, frames, 1, res);
        }
        if res.is_err() {
            return res;
        }
        let ghost cur = self.transfers();
        let res = self.set_scan_limit_all(NUM_DIGITS);
        proof {
            lemma_run_step(t0, cur, frames, 2, res);
        }
        if res.is_err() {
            return res;
        }
        let ghost cur = self.transfers();
        let res = self.set_decode_mode_all(DecodeMode::NoDecode);
        proof {
            lemma_run_step(t0, cur, frames, 3, res);
        }
        if res.is_err() {
            return res;
        }
        let ghost mid = self.transfers();
        let res = self.clear_all();
        proof {
            assert(frames.subrange(4, 12) =~= clear_all_frames(self.chain_len()));
            lemma_run_concat(t0, mid, self.transfers(), frames, 4, res);
        }
        res
    }
}

/// A driver that satisfies its invariant holds between 1 and `MAX_DISPLAYS` chips.
pub proof fn lemma_chain_len_range<SPI>(d: Max7219<SPI>)
    requires
        d.wf(),
    ensures
        1 <= d.chain_len() <= MAX_DISPLAYS,
{
}

/// An addressed frame for a chain of `len` chips is `2 * len` bytes long; the
/// pair at `2 * index` is `(addr, value)` and every other pair is `(0, 0)`.
pub proof fn lemma_single_frame_layout(len: nat, index: nat, addr: u8, value: u8)
    requires
        index < len,
    ensures
        single_frame(len, index, addr, value).len() == 2 * len,
        single_frame(len, index, addr, value)[2 * index as int] == addr,
        single_frame(len, index, addr, value)[2 * index as int + 1] == value,
        forall|j: int|
            0 <= j < len && j != index ==> #[trigger] single_frame(len, index, addr, value)[2 * j]
                == 0 && single_frame(len, index, addr, value)[2 * j + 1] == 0,
{
}

/// Repeating a broadcast write with the same register and value sends the
/// same frame again.
pub proof fn lemma_broadcast_repeat<SPI>(
    first: Max7219<SPI>,
    second: Max7219<SPI>,
    third: Max7219<SPI>,
    register: Register,
    value: u8,
    r1: Result<(), Error>,
    r2: Result<(), Error>,
)
    requires
        Max7219::broadcast_write(first, second, register, value, r1),
        Max7219::broadcast_write(second, third, register, value, r2),
    ensures
        third.transfers().last().0 == second.transfers().last().0,
{
}

/// Clearing every chip twice, with both runs successful, sends the same
/// eight frames each time.
pub proof fn lemma_clear_all_repeat<SPI>(
    first: Max7219<SPI>,
    second: Max7219<SPI>,
    third: Max7219<SPI>,
)
    requires
        second.chain_len() == first.chain_len(),
        run_of(
            first.transfers(),
            second.transfers(),
            clear_all_frames(first.chain_len()),
            Ok(()),
        ),
        run_of(
            second.transfers(),
            third.transfers(),
            clear_all_frames(second.chain_len()),
            Ok(()),
        ),
    ensures
        frames_of(third.transfers().subrange(second.transfers().len() as int, third.transfers().len() as int))
            == clear_all_frames(first.chain_len()),
        frames_of(second.transfers().subrange(first.transfers().len() as int, second.transfers().len() as int))
            == clear_all_frames(first.chain_len()),
{
    lemma_run_frames(first.transfers(), second.transfers(), clear_all_frames(first.chain_len()));
    lemma_run_frames(second.transfers(), third.transfers(), clear_all_frames(first.chain_len()));
}

/// A successful run appends exactly its frames, each with a successful outcome.
pub proof fn lemma_run_frames(before: Seq<Transfer>, after: Seq<Transfer>, frames: Seq<Seq<u8>>)
    requires
        run_of(before, after, frames, Ok(())),
    ensures
        after.len() == before.len() + frames.len(),
        frames_of(after.subrange(before.len() as int, after.len() as int)) == frames,
        forall|j: int| before.len() <= j < after.len() ==> (#[trigger] after[j]).1 is Ok,
{
    let a = after.drop_last();
    assert forall|j: int| before.len() <= j < after.len() implies (#[trigger] after[j]).0
        == frames[j - before.len()] && after[j].1 is Ok by {
        if j < a.len() {
            assert(after[j] == a[j]);
            assert(a[j].1 is Ok);
        } else {
            assert(after[j] == after.last());
        }
    }
    assert(frames_of(after.subrange(before.len() as int, after.len() as int)) =~= frames);
}

/// Clearing one chip successfully makes eight transfers, all successful:
/// transfer `d` addresses digit `d` (wire address `d + 1`) of that chip with
/// the byte 0.
pub proof fn lemma_clear_display_frames(
    before: Seq<Transfer>,
    after: Seq<Transfer>,
    len: nat,
    index: nat,
)
    requires
        index < len,
        run_of(before, after, clear_frames(len, index), Ok(())),
    ensures
        after.len() == before.len() + 8,
        forall|d: int|
            0 <= d < 8 ==> (#[trigger] after[before.len() + d]).0 == single_frame(
                len,
                index,
                (d + 1) as u8,
                0u8,
            ) && after[before.len() + d].1 is Ok,
{
    lemma_run_frames(before, after, clear_frames(len, index));
    assert forall|d: int| 0 <= d < 8 implies (#[trigger] after[before.len() + d]).0 == single_frame(
        len,
        index,
        (d + 1) as u8,
        0u8,
    ) && after[before.len() + d].1 is Ok by {
        crate::registers::lemma_digit_addresses(d, d);
        assert(after[before.len() + d].0 == clear_frames(len, index)[d]);
    }
}

} // verus!
