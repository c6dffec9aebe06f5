//! virtio over MMIO: the transport's register values, the split
//! virtqueue's rings, and the block device's request.
//!
//! What a driver decides is here; the register reads and writes that
//! carry the decisions to a device are not, because they are volatile
//! accesses to a physical window that only a kernel can make.

use vstd::prelude::*;

use vstd::string::StringSliceAdditionalSpecFns;

use crate::abi::Error;

verus! {

/// `0x74726976` -- "virt" little-endian. Anything else is not a device.
pub const MAGIC: u32 = 0x7472_6976;

/// The only transport version this driver speaks.
pub const VERSION: u32 = 2;

/// The device id a console reports.
pub const CONSOLE_ID: u32 = 3;

/// `VIRTIO_F_VERSION_1`, bit 32 of the features: bit 0 of the second
/// feature word.
pub const VERSION_1: u32 = 1;

/// Driver status: the driver has noticed the device.
pub const ACKNOWLEDGE: u32 = 1;
/// Driver status: the driver knows how to drive it.
pub const DRIVER: u32 = 2;
/// Driver status: setup is complete and the device may be used.
pub const DRIVER_OK: u32 = 4;
/// Driver status: feature negotiation is settled.
pub const FEATURES_OK: u32 = 8;

/// Descriptors per queue, a power of two because the ring index wraps by
/// masking.
pub const SIZE: usize = 8;

/// Descriptor flag: another descriptor follows in `next`.
pub const NEXT: u16 = 1;

/// Descriptor flag: the device writes this buffer rather than reading it.
pub const WRITE: u16 = 2;

/// A virtio device at an MMIO window.
#[derive(Clone, Copy, PartialEq, Eq, Debug, Structural)]
pub struct Device {
    base: usize,
}

impl Device {
    /// The window's address.
    pub closed spec fn spec_base(&self) -> usize {
        self.base
    }

    /// What probing the window at `base` finds, given what its magic,
    /// version and device id registers read: a device and its id, or
    /// nothing. An empty slot reads a device id of zero.
    pub fn identify(base: usize, magic: u32, version: u32, id: u32) -> (r: Option<(Device, u32)>)
        ensures
            r is Some <==> magic == MAGIC && version == VERSION && id != 0,
            r matches Some((d, i)) ==> d.spec_base() == base && i == id,
    {
        if magic != MAGIC || version != VERSION {
            return None;
        }
        match id {
            0 => None,
            id => Some((Device { base }, id)),
        }
    }

    /// The second feature word the driver accepts, out of the one the
    /// device offers: `VIRTIO_F_VERSION_1` and nothing else.
    pub fn accept(offered: u32) -> (accepted: u32)
        ensures
            accepted == offered & VERSION_1,
            accepted <= VERSION_1,
    {
        assert(offered & 1u32 <= 1u32) by (bit_vector);
        offered & VERSION_1
    }

    /// Whether the device agreed to the features, from the status it
    /// reads back after negotiation.
    pub fn settled(status: u32) -> (ok: bool)
        ensures
            ok == (status & FEATURES_OK != 0),
    {
        status & FEATURES_OK != 0
    }

    /// The MMIO window.
    pub fn base(&self) -> (b: usize)
        ensures
            b == self.spec_base(),
    {
        self.base
    }
}

/// The device's features, for the feature word selected.
pub const DEVICE_FEATURES: usize = 0x010;

/// Which word of the device's features `DEVICE_FEATURES` shows.
pub const DEVICE_FEATURES_SEL: usize = 0x014;

/// The features the driver accepts, for the word selected.
pub const DRIVER_FEATURES: usize = 0x020;

/// Which word of the driver's features `DRIVER_FEATURES` takes.
pub const DRIVER_FEATURES_SEL: usize = 0x024;

/// The device status register.
pub const STATUS: usize = 0x070;

/// One register access of a handshake.
#[derive(Clone, Copy, PartialEq, Eq, Debug, Structural)]
pub enum Mmio {
    /// Write the value to the register at the offset.
    Write(usize, u32),
    /// Read the register at the offset, and hand the value back.
    Read(usize),
}

/// The access the feature handshake makes at `step`, given the features
/// the device offered; `None` once it is over.
///
/// The order is the transport's: reset, announce the driver, read what
/// is offered, accept `VIRTIO_F_VERSION_1` of it and nothing of the other
/// word, then set `FEATURES_OK` and read back whether the device agrees.
pub open spec fn handshake_op(step: u8, offered: u32) -> Option<Mmio> {
    if step == 0 {
        Some(Mmio::Write(STATUS, 0))
    } else if step == 1 {
        Some(Mmio::Write(STATUS, ACKNOWLEDGE))
    } else if step == 2 {
        Some(Mmio::Write(STATUS, ACKNOWLEDGE | DRIVER))
    } else if step == 3 {
        Some(Mmio::Write(DEVICE_FEATURES_SEL, 1))
    } else if step == 4 {
        Some(Mmio::Read(DEVICE_FEATURES))
    } else if step == 5 {
        Some(Mmio::Write(DRIVER_FEATURES_SEL, 1))
    } else if step == 6 {
        Some(Mmio::Write(DRIVER_FEATURES, offered & VERSION_1))
    } else if step == 7 {
        Some(Mmio::Write(DRIVER_FEATURES_SEL, 0))
    } else if step == 8 {
        Some(Mmio::Write(DRIVER_FEATURES, 0))
    } else if step == 9 {
        Some(Mmio::Write(STATUS, ACKNOWLEDGE | DRIVER | FEATURES_OK))
    } else if step == 10 {
        Some(Mmio::Read(STATUS))
    } else {
        None
    }
}

/// Where a feature handshake has got to.
///
/// The driver asks [`Negotiation::next`] for the access to make, makes
/// it, and hands what it read (or anything, after a write) to
/// [`Negotiation::advance`], until [`Negotiation::settled`] says how it
/// ended.
#[derive(Clone, Copy, PartialEq, Eq, Debug, Structural)]
pub struct Negotiation {
    step: u8,
    offered: u32,
    agreed: bool,
}

impl Negotiation {
    /// How many accesses have been made.
    pub closed spec fn spec_step(&self) -> u8 {
        self.step
    }

    /// What the device offered, once it has been read.
    pub closed spec fn spec_offered(&self) -> u32 {
        self.offered
    }

    /// Whether the device kept `FEATURES_OK` set, once it has been read.
    pub closed spec fn spec_agreed(&self) -> bool {
        self.agreed
    }

    /// A handshake that has not begun.
    pub fn new() -> (n: Negotiation)
        ensures
            n.spec_step() == 0,
            n.spec_offered() == 0,
            !n.spec_agreed(),
    {
        Negotiation { step: 0, offered: 0, agreed: false }
    }

    /// The access to make next, or `None` when the handshake is over.
    pub fn next(&self) -> (op: Option<Mmio>)
        ensures
            op == handshake_op(self.spec_step(), self.spec_offered()),
    {
        match self.step {
            0 => Some(Mmio::Write(STATUS, 0)),
            1 => Some(Mmio::Write(STATUS, ACKNOWLEDGE)),
            2 => Some(Mmio::Write(STATUS, ACKNOWLEDGE | DRIVER)),
            3 => Some(Mmio::Write(DEVICE_FEATURES_SEL, 1)),
            4 => Some(Mmio::Read(DEVICE_FEATURES)),
            5 => Some(Mmio::Write(DRIVER_FEATURES_SEL, 1)),
            6 => Some(Mmio::Write(DRIVER_FEATURES, Device::accept(self.offered))),
            7 => Some(Mmio::Write(DRIVER_FEATURES_SEL, 0)),
            8 => Some(Mmio::Write(DRIVER_FEATURES, 0)),
            9 => Some(Mmio::Write(STATUS, ACKNOWLEDGE | DRIVER | FEATURES_OK)),
            10 => Some(Mmio::Read(STATUS)),
            _ => None,
        }
    }

    /// Records the access just made: `read` is the value a read returned,
    /// and is ignored after a write.
    pub fn advance(&mut self, read: u32)
        ensures
            old(self).spec_step() < 11 ==> final(self).spec_step() == old(self).spec_step() + 1,
            old(self).spec_step() >= 11 ==> final(self).spec_step() == old(self).spec_step(),
            final(self).spec_offered() == (if old(self).spec_step() == 4 {
                read
            } else {
                old(self).spec_offered()
            }),
            final(self).spec_agreed() == (if old(self).spec_step() == 10 {
                read & FEATURES_OK != 0
            } else {
                old(self).spec_agreed()
            }),
    {
        if self.step == 4 {
            self.offered = read;
        } else if self.step == 10 {
            self.agreed = Device::settled(read);
        }
        if self.step < 11 {
            self.step = self.step + 1;
        }
    }

    /// How the handshake ended: whether the device agreed, or `None` while
    /// it is still going.
    pub fn settled(&self) -> (r: Option<bool>)
        ensures
            r == (if self.spec_step() >= 11 {
                Some(self.spec_agreed())
            } else {
                None
            }),
    {
        if self.step >= 11 {
            Some(self.agreed)
        } else {
            None
        }
    }
}

/// How far bringing a device up has got.
#[derive(Clone, Copy, PartialEq, Eq, Debug, Structural)]
pub enum Stage {
    /// The feature handshake is under way.
    Negotiating,
    /// Features agreed; the queue is being configured.
    Configuring,
    /// Configured; the driver may set `DRIVER_OK` and use the device.
    Ready,
    /// The device would not agree, or would not take the queue.
    Refused,
}

impl Stage {
    /// The stage after the current one finished, `ok` saying whether it
    /// succeeded. No queue is configured before features are agreed, and
    /// nothing is declared ready before its queue is configured.
    pub fn after(self, ok: bool) -> (s: Stage)
        ensures
            s == (match self {
                Stage::Negotiating => if ok { Stage::Configuring } else { Stage::Refused },
                Stage::Configuring => if ok { Stage::Ready } else { Stage::Refused },
                other => other,
            }),
    {
        match self {
            Stage::Negotiating => if ok {
                Stage::Configuring
            } else {
                Stage::Refused
            },
            Stage::Configuring => if ok {
                Stage::Ready
            } else {
                Stage::Refused
            },
            other => other,
        }
    }

    /// The status a device is given once it is ready.
    pub fn ready_status() -> (s: u32)
        ensures
            s == ACKNOWLEDGE | DRIVER | FEATURES_OK | DRIVER_OK,
    {
        ACKNOWLEDGE | DRIVER | FEATURES_OK | DRIVER_OK
    }
}

/// A descriptor: where a buffer is and how the device may use it.
#[derive(Clone, Copy, PartialEq, Eq, Debug, Structural)]
pub struct Descriptor {
    /// Physical address. Identity-mapped, so also the virtual one.
    pub address: u64,
    /// Length in bytes.
    pub length: u32,
    /// `NEXT` to continue a chain, `WRITE` if the device fills this
    /// buffer rather than reading it, or zero.
    pub flags: u16,
    /// Next descriptor in a chain.
    pub next: u16,
}

impl Default for Descriptor {
    /// An empty descriptor: no buffer, no flags.
    fn default() -> (d: Descriptor)
        ensures
            d == (Descriptor { address: 0, length: 0, flags: 0, next: 0 }),
    {
        Descriptor { address: 0, length: 0, flags: 0, next: 0 }
    }
}

/// The ring the driver fills with descriptor indices.
pub struct Available {
    /// Flags. Zero: we want to be interrupted.
    pub flags: u16,
    /// How many entries the driver has ever made available.
    pub index: u16,
    /// Descriptor indices.
    pub ring: [u16; 8],
}

/// One entry the device returns.
#[derive(Clone, Copy, PartialEq, Eq, Debug, Structural)]
pub struct Used {
    /// Which descriptor it finished with.
    pub id: u32,
    /// How many bytes it wrote, for device-writable buffers.
    pub length: u32,
}

impl Default for Used {
    /// An entry the device has not written.
    fn default() -> (u: Used)
        ensures
            u == (Used { id: 0, length: 0 }),
    {
        Used { id: 0, length: 0 }
    }
}

/// The ring the device fills with finished descriptors.
pub struct UsedRing {
    /// Flags.
    pub flags: u16,
    /// How many entries the device has ever returned.
    pub index: u16,
    /// The entries.
    pub ring: [Used; 8],
}

impl Available {
    /// Makes the chain beginning at descriptor 0 available: it goes in
    /// the slot the index points at, and the index moves on by one,
    /// wrapping.
    pub fn publish(&mut self)
        ensures
            final(self).flags == old(self).flags,
            final(self).index == old(self).index.wrapping_add(1),
            final(self).ring@ == old(self).ring@.update(old(self).index as int % 8, 0u16),
    {
        let slot = self.index as usize % SIZE;
        self.ring[slot] = 0;
        self.index = self.index.wrapping_add(1);
    }
}

impl UsedRing {
    /// How much the device moved for the entry it returned after having
    /// returned `before` of them.
    pub fn returned(&self, before: u16) -> (length: u32)
        ensures
            length == self.ring@[before as int % 8].length,
    {
        self.ring[before as usize % SIZE].length
    }
}

/// Whether a device whose queue can hold at most `num_max` entries can be
/// given a queue of [`SIZE`]: the driver's rings are that size and no
/// smaller queue will do.
pub fn queue_fits(num_max: u32) -> (ok: bool)
    ensures
        ok == (num_max >= SIZE),
{
    num_max >= SIZE as u32
}

/// A 64-bit address as the low and high words the transport takes.
pub fn halves(address: u64) -> (words: (u32, u32))
    ensures
        words.0 == address as u32,
        words.1 == (address >> 32u64) as u32,
        words.1 as u64 * 0x1_0000_0000 + words.0 as u64 == address,
{
    let low = address as u32;
    let high = (address >> 32u64) as u32;
    assert((address >> 32u64) as u32 as u64 * 0x1_0000_0000u64 + address as u32 as u64 == address) by (bit_vector);
    (low, high)
}

/// Bytes in a virtio block sector, whatever the disk's own sector size.
pub const SECTOR: usize = 512;

/// Request type: read from the device.
pub const IN: u32 = 0;

/// The header at the front of every block request.
#[derive(Clone, Copy, PartialEq, Eq, Debug, Structural)]
pub struct Header {
    /// What to do. `IN` to read.
    pub kind: u32,
    /// Reserved; must be zero.
    pub reserved: u32,
    /// Which 512-byte sector to start at.
    pub sector: u64,
}

impl Default for Header {
    /// A read of sector zero.
    fn default() -> (h: Header)
        ensures
            h == (Header { kind: IN, reserved: 0, sector: 0 }),
    {
        Header { kind: IN, reserved: 0, sector: 0 }
    }
}

/// Bytes in a request header as the device reads it.
pub const HEADER_BYTES: u32 = 16;

/// The device's answer to a request.
#[derive(Clone, Copy, PartialEq, Eq, Debug, Structural)]
pub enum Status {
    /// It worked: the status byte was zero.
    Done,
    /// The device failed.
    Error,
    /// The device did not understand the request.
    Unsupported,
}

impl Status {
    /// Reads a status byte, treating anything undefined as an error: a
    /// device that answers something the specification does not define
    /// has failed, whatever it meant.
    pub fn from_u8(value: u8) -> (s: Status)
        ensures
            s == (if value == 0 {
                Status::Done
            } else if value == 2 {
                Status::Unsupported
            } else {
                Status::Error
            }),
    {
        match value {
            0 => Status::Done,
            2 => Status::Unsupported,
            _ => Status::Error,
        }
    }
}

/// A virtio block device.
#[derive(Clone, Copy, PartialEq, Eq, Debug, Structural)]
pub struct Block {
    device: Device,
}

impl Block {
    /// The block device on `device`, once it has been brought up.
    pub fn on(device: Device) -> (b: Block)
        ensures
            b.spec_device() == device,
    {
        Block { device }
    }

    /// The device underneath.
    pub closed spec fn spec_device(&self) -> Device {
        self.device
    }

    /// The header of a read of `sector`.
    pub fn read_header(sector: u64) -> (h: Header)
        ensures
            h == (Header { kind: IN, reserved: 0, sector }),
    {
        Header { kind: IN, reserved: 0, sector }
    }

    /// The three-descriptor chain for a read: a header the device reads,
    /// a sector it writes, and a status byte it writes. The header carries
    /// no `WRITE`, so the device cannot scribble on the request that told
    /// it what to do.
    pub fn chain(header: u64, data: u64, status: u64) -> (c: [Descriptor; 3])
        ensures
            c@ == seq![
                Descriptor { address: header, length: HEADER_BYTES, flags: NEXT, next: 1 },
                Descriptor { address: data, length: SECTOR as u32, flags: NEXT | WRITE, next: 2 },
                Descriptor { address: status, length: 1, flags: WRITE, next: 0 },
            ],
    {
        let c = [
            Descriptor { address: header, length: HEADER_BYTES, flags: NEXT, next: 1 },
            Descriptor { address: data, length: SECTOR as u32, flags: NEXT | WRITE, next: 2 },
            Descriptor { address: status, length: 1, flags: WRITE, next: 0 },
        ];
        assert(c@ =~= seq![
            Descriptor { address: header, length: HEADER_BYTES, flags: NEXT, next: 1 },
            Descriptor { address: data, length: SECTOR as u32, flags: NEXT | WRITE, next: 2 },
            Descriptor { address: status, length: 1, flags: WRITE, next: 0 },
        ]);
        c
    }

    /// What the status byte is set to before a request goes out.
    ///
    /// Not zero: zero is `Ok`, so a device that never wrote the status
    /// byte would look like one that succeeded.
    pub open spec fn spec_unwritten() -> u8 {
        0xff
    }

    /// The request for one sector into a buffer of `room` bytes: its
    /// header, and the status byte to preset. Only a whole sector can be
    /// read; a buffer of any other size is refused before the device is
    /// asked anything.
    pub fn request(sector: u64, room: usize) -> (r: Result<(Header, u8), Error>)
        ensures
            r is Ok <==> room == SECTOR,
            r matches Err(e) ==> e == Error::BadObject,
            r matches Ok((h, status)) ==> h == (Header { kind: IN, reserved: 0, sector }) && status
                == Self::spec_unwritten() && status != 0,
    {
        if room != SECTOR {
            return Err(Error::BadObject);
        }
        Ok((Self::read_header(sector), 0xff))
    }

    /// Reads the answer back, if the device says it worked: the sector's
    /// bytes go to `into` when the status byte says it is done, and otherwise
    /// nothing is copied and no provider could supply the read. A buffer
    /// that is not one sector is refused first, as a malformed request.
    pub fn collect(status: u8, data: &[u8], into: &mut [u8]) -> (r: Result<(), Error>)
        ensures
            (data@.len() != SECTOR || old(into)@.len() != SECTOR) ==> r == Err::<(), Error>(Error::BadObject),
            (data@.len() == SECTOR && old(into)@.len() == SECTOR) ==> (r is Ok <==> status == 0),
            r matches Err(e) ==> final(into)@ == old(into)@ && (e == Error::BadObject || e == Error::NoProvider),
            (data@.len() == SECTOR && old(into)@.len() == SECTOR && status != 0) ==> r == Err::<(), Error>(
                Error::NoProvider,
            ),
            r is Ok ==> final(into)@ == data@,
    {
        if into.len() != SECTOR || data.len() != SECTOR {
            return Err(Error::BadObject);
        }
        match Status::from_u8(status) {
            Status::Done => {
                let mut k: usize = 0;
                while k < SECTOR
                    invariant
                        k <= SECTOR,
                        data@.len() == SECTOR,
                        into@.len() == SECTOR,
                        forall|j: int| 0 <= j < k ==> into@[j] == data@[j],
                    decreases SECTOR - k,
                {
                    into[k] = data[k];
                    k += 1;
                }
                assert(into@ =~= data@);
                Ok(())
            },
            _ => Err(Error::NoProvider),
        }
    }
}

/// A read of a byte range from a block device, one sector at a time.
///
/// The device reads whole sectors; a range is a sequence of them. This
/// holds where the range has got to: the driver asks [`Reading::next`]
/// which sector to read, reads it, and hands it to [`Reading::take`],
/// until there is nothing left to read.
#[derive(Clone, Copy, PartialEq, Eq, Debug, Structural)]
pub struct Reading {
    sector: u64,
    done: usize,
    len: usize,
}

impl Reading {
    /// The next sector to read.
    pub closed spec fn spec_sector(&self) -> u64 {
        self.sector
    }

    /// How many bytes have been filled.
    pub closed spec fn spec_done(&self) -> usize {
        self.done
    }

    /// How many bytes the range has.
    pub closed spec fn spec_len(&self) -> usize {
        self.len
    }

    #[verifier::type_invariant]
    closed spec fn aligned(self) -> bool {
        &&& self.done <= self.len
        &&& self.done < self.len ==> self.done % SECTOR == 0
        &&& self.sector as int + (self.len - self.done + 511) / (SECTOR as int) <= u64::MAX
    }

    /// A read of `len` bytes from byte `offset`.
    ///
    /// Sector-aligned offsets only: objects are placed on sector
    /// boundaries precisely so a read never has to read part of one.
    pub fn start(offset: u64, len: usize) -> (r: Result<Reading, Error>)
        ensures
            r is Ok <==> offset % (SECTOR as u64) == 0,
            r matches Err(e) ==> e == Error::BadObject,
            r matches Ok(reading) ==> reading.spec_sector() == offset / (SECTOR as u64) && reading.spec_done() == 0
                && reading.spec_len() == len,
    {
        if offset % (SECTOR as u64) != 0 {
            return Err(Error::BadObject);
        }
        assert(offset / 512 + (len + 511) / 512 <= u64::MAX) by (nonlinear_arith)
            requires
                len <= u64::MAX,
                offset <= u64::MAX,
        ;
        Ok(Reading { sector: offset / (SECTOR as u64), done: 0, len })
    }

    /// The sector to read next, or `None` once the range is filled.
    pub fn next(&self) -> (sector: Option<u64>)
        ensures
            sector is Some <==> self.spec_done() < self.spec_len(),
            sector matches Some(s) ==> s == self.spec_sector(),
    {
        if self.done < self.len {
            Some(self.sector)
        } else {
            None
        }
    }

    /// Copies the sector just read into its place in `into` -- the whole
    /// sector, or as much of it as the range still wants -- and moves on
    /// to the next one.
    pub fn take(&mut self, scratch: &[u8], into: &mut [u8])
        requires
            scratch@.len() == SECTOR,
            old(into)@.len() == old(self).spec_len(),
            old(self).spec_done() < old(self).spec_len(),
        ensures
            ({
                let done = old(self).spec_done() as int;
                let take = if old(self).spec_len() - done < SECTOR as int {
                    old(self).spec_len() - done
                } else {
                    SECTOR as int
                };
                &&& final(self).spec_done() == done + take
                &&& final(self).spec_sector() == old(self).spec_sector() + 1
                &&& final(self).spec_len() == old(self).spec_len()
                &&& final(into)@.len() == old(into)@.len()
                &&& forall|k: int| 0 <= k < take ==> #[trigger] final(into)@[done + k] == scratch@[k]
                &&& forall|k: int| 0 <= k < old(into)@.len() && !(done <= k < done + take)
                    ==> final(into)@[k] == old(into)@[k]
            }),
    {
        proof {
            use_type_invariant(&*self);
        }
        let done = self.done;
        let len = self.len;
        let take = if self.len - done < SECTOR {
            self.len - done
        } else {
            SECTOR
        };
        let mut k: usize = 0;
        while k < take
            invariant
                k <= take,
                take <= SECTOR,
                done + take <= len,
                len == into@.len(),
                scratch@.len() == SECTOR,
                into@.len() == old(into)@.len(),
                forall|j: int| 0 <= j < k ==> #[trigger] into@[done + j] == scratch@[j],
                forall|j: int| 0 <= j < into@.len() && !(done <= j < done + k) ==> into@[j] == old(into)@[j],
            decreases take - k,
        {
            into[done + k] = scratch[k];
            k += 1;
        }
        assert(take == SECTOR || done + take == self.len);
        assert((done + take) < self.len ==> (done + take) % (SECTOR as int) == 0);
        let ghost before = (len - done + 511) / 512;
        let ghost after = (len - (done + take) + 511) / 512;
        assert(after + 1 <= before) by (nonlinear_arith)
            requires
                take == 512 || done + take == len,
                done + take <= len,
                take <= 512,
                take >= 1,
                before == (len - done + 511) / 512,
                after == (len - (done + take) + 511) / 512,
        ;
        self.done = done + take;
        self.sector = self.sector + 1;
    }

    /// How many bytes have been read: the range's length once `next` says
    /// there is nothing left.
    pub fn done(&self) -> (n: u32)
        ensures
            n == self.spec_done() as u32,
    {
        self.done as u32
    }
}

/// Bytes the console sends in one request: its transmit buffer.
pub const CHUNK: usize = 256;

/// The pieces a write of `total` bytes is sent in once `sent` have gone:
/// where each starts and how long it is, a bufferful at most, in order.
pub open spec fn chunks_from(total: int, sent: int) -> Seq<(int, int)>
    decreases total - sent,
{
    if sent < 0 || sent >= total {
        seq![]
    } else {
        let len = if total - sent < CHUNK { total - sent } else { CHUNK as int };
        seq![(sent, len)] + chunks_from(total, sent + len)
    }
}

/// A write is sent whole and in order: its pieces follow one another from
/// where the write stands, each a bufferful but the last, and there are as
/// many as it takes buffers to hold what is left.
pub proof fn law_chunks_cover_a_write_in_order(total: int, sent: int)
    requires
        0 <= sent <= total,
    ensures
        chunks_from(total, sent).len() == (total - sent + 255) / 256,
        forall|i: int|
            0 <= i < chunks_from(total, sent).len() ==> #[trigger] chunks_from(total, sent)[i] == (
                sent + 256 * i,
                if total - sent - 256 * i < 256 { total - sent - 256 * i } else { 256 },
            ),
    decreases total - sent,
{
    if sent < total {
        let len = if total - sent < CHUNK { total - sent } else { CHUNK as int };
        law_chunks_cover_a_write_in_order(total, sent + len);
        let rest = chunks_from(total, sent + len);
        let all = chunks_from(total, sent);
        assert(all == seq![(sent, len)] + rest);
        assert forall|i: int| 0 <= i < all.len() implies #[trigger] all[i] == (
            sent + 256 * i,
            if total - sent - 256 * i < 256 { total - sent - 256 * i } else { 256 },
        ) by {
            if i > 0 {
                assert(all[i] == rest[i - 1]);
            }
        }
    }
}

/// A virtio console, transmit only.
#[derive(Clone, Copy, PartialEq, Eq, Debug, Structural)]
pub struct Console {
    device: Device,
}

/// The bytes a console sends for `text`: a carriage return before every
/// line feed, because terminals want CRLF and the kernel should not care.
pub open spec fn crlf(text: Seq<u8>) -> Seq<u8>
    decreases text.len(),
{
    if text.len() == 0 {
        seq![]
    } else {
        let last = text.last();
        crlf(text.drop_last()) + (if last == 10 { seq![13u8, 10u8] } else { seq![last] })
    }
}

impl Console {
    /// The console on `device`, once it has been brought up.
    pub fn on(device: Device) -> (c: Console)
        ensures
            c.spec_device() == device,
    {
        Console { device }
    }

    /// The device underneath.
    pub closed spec fn spec_device(&self) -> Device {
        self.device
    }

    /// The next piece of a `total`-byte write once `sent` bytes have gone:
    /// where it starts and how long it is, a bufferful at most, or `None`
    /// when everything has been sent.
    pub fn chunk(total: usize, sent: usize) -> (c: Option<(usize, usize)>)
        ensures
            c is None <==> sent >= total,
            c matches Some((start, len)) ==> start == sent && len == (if total - sent < CHUNK {
                total - sent
            } else {
                CHUNK as int
            }),
            c matches Some((start, len)) ==> (start as int, len as int) == chunks_from(total as int, sent as int)[0],
    {
        if sent >= total {
            None
        } else if total - sent < CHUNK {
            Some((sent, total - sent))
        } else {
            Some((sent, CHUNK))
        }
    }

    /// The descriptor for a piece staged at `address`: device-readable,
    /// because it is output, and alone in its chain.
    pub fn descriptor(address: u64, length: usize) -> (d: Descriptor)
        requires
            length <= CHUNK,
        ensures
            d == (Descriptor { address, length: length as u32, flags: 0, next: 0 }),
    {
        Descriptor { address, length: length as u32, flags: 0, next: 0 }
    }

    /// The bytes to send for `text`.
    pub fn bytes_for(text: &str) -> (out: Vec<u8>)
        ensures
            out@ == crlf(text.spec_bytes()),
    {
        let bytes = text.as_bytes();
        let mut out: Vec<u8> = Vec::new();
        let mut k: usize = 0;
        while k < bytes.len()
            invariant
                k <= bytes@.len(),
                out@ == crlf(bytes@.take(k as int)),
            decreases bytes@.len() - k,
        {
            let b = bytes[k];
            if b == 10 {
                out.push(13);
            }
            out.push(b);
            assert(bytes@.take(k + 1).drop_last() =~= bytes@.take(k as int));
            k += 1;
        }
        assert(bytes@.take(k as int) =~= bytes@);
        out
    }
}

} // verus!
