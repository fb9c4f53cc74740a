use vstd::prelude::*;

use crate::errors::BusError;

verus! {

/// Control bit: pipe 1 (host console) enabled.
pub const SERIAL_CONTROL_PIPE1_ENABLE: u8 = 1;

/// Control bit: pipe 2 (external serial port) enabled.
pub const SERIAL_CONTROL_PIPE2_ENABLE: u8 = 2;

/// Status bit: pipe 1 receive queue is non-empty.
pub const SERIAL_STATUS_PIPE1_RX: u8 = 1;

/// Status bit: pipe 2 receive queue is non-empty.
pub const SERIAL_STATUS_PIPE2_RX: u8 = 2;

/// Register offset of the read-only status byte.
pub const SERIAL_REG_STATUS: u64 = 1;

/// Register offset of the read-write control byte.
pub const SERIAL_REG_CONTROL: u64 = 2;

/// Register offset of the pipe 1 data port.
pub const SERIAL_REG_PIPE1: u64 = 3;

/// Register offset of the pipe 2 data port.
pub const SERIAL_REG_PIPE2: u64 = 4;

/// Length of the fixed bulk-stream frame: status plus one data byte per pipe.
pub const SERIAL_STREAM_LEN: usize = 3;

/// The abstract state of a serial device: a control byte and a receive and
/// a transmit queue per pipe, plus the worker's run flag.
pub struct SerialModel {
    pub running: bool,
    pub control: u8,
    pub rx1: Seq<u8>,
    pub tx1: Seq<u8>,
    pub rx2: Seq<u8>,
    pub tx2: Seq<u8>,
}

/// The derived status byte: bit 0 set iff the pipe 1 receive queue is
/// non-empty, bit 1 set iff the pipe 2 receive queue is non-empty.
pub open spec fn spec_status(m: SerialModel) -> u8 {
    if m.rx1.len() > 0 && m.rx2.len() > 0 {
        3
    } else if m.rx1.len() > 0 {
        1
    } else if m.rx2.len() > 0 {
        2
    } else {
        0
    }
}

/// Each status bit is set exactly when its receive queue is non-empty.
pub proof fn lemma_status_bits(m: SerialModel)
    ensures
        spec_status(m) & SERIAL_STATUS_PIPE1_RX != 0 <==> m.rx1.len() > 0,
        spec_status(m) & SERIAL_STATUS_PIPE2_RX != 0 <==> m.rx2.len() > 0,
{
    assert(3u8 & 1u8 != 0 && 1u8 & 1u8 != 0 && 2u8 & 1u8 == 0 && 0u8 & 1u8 == 0) by (bit_vector);
    assert(3u8 & 2u8 != 0 && 2u8 & 2u8 != 0 && 1u8 & 2u8 == 0 && 0u8 & 2u8 == 0) by (bit_vector);
}

/// What reading register `address` returns and leaves behind: the status or
/// control byte, or the oldest byte of the addressed pipe's receive queue
/// (`NoData` if it is empty); other offsets are invalid.
pub open spec fn spec_serial_read_byte(m: SerialModel, address: u64) -> (SerialModel, Result<
    u8,
    BusError,
>) {
    if address == SERIAL_REG_STATUS {
        (m, Ok(spec_status(m)))
    } else if address == SERIAL_REG_CONTROL {
        (m, Ok(m.control))
    } else if address == SERIAL_REG_PIPE1 {
        if m.rx1.len() > 0 {
            (SerialModel { rx1: m.rx1.skip(1), ..m }, Ok(m.rx1[0]))
        } else {
            (m, Err(BusError::NoData))
        }
    } else if address == SERIAL_REG_PIPE2 {
        if m.rx2.len() > 0 {
            (SerialModel { rx2: m.rx2.skip(1), ..m }, Ok(m.rx2[0]))
        } else {
            (m, Err(BusError::NoData))
        }
    } else {
        (m, Err(BusError::InvalidAddress))
    }
}

/// What writing `data` to register `address` does: writes to the status byte
/// are accepted and ignored, the control byte is replaced, and a write to a
/// pipe register appends to that pipe's transmit queue; other offsets are
/// invalid.
pub open spec fn spec_serial_write_byte(m: SerialModel, address: u64, data: u8) -> (
    SerialModel,
    Result<(), BusError>,
) {
    if address == SERIAL_REG_STATUS {
        (m, Ok(()))
    } else if address == SERIAL_REG_CONTROL {
        (SerialModel { control: data, ..m }, Ok(()))
    } else if address == SERIAL_REG_PIPE1 {
        (SerialModel { tx1: m.tx1.push(data), ..m }, Ok(()))
    } else if address == SERIAL_REG_PIPE2 {
        (SerialModel { tx2: m.tx2.push(data), ..m }, Ok(()))
    } else {
        (m, Err(BusError::InvalidAddress))
    }
}

/// What a bulk stream read returns and leaves behind: a fixed 3-byte frame
/// `[status, pipe-1 pop or 0, pipe-2 pop or 0]`; any other requested length,
/// or a base offset past the register file, is invalid.
pub open spec fn spec_serial_read_stream(m: SerialModel, address: u64, len: nat) -> (
    SerialModel,
    Result<Seq<u8>, BusError>,
) {
    if address > SERIAL_REG_PIPE2 || len != SERIAL_STREAM_LEN {
        (m, Err(BusError::InvalidAddress))
    } else {
        let b1 = if m.rx1.len() > 0 {
            m.rx1[0]
        } else {
            0
        };
        let b2 = if m.rx2.len() > 0 {
            m.rx2[0]
        } else {
            0
        };
        let rx1 = if m.rx1.len() > 0 {
            m.rx1.skip(1)
        } else {
            m.rx1
        };
        let rx2 = if m.rx2.len() > 0 {
            m.rx2.skip(1)
        } else {
            m.rx2
        };
        (SerialModel { rx1, rx2, ..m }, Ok(seq![spec_status(m), b1, b2]))
    }
}

/// What a bulk stream write does: a fixed 3-byte frame whose second and third
/// bytes are pushed to the pipe 1 and pipe 2 transmit queues; any other
/// length, or a base offset past the register file, is invalid.
pub open spec fn spec_serial_write_stream(m: SerialModel, address: u64, data: Seq<u8>) -> (
    SerialModel,
    Result<(), BusError>,
) {
    if address > SERIAL_REG_PIPE2 || data.len() != SERIAL_STREAM_LEN {
        (m, Err(BusError::InvalidAddress))
    } else {
        (SerialModel { tx1: m.tx1.push(data[1]), tx2: m.tx2.push(data[2]), ..m }, Ok(()))
    }
}

/// One iteration of the background worker: if pipe 1 is enabled, its whole
/// transmit queue goes to the host output and the available host input is
/// appended to its receive queue; pipe 2's external sink is an unfinished
/// extension point, so an enabled pipe 2 moves nothing.
pub open spec fn spec_serial_tick(m: SerialModel, host_input: Seq<u8>) -> (SerialModel, Seq<u8>) {
    if m.control & SERIAL_CONTROL_PIPE1_ENABLE != 0 {
        (SerialModel { tx1: Seq::empty(), rx1: m.rx1 + host_input, ..m }, m.tx1)
    } else {
        (m, Seq::empty())
    }
}

/// A dual-pipe serial UART with FIFO receive and transmit queues, a control
/// byte and a derived status byte. The background worker loop that exchanges
/// bytes with the host lives outside the library and calls `worker_tick`
/// once per iteration.
pub struct SerialDevice {
    running: bool,
    control: u8,
    rx1: Vec<u8>,
    tx1: Vec<u8>,
    rx2: Vec<u8>,
    tx2: Vec<u8>,
}

impl View for SerialDevice {
    type V = SerialModel;

    closed spec fn view(&self) -> SerialModel {
        SerialModel {
            running: self.running,
            control: self.control,
            rx1: self.rx1@,
            tx1: self.tx1@,
            rx2: self.rx2@,
            tx2: self.tx2@,
        }
    }
}

impl SerialDevice {
    /// A serial device with empty queues, a zero control byte, and its
    /// worker flagged as running.
    pub fn new() -> (r: Self)
        ensures
            r@.running,
            r@.control == 0,
            r@.rx1 == Seq::<u8>::empty(),
            r@.tx1 == Seq::<u8>::empty(),
            r@.rx2 == Seq::<u8>::empty(),
            r@.tx2 == Seq::<u8>::empty(),
    {
        SerialDevice {
            running: true,
            control: 0,
            rx1: Vec::new(),
            tx1: Vec::new(),
            rx2: Vec::new(),
            tx2: Vec::new(),
        }
    }

    /// Whether the worker is still flagged as running.
    pub fn is_running(&self) -> (r: bool)
        ensures
            r == self@.running,
    {
        self.running
    }

    /// Flags the worker to stop at its next iteration; everything else is
    /// untouched.
    pub fn stop(&mut self)
        ensures
            final(self)@ == (SerialModel { running: false, ..old(self)@ }),
    {
        self.running = false;
    }

    /// The derived status byte; never fails, since the verified device has
    /// no lock to poison.
    pub fn status(&self) -> (r: Result<u8, BusError>)
        ensures
            r == Ok::<u8, BusError>(spec_status(self@)),
    {
        let mut status: u8 = 0;
        if self.rx1.len() > 0 && self.rx2.len() > 0 {
            status = 3;
        } else if self.rx1.len() > 0 {
            status = 1;
        } else if self.rx2.len() > 0 {
            status = 2;
        }
        Ok(status)
    }

    /// Reads one register: status, control, or a pipe's oldest received
    /// byte.
    pub fn read_byte(&mut self, address: u64) -> (r: Result<u8, BusError>)
        ensures
            ({
                let (m2, rr) = spec_serial_read_byte(old(self)@, address);
                final(self)@ == m2 && r == rr
            }),
    {
        if address == SERIAL_REG_STATUS {
            self.status()
        } else if address == SERIAL_REG_CONTROL {
            Ok(self.control)
        } else if address == SERIAL_REG_PIPE1 {
            if self.rx1.len() > 0 {
                let b = self.rx1.remove(0);
                proof {
                    assert(self.rx1@ =~= old(self)@.rx1.skip(1));
                }
                Ok(b)
            } else {
                Err(BusError::NoData)
            }
        } else if address == SERIAL_REG_PIPE2 {
            if self.rx2.len() > 0 {
                let b = self.rx2.remove(0);
                proof {
                    assert(self.rx2@ =~= old(self)@.rx2.skip(1));
                }
                Ok(b)
            } else {
                Err(BusError::NoData)
            }
        } else {
            Err(BusError::InvalidAddress)
        }
    }

    /// Writes one register: status writes are ignored, control is replaced,
    /// and pipe writes are queued for transmission.
    pub fn write_byte(&mut self, address: u64, data: u8) -> (r: Result<(), BusError>)
        ensures
            ({
                let (m2, rr) = spec_serial_write_byte(old(self)@, address, data);
                final(self)@ == m2 && r == rr
            }),
    {
        if address == SERIAL_REG_STATUS {
            Ok(())
        } else if address == SERIAL_REG_CONTROL {
            self.control = data;
            Ok(())
        } else if address == SERIAL_REG_PIPE1 {
            self.tx1.push(data);
            Ok(())
        } else if address == SERIAL_REG_PIPE2 {
            self.tx2.push(data);
            Ok(())
        } else {
            Err(BusError::InvalidAddress)
        }
    }

    /// Reads the fixed 3-byte frame `[status, pipe-1 pop or 0, pipe-2 pop or
    /// 0]`; any other requested length is invalid.
    pub fn read_stream(&mut self, address: u64, len: usize) -> (r: Result<Vec<u8>, BusError>)
        ensures
            ({
                let (m2, rr) = spec_serial_read_stream(old(self)@, address, len as nat);
                final(self)@ == m2 && (match (r, rr) {
                    (Ok(v), Ok(s)) => v@ == s,
                    (Err(e), Err(es)) => e == es,
                    _ => false,
                })
            }),
    {
        if address > SERIAL_REG_PIPE2 || len != SERIAL_STREAM_LEN {
            return Err(BusError::InvalidAddress);
        }
        let status = match self.status() {
            Ok(s) => s,
            Err(e) => {
                proof {
                    assert(false);
                }
                return Err(e);
            },
        };
        let b1 = if self.rx1.len() > 0 {
            let b = self.rx1.remove(0);
            proof {
                assert(self.rx1@ =~= old(self)@.rx1.skip(1));
            }
            b
        } else {
            0
        };
        let b2 = if self.rx2.len() > 0 {
            let b = self.rx2.remove(0);
            proof {
                assert(self.rx2@ =~= old(self)@.rx2.skip(1));
            }
            b
        } else {
            0
        };
        let mut out: Vec<u8> = Vec::new();
        out.push(status);
        out.push(b1);
        out.push(b2);
        proof {
            let (m2, rr) = spec_serial_read_stream(old(self)@, address, len as nat);
            assert(out@ =~= rr->Ok_0);
        }
        Ok(out)
    }

    /// Writes the fixed 3-byte frame, queueing its second and third bytes on
    /// the pipe 1 and pipe 2 transmit queues; any other length is invalid.
    pub fn write_stream(&mut self, address: u64, stream: &[u8]) -> (r: Result<(), BusError>)
        ensures
            ({
                let (m2, rr) = spec_serial_write_stream(old(self)@, address, stream@);
                final(self)@ == m2 && r == rr
            }),
    {
        if address > SERIAL_REG_PIPE2 || stream.len() != SERIAL_STREAM_LEN {
            return Err(BusError::InvalidAddress);
        }
        self.tx1.push(stream[1]);
        self.tx2.push(stream[2]);
        Ok(())
    }

    /// One worker iteration: with pipe 1 enabled, drains the pipe 1 transmit
    /// queue into the returned host output and appends the available host
    /// input to the pipe 1 receive queue; with pipe 1 disabled nothing
    /// moves. Pipe 2's sink is an unfinished extension point either way.
    pub fn worker_tick(&mut self, host_input: &[u8]) -> (out: Vec<u8>)
        ensures
            ({
                let (m2, o) = spec_serial_tick(old(self)@, host_input@);
                final(self)@ == m2 && out@ == o
            }),
    {
        let mut out: Vec<u8> = Vec::new();
        if self.control & SERIAL_CONTROL_PIPE1_ENABLE != 0 {
            out.append(&mut self.tx1);
            let mut j: usize = 0;
            while j < host_input.len()
                invariant
                    j <= host_input@.len(),
                    self.rx1@ == old(self)@.rx1 + host_input@.subrange(0, j as int),
                    self.running == old(self)@.running,
                    self.control == old(self)@.control,
                    self.tx1@ == Seq::<u8>::empty(),
                    self.rx2@ == old(self)@.rx2,
                    self.tx2@ == old(self)@.tx2,
                decreases host_input@.len() - j,
            {
                self.rx1.push(host_input[j]);
                proof {
                    assert(self.rx1@ =~= old(self)@.rx1 + host_input@.subrange(0, j + 1));
                }
                j = j + 1;
            }
            proof {
                assert(host_input@.subrange(0, host_input@.len() as int) =~= host_input@);
                assert(out@ =~= old(self)@.tx1);
            }
        }
        out
    }
}

/// Writing a byte to the pipe 1 data register and then running one worker
/// iteration with pipe 1 enabled delivers that byte to the host output (as
/// the last byte of the drained transmit queue), and afterwards the status
/// bit for pipe 1 is set exactly when its receive queue is non-empty.
pub proof fn lemma_pipe1_write_reaches_host(m: SerialModel, data: u8, host_input: Seq<u8>)
    requires
        m.control & SERIAL_CONTROL_PIPE1_ENABLE != 0,
    ensures
        ({
            let (m2, r) = spec_serial_write_byte(m, SERIAL_REG_PIPE1, data);
            let (m3, out) = spec_serial_tick(m2, host_input);
            &&& r == Ok::<(), BusError>(())
            &&& out == m.tx1.push(data)
            &&& out[out.len() - 1] == data
            &&& (spec_status(m3) & SERIAL_STATUS_PIPE1_RX != 0 <==> m3.rx1.len() > 0)
        }),
{
    let (m2, r) = spec_serial_write_byte(m, SERIAL_REG_PIPE1, data);
    let (m3, out) = spec_serial_tick(m2, host_input);
    lemma_status_bits(m3);
}

} // verus!
