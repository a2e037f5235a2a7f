//! The MC6850 ACIA console: `+0` status and control, `+1` data.

use crate::alu::{offset, offset_by};
use crate::io::{Attach, Device, Slot, SlotState};
use crate::text::{hex2, hex4, push_hex2, push_hex4, push_text};
use std::collections::VecDeque;
use vstd::prelude::*;

verus! {

/// Output that the host has to carry out, in order. `B` holds bytes, `T` text.
pub enum HostOut<B, T> {
    /// Append a byte to the output file.
    File(u8),
    /// Ask the console window to repaint.
    Repaint,
    /// Print bytes that make up one character to the standard output.
    Stdout(B),
    /// Write a byte to the standard error output.
    Stderr(u8),
    /// Write a line to the standard error output.
    Note(T),
    /// Flush the standard output.
    FlushStdout,
    /// Flush the output file.
    FlushFile,
}

/// The contents of an output.
pub open spec fn out_view(o: HostOut<Vec<u8>, String>) -> HostOut<Seq<u8>, Seq<char>> {
    match o {
        HostOut::File(b) => HostOut::File(b),
        HostOut::Repaint => HostOut::Repaint,
        HostOut::Stdout(v) => HostOut::Stdout(v@),
        HostOut::Stderr(b) => HostOut::Stderr(b),
        HostOut::Note(s) => HostOut::Note(s@),
        HostOut::FlushStdout => HostOut::FlushStdout,
        HostOut::FlushFile => HostOut::FlushFile,
    }
}

#[verifier::opaque]
pub open spec fn outs_view(v: Seq<HostOut<Vec<u8>, String>>) -> Seq<HostOut<Seq<u8>, Seq<char>>> {
    v.map_values(|o: HostOut<Vec<u8>, String>| out_view(o))
}

/// How a console is connected to its host: a window that shows its output, the
/// standard output, and a log.
pub struct ConsoleHost {
    log: bool,
    gui_enabled: bool,
    gui_active: bool,
    stdout_enabled: bool,
    repaint: bool,
    gui: Vec<u8>,
}

/// The state of a [`ConsoleHost`]; `gui` holds the bytes that the window has
/// not taken yet.
pub struct HostState {
    pub log: bool,
    pub gui_enabled: bool,
    pub gui_active: bool,
    pub stdout_enabled: bool,
    pub repaint: bool,
    pub gui: Seq<u8>,
}

impl View for ConsoleHost {
    type V = HostState;

    closed spec fn view(&self) -> HostState {
        HostState {
            log: self.log,
            gui_enabled: self.gui_enabled,
            gui_active: self.gui_active,
            stdout_enabled: self.stdout_enabled,
            repaint: self.repaint,
            gui: self.gui@,
        }
    }
}

/// No log, no window, standard output on.
pub open spec fn fresh_host() -> HostState {
    HostState {
        log: false,
        gui_enabled: false,
        gui_active: false,
        stdout_enabled: true,
        repaint: false,
        gui: Seq::empty(),
    }
}

impl ConsoleHost {
    pub fn new() -> (h: Self)
        ensures
            h@ == fresh_host(),
    {
        ConsoleHost {
            log: false,
            gui_enabled: false,
            gui_active: false,
            stdout_enabled: true,
            repaint: false,
            gui: Vec::new(),
        }
    }
}

impl Default for ConsoleHost {
    fn default() -> (h: Self)
        ensures
            h@ == fresh_host(),
    {
        ConsoleHost::new()
    }
}

/// Switches the log of received and sent bytes on or off.
pub fn set_console_log(host: &mut ConsoleHost, on: bool)
    ensures
        final(host)@ == (HostState { log: on, ..old(host)@ }),
{
    host.log = on;
}

/// Lets the window show the output.
pub fn set_console_gui_enabled(host: &mut ConsoleHost, on: bool)
    ensures
        final(host)@ == (HostState { gui_enabled: on, ..old(host)@ }),
{
    host.gui_enabled = on;
}

/// Tells whether the window is there.
pub fn set_console_gui_active(host: &mut ConsoleHost, on: bool)
    ensures
        final(host)@ == (HostState { gui_active: on, ..old(host)@ }),
{
    host.gui_active = on;
}

/// Switches the standard output on or off; without a window it is always on.
pub fn set_console_stdout_enabled(host: &mut ConsoleHost, on: bool)
    ensures
        final(host)@ == (HostState { stdout_enabled: on, ..old(host)@ }),
{
    host.stdout_enabled = on;
}

/// The bytes for the window since the last call.
pub fn take_console_gui_bytes(host: &mut ConsoleHost) -> (bytes: Vec<u8>)
    ensures
        bytes@ == old(host)@.gui,
        final(host)@ == (HostState { gui: Seq::empty(), ..old(host)@ }),
{
    let mut bytes: Vec<u8> = Vec::new();
    std::mem::swap(&mut bytes, &mut host.gui);
    bytes
}

/// The number of bytes that wait for the window.
pub fn console_gui_pending_len(host: &ConsoleHost) -> (n: usize)
    ensures
        n == host@.gui.len(),
{
    host.gui.len()
}

/// Tells whether the window wants to be asked to repaint.
pub fn set_console_repaint_callback(host: &mut ConsoleHost, present: bool)
    ensures
        final(host)@ == (HostState { repaint: present, ..old(host)@ }),
{
    host.repaint = present;
}

/// The way out of a console: the bytes that it sends become output for the
/// host.
pub struct ConsolePort {
    /// The connection to the host.
    pub host: ConsoleHost,
    out_file: bool,
    flush_every: usize,
    flush_on_newline: bool,
    flush_count: usize,
    utf8_buf: Vec<u8>,
    utf8_need: usize,
    out: Vec<HostOut<Vec<u8>, String>>,
}

/// The state of a [`ConsolePort`].
pub struct PortState {
    pub host: HostState,
    pub out_file: bool,
    /// Flush after every so many bytes; 0 is never.
    pub flush_every: usize,
    pub flush_on_newline: bool,
    pub flush_count: usize,
    /// Bytes of a character that is not complete yet, and their final number.
    pub utf8_buf: Seq<u8>,
    pub utf8_need: usize,
    /// Output for the host.
    pub out: Seq<HostOut<Seq<u8>, Seq<char>>>,
}

impl View for ConsolePort {
    type V = PortState;

    closed spec fn view(&self) -> PortState {
        PortState {
            host: self.host@,
            out_file: self.out_file,
            flush_every: self.flush_every,
            flush_on_newline: self.flush_on_newline,
            flush_count: self.flush_count,
            utf8_buf: self.utf8_buf@,
            utf8_need: self.utf8_need,
            out: outs_view(self.out@),
        }
    }
}

/// The number of bytes of the character that begins with `b`.
pub open spec fn char_bytes(b: u8) -> usize {
    if 0xC0 <= b <= 0xDF {
        2
    } else if 0xE0 <= b <= 0xEF {
        3
    } else if 0xF0 <= b <= 0xF7 {
        4
    } else {
        1
    }
}

/// The number of bytes sent, where it is counted.
pub open spec fn counted(count: usize, every: usize) -> usize {
    if every == 0 {
        count
    } else if count == usize::MAX {
        0
    } else {
        (count + 1) as usize
    }
}

impl PortState {
    pub open spec fn emit(self, o: HostOut<Seq<u8>, Seq<char>>) -> PortState {
        PortState { out: self.out.push(o), ..self }
    }

    pub open spec fn emit_if(self, on: bool, o: HostOut<Seq<u8>, Seq<char>>) -> PortState {
        PortState {
            out: if on {
                self.out.push(o)
            } else {
                self.out
            },
            ..self
        }
    }

    pub open spec fn stdout_on(self) -> bool {
        self.host.stdout_enabled || !self.host.gui_active
    }

    /// A byte for the window, where there is one.
    #[verifier::opaque]
    pub open spec fn to_window(self, b: u8) -> PortState {
        if self.host.gui_active && self.host.gui_enabled {
            (PortState {
                host: HostState { gui: self.host.gui.push(b), ..self.host },
                ..self
            }).emit_if(self.host.repaint, HostOut::Repaint)
        } else {
            self
        }
    }

    /// A byte for the standard output: the bytes of a character go out
    /// together.
    #[verifier::opaque]
    pub open spec fn to_stdout(self, b: u8) -> PortState {
        if !self.stdout_on() {
            self
        } else if b < 0x80 && self.utf8_need == 0 {
            self.emit(HostOut::Stdout(seq![b]))
        } else {
            let need = if self.utf8_need == 0 {
                char_bytes(b)
            } else {
                self.utf8_need
            };
            let buf = self.utf8_buf.push(b);
            if buf.len() >= need {
                (PortState { utf8_buf: Seq::empty(), utf8_need: 0, ..self }).emit(
                    HostOut::Stdout(buf),
                )
            } else {
                PortState { utf8_buf: buf, utf8_need: need, ..self }
            }
        }
    }

    /// Whether byte `b` is followed by a flush: at a newline, or at every so
    /// many bytes.
    pub open spec fn flushes(self, b: u8) -> bool {
        (self.flush_on_newline && b == 0x0A) || (self.flush_every != 0 && counted(
            self.flush_count,
            self.flush_every,
        ) % self.flush_every == 0)
    }

    /// The flush behind a byte.
    #[verifier::opaque]
    pub open spec fn flushed(self, b: u8) -> PortState {
        (PortState {
            flush_count: counted(self.flush_count, self.flush_every),
            ..self
        }).emit_if(self.flushes(b) && self.stdout_on(), HostOut::FlushStdout).emit_if(
            self.flushes(b) && self.out_file,
            HostOut::FlushFile,
        )
    }

    /// A byte goes out to everything that is connected.
    #[verifier::opaque]
    pub open spec fn sent(self, b: u8) -> PortState {
        self.emit_if(self.out_file, HostOut::File(b)).to_window(b).to_stdout(b).flushed(b)
    }
}

/// A new connection, flushed after each byte.
pub open spec fn fresh_port() -> PortState {
    PortState {
        host: fresh_host(),
        out_file: false,
        flush_every: 1,
        flush_on_newline: false,
        flush_count: 0,
        utf8_buf: Seq::empty(),
        utf8_need: 0,
        out: Seq::empty(),
    }
}

impl ConsolePort {
    pub fn new() -> (p: Self)
        ensures
            p@ == fresh_port(),
    {
        let p = ConsolePort {
            host: ConsoleHost::new(),
            out_file: false,
            flush_every: 1,
            flush_on_newline: false,
            flush_count: 0,
            utf8_buf: Vec::new(),
            utf8_need: 0,
            out: Vec::new(),
        };
        reveal(outs_view);
        assert(outs_view(p.out@) =~= Seq::<HostOut<Seq<u8>, Seq<char>>>::empty());
        p
    }

    fn emit(&mut self, o: HostOut<Vec<u8>, String>)
        ensures
            final(self)@ == old(self)@.emit(out_view(o)),
            *final(self) == (ConsolePort { out: final(self).out, ..*old(self) }),
    {
        let ghost before = self.out@;
        self.out.push(o);
        reveal(outs_view);
        assert(outs_view(self.out@) =~= outs_view(before).push(out_view(o)));
    }

    /// The output since the last call.
    fn take(&mut self) -> (out: Vec<HostOut<Vec<u8>, String>>)
        ensures
            outs_view(out@) == old(self)@.out,
            final(self)@ == (PortState { out: Seq::empty(), ..old(self)@ }),
    {
        let mut out: Vec<HostOut<Vec<u8>, String>> = Vec::new();
        std::mem::swap(&mut out, &mut self.out);
        reveal(outs_view);
        assert(outs_view(self.out@) =~= Seq::<HostOut<Seq<u8>, Seq<char>>>::empty());
        out
    }

    fn stdout_on(&self) -> (r: bool)
        ensures
            r == self@.stdout_on(),
    {
        self.host.stdout_enabled || !self.host.gui_active
    }

    fn to_window(&mut self, b: u8)
        ensures
            final(self)@ == old(self)@.to_window(b),
    {
        reveal(PortState::to_window);
        if self.host.gui_active && self.host.gui_enabled {
            self.host.gui.push(b);
            if self.host.repaint {
                self.emit(HostOut::Repaint);
            }
        }
    }

    fn to_stdout(&mut self, b: u8)
        ensures
            final(self)@ == old(self)@.to_stdout(b),
    {
        reveal(PortState::to_stdout);
        if !self.stdout_on() {
            return;
        }
        if b < 0x80 && self.utf8_need == 0 {
            let mut one: Vec<u8> = Vec::new();
            one.push(b);
            assert(one@ =~= seq![b]);
            self.emit(HostOut::Stdout(one));
            return;
        }
        if self.utf8_need == 0 {
            self.utf8_need = if 0xC0 <= b && b <= 0xDF {
                2
            } else if 0xE0 <= b && b <= 0xEF {
                3
            } else if 0xF0 <= b && b <= 0xF7 {
                4
            } else {
                1
            };
        }
        self.utf8_buf.push(b);
        if self.utf8_buf.len() >= self.utf8_need {
            let mut group: Vec<u8> = Vec::new();
            std::mem::swap(&mut group, &mut self.utf8_buf);
            self.utf8_need = 0;
            self.emit(HostOut::Stdout(group));
        }
    }

    fn flush_behind(&mut self, b: u8)
        ensures
            final(self)@ == old(self)@.flushed(b),
    {
        reveal(PortState::flushed);
        if self.flush_every != 0 {
            self.flush_count = self.flush_count.wrapping_add(1);
        }
        let flush: bool = (self.flush_on_newline && b == 0x0A) || (self.flush_every != 0
            && self.flush_count % self.flush_every == 0);
        if flush && self.stdout_on() {
            self.emit(HostOut::FlushStdout);
        }
        if flush && self.out_file {
            self.emit(HostOut::FlushFile);
        }
    }

    /// Sends a byte to everything that is connected.
    fn push_stdout_byte(&mut self, b: u8)
        ensures
            final(self)@ == old(self)@.sent(b),
    {
        reveal(PortState::sent);
        if self.out_file {
            self.emit(HostOut::File(b));
        }
        self.to_window(b);
        self.to_stdout(b);
        self.flush_behind(b);
    }
}

impl Default for ConsolePort {
    fn default() -> (p: Self)
        ensures
            p@ == fresh_port(),
    {
        ConsolePort::new()
    }
}

/// The longest queue of received bytes.
pub const RX_FIFO_MAX: usize = 16;

/// A console device.
pub struct Mc6850Dev {
    pub base: u16,
    /// The way out.
    pub port: ConsolePort,
    cds: u8,
    tx_irq_enable: bool,
    rie: bool,
    rx: VecDeque<u8>,
    rx_wm: usize,
    rdrf: bool,
    rx_overrun: bool,
    tdre: bool,
    in_master_reset: bool,
    irq_hold_cycles: u32,
    irq_countdown: u32,
    tee_stderr: bool,
    local_echo: bool,
}

/// The state of an [`Mc6850Dev`].
pub struct ConsoleState {
    pub base: u16,
    pub port: PortState,
    /// Counter divide select; 3 is the master reset.
    pub cds: u8,
    pub tx_irq_enable: bool,
    /// Receive interrupt enable.
    pub rie: bool,
    /// Received bytes that were not read yet.
    pub rx: Seq<u8>,
    /// Number of received bytes from which on they interrupt.
    pub rx_wm: usize,
    /// Receive data register full.
    pub rdrf: bool,
    pub rx_overrun: bool,
    /// Transmit data register empty.
    pub tdre: bool,
    pub in_master_reset: bool,
    pub irq_hold_cycles: u32,
    pub irq_countdown: u32,
    pub tee_stderr: bool,
    pub local_echo: bool,
}

impl View for Mc6850Dev {
    type V = ConsoleState;

    closed spec fn view(&self) -> ConsoleState {
        ConsoleState {
            base: self.base,
            port: self.port@,
            cds: self.cds,
            tx_irq_enable: self.tx_irq_enable,
            rie: self.rie,
            rx: self.rx@,
            rx_wm: self.rx_wm,
            rdrf: self.rdrf,
            rx_overrun: self.rx_overrun,
            tdre: self.tdre,
            in_master_reset: self.in_master_reset,
            irq_hold_cycles: self.irq_hold_cycles,
            irq_countdown: self.irq_countdown,
            tee_stderr: self.tee_stderr,
            local_echo: self.local_echo,
        }
    }
}

impl ConsoleState {
    /// A byte arrives: nothing happens during a master reset, a full queue is
    /// an overrun.
    pub open spec fn received(self, b: u8) -> ConsoleState {
        if self.in_master_reset {
            self
        } else if self.rx.len() >= RX_FIFO_MAX {
            ConsoleState { rx_overrun: true, ..self }
        } else {
            ConsoleState { rx: self.rx.push(b), rdrf: true, ..self }
        }
    }

    /// Bytes arrive one by one, each with a log line behind it.
    pub open spec fn fed(self, bytes: Seq<u8>) -> ConsoleState
        decreases bytes.len(),
    {
        if bytes.len() == 0 {
            self
        } else {
            let s = self.fed(bytes.drop_last()).received(bytes.last());
            ConsoleState {
                port: s.port.emit_if(
                    s.port.host.log,
                    HostOut::Note("[console-rx] queued $"@ + hex2(bytes.last())),
                ),
                ..s
            }
        }
    }

    /// Whether the device asks for an interrupt: received bytes up to the
    /// watermark, or a free transmitter, where enabled.
    pub open spec fn irq_level(self) -> bool {
        (self.rdrf && self.rie && self.rx.len() >= self.rx_wm) || (self.tdre && self.tx_irq_enable)
    }

    /// The status register.
    pub open spec fn status(self) -> u8 {
        (if self.rdrf {
            0x01u8
        } else {
            0
        }) | (if self.tdre {
            0x02u8
        } else {
            0
        }) | (if self.rx_overrun {
            0x20u8
        } else {
            0
        }) | (if self.irq_level() {
            0x80u8
        } else {
            0
        })
    }

    /// The next received byte; 0 where there is none.
    pub open spec fn next_byte(self) -> u8 {
        if self.rx.len() > 0 {
            self.rx[0]
        } else {
            0
        }
    }

    /// A read of the data register.
    pub open spec fn taken(self) -> ConsoleState {
        let rest = if self.rx.len() > 0 {
            self.rx.drop_first()
        } else {
            self.rx
        };
        ConsoleState {
            rx: rest,
            rdrf: rest.len() > 0,
            rx_overrun: false,
            port: if self.local_echo {
                self.port.sent(self.next_byte())
            } else {
                self.port
            },
            ..self
        }
    }

    /// A write of the control register.
    pub open spec fn controlled(self, data: u8) -> ConsoleState {
        let s = ConsoleState {
            cds: data % 4,
            tx_irq_enable: data / 32 % 4 == 1,
            rie: data >= 0x80,
            ..self
        };
        if data % 4 == 3 {
            ConsoleState {
                in_master_reset: true,
                tdre: false,
                rdrf: false,
                rx_overrun: false,
                rx: Seq::empty(),
                ..s
            }
        } else if self.in_master_reset {
            ConsoleState { in_master_reset: false, tdre: true, ..s }
        } else {
            s
        }
    }

    /// A write of the data register.
    pub open spec fn transmitted(self, addr: u16, data: u8) -> ConsoleState {
        if self.in_master_reset {
            self
        } else {
            ConsoleState {
                port: self.port.emit_if(
                    self.port.host.log,
                    HostOut::Note("[console-tx] addr="@ + hex4(addr) + " data="@ + hex2(data)),
                ).emit_if(self.tee_stderr, HostOut::Stderr(data)).sent(data),
                tdre: true,
                ..self
            }
        }
    }

    /// A request for FIRQ, which the device does not have.
    pub open spec fn firq_asked(self, on: bool) -> ConsoleState {
        ConsoleState {
            port: self.port.emit_if(
                on,
                HostOut::Note(
                    "[console] FIRQ requested but MC6850 only routes to IRQ; ignoring"@,
                ),
            ),
            ..self
        }
    }

    /// A poll: a level asserts the line and arms the hold; behind it the line
    /// stays asserted while the hold counts down.
    pub open spec fn polled(self) -> ConsoleState {
        if self.irq_level() {
            ConsoleState { irq_countdown: self.irq_hold_cycles, ..self }
        } else if self.irq_countdown > 0 {
            ConsoleState { irq_countdown: (self.irq_countdown - 1) as u32, ..self }
        } else {
            self
        }
    }
}

/// A new console, ready to send.
pub open spec fn fresh_console(base: u16) -> ConsoleState {
    ConsoleState {
        base,
        port: fresh_port(),
        cds: 3,
        tx_irq_enable: false,
        rie: false,
        rx: Seq::empty(),
        rx_wm: 1,
        rdrf: false,
        rx_overrun: false,
        tdre: true,
        in_master_reset: false,
        irq_hold_cycles: 0,
        irq_countdown: 0,
        tee_stderr: false,
        local_echo: false,
    }
}

impl Mc6850Dev {
    pub fn new(base: u16) -> (d: Self)
        ensures
            d@ == fresh_console(base),
    {
        Mc6850Dev {
            base,
            port: ConsolePort::new(),
            cds: 3,
            tx_irq_enable: false,
            rie: false,
            rx: VecDeque::new(),
            rx_wm: 1,
            rdrf: false,
            rx_overrun: false,
            tdre: true,
            in_master_reset: false,
            irq_hold_cycles: 0,
            irq_countdown: 0,
            tee_stderr: false,
            local_echo: false,
        }
    }

    pub(crate) fn base(&self) -> (b: u16)
        ensures
            b == self@.base,
    {
        self.base
    }

    /// The output for the host since the last call.
    pub fn take_output(&mut self) -> (out: Vec<HostOut<Vec<u8>, String>>)
        ensures
            outs_view(out@) == old(self)@.port.out,
            final(self)@ == (ConsoleState {
                port: PortState { out: Seq::empty(), ..old(self)@.port },
                ..old(self)@
            }),
    {
        self.port.take()
    }

    /// Hands received bytes to the device.
    pub fn feed_bytes(&mut self, bytes: &[u8])
        ensures
            final(self)@ == old(self)@.fed(bytes@),
    {
        let mut i: usize = 0;
        while i < bytes.len()
            invariant
                i <= bytes@.len(),
                self@ == old(self)@.fed(bytes@.take(i as int)),
            decreases bytes@.len() - i,
        {
            proof {
                let t = bytes@.take(i + 1);
                assert(t.drop_last() =~= bytes@.take(i as int));
            }
            self.receive(bytes[i]);
            if self.port.host.log {
                let mut line: String = String::new();
                push_text(&mut line, "[console-rx] queued $");
                push_hex2(&mut line, bytes[i]);
                assert(line@ =~= "[console-rx] queued $"@ + hex2(bytes@[i as int]));
                self.port.emit(HostOut::Note(line));
            }
            i = i + 1;
        }
        assert(bytes@.take(i as int) =~= bytes@);
    }

    /// Sets the number of received bytes from which on they interrupt, at
    /// least 1.
    pub fn set_rx_watermark(&mut self, wm: usize)
        ensures
            final(self)@ == (ConsoleState {
                rx_wm: if wm == 0 {
                    1
                } else {
                    wm
                },
                ..old(self)@
            }),
    {
        self.rx_wm = if wm == 0 {
            1
        } else {
            wm
        };
    }

    /// Sets for how many polls an interrupt outlasts its cause.
    pub fn set_irq_hold_cycles(&mut self, n: u32)
        ensures
            final(self)@ == (ConsoleState { irq_hold_cycles: n, ..old(self)@ }),
    {
        self.irq_hold_cycles = n;
    }

    /// Sends the output to a file too, where the host could open it.
    pub fn set_out_file(&mut self, opened: bool)
        ensures
            final(self)@ == (ConsoleState {
                port: PortState {
                    out_file: old(self)@.port.out_file || opened,
                    ..old(self)@.port
                },
                ..old(self)@
            }),
    {
        if opened {
            self.port.out_file = true;
        }
    }

    pub fn set_tee_stderr(&mut self, on: bool)
        ensures
            final(self)@ == (ConsoleState { tee_stderr: on, ..old(self)@ }),
    {
        self.tee_stderr = on;
    }

    /// Flushes after every `n` bytes; 0 is never.
    pub fn set_flush_every(&mut self, n: usize)
        ensures
            final(self)@ == (ConsoleState {
                port: PortState { flush_every: n, ..old(self)@.port },
                ..old(self)@
            }),
    {
        self.port.flush_every = n;
    }

    pub fn set_flush_on_newline(&mut self, on: bool)
        ensures
            final(self)@ == (ConsoleState {
                port: PortState { flush_on_newline: on, ..old(self)@.port },
                ..old(self)@
            }),
    {
        self.port.flush_on_newline = on;
    }

    pub fn set_local_echo(&mut self, on: bool)
        ensures
            final(self)@ == (ConsoleState { local_echo: on, ..old(self)@ }),
    {
        self.local_echo = on;
    }

    /// Writes the control register, as the guest would.
    pub fn set_ctrl(&mut self, v: u8)
        ensures
            final(self)@ == old(self)@.controlled(v),
    {
        self.control(v);
    }

    /// The device has no FIRQ; asking for it yields a note.
    pub fn set_firq(&mut self, on: bool)
        ensures
            final(self)@ == old(self)@.firq_asked(on),
    {
        if on {
            let mut line: String = String::new();
            push_text(
                &mut line,
                "[console] FIRQ requested but MC6850 only routes to IRQ; ignoring",
            );
            assert(line@
                =~= "[console] FIRQ requested but MC6850 only routes to IRQ; ignoring"@);
            self.port.emit(HostOut::Note(line));
        }
    }

    fn receive(&mut self, ch: u8)
        ensures
            final(self)@ == old(self)@.received(ch),
    {
        if self.in_master_reset {
            return;
        }
        if self.rx.len() >= RX_FIFO_MAX {
            self.rx_overrun = true;
            return;
        }
        self.rx.push_back(ch);
        self.rdrf = true;
    }

    fn irq_level(&self) -> (r: bool)
        ensures
            r == self@.irq_level(),
    {
        (self.rdrf && self.rie && self.rx.len() >= self.rx_wm) || (self.tdre && self.tx_irq_enable)
    }

    fn control(&mut self, data: u8)
        ensures
            final(self)@ == old(self)@.controlled(data),
    {
        self.cds = data % 4;
        self.tx_irq_enable = data / 32 % 4 == 1;
        self.rie = data >= 0x80;
        if data % 4 == 3 {
            self.in_master_reset = true;
            self.tdre = false;
            self.rdrf = false;
            self.rx_overrun = false;
            self.rx.clear();
            return;
        }
        if self.in_master_reset {
            self.in_master_reset = false;
            self.tdre = true;
        }
    }

    fn transmit(&mut self, addr: u16, data: u8)
        ensures
            final(self)@ == old(self)@.transmitted(addr, data),
    {
        if self.in_master_reset {
            return;
        }
        if self.port.host.log {
            let mut line: String = String::new();
            push_text(&mut line, "[console-tx] addr=");
            push_hex4(&mut line, addr);
            push_text(&mut line, " data=");
            push_hex2(&mut line, data);
            assert(line@ =~= "[console-tx] addr="@ + hex4(addr) + " data="@ + hex2(data));
            self.port.emit(HostOut::Note(line));
        }
        if self.tee_stderr {
            self.port.emit(HostOut::Stderr(data));
        }
        self.port.push_stdout_byte(data);
        self.tdre = true;
    }
}

impl Device for Mc6850Dev {
    open spec fn holds(m: ConsoleState, addr: u16) -> bool {
        addr == m.base || addr == offset(m.base, 1)
    }

    open spec fn read_val(m: ConsoleState, addr: u16) -> u8 {
        if addr == m.base {
            m.status()
        } else {
            m.next_byte()
        }
    }

    open spec fn read_next(m: ConsoleState, addr: u16) -> ConsoleState {
        if addr == m.base {
            m
        } else {
            m.taken()
        }
    }

    open spec fn write_next(m: ConsoleState, addr: u16, data: u8) -> ConsoleState {
        if addr == m.base {
            m.controlled(data)
        } else {
            m.transmitted(addr, data)
        }
    }

    open spec fn irq_val(m: ConsoleState) -> (bool, bool, bool) {
        (false, false, m.irq_level() || m.irq_countdown > 0)
    }

    open spec fn irq_next(m: ConsoleState) -> ConsoleState {
        m.polled()
    }

    fn contains(&self, addr: u16) -> (r: bool) {
        addr == self.base || addr == offset_by(self.base, 1)
    }

    fn read8(&mut self, addr: u16) -> (data: u8) {
        if addr == self.base {
            let full: u8 = if self.rdrf {
                0x01
            } else {
                0
            };
            let empty: u8 = if self.tdre {
                0x02
            } else {
                0
            };
            let over: u8 = if self.rx_overrun {
                0x20
            } else {
                0
            };
            let irq: u8 = if self.irq_level() {
                0x80
            } else {
                0
            };
            full | empty | over | irq
        } else {
            let v: u8 = match self.rx.pop_front() {
                Some(b) => b,
                None => 0,
            };
            self.rdrf = self.rx.len() > 0;
            self.rx_overrun = false;
            proof {
                let m = old(self)@;
                if m.rx.len() > 0 {
                    assert(self.rx@ =~= m.rx.drop_first());
                }
            }
            if self.local_echo {
                self.port.push_stdout_byte(v);
            }
            v
        }
    }

    fn write8(&mut self, addr: u16, data: u8) {
        if addr == self.base {
            self.control(data);
        } else {
            self.transmit(addr, data);
        }
    }

    fn irq_lines(&mut self) -> (lines: (bool, bool, bool)) {
        if self.irq_level() {
            self.irq_countdown = self.irq_hold_cycles;
            (false, false, true)
        } else if self.irq_countdown > 0 {
            self.irq_countdown = self.irq_countdown - 1;
            (false, false, true)
        } else {
            (false, false, false)
        }
    }
}

impl<X: Device> Attach<X> for Mc6850Dev {
    open spec fn slotted(m: ConsoleState) -> SlotState<X::V> {
        SlotState::Console(m)
    }

    fn into_slot(self) -> (s: Slot<X>) {
        Slot::Console(self)
    }
}

} // verus!
