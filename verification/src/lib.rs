//! Driver for the ST7789V dot-matrix display controller, reachable over a
//! synchronous serial command/data bus.
//!
//! The driver translates high-level display operations (reset, power mode,
//! pixel addressing, pixel streaming, orientation and color-format
//! configuration) into the controller's fixed binary command protocol: one
//! opcode byte with the command-select signal asserted, optionally followed
//! by parameter bytes with the data-select signal asserted.
//!
//! The bus, pin and delay collaborators are abstracted by the traits in
//! [`interface`]; their contracts speak of ghost event histories, and every
//! operation of [`ST7789V`] states, over those histories, exactly which
//! bytes, signal edges and settle pauses it produces, and exactly which
//! error it returns when a step fails.

use vstd::prelude::*;

use core::marker::PhantomData;

pub mod command;
pub mod config;
pub mod interface;
pub mod mock;
pub mod wire;

pub use crate::command::Command;
pub use crate::config::ColorFormat;
pub use crate::config::ColorOrder;
pub use crate::config::ColumnAddressOrder;
pub use crate::config::LatchOrder;
pub use crate::config::LineAddressOrder;
pub use crate::config::MemAccCtrlConfig;
pub use crate::config::PageAddressOrder;
pub use crate::config::PageColumnOrder;
pub use crate::config::lemma_madctl_axis_isolation;
pub use crate::config::lemma_madctl_decomposition;
pub use crate::interface::Bus;
pub use crate::mock::BusFault;
pub use crate::mock::MockBus;
pub use crate::mock::MockDelay;
pub use crate::mock::MockPin;
pub use crate::mock::PinFault;
pub use crate::interface::Delay;
pub use crate::interface::OutPin;
pub use crate::interface::PinLevel;

use crate::wire::be16_bytes;
use crate::wire::address_bytes;
use crate::wire::dc_command;
use crate::wire::frames_command;
use crate::wire::frames_command_with;
use crate::wire::frames_column_address;
use crate::wire::frames_row_address;
use crate::wire::frames_address_window;
use crate::wire::frames_mem_write;
use crate::wire::dc_address_window;
use crate::wire::dc_pixel;
use crate::wire::dc_pixel_stream;
use crate::wire::frames_pixel;
use crate::wire::frames_pixel_stream;
use crate::wire::frames_colors;
use crate::wire::frames_init;
use crate::wire::dc_init;
use crate::wire::delays_init;
use crate::wire::be16;
use crate::wire::grew_by_prefix;
use crate::wire::lemma_grew_widen;
use crate::wire::lemma_prefix_extend;
use crate::wire::lemma_grew_all;
use crate::wire::lemma_grew_none;
use crate::wire::lemma_abort_step;

verus! {

/// Errors surfaced by the driver.
///
/// The first two are caller errors, detected before any bus traffic; the
/// last two wrap a collaborator failure and are propagated verbatim.
#[derive(Debug)]
pub enum Error<PinError, SpiError> {
    /// Invalid column address: start greater than end.
    InvalidColumnAddress,
    /// Invalid row address: start greater than end.
    InvalidRowAddress,
    /// A pin could not be driven.
    Pin(PinError),
    /// A bus write failed.
    Spi(SpiError),
}

/// ST7789V display driver config: the pin bundle the driver signals with.
pub struct ST7789VConfig<CS, DC, RST> where CS: OutPin, DC: OutPin, RST: OutPin {
    /// Chip Select pin
    cs: Option<CS>,
    /// Data/Command pin
    dc: DC,
    /// Reset pin
    rst: RST,
}

impl<CS, DC, RST> ST7789VConfig<CS, DC, RST> where CS: OutPin, DC: OutPin, RST: OutPin {
    /// Levels driven on the data/command select pin so far.
    pub closed spec fn dc_log(self) -> Seq<PinLevel> {
        self.dc.levels()
    }

    /// Levels driven on the reset pin so far.
    pub closed spec fn rst_log(self) -> Seq<PinLevel> {
        self.rst.levels()
    }

    /// Whether a chip-select pin is part of the bundle.
    pub closed spec fn has_cs(self) -> bool {
        self.cs is Some
    }

    /// Levels driven on the chip-select pin so far; empty when there is none.
    pub closed spec fn cs_log(self) -> Seq<PinLevel> {
        match self.cs {
            Option::Some(p) => p.levels(),
            Option::None => Seq::empty(),
        }
    }

    /// Create a new display config.
    pub fn new(dc: DC, rst: RST) -> (r: Self)
        ensures
            r.dc_log() == dc.levels(),
            r.rst_log() == rst.levels(),
            !r.has_cs(),
            r.cs_log() == Seq::<PinLevel>::empty(),
    {
        ST7789VConfig { cs: None, dc, rst }
    }

    /// Create a new display config with chip select pin.
    pub fn with_cs(cs: CS, dc: DC, rst: RST) -> (r: Self)
        ensures
            r.dc_log() == dc.levels(),
            r.rst_log() == rst.levels(),
            r.has_cs(),
            r.cs_log() == cs.levels(),
    {
        ST7789VConfig { cs: Some(cs), dc, rst }
    }

    /// Release the data/command and reset pin.
    pub fn release(self) -> (r: (DC, RST))
        ensures
            r.0.levels() == self.dc_log(),
            r.1.levels() == self.rst_log(),
    {
        (self.dc, self.rst)
    }
}

/// ST7789V display driver.
///
/// Owns the bus and the pin bundle exclusively for its lifetime. Every
/// operation issues its command phase, then its data phase, back-to-back,
/// and aborts on the first collaborator failure.
pub struct ST7789V<SPI, CS, DC, RST, PinError, SpiError> where
    SPI: Bus,
    CS: OutPin,
    DC: OutPin,
    RST: OutPin,
 {
    /// SPI
    spi: SPI,
    /// Config
    cfg: ST7789VConfig<CS, DC, RST>,
    _pin_err: PhantomData<PinError>,
    _spi_err: PhantomData<SpiError>,
}

impl<SPI, CS, DC, RST, PinError, SpiError> ST7789V<SPI, CS, DC, RST, PinError, SpiError> where
    SPI: Bus<Error = SpiError>,
    CS: OutPin<Error = PinError>,
    DC: OutPin<Error = PinError>,
    RST: OutPin<Error = PinError>,
 {
    /// Byte sequences written on the bus so far, oldest first.
    pub closed spec fn bus_log(self) -> Seq<Seq<u8>> {
        self.spi.writes()
    }

    /// Levels driven on the data/command select pin so far.
    pub closed spec fn dc_log(self) -> Seq<PinLevel> {
        self.cfg.dc_log()
    }

    /// Levels driven on the reset pin so far.
    pub closed spec fn rst_log(self) -> Seq<PinLevel> {
        self.cfg.rst_log()
    }

    /// Whether the driver holds a chip-select pin.
    pub closed spec fn has_cs(self) -> bool {
        self.cfg.has_cs()
    }

    /// Levels driven on the chip-select pin so far; empty when there is none.
    pub closed spec fn cs_log(self) -> Seq<PinLevel> {
        self.cfg.cs_log()
    }

    /// The pin state an operation must leave untouched: everything but the
    /// data/command select pin.
    pub open spec fn same_aux_pins(pre: Self, post: Self) -> bool {
        post.rst_log() == pre.rst_log() && post.cs_log() == pre.cs_log() && post.has_cs()
            == pre.has_cs()
    }

    /// Creates a new display instance.
    pub fn new(spi: SPI, dc: DC, rst: RST) -> (r: Self)
        ensures
            r.bus_log() == spi.writes(),
            r.dc_log() == dc.levels(),
            r.rst_log() == rst.levels(),
            !r.has_cs(),
            r.cs_log() == Seq::<PinLevel>::empty(),
    {
        ST7789V {
            spi,
            cfg: ST7789VConfig::new(dc, rst),
            _pin_err: PhantomData,
            _spi_err: PhantomData,
        }
    }

    /// Creates a new display instance with chip select pin, asserting
    /// (lowering) chip select before any traffic.
    pub fn with_cs(spi: SPI, cs: CS, dc: DC, rst: RST) -> (r: Result<
        Self,
        Error<PinError, SpiError>,
    >)
        ensures
            r matches Ok(d) ==> d.bus_log() == spi.writes() && d.dc_log() == dc.levels()
                && d.rst_log() == rst.levels() && d.has_cs() && d.cs_log() == cs.levels().push(
                PinLevel::Low,
            ),
            r is Err ==> (r matches Err(Error::Pin(_))),
    {
        let mut cs = cs;
        match cs.set_low() {
            Ok(()) => {}
            Err(e) => {
                return Err(Error::Pin(e));
            }
        }
        let cfg = ST7789VConfig::with_cs(cs, dc, rst);
        Ok(ST7789V { spi, cfg, _pin_err: PhantomData, _spi_err: PhantomData })
    }

    /// Creates a new display instance using a previously built display
    /// config, asserting (lowering) chip select if the config carries one.
    pub fn with_config(spi: SPI, cfg: ST7789VConfig<CS, DC, RST>) -> (r: Result<
        Self,
        Error<PinError, SpiError>,
    >)
        ensures
            r matches Ok(d) ==> d.bus_log() == spi.writes() && d.dc_log() == cfg.dc_log()
                && d.rst_log() == cfg.rst_log() && d.has_cs() == cfg.has_cs() && d.cs_log() == (
            if cfg.has_cs() {
                cfg.cs_log().push(PinLevel::Low)
            } else {
                cfg.cs_log()
            }),
            r is Err ==> (r matches Err(Error::Pin(_))) && cfg.has_cs(),
    {
        let mut cfg = cfg;
        match cfg.cs.as_mut() {
            Some(cs) => {
                match cs.set_low() {
                    Ok(()) => {}
                    Err(e) => {
                        return Err(Error::Pin(e));
                    }
                }
            }
            None => {}
        }
        Ok(ST7789V { spi, cfg, _pin_err: PhantomData, _spi_err: PhantomData })
    }

    /// Release the SPI bus and display config. This also raises the chip
    /// select pin back to its idle level, if one is held.
    pub fn release(self) -> (r: Result<
        (SPI, ST7789VConfig<CS, DC, RST>),
        Error<PinError, SpiError>,
    >)
        ensures
            r matches Ok(out) ==> out.0.writes() == self.bus_log() && out.1.dc_log()
                == self.dc_log() && out.1.rst_log() == self.rst_log() && out.1.has_cs()
                == self.has_cs() && out.1.cs_log() == (if self.has_cs() {
                self.cs_log().push(PinLevel::High)
            } else {
                self.cs_log()
            }),
            r is Err ==> (r matches Err(Error::Pin(_))) && self.has_cs(),
    {
        let mut cfg = self.cfg;
        match cfg.cs.as_mut() {
            Some(cs) => {
                match cs.set_high() {
                    Ok(()) => {}
                    Err(e) => {
                        return Err(Error::Pin(e));
                    }
                }
            }
            None => {}
        }
        Ok((self.spi, cfg))
    }

    /// Frame one command: assert command-select and write the opcode byte;
    /// if parameters are present, assert data-select and write them.
    fn command(&mut self, cmd: Command, params: Option<&[u8]>) -> (r: Result<
        (),
        Error<PinError, SpiError>,
    >)
        ensures
            r is Ok ==> final(self).bus_log() == old(self).bus_log() + (match params {
                Option::Some(p) => frames_command_with(cmd.spec_value(), p@),
                Option::None => frames_command(cmd.spec_value()),
            }),
            r is Ok ==> final(self).dc_log() == old(self).dc_log() + dc_command(params is Some),
            r is Err ==> (r matches Err(Error::Pin(_)) || r matches Err(Error::Spi(_))),
            r is Err ==> grew_by_prefix(
                old(self).bus_log(),
                final(self).bus_log(),
                match params {
                    Option::Some(p) => frames_command_with(cmd.spec_value(), p@),
                    Option::None => frames_command(cmd.spec_value()),
                },
            ),
            r is Err ==> grew_by_prefix(
                old(self).dc_log(),
                final(self).dc_log(),
                dc_command(params is Some),
            ),
            Self::same_aux_pins(*old(self), *final(self)),
    {
        proof {
            lemma_grew_none(
                old(self).bus_log(),
                match params {
                    Option::Some(p) => frames_command_with(cmd.spec_value(), p@),
                    Option::None => frames_command(cmd.spec_value()),
                },
            );
            lemma_grew_none(old(self).dc_log(), dc_command(params is Some));
        }
        match self.cfg.dc.set_low() {
            Ok(()) => {}
            Err(e) => {
                return Err(Error::Pin(e));
            }
        }
        let op: [u8; 1] = [cmd.value()];
        proof {
            assert(op@ =~= seq![cmd.spec_value()]);
        }
        match self.spi.write(op.as_slice()) {
            Ok(()) => {}
            Err(e) => {
                proof {
                    assert(self.dc_log() =~= (old(self).dc_log() + dc_command(
                        params is Some,
                    )).subrange(0, self.dc_log().len() as int));
                }
                return Err(Error::Spi(e));
            }
        }
        proof {
            assert(self.bus_log() =~= old(self).bus_log() + frames_command(cmd.spec_value()));
            assert(self.dc_log() =~= old(self).dc_log() + seq![PinLevel::Low]);
        }
        match params {
            Some(p) => {
                let ghost mid = *self;
                match self.data(p) {
                    Ok(()) => {
                        proof {
                            assert(self.bus_log() =~= old(self).bus_log() + frames_command_with(
                                cmd.spec_value(),
                                p@,
                            ));
                            assert(self.dc_log() =~= old(self).dc_log() + dc_command(true));
                        }
                        Ok(())
                    }
                    Err(e) => {
                        proof {
                            assert(mid.bus_log() == old(self).bus_log() + frames_command(
                                cmd.spec_value(),
                            ));
                            assert(mid.dc_log() == old(self).dc_log() + seq![PinLevel::Low]);
                            assert(frames_command(cmd.spec_value()) + seq![p@]
                                =~= frames_command_with(cmd.spec_value(), p@));
                            crate::wire::lemma_prefix_refl(frames_command_with(cmd.spec_value(), p@));
                            assert(seq![PinLevel::Low] + seq![PinLevel::High] =~= dc_command(true));
                            crate::wire::lemma_prefix_refl(dc_command(true));
                            lemma_abort_step(
                                old(self).bus_log(),
                                mid.bus_log(),
                                self.bus_log(),
                                frames_command(cmd.spec_value()),
                                seq![p@],
                                frames_command_with(cmd.spec_value(), p@),
                            );
                            lemma_abort_step(
                                old(self).dc_log(),
                                mid.dc_log(),
                                self.dc_log(),
                                seq![PinLevel::Low],
                                seq![PinLevel::High],
                                dc_command(true),
                            );
                        }
                        Err(e)
                    }
                }
            }
            None => {
                Ok(())
            }
        }
    }

    /// Frame one data phase: assert data-select and write the bytes.
    fn data(&mut self, data: &[u8]) -> (r: Result<(), Error<PinError, SpiError>>)
        ensures
            r is Ok ==> final(self).bus_log() == old(self).bus_log().push(data@),
            r is Ok ==> final(self).dc_log() == old(self).dc_log().push(PinLevel::High),
            r is Err ==> (r matches Err(Error::Pin(_)) || r matches Err(Error::Spi(_))),
            r is Err ==> final(self).bus_log() == old(self).bus_log(),
            r is Err ==> grew_by_prefix(
                old(self).dc_log(),
                final(self).dc_log(),
                seq![PinLevel::High],
            ),
            Self::same_aux_pins(*old(self), *final(self)),
    {
        proof {
            lemma_grew_none(old(self).dc_log(), seq![PinLevel::High]);
        }
        match self.cfg.dc.set_high() {
            Ok(()) => {}
            Err(e) => {
                return Err(Error::Pin(e));
            }
        }
        proof {
            assert(self.dc_log() =~= old(self).dc_log() + seq![PinLevel::High]);
            lemma_grew_all(old(self).dc_log(), self.dc_log(), seq![PinLevel::High]);
        }
        match self.spi.write(data) {
            Ok(()) => {}
            Err(e) => {
                return Err(Error::Spi(e));
            }
        }
        Ok(())
    }


    /// The display module performs a software reset, then waits 150 ms for
    /// registers to take their reset defaults. Frame memory is unaffected.
    pub fn soft_reset<DELAY: Delay>(&mut self, delay: &mut DELAY) -> (r: Result<
        (),
        Error<PinError, SpiError>,
    >)
        ensures
            r is Ok ==> final(self).bus_log() == old(self).bus_log() + frames_command(
                Command::SWRESET.spec_value(),
            ),
            r is Ok ==> final(self).dc_log() == old(self).dc_log() + dc_command(false),
            r is Ok ==> final(delay).delays() == old(delay).delays().push(150u16),
            r is Err ==> final(delay).delays() == old(delay).delays(),
            r is Err ==> (r matches Err(Error::Pin(_)) || r matches Err(Error::Spi(_))),
            r is Err ==> grew_by_prefix(
                old(self).bus_log(),
                final(self).bus_log(),
                frames_command(Command::SWRESET.spec_value()),
            ),
            r is Err ==> grew_by_prefix(old(self).dc_log(), final(self).dc_log(), dc_command(false)),
            Self::same_aux_pins(*old(self), *final(self)),
    {
        self.command(Command::SWRESET, None)?;
        delay.delay_ms(150);
        Ok(())
    }

    /// Put the LCD module into minimum power consumption mode, then wait
    /// 5 ms. The MCU interface and memory keep working and the memory keeps
    /// its contents.
    pub fn sleep_in<DELAY: Delay>(&mut self, delay: &mut DELAY) -> (r: Result<
        (),
        Error<PinError, SpiError>,
    >)
        ensures
            r is Ok ==> final(self).bus_log() == old(self).bus_log() + frames_command(
                Command::SLPIN.spec_value(),
            ),
            r is Ok ==> final(self).dc_log() == old(self).dc_log() + dc_command(false),
            r is Ok ==> final(delay).delays() == old(delay).delays().push(5u16),
            r is Err ==> final(delay).delays() == old(delay).delays(),
            r is Err ==> (r matches Err(Error::Pin(_)) || r matches Err(Error::Spi(_))),
            r is Err ==> grew_by_prefix(
                old(self).bus_log(),
                final(self).bus_log(),
                frames_command(Command::SLPIN.spec_value()),
            ),
            r is Err ==> grew_by_prefix(old(self).dc_log(), final(self).dc_log(), dc_command(false)),
            Self::same_aux_pins(*old(self), *final(self)),
    {
        self.command(Command::SLPIN, None)?;
        delay.delay_ms(5);
        Ok(())
    }

    /// Leave sleep mode: the DC/DC converter, internal display oscillator
    /// and panel scanning are started. Waits the mandatory 500 ms.
    pub fn sleep_out<DELAY: Delay>(&mut self, delay: &mut DELAY) -> (r: Result<
        (),
        Error<PinError, SpiError>,
    >)
        ensures
            r is Ok ==> final(self).bus_log() == old(self).bus_log() + frames_command(
                Command::SLPOUT.spec_value(),
            ),
            r is Ok ==> final(self).dc_log() == old(self).dc_log() + dc_command(false),
            r is Ok ==> final(delay).delays() == old(delay).delays().push(500u16),
            r is Err ==> final(delay).delays() == old(delay).delays(),
            r is Err ==> (r matches Err(Error::Pin(_)) || r matches Err(Error::Spi(_))),
            r is Err ==> grew_by_prefix(
                old(self).bus_log(),
                final(self).bus_log(),
                frames_command(Command::SLPOUT.spec_value()),
            ),
            r is Err ==> grew_by_prefix(old(self).dc_log(), final(self).dc_log(), dc_command(false)),
            Self::same_aux_pins(*old(self), *final(self)),
    {
        self.command(Command::SLPOUT, None)?;
        delay.delay_ms(500);
        Ok(())
    }

    /// Leave normal mode and enter partial mode.
    pub fn partial_display_mode(&mut self) -> (r: Result<(), Error<PinError, SpiError>>)
        ensures
            r is Ok ==> final(self).bus_log() == old(self).bus_log() + frames_command(
                Command::PTLON.spec_value(),
            ),
            r is Ok ==> final(self).dc_log() == old(self).dc_log() + dc_command(false),
            r is Err ==> (r matches Err(Error::Pin(_)) || r matches Err(Error::Spi(_))),
            r is Err ==> grew_by_prefix(
                old(self).bus_log(),
                final(self).bus_log(),
                frames_command(Command::PTLON.spec_value()),
            ),
            r is Err ==> grew_by_prefix(old(self).dc_log(), final(self).dc_log(), dc_command(false)),
            Self::same_aux_pins(*old(self), *final(self)),
    {
        self.command(Command::PTLON, None)?;
        Ok(())
    }

    /// Leave partial mode and enter normal mode.
    pub fn normal_mode(&mut self) -> (r: Result<(), Error<PinError, SpiError>>)
        ensures
            r is Ok ==> final(self).bus_log() == old(self).bus_log() + frames_command(
                Command::NORON.spec_value(),
            ),
            r is Ok ==> final(self).dc_log() == old(self).dc_log() + dc_command(false),
            r is Err ==> (r matches Err(Error::Pin(_)) || r matches Err(Error::Spi(_))),
            r is Err ==> grew_by_prefix(
                old(self).bus_log(),
                final(self).bus_log(),
                frames_command(Command::NORON.spec_value()),
            ),
            r is Err ==> grew_by_prefix(old(self).dc_log(), final(self).dc_log(), dc_command(false)),
            Self::same_aux_pins(*old(self), *final(self)),
    {
        self.command(Command::NORON, None)?;
        Ok(())
    }

    /// Display inversion off.
    pub fn inversion_off(&mut self) -> (r: Result<(), Error<PinError, SpiError>>)
        ensures
            r is Ok ==> final(self).bus_log() == old(self).bus_log() + frames_command(
                Command::INVOFF.spec_value(),
            ),
            r is Ok ==> final(self).dc_log() == old(self).dc_log() + dc_command(false),
            r is Err ==> (r matches Err(Error::Pin(_)) || r matches Err(Error::Spi(_))),
            r is Err ==> grew_by_prefix(
                old(self).bus_log(),
                final(self).bus_log(),
                frames_command(Command::INVOFF.spec_value()),
            ),
            r is Err ==> grew_by_prefix(old(self).dc_log(), final(self).dc_log(), dc_command(false)),
            Self::same_aux_pins(*old(self), *final(self)),
    {
        self.command(Command::INVOFF, None)?;
        Ok(())
    }

    /// Display inversion on.
    pub fn inversion_on(&mut self) -> (r: Result<(), Error<PinError, SpiError>>)
        ensures
            r is Ok ==> final(self).bus_log() == old(self).bus_log() + frames_command(
                Command::INVON.spec_value(),
            ),
            r is Ok ==> final(self).dc_log() == old(self).dc_log() + dc_command(false),
            r is Err ==> (r matches Err(Error::Pin(_)) || r matches Err(Error::Spi(_))),
            r is Err ==> grew_by_prefix(
                old(self).bus_log(),
                final(self).bus_log(),
                frames_command(Command::INVON.spec_value()),
            ),
            r is Err ==> grew_by_prefix(old(self).dc_log(), final(self).dc_log(), dc_command(false)),
            Self::same_aux_pins(*old(self), *final(self)),
    {
        self.command(Command::INVON, None)?;
        Ok(())
    }

    /// Enter DISPLAY OFF mode: the output from frame memory is disabled and
    /// a blank page is inserted. Frame memory contents are unchanged.
    pub fn display_off(&mut self) -> (r: Result<(), Error<PinError, SpiError>>)
        ensures
            r is Ok ==> final(self).bus_log() == old(self).bus_log() + frames_command(
                Command::DISPOFF.spec_value(),
            ),
            r is Ok ==> final(self).dc_log() == old(self).dc_log() + dc_command(false),
            r is Err ==> (r matches Err(Error::Pin(_)) || r matches Err(Error::Spi(_))),
            r is Err ==> grew_by_prefix(
                old(self).bus_log(),
                final(self).bus_log(),
                frames_command(Command::DISPOFF.spec_value()),
            ),
            r is Err ==> grew_by_prefix(old(self).dc_log(), final(self).dc_log(), dc_command(false)),
            Self::same_aux_pins(*old(self), *final(self)),
    {
        self.command(Command::DISPOFF, None)?;
        Ok(())
    }

    /// Enter DISPLAY ON mode: the output from the frame memory is enabled.
    /// Frame memory contents are unchanged.
    pub fn display_on(&mut self) -> (r: Result<(), Error<PinError, SpiError>>)
        ensures
            r is Ok ==> final(self).bus_log() == old(self).bus_log() + frames_command(
                Command::DISPON.spec_value(),
            ),
            r is Ok ==> final(self).dc_log() == old(self).dc_log() + dc_command(false),
            r is Err ==> (r matches Err(Error::Pin(_)) || r matches Err(Error::Spi(_))),
            r is Err ==> grew_by_prefix(
                old(self).bus_log(),
                final(self).bus_log(),
                frames_command(Command::DISPON.spec_value()),
            ),
            r is Err ==> grew_by_prefix(old(self).dc_log(), final(self).dc_log(), dc_command(false)),
            Self::same_aux_pins(*old(self), *final(self)),
    {
        self.command(Command::DISPON, None)?;
        Ok(())
    }

    /// Idle mode off.
    pub fn idle_off(&mut self) -> (r: Result<(), Error<PinError, SpiError>>)
        ensures
            r is Ok ==> final(self).bus_log() == old(self).bus_log() + frames_command(
                Command::IDMOFF.spec_value(),
            ),
            r is Ok ==> final(self).dc_log() == old(self).dc_log() + dc_command(false),
            r is Err ==> (r matches Err(Error::Pin(_)) || r matches Err(Error::Spi(_))),
            r is Err ==> grew_by_prefix(
                old(self).bus_log(),
                final(self).bus_log(),
                frames_command(Command::IDMOFF.spec_value()),
            ),
            r is Err ==> grew_by_prefix(old(self).dc_log(), final(self).dc_log(), dc_command(false)),
            Self::same_aux_pins(*old(self), *final(self)),
    {
        self.command(Command::IDMOFF, None)?;
        Ok(())
    }

    /// Idle mode on.
    pub fn idle_on(&mut self) -> (r: Result<(), Error<PinError, SpiError>>)
        ensures
            r is Ok ==> final(self).bus_log() == old(self).bus_log() + frames_command(
                Command::IDMON.spec_value(),
            ),
            r is Ok ==> final(self).dc_log() == old(self).dc_log() + dc_command(false),
            r is Err ==> (r matches Err(Error::Pin(_)) || r matches Err(Error::Spi(_))),
            r is Err ==> grew_by_prefix(
                old(self).bus_log(),
                final(self).bus_log(),
                frames_command(Command::IDMON.spec_value()),
            ),
            r is Err ==> grew_by_prefix(old(self).dc_log(), final(self).dc_log(), dc_command(false)),
            Self::same_aux_pins(*old(self), *final(self)),
    {
        self.command(Command::IDMON, None)?;
        Ok(())
    }

    /// Set the RGB interface and control interface color format, then wait
    /// 10 ms for the format to settle.
    pub fn color_mode<DELAY: Delay>(&mut self, color_format: ColorFormat, delay: &mut DELAY) -> (r:
        Result<(), Error<PinError, SpiError>>)
        ensures
            r is Ok ==> final(self).bus_log() == old(self).bus_log() + frames_command_with(
                Command::COLMOD.spec_value(),
                seq![color_format.spec_value()],
            ),
            r is Ok ==> final(self).dc_log() == old(self).dc_log() + dc_command(true),
            r is Ok ==> final(delay).delays() == old(delay).delays().push(10u16),
            r is Err ==> final(delay).delays() == old(delay).delays(),
            r is Err ==> (r matches Err(Error::Pin(_)) || r matches Err(Error::Spi(_))),
            r is Err ==> grew_by_prefix(
                old(self).bus_log(),
                final(self).bus_log(),
                frames_command_with(Command::COLMOD.spec_value(), seq![color_format.spec_value()]),
            ),
            r is Err ==> grew_by_prefix(old(self).dc_log(), final(self).dc_log(), dc_command(true)),
            Self::same_aux_pins(*old(self), *final(self)),
    {
        let p: [u8; 1] = [color_format.value()];
        proof {
            assert(p@ =~= seq![color_format.spec_value()]);
        }
        self.command(Command::COLMOD, Some(p.as_slice()))?;
        delay.delay_ms(10);
        Ok(())
    }

    /// Define the read/write scanning direction of the frame memory: send
    /// the composite orientation byte as the MADCTL parameter.
    pub fn memory_access_control(&mut self, config: MemAccCtrlConfig) -> (r: Result<
        (),
        Error<PinError, SpiError>,
    >)
        ensures
            r is Ok ==> final(self).bus_log() == old(self).bus_log() + frames_command_with(
                Command::MADCTL.spec_value(),
                seq![config.spec_value()],
            ),
            r is Ok ==> final(self).dc_log() == old(self).dc_log() + dc_command(true),
            r is Err ==> (r matches Err(Error::Pin(_)) || r matches Err(Error::Spi(_))),
            r is Err ==> grew_by_prefix(
                old(self).bus_log(),
                final(self).bus_log(),
                frames_command_with(Command::MADCTL.spec_value(), seq![config.spec_value()]),
            ),
            r is Err ==> grew_by_prefix(old(self).dc_log(), final(self).dc_log(), dc_command(true)),
            Self::same_aux_pins(*old(self), *final(self)),
    {
        let p: [u8; 1] = [config.value()];
        proof {
            assert(p@ =~= seq![config.spec_value()]);
        }
        self.command(Command::MADCTL, Some(p.as_slice()))?;
        Ok(())
    }

    /// Sets the column address window. Each value represents one column line
    /// in the frame memory.
    ///
    /// Validates `xs <= xe` before any traffic: on violation the call fails
    /// with `InvalidColumnAddress` and emits nothing. Otherwise it frames
    /// the CASET command carrying the big-endian start and end columns as
    /// four parameter bytes.
    pub fn column_address(&mut self, xs: u16, xe: u16) -> (r: Result<(), Error<PinError, SpiError>>)
        ensures
            (r matches Err(Error::InvalidColumnAddress)) <==> xs > xe,
            !(r matches Err(Error::InvalidRowAddress)),
            xs > xe ==> *final(self) == *old(self),
            r is Ok ==> final(self).bus_log() == old(self).bus_log() + frames_column_address(
                xs,
                xe,
            ),
            r is Ok ==> final(self).dc_log() == old(self).dc_log() + dc_command(true),
            (r matches Err(Error::Pin(_)) || r matches Err(Error::Spi(_))) ==> grew_by_prefix(
                old(self).bus_log(),
                final(self).bus_log(),
                frames_column_address(xs, xe),
            ) && grew_by_prefix(old(self).dc_log(), final(self).dc_log(), dc_command(true)),
            Self::same_aux_pins(*old(self), *final(self)),
    {
        if xs > xe {
            return Err(Error::InvalidColumnAddress);
        }
        let p: [u8; 4] = address_bytes(xs, xe);
        self.command(Command::CASET, Some(p.as_slice()))?;
        Ok(())
    }

    /// Sets the row address window. Each value represents one page line in
    /// the frame memory.
    ///
    /// Validates `rs <= re` before any traffic: on violation the call fails
    /// with `InvalidRowAddress` and emits nothing. Otherwise it frames the
    /// RASET command carrying the big-endian start and end rows as four
    /// parameter bytes.
    pub fn row_address(&mut self, rs: u16, re: u16) -> (r: Result<(), Error<PinError, SpiError>>)
        ensures
            (r matches Err(Error::InvalidRowAddress)) <==> rs > re,
            !(r matches Err(Error::InvalidColumnAddress)),
            rs > re ==> *final(self) == *old(self),
            r is Ok ==> final(self).bus_log() == old(self).bus_log() + frames_row_address(rs, re),
            r is Ok ==> final(self).dc_log() == old(self).dc_log() + dc_command(true),
            (r matches Err(Error::Pin(_)) || r matches Err(Error::Spi(_))) ==> grew_by_prefix(
                old(self).bus_log(),
                final(self).bus_log(),
                frames_row_address(rs, re),
            ) && grew_by_prefix(old(self).dc_log(), final(self).dc_log(), dc_command(true)),
            Self::same_aux_pins(*old(self), *final(self)),
    {
        if rs > re {
            return Err(Error::InvalidRowAddress);
        }
        let p: [u8; 4] = address_bytes(rs, re);
        self.command(Command::RASET, Some(p.as_slice()))?;
        Ok(())
    }

    /// Sets the address window: column window first, then row window. If
    /// either leg fails, the whole operation fails and no further bytes are
    /// sent.
    pub fn address_window(&mut self, xs: u16, rs: u16, xe: u16, re: u16) -> (r: Result<
        (),
        Error<PinError, SpiError>,
    >)
        ensures
            (r matches Err(Error::InvalidColumnAddress)) <==> xs > xe,
            (r matches Err(Error::InvalidRowAddress)) ==> xs <= xe && rs > re,
            xs <= xe && rs > re ==> r is Err,
            r is Ok ==> xs <= xe && rs <= re,
            xs > xe ==> *final(self) == *old(self),
            (r matches Err(Error::InvalidRowAddress)) ==> final(self).bus_log() == old(
                self,
            ).bus_log() + frames_column_address(xs, xe) && final(self).dc_log() == old(
                self,
            ).dc_log() + dc_command(true),
            r is Ok ==> final(self).bus_log() == old(self).bus_log() + frames_address_window(
                xs,
                rs,
                xe,
                re,
            ),
            r is Ok ==> final(self).dc_log() == old(self).dc_log() + dc_address_window(),
            (r matches Err(Error::Pin(_)) || r matches Err(Error::Spi(_))) ==> grew_by_prefix(
                old(self).bus_log(),
                final(self).bus_log(),
                frames_address_window(xs, rs, xe, re),
            ) && grew_by_prefix(old(self).dc_log(), final(self).dc_log(), dc_address_window()),
            Self::same_aux_pins(*old(self), *final(self)),
    {
        let ghost pre = *self;
        match self.column_address(xs, xe) {
            Ok(()) => {}
            Err(e) => {
                proof {
                    if xs <= xe {
                        lemma_prefix_extend(frames_column_address(xs, xe), frames_row_address(rs, re));
                        lemma_grew_widen(
                            pre.bus_log(),
                            self.bus_log(),
                            frames_column_address(xs, xe),
                            frames_address_window(xs, rs, xe, re),
                        );
                        lemma_prefix_extend(dc_command(true), dc_command(true));
                        lemma_grew_widen(
                            pre.dc_log(),
                            self.dc_log(),
                            dc_command(true),
                            dc_address_window(),
                        );
                    }
                }
                return Err(e);
            }
        }
        let ghost mid = *self;
        match self.row_address(rs, re) {
            Ok(()) => {}
            Err(e) => {
                proof {
                    if rs <= re {
                        crate::wire::lemma_prefix_refl(frames_address_window(xs, rs, xe, re));
                        lemma_abort_step(
                            pre.bus_log(),
                            mid.bus_log(),
                            self.bus_log(),
                            frames_column_address(xs, xe),
                            frames_row_address(rs, re),
                            frames_address_window(xs, rs, xe, re),
                        );
                        crate::wire::lemma_prefix_refl(dc_address_window());
                        lemma_abort_step(
                            pre.dc_log(),
                            mid.dc_log(),
                            self.dc_log(),
                            dc_command(true),
                            dc_command(true),
                            dc_address_window(),
                        );
                    }
                }
                return Err(e);
            }
        }
        proof {
            assert(self.bus_log() =~= pre.bus_log() + frames_address_window(xs, rs, xe, re));
            assert(self.dc_log() =~= pre.dc_log() + dc_address_window());
        }
        Ok(())
    }

    /// Transfer data from the MCU to the frame memory: a RAMWR command with
    /// the given bytes as its data phase.
    pub fn mem_write(&mut self, data: &[u8]) -> (r: Result<(), Error<PinError, SpiError>>)
        ensures
            r is Ok ==> final(self).bus_log() == old(self).bus_log() + frames_mem_write(data@),
            r is Ok ==> final(self).dc_log() == old(self).dc_log() + dc_command(true),
            r is Err ==> (r matches Err(Error::Pin(_)) || r matches Err(Error::Spi(_))),
            r is Err ==> grew_by_prefix(
                old(self).bus_log(),
                final(self).bus_log(),
                frames_mem_write(data@),
            ),
            r is Err ==> grew_by_prefix(old(self).dc_log(), final(self).dc_log(), dc_command(true)),
            Self::same_aux_pins(*old(self), *final(self)),
    {
        self.command(Command::RAMWR, Some(data))?;
        Ok(())
    }


    /// Sets a single pixel to the given color: a one-pixel address window at
    /// (x, y), then a memory write whose sole data payload is the color's
    /// two big-endian bytes.
    pub fn pixel(&mut self, x: u16, y: u16, color: u16) -> (r: Result<(), Error<PinError, SpiError>>)
        ensures
            r is Ok ==> final(self).bus_log() == old(self).bus_log() + (frames_address_window(
                x,
                y,
                x,
                y,
            ) + frames_mem_write(be16(color))),
            r is Ok ==> final(self).dc_log() == old(self).dc_log() + (dc_address_window()
                + dc_command(true)),
            r is Err ==> (r matches Err(Error::Pin(_)) || r matches Err(Error::Spi(_))),
            r is Err ==> grew_by_prefix(
                old(self).bus_log(),
                final(self).bus_log(),
                frames_pixel(x, y, color),
            ),
            r is Err ==> grew_by_prefix(old(self).dc_log(), final(self).dc_log(), dc_pixel()),
            Self::same_aux_pins(*old(self), *final(self)),
    {
        let ghost pre = *self;
        match self.address_window(x, y, x, y) {
            Ok(()) => {}
            Err(e) => {
                proof {
                    lemma_prefix_extend(frames_address_window(x, y, x, y), frames_mem_write(be16(color)));
                    lemma_grew_widen(
                        pre.bus_log(),
                        self.bus_log(),
                        frames_address_window(x, y, x, y),
                        frames_pixel(x, y, color),
                    );
                    lemma_prefix_extend(dc_address_window(), dc_command(true));
                    lemma_grew_widen(pre.dc_log(), self.dc_log(), dc_address_window(), dc_pixel());
                }
                return Err(e);
            }
        }
        let ghost mid = *self;
        let p: [u8; 2] = be16_bytes(color);
        match self.mem_write(p.as_slice()) {
            Ok(()) => {
                proof {
                    assert(self.bus_log() =~= pre.bus_log() + (frames_address_window(x, y, x, y)
                        + frames_mem_write(be16(color))));
                    assert(self.dc_log() =~= pre.dc_log() + (dc_address_window() + dc_command(
                        true,
                    )));
                }
                Ok(())
            }
            Err(e) => {
                proof {
                    crate::wire::lemma_prefix_refl(frames_pixel(x, y, color));
                    lemma_abort_step(
                        pre.bus_log(),
                        mid.bus_log(),
                        self.bus_log(),
                        frames_address_window(x, y, x, y),
                        frames_mem_write(be16(color)),
                        frames_pixel(x, y, color),
                    );
                    crate::wire::lemma_prefix_refl(dc_pixel());
                    lemma_abort_step(
                        pre.dc_log(),
                        mid.dc_log(),
                        self.dc_log(),
                        dc_address_window(),
                        dc_command(true),
                        dc_pixel(),
                    );
                }
                Err(e)
            }
        }
    }

    /// Streams pixel colors into the given rectangular window: sets the
    /// address window, opens a memory-write transaction with empty
    /// parameters, then sends each color's two big-endian bytes as one data
    /// phase per color, in input order.
    ///
    /// The colors are expected in row-major order matching the rectangle;
    /// their count is the caller's contract and is not validated here. A
    /// mid-stream failure aborts the remainder and leaves controller-side
    /// addressing state unspecified.
    pub fn pixels(&mut self, xs: u16, ys: u16, xe: u16, ye: u16, colors: &[u16]) -> (r: Result<
        (),
        Error<PinError, SpiError>,
    >)
        ensures
            (r matches Err(Error::InvalidColumnAddress)) <==> xs > xe,
            (r matches Err(Error::InvalidRowAddress)) ==> xs <= xe && ys > ye,
            xs <= xe && ys > ye ==> r is Err,
            r is Ok ==> xs <= xe && ys <= ye,
            xs > xe ==> *final(self) == *old(self),
            (r matches Err(Error::InvalidRowAddress)) ==> final(self).bus_log() == old(
                self,
            ).bus_log() + frames_column_address(xs, xe) && final(self).dc_log() == old(
                self,
            ).dc_log() + dc_command(true),
            r is Ok ==> final(self).bus_log() == old(self).bus_log() + frames_pixel_stream(
                xs,
                ys,
                xe,
                ye,
                colors@,
            ),
            r is Ok ==> final(self).dc_log() == old(self).dc_log() + dc_pixel_stream(
                colors@.len(),
            ),
            (r matches Err(Error::Pin(_)) || r matches Err(Error::Spi(_))) ==> grew_by_prefix(
                old(self).bus_log(),
                final(self).bus_log(),
                frames_pixel_stream(xs, ys, xe, ye, colors@),
            ) && grew_by_prefix(
                old(self).dc_log(),
                final(self).dc_log(),
                dc_pixel_stream(colors@.len()),
            ),
            Self::same_aux_pins(*old(self), *final(self)),
    {
        let ghost pre = *self;
        let ghost whole_bus = frames_pixel_stream(xs, ys, xe, ye, colors@);
        let ghost whole_dc = dc_pixel_stream(colors@.len());
        match self.address_window(xs, ys, xe, ye) {
            Ok(()) => {}
            Err(e) => {
                proof {
                    lemma_prefix_extend(
                        frames_address_window(xs, ys, xe, ye),
                        frames_mem_write(Seq::empty()) + frames_colors(colors@),
                    );
                    assert(frames_address_window(xs, ys, xe, ye) + (frames_mem_write(Seq::empty())
                        + frames_colors(colors@)) =~= whole_bus);
                    lemma_grew_widen(
                        pre.bus_log(),
                        self.bus_log(),
                        frames_address_window(xs, ys, xe, ye),
                        whole_bus,
                    );
                    lemma_prefix_extend(
                        dc_address_window(),
                        dc_command(true) + Seq::new(colors@.len(), |k: int| PinLevel::High),
                    );
                    assert(dc_address_window() + (dc_command(true) + Seq::new(
                        colors@.len(),
                        |k: int| PinLevel::High,
                    )) =~= whole_dc);
                    lemma_grew_widen(pre.dc_log(), self.dc_log(), dc_address_window(), whole_dc);
                }
                return Err(e);
            }
        }
        let ghost mid1 = *self;
        let empty: [u8; 0] = [];
        match self.mem_write(empty.as_slice()) {
            Ok(()) => {}
            Err(e) => {
                proof {
                    assert(empty@ =~= Seq::<u8>::empty());
                    lemma_prefix_extend(
                        frames_address_window(xs, ys, xe, ye) + frames_mem_write(Seq::empty()),
                        frames_colors(colors@),
                    );
                    lemma_abort_step(
                        pre.bus_log(),
                        mid1.bus_log(),
                        self.bus_log(),
                        frames_address_window(xs, ys, xe, ye),
                        frames_mem_write(Seq::empty()),
                        whole_bus,
                    );
                    lemma_prefix_extend(
                        dc_address_window() + dc_command(true),
                        Seq::new(colors@.len(), |k: int| PinLevel::High),
                    );
                    lemma_abort_step(
                        pre.dc_log(),
                        mid1.dc_log(),
                        self.dc_log(),
                        dc_address_window(),
                        dc_command(true),
                        whole_dc,
                    );
                }
                return Err(e);
            }
        }
        proof {
            assert(empty@ =~= Seq::<u8>::empty());
            assert(self.bus_log() =~= pre.bus_log() + frames_address_window(xs, ys, xe, ye)
                + frames_mem_write(Seq::empty()));
            assert(self.dc_log() =~= pre.dc_log() + dc_address_window() + dc_command(true));
            assert(frames_colors(colors@.subrange(0, 0)) =~= Seq::<Seq<u8>>::empty());
            assert(self.bus_log() =~= pre.bus_log() + frames_address_window(xs, ys, xe, ye)
                + frames_mem_write(Seq::empty()) + frames_colors(colors@.subrange(0, 0)));
            assert(Seq::new(0nat, |k: int| PinLevel::High) =~= Seq::<PinLevel>::empty());
            assert(self.dc_log() =~= pre.dc_log() + dc_address_window() + dc_command(true)
                + Seq::new(0nat, |k: int| PinLevel::High));
        }
        let mut i: usize = 0;
        while i < colors.len()
            invariant
                i <= colors.len(),
                whole_bus == frames_pixel_stream(xs, ys, xe, ye, colors@),
                whole_dc == dc_pixel_stream(colors@.len()),
                pre == *old(self),
                xs <= xe,
                ys <= ye,
                self.bus_log() == pre.bus_log() + frames_address_window(xs, ys, xe, ye)
                    + frames_mem_write(Seq::empty()) + frames_colors(colors@.subrange(0, i as int)),
                self.dc_log() == pre.dc_log() + dc_address_window() + dc_command(true) + Seq::new(
                    i as nat,
                    |k: int| PinLevel::High,
                ),
                Self::same_aux_pins(pre, *self),
            decreases colors.len() - i,
        {
            let ghost mid = *self;
            let c: u16 = *vstd::slice::slice_index_get(colors, i);
            let b: [u8; 2] = be16_bytes(c);
            match self.data(b.as_slice()) {
                Ok(()) => {}
                Err(e) => {
                    proof {
                        let cum_bus = frames_address_window(xs, ys, xe, ye) + frames_mem_write(
                            Seq::empty(),
                        ) + frames_colors(colors@.subrange(0, i as int));
                        assert((cum_bus + seq![be16(c)]).is_prefix_of(whole_bus)) by {
                            crate::wire::lemma_frames_colors_snoc(colors@, i as int);
                            assert(cum_bus + seq![be16(c)] =~= (frames_address_window(xs, ys, xe, ye)
                                + frames_mem_write(Seq::empty())) + frames_colors(
                                colors@.subrange(0, i as int + 1),
                            ));
                            crate::wire::lemma_frames_colors_prefix(colors@, i as int + 1);
                            crate::wire::lemma_prefix_cong(
                                frames_address_window(xs, ys, xe, ye) + frames_mem_write(
                                    Seq::empty(),
                                ),
                                frames_colors(colors@.subrange(0, i as int + 1)),
                                frames_colors(colors@),
                            );
                            assert(whole_bus =~= (frames_address_window(xs, ys, xe, ye)
                                + frames_mem_write(Seq::empty())) + frames_colors(colors@));
                        }
                        assert(mid.bus_log() == pre.bus_log() + cum_bus) by {
                            assert(mid.bus_log() =~= pre.bus_log() + cum_bus);
                        }
                        lemma_abort_step(
                            pre.bus_log(),
                            mid.bus_log(),
                            self.bus_log(),
                            cum_bus,
                            seq![be16(c)],
                            whole_bus,
                        );
                        let cum_dc = dc_address_window() + dc_command(true) + Seq::new(
                            i as nat,
                            |k: int| PinLevel::High,
                        );
                        assert((cum_dc + seq![PinLevel::High]).is_prefix_of(whole_dc)) by {
                            assert(cum_dc + seq![PinLevel::High] =~= dc_address_window()
                                + dc_command(true) + Seq::new(
                                i as nat + 1,
                                |k: int| PinLevel::High,
                            ));
                            assert(cum_dc + seq![PinLevel::High] =~= whole_dc.subrange(
                                0,
                                (cum_dc + seq![PinLevel::High]).len() as int,
                            ));
                        }
                        assert(mid.dc_log() == pre.dc_log() + cum_dc) by {
                            assert(mid.dc_log() =~= pre.dc_log() + cum_dc);
                        }
                        lemma_abort_step(
                            pre.dc_log(),
                            mid.dc_log(),
                            self.dc_log(),
                            cum_dc,
                            seq![PinLevel::High],
                            whole_dc,
                        );
                    }
                    return Err(e);
                }
            }
            proof {
                crate::wire::lemma_frames_colors_snoc(colors@, i as int);
                assert(self.bus_log() =~= pre.bus_log() + frames_address_window(xs, ys, xe, ye)
                    + frames_mem_write(Seq::empty()) + frames_colors(
                    colors@.subrange(0, i as int + 1),
                ));
                assert(Seq::new(i as nat + 1, |k: int| PinLevel::High) =~= Seq::new(
                    i as nat,
                    |k: int| PinLevel::High,
                ).push(PinLevel::High));
                assert(self.dc_log() =~= pre.dc_log() + dc_address_window() + dc_command(true)
                    + Seq::new(i as nat + 1, |k: int| PinLevel::High));
            }
            i += 1;
        }
        proof {
            assert(colors@.subrange(0, colors@.len() as int) =~= colors@);
            assert(self.bus_log() =~= pre.bus_log() + frames_pixel_stream(xs, ys, xe, ye, colors@));
            assert(self.dc_log() =~= pre.dc_log() + dc_pixel_stream(colors@.len()));
        }
        Ok(())
    }


    /// Initialize the display: the canonical bring-up sequence — hard
    /// reset, soft reset, sleep out, 16-bit truncated color format, default
    /// orientation, full-panel address window, inversion on, normal display
    /// mode, display on — executed strictly in this order. Any step's
    /// failure aborts the remaining steps and surfaces that step's error.
    pub fn init<DELAY: Delay>(&mut self, delay: &mut DELAY) -> (r: Result<
        (),
        Error<PinError, SpiError>,
    >)
        ensures
            r is Ok ==> final(self).bus_log() == old(self).bus_log() + frames_init(),
            r is Ok ==> final(self).dc_log() == old(self).dc_log() + dc_init(),
            r is Ok ==> final(self).rst_log() == old(self).rst_log()
                + crate::wire::rst_hard_reset(),
            r is Ok ==> final(delay).delays() == old(delay).delays() + delays_init(),
            r is Err ==> (r matches Err(Error::Pin(_)) || r matches Err(Error::Spi(_))),
            r is Err ==> grew_by_prefix(old(self).bus_log(), final(self).bus_log(), frames_init()),
            r is Err ==> grew_by_prefix(old(self).dc_log(), final(self).dc_log(), dc_init()),
            r is Err ==> grew_by_prefix(
                old(self).rst_log(),
                final(self).rst_log(),
                crate::wire::rst_hard_reset(),
            ),
            r is Err ==> grew_by_prefix(old(delay).delays(), final(delay).delays(), delays_init()),
            final(self).cs_log() == old(self).cs_log(),
            final(self).has_cs() == old(self).has_cs(),
    {
        let ghost pre = *self;
        let ghost dpre = *delay;
        let ghost b2 = frames_command(Command::SWRESET.spec_value());
        let ghost b3 = frames_command(Command::SLPOUT.spec_value());
        let ghost b4 = frames_command_with(Command::COLMOD.spec_value(), seq![0x55u8]);
        let ghost b5 = frames_command_with(Command::MADCTL.spec_value(), seq![0x00u8]);
        let ghost b6 = frames_column_address(0, 240);
        let ghost b7 = frames_row_address(0, 240);
        let ghost b8 = frames_command(Command::INVON.spec_value());
        let ghost b9 = frames_command(Command::NORON.spec_value());
        let ghost b10 = frames_command(Command::DISPON.spec_value());
        let ghost cn = dc_command(false);
        let ghost cp = dc_command(true);

        match self.hard_reset(delay) {
            Ok(()) => {}
            Err(e) => {
                proof {
                    lemma_grew_none(pre.bus_log(), frames_init());
                    lemma_grew_none(pre.dc_log(), dc_init());
                    lemma_prefix_extend(
                        crate::wire::delays_hard_reset(),
                        seq![150u16, 500u16, 10u16],
                    );
                    lemma_grew_widen(
                        dpre.delays(),
                        delay.delays(),
                        crate::wire::delays_hard_reset(),
                        delays_init(),
                    );
                }
                return Err(e);
            }
        }
        proof {
            assert(delay.delays() == dpre.delays() + crate::wire::delays_hard_reset());
        }
        let ghost d1 = crate::wire::delays_hard_reset();

        let ghost mid = *self;
        match self.soft_reset(delay) {
            Ok(()) => {}
            Err(e) => {
                proof {
                    assert((b2) + (b3 + b4 + b5 + b6 + b7 + b8 + b9 + b10) =~= frames_init());
                    lemma_prefix_extend(b2, b3 + b4 + b5 + b6 + b7 + b8 + b9 + b10);
                    assert(Seq::<Seq<u8>>::empty() + b2 =~= b2);
                    lemma_abort_step(
                        pre.bus_log(),
                        mid.bus_log(),
                        self.bus_log(),
                        Seq::empty(),
                        b2,
                        frames_init(),
                    );
                    assert((cn) + (cn + cp + cp + cp + cp + cn + cn + cn) =~= dc_init());
                    lemma_prefix_extend(cn, cn + cp + cp + cp + cp + cn + cn + cn);
                    assert(Seq::<PinLevel>::empty() + cn =~= cn);
                    lemma_abort_step(
                        pre.dc_log(),
                        mid.dc_log(),
                        self.dc_log(),
                        Seq::empty(),
                        cn,
                        dc_init(),
                    );
                    lemma_grew_all(pre.rst_log(), self.rst_log(), crate::wire::rst_hard_reset());
                    lemma_prefix_extend(d1, seq![150u16, 500u16, 10u16]);
                    lemma_grew_all(dpre.delays(), delay.delays(), d1);
                    lemma_grew_widen(dpre.delays(), delay.delays(), d1, delays_init());
                }
                return Err(e);
            }
        }
        proof {
            assert(self.bus_log() =~= pre.bus_log() + b2);
            assert(self.dc_log() =~= pre.dc_log() + cn);
            assert(delay.delays() =~= dpre.delays() + (d1 + seq![150u16]));
        }

        let ghost mid = *self;
        match self.sleep_out(delay) {
            Ok(()) => {}
            Err(e) => {
                proof {
                    assert((b2 + b3) + (b4 + b5 + b6 + b7 + b8 + b9 + b10) =~= frames_init());
                    lemma_prefix_extend(b2 + b3, b4 + b5 + b6 + b7 + b8 + b9 + b10);
                    lemma_abort_step(
                        pre.bus_log(),
                        mid.bus_log(),
                        self.bus_log(),
                        b2,
                        b3,
                        frames_init(),
                    );
                    assert((cn + cn) + (cp + cp + cp + cp + cn + cn + cn) =~= dc_init());
                    lemma_prefix_extend(cn + cn, cp + cp + cp + cp + cn + cn + cn);
                    lemma_abort_step(pre.dc_log(), mid.dc_log(), self.dc_log(), cn, cn, dc_init());
                    lemma_grew_all(pre.rst_log(), self.rst_log(), crate::wire::rst_hard_reset());
                    assert((d1 + seq![150u16]).is_prefix_of(delays_init())) by {
                        assert((d1 + seq![150u16]) + seq![500u16, 10u16] =~= delays_init());
                        lemma_prefix_extend(d1 + seq![150u16], seq![500u16, 10u16]);
                    }
                    lemma_grew_all(dpre.delays(), delay.delays(), d1 + seq![150u16]);
                    lemma_grew_widen(
                        dpre.delays(),
                        delay.delays(),
                        d1 + seq![150u16],
                        delays_init(),
                    );
                }
                return Err(e);
            }
        }
        proof {
            assert(self.bus_log() =~= pre.bus_log() + (b2 + b3));
            assert(self.dc_log() =~= pre.dc_log() + (cn + cn));
            assert(delay.delays() =~= dpre.delays() + (d1 + seq![150u16, 500u16]));
        }

        let ghost mid = *self;
        match self.color_mode(ColorFormat::RGB65K_CI16Bit, delay) {
            Ok(()) => {}
            Err(e) => {
                proof {
                    assert((b2 + b3 + b4) + (b5 + b6 + b7 + b8 + b9 + b10) =~= frames_init());
                    lemma_prefix_extend(b2 + b3 + b4, b5 + b6 + b7 + b8 + b9 + b10);
                    lemma_abort_step(
                        pre.bus_log(),
                        mid.bus_log(),
                        self.bus_log(),
                        b2 + b3,
                        b4,
                        frames_init(),
                    );
                    assert((cn + cn + cp) + (cp + cp + cp + cn + cn + cn) =~= dc_init());
                    lemma_prefix_extend(cn + cn + cp, cp + cp + cp + cn + cn + cn);
                    lemma_abort_step(
                        pre.dc_log(),
                        mid.dc_log(),
                        self.dc_log(),
                        cn + cn,
                        cp,
                        dc_init(),
                    );
                    lemma_grew_all(pre.rst_log(), self.rst_log(), crate::wire::rst_hard_reset());
                    assert((d1 + seq![150u16, 500u16]).is_prefix_of(delays_init())) by {
                        assert((d1 + seq![150u16, 500u16]) + seq![10u16] =~= delays_init());
                        lemma_prefix_extend(d1 + seq![150u16, 500u16], seq![10u16]);
                    }
                    lemma_grew_all(dpre.delays(), delay.delays(), d1 + seq![150u16, 500u16]);
                    lemma_grew_widen(
                        dpre.delays(),
                        delay.delays(),
                        d1 + seq![150u16, 500u16],
                        delays_init(),
                    );
                }
                return Err(e);
            }
        }
        proof {
            assert(self.bus_log() =~= pre.bus_log() + (b2 + b3 + b4));
            assert(self.dc_log() =~= pre.dc_log() + (cn + cn + cp));
            assert(delay.delays() =~= dpre.delays() + delays_init());
        }

        let ghost mid = *self;
        match self.memory_access_control(MemAccCtrlConfig::default()) {
            Ok(()) => {}
            Err(e) => {
                proof {
                    assert((b2 + b3 + b4 + b5) + (b6 + b7 + b8 + b9 + b10) =~= frames_init());
                    lemma_prefix_extend(b2 + b3 + b4 + b5, b6 + b7 + b8 + b9 + b10);
                    lemma_abort_step(
                        pre.bus_log(),
                        mid.bus_log(),
                        self.bus_log(),
                        b2 + b3 + b4,
                        b5,
                        frames_init(),
                    );
                    assert((cn + cn + cp + cp) + (cp + cp + cn + cn + cn) =~= dc_init());
                    lemma_prefix_extend(cn + cn + cp + cp, cp + cp + cn + cn + cn);
                    lemma_abort_step(
                        pre.dc_log(),
                        mid.dc_log(),
                        self.dc_log(),
                        cn + cn + cp,
                        cp,
                        dc_init(),
                    );
                    lemma_grew_all(pre.rst_log(), self.rst_log(), crate::wire::rst_hard_reset());
                    lemma_grew_all(dpre.delays(), delay.delays(), delays_init());
                }
                return Err(e);
            }
        }
        proof {
            assert(self.bus_log() =~= pre.bus_log() + (b2 + b3 + b4 + b5));
            assert(self.dc_log() =~= pre.dc_log() + (cn + cn + cp + cp));
        }

        let ghost mid = *self;
        match self.column_address(0, 240) {
            Ok(()) => {}
            Err(e) => {
                proof {
                    assert((b2 + b3 + b4 + b5 + b6) + (b7 + b8 + b9 + b10) =~= frames_init());
                    lemma_prefix_extend(b2 + b3 + b4 + b5 + b6, b7 + b8 + b9 + b10);
                    lemma_abort_step(
                        pre.bus_log(),
                        mid.bus_log(),
                        self.bus_log(),
                        b2 + b3 + b4 + b5,
                        b6,
                        frames_init(),
                    );
                    assert((cn + cn + cp + cp + cp) + (cp + cn + cn + cn) =~= dc_init());
                    lemma_prefix_extend(cn + cn + cp + cp + cp, cp + cn + cn + cn);
                    lemma_abort_step(
                        pre.dc_log(),
                        mid.dc_log(),
                        self.dc_log(),
                        cn + cn + cp + cp,
                        cp,
                        dc_init(),
                    );
                    lemma_grew_all(pre.rst_log(), self.rst_log(), crate::wire::rst_hard_reset());
                    lemma_grew_all(dpre.delays(), delay.delays(), delays_init());
                }
                return Err(e);
            }
        }
        proof {
            assert(self.bus_log() =~= pre.bus_log() + (b2 + b3 + b4 + b5 + b6));
            assert(self.dc_log() =~= pre.dc_log() + (cn + cn + cp + cp + cp));
        }

        let ghost mid = *self;
        match self.row_address(0, 240) {
            Ok(()) => {}
            Err(e) => {
                proof {
                    assert((b2 + b3 + b4 + b5 + b6 + b7) + (b8 + b9 + b10) =~= frames_init());
                    lemma_prefix_extend(b2 + b3 + b4 + b5 + b6 + b7, b8 + b9 + b10);
                    lemma_abort_step(
                        pre.bus_log(),
                        mid.bus_log(),
                        self.bus_log(),
                        b2 + b3 + b4 + b5 + b6,
                        b7,
                        frames_init(),
                    );
                    assert((cn + cn + cp + cp + cp + cp) + (cn + cn + cn) =~= dc_init());
                    lemma_prefix_extend(cn + cn + cp + cp + cp + cp, cn + cn + cn);
                    lemma_abort_step(
                        pre.dc_log(),
                        mid.dc_log(),
                        self.dc_log(),
                        cn + cn + cp + cp + cp,
                        cp,
                        dc_init(),
                    );
                    lemma_grew_all(pre.rst_log(), self.rst_log(), crate::wire::rst_hard_reset());
                    lemma_grew_all(dpre.delays(), delay.delays(), delays_init());
                }
                return Err(e);
            }
        }
        proof {
            assert(self.bus_log() =~= pre.bus_log() + (b2 + b3 + b4 + b5 + b6 + b7));
            assert(self.dc_log() =~= pre.dc_log() + (cn + cn + cp + cp + cp + cp));
        }

        let ghost mid = *self;
        match self.inversion_on() {
            Ok(()) => {}
            Err(e) => {
                proof {
                    assert((b2 + b3 + b4 + b5 + b6 + b7 + b8) + (b9 + b10) =~= frames_init());
                    lemma_prefix_extend(b2 + b3 + b4 + b5 + b6 + b7 + b8, b9 + b10);
                    lemma_abort_step(
                        pre.bus_log(),
                        mid.bus_log(),
                        self.bus_log(),
                        b2 + b3 + b4 + b5 + b6 + b7,
                        b8,
                        frames_init(),
                    );
                    assert((cn + cn + cp + cp + cp + cp + cn) + (cn + cn) =~= dc_init());
                    lemma_prefix_extend(cn + cn + cp + cp + cp + cp + cn, cn + cn);
                    lemma_abort_step(
                        pre.dc_log(),
                        mid.dc_log(),
                        self.dc_log(),
                        cn + cn + cp + cp + cp + cp,
                        cn,
                        dc_init(),
                    );
                    lemma_grew_all(pre.rst_log(), self.rst_log(), crate::wire::rst_hard_reset());
                    lemma_grew_all(dpre.delays(), delay.delays(), delays_init());
                }
                return Err(e);
            }
        }
        proof {
            assert(self.bus_log() =~= pre.bus_log() + (b2 + b3 + b4 + b5 + b6 + b7 + b8));
            assert(self.dc_log() =~= pre.dc_log() + (cn + cn + cp + cp + cp + cp + cn));
        }

        let ghost mid = *self;
        match self.normal_mode() {
            Ok(()) => {}
            Err(e) => {
                proof {
                    assert((b2 + b3 + b4 + b5 + b6 + b7 + b8 + b9) + (b10) =~= frames_init());
                    lemma_prefix_extend(b2 + b3 + b4 + b5 + b6 + b7 + b8 + b9, b10);
                    lemma_abort_step(
                        pre.bus_log(),
                        mid.bus_log(),
                        self.bus_log(),
                        b2 + b3 + b4 + b5 + b6 + b7 + b8,
                        b9,
                        frames_init(),
                    );
                    assert((cn + cn + cp + cp + cp + cp + cn + cn) + (cn) =~= dc_init());
                    lemma_prefix_extend(cn + cn + cp + cp + cp + cp + cn + cn, cn);
                    lemma_abort_step(
                        pre.dc_log(),
                        mid.dc_log(),
                        self.dc_log(),
                        cn + cn + cp + cp + cp + cp + cn,
                        cn,
                        dc_init(),
                    );
                    lemma_grew_all(pre.rst_log(), self.rst_log(), crate::wire::rst_hard_reset());
                    lemma_grew_all(dpre.delays(), delay.delays(), delays_init());
                }
                return Err(e);
            }
        }
        proof {
            assert(self.bus_log() =~= pre.bus_log() + (b2 + b3 + b4 + b5 + b6 + b7 + b8 + b9));
            assert(self.dc_log() =~= pre.dc_log() + (cn + cn + cp + cp + cp + cp + cn + cn));
        }

        let ghost mid = *self;
        match self.display_on() {
            Ok(()) => {}
            Err(e) => {
                proof {
                    crate::wire::lemma_prefix_refl(frames_init());
                    lemma_abort_step(
                        pre.bus_log(),
                        mid.bus_log(),
                        self.bus_log(),
                        b2 + b3 + b4 + b5 + b6 + b7 + b8 + b9,
                        b10,
                        frames_init(),
                    );
                    crate::wire::lemma_prefix_refl(dc_init());
                    lemma_abort_step(
                        pre.dc_log(),
                        mid.dc_log(),
                        self.dc_log(),
                        cn + cn + cp + cp + cp + cp + cn + cn,
                        cn,
                        dc_init(),
                    );
                    lemma_grew_all(pre.rst_log(), self.rst_log(), crate::wire::rst_hard_reset());
                    lemma_grew_all(dpre.delays(), delay.delays(), delays_init());
                }
                return Err(e);
            }
        }
        proof {
            assert(self.bus_log() =~= pre.bus_log() + frames_init());
            assert(self.dc_log() =~= pre.dc_log() + dc_init());
        }
        Ok(())
    }

    /// Performs a hard reset: drive the reset pin high, low, then high
    /// again, with the controller's mandatory settle delays of 1 ms, 1 ms
    /// and 120 ms. The display has to be initialized afterwards.
    ///
    /// No bus traffic is emitted, so a failing pin-set aborts before any
    /// opcode is sent and surfaces the pin error.
    pub fn hard_reset<DELAY: Delay>(&mut self, delay: &mut DELAY) -> (r: Result<
        (),
        Error<PinError, SpiError>,
    >)
        ensures
            final(self).bus_log() == old(self).bus_log(),
            final(self).dc_log() == old(self).dc_log(),
            final(self).cs_log() == old(self).cs_log(),
            final(self).has_cs() == old(self).has_cs(),
            r is Ok ==> final(self).rst_log() == old(self).rst_log() + crate::wire::rst_hard_reset(),
            r is Ok ==> final(delay).delays() == old(delay).delays() + crate::wire::delays_hard_reset(),
            r is Err ==> (r matches Err(Error::Pin(_))),
            r is Err ==> grew_by_prefix(
                old(self).rst_log(),
                final(self).rst_log(),
                crate::wire::rst_hard_reset(),
            ),
            r is Err ==> grew_by_prefix(
                old(delay).delays(),
                final(delay).delays(),
                crate::wire::delays_hard_reset(),
            ),
    {
        proof {
            lemma_grew_none(old(self).rst_log(), crate::wire::rst_hard_reset());
            lemma_grew_none(old(delay).delays(), crate::wire::delays_hard_reset());
        }
        match self.cfg.rst.set_high() {
            Ok(()) => {}
            Err(e) => {
                return Err(Error::Pin(e));
            }
        }
        delay.delay_ms(1);
        proof {
            assert(self.rst_log() =~= (old(self).rst_log() + crate::wire::rst_hard_reset()).subrange(
                0,
                self.rst_log().len() as int,
            ));
            assert(delay.delays() =~= (old(delay).delays() + crate::wire::delays_hard_reset()).subrange(
                0,
                delay.delays().len() as int,
            ));
        }
        match self.cfg.rst.set_low() {
            Ok(()) => {}
            Err(e) => {
                return Err(Error::Pin(e));
            }
        }
        delay.delay_ms(1);
        proof {
            assert(self.rst_log() =~= (old(self).rst_log() + crate::wire::rst_hard_reset()).subrange(
                0,
                self.rst_log().len() as int,
            ));
            assert(delay.delays() =~= (old(delay).delays() + crate::wire::delays_hard_reset()).subrange(
                0,
                delay.delays().len() as int,
            ));
        }
        match self.cfg.rst.set_high() {
            Ok(()) => {}
            Err(e) => {
                return Err(Error::Pin(e));
            }
        }
        delay.delay_ms(120);
        proof {
            assert(self.rst_log() =~= old(self).rst_log() + crate::wire::rst_hard_reset());
            assert(delay.delays() =~= old(delay).delays() + crate::wire::delays_hard_reset());
        }
        Ok(())
    }
}

} // verus!
