use vstd::prelude::*;

verus! {

/// Controller command opcodes.
///
/// Exactly one opcode per documented controller function; the numeric
/// encodings are fixed protocol constants and never constructed dynamically.
#[allow(non_camel_case_types)]
#[derive(Clone, Copy, PartialEq, Eq, Structural, Debug)]
pub enum Command {
    /// No operation
    NOP,
    /// Software reset
    SWRESET,
    /// Read display ID
    RDDID,
    /// Read display status
    RDDST,
    /// Read display power
    RDDPM,
    /// Read display MAD
    RDD_MADCTL,
    /// Read display pixel
    RDD_COLMOD,
    /// Read display image
    RDDIM,
    /// Read display signal
    RDDSM,
    /// Read display self-diagnostic result
    RDDSDR,
    /// Sleep in
    SLPIN,
    /// Sleep out
    SLPOUT,
    /// Partial mode on
    PTLON,
    /// Partial off (Normal)
    NORON,
    /// Display inversion off
    INVOFF,
    /// Display inversion on
    INVON,
    /// Gamma set
    GAMSET,
    /// Display off
    DISPOFF,
    /// Display on
    DISPON,
    /// Column address set
    CASET,
    /// Row address set
    RASET,
    /// Memory write
    RAMWR,
    /// Memory read
    RAMRD,
    /// Partial start/end address set
    PTLAR,
    /// Vertical scrolling definition
    VSCRDEF,
    /// Tearing effect line off
    TEOFF,
    /// Tearing effect line on
    TEON,
    /// Memory data access control
    MADCTL,
    /// Vertical scrolling start address
    VSCRSADD,
    /// Idle mode off
    IDMOFF,
    /// Idle mode on
    IDMON,
    /// Interface pixel format
    COLMOD,
    /// Memory write continue
    RAMWRC,
    /// Memory read continue
    RAMRDC,
    /// Set tear scanline
    TESCAN,
    /// Get scanline
    RDTESCAN,
    /// Write display brightness
    WRDISBV,
    /// Read display brightness value
    RDDISBV,
    /// Write CTRL display
    WRCTRLD,
    /// Read CTRL value display
    RDCTRLD,
    /// Write content adaptive brightness control and color enhancement
    WRCACE,
    /// Read content adaptive brightness control
    RDCABC,
    /// Write CABC minimum brightness
    WRCABCMB,
    /// Read CABC minimum brightness
    RDCABCMB,
    /// Read automatic brightness control self-diagnostic result
    RDABCSDR,
    /// Read ID1
    RDID1,
    /// Read ID2
    RDID2,
    /// Read ID3
    RDID3,
}

impl Command {
    /// The opcode byte transmitted for this command.
    pub open spec fn spec_value(self) -> u8 {
        match self {
            Command::NOP => 0x00,
            Command::SWRESET => 0x01,
            Command::RDDID => 0x04,
            Command::RDDST => 0x09,
            Command::RDDPM => 0x0A,
            Command::RDD_MADCTL => 0x0B,
            Command::RDD_COLMOD => 0x0C,
            Command::RDDIM => 0x0D,
            Command::RDDSM => 0x0E,
            Command::RDDSDR => 0x0F,
            Command::SLPIN => 0x10,
            Command::SLPOUT => 0x11,
            Command::PTLON => 0x12,
            Command::NORON => 0x13,
            Command::INVOFF => 0x20,
            Command::INVON => 0x21,
            Command::GAMSET => 0x26,
            Command::DISPOFF => 0x28,
            Command::DISPON => 0x29,
            Command::CASET => 0x2A,
            Command::RASET => 0x2B,
            Command::RAMWR => 0x2C,
            Command::RAMRD => 0x2E,
            Command::PTLAR => 0x30,
            Command::VSCRDEF => 0x33,
            Command::TEOFF => 0x34,
            Command::TEON => 0x35,
            Command::MADCTL => 0x36,
            Command::VSCRSADD => 0x37,
            Command::IDMOFF => 0x38,
            Command::IDMON => 0x39,
            Command::COLMOD => 0x3A,
            Command::RAMWRC => 0x3C,
            Command::RAMRDC => 0x3E,
            Command::TESCAN => 0x44,
            Command::RDTESCAN => 0x45,
            Command::WRDISBV => 0x51,
            Command::RDDISBV => 0x52,
            Command::WRCTRLD => 0x53,
            Command::RDCTRLD => 0x54,
            Command::WRCACE => 0x55,
            Command::RDCABC => 0x56,
            Command::WRCABCMB => 0x5E,
            Command::RDCABCMB => 0x5F,
            Command::RDABCSDR => 0x68,
            Command::RDID1 => 0xDA,
            Command::RDID2 => 0xDB,
            Command::RDID3 => 0xDC,
        }
    }

    /// Get command as value.
    pub fn value(self) -> (r: u8)
        ensures
            r == self.spec_value(),
    {
        match self {
            Command::NOP => 0x00,
            Command::SWRESET => 0x01,
            Command::RDDID => 0x04,
            Command::RDDST => 0x09,
            Command::RDDPM => 0x0A,
            Command::RDD_MADCTL => 0x0B,
            Command::RDD_COLMOD => 0x0C,
            Command::RDDIM => 0x0D,
            Command::RDDSM => 0x0E,
            Command::RDDSDR => 0x0F,
            Command::SLPIN => 0x10,
            Command::SLPOUT => 0x11,
            Command::PTLON => 0x12,
            Command::NORON => 0x13,
            Command::INVOFF => 0x20,
            Command::INVON => 0x21,
            Command::GAMSET => 0x26,
            Command::DISPOFF => 0x28,
            Command::DISPON => 0x29,
            Command::CASET => 0x2A,
            Command::RASET => 0x2B,
            Command::RAMWR => 0x2C,
            Command::RAMRD => 0x2E,
            Command::PTLAR => 0x30,
            Command::VSCRDEF => 0x33,
            Command::TEOFF => 0x34,
            Command::TEON => 0x35,
            Command::MADCTL => 0x36,
            Command::VSCRSADD => 0x37,
            Command::IDMOFF => 0x38,
            Command::IDMON => 0x39,
            Command::COLMOD => 0x3A,
            Command::RAMWRC => 0x3C,
            Command::RAMRDC => 0x3E,
            Command::TESCAN => 0x44,
            Command::RDTESCAN => 0x45,
            Command::WRDISBV => 0x51,
            Command::RDDISBV => 0x52,
            Command::WRCTRLD => 0x53,
            Command::RDCTRLD => 0x54,
            Command::WRCACE => 0x55,
            Command::RDCABC => 0x56,
            Command::WRCABCMB => 0x5E,
            Command::RDCABCMB => 0x5F,
            Command::RDABCSDR => 0x68,
            Command::RDID1 => 0xDA,
            Command::RDID2 => 0xDB,
            Command::RDID3 => 0xDC,
        }
    }
}

} // verus!
