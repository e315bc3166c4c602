use vstd::prelude::*;

verus! {

/// RGB and control interface color format.
///
/// The pixel-format register takes exactly one byte from this closed set of
/// eight valid encodings.
#[allow(non_camel_case_types)]
#[derive(Clone, Copy, PartialEq, Eq, Structural, Debug)]
pub enum ColorFormat {
    /// RGB interface 65K, control interface 12 Bit/pixel
    RGB65K_CI12Bit,
    /// RGB interface 65K, control interface 16 Bit/pixel
    RGB65K_CI16Bit,
    /// RGB interface 65K, control interface 18 Bit/pixel
    RGB65K_CI18Bit,
    /// RGB interface 65K, control interface 16M truncated
    RGB65K_CI16MTrunc,
    /// RGB interface 262K, control interface 12 Bit/pixel
    RGB262K_CI12Bit,
    /// RGB interface 262K, control interface 16 Bit/pixel
    RGB262K_CI16Bit,
    /// RGB interface 262K, control interface 18 Bit/pixel
    RGB262K_CI18Bit,
    /// RGB interface 262K, control interface 16M truncated
    RGB262K_CI16MTrunc,
}

impl ColorFormat {
    /// The COLMOD register byte for this format.
    pub open spec fn spec_value(self) -> u8 {
        match self {
            ColorFormat::RGB65K_CI12Bit => 0x53,
            ColorFormat::RGB65K_CI16Bit => 0x55,
            ColorFormat::RGB65K_CI18Bit => 0x56,
            ColorFormat::RGB65K_CI16MTrunc => 0x57,
            ColorFormat::RGB262K_CI12Bit => 0x63,
            ColorFormat::RGB262K_CI16Bit => 0x65,
            ColorFormat::RGB262K_CI18Bit => 0x66,
            ColorFormat::RGB262K_CI16MTrunc => 0x67,
        }
    }

    /// Get as COLMOD register value.
    pub fn value(self) -> (r: u8)
        ensures
            r == self.spec_value(),
    {
        match self {
            ColorFormat::RGB65K_CI12Bit => 0x53,
            ColorFormat::RGB65K_CI16Bit => 0x55,
            ColorFormat::RGB65K_CI18Bit => 0x56,
            ColorFormat::RGB65K_CI16MTrunc => 0x57,
            ColorFormat::RGB262K_CI12Bit => 0x63,
            ColorFormat::RGB262K_CI16Bit => 0x65,
            ColorFormat::RGB262K_CI18Bit => 0x66,
            ColorFormat::RGB262K_CI16MTrunc => 0x67,
        }
    }
}

/// Page Address Order (MY): contributes bit 7 of the composite register.
#[derive(Clone, Copy, PartialEq, Eq, Structural, Debug)]
pub enum PageAddressOrder {
    TopToBottom,
    BottomToTop,
}

impl PageAddressOrder {
    /// The bit pattern this choice contributes.
    pub open spec fn spec_value(self) -> u8 {
        match self {
            PageAddressOrder::TopToBottom => 0x00,
            PageAddressOrder::BottomToTop => 0x80,
        }
    }

    pub fn value(self) -> (r: u8)
        ensures
            r == self.spec_value(),
    {
        match self {
            PageAddressOrder::TopToBottom => 0x00,
            PageAddressOrder::BottomToTop => 0x80,
        }
    }
}

/// Column Address Order (MX): contributes bit 6 of the composite register.
#[derive(Clone, Copy, PartialEq, Eq, Structural, Debug)]
pub enum ColumnAddressOrder {
    LeftToRight,
    RightToLeft,
}

impl ColumnAddressOrder {
    /// The bit pattern this choice contributes.
    pub open spec fn spec_value(self) -> u8 {
        match self {
            ColumnAddressOrder::LeftToRight => 0x00,
            ColumnAddressOrder::RightToLeft => 0x40,
        }
    }

    pub fn value(self) -> (r: u8)
        ensures
            r == self.spec_value(),
    {
        match self {
            ColumnAddressOrder::LeftToRight => 0x00,
            ColumnAddressOrder::RightToLeft => 0x40,
        }
    }
}

/// Page/Column Order (MV): contributes bit 5 of the composite register.
#[derive(Clone, Copy, PartialEq, Eq, Structural, Debug)]
pub enum PageColumnOrder {
    NormalMode,
    ReverseMode,
}

impl PageColumnOrder {
    /// The bit pattern this choice contributes.
    pub open spec fn spec_value(self) -> u8 {
        match self {
            PageColumnOrder::NormalMode => 0x00,
            PageColumnOrder::ReverseMode => 0x20,
        }
    }

    pub fn value(self) -> (r: u8)
        ensures
            r == self.spec_value(),
    {
        match self {
            PageColumnOrder::NormalMode => 0x00,
            PageColumnOrder::ReverseMode => 0x20,
        }
    }
}

/// Line Address Order (ML): contributes bit 4 of the composite register.
#[derive(Clone, Copy, PartialEq, Eq, Structural, Debug)]
pub enum LineAddressOrder {
    TopToBottom,
    BottomToTop,
}

impl LineAddressOrder {
    /// The bit pattern this choice contributes.
    pub open spec fn spec_value(self) -> u8 {
        match self {
            LineAddressOrder::TopToBottom => 0x00,
            LineAddressOrder::BottomToTop => 0x10,
        }
    }

    pub fn value(self) -> (r: u8)
        ensures
            r == self.spec_value(),
    {
        match self {
            LineAddressOrder::TopToBottom => 0x00,
            LineAddressOrder::BottomToTop => 0x10,
        }
    }
}

/// Color Order (RGB): contributes bit 3 of the composite register.
#[derive(Clone, Copy, PartialEq, Eq, Structural, Debug)]
pub enum ColorOrder {
    Rgb,
    Bgr,
}

impl ColorOrder {
    /// The bit pattern this choice contributes.
    pub open spec fn spec_value(self) -> u8 {
        match self {
            ColorOrder::Rgb => 0x00,
            ColorOrder::Bgr => 0x08,
        }
    }

    pub fn value(self) -> (r: u8)
        ensures
            r == self.spec_value(),
    {
        match self {
            ColorOrder::Rgb => 0x00,
            ColorOrder::Bgr => 0x08,
        }
    }
}

/// Display Data Latch Order (MH): contributes bit 2 of the composite register.
#[derive(Clone, Copy, PartialEq, Eq, Structural, Debug)]
pub enum LatchOrder {
    LeftToRight,
    RightToLeft,
}

impl LatchOrder {
    /// The bit pattern this choice contributes.
    pub open spec fn spec_value(self) -> u8 {
        match self {
            LatchOrder::LeftToRight => 0x00,
            LatchOrder::RightToLeft => 0x04,
        }
    }

    pub fn value(self) -> (r: u8)
        ensures
            r == self.spec_value(),
    {
        match self {
            LatchOrder::LeftToRight => 0x00,
            LatchOrder::RightToLeft => 0x04,
        }
    }
}

/// Memory Access Control Config.
///
/// One independently chosen two-valued field per orientation axis; the
/// composite register value is the bitwise OR of the six choices. Each axis
/// occupies a disjoint bit, so axes never collide (see
/// [`lemma_madctl_decomposition`]).
#[derive(Clone, Copy, PartialEq, Eq, Structural, Debug)]
pub struct MemAccCtrlConfig {
    pub color_order: ColorOrder,
    pub latch_order: LatchOrder,
    pub line_order: LineAddressOrder,
    pub page_order: PageAddressOrder,
    pub page_column_order: PageColumnOrder,
    pub column_order: ColumnAddressOrder,
}

impl MemAccCtrlConfig {
    /// The composite register byte: bitwise OR of the six axis choices.
    pub open spec fn spec_value(self) -> u8 {
        self.color_order.spec_value() | self.latch_order.spec_value()
            | self.line_order.spec_value() | self.page_order.spec_value()
            | self.page_column_order.spec_value() | self.column_order.spec_value()
    }

    /// The default orientation: every axis in its reset choice, encoding to 0x00.
    pub fn default() -> (r: Self)
        ensures
            r == (MemAccCtrlConfig {
                color_order: ColorOrder::Rgb,
                latch_order: LatchOrder::LeftToRight,
                line_order: LineAddressOrder::TopToBottom,
                page_order: PageAddressOrder::TopToBottom,
                page_column_order: PageColumnOrder::NormalMode,
                column_order: ColumnAddressOrder::LeftToRight,
            }),
            r.spec_value() == 0x00,
    {
        proof {
            assert(0x00u8 | 0x00 | 0x00 | 0x00 | 0x00 | 0x00 == 0x00) by (bit_vector);
        }
        MemAccCtrlConfig {
            color_order: ColorOrder::Rgb,
            latch_order: LatchOrder::LeftToRight,
            line_order: LineAddressOrder::TopToBottom,
            page_order: PageAddressOrder::TopToBottom,
            page_column_order: PageColumnOrder::NormalMode,
            column_order: ColumnAddressOrder::LeftToRight,
        }
    }

    /// Replace the color-order choice.
    pub fn color_order(&mut self, color_order: ColorOrder)
        ensures
            *final(self) == (MemAccCtrlConfig { color_order, ..*old(self) }),
    {
        self.color_order = color_order;
    }

    /// Replace the latch-order choice.
    pub fn latch_order(&mut self, latch_order: LatchOrder)
        ensures
            *final(self) == (MemAccCtrlConfig { latch_order, ..*old(self) }),
    {
        self.latch_order = latch_order;
    }

    /// Replace the line-order choice.
    pub fn line_order(&mut self, line_order: LineAddressOrder)
        ensures
            *final(self) == (MemAccCtrlConfig { line_order, ..*old(self) }),
    {
        self.line_order = line_order;
    }

    /// Replace the page-order choice.
    pub fn page_order(&mut self, page_order: PageAddressOrder)
        ensures
            *final(self) == (MemAccCtrlConfig { page_order, ..*old(self) }),
    {
        self.page_order = page_order;
    }

    /// Replace the page/column-order choice.
    pub fn page_column_order(&mut self, page_column_order: PageColumnOrder)
        ensures
            *final(self) == (MemAccCtrlConfig { page_column_order, ..*old(self) }),
    {
        self.page_column_order = page_column_order;
    }

    /// Replace the column-order choice.
    pub fn column_order(&mut self, column_order: ColumnAddressOrder)
        ensures
            *final(self) == (MemAccCtrlConfig { column_order, ..*old(self) }),
    {
        self.column_order = column_order;
    }

    /// The composite register byte, as transmitted to the controller.
    pub fn value(self) -> (r: u8)
        ensures
            r == self.spec_value(),
    {
        self.color_order.value() | self.latch_order.value()
            | self.line_order.value() | self.page_order.value()
            | self.page_column_order.value() | self.column_order.value()
    }
}

/// Each orientation axis occupies its own bit of the composite register:
/// masking the composite byte with an axis's bit recovers exactly that axis's
/// contribution, and the two lowest bits are always clear.
pub proof fn lemma_madctl_decomposition(c: MemAccCtrlConfig)
    ensures
        c.spec_value() & 0x80 == c.page_order.spec_value(),
        c.spec_value() & 0x40 == c.column_order.spec_value(),
        c.spec_value() & 0x20 == c.page_column_order.spec_value(),
        c.spec_value() & 0x10 == c.line_order.spec_value(),
        c.spec_value() & 0x08 == c.color_order.spec_value(),
        c.spec_value() & 0x04 == c.latch_order.spec_value(),
        c.spec_value() & 0x03 == 0x00,
{
    let p = c.page_order.spec_value();
    let x = c.column_order.spec_value();
    let v = c.page_column_order.spec_value();
    let l = c.line_order.spec_value();
    let r = c.color_order.spec_value();
    let h = c.latch_order.spec_value();
    assert(p == 0x00 || p == 0x80);
    assert(x == 0x00 || x == 0x40);
    assert(v == 0x00 || v == 0x20);
    assert(l == 0x00 || l == 0x10);
    assert(r == 0x00 || r == 0x08);
    assert(h == 0x00 || h == 0x04);
    assert((r | h | l | p | v | x) & 0x80 == p
        && (r | h | l | p | v | x) & 0x40 == x
        && (r | h | l | p | v | x) & 0x20 == v
        && (r | h | l | p | v | x) & 0x10 == l
        && (r | h | l | p | v | x) & 0x08 == r
        && (r | h | l | p | v | x) & 0x04 == h
        && (r | h | l | p | v | x) & 0x03 == 0x00) by (bit_vector)
        requires
            p == 0x00 || p == 0x80,
            x == 0x00 || x == 0x40,
            v == 0x00 || v == 0x20,
            l == 0x00 || l == 0x10,
            r == 0x00 || r == 0x08,
            h == 0x00 || h == 0x04,
    ;
}

/// Swapping the choice on a single axis changes only that axis's bit of the
/// composite register: whenever two configurations agree on every axis but
/// one, their composite bytes differ at most inside that axis's mask.
pub proof fn lemma_madctl_axis_isolation(a: MemAccCtrlConfig, b: MemAccCtrlConfig)
    ensures
        (a.color_order == b.color_order && a.latch_order == b.latch_order
            && a.line_order == b.line_order && a.page_column_order == b.page_column_order
            && a.column_order == b.column_order)
            ==> (a.spec_value() ^ b.spec_value()) & 0x7F == 0x00,
        (a.color_order == b.color_order && a.latch_order == b.latch_order
            && a.line_order == b.line_order && a.page_order == b.page_order
            && a.page_column_order == b.page_column_order)
            ==> (a.spec_value() ^ b.spec_value()) & 0xBF == 0x00,
        (a.color_order == b.color_order && a.latch_order == b.latch_order
            && a.line_order == b.line_order && a.page_order == b.page_order
            && a.column_order == b.column_order)
            ==> (a.spec_value() ^ b.spec_value()) & 0xDF == 0x00,
        (a.color_order == b.color_order && a.latch_order == b.latch_order
            && a.page_order == b.page_order && a.page_column_order == b.page_column_order
            && a.column_order == b.column_order)
            ==> (a.spec_value() ^ b.spec_value()) & 0xEF == 0x00,
        (a.latch_order == b.latch_order && a.line_order == b.line_order
            && a.page_order == b.page_order && a.page_column_order == b.page_column_order
            && a.column_order == b.column_order)
            ==> (a.spec_value() ^ b.spec_value()) & 0xF7 == 0x00,
        (a.color_order == b.color_order && a.line_order == b.line_order
            && a.page_order == b.page_order && a.page_column_order == b.page_column_order
            && a.column_order == b.column_order)
            ==> (a.spec_value() ^ b.spec_value()) & 0xFB == 0x00,
{
    lemma_madctl_decomposition(a);
    lemma_madctl_decomposition(b);
    let va = a.spec_value();
    let vb = b.spec_value();
    assert((va & 0x80 == vb & 0x80 && va & 0x40 == vb & 0x40 && va & 0x20 == vb & 0x20
        && va & 0x10 == vb & 0x10 && va & 0x08 == vb & 0x08 && va & 0x04 == vb & 0x04)
        ==> (va ^ vb) == 0x00) by (bit_vector)
        requires
            va & 0x03 == 0x00,
            vb & 0x03 == 0x00,
    ;
    assert(va & 0x40 == vb & 0x40 && va & 0x20 == vb & 0x20 && va & 0x10 == vb & 0x10
        && va & 0x08 == vb & 0x08 && va & 0x04 == vb & 0x04
        ==> (va ^ vb) & 0x7F == 0x00) by (bit_vector)
        requires
            va & 0x03 == 0x00,
            vb & 0x03 == 0x00,
    ;
    assert(va & 0x80 == vb & 0x80 && va & 0x20 == vb & 0x20 && va & 0x10 == vb & 0x10
        && va & 0x08 == vb & 0x08 && va & 0x04 == vb & 0x04
        ==> (va ^ vb) & 0xBF == 0x00) by (bit_vector)
        requires
            va & 0x03 == 0x00,
            vb & 0x03 == 0x00,
    ;
    assert(va & 0x80 == vb & 0x80 && va & 0x40 == vb & 0x40 && va & 0x10 == vb & 0x10
        && va & 0x08 == vb & 0x08 && va & 0x04 == vb & 0x04
        ==> (va ^ vb) & 0xDF == 0x00) by (bit_vector)
        requires
            va & 0x03 == 0x00,
            vb & 0x03 == 0x00,
    ;
    assert(va & 0x80 == vb & 0x80 && va & 0x40 == vb & 0x40 && va & 0x20 == vb & 0x20
        && va & 0x08 == vb & 0x08 && va & 0x04 == vb & 0x04
        ==> (va ^ vb) & 0xEF == 0x00) by (bit_vector)
        requires
            va & 0x03 == 0x00,
            vb & 0x03 == 0x00,
    ;
    assert(va & 0x80 == vb & 0x80 && va & 0x40 == vb & 0x40 && va & 0x20 == vb & 0x20
        && va & 0x10 == vb & 0x10 && va & 0x04 == vb & 0x04
        ==> (va ^ vb) & 0xF7 == 0x00) by (bit_vector)
        requires
            va & 0x03 == 0x00,
            vb & 0x03 == 0x00,
    ;
    assert(va & 0x80 == vb & 0x80 && va & 0x40 == vb & 0x40 && va & 0x20 == vb & 0x20
        && va & 0x10 == vb & 0x10 && va & 0x08 == vb & 0x08
        ==> (va ^ vb) & 0xFB == 0x00) by (bit_vector)
        requires
            va & 0x03 == 0x00,
            vb & 0x03 == 0x00,
    ;
}

} // verus!
