use vstd::prelude::*;

use crate::command::Command;
use crate::interface::PinLevel;

verus! {

/// Big-endian encoding of a 16-bit value: most-significant byte first.
pub open spec fn be16(v: u16) -> Seq<u8> {
    seq![(v >> 8) as u8, (v & 0xFF) as u8]
}

/// The bus writes of a command frame without parameters: one opcode byte.
pub open spec fn frames_command(op: u8) -> Seq<Seq<u8>> {
    seq![seq![op]]
}

/// The bus writes of a command frame with a parameter data phase: one opcode
/// byte, then the parameter bytes as a second write.
pub open spec fn frames_command_with(op: u8, params: Seq<u8>) -> Seq<Seq<u8>> {
    seq![seq![op], params]
}

/// The bus writes that set the column-address window: the CASET opcode
/// followed by the big-endian start and end columns as four parameter bytes.
pub open spec fn frames_column_address(xs: u16, xe: u16) -> Seq<Seq<u8>> {
    frames_command_with(Command::CASET.spec_value(), be16(xs) + be16(xe))
}

/// The bus writes that set the row-address window: the RASET opcode followed
/// by the big-endian start and end rows as four parameter bytes.
pub open spec fn frames_row_address(rs: u16, re: u16) -> Seq<Seq<u8>> {
    frames_command_with(Command::RASET.spec_value(), be16(rs) + be16(re))
}

/// The bus writes that set the full address window: column window first, then
/// row window.
pub open spec fn frames_address_window(xs: u16, rs: u16, xe: u16, re: u16) -> Seq<Seq<u8>> {
    frames_column_address(xs, xe) + frames_row_address(rs, re)
}

/// The bus writes of a memory-write transaction: the RAMWR opcode followed by
/// the payload bytes as its data phase.
pub open spec fn frames_mem_write(data: Seq<u8>) -> Seq<Seq<u8>> {
    frames_command_with(Command::RAMWR.spec_value(), data)
}

/// The bus writes of a single-pixel write: a one-pixel address window at
/// (x, y), then a memory write of the color's two big-endian bytes.
pub open spec fn frames_pixel(x: u16, y: u16, color: u16) -> Seq<Seq<u8>> {
    frames_address_window(x, y, x, y) + frames_mem_write(be16(color))
}

/// One two-byte data phase per streamed color, in input order, each the
/// big-endian encoding of its color.
pub open spec fn frames_colors(colors: Seq<u16>) -> Seq<Seq<u8>> {
    colors.map_values(|c: u16| be16(c))
}

/// The bus writes of a streamed pixel write: the address window for the
/// rectangle, a memory-write command with empty parameters opening the
/// transaction, then one two-byte data phase per color.
pub open spec fn frames_pixel_stream(xs: u16, rs: u16, xe: u16, re: u16, colors: Seq<u16>) -> Seq<
    Seq<u8>,
> {
    frames_address_window(xs, rs, xe, re) + frames_mem_write(Seq::empty()) + frames_colors(colors)
}

/// The bus writes of the canonical bring-up sequence: soft reset, sleep out,
/// 16-bit color mode, default orientation, full-panel address window,
/// inversion on, normal mode, display on — in exactly this order, with no
/// other traffic interleaved.
pub open spec fn frames_init() -> Seq<Seq<u8>> {
    frames_command(Command::SWRESET.spec_value()) + frames_command(Command::SLPOUT.spec_value())
        + frames_command_with(Command::COLMOD.spec_value(), seq![0x55u8])
        + frames_command_with(Command::MADCTL.spec_value(), seq![0x00u8])
        + frames_column_address(0, 240) + frames_row_address(0, 240)
        + frames_command(Command::INVON.spec_value()) + frames_command(
        Command::NORON.spec_value(),
    ) + frames_command(Command::DISPON.spec_value())
}

/// The data/command select edges of one command frame: command-select (low)
/// for the opcode, then data-select (high) if a data phase follows.
pub open spec fn dc_command(has_params: bool) -> Seq<PinLevel> {
    if has_params {
        seq![PinLevel::Low, PinLevel::High]
    } else {
        seq![PinLevel::Low]
    }
}

/// The data/command select edges of setting the full address window.
pub open spec fn dc_address_window() -> Seq<PinLevel> {
    dc_command(true) + dc_command(true)
}

/// The data/command select edges of a single-pixel write.
pub open spec fn dc_pixel() -> Seq<PinLevel> {
    dc_address_window() + dc_command(true)
}

/// The data/command select edges of a streamed pixel write: the window and
/// the opening memory-write command, then data-select once per color.
pub open spec fn dc_pixel_stream(n: nat) -> Seq<PinLevel> {
    dc_address_window() + dc_command(true) + Seq::new(n, |i: int| PinLevel::High)
}

/// The data/command select edges of the bring-up sequence.
pub open spec fn dc_init() -> Seq<PinLevel> {
    dc_command(false) + dc_command(false) + dc_command(true) + dc_command(true) + dc_command(true)
        + dc_command(true) + dc_command(false) + dc_command(false) + dc_command(false)
}

/// The reset-pin edges of a hard reset: high, low, then high again.
pub open spec fn rst_hard_reset() -> Seq<PinLevel> {
    seq![PinLevel::High, PinLevel::Low, PinLevel::High]
}

/// The settle pauses of a hard reset, in milliseconds.
pub open spec fn delays_hard_reset() -> Seq<u16> {
    seq![1u16, 1u16, 120u16]
}

/// The settle pauses of the bring-up sequence, in milliseconds: the hard
/// reset's three, then soft reset, sleep out and color mode.
pub open spec fn delays_init() -> Seq<u16> {
    delays_hard_reset() + seq![150u16, 500u16, 10u16]
}

/// `post` extends `pre` by some prefix of `delta`: the abort guarantee of a
/// failed multi-step operation, which stops partway through its planned
/// traffic and emits nothing else.
pub open spec fn grew_by_prefix<T>(pre: Seq<T>, post: Seq<T>, delta: Seq<T>) -> bool {
    pre.is_prefix_of(post) && post.is_prefix_of(pre + delta)
}

/// A single-pixel write frames exactly an address window at its coordinates
/// followed by a memory write whose sole payload is the color's two
/// big-endian bytes.
pub proof fn lemma_pixel_is_window_then_mem_write(x: u16, y: u16, color: u16)
    ensures
        frames_pixel(x, y, color) == frames_address_window(x, y, x, y) + frames_mem_write(
            be16(color),
        ),
        dc_pixel() == dc_address_window() + dc_command(true),
{
}

/// A failed step that emitted nothing satisfies the abort guarantee.
pub proof fn lemma_grew_none<T>(pre: Seq<T>, delta: Seq<T>)
    ensures
        grew_by_prefix(pre, pre, delta),
{
    assert(pre =~= pre.subrange(0, pre.len() as int));
    assert(pre =~= (pre + delta).subrange(0, pre.len() as int));
}

/// A step that emitted exactly its planned traffic satisfies the abort
/// guarantee.
pub proof fn lemma_grew_all<T>(pre: Seq<T>, post: Seq<T>, delta: Seq<T>)
    requires
        post == pre + delta,
    ensures
        grew_by_prefix(pre, post, delta),
{
    assert(pre =~= post.subrange(0, pre.len() as int));
    assert(post =~= (pre + delta).subrange(0, post.len() as int));
}

/// A multi-step operation that completed the traffic `cum` and then stopped
/// partway through step `step` has emitted a prefix of any planned whole
/// that `cum + step` is a prefix of.
pub proof fn lemma_abort_step<T>(
    pre: Seq<T>,
    mid: Seq<T>,
    post: Seq<T>,
    cum: Seq<T>,
    step: Seq<T>,
    whole: Seq<T>,
)
    requires
        mid == pre + cum,
        grew_by_prefix(mid, post, step),
        (cum + step).is_prefix_of(whole),
    ensures
        grew_by_prefix(pre, post, whole),
{
    assert(pre =~= post.subrange(0, pre.len() as int)) by {
        assert(forall|i: int|
            0 <= i < pre.len() ==> pre[i] == mid[i] && mid[i] == post.subrange(
                0,
                mid.len() as int,
            )[i]);
    }
    assert(post.is_prefix_of(pre + whole)) by {
        let planned = mid + step;
        assert(post =~= planned.subrange(0, post.len() as int));
        assert(forall|i: int| 0 <= i < post.len() ==> post[i] == planned[i]);
        assert(forall|i: int|
            0 <= i < planned.len() ==> planned[i] == (pre + (cum + step))[i]);
        assert(forall|i: int|
            0 <= i < cum.len() + step.len() ==> (cum + step)[i] == whole.subrange(
                0,
                (cum + step).len() as int,
            )[i]);
        assert(post =~= (pre + whole).subrange(0, post.len() as int));
    }
}

/// Widening the planned traffic preserves the abort guarantee.
pub proof fn lemma_grew_widen<T>(pre: Seq<T>, post: Seq<T>, delta: Seq<T>, wider: Seq<T>)
    requires
        grew_by_prefix(pre, post, delta),
        delta.is_prefix_of(wider),
    ensures
        grew_by_prefix(pre, post, wider),
{
    assert(Seq::<T>::empty() + delta =~= delta);
    lemma_abort_step(pre, pre, post, Seq::empty(), delta, wider);
}

/// A sequence is a prefix of itself.
pub proof fn lemma_prefix_refl<T>(s: Seq<T>)
    ensures
        s.is_prefix_of(s),
{
    assert(s =~= s.subrange(0, s.len() as int));
}

/// A sequence is a prefix of itself extended by anything.
pub proof fn lemma_prefix_extend<T>(a: Seq<T>, b: Seq<T>)
    ensures
        a.is_prefix_of(a + b),
{
    assert(a =~= (a + b).subrange(0, a.len() as int));
}

/// Streaming one more color appends exactly its two-byte data phase.
pub proof fn lemma_frames_colors_snoc(colors: Seq<u16>, i: int)
    requires
        0 <= i < colors.len(),
    ensures
        frames_colors(colors.subrange(0, i + 1)) == frames_colors(colors.subrange(0, i))
            + seq![be16(colors[i])],
{
    let a = colors.subrange(0, i + 1);
    let b = colors.subrange(0, i);
    assert forall|j: int| 0 <= j < a.len() implies frames_colors(a)[j] == (frames_colors(b)
        + seq![be16(colors[i])])[j] by {
        if j < i {
            assert(a[j] == colors[j]);
            assert(b[j] == colors[j]);
        } else {
            assert(a[j] == colors[i]);
        }
    }
    assert(frames_colors(a) =~= frames_colors(b) + seq![be16(colors[i])]);
}

/// The data phases of a prefix of the colors are a prefix of the whole
/// stream's data phases.
pub proof fn lemma_frames_colors_prefix(colors: Seq<u16>, i: int)
    requires
        0 <= i <= colors.len(),
    ensures
        frames_colors(colors.subrange(0, i)).is_prefix_of(frames_colors(colors)),
{
    let a = colors.subrange(0, i);
    assert forall|j: int| 0 <= j < a.len() implies frames_colors(a)[j] == frames_colors(
        colors,
    ).subrange(0, i)[j] by {
        assert(a[j] == colors[j]);
    }
    assert(frames_colors(a) =~= frames_colors(colors).subrange(0, i));
}

/// Prefixing both sides with the same completed traffic preserves prefix-of.
pub proof fn lemma_prefix_cong<T>(a: Seq<T>, x: Seq<T>, y: Seq<T>)
    requires
        x.is_prefix_of(y),
    ensures
        (a + x).is_prefix_of(a + y),
{
    assert(a + x =~= (a + y).subrange(0, (a + x).len() as int));
}

/// Big-endian 16-bit encoding, as executable code.
pub fn be16_bytes(v: u16) -> (r: [u8; 2])
    ensures
        r@ == be16(v),
{
    let r: [u8; 2] = [(v >> 8) as u8, (v & 0xFF) as u8];
    proof {
        assert(r@ =~= be16(v));
    }
    r
}

/// The four parameter bytes of an address-window axis: big-endian start, then
/// big-endian end.
pub fn address_bytes(start: u16, end: u16) -> (r: [u8; 4])
    ensures
        r@ == be16(start) + be16(end),
{
    let r: [u8; 4] = [(start >> 8) as u8, (start & 0xFF) as u8, (end >> 8) as u8, (end & 0xFF) as u8];
    proof {
        assert(r@ =~= be16(start) + be16(end));
    }
    r
}

} // verus!
