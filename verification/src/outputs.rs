//! Monitor bring-up decisions of the native backend: which display mode
//! to drive, which CRTC to scan out from, and where a new output goes.
use vstd::prelude::*;

verus! {

/// What the backend reads of a connector's display mode.
#[derive(Debug, Clone, Copy, PartialEq, Eq, Structural)]
pub struct ModeInfo {
    /// The connector flags this mode as preferred (native).
    pub preferred: bool,
    pub width: u16,
    pub height: u16,
}

/// Pixel count of a mode.
pub open spec fn mode_area(m: ModeInfo) -> nat {
    m.width as nat * m.height as nat
}

/// Some mode is flagged preferred.
pub open spec fn has_preferred(s: Seq<ModeInfo>) -> bool {
    exists|j: int| 0 <= j < s.len() && #[trigger] s[j].preferred
}

/// `i` is the mode to drive: the first preferred mode when there is one,
/// otherwise the largest mode (the last of equally large ones).
pub open spec fn is_picked(s: Seq<ModeInfo>, i: int) -> bool {
    &&& 0 <= i < s.len()
    &&& if has_preferred(s) {
        s[i].preferred && forall|j: int| 0 <= j < i ==> !(#[trigger] s[j]).preferred
    } else {
        &&& forall|j: int| 0 <= j < s.len() ==> mode_area(#[trigger] s[j]) <= mode_area(s[i])
        &&& forall|j: int| i < j < s.len() ==> mode_area(#[trigger] s[j]) < mode_area(s[i])
    }
}

fn area_of(m: ModeInfo) -> (a: u32)
    ensures
        a == mode_area(m),
{
    assert(m.width as nat * m.height as nat <= 0xFFFF * 0xFFFF) by (nonlinear_arith)
        requires
            m.width <= 0xFFFF,
            m.height <= 0xFFFF,
    ;
    (m.width as u32) * (m.height as u32)
}

/// Index of the mode to drive (see [`is_picked`]). A connector without
/// modes has nothing to drive, so `modes` is not empty.
pub fn pick_mode(modes: &Vec<ModeInfo>) -> (i: usize)
    requires
        modes@.len() > 0,
    ensures
        is_picked(modes@, i as int),
{
    let mut k: usize = 0;
    while k < modes.len()
        invariant
            k <= modes@.len(),
            forall|j: int| 0 <= j < k ==> !(#[trigger] modes@[j]).preferred,
        decreases modes@.len() - k,
    {
        if modes[k].preferred {
            return k;
        }
        k = k + 1;
    }
    assert(!has_preferred(modes@));
    let mut best: usize = 0;
    let mut best_area: u32 = area_of(modes[0]);
    let mut k: usize = 1;
    while k < modes.len()
        invariant
            1 <= k <= modes@.len(),
            best < k,
            best_area == mode_area(modes@[best as int]),
            forall|j: int| 0 <= j < k ==> mode_area(#[trigger] modes@[j]) <= best_area,
            forall|j: int| best < j < k ==> mode_area(#[trigger] modes@[j]) < best_area,
        decreases modes@.len() - k,
    {
        let a = area_of(modes[k]);
        if a >= best_area {
            best = k;
            best_area = a;
        }
        k = k + 1;
    }
    best
}

/// What the backend reads of an encoder of a connector.
pub struct EncoderInfo {
    /// The CRTC the encoder currently drives, if any.
    pub current: Option<u32>,
    /// The device's CRTCs this encoder can drive, in device order.
    pub possible: Vec<u32>,
}

/// The current CRTC of the first encoder, from `i` on, whose current CRTC
/// exists on the device and is not in use.
pub open spec fn first_current(encs: Seq<Option<EncoderInfo>>, crtcs: Seq<u32>, used: Seq<u32>, i: int) -> Option<u32>
    decreases encs.len() - i,
{
    if i < 0 || i >= encs.len() {
        None
    } else {
        match encs[i] {
            Some(e) => match e.current {
                Some(c) => if !used.contains(c) && crtcs.contains(c) {
                    Some(c)
                } else {
                    first_current(encs, crtcs, used, i + 1)
                },
                None => first_current(encs, crtcs, used, i + 1),
            },
            None => first_current(encs, crtcs, used, i + 1),
        }
    }
}

/// The first CRTC of `possible`, from `k` on, that is not in use.
pub open spec fn first_unused(possible: Seq<u32>, used: Seq<u32>, k: int) -> Option<u32>
    decreases possible.len() - k,
{
    if k < 0 || k >= possible.len() {
        None
    } else if !used.contains(possible[k]) {
        Some(possible[k])
    } else {
        first_unused(possible, used, k + 1)
    }
}

/// The first unused CRTC that an encoder, from `i` on, can drive.
pub open spec fn first_free(encs: Seq<Option<EncoderInfo>>, used: Seq<u32>, i: int) -> Option<u32>
    decreases encs.len() - i,
{
    if i < 0 || i >= encs.len() {
        None
    } else {
        match encs[i] {
            Some(e) => match first_unused(e.possible@, used, 0) {
                Some(c) => Some(c),
                None => first_free(encs, used, i + 1),
            },
            None => first_free(encs, used, i + 1),
        }
    }
}

/// The CRTC for a connector with these encoders (`None` for an encoder
/// that could not be read): the one an encoder already drives when it is
/// free, otherwise the first free one an encoder can drive.
pub open spec fn spec_find_crtc(encs: Seq<Option<EncoderInfo>>, crtcs: Seq<u32>, used: Seq<u32>) -> Option<u32> {
    match first_current(encs, crtcs, used, 0) {
        Some(c) => Some(c),
        None => first_free(encs, used, 0),
    }
}

fn contains_u32(v: &Vec<u32>, x: u32) -> (r: bool)
    ensures
        r == v@.contains(x),
{
    let mut i: usize = 0;
    while i < v.len()
        invariant
            i <= v@.len(),
            forall|j: int| 0 <= j < i ==> v@[j] != x,
        decreases v@.len() - i,
    {
        if v[i] == x {
            return true;
        }
        i = i + 1;
    }
    false
}

fn unused_of(possible: &Vec<u32>, used: &Vec<u32>) -> (r: Option<u32>)
    ensures
        r == first_unused(possible@, used@, 0),
{
    let mut k: usize = 0;
    while k < possible.len()
        invariant
            k <= possible@.len(),
            first_unused(possible@, used@, 0) == first_unused(possible@, used@, k as int),
        decreases possible@.len() - k,
    {
        if !contains_u32(used, possible[k]) {
            return Some(possible[k]);
        }
        k = k + 1;
    }
    None
}

/// Chooses a free CRTC for a connector (see [`spec_find_crtc`]).
pub fn find_crtc(encoders: &Vec<Option<EncoderInfo>>, crtcs: &Vec<u32>, used: &Vec<u32>) -> (r: Option<u32>)
    ensures
        r == spec_find_crtc(encoders@, crtcs@, used@),
{
    let mut i: usize = 0;
    while i < encoders.len()
        invariant
            i <= encoders@.len(),
            first_current(encoders@, crtcs@, used@, 0) == first_current(encoders@, crtcs@, used@, i as int),
        decreases encoders@.len() - i,
    {
        match &encoders[i] {
            Some(e) => match e.current {
                Some(c) => {
                    if !contains_u32(used, c) && contains_u32(crtcs, c) {
                        return Some(c);
                    }
                },
                None => {},
            },
            None => {},
        }
        i = i + 1;
    }
    let mut i: usize = 0;
    while i < encoders.len()
        invariant
            i <= encoders@.len(),
            first_current(encoders@, crtcs@, used@, 0) is None,
            first_free(encoders@, used@, 0) == first_free(encoders@, used@, i as int),
        decreases encoders@.len() - i,
    {
        match &encoders[i] {
            Some(e) => {
                let c = unused_of(&e.possible, used);
                if c.is_some() {
                    return c;
                }
            },
            None => {},
        }
        i = i + 1;
    }
    None
}

/// Sum of the widths of the outputs already placed.
pub open spec fn widths_sum(widths: Seq<i32>) -> int
    decreases widths.len(),
{
    if widths.len() == 0 {
        0
    } else {
        widths_sum(widths.drop_last()) + widths.last()
    }
}

/// Outputs are placed side by side: a new one starts where the widths of
/// those already placed end. The sum must fit the coordinate space.
pub fn next_output_x(widths: &Vec<i32>) -> (x: i32)
    requires
        forall|k: int| 0 <= k <= widths@.len() ==> i32::MIN <= #[trigger] widths_sum(widths@.take(k)) <= i32::MAX,
    ensures
        x == widths_sum(widths@),
{
    let mut acc: i32 = 0;
    let mut i: usize = 0;
    while i < widths.len()
        invariant
            i <= widths@.len(),
            forall|k: int| 0 <= k <= widths@.len() ==> i32::MIN <= #[trigger] widths_sum(widths@.take(k)) <= i32::MAX,
            acc == widths_sum(widths@.take(i as int)),
        decreases widths@.len() - i,
    {
        assert(widths@.take(i + 1).drop_last() =~= widths@.take(i as int));
        assert(widths_sum(widths@.take(i + 1)) <= i32::MAX);
        acc = acc + widths[i];
        i = i + 1;
    }
    assert(widths@.take(i as int) =~= widths@);
    acc
}

/// What a device rescan does with one connector.
#[derive(Debug, Clone, Copy, PartialEq, Eq, Structural)]
pub enum ConnectorAction {
    /// A monitor appeared: bring an output up on it.
    LightUp,
    /// The monitor went away: tear its output down.
    Shutdown,
    /// Nothing changed.
    Keep,
}

/// The action for a connector on rescan: a connector that reports a
/// monitor with at least one mode and has no output yet is lit up; one
/// with an output but no usable monitor any more is shut down.
pub fn connector_action(connected: bool, mode_count: usize, has_output: bool) -> (a: ConnectorAction)
    ensures
        a == (if connected && mode_count > 0 && !has_output {
            ConnectorAction::LightUp
        } else if !(connected && mode_count > 0) && has_output {
            ConnectorAction::Shutdown
        } else {
            ConnectorAction::Keep
        }),
{
    let usable = connected && mode_count > 0;
    if usable && !has_output {
        ConnectorAction::LightUp
    } else if !usable && has_output {
        ConnectorAction::Shutdown
    } else {
        ConnectorAction::Keep
    }
}

} // verus!
