use vstd::prelude::*;
use crate::pad::GamepadState;

verus! {

/// Distance of a stick axis value from center, as a mathematical integer so
/// that the most-negative 16-bit value keeps its full magnitude.
pub open spec fn spec_magnitude(v: i16) -> int {
    if v < 0 {
        -(v as int)
    } else {
        v as int
    }
}

/// The per-axis merge policy: whichever axis value is deflected furthest
/// from center wins; on a tie of magnitudes the accumulated value is kept,
/// so a source value only replaces it when strictly more deflected.
pub open spec fn spec_joystick_merge(src: i16, acc: i16) -> i16 {
    if spec_magnitude(src) > spec_magnitude(acc) {
        src
    } else {
        acc
    }
}

/// Merge one stick axis from a freshly read sample (`src_thumb`) into the
/// tick's accumulated axis (`gamepad_thumb`). The magnitude comparison is
/// done in 32-bit arithmetic so that negating the most-negative 16-bit
/// value cannot overflow.
pub fn merge_thumb_joystick(src_thumb: i16, gamepad_thumb: i16) -> (r: i16)
    ensures
        r == spec_joystick_merge(src_thumb, gamepad_thumb),
        spec_magnitude(src_thumb) > spec_magnitude(gamepad_thumb) ==> r == src_thumb,
        spec_magnitude(src_thumb) <= spec_magnitude(gamepad_thumb) ==> r == gamepad_thumb,
{
    let tmp_src_thumb: i32 = src_thumb as i32;
    let tmp_gamepad_thumb: i32 = gamepad_thumb as i32;
    let src_mag: i32 = if tmp_src_thumb < 0 {
        -tmp_src_thumb
    } else {
        tmp_src_thumb
    };
    let gamepad_mag: i32 = if tmp_gamepad_thumb < 0 {
        -tmp_gamepad_thumb
    } else {
        tmp_gamepad_thumb
    };
    if src_mag > gamepad_mag {
        src_thumb
    } else {
        gamepad_thumb
    }
}

/// Merging an axis value with itself changes nothing.
pub proof fn lemma_joystick_merge_idempotent(a: i16)
    ensures
        spec_joystick_merge(a, a) == a,
{
}

/// The per-frame merge policy: buttons and triggers are bitwise-ORed into
/// the accumulator (any press propagates, presses never cancel; OR on the
/// analog triggers is exact only at the fully-pressed and fully-released
/// extremes, and is kept as the established policy), and each stick axis
/// follows the most-deflected-wins rule of `spec_joystick_merge`.
pub open spec fn spec_merge_pad(src: GamepadState, acc: GamepadState) -> GamepadState {
    GamepadState {
        buttons: acc.buttons | src.buttons,
        left_trigger: acc.left_trigger | src.left_trigger,
        right_trigger: acc.right_trigger | src.right_trigger,
        thumb_lx: spec_joystick_merge(src.thumb_lx, acc.thumb_lx),
        thumb_ly: spec_joystick_merge(src.thumb_ly, acc.thumb_ly),
        thumb_rx: spec_joystick_merge(src.thumb_rx, acc.thumb_rx),
        thumb_ry: spec_joystick_merge(src.thumb_ry, acc.thumb_ry),
    }
}

/// Merge one raw controller sample into the tick's composed virtual state,
/// in place, field by field as `spec_merge_pad` states.
pub fn merge_pad_inputs(src: &GamepadState, gamepad: &mut GamepadState)
    ensures
        *final(gamepad) == spec_merge_pad(*src, *old(gamepad)),
        final(gamepad).buttons == old(gamepad).buttons | src.buttons,
        final(gamepad).left_trigger == old(gamepad).left_trigger | src.left_trigger,
        final(gamepad).right_trigger == old(gamepad).right_trigger | src.right_trigger,
        final(gamepad).thumb_lx == spec_joystick_merge(src.thumb_lx, old(gamepad).thumb_lx),
        final(gamepad).thumb_ly == spec_joystick_merge(src.thumb_ly, old(gamepad).thumb_ly),
        final(gamepad).thumb_rx == spec_joystick_merge(src.thumb_rx, old(gamepad).thumb_rx),
        final(gamepad).thumb_ry == spec_joystick_merge(src.thumb_ry, old(gamepad).thumb_ry),
{
    gamepad.buttons = gamepad.buttons | src.buttons;
    gamepad.left_trigger = gamepad.left_trigger | src.left_trigger;
    gamepad.right_trigger = gamepad.right_trigger | src.right_trigger;
    gamepad.thumb_lx = merge_thumb_joystick(src.thumb_lx, gamepad.thumb_lx);
    gamepad.thumb_ly = merge_thumb_joystick(src.thumb_ly, gamepad.thumb_ly);
    gamepad.thumb_rx = merge_thumb_joystick(src.thumb_rx, gamepad.thumb_rx);
    gamepad.thumb_ry = merge_thumb_joystick(src.thumb_ry, gamepad.thumb_ry);
}

/// Button bitmasks merge by OR, which is commutative and associative.
pub proof fn lemma_button_or_commutative_associative(a: u16, b: u16, c: u16)
    ensures
        a | b == b | a,
        (a | b) | c == a | (b | c),
{
    assert(a | b == b | a) by (bit_vector);
    assert((a | b) | c == a | (b | c)) by (bit_vector);
}

/// Merging two samples into an accumulator in either order yields the same
/// buttons result: the order in which a tick visits its active slots does
/// not affect the composed button bitmask.
pub proof fn lemma_merge_order_irrelevant_for_buttons(
    s: GamepadState,
    t: GamepadState,
    g: GamepadState,
)
    ensures
        spec_merge_pad(t, spec_merge_pad(s, g)).buttons == spec_merge_pad(
            s,
            spec_merge_pad(t, g),
        ).buttons,
{
    let gb = g.buttons;
    let sb = s.buttons;
    let tb = t.buttons;
    assert((gb | sb) | tb == (gb | tb) | sb) by (bit_vector);
}

/// The state reached by merging a run of successfully read samples, in
/// order, into the accumulator `acc`.
pub open spec fn spec_merge_all(samples: Seq<GamepadState>, acc: GamepadState) -> GamepadState
    decreases samples.len(),
{
    if samples.len() == 0 {
        acc
    } else {
        spec_merge_all(samples.drop_first(), spec_merge_pad(samples[0], acc))
    }
}

/// The buttons a merge run produces depend only on the buttons of its
/// accumulator, never on the accumulator's triggers or sticks.
proof fn lemma_merge_all_buttons_of_acc(samples: Seq<GamepadState>, g1: GamepadState, g2: GamepadState)
    requires
        g1.buttons == g2.buttons,
    ensures
        spec_merge_all(samples, g1).buttons == spec_merge_all(samples, g2).buttons,
    decreases samples.len(),
{
    if samples.len() > 0 {
        lemma_merge_all_buttons_of_acc(
            samples.drop_first(),
            spec_merge_pad(samples[0], g1),
            spec_merge_pad(samples[0], g2),
        );
    }
}

/// Any one sample of a merge run may be pulled out and merged first
/// without changing the buttons the run produces.
proof fn lemma_merge_all_buttons_pull(samples: Seq<GamepadState>, j: int, g: GamepadState)
    requires
        0 <= j < samples.len(),
    ensures
        spec_merge_all(samples, g).buttons == spec_merge_all(
            samples.remove(j),
            spec_merge_pad(samples[j], g),
        ).buttons,
    decreases j,
{
    if j == 0 {
        assert(samples.remove(0) =~= samples.drop_first());
    } else {
        let rest = samples.drop_first();
        let g0 = spec_merge_pad(samples[0], g);
        lemma_merge_all_buttons_pull(rest, j - 1, g0);
        assert(rest[j - 1] == samples[j]);
        assert(samples.remove(j).drop_first() =~= rest.remove(j - 1));
        assert(samples.remove(j)[0] == samples[0]);
        lemma_merge_order_irrelevant_for_buttons(samples[j], samples[0], g);
        lemma_merge_all_buttons_of_acc(
            rest.remove(j - 1),
            spec_merge_pad(samples[j], g0),
            spec_merge_pad(samples[0], spec_merge_pad(samples[j], g)),
        );
    }
}

/// Merging the same collection of samples in any order yields the same
/// composed button bitmask: two merge runs over rearrangements of one
/// another end with equal buttons, whatever the starting accumulator.
pub proof fn lemma_merge_all_buttons_order_irrelevant(
    s1: Seq<GamepadState>,
    s2: Seq<GamepadState>,
    g: GamepadState,
)
    requires
        s1.to_multiset() == s2.to_multiset(),
    ensures
        spec_merge_all(s1, g).buttons == spec_merge_all(s2, g).buttons,
    decreases s1.len(),
{
    broadcast use vstd::seq_lib::group_to_multiset_ensures;

    if s1.len() == 0 {
        assert(s2.to_multiset().len() == 0);
    } else {
        let x = s1[0];
        assert(s1.contains(x));
        assert(s2.to_multiset().count(x) > 0);
        assert(s2.contains(x));
        let j = choose|j: int| 0 <= j < s2.len() && s2[j] == x;
        lemma_merge_all_buttons_pull(s2, j, g);
        assert(s1.remove(0) =~= s1.drop_first());
        assert(s1.drop_first().to_multiset() == s1.to_multiset().remove(x));
        assert(s2.remove(j).to_multiset() == s2.to_multiset().remove(x));
        lemma_merge_all_buttons_order_irrelevant(
            s1.drop_first(),
            s2.remove(j),
            spec_merge_pad(x, g),
        );
    }
}

/// The composed state a tick reaches from accumulator `acc` when it walks
/// `samples` in order: a present sample is merged in, and the first absent
/// sample (a failed controller read) stops the walk, leaving whatever was
/// merged so far.
pub open spec fn spec_tick_from(samples: Seq<Option<GamepadState>>, acc: GamepadState) -> GamepadState
    decreases samples.len(),
{
    if samples.len() == 0 {
        acc
    } else {
        match samples[0] {
            Option::None => acc,
            Option::Some(s) => spec_tick_from(samples.drop_first(), spec_merge_pad(s, acc)),
        }
    }
}

/// The composed state of one whole poll tick, starting from the neutral
/// state.
pub open spec fn spec_tick(samples: Seq<Option<GamepadState>>) -> GamepadState {
    spec_tick_from(samples, GamepadState::spec_neutral())
}

/// A tick in which every controller read succeeded composes exactly the
/// merge run of its samples: the early-stop rule only matters when a read
/// fails.
pub proof fn lemma_tick_without_failures(
    samples: Seq<Option<GamepadState>>,
    oks: Seq<GamepadState>,
    acc: GamepadState,
)
    requires
        samples.len() == oks.len(),
        forall|i: int| 0 <= i < samples.len() ==> samples[i] == Option::Some(#[trigger] oks[i]),
    ensures
        spec_tick_from(samples, acc) == spec_merge_all(oks, acc),
    decreases samples.len(),
{
    if samples.len() > 0 {
        assert(samples[0] == Option::Some(oks[0]));
        assert forall|i: int| 0 <= i < samples.drop_first().len() implies samples.drop_first()[i]
            == Option::Some(#[trigger] oks.drop_first()[i]) by {
            assert(samples.drop_first()[i] == samples[i + 1]);
            assert(oks.drop_first()[i] == oks[i + 1]);
        }
        lemma_tick_without_failures(
            samples.drop_first(),
            oks.drop_first(),
            spec_merge_pad(oks[0], acc),
        );
    }
}

/// One poll tick's merge step: fold the samples read from the active slots,
/// in slot order, into a fresh neutral accumulator. `None` marks a failed
/// read; it ends the tick's merging early, and the partial result is still
/// returned so the caller can publish it.
pub fn merge_tick(samples: &Vec<Option<GamepadState>>) -> (r: GamepadState)
    ensures
        r == spec_tick(samples@),
{
    let mut gamepad = GamepadState::neutral();
    let n: usize = samples.len();
    proof {
        assert(samples@.subrange(0, n as int) =~= samples@);
    }
    let mut i: usize = 0;
    while i < n
        invariant
            i <= n,
            n == samples@.len(),
            spec_tick_from(samples@.subrange(i as int, n as int), gamepad) == spec_tick(samples@),
        decreases n - i,
    {
        proof {
            assert(samples@.subrange(i as int, n as int)[0] == samples@[i as int]);
            assert(samples@.subrange(i as int, n as int).drop_first() =~= samples@.subrange(
                i as int + 1,
                n as int,
            ));
        }
        match samples[i] {
            Option::Some(s) => {
                merge_pad_inputs(&s, &mut gamepad);
            },
            Option::None => {
                return gamepad;
            },
        }
        i = i + 1;
    }
    proof {
        assert(samples@.subrange(n as int, n as int).len() == 0);
    }
    gamepad
}

} // verus!
