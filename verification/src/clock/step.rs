use vstd::prelude::*;
use crate::clock::parse::{digit_of, digit_value, is_digit};
use crate::clock::time_zone::six_digits;
use crate::color::Rgb565Color;
use crate::draw::{fill, point, Point, PixelFill, TextDraw};
use crate::utils::screen_utils::draw_text;

verus! {

/// One digit of the time to draw anew: its position in the time text and its
/// value, which selects the glyph.
#[derive(Debug, Clone, Copy, PartialEq, Eq, Structural)]
pub struct DigitDraw {
    pub position: usize,
    pub digit: usize,
}

/// The digits to redraw when the time text changes from `old` to `new`,
/// looking at the positions from `from` on that both texts have: each
/// position whose character changed, in order, up to the first changed
/// character that is not a digit. The flag tells whether the end was reached
/// without such a character.
pub open spec fn spec_digit_plan(new: Seq<char>, old: Seq<char>, from: int) -> (Seq<DigitDraw>, bool)
    decreases new.len() - from,
{
    if from < 0 || from >= new.len() || from >= old.len() {
        (Seq::empty(), true)
    } else if new[from] == old[from] {
        spec_digit_plan(new, old, from + 1)
    } else if !is_digit(new[from]) {
        (Seq::empty(), false)
    } else {
        let rest = spec_digit_plan(new, old, from + 1);
        (
            seq![DigitDraw { position: from as usize, digit: digit_value(new[from]) as usize }]
                + rest.0,
            rest.1,
        )
    }
}

/// The digits to redraw when the shown time text `old` is replaced by `new`.
pub fn plan_time_redraw(new: &str, old: &str) -> (r: (Vec<DigitDraw>, bool))
    ensures
        r.0@ == spec_digit_plan(new@, old@, 0).0,
        r.1 == spec_digit_plan(new@, old@, 0).1,
{
    let n: usize = new.unicode_len();
    let m: usize = old.unicode_len();
    let bound: usize = if n < m { n } else { m };
    let mut digits: Vec<DigitDraw> = Vec::new();
    let mut i: usize = 0;
    assert(digits@ + spec_digit_plan(new@, old@, 0).0 =~= spec_digit_plan(new@, old@, 0).0);
    while i < bound
        invariant
            n == new@.len(),
            m == old@.len(),
            bound == if n < m { n } else { m },
            i <= bound,
            spec_digit_plan(new@, old@, 0).0 =~= digits@ + spec_digit_plan(new@, old@, i as int).0,
            spec_digit_plan(new@, old@, 0).1 == spec_digit_plan(new@, old@, i as int).1,
        decreases bound - i,
    {
        let c1: char = new.get_char(i);
        let c2: char = old.get_char(i);
        if c1 != c2 {
            match digit_of(c1) {
                None => {
                    return (digits, false);
                },
                Some(d) => {
                    let ghost before = digits@;
                    digits.push(DigitDraw { position: i, digit: d });
                    assert(digits@ + spec_digit_plan(new@, old@, i + 1).0 =~= before + (seq![
                        DigitDraw { position: i, digit: d },
                    ] + spec_digit_plan(new@, old@, i + 1).0));
                },
            }
        }
        i = i + 1;
    }
    assert(digits@ + spec_digit_plan(new@, old@, i as int).0 =~= digits@);
    (digits, true)
}

/// How long, in milliseconds, a picture stays before it is fetched anew.
pub const IMAGE_REFRESH_MILLIS: i64 = 50000;

/// What the clock has shown: the date and time texts on the screen, and when
/// each of the two pictures was last fetched.
pub struct ClockState {
    pub current_date: String,
    pub current_time: String,
    pub last_updated_at_a: i64,
    pub last_updated_at_b: i64,
}

/// The abstract value of a `ClockState`.
pub struct ClockModel {
    pub date: Seq<char>,
    pub time: Seq<char>,
    pub last_a: int,
    pub last_b: int,
}

/// What one pass of the clock's loop does to the screen.
pub enum ClockAction {
    /// Draw these digits of the time anew, in order; `complete` is false when
    /// a changed character is not a digit, which ends the clock with an error.
    RedrawTime { digits: Vec<DigitDraw>, complete: bool },
    /// Blank the date's band, then write the date.
    RedrawDate { clear: PixelFill, text: TextDraw },
    /// Fetch picture `slot` (0 or 1) and draw it at `origin`.
    RefreshImage { slot: usize, origin: Point },
    /// Nothing changed.
    Idle,
}

/// The abstract value of a `ClockAction`.
pub enum ActionModel {
    RedrawTime { digits: Seq<DigitDraw>, complete: bool },
    RedrawDate { text: Seq<char> },
    RefreshImage { slot: int },
    Idle,
}

impl ClockState {
    pub open spec fn model(&self) -> ClockModel {
        ClockModel {
            date: self.current_date@,
            time: self.current_time@,
            last_a: self.last_updated_at_a as int,
            last_b: self.last_updated_at_b as int,
        }
    }
}

impl ClockAction {
    pub open spec fn model(&self) -> ActionModel {
        match self {
            ClockAction::RedrawTime { digits, complete } => ActionModel::RedrawTime { digits: digits@, complete: *complete },
            ClockAction::RedrawDate { clear, text } => ActionModel::RedrawDate { text: text.text@ },
            ClockAction::RefreshImage { slot, origin } => ActionModel::RefreshImage { slot: *slot as int },
            ClockAction::Idle => ActionModel::Idle,
        }
    }
}

/// The time text that the clock starts from: six characters that no digit
/// equals, so that the first pass draws every digit.
pub open spec fn initial_time_text() -> Seq<char> {
    seq!['a', 'a', 'a', 'a', 'a', 'a']
}

/// The state before the first pass: no date shown, the placeholder time, and
/// both pictures last fetched at time 0.
pub fn initial_state() -> (s: ClockState)
    ensures
        s.model() == (ClockModel { date: Seq::empty(), time: initial_time_text(), last_a: 0, last_b: 0 }),
{
    let s = ClockState {
        current_date: String::new(),
        current_time: String::from_str("aaaaaa"),
        last_updated_at_a: 0,
        last_updated_at_b: 0,
    };
    proof {
        reveal_strlit("aaaaaa");
    }
    assert(s.current_date@ =~= Seq::<char>::empty());
    assert(s.current_time@ =~= initial_time_text());
    s
}

/// One pass of the clock's loop at clock time `millis`, with the date and
/// time texts for that instant. The time comes first: a changed time is
/// redrawn digit by digit. Else a changed date is redrawn. Else the first
/// picture is fetched when more than 50 s passed since it last was, else the
/// second likewise.
pub open spec fn spec_step(m: ClockModel, millis: int, date: Seq<char>, time: Seq<char>) -> (ClockModel, ActionModel) {
    if time != m.time {
        let plan = spec_digit_plan(time, m.time, 0);
        (
            if plan.1 { ClockModel { time, ..m } } else { m },
            ActionModel::RedrawTime { digits: plan.0, complete: plan.1 },
        )
    } else if date != m.date {
        (ClockModel { date, ..m }, ActionModel::RedrawDate { text: date })
    } else if millis - m.last_a > IMAGE_REFRESH_MILLIS {
        (ClockModel { last_a: millis, ..m }, ActionModel::RefreshImage { slot: 0 })
    } else if millis - m.last_b > IMAGE_REFRESH_MILLIS {
        (ClockModel { last_b: millis, ..m }, ActionModel::RefreshImage { slot: 1 })
    } else {
        (m, ActionModel::Idle)
    }
}

pub open spec fn fits_i64(v: int) -> bool {
    i64::MIN <= v <= i64::MAX
}

/// The elapsed times that a pass compares with the refresh period can be
/// computed in `i64`.
pub open spec fn step_arith_ok(m: ClockModel, millis: int, date: Seq<char>, time: Seq<char>) -> bool {
    (time == m.time && date == m.date) ==> {
        &&& fits_i64(millis - m.last_a)
        &&& (millis - m.last_a <= IMAGE_REFRESH_MILLIS ==> fits_i64(millis - m.last_b))
    }
}

/// Whether `clock_step` can compare the elapsed times for this pass.
pub fn step_computable(state: &ClockState, current_millis: i64, date_text: &String, time_text: &String) -> (r: bool)
    ensures
        r == step_arith_ok(state.model(), current_millis as int, date_text@, time_text@),
{
    if !(*time_text == state.current_time) || !(*date_text == state.current_date) {
        return true;
    }
    let since_a: i128 = current_millis as i128 - state.last_updated_at_a as i128;
    if since_a < i64::MIN as i128 || since_a > i64::MAX as i128 {
        return false;
    }
    if since_a > IMAGE_REFRESH_MILLIS as i128 {
        return true;
    }
    let since_b: i128 = current_millis as i128 - state.last_updated_at_b as i128;
    i64::MIN as i128 <= since_b && since_b <= i64::MAX as i128
}

/// The colour of the band behind the date: green when debugging, else black.
pub open spec fn date_band_color(is_debug: bool) -> Rgb565Color {
    if is_debug {
        Rgb565Color { r: 0, g: 63, b: 0 }
    } else {
        Rgb565Color { r: 0, g: 0, b: 0 }
    }
}

/// The fill that blanks the date's band, from `(10, 185)` to `(450, 205)`,
/// with 550 * 20 pixels.
pub open spec fn spec_date_band_fill(is_debug: bool) -> PixelFill {
    fill(10, 185, 450, 205, date_band_color(is_debug), 550int * 20)
}

/// Where picture `slot` is drawn.
pub open spec fn spec_image_origin(slot: int) -> Point {
    if slot == 0 { point(10, 220) } else { point(250, 220) }
}

/// One pass of the clock's loop: what to draw, and the state after it.
pub fn clock_step(state: ClockState, current_millis: i64, date_text: String, time_text: String, is_debug: bool) -> (r: (ClockState, ClockAction))
    requires
        step_arith_ok(state.model(), current_millis as int, date_text@, time_text@),
    ensures
        r.0.model() == spec_step(state.model(), current_millis as int, date_text@, time_text@).0,
        r.1.model() == spec_step(state.model(), current_millis as int, date_text@, time_text@).1,
        r.1 matches ClockAction::RedrawDate { clear, text } ==> clear == spec_date_band_fill(is_debug)
            && text.position == point(10, 200) && text.color == (Rgb565Color { r: 31, g: 63, b: 31 }),
        r.1 matches ClockAction::RedrawDate { clear, text } ==> clear == (PixelFill {
            start_x: 10,
            start_y: 185,
            end_x: 450,
            end_y: 205,
            color: if is_debug { Rgb565Color { r: 0, g: 63, b: 0 } } else { Rgb565Color { r: 0, g: 0, b: 0 } },
            count: 11000,
        }) && text.position == (Point { x: 10, y: 200 }),
        r.1 matches ClockAction::RefreshImage { slot, origin } ==> origin == spec_image_origin(slot as int),
        r.1 matches ClockAction::RefreshImage { slot, origin } ==> (slot == 0 && origin == (Point { x: 10, y: 220 }))
            || (slot == 1 && origin == (Point { x: 250, y: 220 })),
        // What a pass records is what it drew, and nothing else.
        r.0.current_date@ == if r.1 is RedrawDate { date_text@ } else { state.current_date@ },
        r.0.current_time@ == if r.1 matches ClockAction::RedrawTime { complete, .. } && complete {
            time_text@
        } else {
            state.current_time@
        },
        r.0.last_updated_at_a == if r.1 matches ClockAction::RefreshImage { slot, .. } && slot == 0 {
            current_millis
        } else {
            state.last_updated_at_a
        },
        r.0.last_updated_at_b == if r.1 matches ClockAction::RefreshImage { slot, .. } && slot == 1 {
            current_millis
        } else {
            state.last_updated_at_b
        },
{
    let ClockState { current_date, current_time, last_updated_at_a, last_updated_at_b } = state;
    if !(time_text == current_time) {
        let (digits, complete) = plan_time_redraw(time_text.as_str(), current_time.as_str());
        let new_time = if complete { time_text } else { current_time };
        let next = ClockState { current_date, current_time: new_time, last_updated_at_a, last_updated_at_b };
        (next, ClockAction::RedrawTime { digits, complete })
    } else if !(date_text == current_date) {
        let color = if is_debug { Rgb565Color::green() } else { Rgb565Color::black() };
        let clear = PixelFill { start_x: 10, start_y: 185, end_x: 450, end_y: 205, color, count: 550 * 20 };
        let text = draw_text(date_text.as_str(), Point::new(10, 200), Rgb565Color::white());
        let next = ClockState { current_date: date_text, current_time, last_updated_at_a, last_updated_at_b };
        (next, ClockAction::RedrawDate { clear, text })
    } else if current_millis - last_updated_at_a > IMAGE_REFRESH_MILLIS {
        let next = ClockState { current_date, current_time, last_updated_at_a: current_millis, last_updated_at_b };
        (next, ClockAction::RefreshImage { slot: 0, origin: Point::new(10, 220) })
    } else if current_millis - last_updated_at_b > IMAGE_REFRESH_MILLIS {
        let next = ClockState { current_date, current_time, last_updated_at_a, last_updated_at_b: current_millis };
        (next, ClockAction::RefreshImage { slot: 1, origin: Point::new(250, 220) })
    } else {
        let next = ClockState { current_date, current_time, last_updated_at_a, last_updated_at_b };
        (next, ClockAction::Idle)
    }
}

/// Some entry of the plan redraws position `n`.
pub open spec fn plan_has_position(s: Seq<DigitDraw>, n: int) -> bool {
    exists|k: int| 0 <= k < s.len() && (#[trigger] s[k]).position == n
}

/// The positions that both texts have.
pub open spec fn common_len(new: Seq<char>, old: Seq<char>) -> int {
    if new.len() < old.len() { new.len() as int } else { old.len() as int }
}

/// The plan from `from` on redraws exactly the changed positions from `from`
/// on, in increasing order, each with its digit's value, up to the first
/// changed character that is not a digit, which makes it incomplete.
proof fn lemma_digit_plan_from(new: Seq<char>, old: Seq<char>, from: int)
    requires
        0 <= from,
        new.len() <= usize::MAX,
    ensures
        ({
            let p = spec_digit_plan(new, old, from);
            &&& forall|k: int| 0 <= k < p.0.len() ==> {
                let d = #[trigger] p.0[k];
                &&& from <= d.position < common_len(new, old)
                &&& new[d.position as int] != old[d.position as int]
                &&& is_digit(new[d.position as int])
                &&& d.digit == digit_value(new[d.position as int])
            }
            &&& forall|k: int, l: int| 0 <= k < l < p.0.len() ==> p.0[k].position < p.0[l].position
            &&& p.1 ==> forall|n: int| from <= n < common_len(new, old) && new[n] != old[n]
                ==> plan_has_position(p.0, n)
            &&& !p.1 ==> exists|s: int| {
                &&& from <= s < common_len(new, old)
                &&& new[s] != old[s]
                &&& !is_digit(new[s])
                &&& forall|k: int| 0 <= k < p.0.len() ==> (#[trigger] p.0[k]).position < s
                &&& forall|n: int| from <= n < s && new[n] != old[n]
                    ==> plan_has_position(p.0, n)
            }
        }),
    decreases new.len() - from,
{
    if from >= new.len() || from >= old.len() {
    } else {
        lemma_digit_plan_from(new, old, from + 1);
        let rest = spec_digit_plan(new, old, from + 1);
        let p = spec_digit_plan(new, old, from);
        if new[from] == old[from] {
            if !p.1 {
                let s = choose|s: int| {
                    &&& from + 1 <= s < common_len(new, old)
                    &&& new[s] != old[s]
                    &&& !is_digit(new[s])
                    &&& forall|k: int| 0 <= k < rest.0.len() ==> (#[trigger] rest.0[k]).position < s
                    &&& forall|n: int| from + 1 <= n < s && new[n] != old[n]
                        ==> plan_has_position(rest.0, n)
                };
                assert(forall|n: int| from <= n < s && new[n] != old[n]
                    ==> plan_has_position(p.0, n));
            }
        } else if !is_digit(new[from]) {
            assert(forall|n: int| from <= n < from && new[n] != old[n]
                ==> plan_has_position(p.0, n));
        } else {
            let head = DigitDraw { position: from as usize, digit: digit_value(new[from]) as usize };
            assert(p.0 == seq![head] + rest.0);
            assert forall|k: int| 0 <= k < p.0.len() implies ({
                let d = #[trigger] p.0[k];
                &&& from <= d.position < common_len(new, old)
                &&& new[d.position as int] != old[d.position as int]
                &&& is_digit(new[d.position as int])
                &&& d.digit == digit_value(new[d.position as int])
            }) by {
                if k > 0 {
                    assert(p.0[k] == rest.0[k - 1]);
                }
            }
            assert forall|k: int, l: int| 0 <= k < l < p.0.len() implies p.0[k].position < p.0[l].position by {
                assert(p.0[l] == rest.0[l - 1]);
                if k > 0 {
                    assert(p.0[k] == rest.0[k - 1]);
                }
            }
            if p.1 {
                assert forall|n: int| from <= n < common_len(new, old) && new[n] != old[n]
                    implies plan_has_position(p.0, n) by {
                    if n == from {
                        assert(p.0[0].position == n);
                    } else {
                        let k = choose|k: int| 0 <= k < rest.0.len() && (#[trigger] rest.0[k]).position == n;
                        assert(p.0[k + 1] == rest.0[k]);
                    }
                }
            } else {
                let s = choose|s: int| {
                    &&& from + 1 <= s < common_len(new, old)
                    &&& new[s] != old[s]
                    &&& !is_digit(new[s])
                    &&& forall|k: int| 0 <= k < rest.0.len() ==> (#[trigger] rest.0[k]).position < s
                    &&& forall|n: int| from + 1 <= n < s && new[n] != old[n]
                        ==> plan_has_position(rest.0, n)
                };
                assert forall|k: int| 0 <= k < p.0.len() implies (#[trigger] p.0[k]).position < s by {
                    if k > 0 {
                        assert(p.0[k] == rest.0[k - 1]);
                    }
                }
                assert forall|n: int| from <= n < s && new[n] != old[n]
                    implies plan_has_position(p.0, n) by {
                    if n == from {
                        assert(p.0[0].position == n);
                    } else {
                        let k = choose|k: int| 0 <= k < rest.0.len() && (#[trigger] rest.0[k]).position == n;
                        assert(p.0[k + 1] == rest.0[k]);
                    }
                }
            }
        }
    }
}

/// Only changed digits are redrawn, and every changed one: the plan holds,
/// in increasing order, exactly the positions whose character changed, each
/// with the new digit, up to the first changed character that is not a digit;
/// it is complete when there is no such character.
pub proof fn lemma_digit_plan_exact(new: Seq<char>, old: Seq<char>)
    requires
        new.len() <= usize::MAX,
    ensures
        ({
            let p = spec_digit_plan(new, old, 0);
            &&& forall|k: int| 0 <= k < p.0.len() ==> {
                let d = #[trigger] p.0[k];
                &&& d.position < common_len(new, old)
                &&& new[d.position as int] != old[d.position as int]
                &&& d.digit == digit_value(new[d.position as int])
                &&& d.digit < 10
            }
            &&& forall|k: int, l: int| 0 <= k < l < p.0.len() ==> p.0[k].position < p.0[l].position
            &&& p.1 <==> forall|n: int| 0 <= n < common_len(new, old) && new[n] != old[n] ==> is_digit(new[n])
            &&& p.1 ==> forall|n: int| 0 <= n < common_len(new, old) && new[n] != old[n]
                ==> plan_has_position(p.0, n)
        }),
{
    lemma_digit_plan_from(new, old, 0);
    let p = spec_digit_plan(new, old, 0);
    if p.1 {
        assert forall|n: int| 0 <= n < common_len(new, old) && new[n] != old[n] implies is_digit(new[n]) by {
            let k = choose|k: int| 0 <= k < p.0.len() && (#[trigger] p.0[k]).position == n;
            assert(is_digit(new[p.0[k].position as int]));
        }
    }
}

/// A time text of six digits, such as every time text the clock is given,
/// never ends the clock: a pass that sees it change redraws exactly the
/// changed positions among those both texts have, each with its digit's
/// value below 10, in increasing order, and then shows that time.
pub proof fn lemma_six_digit_time_redraw(m: ClockModel, millis: int, date: Seq<char>, time: Seq<char>)
    requires
        six_digits(time),
        time != m.time,
    ensures
        ({
            let (m1, a1) = spec_step(m, millis, date, time);
            &&& m1.time == time
            &&& a1 matches ActionModel::RedrawTime { digits, complete }
            &&& complete
            &&& forall|k: int| 0 <= k < digits.len() ==> (#[trigger] digits[k]).digit < 10
                && digits[k].digit == digit_value(time[digits[k].position as int])
            &&& forall|k: int, l: int| 0 <= k < l < digits.len() ==> digits[k].position < digits[l].position
            &&& forall|n: int| 0 <= n < common_len(time, m.time) ==> (time[n] != m.time[n]
                <==> #[trigger] plan_has_position(digits, n))
        }),
{
    lemma_digit_plan_exact(time, m.time);
    let p = spec_digit_plan(time, m.time, 0);
    assert forall|n: int| 0 <= n < common_len(time, m.time) && time[n] != m.time[n] implies is_digit(time[n]) by {
        assert('0' <= time[n] <= '9');
    }
    assert forall|n: int| 0 <= n < common_len(time, m.time) implies (time[n] != m.time[n]
        <==> #[trigger] plan_has_position(p.0, n)) by {
        if plan_has_position(p.0, n) {
            let k = choose|k: int| 0 <= k < p.0.len() && (#[trigger] p.0[k]).position == n;
            assert(time[p.0[k].position as int] != m.time[p.0[k].position as int]);
        }
    }
}

/// Repeating a pass with the same clock time and texts repeats nothing it
/// drew, except a time redraw that stopped at a character that is not a
/// digit: what a pass draws is recorded in the state it leaves.
pub proof fn lemma_repeated_pass_settles(m: ClockModel, millis: int, date: Seq<char>, time: Seq<char>)
    ensures
        ({
            let (m1, a1) = spec_step(m, millis, date, time);
            let (m2, a2) = spec_step(m1, millis, date, time);
            a2 == a1 ==> (a1 is Idle || (a1 matches ActionModel::RedrawTime { complete, .. } && !complete))
        }),
{
}

/// A picture is fetched at most once in any 50 s: after a pass fetches
/// picture `slot` at clock time `t`, no following pass up to `t + 50000` ms
/// fetches it, whatever texts it is given.
pub proof fn lemma_image_refresh_throttled(
    m: ClockModel,
    t: int,
    date: Seq<char>,
    time: Seq<char>,
    slot: int,
    later: int,
    later_date: Seq<char>,
    later_time: Seq<char>,
)
    requires
        spec_step(m, t, date, time).1 == (ActionModel::RefreshImage { slot }),
        t <= later <= t + IMAGE_REFRESH_MILLIS,
    ensures
        spec_step(spec_step(m, t, date, time).0, later, later_date, later_time).1
            != (ActionModel::RefreshImage { slot }),
{
}

/// One tick of the clock's loop: the clock time and the date and time texts
/// for it.
pub struct ClockTick {
    pub millis: int,
    pub date: Seq<char>,
    pub time: Seq<char>,
}

/// The state after the passes of `ticks`, in order, from `m`.
pub open spec fn spec_run(m: ClockModel, ticks: Seq<ClockTick>) -> ClockModel
    decreases ticks.len(),
{
    if ticks.len() == 0 {
        m
    } else {
        let t = ticks.last();
        spec_step(spec_run(m, ticks.drop_last()), t.millis, t.date, t.time).0
    }
}

/// A pass records exactly what it drew and nothing else: the date only when
/// it redraws the date (then the new date), the time only when it redraws
/// the time in full (then the new time), and the fetch time of a picture
/// only when it fetches that picture (then the clock time). And it draws
/// only what is due: the time when it changed, the date when it changed, a
/// picture when more than 50 s passed since its last fetch; it is idle only
/// when nothing is due.
pub proof fn lemma_pass_records_only_what_it_draws(m: ClockModel, millis: int, date: Seq<char>, time: Seq<char>)
    ensures
        ({
            let (m1, a) = spec_step(m, millis, date, time);
            &&& m1.date == if a is RedrawDate { date } else { m.date }
            &&& m1.time == if a matches ActionModel::RedrawTime { complete, .. } && complete { time } else { m.time }
            &&& m1.last_a == if a == (ActionModel::RefreshImage { slot: 0 }) { millis } else { m.last_a }
            &&& m1.last_b == if a == (ActionModel::RefreshImage { slot: 1 }) { millis } else { m.last_b }
            &&& a is RedrawTime ==> time != m.time
            &&& a matches ActionModel::RedrawDate { text } ==> text == date && date != m.date && time == m.time
            &&& a matches ActionModel::RefreshImage { slot } ==> (slot == 0 || slot == 1) && time == m.time
                && date == m.date
            &&& a == (ActionModel::RefreshImage { slot: 0 }) ==> millis - m.last_a > IMAGE_REFRESH_MILLIS
            &&& a == (ActionModel::RefreshImage { slot: 1 }) ==> millis - m.last_b > IMAGE_REFRESH_MILLIS
            &&& (a is RedrawTime <==> time != m.time)
            &&& (a is RedrawDate <==> (time == m.time && date != m.date))
            &&& (a == (ActionModel::RefreshImage { slot: 0 }) <==> (time == m.time && date == m.date
                && millis - m.last_a > IMAGE_REFRESH_MILLIS))
            &&& (a == (ActionModel::RefreshImage { slot: 1 }) <==> (time == m.time && date == m.date
                && millis - m.last_a <= IMAGE_REFRESH_MILLIS && millis - m.last_b > IMAGE_REFRESH_MILLIS))
            &&& a is Idle <==> (time == m.time && date == m.date && millis - m.last_a <= IMAGE_REFRESH_MILLIS
                && millis - m.last_b <= IMAGE_REFRESH_MILLIS)
        }),
{
}

/// Whichever ticks follow, a picture fetched at clock time `t` is not
/// fetched again by any later pass at a clock time up to `t + 50000` ms.
pub proof fn lemma_image_fetched_once_per_period(
    m: ClockModel,
    t: int,
    date: Seq<char>,
    time: Seq<char>,
    slot: int,
    ticks: Seq<ClockTick>,
)
    requires
        spec_step(m, t, date, time).1 == (ActionModel::RefreshImage { slot }),
        forall|i: int| 0 <= i < ticks.len() ==> (#[trigger] ticks[i]).millis <= t + IMAGE_REFRESH_MILLIS,
    ensures
        forall|i: int| #![trigger ticks[i]] 0 <= i < ticks.len() ==> ({
            let before = spec_run(spec_step(m, t, date, time).0, ticks.take(i));
            spec_step(before, ticks[i].millis, ticks[i].date, ticks[i].time).1 != (ActionModel::RefreshImage { slot })
        }),
{
    let m1 = spec_step(m, t, date, time).0;
    lemma_pass_records_only_what_it_draws(m, t, date, time);
    assert forall|i: int| #![trigger ticks[i]] 0 <= i < ticks.len() implies ({
        let before = spec_run(m1, ticks.take(i));
        spec_step(before, ticks[i].millis, ticks[i].date, ticks[i].time).1 != (ActionModel::RefreshImage { slot })
    }) by {
        lemma_fetch_time_kept(m1, t, slot, ticks, i);
        let before = spec_run(m1, ticks.take(i));
        lemma_pass_records_only_what_it_draws(before, ticks[i].millis, ticks[i].date, ticks[i].time);
    }
}

/// Along ticks no later than `t + 50000`, the fetch time `t` of picture
/// `slot` stays as it is.
proof fn lemma_fetch_time_kept(m1: ClockModel, t: int, slot: int, ticks: Seq<ClockTick>, i: int)
    requires
        slot == 0 ==> m1.last_a == t,
        slot == 1 ==> m1.last_b == t,
        forall|k: int| 0 <= k < ticks.len() ==> (#[trigger] ticks[k]).millis <= t + IMAGE_REFRESH_MILLIS,
        0 <= i <= ticks.len(),
    ensures
        slot == 0 ==> spec_run(m1, ticks.take(i)).last_a == t,
        slot == 1 ==> spec_run(m1, ticks.take(i)).last_b == t,
    decreases i,
{
    if i == 0 {
        assert(ticks.take(0).len() == 0);
    } else {
        lemma_fetch_time_kept(m1, t, slot, ticks, i - 1);
        let prefix = ticks.take(i);
        assert(prefix.drop_last() =~= ticks.take(i - 1));
        assert(prefix.last() == ticks[i - 1]);
        let before = spec_run(m1, ticks.take(i - 1));
        let tk = ticks[i - 1];
        lemma_pass_records_only_what_it_draws(before, tk.millis, tk.date, tk.time);
    }
}

/// The placeholder time differs from every digit, so the first pass after
/// start draws each digit of a time text of six digits, in order.
pub proof fn lemma_first_pass_draws_every_digit(millis: int, date: Seq<char>, time: Seq<char>)
    requires
        time.len() == 6,
        forall|i: int| 0 <= i < 6 ==> is_digit(#[trigger] time[i]),
    ensures
        ({
            let start = ClockModel { date: Seq::empty(), time: initial_time_text(), last_a: 0, last_b: 0 };
            let (m1, a1) = spec_step(start, millis, date, time);
            &&& m1.time == time
            &&& a1 matches ActionModel::RedrawTime { digits, complete }
            &&& complete
            &&& digits.len() == 6
            &&& forall|k: int| 0 <= k < 6 ==> (#[trigger] digits[k]).position == k
                && digits[k].digit == digit_value(time[k])
        }),
{
    let old = initial_time_text();
    assert(time[0] != old[0]);
    lemma_digit_plan_exact(time, old);
    let p = spec_digit_plan(time, old, 0);
    assert forall|n: int| 0 <= n < 6 implies time[n] != old[n] by {
        assert(is_digit(time[n]));
    }
    assert(p.1);
    // Every position is in the plan, and the plan holds distinct positions below 6.
    assert forall|k: int| 0 <= k < p.0.len() implies (#[trigger] p.0[k]).position == k by {
        lemma_sorted_positions_are_indices(p.0, k);
    }
    lemma_cover_len(p.0);
}

/// In increasing positions below 6 that cover all of 0..6, the position at
/// index `k` is `k`.
proof fn lemma_sorted_positions_are_indices(s: Seq<DigitDraw>, k: int)
    requires
        forall|i: int| 0 <= i < s.len() ==> (#[trigger] s[i]).position < 6,
        forall|i: int, j: int| 0 <= i < j < s.len() ==> s[i].position < s[j].position,
        forall|n: int| 0 <= n < 6 ==> #[trigger] plan_has_position(s, n),
        0 <= k < s.len(),
    ensures
        s[k].position == k,
    decreases k,
{
    if k > 0 {
        lemma_sorted_positions_are_indices(s, k - 1);
    }
    // At least k and at most k.
    assert(s[k].position >= k) by {
        if k > 0 {
            assert(s[k - 1].position < s[k].position);
        }
    }
    if s[k].position > k {
        assert(plan_has_position(s, k));
        let i = choose|i: int| 0 <= i < s.len() && (#[trigger] s[i]).position == k;
        if i < k {
            lemma_sorted_positions_are_indices(s, i);
        } else if i > k {
            assert(s[k].position < s[i].position);
        }
    }
}

proof fn lemma_cover_len(s: Seq<DigitDraw>)
    requires
        forall|i: int| 0 <= i < s.len() ==> (#[trigger] s[i]).position == i,
        forall|i: int| 0 <= i < s.len() ==> s[i].position < 6,
        forall|n: int| 0 <= n < 6 ==> #[trigger] plan_has_position(s, n),
    ensures
        s.len() == 6,
{
    assert(plan_has_position(s, 5));
    let i = choose|i: int| 0 <= i < s.len() && (#[trigger] s[i]).position == 5;
    assert(s[i].position == i);
    if s.len() > 6 {
        assert(s[6].position == 6);
    }
}

} // verus!
