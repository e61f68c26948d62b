use vstd::prelude::*;

use crate::dispatcher::{
    abs_events_spec, bit_pressed, is_touching_spec, normalize_spec, pen_events_spec,
    pen_key_events_spec, pen_transition, tablet_button_events, tablet_events_spec,
    tablet_events_upto, tablet_transition, touch_events_spec, TABLET_MASK_SENTINEL,
};
use crate::events::{key_event, key_events, syn_event, EventKind, OutputEvent, HOLD, PRESSED,
    RELEASED};
use crate::mapping::{pen_keys_spec, tablet_keys_spec, valid_tablet_button};
use crate::report::{
    pen_button_spec, pressure_spec, tablet_mask_spec, x_axis_spec, y_axis_spec, MIN_REPORT_LEN,
};

verus! {

/// Number of key events in `s` with this code and this value.
pub open spec fn count_key_value(s: Seq<OutputEvent>, code: u16, value: i32) -> nat
    decreases s.len(),
{
    if s.len() == 0 {
        0
    } else {
        count_key_value(s.drop_first(), code, value) + (if s[0].kind == EventKind::Key && s[0].code
            == code && s[0].value == value {
            1nat
        } else {
            0nat
        })
    }
}

/// Number of occurrences of `code` in `codes`.
pub open spec fn code_count(codes: Seq<u16>, code: u16) -> nat
    decreases codes.len(),
{
    if codes.len() == 0 {
        0
    } else {
        code_count(codes.drop_first(), code) + (if codes[0] == code {
            1nat
        } else {
            0nat
        })
    }
}

/// Number of events in `s` of this kind.
pub open spec fn count_kind(s: Seq<OutputEvent>, kind: EventKind) -> nat
    decreases s.len(),
{
    if s.len() == 0 {
        0
    } else {
        count_kind(s.drop_first(), kind) + (if s[0].kind == kind {
            1nat
        } else {
            0nat
        })
    }
}

/// No key event in `s` carries this value.
pub open spec fn no_key_value(s: Seq<OutputEvent>, value: i32) -> bool {
    forall|n: int|
        0 <= n < s.len() ==> ((#[trigger] s[n]).kind == EventKind::Key ==> s[n].value != value)
}

pub proof fn lemma_count_key_value_concat(a: Seq<OutputEvent>, b: Seq<OutputEvent>, code: u16, value: i32)
    ensures
        count_key_value(a + b, code, value) == count_key_value(a, code, value) + count_key_value(
            b,
            code,
            value,
        ),
    decreases a.len(),
{
    if a.len() == 0 {
        assert(a + b =~= b);
    } else {
        assert((a + b).drop_first() =~= a.drop_first() + b);
        assert((a + b)[0] == a[0]);
        lemma_count_key_value_concat(a.drop_first(), b, code, value);
    }
}

pub proof fn lemma_count_kind_concat(a: Seq<OutputEvent>, b: Seq<OutputEvent>, kind: EventKind)
    ensures
        count_kind(a + b, kind) == count_kind(a, kind) + count_kind(b, kind),
    decreases a.len(),
{
    if a.len() == 0 {
        assert(a + b =~= b);
    } else {
        assert((a + b).drop_first() =~= a.drop_first() + b);
        assert((a + b)[0] == a[0]);
        lemma_count_kind_concat(a.drop_first(), b, kind);
    }
}

/// The events of `key_events(codes, value)` are exactly the key events of
/// the codes, in order.
pub proof fn lemma_key_events_elems(codes: Seq<u16>, value: i32)
    ensures
        key_events(codes, value).len() == codes.len(),
        forall|n: int|
            0 <= n < codes.len() ==> #[trigger] key_events(codes, value)[n] == key_event(
                codes[n],
                value,
            ),
    decreases codes.len(),
{
    if codes.len() > 0 {
        lemma_key_events_elems(codes.drop_first(), value);
        assert forall|n: int| 0 <= n < codes.len() implies #[trigger] key_events(codes, value)[n]
            == key_event(codes[n], value) by {
            if n > 0 {
                assert(key_events(codes, value)[n] == key_events(codes.drop_first(), value)[n
                    - 1]);
                assert(codes.drop_first()[n - 1] == codes[n]);
            }
        }
    }
}

/// A run of key events all carrying `value` has no key event of another
/// value.
pub proof fn lemma_key_events_no_other_value(codes: Seq<u16>, value: i32, other: i32)
    requires
        value != other,
    ensures
        no_key_value(key_events(codes, value), other),
{
    lemma_key_events_elems(codes, value);
}

pub proof fn lemma_no_key_value_concat(a: Seq<OutputEvent>, b: Seq<OutputEvent>, value: i32)
    requires
        no_key_value(a, value),
        no_key_value(b, value),
    ensures
        no_key_value(a + b, value),
{
    assert forall|n: int|
        0 <= n < (a + b).len() implies (((a + b)[n]).kind == EventKind::Key ==> (a + b)[n].value
        != value) by {
        if n < a.len() {
            assert((a + b)[n] == a[n]);
        } else {
            assert((a + b)[n] == b[n - a.len()]);
        }
    }
}

pub proof fn lemma_count_key_events(codes: Seq<u16>, value: i32, code: u16, wanted: i32)
    ensures
        count_key_value(key_events(codes, value), code, wanted) == (if value == wanted {
            code_count(codes, code)
        } else {
            0nat
        }),
    decreases codes.len(),
{
    if codes.len() == 0 {
    } else {
        lemma_count_key_events(codes.drop_first(), value, code, wanted);
        lemma_count_key_value_concat(
            seq![key_event(codes[0], value)],
            key_events(codes.drop_first(), value),
            code,
            wanted,
        );
        assert(count_key_value(seq![key_event(codes[0], value)], code, wanted) == (if value
            == wanted && codes[0] == code {
            1nat
        } else {
            0nat
        })) by {
            reveal_with_fuel(count_key_value, 2);
            assert(seq![key_event(codes[0], value)].drop_first() =~= Seq::<OutputEvent>::empty());
        }
    }
}

/// Each mapping-table row lists every key code at most once, so a row
/// contains a code exactly once or not at all.
pub proof fn lemma_tablet_row_count(i: u16, code: u16)
    requires
        valid_tablet_button(i),
    ensures
        code_count(tablet_keys_spec(i), code) == (if tablet_keys_spec(i).contains(code) {
            1nat
        } else {
            0nat
        }),
{
    reveal_with_fuel(code_count, 3);
    let row = tablet_keys_spec(i);
    if row.len() == 1 {
        assert(row.drop_first() =~= Seq::<u16>::empty());
        if row[0] == code {
            assert(row.contains(code));
        } else {
            assert(!row.contains(code)) by {
                if row.contains(code) {
                    let n = choose|n: int| 0 <= n < row.len() && row[n] == code;
                    assert(n == 0);
                }
            }
        }
    } else {
        assert(i == 7);
        assert(row.len() == 2);
        assert(row.drop_first() =~= seq![row[1]]);
        assert(row.drop_first().drop_first() =~= Seq::<u16>::empty());
        assert(row[0] != row[1]);
        if row[0] == code || row[1] == code {
            assert(row.contains(code));
            assert(code_count(row, code) == 1);
        } else {
            assert(!row.contains(code)) by {
                if row.contains(code) {
                    let n = choose|n: int| 0 <= n < row.len() && row[n] == code;
                    assert(n == 0 || n == 1);
                }
            }
        }
    }
}

/// Counts press events for `code` among the tablet buttons below `n`, when
/// button `i` takes a press edge and no other button mapped to `code` does.
proof fn lemma_tablet_upto_press_count(
    last: u16,
    cur: u16,
    hold: bool,
    i: u16,
    code: u16,
    n: int,
)
    requires
        valid_tablet_button(i),
        !bit_pressed(last, i),
        bit_pressed(cur, i),
        tablet_keys_spec(i).contains(code),
        forall|j: u16|
            j < 14 && j != i && #[trigger] tablet_keys_spec(j).contains(code) ==> !(!bit_pressed(
                last,
                j,
            ) && bit_pressed(cur, j)),
        0 <= n <= 14,
    ensures
        count_key_value(tablet_events_upto(last, cur, hold, n), code, PRESSED) == (if i < n {
            1nat
        } else {
            0nat
        }),
    decreases n,
{
    if n > 0 {
        lemma_tablet_upto_press_count(last, cur, hold, i, code, n - 1);
        let j = (n - 1) as u16;
        let step = tablet_button_events(last, cur, hold, j);
        lemma_count_key_value_concat(
            tablet_events_upto(last, cur, hold, n - 1),
            step,
            code,
            PRESSED,
        );
        if j == 10 || j == 11 {
            assert(count_key_value(step, code, PRESSED) == 0);
        } else {
            let was = bit_pressed(last, j);
            let now = bit_pressed(cur, j);
            lemma_tablet_row_count(j, code);
            if j == i {
                assert(step == key_events(tablet_keys_spec(i), PRESSED));
                lemma_count_key_events(tablet_keys_spec(i), PRESSED, code, PRESSED);
                assert(count_key_value(step, code, PRESSED) == 1);
            } else if !was && now {
                assert(!tablet_keys_spec(j).contains(code));
                lemma_count_key_events(tablet_keys_spec(j), PRESSED, code, PRESSED);
                assert(count_key_value(step, code, PRESSED) == 0);
            } else if was && !now {
                lemma_count_key_events(tablet_keys_spec(j), RELEASED, code, PRESSED);
                assert(count_key_value(step, code, PRESSED) == 0);
            } else if was && now {
                lemma_count_key_events(tablet_keys_spec(j), HOLD, code, PRESSED);
                assert(count_key_value(step, code, PRESSED) == 0);
            } else {
                assert(count_key_value(step, code, PRESSED) == 0);
            }
        }
    }
}

/// Law: when tablet button `i` takes a press edge between two consecutive
/// reports — its active-low bit goes from set to cleared — and no other
/// button mapped to the same key code takes a press edge in the same cycle,
/// the keyboard frame of that cycle carries exactly one press event for each
/// key code mapped to `i`. The dispatcher's own contract adds that the
/// remembered bitmask is then overwritten with the new one.
pub proof fn lemma_press_edge_emits_each_key_once(
    last: u16,
    cur: u16,
    hold: bool,
    i: u16,
    code: u16,
)
    requires
        valid_tablet_button(i),
        !bit_pressed(last, i),
        bit_pressed(cur, i),
        tablet_keys_spec(i).contains(code),
        forall|j: u16|
            j < 14 && j != i && #[trigger] tablet_keys_spec(j).contains(code) ==> !(!bit_pressed(
                last,
                j,
            ) && bit_pressed(cur, j)),
    ensures
        count_key_value(
            tablet_events_spec(last, cur, hold) + seq![syn_event()],
            code,
            PRESSED,
        ) == 1,
{
    lemma_tablet_upto_press_count(last, cur, hold, i, code, 14);
    lemma_count_key_value_concat(
        tablet_events_spec(last, cur, hold),
        seq![syn_event()],
        code,
        PRESSED,
    );
    assert(count_key_value(seq![syn_event()], code, PRESSED) == 0) by {
        reveal_with_fuel(count_key_value, 2);
        assert(seq![syn_event()].drop_first() =~= Seq::<OutputEvent>::empty());
    }
}

/// The tablet events below `n` have no key event carrying `value`, provided
/// no button's transition emits that value.
proof fn lemma_tablet_upto_no_key_value(last: u16, cur: u16, hold: bool, n: int, value: i32)
    requires
        0 <= n <= 14,
        forall|j: u16|
            j < 14 ==> #[trigger] tablet_transition(last, cur, j) != Some(value),
    ensures
        no_key_value(tablet_events_upto(last, cur, hold, n), value),
    decreases n,
{
    if n > 0 {
        lemma_tablet_upto_no_key_value(last, cur, hold, n - 1, value);
        let j = (n - 1) as u16;
        let step = tablet_button_events(last, cur, hold, j);
        assert(no_key_value(step, value)) by {
            if j != 10 && j != 11 {
                let was = bit_pressed(last, j);
                let now = bit_pressed(cur, j);
                if !was && now {
                    assert(tablet_transition(last, cur, j) == Some(PRESSED));
                    lemma_key_events_no_other_value(tablet_keys_spec(j), PRESSED, value);
                } else if was && !now {
                    assert(tablet_transition(last, cur, j) == Some(RELEASED));
                    lemma_key_events_no_other_value(tablet_keys_spec(j), RELEASED, value);
                } else if was && now && hold {
                    assert(tablet_transition(last, cur, j) == Some(HOLD));
                    lemma_key_events_no_other_value(tablet_keys_spec(j), HOLD, value);
                }
            }
        }
        lemma_no_key_value_concat(tablet_events_upto(last, cur, hold, n - 1), step, value);
    }
}

/// No key event of the pen frame carries `value`, provided neither the
/// pen-button transition nor the touch edge emits it.
proof fn lemma_pen_events_no_key_value(
    pen_last: u8,
    was_touching: bool,
    d: Seq<u8>,
    value: i32,
)
    requires
        match pen_transition(pen_last, pen_button_spec(d)) {
            Some((v, id)) => v != value,
            None => true,
        },
        (!was_touching && is_touching_spec(pressure_spec(d) as int)) ==> value != PRESSED,
        (was_touching && !is_touching_spec(pressure_spec(d) as int)) ==> value != RELEASED,
    ensures
        no_key_value(pen_events_spec(pen_last, was_touching, d), value),
{
    let cur = pen_button_spec(d);
    assert(no_key_value(pen_key_events_spec(pen_last, cur), value)) by {
        match pen_transition(pen_last, cur) {
            Some((v, id)) => {
                lemma_key_events_no_other_value(pen_keys_spec(id), v, value);
            },
            None => {},
        }
    }
    let abs = abs_events_spec(
        x_axis_spec(d) as i32,
        y_axis_spec(d) as i32,
        normalize_spec(pressure_spec(d) as int) as i32,
    );
    assert(no_key_value(abs, value)) by {
        assert(abs[0].kind == EventKind::AbsoluteAxis);
        assert(abs[1].kind == EventKind::AbsoluteAxis);
        assert(abs[2].kind == EventKind::AbsoluteAxis);
    }
    let now = is_touching_spec(pressure_spec(d) as int);
    let touch = touch_events_spec(was_touching, now);
    assert(no_key_value(touch, value)) by {
        if !was_touching && now {
            assert(touch[0].value == PRESSED);
        } else if was_touching && !now {
            assert(touch[0].value == RELEASED);
        }
    }
    lemma_no_key_value_concat(
        pen_key_events_spec(pen_last, cur),
        abs,
        value,
    );
    lemma_no_key_value_concat(
        pen_key_events_spec(pen_last, cur) + abs,
        touch,
        value,
    );
}

/// Law: dispatching a report identical to the remembered state — the same
/// tablet bitmask, the same pen-button code, the same touch state — emits no
/// press and no release on either sink; every key event, if any, is a
/// sustained hold. In particular, dispatching the same report twice in a row
/// never repeats an edge.
pub proof fn lemma_repeated_report_emits_no_edges(
    pen_last: u8,
    was_touching: bool,
    hold: bool,
    d: Seq<u8>,
)
    requires
        d.len() >= MIN_REPORT_LEN,
        pen_last == pen_button_spec(d),
        was_touching == is_touching_spec(pressure_spec(d) as int),
    ensures
        no_key_value(
            tablet_events_spec(tablet_mask_spec(d), tablet_mask_spec(d), hold) + seq![
                syn_event(),
            ],
            PRESSED,
        ),
        no_key_value(
            tablet_events_spec(tablet_mask_spec(d), tablet_mask_spec(d), hold) + seq![
                syn_event(),
            ],
            RELEASED,
        ),
        no_key_value(pen_events_spec(pen_last, was_touching, d) + seq![syn_event()], PRESSED),
        no_key_value(pen_events_spec(pen_last, was_touching, d) + seq![syn_event()], RELEASED),
{
    let m = tablet_mask_spec(d);
    assert(forall|j: u16| j < 14 ==> #[trigger] tablet_transition(m, m, j) != Some(PRESSED));
    assert(forall|j: u16| j < 14 ==> #[trigger] tablet_transition(m, m, j) != Some(RELEASED));
    lemma_tablet_upto_no_key_value(m, m, hold, 14, PRESSED);
    lemma_tablet_upto_no_key_value(m, m, hold, 14, RELEASED);
    let syn = seq![syn_event()];
    assert(no_key_value(syn, PRESSED));
    assert(no_key_value(syn, RELEASED));
    lemma_no_key_value_concat(tablet_events_spec(m, m, hold), syn, PRESSED);
    lemma_no_key_value_concat(tablet_events_spec(m, m, hold), syn, RELEASED);
    lemma_pen_events_no_key_value(pen_last, was_touching, d, PRESSED);
    lemma_pen_events_no_key_value(pen_last, was_touching, d, RELEASED);
    lemma_no_key_value_concat(pen_events_spec(pen_last, was_touching, d), syn, PRESSED);
    lemma_no_key_value_concat(pen_events_spec(pen_last, was_touching, d), syn, RELEASED);
}

/// Law: the very first dispatch call, whatever the report holds, never emits
/// a release on either sink. The all-bits-set tablet sentinel reads as "no
/// button was pressed", the zero pen sentinel matches no release rule, and
/// the touch state starts as "not touching".
pub proof fn lemma_first_dispatch_never_releases(hold: bool, d: Seq<u8>)
    requires
        d.len() >= MIN_REPORT_LEN,
    ensures
        no_key_value(
            tablet_events_spec(TABLET_MASK_SENTINEL, tablet_mask_spec(d), hold) + seq![
                syn_event(),
            ],
            RELEASED,
        ),
        no_key_value(pen_events_spec(0u8, false, d) + seq![syn_event()], RELEASED),
{
    assert(forall|j: u16| j < 14 ==> TABLET_MASK_SENTINEL & (1u16 << j) != 0) by (bit_vector);
    assert(forall|j: u16|
        j < 14 ==> #[trigger] tablet_transition(TABLET_MASK_SENTINEL, tablet_mask_spec(d), j)
            != Some(RELEASED));
    lemma_tablet_upto_no_key_value(TABLET_MASK_SENTINEL, tablet_mask_spec(d), hold, 14, RELEASED);
    let syn = seq![syn_event()];
    assert(no_key_value(syn, RELEASED));
    lemma_no_key_value_concat(
        tablet_events_spec(TABLET_MASK_SENTINEL, tablet_mask_spec(d), hold),
        syn,
        RELEASED,
    );
    lemma_pen_events_no_key_value(0u8, false, d, RELEASED);
    lemma_no_key_value_concat(pen_events_spec(0u8, false, d), syn, RELEASED);
}

/// The tablet events of one cycle contain no synchronization event.
proof fn lemma_tablet_upto_no_syn(last: u16, cur: u16, hold: bool, n: int)
    requires
        0 <= n <= 14,
    ensures
        count_kind(tablet_events_upto(last, cur, hold, n), EventKind::Synchronization) == 0,
    decreases n,
{
    if n > 0 {
        lemma_tablet_upto_no_syn(last, cur, hold, n - 1);
        let j = (n - 1) as u16;
        let step = tablet_button_events(last, cur, hold, j);
        lemma_count_kind_concat(
            tablet_events_upto(last, cur, hold, n - 1),
            step,
            EventKind::Synchronization,
        );
        assert(count_kind(step, EventKind::Synchronization) == 0) by {
            if j != 10 && j != 11 {
                match tablet_transition(last, cur, j) {
                    Some(value) => {
                        lemma_key_events_only_keys(tablet_keys_spec(j), value);
                    },
                    None => {},
                }
            }
        }
    }
}

/// A run of key events holds nothing but key-kind events.
proof fn lemma_key_events_only_keys(codes: Seq<u16>, value: i32)
    ensures
        count_kind(key_events(codes, value), EventKind::Synchronization) == 0,
    decreases codes.len(),
{
    if codes.len() > 0 {
        lemma_key_events_only_keys(codes.drop_first(), value);
        lemma_count_kind_concat(
            seq![key_event(codes[0], value)],
            key_events(codes.drop_first(), value),
            EventKind::Synchronization,
        );
        assert(count_kind(seq![key_event(codes[0], value)], EventKind::Synchronization) == 0)
            by {
            reveal_with_fuel(count_kind, 2);
            assert(seq![key_event(codes[0], value)].drop_first() =~= Seq::<OutputEvent>::empty());
        }
    }
}

/// Law: each sink's frame of one dispatch cycle carries exactly one
/// synchronization event, and it stands at the very end — no partial frame
/// is ever left unsynchronized.
pub proof fn lemma_one_syn_per_frame(
    tablet_last: u16,
    pen_last: u8,
    was_touching: bool,
    hold: bool,
    d: Seq<u8>,
)
    requires
        d.len() >= MIN_REPORT_LEN,
    ensures
        ({
            let frame = tablet_events_spec(tablet_last, tablet_mask_spec(d), hold) + seq![
                syn_event(),
            ];
            count_kind(frame, EventKind::Synchronization) == 1 && frame.len() >= 1 && frame[
                frame.len() - 1
            ] == syn_event()
        }),
        ({
            let frame = pen_events_spec(pen_last, was_touching, d) + seq![syn_event()];
            count_kind(frame, EventKind::Synchronization) == 1 && frame.len() >= 1 && frame[
                frame.len() - 1
            ] == syn_event()
        }),
{
    let syn = seq![syn_event()];
    assert(count_kind(syn, EventKind::Synchronization) == 1) by {
        reveal_with_fuel(count_kind, 2);
        assert(syn.drop_first() =~= Seq::<OutputEvent>::empty());
    }
    lemma_tablet_upto_no_syn(tablet_last, tablet_mask_spec(d), hold, 14);
    lemma_count_kind_concat(
        tablet_events_spec(tablet_last, tablet_mask_spec(d), hold),
        syn,
        EventKind::Synchronization,
    );
    let cur = pen_button_spec(d);
    let pen_keys_part = pen_key_events_spec(pen_last, cur);
    assert(count_kind(pen_keys_part, EventKind::Synchronization) == 0) by {
        match pen_transition(pen_last, cur) {
            Some((v, id)) => {
                lemma_key_events_only_keys(pen_keys_spec(id), v);
            },
            None => {},
        }
    }
    let abs = abs_events_spec(
        x_axis_spec(d) as i32,
        y_axis_spec(d) as i32,
        normalize_spec(pressure_spec(d) as int) as i32,
    );
    assert(count_kind(abs, EventKind::Synchronization) == 0) by {
        reveal_with_fuel(count_kind, 4);
        assert(abs.drop_first() =~= seq![abs[1], abs[2]]);
        assert(abs.drop_first().drop_first() =~= seq![abs[2]]);
        assert(abs.drop_first().drop_first().drop_first() =~= Seq::<OutputEvent>::empty());
    }
    let now = is_touching_spec(pressure_spec(d) as int);
    let touch = touch_events_spec(was_touching, now);
    assert(count_kind(touch, EventKind::Synchronization) == 0) by {
        reveal_with_fuel(count_kind, 2);
        if !was_touching && now {
            assert(touch.drop_first() =~= Seq::<OutputEvent>::empty());
        } else if was_touching && !now {
            assert(touch.drop_first() =~= Seq::<OutputEvent>::empty());
        }
    }
    lemma_count_kind_concat(pen_keys_part, abs, EventKind::Synchronization);
    lemma_count_kind_concat(pen_keys_part + abs, touch, EventKind::Synchronization);
    lemma_count_kind_concat(
        pen_events_spec(pen_last, was_touching, d),
        syn,
        EventKind::Synchronization,
    );
}

} // verus!
